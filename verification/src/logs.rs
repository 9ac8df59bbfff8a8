//! Selecting the last lines of a log. Reading the log file and
//! streaming appended lines are the host program's work; the
//! byte-level line arithmetic is here.

use vstd::prelude::*;

verus! {

/// The bytes before the first newline (all of them when there is
/// none).
pub open spec fn line_len(s: Seq<u8>) -> int
    decreases s.len(),
{
    if s.len() == 0 {
        0
    } else if s[0] == 10u8 {
        0
    } else {
        1 + line_len(s.drop_first())
    }
}

/// The first line is never longer than the text.
proof fn lemma_line_len_le(s: Seq<u8>)
    ensures
        0 <= line_len(s) <= s.len(),
    decreases s.len(),
{
    if s.len() > 0 && s[0] != 10u8 {
        lemma_line_len_le(s.drop_first());
    }
}

/// The lines of a byte text, split on `\n`: a trailing newline closes
/// the last line without opening an empty one, and a trailing segment
/// without a newline is a line of its own.
pub open spec fn split_lines(s: Seq<u8>) -> Seq<Seq<u8>>
    decreases s.len(),
    via split_lines_dec
{
    if s.len() == 0 {
        Seq::empty()
    } else {
        let k = line_len(s);
        if k == s.len() {
            seq![s]
        } else {
            seq![s.take(k)] + split_lines(s.skip(k + 1))
        }
    }
}

#[via_fn]
proof fn split_lines_dec(s: Seq<u8>) {
    lemma_line_len_le(s);
}

/// Lines joined back with `\n` between them, none at the end.
pub open spec fn join_lines(ls: Seq<Seq<u8>>) -> Seq<u8>
    decreases ls.len(),
{
    if ls.len() == 0 {
        Seq::empty()
    } else if ls.len() == 1 {
        ls[0]
    } else {
        join_lines(ls.drop_last()) + seq![10u8] + ls.last()
    }
}

/// The bytes before the first newline of a text are exactly a
/// newline-free prefix.
proof fn lemma_line_len_prefix(cur: Seq<u8>, rest: Seq<u8>)
    requires
        forall|j: int| 0 <= j < cur.len() ==> cur[j] != 10u8,
    ensures
        line_len(cur + seq![10u8] + rest) == cur.len(),
    decreases cur.len(),
{
    let s = cur + seq![10u8] + rest;
    if cur.len() == 0 {
        assert(s[0] == 10u8);
    } else {
        assert(s[0] == cur[0]);
        assert(s[0] != 10u8);
        lemma_line_len_prefix(cur.drop_first(), rest);
        assert(s.drop_first() =~= cur.drop_first() + seq![10u8] + rest);
    }
}

/// A newline-free text is one line.
proof fn lemma_line_len_all(cur: Seq<u8>)
    requires
        forall|j: int| 0 <= j < cur.len() ==> cur[j] != 10u8,
    ensures
        line_len(cur) == cur.len(),
    decreases cur.len(),
{
    if cur.len() > 0 {
        lemma_line_len_all(cur.drop_first());
    }
}

/// Splitting a text that begins with a newline-free line and its
/// newline peels that line off the front.
proof fn lemma_split_lines_first(cur: Seq<u8>, rest: Seq<u8>)
    requires
        forall|j: int| 0 <= j < cur.len() ==> cur[j] != 10u8,
    ensures
        split_lines(cur + seq![10u8] + rest) == seq![cur] + split_lines(rest),
{
    let s = cur + seq![10u8] + rest;
    lemma_line_len_prefix(cur, rest);
    assert(s.len() > 0);
    assert(line_len(s) == cur.len() < s.len());
    assert(s.take(cur.len() as int) =~= cur);
    assert(s.skip(cur.len() as int + 1) =~= rest);
}

/// Split a byte text into its lines.
#[verifier::loop_isolation(false)]
pub fn split_into_lines(content: &[u8]) -> (r: Vec<Vec<u8>>)
    ensures
        Seq::new(r@.len(), |i: int| r@[i]@) == split_lines(content@),
{
    let n = content.len();
    let mut lines: Vec<Vec<u8>> = Vec::new();
    let mut cur: Vec<u8> = Vec::new();
    let mut i: usize = 0;
    proof {
        assert(Seq::new(lines@.len(), |k: int| lines@[k]@) =~= Seq::<Seq<u8>>::empty());
        assert(cur@ + content@.skip(0) =~= content@);
    }
    while i < n
        invariant
            n == content@.len(),
            0 <= i <= n,
            forall|j: int| 0 <= j < cur@.len() ==> cur@[j] != 10u8,
            split_lines(content@) == Seq::new(lines@.len(), |k: int| lines@[k]@) + split_lines(
                cur@ + content@.skip(i as int),
            ),
        decreases n - i,
    {
        let b = content[i];
        let ghost lines_pre = lines@;
        let ghost cur_pre = cur@;
        if b == 10 {
            lines.push(cur);
            cur = Vec::new();
            proof {
                assert(cur_pre + content@.skip(i as int) =~= cur_pre + seq![10u8]
                    + content@.skip(i + 1));
                lemma_split_lines_first(cur_pre, content@.skip(i + 1));
                assert(Seq::new(lines@.len(), |k: int| lines@[k]@) =~= Seq::new(
                    lines_pre.len(),
                    |k: int| lines_pre[k]@,
                ).push(cur_pre));
                assert(cur@ + content@.skip(i + 1) =~= content@.skip(i + 1));
                assert(split_lines(content@) =~= Seq::new(lines@.len(), |k: int| lines@[k]@)
                    + split_lines(cur@ + content@.skip(i + 1)));
            }
        } else {
            cur.push(b);
            proof {
                assert(cur_pre + content@.skip(i as int) =~= cur@ + content@.skip(i + 1));
            }
        }
        i += 1;
    }
    proof {
        assert(cur@ + content@.skip(n as int) =~= cur@);
    }
    if cur.len() > 0 {
        let ghost lines_pre = lines@;
        let ghost cur_pre = cur@;
        lines.push(cur);
        proof {
            lemma_line_len_all(cur_pre);
            assert(split_lines(cur_pre) == seq![cur_pre]);
            assert(Seq::new(lines@.len(), |k: int| lines@[k]@) =~= Seq::new(
                lines_pre.len(),
                |k: int| lines_pre[k]@,
            ).push(cur_pre));
            assert(Seq::new(lines@.len(), |k: int| lines@[k]@) =~= split_lines(content@));
        }
    } else {
        proof {
            assert(split_lines(cur@) =~= Seq::<Seq<u8>>::empty());
            assert(Seq::new(lines@.len(), |k: int| lines@[k]@) =~= split_lines(content@));
        }
    }
    lines
}

/// Appending one line extends the join by a newline and the line (or
/// is the line itself at the front).
proof fn lemma_join_lines_take_step(ls: Seq<Seq<u8>>, i: int)
    requires
        0 <= i < ls.len(),
    ensures
        i == 0 ==> join_lines(ls.take(1)) == ls[0],
        i > 0 ==> join_lines(ls.take(i + 1)) == join_lines(ls.take(i)) + seq![10u8] + ls[i],
{
    assert(ls.take(i + 1).drop_last() =~= ls.take(i));
    assert(ls.take(i + 1).last() == ls[i]);
}

/// The last `n` lines of a byte text, joined with `\n` and no trailing
/// newline — the non-follow half of a log query.
#[verifier::loop_isolation(false)]
pub fn tail_lines(content: &[u8], n: usize) -> (r: Vec<u8>)
    ensures
        r@ == join_lines(
            split_lines(content@).skip(
                if split_lines(content@).len() > n {
                    split_lines(content@).len() - n
                } else {
                    0
                },
            ),
        ),
{
    let lines = split_into_lines(content);
    let total = lines.len();
    let start: usize = if total > n {
        total - n
    } else {
        0
    };
    let ghost wanted = split_lines(content@).skip(start as int);
    let mut r: Vec<u8> = Vec::new();
    let mut k: usize = 0;
    proof {
        assert(wanted.take(0) =~= Seq::<Seq<u8>>::empty());
        assert(r@ =~= join_lines(wanted.take(0)));
    }
    while k < total - start
        invariant
            total == lines@.len(),
            total == split_lines(content@).len(),
            Seq::new(lines@.len(), |i: int| lines@[i]@) == split_lines(content@),
            start <= total,
            wanted == split_lines(content@).skip(start as int),
            0 <= k <= total - start,
            r@ == join_lines(wanted.take(k as int)),
        decreases total - start - k,
    {
        proof {
            lemma_join_lines_take_step(wanted, k as int);
            assert(wanted[k as int] == lines@[start + k]@);
        }
        if k > 0 {
            r.push(10);
        }
        let ghost r_mid = r@;
        let line = &lines[start + k];
        let mut j: usize = 0;
        let m = line.len();
        while j < m
            invariant
                m == line@.len(),
                0 <= j <= m,
                r@ == r_mid + line@.take(j as int),
            decreases m - j,
        {
            r.push(line[j]);
            proof {
                assert(r@ =~= r_mid + line@.take(j + 1));
            }
            j += 1;
        }
        proof {
            assert(line@.take(m as int) =~= line@);
            if k == 0 {
                assert(r@ =~= join_lines(wanted.take(1)));
            } else {
                assert(r@ =~= join_lines(wanted.take(k as int)) + seq![10u8] + wanted[k as int]);
                assert(r@ =~= join_lines(wanted.take(k + 1)));
            }
        }
        k += 1;
    }
    proof {
        assert(wanted.take((total - start) as int) =~= wanted);
    }
    r
}

} // verus!
