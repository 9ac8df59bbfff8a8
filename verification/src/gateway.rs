//! The reverse-proxy gateway's routing logic. The decision is made
//! from the request's Host header alone: the reserved `admin-api` and
//! `admin` labels go to the administrative surfaces, any other leftmost
//! label names an app. The host program performs the HTTP I/O the plan
//! asks for and relays the upstream response verbatim.

use vstd::prelude::*;
use crate::models::{App, AppState, AppV, state_label};
use crate::store::Store;
use crate::numstr::{dec_of, u64_to_string};

verus! {

/// One HTTP request, reduced to the plain values the gateway reads and
/// rewrites. Header names are expected lowercase, as HTTP/2 and the
/// usual server stacks normalize them.
pub struct HttpRequest {
    pub method: String,
    pub path_and_query: String,
    pub headers: Vec<(String, String)>,
    pub body: Vec<u8>,
}

/// Mathematical model of a request.
#[verifier::ext_equal]
pub ghost struct HttpRequestV {
    pub method: Seq<char>,
    pub path_and_query: Seq<char>,
    pub headers: Seq<(Seq<char>, Seq<char>)>,
    pub body: Seq<u8>,
}

impl View for HttpRequest {
    type V = HttpRequestV;

    open spec fn view(&self) -> HttpRequestV {
        HttpRequestV {
            method: self.method@,
            path_and_query: self.path_and_query@,
            headers: crate::models::env_view(self.headers@),
            body: self.body@,
        }
    }
}

/// Whether `p` is a prefix of `s`.
pub open spec fn starts_with(s: Seq<char>, p: Seq<char>) -> bool {
    s.len() >= p.len() && s.take(p.len() as int) == p
}

/// Whether the string slice starts with the given prefix.
#[verifier::loop_isolation(false)]
pub fn str_starts_with(s: &str, p: &str) -> (r: bool)
    ensures
        r == starts_with(s@, p@),
{
    let slen = s.unicode_len();
    let plen = p.unicode_len();
    if slen < plen {
        return false;
    }
    let mut i: usize = 0;
    while i < plen
        invariant
            slen == s@.len(),
            plen == p@.len(),
            plen <= slen,
            0 <= i <= plen,
            forall|j: int| 0 <= j < i ==> s@[j] == p@[j],
        decreases plen - i,
    {
        if s.get_char(i) != p.get_char(i) {
            proof {
                assert(s@.take(plen as int)[i as int] != p@[i as int]);
            }
            return false;
        }
        i += 1;
    }
    proof {
        assert(s@.take(plen as int) =~= p@);
    }
    true
}

/// How many characters stand before the first `.` (all of them when
/// there is no dot).
pub open spec fn label_len(s: Seq<char>) -> int
    decreases s.len(),
{
    if s.len() == 0 {
        0
    } else if s[0] == '.' {
        0
    } else {
        1 + label_len(s.drop_first())
    }
}

/// The leftmost label of a host name: everything before the first `.`.
pub open spec fn first_label(s: Seq<char>) -> Seq<char> {
    s.take(label_len(s))
}

/// The characters before the first dot hold no dot, and the label ends
/// at a dot or at the end of the string.
pub proof fn lemma_label_len_props(s: Seq<char>)
    ensures
        0 <= label_len(s) <= s.len(),
        forall|j: int| 0 <= j < label_len(s) ==> s[j] != '.',
        label_len(s) < s.len() ==> s[label_len(s)] == '.',
    decreases s.len(),
{
    if s.len() > 0 && s[0] != '.' {
        let d = s.drop_first();
        lemma_label_len_props(d);
        assert forall|j: int| 0 <= j < label_len(s) implies s[j] != '.' by {
            if j > 0 {
                assert(d[j - 1] != '.');
            }
        }
    }
}

/// Where an inbound request is routed, decided from the Host header.
#[derive(Clone, Debug)]
pub enum Route {
    /// Reserved prefix `admin-api.`: the administrative REST router.
    AdminApi,
    /// Reserved prefix `admin.`: the status dashboard.
    Admin,
    /// The leftmost label names an app.
    App(String),
    /// The host starts with a dot or is empty: no app was named.
    NoApp,
}

/// Route a request by its Host header: the reserved prefixes win, any
/// other leftmost label names an app, and an empty label names none.
#[verifier::loop_isolation(false)]
pub fn route_for_host(host: &str) -> (r: Route)
    ensures
        starts_with(host@, "admin-api."@) ==> r is AdminApi,
        !starts_with(host@, "admin-api."@) && starts_with(host@, "admin."@) ==> r is Admin,
        !starts_with(host@, "admin-api."@) && !starts_with(host@, "admin."@) && first_label(
            host@,
        ).len() == 0 ==> r is NoApp,
        !starts_with(host@, "admin-api."@) && !starts_with(host@, "admin."@) && first_label(
            host@,
        ).len() > 0 ==> (r matches Route::App(n) && n@ == first_label(host@)),
{
    if str_starts_with(host, "admin-api.") {
        return Route::AdminApi;
    }
    if str_starts_with(host, "admin.") {
        return Route::Admin;
    }
    let len = host.unicode_len();
    let mut i: usize = 0;
    while i < len
        invariant
            len == host@.len(),
            0 <= i <= len,
            forall|j: int| 0 <= j < i ==> host@[j] != '.',
        decreases len - i,
    {
        if host.get_char(i) == '.' {
            break ;
        }
        i += 1;
    }
    proof {
        lemma_label_len_props(host@);
        if (i as int) < label_len(host@) {
            assert(host@[i as int] != '.');
        }
        if label_len(host@) < i as int {
            assert(host@[label_len(host@)] != '.');
        }
        assert(i as int == label_len(host@));
    }
    if i == 0 {
        return Route::NoApp;
    }
    let label = host.substring_char(0, i);
    proof {
        assert(label@ =~= first_label(host@));
    }
    Route::App(String::from_str(label))
}

/// The headers an upstream request carries: everything but `host`, then
/// the original host as `x-forwarded-host`, then `x-forwarded-proto`.
pub open spec fn forwarded_headers(
    headers: Seq<(Seq<char>, Seq<char>)>,
    original_host: Seq<char>,
) -> Seq<(Seq<char>, Seq<char>)> {
    headers.filter(|kv: (Seq<char>, Seq<char>)| kv.0 != "host"@).push(
        ("x-forwarded-host"@, original_host),
    ).push(("x-forwarded-proto"@, "http"@))
}

/// Rewrite a request's headers for forwarding: drop `host`, add
/// `x-forwarded-host` with the original host and `x-forwarded-proto`.
#[verifier::loop_isolation(false)]
pub fn forward_headers(headers: Vec<(String, String)>, original_host: &str) -> (r: Vec<
    (String, String),
>)
    ensures
        crate::models::env_view(r@) == forwarded_headers(
            crate::models::env_view(headers@),
            original_host@,
        ),
{
    let ghost pre = crate::models::env_view(headers@);
    let n = headers.len();
    let mut kept: Vec<(String, String)> = Vec::new();
    let mut i: usize = 0;
    proof {
        assert(pre.take(0) =~= Seq::<(Seq<char>, Seq<char>)>::empty());
        assert(crate::models::env_view(kept@) =~= Seq::<(Seq<char>, Seq<char>)>::empty());
        reveal(Seq::filter);
    }
    while i < n
        invariant
            n == headers.len(),
            crate::models::env_view(headers@) == pre,
            0 <= i <= n,
            crate::models::env_view(kept@) == pre.take(i as int).filter(
                |kv: (Seq<char>, Seq<char>)| kv.0 != "host"@,
            ),
        decreases n - i,
    {
        proof {
            crate::lemma_filter_take_step(
                pre,
                i as int,
                |kv: (Seq<char>, Seq<char>)| kv.0 != "host"@,
            );
        }
        if !crate::str_eq(headers[i].0.as_str(), "host") {
            let pair = (headers[i].0.clone(), headers[i].1.clone());
            kept.push(pair);
        }
        proof {
            assert(crate::models::env_view(kept@) =~= pre.take(i + 1).filter(
                |kv: (Seq<char>, Seq<char>)| kv.0 != "host"@,
            ));
        }
        i += 1;
    }
    proof {
        assert(pre.take(n as int) =~= pre);
    }
    kept.push((String::from_str("x-forwarded-host"), String::from_str(original_host)));
    kept.push((String::from_str("x-forwarded-proto"), String::from_str("http")));
    proof {
        assert(crate::models::env_view(kept@) =~= forwarded_headers(pre, original_host@));
    }
    kept
}

/// The URI of an upstream or probe target:
/// `http://<host>:<port><path>`.
pub open spec fn target_uri(host: Seq<char>, port: u16, path: Seq<char>) -> Seq<char> {
    "http://"@ + host + ":"@ + dec_of(port as nat) + path
}

/// Render the URI of an upstream or probe target.
pub fn build_target_uri(host: &str, port: u16, path: &str) -> (r: String)
    ensures
        r@ == target_uri(host@, port, path@),
{
    let mut r = String::from_str("http://");
    r.append(host);
    r.append(":");
    let port_str = u64_to_string(port as u64);
    r.append(port_str.as_str());
    r.append(path);
    proof {
        assert(r@ =~= target_uri(host@, port, path@));
    }
    r
}

/// The PID column of one dashboard row.
pub open spec fn pid_cell(p: Option<u32>) -> Seq<char> {
    match p {
        Some(pid) => dec_of(pid as nat),
        None => "-"@,
    }
}

/// One dashboard table row: name, state, port, PID, and a link to the
/// app's address.
pub open spec fn admin_row(a: AppV) -> Seq<char> {
    "<tr><td>"@ + a.name + "</td><td>"@ + state_label(a.state) + "</td><td>"@ + dec_of(
        a.port as nat,
    ) + "</td><td>"@ + pid_cell(a.process_id) + "</td><td><a href=\"http://"@ + a.host + ":"@
        + dec_of(a.port as nat) + "\">http://"@ + a.host + ":"@ + dec_of(a.port as nat)
        + "</a></td></tr>\n"@
}

/// The dashboard rows for a sequence of records, in order.
pub open spec fn admin_rows(apps: Seq<AppV>) -> Seq<char>
    decreases apps.len(),
{
    if apps.len() == 0 {
        Seq::empty()
    } else {
        admin_rows(apps.drop_last()) + admin_row(apps.last())
    }
}

/// The head of the dashboard page.
pub open spec fn admin_page_header() -> Seq<char> {
    "<!DOCTYPE html>\n<html>\n<head>\n<title>BinaryDrop Admin</title>\n</head>\n<body>\n<h1>BinaryDrop Admin</h1>\n<h2>Apps</h2>\n<table>\n<tr><th>Name</th><th>Status</th><th>Port</th><th>PID</th><th>URL</th></tr>\n"@
}

/// The tail of the dashboard page.
pub open spec fn admin_page_footer() -> Seq<char> {
    "</table>\n</body>\n</html>\n"@
}

/// The whole dashboard page: one row per known record, in store order.
pub open spec fn admin_html(apps: Seq<AppV>) -> Seq<char> {
    admin_page_header() + admin_rows(apps) + admin_page_footer()
}

/// Extending the records by one extends the rows by one.
pub proof fn lemma_admin_rows_take_step(apps: Seq<AppV>, i: int)
    requires
        0 <= i < apps.len(),
    ensures
        admin_rows(apps.take(i + 1)) == admin_rows(apps.take(i)) + admin_row(apps[i]),
{
    assert(apps.take(i + 1).drop_last() =~= apps.take(i));
    assert(apps.take(i + 1).last() == apps[i]);
}

/// Rows of a concatenation are the concatenated rows.
proof fn lemma_admin_rows_add(a: Seq<AppV>, b: Seq<AppV>)
    ensures
        admin_rows(a + b) == admin_rows(a) + admin_rows(b),
    decreases b.len(),
{
    if b.len() == 0 {
        assert(a + b =~= a);
        assert(admin_rows(a) + admin_rows(b) =~= admin_rows(a));
    } else {
        lemma_admin_rows_add(a, b.drop_last());
        assert((a + b).drop_last() =~= a + b.drop_last());
        assert((a + b).last() == b.last());
        assert(admin_rows(a) + admin_rows(b.drop_last()) + admin_row(b.last()) =~= admin_rows(a)
            + admin_rows(b));
    }
}

/// Whether `needle` occurs in `hay` as a contiguous run.
pub open spec fn contains_seq(hay: Seq<char>, needle: Seq<char>) -> bool {
    exists|i: int|
        0 <= i <= hay.len() - needle.len() && #[trigger] hay.subrange(i, i + needle.len())
            == needle
}

/// An occurrence survives appending on the right.
proof fn lemma_contains_extend_right(a: Seq<char>, b: Seq<char>, n: Seq<char>)
    requires
        contains_seq(a, n),
    ensures
        contains_seq(a + b, n),
{
    let i = choose|i: int|
        0 <= i <= a.len() - n.len() && #[trigger] a.subrange(i, i + n.len() as int) == n;
    assert((a + b).subrange(i, i + n.len() as int) =~= a.subrange(i, i + n.len() as int));
}

/// An occurrence survives prepending on the left.
proof fn lemma_contains_extend_left(a: Seq<char>, b: Seq<char>, n: Seq<char>)
    requires
        contains_seq(b, n),
    ensures
        contains_seq(a + b, n),
{
    let i = choose|i: int|
        0 <= i <= b.len() - n.len() && #[trigger] b.subrange(i, i + n.len() as int) == n;
    assert((a + b).subrange(a.len() + i, a.len() + i + n.len() as int) =~= b.subrange(
        i,
        i + n.len() as int,
    ));
}

/// A row carries its record's name.
proof fn lemma_admin_row_contains_name(a: AppV)
    ensures
        contains_seq(admin_row(a), a.name),
{
    let name = a.name;
    let t0 = "<tr><td>"@ + name;
    assert(t0.subrange("<tr><td>"@.len() as int, t0.len() as int) =~= name);
    assert(contains_seq(t0, name));
    let t1 = t0 + "</td><td>"@;
    lemma_contains_extend_right(t0, "</td><td>"@, name);
    let t2 = t1 + state_label(a.state);
    lemma_contains_extend_right(t1, state_label(a.state), name);
    let t3 = t2 + "</td><td>"@;
    lemma_contains_extend_right(t2, "</td><td>"@, name);
    let t4 = t3 + dec_of(a.port as nat);
    lemma_contains_extend_right(t3, dec_of(a.port as nat), name);
    let t5 = t4 + "</td><td>"@;
    lemma_contains_extend_right(t4, "</td><td>"@, name);
    let t6 = t5 + pid_cell(a.process_id);
    lemma_contains_extend_right(t5, pid_cell(a.process_id), name);
    let t7 = t6 + "</td><td><a href=\"http://"@;
    lemma_contains_extend_right(t6, "</td><td><a href=\"http://"@, name);
    let t8 = t7 + a.host;
    lemma_contains_extend_right(t7, a.host, name);
    let t9 = t8 + ":"@;
    lemma_contains_extend_right(t8, ":"@, name);
    let t10 = t9 + dec_of(a.port as nat);
    lemma_contains_extend_right(t9, dec_of(a.port as nat), name);
    let t11 = t10 + "\">http://"@;
    lemma_contains_extend_right(t10, "\">http://"@, name);
    let t12 = t11 + a.host;
    lemma_contains_extend_right(t11, a.host, name);
    let t13 = t12 + ":"@;
    lemma_contains_extend_right(t12, ":"@, name);
    let t14 = t13 + dec_of(a.port as nat);
    lemma_contains_extend_right(t13, dec_of(a.port as nat), name);
    let t15 = t14 + "</a></td></tr>\n"@;
    lemma_contains_extend_right(t14, "</a></td></tr>\n"@, name);
    assert(admin_row(a) == t15);
}

/// Law: the dashboard lists every known app — each record's name
/// occurs in the rendered page.
pub proof fn lemma_admin_page_lists_every_app(apps: Seq<AppV>, k: int)
    requires
        0 <= k < apps.len(),
    ensures
        contains_seq(admin_html(apps), apps[k].name),
{
    let name = apps[k].name;
    let single = seq![apps[k]];
    assert(apps =~= apps.take(k) + (single + apps.skip(k + 1)));
    lemma_admin_rows_add(apps.take(k), single + apps.skip(k + 1));
    lemma_admin_rows_add(single, apps.skip(k + 1));
    assert(single.drop_last() =~= Seq::<AppV>::empty());
    assert(single.last() == apps[k]);
    assert(admin_rows(single) == admin_rows(single.drop_last()) + admin_row(single.last()));
    assert(admin_rows(Seq::<AppV>::empty()) == Seq::<char>::empty());
    assert(Seq::<char>::empty() + admin_row(apps[k]) =~= admin_row(apps[k]));
    assert(admin_rows(single) == admin_row(apps[k]));
    lemma_admin_row_contains_name(apps[k]);
    lemma_contains_extend_right(admin_rows(single), admin_rows(apps.skip(k + 1)), name);
    lemma_contains_extend_left(
        admin_rows(apps.take(k)),
        admin_rows(single) + admin_rows(apps.skip(k + 1)),
        name,
    );
    assert(admin_rows(apps) == admin_rows(apps.take(k)) + (admin_rows(single) + admin_rows(
        apps.skip(k + 1),
    )));
    lemma_contains_extend_left(admin_page_header(), admin_rows(apps), name);
    lemma_contains_extend_right(admin_page_header() + admin_rows(apps), admin_page_footer(), name);
    assert(admin_html(apps) == (admin_page_header() + admin_rows(apps)) + admin_page_footer());
}

/// Render one dashboard row.
fn render_admin_row(app: &App) -> (r: String)
    ensures
        r@ == admin_row(app@),
{
    let mut r = String::from_str("<tr><td>");
    r.append(app.name.as_str());
    r.append("</td><td>");
    let state = app.state.label();
    r.append(state.as_str());
    r.append("</td><td>");
    let port_str = u64_to_string(app.port as u64);
    r.append(port_str.as_str());
    r.append("</td><td>");
    match app.process_id {
        Some(pid) => {
            let pid_str = u64_to_string(pid as u64);
            r.append(pid_str.as_str());
        },
        None => {
            r.append("-");
        },
    }
    r.append("</td><td><a href=\"http://");
    r.append(app.host.as_str());
    r.append(":");
    r.append(port_str.as_str());
    r.append("\">http://");
    r.append(app.host.as_str());
    r.append(":");
    r.append(port_str.as_str());
    r.append("</a></td></tr>\n");
    proof {
        assert(r@ =~= admin_row(app@));
    }
    r
}

/// Render the status dashboard for every known record, fresh from the
/// store.
#[verifier::loop_isolation(false)]
pub fn render_admin_page(store: &Store) -> (r: String)
    ensures
        r@ == admin_html(store@.apps),
{
    let mut r = String::from_str(
        "<!DOCTYPE html>\n<html>\n<head>\n<title>BinaryDrop Admin</title>\n</head>\n<body>\n<h1>BinaryDrop Admin</h1>\n<h2>Apps</h2>\n<table>\n<tr><th>Name</th><th>Status</th><th>Port</th><th>PID</th><th>URL</th></tr>\n",
    );
    let n = store.count();
    let mut i: usize = 0;
    proof {
        assert(store@.apps.take(0) =~= Seq::<AppV>::empty());
        assert(r@ =~= admin_page_header() + admin_rows(store@.apps.take(0)));
    }
    while i < n
        invariant
            n == store@.apps.len(),
            0 <= i <= n,
            r@ == admin_page_header() + admin_rows(store@.apps.take(i as int)),
        decreases n - i,
    {
        proof {
            lemma_admin_rows_take_step(store@.apps, i as int);
        }
        let app = store.app_at(i);
        let row = render_admin_row(&app);
        r.append(row.as_str());
        proof {
            assert(r@ =~= admin_page_header() + admin_rows(store@.apps.take(i + 1)));
        }
        i += 1;
    }
    r.append("</table>\n</body>\n</html>\n");
    proof {
        assert(store@.apps.take(n as int) =~= store@.apps);
        assert(r@ =~= admin_html(store@.apps));
    }
    r
}

/// The gateway's answer when an app's backend cannot be reached: a
/// 500 with an error body naming the failure. The request is never
/// retried.
pub fn upstream_failure_response(detail: &str) -> (r: (u16, String))
    ensures
        r.0 == 500,
        r.1@ == "Proxy error: "@ + detail@,
{
    let mut body = String::from_str("Proxy error: ");
    body.append(detail);
    (500, body)
}

/// What the gateway decided for one inbound request; the host program
/// carries it out.
pub enum GatewayPlan {
    /// Answer directly with this status and body.
    Respond { status: u16, body: String },
    /// Hand the request, unchanged, to the administrative REST router
    /// in-process.
    ForwardAdminApi,
    /// Send the rewritten request to the app's backend and relay the
    /// upstream response verbatim; an upstream connection failure
    /// becomes a 500 with an error body, never a retry.
    ForwardApp { upstream_host: String, upstream_port: u16, request: HttpRequest },
}

/// Decide one inbound request from its Host header: the reserved
/// `admin-api` label forwards to the administrative router; `admin`
/// answers 200 with the dashboard; an empty label answers 404; an
/// unknown app name answers 404; a known app that is not `Running`
/// answers 503; a running app has the request forwarded to its
/// backend, with the `host` header replaced by `x-forwarded-host` and
/// `x-forwarded-proto`, and method, path, query and body unchanged.
pub fn plan_for_request(store: &Store, host: &str, req: HttpRequest) -> (r: GatewayPlan)
    requires
        store@.wf(),
    ensures
        starts_with(host@, "admin-api."@) ==> r is ForwardAdminApi,
        !starts_with(host@, "admin-api."@) && starts_with(host@, "admin."@) ==> (r matches
            GatewayPlan::Respond { status, body } && status == 200 && body@ == admin_html(
            store@.apps,
        )),
        !starts_with(host@, "admin-api."@) && !starts_with(host@, "admin."@) && first_label(
            host@,
        ).len() == 0 ==> (r matches GatewayPlan::Respond { status, body } && status == 404
            && body@ == "No app specified in host header"@),
        !starts_with(host@, "admin-api."@) && !starts_with(host@, "admin."@) && first_label(
            host@,
        ).len() > 0 && !store@.has_name(first_label(host@)) ==> (r matches GatewayPlan::Respond {
            status,
            body,
        } && status == 404 && body@ == "App not found: "@ + first_label(host@)),
        !starts_with(host@, "admin-api."@) && !starts_with(host@, "admin."@) && first_label(
            host@,
        ).len() > 0 && store@.has_name(first_label(host@)) && store@.app_named(
            first_label(host@),
        ).state != AppState::Running ==> (r matches GatewayPlan::Respond { status, body } && status
            == 503 && body@ == "App '"@ + first_label(host@) + "' is not running"@),
        !starts_with(host@, "admin-api."@) && !starts_with(host@, "admin."@) && first_label(
            host@,
        ).len() > 0 && store@.has_name(first_label(host@)) && store@.app_named(
            first_label(host@),
        ).state == AppState::Running ==> (r matches GatewayPlan::ForwardApp {
            upstream_host,
            upstream_port,
            request,
        } && ({
            let a = store@.app_named(first_label(host@));
            &&& upstream_host@ == a.host
            &&& upstream_port == a.port
            &&& request@.method == req@.method
            &&& request@.path_and_query == req@.path_and_query
            &&& request@.body == req@.body
            &&& request@.headers == forwarded_headers(req@.headers, host@)
        })),
{
    match route_for_host(host) {
        Route::AdminApi => GatewayPlan::ForwardAdminApi,
        Route::Admin => GatewayPlan::Respond { status: 200, body: render_admin_page(store) },
        Route::NoApp => GatewayPlan::Respond {
            status: 404,
            body: String::from_str("No app specified in host header"),
        },
        Route::App(name) => {
            let app = match store.get_by_name(name.as_str()) {
                Some(app) => app,
                None => {
                    let mut body = String::from_str("App not found: ");
                    body.append(name.as_str());
                    return GatewayPlan::Respond { status: 404, body };
                },
            };
            if !app.is_running() {
                let mut body = String::from_str("App '");
                body.append(name.as_str());
                body.append("' is not running");
                return GatewayPlan::Respond { status: 503, body };
            }
            let headers = forward_headers(req.headers, host);
            let request = HttpRequest {
                method: req.method,
                path_and_query: req.path_and_query,
                headers,
                body: req.body,
            };
            GatewayPlan::ForwardApp {
                upstream_host: app.host,
                upstream_port: app.port,
                request,
            }
        },
    }
}

} // verus!
