//! Lifecycle commands on the store: create, deploy, delete, and
//! environment updates. Starting and stopping live with the
//! supervisor.

use vstd::prelude::*;
use crate::models::{App, AppError, AppState, AppV};
use crate::store::{lemma_same_record_save_ok, Store};
use crate::digest::{binary_hash_of, hash_binary};
use crate::errors::BinaryDropError;
use crate::valid_app_name;
use crate::lemma_filter_elems_from_source;

verus! {

/// Rejection of an app creation.
#[derive(Clone, PartialEq, Eq, Debug)]
pub enum AppCreateError {
    /// A record with this name already exists.
    AppAlreadyExists(String),
    /// The candidate record itself is unacceptable.
    AppError(AppError),
    /// No port from 8000 up is free.
    InternalError,
}

/// Rejection of a deployment.
#[derive(Clone, PartialEq, Eq, Debug)]
pub enum DeployError {
    AppNotFound(String),
    /// Writing the binary to its target path failed.
    CopyError(String),
    /// Marking the binary executable failed.
    PermissionError(String),
}

/// What a deployment asks of its caller.
#[derive(Clone, Copy, PartialEq, Eq, Structural, Debug)]
pub enum DeployOutcome {
    /// The binary equals the one already deployed: nothing to do.
    Unchanged,
    /// The record was updated; the binary must be written to its
    /// target path.
    Deployed,
}

/// Rejection of a deletion.
#[derive(Clone, PartialEq, Eq, Debug)]
pub enum DeleteError {
    AppNotFound(String),
    AppRunning(String),
    /// Removing the app's directory failed.
    DirectoryError(String),
}

/// The smallest port from 8000 up that no record listens on.
#[verifier::loop_isolation(false)]
pub fn next_available_port(store: &Store) -> (r: Option<u16>)
    ensures
        r matches Some(p) ==> 8000 <= p && !store@.port_used(p) && (forall|q: u16|
            8000 <= q < p ==> store@.port_used(q)),
        r is None ==> (forall|q: u16| q >= 8000 ==> store@.port_used(q)),
{
    let mut p: u32 = 8000;
    while p <= 65535
        invariant
            8000 <= p <= 65536,
            forall|q: u16| 8000 <= q < p ==> store@.port_used(q),
        decreases 65536 - p,
    {
        if !store.port_in_use(p as u16) {
            return Some(p as u16);
        }
        p = p + 1;
    }
    None
}

/// Create a new app record: the name is validated first, a taken name
/// is refused, and the record gets the smallest free port from 8000
/// up. Nothing is stored when the command fails.
pub fn create(store: &mut Store, name: &str, now: u64) -> (r: Result<(), AppCreateError>)
    requires
        old(store)@.wf(),
    ensures
        final(store)@.wf(),
        r is Err ==> final(store)@ == old(store)@,
        !valid_app_name(name@) ==> (r matches Err(AppCreateError::AppError(
            AppError::InvalidName(s),
        )) && s@ == name@),
        valid_app_name(name@) && old(store)@.has_name(name@) ==> (r matches Err(
            AppCreateError::AppAlreadyExists(s),
        ) && s@ == name@),
        valid_app_name(name@) && !old(store)@.has_name(name@) && (forall|q: u16|
            q >= 8000 ==> old(store)@.port_used(q)) ==> r == Err::<(), AppCreateError>(
            AppCreateError::InternalError,
        ),
        valid_app_name(name@) && !old(store)@.has_name(name@) && !(forall|q: u16|
            q >= 8000 ==> old(store)@.port_used(q)) ==> r is Ok,
        r matches Err(AppCreateError::AppError(_)) ==> !valid_app_name(name@),
        r matches Err(AppCreateError::AppAlreadyExists(_)) ==> valid_app_name(name@) && old(
            store,
        )@.has_name(name@),
        r == Err::<(), AppCreateError>(AppCreateError::InternalError) ==> (forall|q: u16|
            q >= 8000 ==> old(store)@.port_used(q)),
        r is Ok ==> valid_app_name(name@) && !old(store)@.has_name(name@),
        r is Ok ==> (exists|app: AppV, p: u16|
            {
                &&& final(store)@ == old(store)@.with_saved(app)
                &&& #[trigger] app.is_fresh(name@, p, now)
                &&& 8000 <= p
                &&& !old(store)@.port_used(p)
                &&& forall|q: u16| 8000 <= q < p ==> old(store)@.port_used(q)
            }),
        r is Ok ==> final(store)@.has_name(name@),
{
    if store.get_by_name(name).is_some() {
        if !crate::is_valid_app_name(name) {
            return Err(AppCreateError::AppError(AppError::InvalidName(String::from_str(name))));
        }
        return Err(AppCreateError::AppAlreadyExists(String::from_str(name)));
    }
    let port = match next_available_port(store) {
        Some(p) => p,
        None => {
            if !crate::is_valid_app_name(name) {
                return Err(
                    AppCreateError::AppError(AppError::InvalidName(String::from_str(name))),
                );
            }
            return Err(AppCreateError::InternalError);
        },
    };
    let app = match App::new(name, port, now) {
        Ok(app) => app,
        Err(e) => {
            return Err(AppCreateError::AppError(e));
        },
    };
    store.save(&app);
    Ok(())
}

/// Deploy a binary to an app. The binary's SHA-256 decides: a digest
/// equal to the stored one leaves the record untouched; a new digest
/// moves the record to `Deployed` with the new path and hash, and the
/// caller must write the binary to the target path.
pub fn deploy(
    store: &mut Store,
    name: &str,
    binary_data: &[u8],
    target_path: &str,
    now: u64,
) -> (r: Result<DeployOutcome, DeployError>)
    requires
        old(store)@.wf(),
    ensures
        final(store)@.wf(),
        r is Err <==> !old(store)@.has_name(name@),
        r matches Err(e) ==> (e matches DeployError::AppNotFound(s) && s@ == name@)
            && final(store)@ == old(store)@,
        old(store)@.has_name(name@) && old(store)@.app_named(name@).binary_hash == Some(
            binary_hash_of(binary_data@),
        ) ==> r == Ok::<DeployOutcome, DeployError>(DeployOutcome::Unchanged) && final(store)@
            == old(store)@,
        old(store)@.has_name(name@) && old(store)@.app_named(name@).binary_hash != Some(
            binary_hash_of(binary_data@),
        ) ==> r == Ok::<DeployOutcome, DeployError>(DeployOutcome::Deployed) && final(store)@
            == old(store)@.with_saved(
            AppV {
                binary_path: Some(target_path@),
                binary_hash: Some(binary_hash_of(binary_data@)),
                updated_at: now,
                state: AppState::Deployed,
                ..old(store)@.app_named(name@)
            },
        ),
{
    let app = match store.get_by_name(name) {
        Some(app) => app,
        None => {
            return Err(DeployError::AppNotFound(String::from_str(name)));
        },
    };
    let hash = hash_binary(binary_data);
    if !app.is_hash_changed(hash.as_str()) {
        return Ok(DeployOutcome::Unchanged);
    }
    let updated = app.deploy(String::from_str(target_path), hash, now);
    proof {
        lemma_same_record_save_ok(store@, name@, updated@);
    }
    store.save(&updated);
    Ok(DeployOutcome::Deployed)
}

/// Delete an app that is not running: its record and every history row
/// of it are removed. A running app is refused untouched.
pub fn delete(store: &mut Store, name: &str) -> (r: Result<(), DeleteError>)
    requires
        old(store)@.wf(),
    ensures
        final(store)@.wf(),
        r is Err ==> final(store)@ == old(store)@,
        !old(store)@.has_name(name@) ==> (r matches Err(DeleteError::AppNotFound(s)) && s@
            == name@),
        old(store)@.has_name(name@) && old(store)@.app_named(name@).state == AppState::Running
            ==> (r matches Err(DeleteError::AppRunning(s)) && s@ == name@),
        old(store)@.has_name(name@) && old(store)@.app_named(name@).state != AppState::Running
            ==> r is Ok,
        r is Ok ==> final(store)@.apps == old(store)@.apps.filter(
            |a: AppV| a.id != old(store)@.app_named(name@).id,
        ) && final(store)@.history == old(store)@.history.filter(
            |h: crate::models::ProcessHistoryV| h.app_id != old(store)@.app_named(name@).id,
        ) && !final(store)@.has_name(name@),
{
    let app = match store.get_by_name(name) {
        Some(app) => app,
        None => {
            return Err(DeleteError::AppNotFound(String::from_str(name)));
        },
    };
    if app.is_running() {
        return Err(DeleteError::AppRunning(String::from_str(name)));
    }
    let ghost pre = store@;
    store.delete_by_id(app.id.as_str());
    proof {
        let target = pre.app_named(name@);
        let p = |a: AppV| a.id != target.id;
        lemma_filter_elems_from_source(pre.apps, p);
        assert forall|i: int| 0 <= i < store@.apps.len() implies #[trigger] store@.apps[i].name
            != name@ by {
            let k = choose|k: int| 0 <= k < pre.apps.len() && store@.apps[i] == pre.apps[k];
            assert(pre.apps[k].id != target.id);
            let idx = pre.index_of_name(name@);
            if k != idx {
                assert(pre.apps[k].name != pre.apps[idx].name);
            }
        }
    }
    Ok(())
}

/// Set or delete one environment entry of an app and store the updated
/// record. The change takes effect when the app is next started.
pub fn set_env(
    store: &mut Store,
    name: &str,
    key: &str,
    value: &str,
    delete: bool,
    now: u64,
) -> (r: Result<(), BinaryDropError>)
    requires
        old(store)@.wf(),
    ensures
        final(store)@.wf(),
        r is Ok <==> old(store)@.has_name(name@),
        r matches Err(e) ==> (e matches BinaryDropError::AppNotFound(s) && s@ == name@)
            && final(store)@ == old(store)@,
        r is Ok ==> final(store)@ == old(store)@.with_saved(
            if delete {
                old(store)@.app_named(name@).with_env_removed(key@, now)
            } else {
                old(store)@.app_named(name@).with_env_set(key@, value@, now)
            },
        ),
{
    let mut app = match store.get_by_name(name) {
        Some(app) => app,
        None => {
            return Err(BinaryDropError::AppNotFound(String::from_str(name)));
        },
    };
    if delete {
        app.remove_env_var(key, now);
    } else {
        app.set_env_var(key, value, now);
    }
    proof {
        lemma_same_record_save_ok(store@, name@, app@);
    }
    store.save(&app);
    Ok(())
}

/// Attach a health check to an app, or detach the configured one, and
/// store the updated record.
pub fn set_health_check(
    store: &mut Store,
    name: &str,
    health_check: Option<crate::models::HealthCheck>,
    now: u64,
) -> (r: Result<(), BinaryDropError>)
    requires
        old(store)@.wf(),
    ensures
        final(store)@.wf(),
        r is Ok <==> old(store)@.has_name(name@),
        r matches Err(e) ==> (e matches BinaryDropError::AppNotFound(s) && s@ == name@)
            && final(store)@ == old(store)@,
        r is Ok ==> final(store)@ == old(store)@.with_saved(
            AppV {
                health_check: crate::models::opt_hc_view(health_check),
                updated_at: now,
                ..old(store)@.app_named(name@)
            },
        ),
{
    let mut app = match store.get_by_name(name) {
        Some(app) => app,
        None => {
            return Err(BinaryDropError::AppNotFound(String::from_str(name)));
        },
    };
    app.health_check = health_check;
    app.updated_at = now;
    proof {
        assert(app@ =~= AppV {
            health_check: crate::models::opt_hc_view(app.health_check),
            updated_at: now,
            ..old(store)@.app_named(name@)
        });
        lemma_same_record_save_ok(store@, name@, app@);
    }
    store.save(&app);
    Ok(())
}

} // verus!
