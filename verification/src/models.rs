//! The managed-application entity: its record, lifecycle states,
//! restart policy, health-check configuration, and run history.

use vstd::prelude::*;
use crate::is_valid_app_name;
use crate::valid_app_name;
use crate::ids::new_id;

verus! {

/// Lifecycle state of a managed application.
#[derive(Clone, Copy, PartialEq, Eq, Structural, Debug)]
pub enum AppState {
    Created,
    Deployed,
    Starting,
    Running,
    Stopping,
    Stopped,
    Failed,
    Restarting,
    Crashed,
}

/// The lowercase label a lifecycle state is shown and stored as.
pub open spec fn state_label(s: AppState) -> Seq<char> {
    match s {
        AppState::Created => "created"@,
        AppState::Deployed => "deployed"@,
        AppState::Starting => "starting"@,
        AppState::Running => "running"@,
        AppState::Stopping => "stopping"@,
        AppState::Stopped => "stopped"@,
        AppState::Failed => "failed"@,
        AppState::Restarting => "restarting"@,
        AppState::Crashed => "crashed"@,
    }
}

/// The state a stored label stands for; an unknown label falls back to
/// `Created`.
pub open spec fn parse_state_label(s: Seq<char>) -> AppState {
    if s == "created"@ {
        AppState::Created
    } else if s == "deployed"@ {
        AppState::Deployed
    } else if s == "starting"@ {
        AppState::Starting
    } else if s == "running"@ {
        AppState::Running
    } else if s == "stopping"@ {
        AppState::Stopping
    } else if s == "stopped"@ {
        AppState::Stopped
    } else if s == "failed"@ {
        AppState::Failed
    } else if s == "restarting"@ {
        AppState::Restarting
    } else if s == "crashed"@ {
        AppState::Crashed
    } else {
        AppState::Created
    }
}

impl AppState {
    /// The lowercase label this state is shown and stored as.
    pub fn label(&self) -> (r: String)
        ensures
            r@ == state_label(*self),
    {
        match self {
            AppState::Created => String::from_str("created"),
            AppState::Deployed => String::from_str("deployed"),
            AppState::Starting => String::from_str("starting"),
            AppState::Running => String::from_str("running"),
            AppState::Stopping => String::from_str("stopping"),
            AppState::Stopped => String::from_str("stopped"),
            AppState::Failed => String::from_str("failed"),
            AppState::Restarting => String::from_str("restarting"),
            AppState::Crashed => String::from_str("crashed"),
        }
    }

    /// The state a stored label stands for; an unknown label falls
    /// back to `Created`.
    pub fn parse_label(s: &str) -> (r: AppState)
        ensures
            r == parse_state_label(s@),
    {
        if crate::str_eq(s, "created") {
            AppState::Created
        } else if crate::str_eq(s, "deployed") {
            AppState::Deployed
        } else if crate::str_eq(s, "starting") {
            AppState::Starting
        } else if crate::str_eq(s, "running") {
            AppState::Running
        } else if crate::str_eq(s, "stopping") {
            AppState::Stopping
        } else if crate::str_eq(s, "stopped") {
            AppState::Stopped
        } else if crate::str_eq(s, "failed") {
            AppState::Failed
        } else if crate::str_eq(s, "restarting") {
            AppState::Restarting
        } else if crate::str_eq(s, "crashed") {
            AppState::Crashed
        } else {
            AppState::Created
        }
    }
}

/// Every state's label parses back to the state itself.
pub proof fn lemma_state_label_round_trip(s: AppState)
    ensures
        parse_state_label(state_label(s)) == s,
{
    reveal_strlit("created");
    reveal_strlit("deployed");
    reveal_strlit("starting");
    reveal_strlit("running");
    reveal_strlit("stopping");
    reveal_strlit("stopped");
    reveal_strlit("failed");
    reveal_strlit("restarting");
    reveal_strlit("crashed");
    assert("created"@.len() == 7 && "deployed"@.len() == 8 && "starting"@.len() == 8
        && "running"@.len() == 7 && "stopping"@.len() == 8 && "stopped"@.len() == 7
        && "failed"@.len() == 6 && "restarting"@.len() == 10 && "crashed"@.len() == 7);
    assert("created"@[0] == 'c' && "running"@[0] == 'r' && "stopped"@[0] == 's' && "crashed"@[0]
        == 'c' && "starting"@[0] == 's' && "deployed"@[0] == 'd' && "stopping"@[0] == 's');
    assert("starting"@[2] == 'a' && "stopping"@[2] == 'o' && "created"@[2] == 'e' && "crashed"@[2]
        == 'a');
}

/// When the supervisor restarts an app whose process exited on its own.
#[derive(Clone, Copy, PartialEq, Eq, Structural, Debug)]
pub enum RestartPolicy {
    Always,
    OnFailure,
    Never,
}

/// The lowercase label a restart policy is shown and stored as.
pub open spec fn policy_label(p: RestartPolicy) -> Seq<char> {
    match p {
        RestartPolicy::Always => "always"@,
        RestartPolicy::OnFailure => "on-failure"@,
        RestartPolicy::Never => "never"@,
    }
}

/// The policy a stored label stands for; an unknown label falls back
/// to `OnFailure`.
pub open spec fn parse_policy_label(s: Seq<char>) -> RestartPolicy {
    if s == "always"@ {
        RestartPolicy::Always
    } else if s == "never"@ {
        RestartPolicy::Never
    } else {
        RestartPolicy::OnFailure
    }
}

impl RestartPolicy {
    /// The lowercase label this policy is shown and stored as.
    pub fn label(&self) -> (r: String)
        ensures
            r@ == policy_label(*self),
    {
        match self {
            RestartPolicy::Always => String::from_str("always"),
            RestartPolicy::OnFailure => String::from_str("on-failure"),
            RestartPolicy::Never => String::from_str("never"),
        }
    }

    /// The policy a stored label stands for; an unknown label falls
    /// back to `OnFailure`.
    pub fn parse_label(s: &str) -> (r: RestartPolicy)
        ensures
            r == parse_policy_label(s@),
    {
        if crate::str_eq(s, "always") {
            RestartPolicy::Always
        } else if crate::str_eq(s, "never") {
            RestartPolicy::Never
        } else {
            RestartPolicy::OnFailure
        }
    }
}

/// Every policy's label parses back to the policy itself.
pub proof fn lemma_policy_label_round_trip(p: RestartPolicy)
    ensures
        parse_policy_label(policy_label(p)) == p,
{
    reveal_strlit("always");
    reveal_strlit("on-failure");
    reveal_strlit("never");
    assert("always"@.len() == 6 && "on-failure"@.len() == 10 && "never"@.len() == 5);
}

/// The kind of health probe an app is checked with.
#[derive(Clone, Debug)]
pub enum HealthCheckType {
    HttpGet { path: String, expected_status: u16 },
}

/// Mathematical model of a health-check kind.
pub ghost enum HealthCheckTypeV {
    HttpGet { path: Seq<char>, expected_status: u16 },
}

impl View for HealthCheckType {
    type V = HealthCheckTypeV;

    open spec fn view(&self) -> HealthCheckTypeV {
        match self {
            HealthCheckType::HttpGet { path, expected_status } => HealthCheckTypeV::HttpGet {
                path: path@,
                expected_status: *expected_status,
            },
        }
    }
}

/// Health-check configuration attached to an app. Intervals and
/// timeouts are in seconds.
#[derive(Clone, Debug)]
pub struct HealthCheck {
    pub check_type: HealthCheckType,
    pub interval: u32,
    pub timeout: u32,
    pub retries: u32,
    pub start_period: u32,
}

/// Mathematical model of a health-check configuration.
#[verifier::ext_equal]
pub ghost struct HealthCheckV {
    pub check_type: HealthCheckTypeV,
    pub interval: u32,
    pub timeout: u32,
    pub retries: u32,
    pub start_period: u32,
}

impl View for HealthCheck {
    type V = HealthCheckV;

    open spec fn view(&self) -> HealthCheckV {
        HealthCheckV {
            check_type: self.check_type@,
            interval: self.interval,
            timeout: self.timeout,
            retries: self.retries,
            start_period: self.start_period,
        }
    }
}

impl HealthCheck {
    /// The default probe: HTTP GET on `/` expecting status 200, every
    /// 10 seconds, 10-second timeout, 10 retries, 10-second grace.
    pub fn new_default() -> (r: HealthCheck)
        ensures
            r@ == default_health_check(),
    {
        let r = HealthCheck {
            check_type: HealthCheckType::HttpGet { path: String::from_str("/"), expected_status: 200 },
            interval: 10,
            timeout: 10,
            retries: 10,
            start_period: 10,
        };
        proof {
            reveal_strlit("/");
            assert("/"@ =~= seq!['/']);
        }
        r
    }
}

/// The default health-check configuration as a model value.
pub open spec fn default_health_check() -> HealthCheckV {
    HealthCheckV {
        check_type: HealthCheckTypeV::HttpGet { path: seq!['/'], expected_status: 200 },
        interval: 10,
        timeout: 10,
        retries: 10,
        start_period: 10,
    }
}

/// Rejection of a candidate app record.
#[derive(Clone, PartialEq, Eq, Debug)]
pub enum AppError {
    /// The name is empty, too long, or holds a character outside
    /// `[a-z0-9_-]`.
    InvalidName(String),
    /// The port lies in the reserved range below 1024.
    InvalidPort(u16),
}

/// One managed application and its desired/observed state. Times are
/// unix seconds supplied by the caller.
#[derive(Clone, Debug)]
pub struct App {
    pub id: String,
    pub name: String,
    pub created_at: u64,
    pub updated_at: u64,
    pub state: AppState,
    pub binary_path: Option<String>,
    pub binary_hash: Option<String>,
    pub port: u16,
    pub environment: Vec<(String, String)>,
    pub process_id: Option<u32>,
    pub host: String,
    pub restart_policy: RestartPolicy,
    pub max_restarts: Option<u32>,
    pub restart_count: u32,
    pub last_exit_code: Option<i64>,
    pub last_exit_time: Option<u64>,
    pub startup_timeout: u32,
    pub shutdown_timeout: u32,
    pub health_check: Option<HealthCheck>,
}

/// Mathematical model of an app record.
#[verifier::ext_equal]
pub ghost struct AppV {
    pub id: Seq<char>,
    pub name: Seq<char>,
    pub created_at: u64,
    pub updated_at: u64,
    pub state: AppState,
    pub binary_path: Option<Seq<char>>,
    pub binary_hash: Option<Seq<char>>,
    pub port: u16,
    pub environment: Seq<(Seq<char>, Seq<char>)>,
    pub process_id: Option<u32>,
    pub host: Seq<char>,
    pub restart_policy: RestartPolicy,
    pub max_restarts: Option<u32>,
    pub restart_count: u32,
    pub last_exit_code: Option<i64>,
    pub last_exit_time: Option<u64>,
    pub startup_timeout: u32,
    pub shutdown_timeout: u32,
    pub health_check: Option<HealthCheckV>,
}

/// The model of an optional string.
pub open spec fn opt_str_view(o: Option<String>) -> Option<Seq<char>> {
    match o {
        Some(s) => Some(s@),
        None => None,
    }
}

/// The model of an environment table.
pub open spec fn env_view(env: Seq<(String, String)>) -> Seq<(Seq<char>, Seq<char>)> {
    Seq::new(env.len(), |i: int| (env[i].0@, env[i].1@))
}

/// The model of an optional health check.
pub open spec fn opt_hc_view(o: Option<HealthCheck>) -> Option<HealthCheckV> {
    match o {
        Some(hc) => Some(hc@),
        None => None,
    }
}

impl View for App {
    type V = AppV;

    open spec fn view(&self) -> AppV {
        AppV {
            id: self.id@,
            name: self.name@,
            created_at: self.created_at,
            updated_at: self.updated_at,
            state: self.state,
            binary_path: opt_str_view(self.binary_path),
            binary_hash: opt_str_view(self.binary_hash),
            port: self.port,
            environment: env_view(self.environment@),
            process_id: self.process_id,
            host: self.host@,
            restart_policy: self.restart_policy,
            max_restarts: self.max_restarts,
            restart_count: self.restart_count,
            last_exit_code: self.last_exit_code,
            last_exit_time: self.last_exit_time,
            startup_timeout: self.startup_timeout,
            shutdown_timeout: self.shutdown_timeout,
            health_check: opt_hc_view(self.health_check),
        }
    }
}

impl AppV {
    /// Whether the environment holds an entry with this key.
    pub open spec fn has_env_key(self, key: Seq<char>) -> bool {
        exists|i: int| 0 <= i < self.environment.len() && #[trigger] self.environment[i].0 == key
    }

    /// The position of the first environment entry with this key.
    pub open spec fn first_env_index(self, key: Seq<char>) -> int {
        choose|i: int|
            0 <= i < self.environment.len() && #[trigger] self.environment[i].0 == key && forall|
                j: int,
            | 0 <= j < i ==> #[trigger] self.environment[j].0 != key
    }

    /// The record after one environment entry is set: an existing key
    /// takes the new value in place, a new key is appended.
    pub open spec fn with_env_set(self, key: Seq<char>, value: Seq<char>, now: u64) -> AppV {
        AppV {
            environment: if self.has_env_key(key) {
                self.environment.update(self.first_env_index(key), (key, value))
            } else {
                self.environment.push((key, value))
            },
            updated_at: now,
            ..self
        }
    }

    /// The record after every environment entry with this key is gone.
    pub open spec fn with_env_removed(self, key: Seq<char>, now: u64) -> AppV {
        AppV {
            environment: self.environment.filter(|kv: (Seq<char>, Seq<char>)| kv.0 != key),
            updated_at: now,
            ..self
        }
    }

    /// The shape of a record fresh from creation: state `Created`, no
    /// binary, no process, policy `OnFailure` capped at 5 restarts, the
    /// default health check, listening host `0.0.0.0`.
    pub open spec fn is_fresh(self, name: Seq<char>, port: u16, now: u64) -> bool {
        &&& self.name == name
        &&& self.created_at == now
        &&& self.updated_at == now
        &&& self.state == AppState::Created
        &&& self.binary_path is None
        &&& self.binary_hash is None
        &&& self.port == port
        &&& self.environment.len() == 0
        &&& self.process_id is None
        &&& self.host == "0.0.0.0"@
        &&& self.restart_policy == RestartPolicy::OnFailure
        &&& self.max_restarts == Some(5u32)
        &&& self.restart_count == 0
        &&& self.last_exit_code is None
        &&& self.last_exit_time is None
        &&& self.startup_timeout == 30
        &&& self.shutdown_timeout == 10
        &&& self.health_check == Some(default_health_check())
    }

    /// Whether the supervisor's policy asks for a restart after the
    /// last recorded exit.
    pub open spec fn should_restart(self) -> bool {
        match self.restart_policy {
            RestartPolicy::Always => true,
            RestartPolicy::Never => false,
            RestartPolicy::OnFailure => match self.last_exit_code {
                Some(c) => c != 0,
                None => false,
            },
        }
    }

    /// Whether the restart cap, if one is set, has been reached.
    pub open spec fn reached_max_restarts(self) -> bool {
        match self.max_restarts {
            Some(m) => self.restart_count >= m,
            None => false,
        }
    }
}

impl App {
    /// A fresh record for a validated name: state `Created`, no binary,
    /// no process, policy `OnFailure` capped at 5 restarts, the default
    /// health check, listening host `0.0.0.0`.
    pub fn new(name: &str, port: u16, now: u64) -> (r: Result<App, AppError>)
        ensures
            r is Ok <==> valid_app_name(name@) && port >= 1024,
            !valid_app_name(name@) ==> (r matches Err(e) && e matches AppError::InvalidName(s)
                && s@ == name@),
            valid_app_name(name@) && port < 1024 ==> r == Err::<App, AppError>(
                AppError::InvalidPort(port),
            ),
            r matches Ok(app) ==> app@.is_fresh(name@, port, now),
    {
        if !is_valid_app_name(name) {
            return Err(AppError::InvalidName(String::from_str(name)));
        }
        if port < 1024 {
            return Err(AppError::InvalidPort(port));
        }
        let app = App {
            id: new_id(),
            name: String::from_str(name),
            created_at: now,
            updated_at: now,
            state: AppState::Created,
            binary_path: None,
            binary_hash: None,
            port,
            environment: Vec::new(),
            process_id: None,
            host: String::from_str("0.0.0.0"),
            restart_policy: RestartPolicy::OnFailure,
            max_restarts: Some(5),
            restart_count: 0,
            last_exit_code: None,
            last_exit_time: None,
            startup_timeout: 30,
            shutdown_timeout: 10,
            health_check: Some(HealthCheck::new_default()),
        };
        proof {
            assert(app@.environment =~= Seq::<(Seq<char>, Seq<char>)>::empty());
        }
        Ok(app)
    }

    /// Restart-policy evaluation: `true` for `Always`, `false` for
    /// `Never`, and for `OnFailure` exactly when the last exit code is
    /// recorded and non-zero.
    pub fn should_restart(&self) -> (r: bool)
        ensures
            r == self@.should_restart(),
    {
        match self.restart_policy {
            RestartPolicy::Always => true,
            RestartPolicy::Never => false,
            RestartPolicy::OnFailure => match self.last_exit_code {
                Some(c) => c != 0,
                None => false,
            },
        }
    }

    /// Whether the restart cap, if one is set, has been reached.
    pub fn reached_max_restarts(&self) -> (r: bool)
        ensures
            r == self@.reached_max_restarts(),
    {
        match self.max_restarts {
            Some(m) => self.restart_count >= m,
            None => false,
        }
    }

    /// Whether the record's lifecycle state is `Running`.
    pub fn is_running(&self) -> (r: bool)
        ensures
            r == (self@.state == AppState::Running),
    {
        self.state == AppState::Running
    }

    /// Whether the record's lifecycle state is `Deployed`.
    pub fn is_deployed(&self) -> (r: bool)
        ensures
            r == (self@.state == AppState::Deployed),
    {
        self.state == AppState::Deployed
    }

    /// Whether a candidate binary hash differs from the stored one; a
    /// record with no stored hash counts as changed.
    pub fn is_hash_changed(&self, new_hash: &str) -> (r: bool)
        ensures
            r == (match self@.binary_hash {
                Some(h) => h != new_hash@,
                None => true,
            }),
    {
        match &self.binary_hash {
            Some(current_hash) => !crate::str_eq(current_hash.as_str(), new_hash),
            None => true,
        }
    }

    /// The record after a successful deployment: binary path and hash
    /// replaced, state `Deployed`, `updated_at` refreshed; everything
    /// else kept.
    pub fn deploy(&self, binary_path: String, binary_hash: String, now: u64) -> (r: App)
        ensures
            r@ == (AppV {
                binary_path: Some(binary_path@),
                binary_hash: Some(binary_hash@),
                updated_at: now,
                state: AppState::Deployed,
                ..self@
            }),
    {
        let mut r = self.duplicate();
        r.binary_path = Some(binary_path);
        r.binary_hash = Some(binary_hash);
        r.updated_at = now;
        r.state = AppState::Deployed;
        proof {
            assert(r@ =~= AppV {
                binary_path: r@.binary_path,
                binary_hash: r@.binary_hash,
                updated_at: now,
                state: AppState::Deployed,
                ..self@
            });
        }
        r
    }

    /// Set one environment entry: an existing key takes the new value
    /// in place, a new key is appended. `updated_at` is refreshed.
    #[verifier::loop_isolation(false)]
    pub fn set_env_var(&mut self, key: &str, value: &str, now: u64)
        ensures
            final(self)@ == old(self)@.with_env_set(key@, value@, now),
    {
        let ghost pre = self@;
        let n = self.environment.len();
        let mut i: usize = 0;
        while i < n
            invariant
                n == self.environment.len(),
                self@ == pre,
                0 <= i <= n,
                forall|j: int| 0 <= j < i ==> #[trigger] pre.environment[j].0 != key@,
            decreases n - i,
        {
            if crate::str_eq(self.environment[i].0.as_str(), key) {
                proof {
                    assert(pre.environment[i as int].0 == key@);
                    assert(pre.has_env_key(key@));
                    let k = pre.first_env_index(key@);
                    assert(pre.environment[k].0 == key@ && (forall|j: int|
                        0 <= j < k ==> #[trigger] pre.environment[j].0 != key@));
                    if k > i as int {
                        assert(pre.environment[i as int].0 != key@);
                    }
                    assert(k == i as int);
                }
                let pair = (String::from_str(key), String::from_str(value));
                self.environment.set(i, pair);
                self.updated_at = now;
                proof {
                    assert(self@.environment =~= pre.environment.update(
                        i as int,
                        (key@, value@),
                    ));
                    assert(self@ =~= pre.with_env_set(key@, value@, now));
                }
                return;
            }
            i += 1;
        }
        let pair = (String::from_str(key), String::from_str(value));
        self.environment.push(pair);
        self.updated_at = now;
        proof {
            assert(!pre.has_env_key(key@));
            assert(self@.environment =~= pre.environment.push((key@, value@)));
            assert(self@ =~= pre.with_env_set(key@, value@, now));
        }
    }

    /// Remove every environment entry with this key. `updated_at` is
    /// refreshed.
    #[verifier::loop_isolation(false)]
    pub fn remove_env_var(&mut self, key: &str, now: u64)
        ensures
            final(self)@ == old(self)@.with_env_removed(key@, now),
    {
        let ghost pre = self@;
        let n = self.environment.len();
        let mut kept: Vec<(String, String)> = Vec::new();
        let mut i: usize = 0;
        proof {
            assert(pre.environment.take(0) =~= Seq::<(Seq<char>, Seq<char>)>::empty());
            assert(env_view(kept@) =~= Seq::<(Seq<char>, Seq<char>)>::empty());
            reveal(Seq::filter);
        }
        while i < n
            invariant
                n == self.environment.len(),
                self@ == pre,
                0 <= i <= n,
                env_view(kept@) == pre.environment.take(i as int).filter(
                    |kv: (Seq<char>, Seq<char>)| kv.0 != key@,
                ),
            decreases n - i,
        {
            proof {
                crate::lemma_filter_take_step(
                    pre.environment,
                    i as int,
                    |kv: (Seq<char>, Seq<char>)| kv.0 != key@,
                );
            }
            if !crate::str_eq(self.environment[i].0.as_str(), key) {
                let pair = (self.environment[i].0.clone(), self.environment[i].1.clone());
                kept.push(pair);
            }
            proof {
                assert(env_view(kept@) =~= pre.environment.take(i + 1).filter(
                    |kv: (Seq<char>, Seq<char>)| kv.0 != key@,
                ));
            }
            i += 1;
        }
        self.environment = kept;
        self.updated_at = now;
        proof {
            assert(pre.environment.take(n as int) =~= pre.environment);
            assert(self@ =~= pre.with_env_removed(key@, now));
        }
    }

    /// A field-for-field copy whose model equals this record's.
    pub fn duplicate(&self) -> (r: App)
        ensures
            r@ == self@,
    {
        let mut environment: Vec<(String, String)> = Vec::new();
        let n = self.environment.len();
        let mut i: usize = 0;
        while i < n
            invariant
                n == self.environment.len(),
                0 <= i <= n,
                environment@.len() == i,
                forall|j: int| 0 <= j < i ==> #[trigger] environment@[j].0@
                    == self.environment@[j].0@ && environment@[j].1@ == self.environment@[j].1@,
            decreases n - i,
        {
            let pair = (self.environment[i].0.clone(), self.environment[i].1.clone());
            environment.push(pair);
            i += 1;
        }
        let r = App {
            id: self.id.clone(),
            name: self.name.clone(),
            created_at: self.created_at,
            updated_at: self.updated_at,
            state: self.state,
            binary_path: clone_opt_string(&self.binary_path),
            binary_hash: clone_opt_string(&self.binary_hash),
            port: self.port,
            environment,
            process_id: self.process_id,
            host: self.host.clone(),
            restart_policy: self.restart_policy,
            max_restarts: self.max_restarts,
            restart_count: self.restart_count,
            last_exit_code: self.last_exit_code,
            last_exit_time: self.last_exit_time,
            startup_timeout: self.startup_timeout,
            shutdown_timeout: self.shutdown_timeout,
            health_check: clone_opt_health_check(&self.health_check),
        };
        proof {
            assert(env_view(r.environment@) =~= env_view(self.environment@));
            assert(r@ =~= self@);
        }
        r
    }
}

/// A copy of an optional string with the same model.
pub fn clone_opt_string(o: &Option<String>) -> (r: Option<String>)
    ensures
        opt_str_view(r) == opt_str_view(*o),
{
    match o {
        Some(s) => Some(s.clone()),
        None => None,
    }
}

/// A copy of an optional health check with the same model.
pub fn clone_opt_health_check(o: &Option<HealthCheck>) -> (r: Option<HealthCheck>)
    ensures
        opt_hc_view(r) == opt_hc_view(*o),
{
    match o {
        Some(hc) => {
            let ct = match &hc.check_type {
                HealthCheckType::HttpGet { path, expected_status } => HealthCheckType::HttpGet {
                    path: path.clone(),
                    expected_status: *expected_status,
                },
            };
            let r = HealthCheck {
                check_type: ct,
                interval: hc.interval,
                timeout: hc.timeout,
                retries: hc.retries,
                start_period: hc.start_period,
            };
            proof {
                assert(r@ =~= hc@);
            }
            Some(r)
        },
        None => None,
    }
}

/// What a client is told about one app: the record reduced to its
/// outward-facing fields, with the state as its label.
#[derive(Clone, Debug)]
pub struct AppInfo {
    pub id: String,
    pub name: String,
    pub state: String,
    pub host: String,
    pub port: u16,
    pub process_id: Option<u32>,
    pub binary_path: Option<String>,
    pub binary_hash: Option<String>,
}

impl AppInfo {
    /// Summarize one record for a client.
    pub fn of(app: &App) -> (r: AppInfo)
        ensures
            r.id@ == app@.id,
            r.name@ == app@.name,
            r.state@ == state_label(app@.state),
            r.host@ == app@.host,
            r.port == app@.port,
            r.process_id == app@.process_id,
            opt_str_view(r.binary_path) == app@.binary_path,
            opt_str_view(r.binary_hash) == app@.binary_hash,
    {
        AppInfo {
            id: app.id.clone(),
            name: app.name.clone(),
            state: app.state.label(),
            host: app.host.clone(),
            port: app.port,
            process_id: app.process_id,
            binary_path: clone_opt_string(&app.binary_path),
            binary_hash: clone_opt_string(&app.binary_hash),
        }
    }
}

/// One process run of an app: opened when the process is spawned,
/// closed when it exits or is killed, never changed after closing.
#[derive(Clone, Debug)]
pub struct ProcessHistory {
    pub id: String,
    pub app_id: String,
    pub started_at: u64,
    pub ended_at: Option<u64>,
    pub exit_code: Option<i64>,
    pub exit_reason: Option<String>,
}

/// Mathematical model of a run-history row.
#[verifier::ext_equal]
pub ghost struct ProcessHistoryV {
    pub id: Seq<char>,
    pub app_id: Seq<char>,
    pub started_at: u64,
    pub ended_at: Option<u64>,
    pub exit_code: Option<i64>,
    pub exit_reason: Option<Seq<char>>,
}

impl View for ProcessHistory {
    type V = ProcessHistoryV;

    open spec fn view(&self) -> ProcessHistoryV {
        ProcessHistoryV {
            id: self.id@,
            app_id: self.app_id@,
            started_at: self.started_at,
            ended_at: self.ended_at,
            exit_code: self.exit_code,
            exit_reason: opt_str_view(self.exit_reason),
        }
    }
}

impl ProcessHistory {
    /// A freshly opened row for one run: started now, not yet ended.
    pub fn new(app_id: &str, now: u64) -> (r: ProcessHistory)
        ensures
            r@.app_id == app_id@,
            r@.started_at == now,
            r@.ended_at is None,
            r@.exit_code is None,
            r@.exit_reason is None,
    {
        ProcessHistory {
            id: new_id(),
            app_id: String::from_str(app_id),
            started_at: now,
            ended_at: None,
            exit_code: None,
            exit_reason: None,
        }
    }

    /// A field-for-field copy whose model equals this row's.
    pub fn duplicate(&self) -> (r: ProcessHistory)
        ensures
            r@ == self@,
    {
        let r = ProcessHistory {
            id: self.id.clone(),
            app_id: self.app_id.clone(),
            started_at: self.started_at,
            ended_at: self.ended_at,
            exit_code: self.exit_code,
            exit_reason: clone_opt_string(&self.exit_reason),
        };
        proof {
            assert(r@ =~= self@);
        }
        r
    }
}

} // verus!
