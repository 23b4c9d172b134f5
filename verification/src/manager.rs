use vstd::prelude::*;
use std::path::PathBuf;
use crate::health::{health_check_interval, probe_interval};
use crate::launch::{actions_view, service_env, service_env_plan, EnvAction, LaunchContext};
use crate::manifest::{HealthCheck, ServiceDef};
use crate::paths::{display_path, displayed_path, join_path, joined_path};
use crate::table::Table;
use crate::text::{after_first_newline, decimal, drop_partial_first_line, i32_text, signed_decimal, u16_text};
use vstd::utf8::{decode_utf8, encode_utf8, is_char_boundary};

verus! {

/// Nanoseconds in one second.
pub const NANOS_PER_SEC: u64 = 1_000_000_000;

/// A service process that the manager started and has not seen exit.
/// Times are nanoseconds on the caller's monotonic clock.
#[derive(Clone, Copy)]
pub struct RunningService {
    /// Process id of the child.
    pub pid: u32,
    /// Whether the last health probe succeeded.
    pub healthy: bool,
    /// When the process was started.
    pub started_at: u64,
    /// When the last health probe was handed out, if one was.
    pub last_health_check_at: Option<u64>,
}

/// Progress of the build of a service's Python environment.
pub struct BuildStatus {
    pub building: bool,
    pub current_step: usize,
    pub total_steps: usize,
    pub step_label: String,
    pub log: String,
    pub error: Option<String>,
}

/// A build status with its texts as character sequences.
pub struct BuildStatusView {
    pub building: bool,
    pub current_step: usize,
    pub total_steps: usize,
    pub step_label: Seq<char>,
    pub log: Seq<char>,
    pub error: Option<Seq<char>>,
}

/// The view of an optional text.
pub open spec fn opt_text(t: Option<String>) -> Option<Seq<char>> {
    match t {
        Some(s) => Some(s@),
        None => None,
    }
}

impl View for BuildStatus {
    type V = BuildStatusView;

    open spec fn view(&self) -> BuildStatusView {
        BuildStatusView {
            building: self.building,
            current_step: self.current_step,
            total_steps: self.total_steps,
            step_label: self.step_label@,
            log: self.log@,
            error: opt_text(self.error),
        }
    }
}

fn copy_opt_text(t: &Option<String>) -> (r: Option<String>)
    ensures
        r == *t,
{
    match t {
        Some(s) => Some(s.clone()),
        None => None,
    }
}

impl Clone for BuildStatus {
    fn clone(&self) -> (r: Self)
        ensures
            r == *self,
    {
        BuildStatus {
            building: self.building,
            current_step: self.current_step,
            total_steps: self.total_steps,
            step_label: self.step_label.clone(),
            log: self.log.clone(),
            error: copy_opt_text(&self.error),
        }
    }
}

/// What the user interface shows of one service.
pub struct ServiceInfo {
    pub id: String,
    pub display_name: String,
    pub port: u16,
    /// One of `running`, `starting`, `failed`, `stopped`.
    pub status: String,
    pub pid: Option<u32>,
    pub error: Option<String>,
    pub env_exists: bool,
    pub health_endpoint: Option<String>,
    pub build_status: Option<BuildStatus>,
}

/// A health probe that is due: the caller sends it and reports the outcome
/// with `set_health`.
pub struct HealthTarget {
    pub id: String,
    pub port: u16,
    pub endpoint: String,
    pub timeout_seconds: u64,
}

/// A health probe with its texts as character sequences.
pub struct HealthTargetView {
    pub id: Seq<char>,
    pub port: u16,
    pub endpoint: Seq<char>,
    pub timeout_seconds: u64,
}

impl View for HealthTarget {
    type V = HealthTargetView;

    open spec fn view(&self) -> HealthTargetView {
        HealthTargetView {
            id: self.id@,
            port: self.port,
            endpoint: self.endpoint@,
            timeout_seconds: self.timeout_seconds,
        }
    }
}

/// What a build of a service's environment needs.
pub struct BuildInfo {
    pub service_id: String,
    pub work_dir: PathBuf,
    pub env_dir: PathBuf,
    pub build_steps: Vec<String>,
}

/// How a child process ended, as the caller observed it.
pub struct ProcessExit {
    pub id: String,
    /// Whether it exited with code 0.
    pub success: bool,
    /// Its exit code; none when a signal ended it.
    pub code: Option<i32>,
}

/// What the caller needs to spawn a service.
pub struct LaunchPlan {
    pub service_id: String,
    /// The Python interpreter of the service's environment.
    pub python: PathBuf,
    /// The script handed to the interpreter.
    pub entry_point: String,
    /// The directory the child runs in.
    pub work_dir: PathBuf,
    /// The file that receives the child's output.
    pub log_path: PathBuf,
    /// Variables set before the Python path.
    pub base_env: Vec<(String, String)>,
    /// Changes applied after the Python path, in order.
    pub service_env: Vec<EnvAction>,
}

/// The texts of a list of strings.
pub open spec fn texts(v: Seq<String>) -> Seq<Seq<char>> {
    v.map_values(|s: String| s@)
}

/// Whether some service of the list has id `id`.
pub open spec fn lists(services: Seq<ServiceDef>, id: Seq<char>) -> bool {
    exists|i: int| 0 <= i < services.len() && services[i].id@ == id
}

/// Whether `i` is the first position of a service with id `id`.
pub open spec fn first_with_id(services: Seq<ServiceDef>, id: Seq<char>, i: int) -> bool {
    &&& 0 <= i < services.len()
    &&& services[i].id@ == id
    &&& forall|j: int| 0 <= j < i ==> services[j].id@ != id
}

/// The position of the first service with id `id`, when there is one.
pub open spec fn index_of(services: Seq<ServiceDef>, id: Seq<char>) -> int {
    choose|i: int| first_with_id(services, id, i)
}

/// The service that requests for `id` act on: the first with that id.
pub open spec fn service_for(services: Seq<ServiceDef>, id: Seq<char>) -> ServiceDef {
    services[index_of(services, id)]
}

proof fn lemma_first_below(services: Seq<ServiceDef>, id: Seq<char>, w: int)
    requires
        0 <= w < services.len(),
        services[w].id@ == id,
    ensures
        exists|i: int| first_with_id(services, id, i),
    decreases w,
{
    if exists|j: int| 0 <= j < w && services[j].id@ == id {
        let j = choose|j: int| 0 <= j < w && services[j].id@ == id;
        lemma_first_below(services, id, j);
    } else {
        assert(first_with_id(services, id, w));
    }
}

/// When a service with id `id` is listed, `index_of` finds the first one.
pub proof fn lemma_index_of(services: Seq<ServiceDef>, id: Seq<char>)
    requires
        lists(services, id),
    ensures
        first_with_id(services, id, index_of(services, id)),
{
    let w = choose|i: int| 0 <= i < services.len() && services[i].id@ == id;
    lemma_first_below(services, id, w);
}

proof fn lemma_first_unique(services: Seq<ServiceDef>, id: Seq<char>, i: int)
    requires
        first_with_id(services, id, i),
    ensures
        index_of(services, id) == i,
{
    lemma_index_of(services, id);
    let k = index_of(services, id);
    if k < i {
        assert(services[k].id@ != id);
    } else if i < k {
        assert(services[i].id@ != id);
    }
}

/// The error for an id that names no service.
pub open spec fn unknown_service_text(id: Seq<char>) -> Seq<char> {
    "Unknown service: "@ + id
}

fn unknown_service_error(id: &str) -> (e: String)
    ensures
        e@ == unknown_service_text(id@),
{
    "Unknown service: ".to_owned().concat(id)
}

/// The status shown for a service.
pub open spec fn status_text(running: bool, healthy: bool, failed: bool) -> Seq<char> {
    if running && healthy {
        "running"@
    } else if running {
        "starting"@
    } else if failed {
        "failed"@
    } else {
        "stopped"@
    }
}

/// The status shown for the service `id`, given the running services and the
/// recorded errors.
pub open spec fn service_status(
    running: Map<Seq<char>, RunningService>,
    errors: Map<Seq<char>, Seq<char>>,
    id: Seq<char>,
) -> Seq<char> {
    status_text(
        running.contains_key(id),
        running.contains_key(id) && running[id].healthy,
        errors.contains_key(id),
    )
}

/// The error recorded for a process that exited.
pub open spec fn exit_text(success: bool, code: Option<i32>) -> Seq<char> {
    if success {
        "Process exited cleanly (code 0)"@
    } else {
        "Process crashed (exit code: "@ + match code {
            Some(c) => signed_decimal(c as int),
            None => "signal"@,
        } + ")"@
    }
}

/// The message recorded for a process that exited.
pub fn exit_message(success: bool, code: Option<i32>) -> (m: String)
    ensures
        m@ == exit_text(success, code),
{
    if success {
        "Process exited cleanly (code 0)".to_owned()
    } else {
        let code_text = match code {
            Some(c) => i32_text(c),
            None => "signal".to_owned(),
        };
        "Process crashed (exit code: ".to_owned().concat(code_text.as_str()).concat(")")
    }
}


/// The error for starting a service that already runs.
pub open spec fn already_running_text(id: Seq<char>) -> Seq<char> {
    id + " is already running"@
}

/// The error for stopping a service that does not run.
pub open spec fn not_running_text(id: Seq<char>) -> Seq<char> {
    id + " is not running"@
}

/// The error for starting a service whose environment was never built.
pub open spec fn venv_missing_text(python_display: Seq<char>) -> Seq<char> {
    "Python venv not found at "@ + python_display + ". Build the environment first."@
}

/// Why `start` refuses to launch `id`, if it does. `python_exists` says
/// whether the interpreter of the service's environment exists.
pub open spec fn start_refusal(
    repo_root: PathBuf,
    services: Seq<ServiceDef>,
    running: Map<Seq<char>, RunningService>,
    id: Seq<char>,
    python_exists: bool,
) -> Option<Seq<char>> {
    if !lists(services, id) {
        Some(unknown_service_text(id))
    } else if running.contains_key(id) {
        Some(already_running_text(id))
    } else if !python_exists {
        Some(venv_missing_text(displayed_path(python_path_of(repo_root, service_for(services, id)))))
    } else {
        None
    }
}

/// The texts of a list of variable assignments.
pub open spec fn pairs_view(v: Seq<(String, String)>) -> Seq<(Seq<char>, Seq<char>)> {
    v.map_values(|p: (String, String)| (p.0@, p.1@))
}

/// The variables every child gets before its Python path.
pub open spec fn base_env_plan() -> Seq<(Seq<char>, Seq<char>)> {
    seq![("PYTHONIOENCODING"@, "utf-8"@), ("PYTHONUNBUFFERED"@, "1"@)]
}

/// A freshly started service: not yet healthy and never probed.
pub open spec fn fresh_running(pid: u32, now: u64) -> RunningService {
    RunningService { pid, healthy: false, started_at: now, last_health_check_at: None }
}

/// `running` and `errors` after the exits in `exits` are recorded in order:
/// an exit of a running service ends it and records why.
pub open spec fn record_exits(
    running: Map<Seq<char>, RunningService>,
    errors: Map<Seq<char>, Seq<char>>,
    exits: Seq<ProcessExit>,
) -> (Map<Seq<char>, RunningService>, Map<Seq<char>, Seq<char>>)
    decreases exits.len(),
{
    if exits.len() == 0 {
        (running, errors)
    } else {
        let (r, e) = record_exits(running, errors, exits.drop_last());
        let x = exits.last();
        if r.contains_key(x.id@) {
            (r.remove(x.id@), e.insert(x.id@, exit_text(x.success, x.code)))
        } else {
            (r, e)
        }
    }
}

proof fn lemma_map_values_remove<V>(m: Map<Seq<char>, V>, k: Seq<char>, f: spec_fn(V) -> Seq<char>)
    ensures
        m.remove(k).map_values(f) == m.map_values(f).remove(k),
{
    assert(m.remove(k).map_values(f) =~= m.map_values(f).remove(k));
}

proof fn lemma_map_values_insert<V, W>(m: Map<Seq<char>, V>, k: Seq<char>, v: V, f: spec_fn(V) -> W)
    ensures
        m.insert(k, v).map_values(f) == m.map_values(f).insert(k, f(v)),
{
    assert(m.insert(k, v).map_values(f) =~= m.map_values(f).insert(k, f(v)));
}


/// Whole seconds from `then` to `now`, or zero when `then` is later.
pub open spec fn elapsed_secs(now: u64, then: u64) -> u64 {
    if now >= then {
        ((now - then) / (NANOS_PER_SEC as int)) as u64
    } else {
        0
    }
}

fn elapsed_whole_secs(now: u64, then: u64) -> (s: u64)
    ensures
        s == elapsed_secs(now, then),
{
    if now >= then {
        (now - then) / NANOS_PER_SEC
    } else {
        0
    }
}

/// Whether a running service with health settings `h` is due for a probe at
/// `now`: it never was probed, or its interval has passed since the last probe.
pub open spec fn probe_due(h: HealthCheck, r: RunningService, now: u64) -> bool {
    match r.last_health_check_at {
        None => true,
        Some(last) => elapsed_secs(now, last) >= probe_interval(
            h.interval_seconds,
            h.startup_grace_seconds,
            r.healthy,
            elapsed_secs(now, r.started_at),
        ),
    }
}

/// The probe handed out for `svc`.
pub open spec fn probe_target(svc: ServiceDef, h: HealthCheck) -> HealthTargetView {
    HealthTargetView {
        id: svc.id@,
        port: svc.port,
        endpoint: h.endpoint@,
        timeout_seconds: if h.timeout_seconds < 1 { 1 } else { h.timeout_seconds },
    }
}

/// One service's turn in `take_due_health_targets`: the running entries after
/// it, and the probe it hands out, if any.
pub open spec fn due_step(running: Map<Seq<char>, RunningService>, svc: ServiceDef, now: u64) -> (
    Map<Seq<char>, RunningService>,
    Seq<HealthTargetView>,
) {
    match svc.health_check {
        None => (running, Seq::empty()),
        Some(h) => if running.contains_key(svc.id@) && probe_due(h, running[svc.id@], now) {
            (
                running.insert(
                    svc.id@,
                    RunningService { last_health_check_at: Some(now), ..running[svc.id@] },
                ),
                seq![probe_target(svc, h)],
            )
        } else {
            (running, Seq::empty())
        },
    }
}

/// The services' turns taken in manifest order.
pub open spec fn due_fold(running: Map<Seq<char>, RunningService>, services: Seq<ServiceDef>, now: u64) -> (
    Map<Seq<char>, RunningService>,
    Seq<HealthTargetView>,
)
    decreases services.len(),
{
    if services.len() == 0 {
        (running, Seq::empty())
    } else {
        let (m, ts) = due_fold(running, services.drop_last(), now);
        let (m2, t) = due_step(m, services.last(), now);
        (m2, ts + t)
    }
}

/// The views of a list of probes.
pub open spec fn targets_view(v: Seq<HealthTarget>) -> Seq<HealthTargetView> {
    v.map_values(|t: HealthTarget| t@)
}

/// The health endpoint URL shown for a service.
pub open spec fn endpoint_url(svc: ServiceDef) -> Option<Seq<char>> {
    match svc.health_check {
        Some(h) => Some("http://localhost:"@ + decimal(svc.port as nat) + h.endpoint@),
        None => None,
    }
}

/// Whether `info` is what is shown of `svc`.
pub open spec fn info_describes(
    info: ServiceInfo,
    svc: ServiceDef,
    env_exists: bool,
    running: Map<Seq<char>, RunningService>,
    errors: Map<Seq<char>, Seq<char>>,
    builds: Map<Seq<char>, BuildStatusView>,
) -> bool {
    let id = svc.id@;
    let is_running = running.contains_key(id);
    &&& info.id@ == id
    &&& info.display_name@ == svc.display_name@
    &&& info.port == svc.port
    &&& info.status@ == service_status(running, errors, id)
    &&& info.pid == (if is_running { Some(running[id].pid) } else { None })
    &&& opt_text(info.error) == (if errors.contains_key(id) { Some(errors[id]) } else { None })
    &&& info.env_exists == env_exists
    &&& opt_text(info.health_endpoint) == endpoint_url(svc)
    &&& (match info.build_status {
        Some(b) => builds.contains_key(id) && b@ == builds[id],
        None => !builds.contains_key(id),
    })
}


/// Bytes a build log may hold before it is cut.
pub const BUILD_LOG_LIMIT: usize = 100_000;

/// Bytes of a build log kept when it is cut.
pub const BUILD_LOG_KEPT: usize = 80_000;

/// The error for building a service that has no build steps.
pub open spec fn no_build_steps_text(id: Seq<char>) -> Seq<char> {
    "No build steps defined for "@ + id
}

/// The error for building a service whose build is under way.
pub open spec fn already_building_text(id: Seq<char>) -> Seq<char> {
    id + " is already building"@
}

/// Whether a build of `id` is under way.
pub open spec fn is_building(builds: Map<Seq<char>, BuildStatusView>, id: Seq<char>) -> bool {
    builds.contains_key(id) && builds[id].building
}

/// Why `get_build_info` refuses `id`, if it does.
pub open spec fn build_refusal(
    services: Seq<ServiceDef>,
    builds: Map<Seq<char>, BuildStatusView>,
    id: Seq<char>,
) -> Option<Seq<char>> {
    if !lists(services, id) {
        Some(unknown_service_text(id))
    } else if service_for(services, id).build_steps@.len() == 0 {
        Some(no_build_steps_text(id))
    } else if is_building(builds, id) {
        Some(already_building_text(id))
    } else {
        None
    }
}

/// Whether a build of `svc` can be launched.
pub open spec fn buildable(svc: ServiceDef, builds: Map<Seq<char>, BuildStatusView>) -> bool {
    svc.build_steps@.len() > 0 && !is_building(builds, svc.id@)
}

/// The ids, directories and build steps of the services whose builds can be
/// launched, in manifest order.
pub open spec fn build_list(
    repo_root: PathBuf,
    services: Seq<ServiceDef>,
    builds: Map<Seq<char>, BuildStatusView>,
) -> Seq<(Seq<char>, PathBuf, PathBuf, Seq<Seq<char>>)>
    decreases services.len(),
{
    if services.len() == 0 {
        Seq::empty()
    } else {
        let rest = build_list(repo_root, services.drop_last(), builds);
        let svc = services.last();
        if buildable(svc, builds) {
            rest.push(
                (
                    svc.id@,
                    service_dir_of(repo_root, svc),
                    env_dir_of(repo_root, svc),
                    texts(svc.build_steps@),
                ),
            )
        } else {
            rest
        }
    }
}

/// The entry of the build list for `svc`.
pub open spec fn build_entry(repo_root: PathBuf, svc: ServiceDef) -> (Seq<char>, PathBuf, PathBuf, Seq<Seq<char>>) {
    (svc.id@, service_dir_of(repo_root, svc), env_dir_of(repo_root, svc), texts(svc.build_steps@))
}

/// Whether `e` is the build entry of some buildable service of `services`.
pub open spec fn entry_of_buildable(
    repo_root: PathBuf,
    services: Seq<ServiceDef>,
    builds: Map<Seq<char>, BuildStatusView>,
    e: (Seq<char>, PathBuf, PathBuf, Seq<Seq<char>>),
) -> bool {
    exists|j: int| 0 <= j < services.len() && buildable(services[j], builds) && e == build_entry(repo_root, #[trigger] services[j])
}

proof fn lemma_build_list_entries(repo_root: PathBuf, services: Seq<ServiceDef>, builds: Map<Seq<char>, BuildStatusView>)
    ensures
        forall|a: int|
            0 <= a < build_list(repo_root, services, builds).len() ==> entry_of_buildable(
                repo_root,
                services,
                builds,
                #[trigger] build_list(repo_root, services, builds)[a],
            ),
    decreases services.len(),
{
    if services.len() > 0 {
        let prev = services.drop_last();
        lemma_build_list_entries(repo_root, prev, builds);
        let rest = build_list(repo_root, prev, builds);
        let all = build_list(repo_root, services, builds);
        assert forall|a: int| 0 <= a < all.len() implies entry_of_buildable(repo_root, services, builds, #[trigger] all[a]) by {
            if a < rest.len() {
                assert(all[a] == rest[a]);
                assert(entry_of_buildable(repo_root, prev, builds, rest[a]));
                let j = choose|j: int|
                    0 <= j < prev.len() && buildable(prev[j], builds) && rest[a] == build_entry(repo_root, #[trigger] prev[j]);
                assert(prev[j] == services[j]);
            } else {
                let j = services.len() - 1;
                assert(all[a] == build_entry(repo_root, services[j]));
            }
        }
    }
}

/// When service ids are distinct, every entry of the build list is exactly
/// what `get_build_info` gives for its id: the lookup succeeds and names the
/// same directories and build steps.
proof fn lemma_build_list_agrees_with_lookup(
    repo_root: PathBuf,
    services: Seq<ServiceDef>,
    builds: Map<Seq<char>, BuildStatusView>,
)
    requires
        forall|i: int, j: int|
            0 <= i < j < services.len() ==> #[trigger] services[i].id@ != #[trigger] services[j].id@,
    ensures
        forall|a: int|
            0 <= a < build_list(repo_root, services, builds).len() ==> {
                let e = #[trigger] build_list(repo_root, services, builds)[a];
                &&& build_refusal(services, builds, e.0) is None
                &&& e == build_entry(repo_root, service_for(services, e.0))
            },
{
    lemma_build_list_entries(repo_root, services, builds);
    assert forall|a: int| 0 <= a < build_list(repo_root, services, builds).len() implies {
        let e = #[trigger] build_list(repo_root, services, builds)[a];
        &&& build_refusal(services, builds, e.0) is None
        &&& e == build_entry(repo_root, service_for(services, e.0))
    } by {
        let e = build_list(repo_root, services, builds)[a];
        assert(entry_of_buildable(repo_root, services, builds, e));
        let j = choose|j: int|
            0 <= j < services.len() && buildable(services[j], builds) && e == build_entry(repo_root, #[trigger] services[j]);
        assert forall|k: int| 0 <= k < j implies services[k].id@ != services[j].id@ by {
            assert(services[k].id@ != services[j].id@);
        }
        assert(first_with_id(services, services[j].id@, j));
        lemma_first_unique(services, services[j].id@, j);
        assert(lists(services, e.0));
    }
}

/// Whether the service ids of `services` are pairwise distinct.
pub open spec fn ids_distinct(services: Seq<ServiceDef>) -> bool {
    forall|i: int, j: int|
        0 <= i < j < services.len() ==> #[trigger] services[i].id@ != #[trigger] services[j].id@
}

/// The services whose build can be launched.
pub open spec fn buildable_pred(builds: Map<Seq<char>, BuildStatusView>) -> spec_fn(ServiceDef) -> bool {
    |s: ServiceDef| buildable(s, builds)
}

/// The services that `get_build_info` accepts.
pub open spec fn accepted_pred(services: Seq<ServiceDef>, builds: Map<Seq<char>, BuildStatusView>) -> spec_fn(
    ServiceDef,
) -> bool {
    |s: ServiceDef| build_refusal(services, builds, s.id@) is None
}

/// The id of an entry of the build list.
pub open spec fn entry_id(e: (Seq<char>, PathBuf, PathBuf, Seq<Seq<char>>)) -> Seq<char> {
    e.0
}

/// The id of a service.
pub open spec fn def_id(s: ServiceDef) -> Seq<char> {
    s.id@
}

proof fn lemma_build_list_ids(repo_root: PathBuf, services: Seq<ServiceDef>, builds: Map<Seq<char>, BuildStatusView>)
    ensures
        build_list(repo_root, services, builds).map_values(|e: (Seq<char>, PathBuf, PathBuf, Seq<Seq<char>>)| entry_id(e))
            == services.filter(buildable_pred(builds)).map_values(|s: ServiceDef| def_id(s)),
    decreases services.len(),
{
    reveal(Seq::filter);
    if services.len() == 0 {
        assert(build_list(repo_root, services, builds).map_values(
            |e: (Seq<char>, PathBuf, PathBuf, Seq<Seq<char>>)| entry_id(e),
        ) =~= services.filter(buildable_pred(builds)).map_values(|s: ServiceDef| def_id(s)));
    } else {
        let prev = services.drop_last();
        lemma_build_list_ids(repo_root, prev, builds);
        let l = build_list(repo_root, services, builds).map_values(
            |e: (Seq<char>, PathBuf, PathBuf, Seq<Seq<char>>)| entry_id(e),
        );
        let r = services.filter(buildable_pred(builds)).map_values(|s: ServiceDef| def_id(s));
        let bl = build_list(repo_root, prev, builds);
        let fl = prev.filter(buildable_pred(builds));
        let last = services.last();
        assert(prev.filter(buildable_pred(builds)) == services.drop_last().filter(buildable_pred(builds)));
        if buildable(last, builds) {
            assert(build_list(repo_root, services, builds) == bl.push(build_entry(repo_root, last)));
            assert(services.filter(buildable_pred(builds)) == fl.push(last));
            assert(l =~= bl.map_values(|e: (Seq<char>, PathBuf, PathBuf, Seq<Seq<char>>)| entry_id(e)).push(last.id@));
            assert(r =~= fl.map_values(|s: ServiceDef| def_id(s)).push(last.id@));
        } else {
            assert(build_list(repo_root, services, builds) == bl);
            assert(services.filter(buildable_pred(builds)) == fl);
        }
        assert(l =~= r);
    }
}

proof fn lemma_filter_agrees(s: Seq<ServiceDef>, p: spec_fn(ServiceDef) -> bool, q: spec_fn(ServiceDef) -> bool)
    requires
        forall|i: int| 0 <= i < s.len() ==> p(#[trigger] s[i]) == q(s[i]),
    ensures
        s.filter(p) == s.filter(q),
    decreases s.len(),
{
    reveal(Seq::filter);
    if s.len() > 0 {
        let prev = s.drop_last();
        assert forall|i: int| 0 <= i < prev.len() implies p(#[trigger] prev[i]) == q(prev[i]) by {
            assert(prev[i] == s[i]);
        }
        lemma_filter_agrees(prev, p, q);
        assert(p(s[s.len() - 1]) == q(s[s.len() - 1]));
    }
}

/// When service ids are distinct, the build list names exactly the services
/// that `get_build_info` accepts, in manifest order, and each entry is what
/// that lookup gives for its id.
pub proof fn lemma_build_list_is_accepted_services(
    repo_root: PathBuf,
    services: Seq<ServiceDef>,
    builds: Map<Seq<char>, BuildStatusView>,
)
    requires
        ids_distinct(services),
    ensures
        build_list(repo_root, services, builds).map_values(|e: (Seq<char>, PathBuf, PathBuf, Seq<Seq<char>>)| entry_id(e))
            == services.filter(accepted_pred(services, builds)).map_values(|s: ServiceDef| def_id(s)),
        forall|a: int|
            0 <= a < build_list(repo_root, services, builds).len() ==> {
                let e = #[trigger] build_list(repo_root, services, builds)[a];
                &&& build_refusal(services, builds, e.0) is None
                &&& e == build_entry(repo_root, service_for(services, e.0))
            },
{
    lemma_build_list_ids(repo_root, services, builds);
    lemma_build_list_agrees_with_lookup(repo_root, services, builds);
    assert forall|i: int| 0 <= i < services.len() implies buildable_pred(builds)(#[trigger] services[i])
        == accepted_pred(services, builds)(services[i]) by {
        let id = services[i].id@;
        assert forall|k: int| 0 <= k < i implies services[k].id@ != id by {
            assert(services[k].id@ != services[i].id@);
        }
        assert(first_with_id(services, id, i));
        lemma_first_unique(services, id, i);
        assert(lists(services, id));
    }
    lemma_filter_agrees(services, buildable_pred(builds), accepted_pred(services, builds));
}

/// The ids, directories and build steps of a list of build descriptions.
pub open spec fn build_infos_view(v: Seq<BuildInfo>) -> Seq<(Seq<char>, PathBuf, PathBuf, Seq<Seq<char>>)> {
    v.map_values(|b: BuildInfo| (b.service_id@, b.work_dir, b.env_dir, texts(b.build_steps@)))
}

/// The status of a build that was just started.
pub open spec fn started_status(total_steps: usize) -> BuildStatusView {
    BuildStatusView {
        building: true,
        current_step: 0,
        total_steps,
        step_label: "Creating virtual environment..."@,
        log: Seq::empty(),
        error: None,
    }
}

/// The status of a build after it ended, with `error` when it failed.
pub open spec fn finished_status(b: BuildStatusView, error: Option<Seq<char>>) -> BuildStatusView {
    if error is None {
        BuildStatusView {
            building: false,
            error,
            step_label: "Build complete"@,
            current_step: b.total_steps,
            ..b
        }
    } else {
        BuildStatusView { building: false, error, ..b }
    }
}

/// A build log after `line` and a line break are appended.
pub open spec fn appended_log(log: Seq<char>, line: Seq<char>) -> Seq<char> {
    log + line + seq!['\n']
}

/// Whether cutting `full` to its last `BUILD_LOG_KEPT` bytes, when it is over
/// the limit, cuts between characters.
pub open spec fn log_cut_ok(full: Seq<char>) -> bool {
    let bytes = encode_utf8(full);
    bytes.len() > BUILD_LOG_LIMIT ==> is_char_boundary(bytes, bytes.len() - BUILD_LOG_KEPT)
}

/// The build log kept: all of it while it is within the limit, else its last
/// `BUILD_LOG_KEPT` bytes.
pub open spec fn kept_log(full: Seq<char>) -> Seq<char> {
    let bytes = encode_utf8(full);
    if bytes.len() > BUILD_LOG_LIMIT {
        decode_utf8(bytes.subrange(bytes.len() - BUILD_LOG_KEPT, bytes.len() as int))
    } else {
        full
    }
}

/// The views of an optional result of reading a file.
pub open spec fn read_view(r: Option<Result<String, String>>) -> Option<Result<Seq<char>, Seq<char>>> {
    match r {
        Some(Ok(t)) => Some(Ok(t@)),
        Some(Err(e)) => Some(Err(e@)),
        None => None,
    }
}

/// The views of a result with texts on both sides.
pub open spec fn result_view(r: Result<String, String>) -> Result<Seq<char>, Seq<char>> {
    match r {
        Ok(t) => Ok(t@),
        Err(e) => Err(e@),
    }
}

/// The log shown when neither a build under way nor a fresh runtime log takes
/// precedence: the build log if it is not empty, else the runtime log file.
pub open spec fn log_fallback(
    builds: Map<Seq<char>, BuildStatusView>,
    id: Seq<char>,
    runtime: Option<Result<Seq<char>, Seq<char>>>,
) -> Result<Seq<char>, Seq<char>> {
    if builds.contains_key(id) && builds[id].log.len() > 0 {
        Ok(builds[id].log)
    } else {
        match runtime {
            Some(res) => res,
            None => Ok(Seq::empty()),
        }
    }
}

/// Whether the log rules look at the runtime log file of `id`: a listed
/// service with no build under way that runs, has failed, or has no build log.
pub open spec fn runtime_log_consulted(
    services: Seq<ServiceDef>,
    running: Map<Seq<char>, RunningService>,
    errors: Map<Seq<char>, Seq<char>>,
    builds: Map<Seq<char>, BuildStatusView>,
    id: Seq<char>,
) -> bool {
    &&& lists(services, id)
    &&& !is_building(builds, id)
    &&& (running.contains_key(id) || errors.contains_key(id) || !(builds.contains_key(id) && builds[id].log.len()
        > 0))
}

/// The log shown for `id`: a build under way shows its build log; a running
/// or failed service its runtime log when that is not empty; otherwise the
/// build log when it is not empty, else the runtime log, else nothing.
/// `runtime` is the outcome of reading the runtime log file, `None` when the
/// file does not exist.
pub open spec fn log_outcome(
    services: Seq<ServiceDef>,
    running: Map<Seq<char>, RunningService>,
    errors: Map<Seq<char>, Seq<char>>,
    builds: Map<Seq<char>, BuildStatusView>,
    id: Seq<char>,
    runtime: Option<Result<Seq<char>, Seq<char>>>,
) -> Result<Seq<char>, Seq<char>> {
    if !lists(services, id) {
        Err(unknown_service_text(id))
    } else if is_building(builds, id) {
        Ok(builds[id].log)
    } else if (running.contains_key(id) || errors.contains_key(id)) && runtime is Some {
        match runtime->0 {
            Err(e) => Err(e),
            Ok(t) => if t.len() > 0 {
                Ok(t)
            } else {
                log_fallback(builds, id, runtime)
            },
        }
    } else {
        log_fallback(builds, id, runtime)
    }
}

fn copy_texts(v: &Vec<String>) -> (r: Vec<String>)
    ensures
        r@ == v@,
{
    let mut r: Vec<String> = Vec::new();
    let mut i: usize = 0;
    while i < v.len()
        invariant
            i <= v@.len(),
            r@ == v@.subrange(0, i as int),
        decreases v@.len() - i,
    {
        r.push(v[i].clone());
        proof {
            assert(r@ =~= v@.subrange(0, i as int + 1));
        }
        i = i + 1;
    }
    proof {
        assert(v@.subrange(0, v@.len() as int) =~= v@);
    }
    r
}

/// Bytes read from the end of a runtime log file that is larger.
pub const RUNTIME_LOG_TAIL_BYTES: u64 = 262_144;

/// The runtime log shown, given the size of the log file and what was read
/// of it: a file over `RUNTIME_LOG_TAIL_BYTES` is read from that many bytes
/// before its end, and its first, partial line is dropped.
pub open spec fn runtime_log_shown(file_size: u64, read: Seq<char>) -> Seq<char> {
    if file_size > RUNTIME_LOG_TAIL_BYTES {
        after_first_newline(read)
    } else {
        read
    }
}

/// The runtime log shown, given the size of the log file and what was read
/// of it (its last `RUNTIME_LOG_TAIL_BYTES` bytes when it is larger).
pub fn runtime_log_text(file_size: u64, read: String) -> (r: String)
    ensures
        r@ == runtime_log_shown(file_size, read@),
{
    if file_size > RUNTIME_LOG_TAIL_BYTES {
        drop_partial_first_line(read.as_str())
    } else {
        read
    }
}

/// The directory of `svc`: its working directory under the repository root.
pub open spec fn service_dir_of(repo_root: PathBuf, svc: ServiceDef) -> PathBuf {
    joined_path(repo_root, svc.working_dir@)
}

/// The Python environment of `svc`: `env` in its directory.
pub open spec fn env_dir_of(repo_root: PathBuf, svc: ServiceDef) -> PathBuf {
    joined_path(service_dir_of(repo_root, svc), "env"@)
}

/// The runtime log file of `svc`: `<id>.log` in its directory.
pub open spec fn log_path_of(repo_root: PathBuf, svc: ServiceDef) -> PathBuf {
    joined_path(service_dir_of(repo_root, svc), svc.id@ + ".log"@)
}

/// The interpreter of `svc`'s environment: `Scripts/python.exe` in it.
pub open spec fn python_path_of(repo_root: PathBuf, svc: ServiceDef) -> PathBuf {
    joined_path(joined_path(env_dir_of(repo_root, svc), "Scripts"@), "python.exe"@)
}

/// Manages the lifecycle of the services of a manifest: which run, their
/// health, their last errors, and the builds of their environments.
pub struct ServiceManager {
    services: Vec<ServiceDef>,
    repo_root: PathBuf,
    running: Table<RunningService>,
    errors: Table<String>,
    build_statuses: Table<BuildStatus>,
}

impl ServiceManager {
    /// The tables behind the manager are well formed, and every running
    /// service is one of the manifest.
    pub closed spec fn wf(self) -> bool {
        &&& forall|k: Seq<char>| #[trigger] self.running@.contains_key(k) ==> lists(self.services@, k)
        &&& self.running.wf()
        &&& self.errors.wf()
        &&& self.build_statuses.wf()
    }

    /// Every running service is a service of the manifest: nothing but a
    /// listed service is ever recorded as started, and the manifest never changes.
    pub proof fn lemma_running_services_are_listed(self)
        requires
            self.wf(),
        ensures
            forall|k: Seq<char>| #[trigger] self.running().contains_key(k) ==> lists(self.services(), k),
    {
    }

    /// The services of the manifest, in manifest order.
    pub closed spec fn services(self) -> Seq<ServiceDef> {
        self.services@
    }

    /// The running services, by id.
    pub closed spec fn running(self) -> Map<Seq<char>, RunningService> {
        self.running@
    }

    /// The last error of each service that has one, by id.
    pub closed spec fn errors(self) -> Map<Seq<char>, Seq<char>> {
        self.errors@.map_values(|e: String| e@)
    }

    /// The build status of each id that a build was started for.
    pub closed spec fn builds(self) -> Map<Seq<char>, BuildStatusView> {
        self.build_statuses@.map_values(|b: BuildStatus| b@)
    }

    /// The number of running entries.
    pub closed spec fn running_count(self) -> nat {
        self.running.size()
    }

    /// A manager for `services`, whose working directories lie under `repo_root`;
    /// nothing runs, nothing has failed and nothing is being built.
    pub fn new(services: Vec<ServiceDef>, repo_root: PathBuf) -> (m: Self)
        ensures
            m.wf(),
            m.services() == services@,
            m.repo_root() == repo_root,
            m.running() == Map::<Seq<char>, RunningService>::empty(),
            m.errors() == Map::<Seq<char>, Seq<char>>::empty(),
            m.builds() == Map::<Seq<char>, BuildStatusView>::empty(),
    {
        let m = ServiceManager {
            services,
            repo_root,
            running: Table::new(),
            errors: Table::new(),
            build_statuses: Table::new(),
        };
        proof {
            assert(m.errors() =~= Map::<Seq<char>, Seq<char>>::empty());
            assert(m.builds() =~= Map::<Seq<char>, BuildStatusView>::empty());
        }
        m
    }

    fn find_service(&self, id: &String) -> (r: Option<usize>)
        ensures
            match r {
                Some(i) => first_with_id(self.services@, id@, i as int) && index_of(self.services@, id@) == i,
                None => !lists(self.services@, id@),
            },
    {
        let mut i: usize = 0;
        while i < self.services.len()
            invariant
                i <= self.services@.len(),
                forall|j: int| 0 <= j < i ==> self.services@[j].id@ != id@,
            decreases self.services@.len() - i,
        {
            if self.services[i].id == *id {
                proof {
                    lemma_first_unique(self.services@, id@, i as int);
                }
                return Some(i);
            }
            i = i + 1;
        }
        None
    }

    /// The repository root the services' directories lie under.
    pub closed spec fn repo_root(self) -> PathBuf {
        self.repo_root
    }

    fn service_dir(&self, svc: &ServiceDef) -> (p: PathBuf)
        ensures
            p == service_dir_of(self.repo_root(), *svc),
    {
        join_path(&self.repo_root, svc.working_dir.as_str())
    }

    fn env_dir(&self, svc: &ServiceDef) -> (p: PathBuf)
        ensures
            p == env_dir_of(self.repo_root(), *svc),
    {
        let dir = self.service_dir(svc);
        join_path(&dir, "env")
    }

    fn python_path(&self, svc: &ServiceDef) -> (p: PathBuf)
        ensures
            p == python_path_of(self.repo_root(), *svc),
    {
        let env = self.env_dir(svc);
        let scripts = join_path(&env, "Scripts");
        join_path(&scripts, "python.exe")
    }

    /// The Python interpreter of the environment of the service `service_id`,
    /// or `None` when no service has that id.
    pub fn python_exe(&self, service_id: &str) -> (p: Option<PathBuf>)
        ensures
            p is Some == lists(self.services(), service_id@),
            p matches Some(path) ==> path == python_path_of(
                self.repo_root(),
                service_for(self.services(), service_id@),
            ),
    {
        let id = service_id.to_owned();
        match self.find_service(&id) {
            Some(i) => Some(self.python_path(&self.services[i])),
            None => None,
        }
    }

    /// Checks whether `service_id` may be launched and, if so, clears its last
    /// error and says how to launch it. The caller has looked up whether the
    /// interpreter at `python_exe(service_id)` exists.
    pub fn start(
        &mut self,
        service_id: &str,
        python_exists: bool,
        ctx: &LaunchContext,
    ) -> (r: Result<LaunchPlan, String>)
        requires
            old(self).wf(),
        ensures
            final(self).wf(),
            final(self).services() == old(self).services(),
            final(self).repo_root() == old(self).repo_root(),
            final(self).running() == old(self).running(),
            final(self).builds() == old(self).builds(),
            match r {
                Err(e) => {
                    &&& start_refusal(old(self).repo_root(), old(self).services(), old(self).running(), service_id@, python_exists) == Some(e@)
                    &&& final(self).errors() == old(self).errors()
                },
                Ok(plan) => {
                    let svc = service_for(old(self).services(), service_id@);
                    &&& start_refusal(old(self).repo_root(), old(self).services(), old(self).running(), service_id@, python_exists) is None
                    &&& final(self).errors() == old(self).errors().remove(service_id@)
                    &&& plan.service_id@ == svc.id@
                    &&& plan.python == python_path_of(old(self).repo_root(), svc)
                    &&& plan.work_dir == service_dir_of(old(self).repo_root(), svc)
                    &&& plan.log_path == log_path_of(old(self).repo_root(), svc)
                    &&& plan.entry_point@ == svc.entry_point@
                    &&& pairs_view(plan.base_env@) == base_env_plan()
                    &&& actions_view(plan.service_env@) == service_env_plan(svc, *ctx)
                },
            },
    {
        let id = service_id.to_owned();
        let i = match self.find_service(&id) {
            Some(i) => i,
            None => {
                return Err(unknown_service_error(service_id));
            },
        };
        if self.running.contains_key(&id) {
            return Err(id.concat(" is already running"));
        }
        let svc = &self.services[i];
        let python = self.python_path(svc);
        if !python_exists {
            let shown = display_path(&python);
            let e = "Python venv not found at ".to_owned().concat(shown.as_str()).concat(
                ". Build the environment first.",
            );
            return Err(e);
        }
        let work_dir = self.service_dir(svc);
        let log_name = svc.id.clone().concat(".log");
        let log_path = join_path(&work_dir, log_name.as_str());
        let mut base_env: Vec<(String, String)> = Vec::new();
        base_env.push(("PYTHONIOENCODING".to_owned(), "utf-8".to_owned()));
        base_env.push(("PYTHONUNBUFFERED".to_owned(), "1".to_owned()));
        let plan = LaunchPlan {
            service_id: svc.id.clone(),
            python,
            entry_point: svc.entry_point.clone(),
            work_dir,
            log_path,
            base_env,
            service_env: service_env(svc, ctx),
        };
        let ghost old_errors = self.errors@;
        self.errors.remove(&id);
        proof {
            lemma_map_values_remove(old_errors, id@, |e: String| e@);
            assert(pairs_view(plan.base_env@) =~= base_env_plan());
        }
        Ok(plan)
    }

    /// Records that the child for `service_id` was spawned at `now` with
    /// process id `pid`: it runs, is not yet healthy, and was never probed.
    pub fn mark_started(&mut self, service_id: &str, pid: u32, now: u64)
        requires
            old(self).wf(),
            lists(old(self).services(), service_id@),
        ensures
            final(self).wf(),
            final(self).services() == old(self).services(),
            final(self).repo_root() == old(self).repo_root(),
            final(self).running() == old(self).running().insert(service_id@, fresh_running(pid, now)),
            final(self).errors() == old(self).errors(),
            final(self).builds() == old(self).builds(),
    {
        let id = service_id.to_owned();
        self.running.insert(
            id,
            RunningService { pid, healthy: false, started_at: now, last_health_check_at: None },
        );
    }

    /// Forgets the running service `service_id` and its last error; the
    /// caller ends the process. Fails when it does not run.
    pub fn stop(&mut self, service_id: &str) -> (r: Result<(), String>)
        requires
            old(self).wf(),
        ensures
            final(self).wf(),
            final(self).services() == old(self).services(),
            final(self).repo_root() == old(self).repo_root(),
            final(self).builds() == old(self).builds(),
            final(self).running_count() <= old(self).running_count(),
            match r {
                Ok(()) => {
                    &&& old(self).running().contains_key(service_id@)
                    &&& final(self).running() == old(self).running().remove(service_id@)
                    &&& final(self).errors() == old(self).errors().remove(service_id@)
                },
                Err(e) => {
                    &&& !old(self).running().contains_key(service_id@)
                    &&& e@ == not_running_text(service_id@)
                    &&& final(self).running() == old(self).running()
                    &&& final(self).errors() == old(self).errors()
                },
            },
    {
        let id = service_id.to_owned();
        match self.running.remove(&id) {
            Some(_) => {
                let ghost old_errors = self.errors@;
                self.errors.remove(&id);
                proof {
                    lemma_map_values_remove(old_errors, id@, |e: String| e@);
                }
                Ok(())
            },
            None => Err(id.concat(" is not running")),
        }
    }

    /// Forgets every running service and the last errors of those; the
    /// caller ends the processes.
    pub fn stop_all(&mut self)
        requires
            old(self).wf(),
        ensures
            final(self).wf(),
            final(self).services() == old(self).services(),
            final(self).repo_root() == old(self).repo_root(),
            final(self).builds() == old(self).builds(),
            final(self).running() == Map::<Seq<char>, RunningService>::empty(),
            final(self).errors() == old(self).errors().remove_keys(old(self).running().dom()),
    {
        let ghost old_running = self.running();
        let ghost old_errors = self.errors();
        loop
            invariant
                self.wf(),
                old_running == old(self).running(),
                old_errors == old(self).errors(),
                self.services() == old(self).services(),
                self.repo_root() == old(self).repo_root(),
                self.builds() == old(self).builds(),
                forall|k: Seq<char>| #[trigger] self.running().contains_key(k) ==> old_running.contains_key(k),
                self.errors() == old_errors.remove_keys(old_running.dom().difference(self.running().dom())),
            decreases self.running_count(),
        {
            let ghost before_running = self.running();
            let ghost before_errors = self.errors@;
            match self.running.remove_any() {
                None => {
                    proof {
                        assert(old_running.dom().difference(self.running().dom()) =~= old_running.dom());
                    }
                    return;
                },
                Some((id, _)) => {
                    self.errors.remove(&id);
                    proof {
                        lemma_map_values_remove(before_errors, id@, |e: String| e@);
                        assert(old_running.dom().difference(self.running().dom()) =~= old_running.dom().difference(
                            before_running.dom(),
                        ).insert(id@));
                        assert(self.errors() =~= old_errors.remove_keys(
                            old_running.dom().difference(self.running().dom()),
                        ));
                    }
                },
            }
        }
    }

    /// Records the exits the caller observed: each service in `exits` that
    /// runs stops running and gets the exit as its error.
    pub fn check_processes(&mut self, exits: Vec<ProcessExit>)
        requires
            old(self).wf(),
        ensures
            final(self).wf(),
            final(self).services() == old(self).services(),
            final(self).repo_root() == old(self).repo_root(),
            final(self).builds() == old(self).builds(),
            (final(self).running(), final(self).errors()) == record_exits(old(self).running(), old(self).errors(), exits@),
    {
        let ghost r0 = self.running();
        let ghost e0 = self.errors();
        let mut i: usize = 0;
        while i < exits.len()
            invariant
                self.wf(),
                i <= exits@.len(),
                self.services() == old(self).services(),
                self.repo_root() == old(self).repo_root(),
                self.builds() == old(self).builds(),
                (self.running(), self.errors()) == record_exits(r0, e0, exits@.subrange(0, i as int)),
            decreases exits@.len() - i,
        {
            let x = &exits[i];
            proof {
                let prefix = exits@.subrange(0, i as int + 1);
                assert(prefix.drop_last() =~= exits@.subrange(0, i as int));
                assert(prefix.last() == exits@[i as int]);
            }
            if self.running.contains_key(&x.id) {
                let msg = exit_message(x.success, x.code);
                let ghost before_errors = self.errors@;
                self.running.remove(&x.id);
                self.errors.insert(x.id.clone(), msg);
                proof {
                    lemma_map_values_insert(before_errors, x.id@, msg, |e: String| e@);
                }
            }
            i = i + 1;
        }
        proof {
            assert(exits@.subrange(0, exits@.len() as int) =~= exits@);
        }
    }

    /// Records the outcome of a health probe of `service_id`, if it runs.
    pub fn set_health(&mut self, service_id: &str, healthy: bool)
        requires
            old(self).wf(),
        ensures
            final(self).wf(),
            final(self).services() == old(self).services(),
            final(self).repo_root() == old(self).repo_root(),
            final(self).errors() == old(self).errors(),
            final(self).builds() == old(self).builds(),
            final(self).running() == if old(self).running().contains_key(service_id@) {
                old(self).running().insert(
                    service_id@,
                    RunningService { healthy, ..old(self).running()[service_id@] },
                )
            } else {
                old(self).running()
            },
    {
        let id = service_id.to_owned();
        let current = match self.running.get(&id) {
            Some(r) => *r,
            None => {
                return;
            },
        };
        self.running.insert(id, RunningService { healthy, ..current });
    }

    /// Hands out the health probes that are due at `now` (nanoseconds on the
    /// caller's monotonic clock), in manifest order, and notes them as sent.
    pub fn take_due_health_targets(&mut self, now: u64) -> (targets: Vec<HealthTarget>)
        requires
            old(self).wf(),
        ensures
            final(self).wf(),
            final(self).services() == old(self).services(),
            final(self).repo_root() == old(self).repo_root(),
            final(self).errors() == old(self).errors(),
            final(self).builds() == old(self).builds(),
            (final(self).running(), targets_view(targets@)) == due_fold(old(self).running(), old(self).services(), now),
    {
        let ghost r0 = self.running();
        let mut targets: Vec<HealthTarget> = Vec::new();
        let mut i: usize = 0;
        while i < self.services.len()
            invariant
                self.wf(),
                i <= self.services@.len(),
                self.services() == old(self).services(),
                self.repo_root() == old(self).repo_root(),
                self.errors() == old(self).errors(),
                self.builds() == old(self).builds(),
                (self.running(), targets_view(targets@)) == due_fold(r0, self.services@.subrange(0, i as int), now),
            decreases self.services@.len() - i,
        {
            let ghost before = targets_view(targets@);
            proof {
                let prefix = self.services@.subrange(0, i as int + 1);
                assert(prefix.drop_last() =~= self.services@.subrange(0, i as int));
                assert(prefix.last() == self.services@[i as int]);
            }
            let svc = &self.services[i];
            if let Some(h) = &svc.health_check {
                let current = match self.running.get(&svc.id) {
                    Some(r) => Some(*r),
                    None => None,
                };
                if let Some(r) = current {
                    let elapsed = elapsed_whole_secs(now, r.started_at);
                    let interval = health_check_interval(h, r.healthy, elapsed);
                    let due = match r.last_health_check_at {
                        None => true,
                        Some(last) => elapsed_whole_secs(now, last) >= interval,
                    };
                    if due {
                        self.running.insert(
                            svc.id.clone(),
                            RunningService { last_health_check_at: Some(now), ..r },
                        );
                        let t = HealthTarget {
                            id: svc.id.clone(),
                            port: svc.port,
                            endpoint: h.endpoint.clone(),
                            timeout_seconds: if h.timeout_seconds < 1 { 1 } else { h.timeout_seconds },
                        };
                        targets.push(t);
                        proof {
                            assert(targets_view(targets@) =~= before + seq![probe_target(*svc, *h)]);
                        }
                    } else {
                        proof {
                            assert(before + Seq::<HealthTargetView>::empty() =~= before);
                        }
                    }
                } else {
                    proof {
                        assert(before + Seq::<HealthTargetView>::empty() =~= before);
                    }
                }
            } else {
                proof {
                    assert(before + Seq::<HealthTargetView>::empty() =~= before);
                }
            }
            i = i + 1;
        }
        proof {
            assert(self.services@.subrange(0, self.services@.len() as int) =~= self.services@);
        }
        targets
    }

    /// What the user interface shows of each service, in manifest order.
    /// `env_exists[i]` says whether the interpreter of the `i`-th service's
    /// environment exists; the caller looks that up with `python_exe`.
    pub fn get_service_info(&self, env_exists: &Vec<bool>) -> (infos: Vec<ServiceInfo>)
        requires
            self.wf(),
            env_exists@.len() == self.services().len(),
        ensures
            infos@.len() == self.services().len(),
            forall|i: int|
                0 <= i < infos@.len() ==> #[trigger] info_describes(
                    infos@[i],
                    self.services()[i],
                    env_exists@[i],
                    self.running(),
                    self.errors(),
                    self.builds(),
                ),
    {
        let mut infos: Vec<ServiceInfo> = Vec::new();
        let mut i: usize = 0;
        while i < self.services.len()
            invariant
                self.wf(),
                i <= self.services@.len(),
                env_exists@.len() == self.services@.len(),
                infos@.len() == i,
                forall|j: int|
                    0 <= j < i ==> #[trigger] info_describes(
                        infos@[j],
                        self.services()[j],
                        env_exists@[j],
                        self.running(),
                        self.errors(),
                        self.builds(),
                    ),
            decreases self.services@.len() - i,
        {
            let info = self.describe(&self.services[i], env_exists[i]);
            infos.push(info);
            i = i + 1;
        }
        infos
    }

    fn describe(&self, svc: &ServiceDef, env_exists: bool) -> (info: ServiceInfo)
        requires
            self.wf(),
        ensures
            info_describes(info, *svc, env_exists, self.running(), self.errors(), self.builds()),
    {
        let running = self.running.get(&svc.id);
        let is_running = running.is_some();
        let pid = match running {
            Some(r) => Some(r.pid),
            None => None,
        };
        let healthy = match running {
            Some(r) => r.healthy,
            None => false,
        };
        let error = match self.errors.get(&svc.id) {
            Some(e) => Some(e.clone()),
            None => None,
        };
        let health_endpoint = match &svc.health_check {
            Some(h) => {
                let port = u16_text(svc.port);
                Some("http://localhost:".to_owned().concat(port.as_str()).concat(h.endpoint.as_str()))
            },
            None => None,
        };
        let status = if is_running && healthy {
            "running".to_owned()
        } else if is_running {
            "starting".to_owned()
        } else if error.is_some() {
            "failed".to_owned()
        } else {
            "stopped".to_owned()
        };
        let build_status = match self.build_statuses.get(&svc.id) {
            Some(b) => Some(b.clone()),
            None => None,
        };
        proof {
            if self.errors@.contains_key(svc.id@) {
                assert(self.errors().contains_key(svc.id@));
            }
            if self.build_statuses@.contains_key(svc.id@) {
                assert(self.builds().contains_key(svc.id@));
            }
        }
        ServiceInfo {
            id: svc.id.clone(),
            display_name: svc.display_name.clone(),
            port: svc.port,
            status,
            pid,
            error,
            env_exists,
            health_endpoint,
            build_status,
        }
    }

    /// What a build of `service_id`'s environment needs, unless it has no
    /// build steps or a build of it is under way.
    pub fn get_build_info(&self, service_id: &str) -> (r: Result<BuildInfo, String>)
        requires
            self.wf(),
        ensures
            match r {
                Err(e) => build_refusal(self.services(), self.builds(), service_id@) == Some(e@),
                Ok(info) => {
                    &&& build_refusal(self.services(), self.builds(), service_id@) is None
                    &&& info.service_id@ == service_id@
                    &&& info.work_dir == service_dir_of(self.repo_root(), service_for(self.services(), service_id@))
                    &&& info.env_dir == env_dir_of(self.repo_root(), service_for(self.services(), service_id@))
                    &&& info.build_steps@ == service_for(self.services(), service_id@).build_steps@
                },
            },
    {
        let id = service_id.to_owned();
        let i = match self.find_service(&id) {
            Some(i) => i,
            None => {
                return Err(unknown_service_error(service_id));
            },
        };
        let svc = &self.services[i];
        if svc.build_steps.len() == 0 {
            return Err("No build steps defined for ".to_owned().concat(service_id));
        }
        if self.building(&id) {
            return Err(id.concat(" is already building"));
        }
        Ok(self.build_info(svc))
    }

    fn building(&self, id: &String) -> (b: bool)
        requires
            self.wf(),
        ensures
            b == is_building(self.builds(), id@),
    {
        match self.build_statuses.get(id) {
            Some(st) => {
                proof {
                    assert(self.builds().contains_key(id@));
                }
                st.building
            },
            None => false,
        }
    }

    fn build_info(&self, svc: &ServiceDef) -> (info: BuildInfo)
        ensures
            info.service_id@ == svc.id@,
            info.work_dir == service_dir_of(self.repo_root(), *svc),
            info.env_dir == env_dir_of(self.repo_root(), *svc),
            info.build_steps@ == svc.build_steps@,
    {
        BuildInfo {
            service_id: svc.id.clone(),
            work_dir: self.service_dir(svc),
            env_dir: self.env_dir(svc),
            build_steps: copy_texts(&svc.build_steps),
        }
    }

    /// What the builds of all services that can be built need, in manifest order.
    pub fn get_all_build_infos(&self) -> (infos: Vec<BuildInfo>)
        requires
            self.wf(),
        ensures
            build_infos_view(infos@) == build_list(self.repo_root(), self.services(), self.builds()),
    {
        let mut infos: Vec<BuildInfo> = Vec::new();
        let mut i: usize = 0;
        while i < self.services.len()
            invariant
                self.wf(),
                i <= self.services@.len(),
                build_infos_view(infos@) == build_list(
                    self.repo_root(),
                    self.services@.subrange(0, i as int),
                    self.builds(),
                ),
            decreases self.services@.len() - i,
        {
            let svc = &self.services[i];
            proof {
                let prefix = self.services@.subrange(0, i as int + 1);
                assert(prefix.drop_last() =~= self.services@.subrange(0, i as int));
                assert(prefix.last() == self.services@[i as int]);
            }
            let ghost before = build_infos_view(infos@);
            if svc.build_steps.len() > 0 && !self.building(&svc.id) {
                infos.push(self.build_info(svc));
                proof {
                    assert(build_infos_view(infos@) =~= before.push(
                        (
                            svc.id@,
                            service_dir_of(self.repo_root(), *svc),
                            env_dir_of(self.repo_root(), *svc),
                            texts(svc.build_steps@),
                        ),
                    ));
                }
            }
            i = i + 1;
        }
        proof {
            assert(self.services@.subrange(0, self.services@.len() as int) =~= self.services@);
        }
        infos
    }

    /// Records that a build of `service_id` with `total_steps` steps started.
    pub fn set_build_started(&mut self, service_id: &str, total_steps: usize)
        requires
            old(self).wf(),
        ensures
            final(self).wf(),
            final(self).services() == old(self).services(),
            final(self).repo_root() == old(self).repo_root(),
            final(self).running() == old(self).running(),
            final(self).errors() == old(self).errors(),
            final(self).builds() == old(self).builds().insert(service_id@, started_status(total_steps)),
    {
        let status = BuildStatus {
            building: true,
            current_step: 0,
            total_steps,
            step_label: "Creating virtual environment...".to_owned(),
            log: String::new(),
            error: None,
        };
        let ghost before = self.build_statuses@;
        self.build_statuses.insert(service_id.to_owned(), status);
        proof {
            lemma_map_values_insert(before, service_id@, status, |b: BuildStatus| b@);
        }
    }

    /// Records the step a build of `service_id` has reached, if one was started.
    pub fn set_build_step(&mut self, service_id: &str, step: usize, label: &str)
        requires
            old(self).wf(),
        ensures
            final(self).wf(),
            final(self).services() == old(self).services(),
            final(self).repo_root() == old(self).repo_root(),
            final(self).running() == old(self).running(),
            final(self).errors() == old(self).errors(),
            final(self).builds() == if old(self).builds().contains_key(service_id@) {
                old(self).builds().insert(
                    service_id@,
                    BuildStatusView {
                        current_step: step,
                        step_label: label@,
                        ..old(self).builds()[service_id@]
                    },
                )
            } else {
                old(self).builds()
            },
    {
        let id = service_id.to_owned();
        let ghost before = self.build_statuses@;
        match self.build_statuses.remove(&id) {
            Some(mut status) => {
                status.current_step = step;
                status.step_label = label.to_owned();
                let ghost st = status;
                self.build_statuses.insert(id, status);
                proof {
                    assert(before.remove(service_id@).insert(service_id@, st) =~= before.insert(service_id@, st));
                    lemma_map_values_insert(before, service_id@, st, |b: BuildStatus| b@);
                }
            },
            None => {},
        }
    }

    /// Appends `line` and a line break to the build log of `service_id`, if a
    /// build was started; a log over `BUILD_LOG_LIMIT` bytes is cut to its
    /// last `BUILD_LOG_KEPT` bytes.
    pub fn append_build_log(&mut self, service_id: &str, line: &str)
        requires
            old(self).wf(),
            old(self).builds().contains_key(service_id@) ==> {
                let full = appended_log(old(self).builds()[service_id@].log, line@);
                &&& encode_utf8(full).len() <= usize::MAX
                &&& log_cut_ok(full)
            },
        ensures
            final(self).wf(),
            final(self).services() == old(self).services(),
            final(self).repo_root() == old(self).repo_root(),
            final(self).running() == old(self).running(),
            final(self).errors() == old(self).errors(),
            final(self).builds() == if old(self).builds().contains_key(service_id@) {
                old(self).builds().insert(
                    service_id@,
                    BuildStatusView {
                        log: kept_log(appended_log(old(self).builds()[service_id@].log, line@)),
                        ..old(self).builds()[service_id@]
                    },
                )
            } else {
                old(self).builds()
            },
            final(self).builds().contains_key(service_id@) ==> encode_utf8(
                final(self).builds()[service_id@].log,
            ).len() <= BUILD_LOG_LIMIT,
    {
        let id = service_id.to_owned();
        let ghost before = self.build_statuses@;
        match self.build_statuses.remove(&id) {
            Some(mut status) => {
                proof {
                    assert(before.map_values(|b: BuildStatus| b@)[service_id@] == before[service_id@]@);
                    reveal_strlit("\n");
                }
                let ghost old_log = status.log@;
                status.log.append(line);
                status.log.append("\n");
                let ghost full = status.log@;
                proof {
                    assert(full =~= appended_log(old_log, line@));
                }
                let len = status.log.as_str().len();
                if len > BUILD_LOG_LIMIT {
                    let start = len - BUILD_LOG_KEPT;
                    let kept = {
                        let (_, tail) = status.log.as_str().split_at(start);
                        tail.to_owned()
                    };
                    proof {
                        let bytes = encode_utf8(full);
                        let rest = bytes.subrange(start as int, bytes.len() as int);
                        vstd::utf8::encode_utf8_valid_utf8(full);
                        vstd::utf8::valid_utf8_split(bytes, start as int);
                        vstd::utf8::encode_utf8_decode_utf8(kept@);
                        assert(kept@ == decode_utf8(rest));
                        vstd::utf8::decode_utf8_encode_utf8(rest);
                        assert(encode_utf8(kept@).len() == BUILD_LOG_KEPT);
                    }
                    status.log = kept;
                }
                let ghost st = status;
                self.build_statuses.insert(id, status);
                proof {
                    lemma_map_values_insert(before, service_id@, st, |b: BuildStatus| b@);
                }
            },
            None => {},
        }
    }

    /// Records that the build of `service_id` ended, with `error` when it
    /// failed; a build that succeeded is marked complete at its last step.
    pub fn set_build_done(&mut self, service_id: &str, error: Option<String>)
        requires
            old(self).wf(),
        ensures
            final(self).wf(),
            final(self).services() == old(self).services(),
            final(self).repo_root() == old(self).repo_root(),
            final(self).running() == old(self).running(),
            final(self).errors() == old(self).errors(),
            final(self).builds() == if old(self).builds().contains_key(service_id@) {
                old(self).builds().insert(
                    service_id@,
                    finished_status(old(self).builds()[service_id@], opt_text(error)),
                )
            } else {
                old(self).builds()
            },
    {
        let id = service_id.to_owned();
        let ghost before = self.build_statuses@;
        match self.build_statuses.remove(&id) {
            Some(mut status) => {
                status.building = false;
                status.error = error;
                if status.error.is_none() {
                    status.step_label = "Build complete".to_owned();
                    status.current_step = status.total_steps;
                }
                let ghost st = status;
                self.build_statuses.insert(id, status);
                proof {
                    lemma_map_values_insert(before, service_id@, st, |b: BuildStatus| b@);
                }
            },
            None => {},
        }
    }

    /// The log to show for `service_id`. `runtime_log` is the outcome of
    /// reading the service's runtime log file, or `None` when that file does
    /// not exist; it is used only where the log rules call for the file.
    pub fn get_log(&self, service_id: &str, runtime_log: Option<Result<String, String>>) -> (r: Result<String, String>)
        requires
            self.wf(),
        ensures
            result_view(r) == log_outcome(
                self.services(),
                self.running(),
                self.errors(),
                self.builds(),
                service_id@,
                read_view(runtime_log),
            ),
    {
        let id = service_id.to_owned();
        if self.find_service(&id).is_none() {
            return Err(unknown_service_error(service_id));
        }
        let is_running = self.running.contains_key(&id);
        let is_building = self.building(&id);
        let has_failed = self.errors.contains_key(&id);
        proof {
            if self.errors@.contains_key(id@) {
                assert(self.errors().contains_key(id@));
            }
            if self.build_statuses@.contains_key(id@) {
                assert(self.builds().contains_key(id@));
            }
        }
        if is_building {
            return match self.build_statuses.get(&id) {
                Some(b) => Ok(b.log.clone()),
                None => Ok(String::new()),
            };
        }
        if (is_running || has_failed) && runtime_log.is_some() {
            match &runtime_log {
                Some(Err(e)) => {
                    return Err(e.clone());
                },
                Some(Ok(t)) => {
                    if !t.as_str().is_empty() {
                        return Ok(t.clone());
                    }
                },
                None => {},
            }
        }
        if let Some(b) = self.build_statuses.get(&id) {
            if !b.log.as_str().is_empty() {
                return Ok(b.log.clone());
            }
        }
        match runtime_log {
            Some(res) => res,
            None => Ok(String::new()),
        }
    }

    /// The Python interpreter of each service's environment, in manifest order.
    pub fn python_exes(&self) -> (paths: Vec<PathBuf>)
        ensures
            paths@.len() == self.services().len(),
            forall|i: int|
                0 <= i < paths@.len() ==> #[trigger] paths@[i] == python_path_of(self.repo_root(), self.services()[i]),
    {
        let mut paths: Vec<PathBuf> = Vec::new();
        let mut i: usize = 0;
        while i < self.services.len()
            invariant
                i <= self.services@.len(),
                paths@.len() == i,
                forall|j: int|
                    0 <= j < i ==> #[trigger] paths@[j] == python_path_of(self.repo_root(), self.services()[j]),
            decreases self.services@.len() - i,
        {
            paths.push(self.python_path(&self.services[i]));
            i = i + 1;
        }
        paths
    }

    /// The runtime log file of the service `service_id`, or `None` when no
    /// service has that id.
    pub fn runtime_log_path(&self, service_id: &str) -> (p: Option<PathBuf>)
        ensures
            p is Some == lists(self.services(), service_id@),
            p matches Some(path) ==> path == log_path_of(
                self.repo_root(),
                service_for(self.services(), service_id@),
            ),
    {
        let id = service_id.to_owned();
        match self.find_service(&id) {
            Some(i) => {
                let svc = &self.services[i];
                let dir = self.service_dir(svc);
                let name = svc.id.clone().concat(".log");
                Some(join_path(&dir, name.as_str()))
            },
            None => None,
        }
    }

    /// Whether appending `line` to the build log of `service_id` would cut
    /// the log inside a character, which `append_build_log` does not allow.
    pub fn log_cut_splits_char(&self, service_id: &str, line: &str) -> (b: bool)
        requires
            self.wf(),
        ensures
            !self.builds().contains_key(service_id@) ==> !b,
            self.builds().contains_key(service_id@) && encode_utf8(
                appended_log(self.builds()[service_id@].log, line@),
            ).len() <= usize::MAX ==> b == !log_cut_ok(appended_log(self.builds()[service_id@].log, line@)),
    {
        let id = service_id.to_owned();
        match self.build_statuses.get(&id) {
            Some(status) => {
                proof {
                    assert(self.builds().contains_key(id@));
                    reveal_strlit("\n");
                }
                let mut full = status.log.clone();
                full.append(line);
                full.append("\n");
                proof {
                    assert(full@ =~= appended_log(self.builds()[service_id@].log, line@));
                }
                let len = full.as_str().len();
                len > BUILD_LOG_LIMIT && !full.as_str().is_char_boundary(len - BUILD_LOG_KEPT)
            },
            None => false,
        }
    }

    /// Whether `get_log` looks at the runtime log file of `service_id`; when
    /// it does not, the caller need not read the file.
    pub fn runtime_log_consulted(&self, service_id: &str) -> (b: bool)
        requires
            self.wf(),
        ensures
            b == runtime_log_consulted(self.services(), self.running(), self.errors(), self.builds(), service_id@),
    {
        let id = service_id.to_owned();
        if self.find_service(&id).is_none() {
            return false;
        }
        if self.building(&id) {
            return false;
        }
        proof {
            if self.errors@.contains_key(id@) {
                assert(self.errors().contains_key(id@));
            }
            if self.build_statuses@.contains_key(id@) {
                assert(self.builds().contains_key(id@));
            }
        }
        let active = self.running.contains_key(&id) || self.errors.contains_key(&id);
        let has_build_log = match self.build_statuses.get(&id) {
            Some(b) => !b.log.as_str().is_empty(),
            None => false,
        };
        active || !has_build_log
    }

    /// Whether the service `service_id` is running.
    pub fn is_running(&self, service_id: &str) -> (b: bool)
        requires
            self.wf(),
        ensures
            b == self.running().contains_key(service_id@),
            b ==> lists(self.services(), service_id@),
    {
        let id = service_id.to_owned();
        self.running.contains_key(&id)
    }
}

} // verus!
