use vstd::prelude::*;
use crate::health::{normal_interval, probe_interval, UNHEALTHY_RETRY_SECONDS};
use crate::launch::{resolved_value, service_env_plan, with_appdata, EnvActionView, LaunchContext};
use crate::manager::{
    already_building_text, already_running_text, build_refusal, due_fold, due_step, elapsed_secs,
    finished_status, fresh_running, is_building, lists, log_outcome, probe_due, probe_target, record_exits,
    runtime_log_consulted, info_describes, HealthTargetView, ServiceInfo,
    service_for, service_status, start_refusal, started_status, BuildStatusView, RunningService,
};
use crate::manifest::ServiceDef;
use crate::text::{occurs_in, replace_all};

verus! {

/// Whether a probe of `svc` is not due in `running` at `now`.
pub open spec fn settled(running: Map<Seq<char>, RunningService>, svc: ServiceDef, now: u64) -> bool {
    match svc.health_check {
        None => true,
        Some(h) => running.contains_key(svc.id@) ==> !probe_due(h, running[svc.id@], now),
    }
}

proof fn lemma_probed_now_is_settled(h: crate::manifest::HealthCheck, r: RunningService, now: u64)
    requires
        r.last_health_check_at == Some(now),
    ensures
        !probe_due(h, r, now),
{
    assert(elapsed_secs(now, now) == 0);
    assert(probe_interval(
        h.interval_seconds,
        h.startup_grace_seconds,
        r.healthy,
        elapsed_secs(now, r.started_at),
    ) >= 1);
}

proof fn lemma_fold_settles(running: Map<Seq<char>, RunningService>, services: Seq<ServiceDef>, now: u64)
    ensures
        forall|j: int|
            0 <= j < services.len() ==> #[trigger] settled(due_fold(running, services, now).0, services[j], now),
    decreases services.len(),
{
    if services.len() > 0 {
        let prev = services.drop_last();
        lemma_fold_settles(running, prev, now);
        let m = due_fold(running, prev, now).0;
        let last = services.last();
        let m2 = due_step(m, last, now).0;
        assert(m2 == due_fold(running, services, now).0);
        assert forall|j: int| 0 <= j < services.len() implies #[trigger] settled(m2, services[j], now) by {
            let s = services[j];
            if m2 != m {
                let h = last.health_check->0;
                lemma_probed_now_is_settled(h, m2[last.id@], now);
                if s.id@ == last.id@ {
                    if let Some(hs) = s.health_check {
                        lemma_probed_now_is_settled(hs, m2[last.id@], now);
                    }
                } else if j < services.len() - 1 {
                    assert(prev[j] == s);
                    assert(settled(m, prev[j], now));
                }
            } else if j < services.len() - 1 {
                assert(prev[j] == s);
                assert(settled(m, prev[j], now));
            }
        }
    }
}

proof fn lemma_settled_fold_is_quiet(m: Map<Seq<char>, RunningService>, services: Seq<ServiceDef>, now: u64)
    requires
        forall|j: int| 0 <= j < services.len() ==> #[trigger] settled(m, services[j], now),
    ensures
        due_fold(m, services, now) == (m, Seq::<crate::manager::HealthTargetView>::empty()),
    decreases services.len(),
{
    if services.len() > 0 {
        let prev = services.drop_last();
        assert forall|j: int| 0 <= j < prev.len() implies #[trigger] settled(m, prev[j], now) by {
            assert(prev[j] == services[j]);
        }
        lemma_settled_fold_is_quiet(m, prev, now);
        assert(settled(m, services[services.len() - 1], now));
        assert(Seq::<crate::manager::HealthTargetView>::empty() + Seq::<
            crate::manager::HealthTargetView,
        >::empty() =~= Seq::<crate::manager::HealthTargetView>::empty());
    }
}

/// Asking for due health probes twice at the same instant: the second call
/// hands out nothing and changes nothing, since every probe handed out marks
/// its service as probed now and every service passed over stays not due.
pub proof fn lemma_take_due_twice_yields_nothing(
    running: Map<Seq<char>, RunningService>,
    services: Seq<ServiceDef>,
    now: u64,
)
    ensures
        ({
            let after = due_fold(running, services, now).0;
            &&& due_fold(after, services, now).0 == after
            &&& due_fold(after, services, now).1.len() == 0
        }),
{
    lemma_fold_settles(running, services, now);
    lemma_settled_fold_is_quiet(due_fold(running, services, now).0, services, now);
}

proof fn lemma_fold_marks_targets(running: Map<Seq<char>, RunningService>, services: Seq<ServiceDef>, now: u64)
    ensures
        ({
            let (m, ts) = due_fold(running, services, now);
            &&& forall|a: int| 0 <= a < ts.len() ==> m.contains_key(#[trigger] ts[a].id)
                && m[ts[a].id].last_health_check_at == Some(now)
            &&& forall|a: int, b: int| 0 <= a < b < ts.len() ==> #[trigger] ts[a].id != #[trigger] ts[b].id
        }),
    decreases services.len(),
{
    if services.len() > 0 {
        let prev = services.drop_last();
        lemma_fold_marks_targets(running, prev, now);
        let (m, ts) = due_fold(running, prev, now);
        let last = services.last();
        let (m2, t) = due_step(m, last, now);
        let all = ts + t;
        if t.len() > 0 {
            let h = last.health_check->0;
            assert(probe_due(h, m[last.id@], now));
            assert forall|a: int| 0 <= a < ts.len() implies ts[a].id != last.id@ by {
                if ts[a].id == last.id@ {
                    lemma_probed_now_is_settled(h, m[last.id@], now);
                }
            }
            assert(t[0].id == last.id@);
        }
        assert forall|a: int| 0 <= a < all.len() implies m2.contains_key(#[trigger] all[a].id)
            && m2[all[a].id].last_health_check_at == Some(now) by {
            if a < ts.len() {
                assert(all[a] == ts[a]);
            } else {
                assert(all[a] == t[a - ts.len()]);
            }
        }
        assert forall|a: int, b: int| 0 <= a < b < all.len() implies #[trigger] all[a].id != #[trigger] all[b].id by {
            if b < ts.len() {
                assert(all[a] == ts[a] && all[b] == ts[b]);
            } else {
                assert(all[b] == t[b - ts.len()]);
                assert(all[a] == ts[a]);
            }
        }
    }
}

/// One call hands out at most one health probe per service id, and notes
/// each service probed as probed at that instant.
pub proof fn lemma_one_probe_per_service(running: Map<Seq<char>, RunningService>, services: Seq<ServiceDef>, now: u64)
    ensures
        ({
            let (m, ts) = due_fold(running, services, now);
            &&& forall|a: int, b: int| 0 <= a < b < ts.len() ==> #[trigger] ts[a].id != #[trigger] ts[b].id
            &&& forall|a: int| 0 <= a < ts.len() ==> m[#[trigger] ts[a].id].last_health_check_at == Some(now)
        }),
{
    lemma_fold_marks_targets(running, services, now);
}

/// Where the log rules do not look at the runtime log file, what is shown does
/// not depend on it.
pub proof fn lemma_unconsulted_runtime_log_is_ignored(
    services: Seq<ServiceDef>,
    running: Map<Seq<char>, RunningService>,
    errors: Map<Seq<char>, Seq<char>>,
    builds: Map<Seq<char>, BuildStatusView>,
    id: Seq<char>,
    runtime: Option<Result<Seq<char>, Seq<char>>>,
)
    requires
        !runtime_log_consulted(services, running, errors, builds, id),
    ensures
        log_outcome(services, running, errors, builds, id, runtime) == log_outcome(
            services,
            running,
            errors,
            builds,
            id,
            None,
        ),
{
}

/// A running service is handed a probe once its wait since the last probe
/// is over: five seconds at most while it is unhealthy, the manifest
/// interval (at least one second) once it is healthy.
pub proof fn lemma_probe_due_after_wait(
    running: Map<Seq<char>, RunningService>,
    svc: ServiceDef,
    now: u64,
)
    requires
        svc.health_check is Some,
        running.contains_key(svc.id@),
        ({
            let r = running[svc.id@];
            let h = svc.health_check->0;
            let wait = if r.healthy { normal_interval(h.interval_seconds) } else { UNHEALTHY_RETRY_SECONDS };
            r.last_health_check_at matches Some(last) ==> elapsed_secs(now, last) >= wait
        }),
    ensures
        due_step(running, svc, now).1 == seq![probe_target(svc, svc.health_check->0)],
{
}

/// Every health probe handed out belongs to a service of the manifest with a
/// health check, and carries that service's port, endpoint and timeout, the
/// timeout raised to one second when the manifest gives zero.
pub proof fn lemma_probe_targets_carry_manifest_settings(
    running: Map<Seq<char>, RunningService>,
    services: Seq<ServiceDef>,
    now: u64,
)
    ensures
        forall|a: int|
            0 <= a < due_fold(running, services, now).1.len() ==> target_of_listed(
                #[trigger] due_fold(running, services, now).1[a],
                services,
            ),
    decreases services.len(),
{
    if services.len() > 0 {
        let prev = services.drop_last();
        lemma_probe_targets_carry_manifest_settings(running, prev, now);
        let (m, ts) = due_fold(running, prev, now);
        let last = services.last();
        let t = due_step(m, last, now).1;
        let all = due_fold(running, services, now).1;
        assert(all == ts + t);
        assert forall|a: int| 0 <= a < all.len() implies target_of_listed(#[trigger] all[a], services) by {
            if a < ts.len() {
                assert(all[a] == ts[a]);
                assert(target_of_listed(ts[a], prev));
                let j = choose|j: int| 0 <= j < prev.len() && #[trigger] target_matches(ts[a], prev[j]);
                assert(prev[j] == services[j]);
                assert(target_matches(all[a], services[j]));
            } else {
                assert(all[a] == t[0]);
                assert(target_matches(all[a], services[services.len() - 1]));
            }
        }
    }
}

/// Whether probe `t` carries the settings of some service of `services`.
pub open spec fn target_of_listed(t: HealthTargetView, services: Seq<ServiceDef>) -> bool {
    exists|j: int| 0 <= j < services.len() && #[trigger] target_matches(t, services[j])
}

/// Whether probe `t` carries the settings of service `svc`.
pub open spec fn target_matches(t: HealthTargetView, svc: ServiceDef) -> bool {
    &&& svc.health_check is Some
    &&& t.id == svc.id@
    &&& t.port == svc.port
    &&& t.endpoint == svc.health_check->0.endpoint@
    &&& (svc.health_check->0.timeout_seconds >= 1 ==> t.timeout_seconds == svc.health_check->0.timeout_seconds)
    &&& (svc.health_check->0.timeout_seconds == 0 ==> t.timeout_seconds == 1)
}

/// A service that runs or has failed shows its runtime log whenever the log
/// file could be read and is not empty, unless a build of it is under way;
/// a read error of that file is what is shown then.
pub proof fn lemma_active_service_shows_runtime_log(
    services: Seq<ServiceDef>,
    running: Map<Seq<char>, RunningService>,
    errors: Map<Seq<char>, Seq<char>>,
    builds: Map<Seq<char>, BuildStatusView>,
    id: Seq<char>,
    read: Result<Seq<char>, Seq<char>>,
)
    requires
        lists(services, id),
        !is_building(builds, id),
        running.contains_key(id) || errors.contains_key(id),
    ensures
        read matches Ok(t) && t.len() > 0 ==> log_outcome(services, running, errors, builds, id, Some(read)) == read,
        read matches Err(e) ==> log_outcome(services, running, errors, builds, id, Some(read)) == read,
{
}

/// The `melodyflow` service has flash attention switched on exactly when the
/// setting asks for it: its last environment change assigns
/// `MELODYFLOW_USE_FLASH_ATTN` the text `1` when it does and `0` when not.
pub proof fn lemma_melodyflow_flash_attention_follows_setting(svc: ServiceDef, ctx: LaunchContext)
    requires
        svc.id@ == "melodyflow"@,
    ensures
        service_env_plan(svc, ctx).len() > 0,
        ctx.melodyflow_use_flash_attn ==> service_env_plan(svc, ctx).last() == EnvActionView::Assign(
            "MELODYFLOW_USE_FLASH_ATTN"@,
            "1"@,
        ),
        !ctx.melodyflow_use_flash_attn ==> service_env_plan(svc, ctx).last() == EnvActionView::Assign(
            "MELODYFLOW_USE_FLASH_ATTN"@,
            "0"@,
        ),
{
    reveal_strlit("melodyflow");
    reveal_strlit("sa3");
    assert("melodyflow"@ != "sa3"@) by {
        assert("melodyflow"@.len() != "sa3"@.len());
    }
}

/// A running service shows the process id it was started with, whether or
/// not it has reported healthy yet; a service that does not run shows none.
pub proof fn lemma_running_service_shows_its_pid(
    info: ServiceInfo,
    svc: ServiceDef,
    env_exists: bool,
    running: Map<Seq<char>, RunningService>,
    errors: Map<Seq<char>, Seq<char>>,
    builds: Map<Seq<char>, BuildStatusView>,
)
    requires
        info_describes(info, svc, env_exists, running, errors, builds),
    ensures
        running.contains_key(svc.id@) ==> info.pid == Some(running[svc.id@].pid),
        !running.contains_key(svc.id@) ==> info.pid is None,
{
}

/// A build that ends without error is no longer building, is complete at its
/// last step and records no error; one that ends with an error keeps the step
/// it reached and records the error.
pub proof fn lemma_finished_build_status(b: BuildStatusView, error: Option<Seq<char>>)
    ensures
        !finished_status(b, error).building,
        finished_status(b, error).error == error,
        finished_status(b, error).total_steps == b.total_steps,
        finished_status(b, error).log == b.log,
        error is None ==> finished_status(b, error).current_step == b.total_steps
            && finished_status(b, error).step_label == "Build complete"@,
        error is Some ==> finished_status(b, error).current_step == b.current_step
            && finished_status(b, error).step_label == b.step_label,
{
}

/// A running service that was probed before is not probed again too early:
/// not within one second, and, once healthy, not before the manifest
/// interval has passed since the last probe.
pub proof fn lemma_no_probe_before_wait(running: Map<Seq<char>, RunningService>, svc: ServiceDef, now: u64)
    requires
        svc.health_check is Some,
        running.contains_key(svc.id@),
        running[svc.id@].last_health_check_at is Some,
        ({
            let r = running[svc.id@];
            let h = svc.health_check->0;
            let since = elapsed_secs(now, r.last_health_check_at->0);
            since < 1 || (r.healthy && since < h.interval_seconds)
        }),
    ensures
        due_step(running, svc, now).1.len() == 0,
        due_step(running, svc, now).0 == running,
{
}

/// An unhealthy service still within its startup grace is probed every
/// second.
pub proof fn lemma_starting_service_probed_every_second(
    running: Map<Seq<char>, RunningService>,
    svc: ServiceDef,
    now: u64,
)
    requires
        svc.health_check is Some,
        running.contains_key(svc.id@),
        !running[svc.id@].healthy,
        elapsed_secs(now, running[svc.id@].started_at) < svc.health_check->0.startup_grace_seconds,
        running[svc.id@].last_health_check_at matches Some(last) ==> elapsed_secs(now, last) >= 1,
    ensures
        due_step(running, svc, now).1.len() == 1,
{
}

/// `carey` gets the scrag VAE exactly when the setting asks for it; otherwise
/// the variable is removed from its environment.
pub proof fn lemma_carey_vae_follows_setting(svc: ServiceDef, ctx: LaunchContext)
    requires
        svc.id@ == "carey"@,
    ensures
        service_env_plan(svc, ctx).len() > 0,
        ctx.carey_use_scrag_vae ==> service_env_plan(svc, ctx).last() == EnvActionView::Assign(
            "ACESTEP_VAE_PATH"@,
            "scrag-vae"@,
        ),
        !ctx.carey_use_scrag_vae ==> service_env_plan(svc, ctx).last() == EnvActionView::Remove(
            "ACESTEP_VAE_PATH"@,
        ),
{
    reveal_strlit("carey");
    reveal_strlit("sa3");
    reveal_strlit("melodyflow");
    assert("carey"@ != "sa3"@) by {
        assert("carey"@.len() != "sa3"@.len());
    }
    assert("carey"@ != "melodyflow"@) by {
        assert("carey"@.len() != "melodyflow"@.len());
    }
}

/// A service that was just started shows as starting.
pub proof fn lemma_started_service_is_starting(
    running: Map<Seq<char>, RunningService>,
    errors: Map<Seq<char>, Seq<char>>,
    id: Seq<char>,
    pid: u32,
    now: u64,
)
    ensures
        service_status(running.insert(id, fresh_running(pid, now)), errors, id) == "starting"@,
{
}

/// A running service whose health probe succeeded shows as running.
pub proof fn lemma_healthy_service_is_running(
    running: Map<Seq<char>, RunningService>,
    errors: Map<Seq<char>, Seq<char>>,
    id: Seq<char>,
)
    requires
        running.contains_key(id),
    ensures
        service_status(running.insert(id, RunningService { healthy: true, ..running[id] }), errors, id)
            == "running"@,
{
}

/// A service that was stopped shows as stopped.
pub proof fn lemma_stopped_service_is_stopped(
    running: Map<Seq<char>, RunningService>,
    errors: Map<Seq<char>, Seq<char>>,
    id: Seq<char>,
)
    ensures
        service_status(running.remove(id), errors.remove(id), id) == "stopped"@,
{
}

proof fn lemma_record_exits_facts(
    running: Map<Seq<char>, RunningService>,
    errors: Map<Seq<char>, Seq<char>>,
    exits: Seq<crate::manager::ProcessExit>,
)
    ensures
        ({
            let (r, e) = record_exits(running, errors, exits);
            &&& forall|k: Seq<char>| #[trigger] r.contains_key(k) ==> running.contains_key(k)
            &&& forall|k: Seq<char>| #[trigger] errors.contains_key(k) ==> e.contains_key(k)
            &&& forall|k: Seq<char>|
                running.contains_key(k) && !r.contains_key(k) ==> #[trigger] e.contains_key(k)
            &&& forall|j: int| 0 <= j < exits.len() ==> !r.contains_key(#[trigger] exits[j].id@)
        }),
    decreases exits.len(),
{
    if exits.len() > 0 {
        let prev = exits.drop_last();
        lemma_record_exits_facts(running, errors, prev);
        let (r0, e0) = record_exits(running, errors, prev);
        let (r, e) = record_exits(running, errors, exits);
        assert forall|j: int| 0 <= j < exits.len() implies !r.contains_key(#[trigger] exits[j].id@) by {
            if j < exits.len() - 1 {
                assert(prev[j] == exits[j]);
                assert(!r0.contains_key(prev[j].id@));
            }
        }
    }
}

/// A running service whose exit was recorded shows as failed.
pub proof fn lemma_exited_service_is_failed(
    running: Map<Seq<char>, RunningService>,
    errors: Map<Seq<char>, Seq<char>>,
    exits: Seq<crate::manager::ProcessExit>,
    k: int,
)
    requires
        0 <= k < exits.len(),
        running.contains_key(exits[k].id@),
    ensures
        ({
            let (r, e) = record_exits(running, errors, exits);
            service_status(r, e, exits[k].id@) == "failed"@
        }),
{
    lemma_record_exits_facts(running, errors, exits);
    let (r, e) = record_exits(running, errors, exits);
    assert(!r.contains_key(exits[k].id@));
    assert(e.contains_key(exits[k].id@));
}

/// Stopping undoes starting: a service started and then stopped leaves the
/// running services as they were.
pub proof fn lemma_stop_undoes_start(running: Map<Seq<char>, RunningService>, id: Seq<char>, pid: u32, now: u64)
    requires
        !running.contains_key(id),
    ensures
        running.insert(id, fresh_running(pid, now)).remove(id) == running,
{
    assert(running.insert(id, fresh_running(pid, now)).remove(id) =~= running);
}

/// A service that was started cannot be started again until it stops.
pub proof fn lemma_started_service_refuses_start(
    repo_root: std::path::PathBuf,
    services: Seq<ServiceDef>,
    running: Map<Seq<char>, RunningService>,
    id: Seq<char>,
    pid: u32,
    now: u64,
    python_exists: bool,
)
    requires
        lists(services, id),
    ensures
        start_refusal(repo_root, services, running.insert(id, fresh_running(pid, now)), id, python_exists)
            == Some(already_running_text(id)),
{
}

/// Once a build of a service is started, no other build of it is launched.
pub proof fn lemma_started_build_blocks_another(
    services: Seq<ServiceDef>,
    builds: Map<Seq<char>, BuildStatusView>,
    id: Seq<char>,
    total_steps: usize,
)
    requires
        lists(services, id),
        service_for(services, id).build_steps@.len() > 0,
    ensures
        build_refusal(services, builds.insert(id, started_status(total_steps)), id) == Some(
            already_building_text(id),
        ),
{
}

/// A build that ended, successfully or not, no longer blocks another build.
pub proof fn lemma_finished_build_allows_another(
    services: Seq<ServiceDef>,
    builds: Map<Seq<char>, BuildStatusView>,
    id: Seq<char>,
    error: Option<Seq<char>>,
)
    requires
        lists(services, id),
        service_for(services, id).build_steps@.len() > 0,
        builds.contains_key(id),
    ensures
        build_refusal(services, builds.insert(id, finished_status(builds[id], error)), id) is None,
{
}

/// While a build of a service is under way, its build log is what is shown.
pub proof fn lemma_building_shows_build_log(
    services: Seq<ServiceDef>,
    running: Map<Seq<char>, RunningService>,
    errors: Map<Seq<char>, Seq<char>>,
    builds: Map<Seq<char>, BuildStatusView>,
    id: Seq<char>,
    runtime: Option<Result<Seq<char>, Seq<char>>>,
)
    requires
        lists(services, id),
        is_building(builds, id),
    ensures
        log_outcome(services, running, errors, builds, id, runtime) == Ok::<Seq<char>, Seq<char>>(
            builds[id].log,
        ),
{
}

/// Replacing a pattern that does not occur leaves the text as it is.
pub proof fn lemma_replace_absent(s: Seq<char>, p: Seq<char>, w: Seq<char>)
    requires
        !occurs_in(p, s),
    ensures
        replace_all(s, p, w) == s,
    decreases s.len(),
{
    if p.len() > 0 && s.len() >= p.len() {
        if s.subrange(0, p.len() as int) == p {
            assert(s.subrange(0, 0 + p.len() as int) == p);
        }
        let rest = s.subrange(1, s.len() as int);
        assert forall|i: int| 0 <= i && i + p.len() <= rest.len() implies #[trigger] rest.subrange(
            i,
            i + p.len(),
        ) != p by {
            assert(rest.subrange(i, i + p.len()) =~= s.subrange(i + 1, i + 1 + p.len()));
        }
        lemma_replace_absent(rest, p, w);
        assert(seq![s[0]] + rest =~= s);
    }
}

/// A manifest value without any `${` is handed to the service unchanged.
pub proof fn lemma_plain_value_unchanged(value: Seq<char>, ctx: crate::launch::LaunchContext)
    requires
        !occurs_in("${"@, value),
    ensures
        resolved_value(value, ctx) == value,
{
    reveal_strlit("${");
    reveal_strlit("${APPDATA}");
    reveal_strlit("${HF_TOKEN}");
    reveal_strlit("${MODELS_DIR}");
    let prefix = "${"@;
    assert forall|pat: Seq<char>, i: int|
        pat.len() >= 2 && pat[0] == '$' && pat[1] == '{' && 0 <= i && i + pat.len() <= value.len()
        implies #[trigger] value.subrange(i, i + pat.len()) != pat by {
        if value.subrange(i, i + pat.len()) == pat {
            assert(value.subrange(i, i + prefix.len()) =~= prefix);
        }
    }
    assert(!occurs_in("${APPDATA}"@, value));
    if let Some(a) = ctx.appdata {
        lemma_replace_absent(value, "${APPDATA}"@, a@);
    }
    assert(with_appdata(value, ctx) == value);
    assert(!occurs_in("${HF_TOKEN}"@, value));
    assert(!occurs_in("${MODELS_DIR}"@, value));
}

} // verus!
