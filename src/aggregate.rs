use vstd::prelude::*;

use crate::model::{ServiceConfig, ServiceInfo, UnitState, load_label, enabled_spec};
use crate::property::{answer_value, read_property, QueryAnswer, QueryFailure};
use crate::resolve::{find_config_for_unit, first_match};
use crate::uptime::{
    lemma_elapsed_monotonic,
    clock_limit,
    duration_text,
    elapsed_secs,
    get_boot_time,
    now_micros,
    uptime_at,
};

verus! {

/// The manager's answers for one unit's properties: the main process id, the
/// last exit or error code, and the monotonic time at which the main process
/// started.
pub struct UnitProperties {
    pub main_pid: QueryAnswer,
    pub status_errno: QueryAnswer,
    pub start_monotonic: QueryAnswer,
}

/// What was learnt of one configured service: its unit, `None` where the manager
/// could not give it, and the unit's properties.
pub struct ServiceProbe {
    pub unit: Option<UnitState>,
    pub properties: UnitProperties,
}

/// Why a service is left out of an aggregation.
#[derive(Clone, Copy, Debug, PartialEq, Eq, Structural)]
pub enum SkipReason {
    /// The manager could not locate the unit, or has masked it.
    UnitUnavailable,
    /// The start time of the main process could not be read, for this reason.
    MissingStartTimestamp(QueryFailure),
    /// No configuration entry names the unit.
    NoMatchingConfig,
}

/// A service left out of an aggregation: its position among the probes, and why.
#[derive(Clone, Copy, Debug, PartialEq, Eq, Structural)]
pub struct SkippedService {
    pub index: usize,
    pub reason: SkipReason,
}

/// The services that could be described, and those that were left out.
pub struct Aggregation {
    pub records: Vec<ServiceInfo>,
    pub skipped: Vec<SkippedService>,
}

/// The 64-bit value of an answer, `None` where it gives none.
pub open spec fn u64_answer(answer: QueryAnswer) -> Option<u64> {
    match answer_value(answer, u64::MAX as nat) {
        Ok(v) => Some(v as u64),
        Err(_) => None,
    }
}

/// The 8-bit value of an answer, `None` where it gives none.
pub open spec fn u8_answer(answer: QueryAnswer) -> Option<u8> {
    match answer_value(answer, u8::MAX as nat) {
        Ok(v) => Some(v as u8),
        Err(_) => None,
    }
}

/// A main process id is running when it is present and non-zero.
pub open spec fn running_spec(pid: Option<u64>) -> bool {
    pid matches Some(p) && p != 0
}

/// The exit or error code is shown only for a service that is not running.
pub open spec fn shown_code(props: UnitProperties) -> Option<u8> {
    if running_spec(u64_answer(props.main_pid)) {
        None
    } else {
        u8_answer(props.status_errno)
    }
}

/// Why a unit with these properties cannot be described, if it cannot.
pub open spec fn unit_skip(unit: UnitState, props: UnitProperties, configs: Seq<ServiceConfig>) -> Option<SkipReason> {
    if let Err(e) = answer_value(props.start_monotonic, u64::MAX as nat) {
        Some(SkipReason::MissingStartTimestamp(e))
    } else if first_match(configs, unit.name@) is None {
        Some(SkipReason::NoMatchingConfig)
    } else {
        None
    }
}

/// `info` describes the unit: the first matching configuration entry, the load
/// state, the active and enabled flags, the process id and whether it runs, the
/// code where it does not run, and the uptime of its main process.
pub open spec fn describes(
    info: ServiceInfo,
    unit: UnitState,
    props: UnitProperties,
    configs: Seq<ServiceConfig>,
    boot_time_secs: u64,
    now: u128,
) -> bool {
    &&& first_match(configs, unit.name@) matches Some(i) && info.config == configs[i]
    &&& info.status@ == load_label(unit.load_state)
    &&& info.active == unit.active
    &&& info.enabled == enabled_spec(unit.auto_start)
    &&& info.pid == u64_answer(props.main_pid)
    &&& info.running == running_spec(u64_answer(props.main_pid))
    &&& info.status_code == shown_code(props)
    &&& u64_answer(props.start_monotonic) matches Some(start) && info.uptime@ == duration_text(
        elapsed_secs(start, boot_time_secs, now),
    )
}

/// `info` describes the probed unit.
pub open spec fn describes_probe(
    info: ServiceInfo,
    probe: ServiceProbe,
    configs: Seq<ServiceConfig>,
    boot_time_secs: u64,
    now: u128,
) -> bool {
    match probe.unit {
        Some(unit) => describes(info, unit, probe.properties, configs, boot_time_secs, now),
        None => false,
    }
}

/// Why a probe cannot be described, if it cannot.
pub open spec fn probe_skip(probe: ServiceProbe, configs: Seq<ServiceConfig>) -> Option<SkipReason> {
    match probe.unit {
        Some(unit) => unit_skip(unit, probe.properties, configs),
        None => Some(SkipReason::UnitUnavailable),
    }
}

/// The positions of the probes that can be described, in order.
pub open spec fn described_indices(probes: Seq<ServiceProbe>, configs: Seq<ServiceConfig>) -> Seq<int>
    decreases probes.len(),
{
    if probes.len() == 0 {
        Seq::empty()
    } else {
        let prev = described_indices(probes.drop_last(), configs);
        if probe_skip(probes.last(), configs) is None {
            prev.push(probes.len() - 1)
        } else {
            prev
        }
    }
}

/// The positions of the probes that are left out, in order.
pub open spec fn skipped_indices(probes: Seq<ServiceProbe>, configs: Seq<ServiceConfig>) -> Seq<int>
    decreases probes.len(),
{
    if probes.len() == 0 {
        Seq::empty()
    } else {
        let prev = skipped_indices(probes.drop_last(), configs);
        if probe_skip(probes.last(), configs) is Some {
            prev.push(probes.len() - 1)
        } else {
            prev
        }
    }
}

/// `agg` is the aggregation of the probes against the configuration, with the
/// machine booted at `boot_time_secs` and the clock at `now`: one record for each
/// probe that can be described, in order, and one skip for each other probe.
pub open spec fn aggregated(
    agg: Aggregation,
    configs: Seq<ServiceConfig>,
    probes: Seq<ServiceProbe>,
    boot_time_secs: u64,
    now: u128,
) -> bool {
    let ok = described_indices(probes, configs);
    let bad = skipped_indices(probes, configs);
    &&& agg.records@.len() == ok.len()
    &&& forall|k: int|
        0 <= k < ok.len() ==> describes_probe(
            #[trigger] agg.records@[k],
            probes[ok[k]],
            configs,
            boot_time_secs,
            now,
        )
    &&& agg.skipped@.len() == bad.len()
    &&& forall|k: int|
        0 <= k < bad.len() ==> (#[trigger] agg.skipped@[k]).index == bad[k] && probe_skip(
            probes[bad[k]],
            configs,
        ) == Some(agg.skipped@[k].reason)
}

/// Derives the status of one unit from the manager's answers, or says why it
/// cannot: the start time is required, the process id and code are optional.
pub fn get_unit_info(
    unit: &UnitState,
    props: &UnitProperties,
    configs: &Vec<ServiceConfig>,
    boot_time_secs: u64,
    now: u128,
) -> (r: Result<ServiceInfo, SkipReason>)
    requires
        now <= clock_limit(),
    ensures
        r matches Ok(info) ==> describes(info, *unit, *props, configs@, boot_time_secs, now),
        r matches Err(e) ==> unit_skip(*unit, *props, configs@) == Some(e),
        r is Ok <==> unit_skip(*unit, *props, configs@) is None,
{
    let main_pid: Option<u64> = match read_property(&props.main_pid, u64::MAX) {
        Ok(v) => Some(v),
        Err(_) => None,
    };
    let errno: Option<u8> = match read_property(&props.status_errno, u8::MAX as u64) {
        Ok(v) => Some(v as u8),
        Err(_) => None,
    };
    let start: u64 = match read_property(&props.start_monotonic, u64::MAX) {
        Ok(v) => v,
        Err(e) => {
            return Err(SkipReason::MissingStartTimestamp(e));
        },
    };
    let uptime = uptime_at(start, boot_time_secs, now);
    let index = match find_config_for_unit(&unit.name, configs) {
        Some(i) => i,
        None => {
            return Err(SkipReason::NoMatchingConfig);
        },
    };
    let running = match main_pid {
        Some(p) => p != 0,
        None => false,
    };
    let status_code = if running {
        None
    } else {
        errno
    };
    Ok(
        ServiceInfo {
            config: configs[index].duplicate(),
            status: unit.load_state.label(),
            active: unit.active,
            enabled: unit.auto_start.is_enabled(),
            running,
            pid: main_pid,
            status_code,
            uptime,
        },
    )
}

/// Derives the status of one probed service, or says why it cannot.
pub fn probe_outcome(
    probe: &ServiceProbe,
    configs: &Vec<ServiceConfig>,
    boot_time_secs: u64,
    now: u128,
) -> (r: Result<ServiceInfo, SkipReason>)
    requires
        now <= clock_limit(),
    ensures
        r matches Ok(info) ==> describes_probe(info, *probe, configs@, boot_time_secs, now),
        r matches Err(e) ==> probe_skip(*probe, configs@) == Some(e),
        r is Ok <==> probe_skip(*probe, configs@) is None,
{
    match &probe.unit {
        Some(unit) => get_unit_info(unit, &probe.properties, configs, boot_time_secs, now),
        None => Err(SkipReason::UnitUnavailable),
    }
}

/// Aggregates the probed services against the configuration for a machine booted
/// at `boot_time_secs` (seconds since the Unix epoch) with the clock at `now`
/// (microseconds since the Unix epoch). A service that cannot be described is
/// left out and reported; it never fails the whole aggregation.
pub fn aggregate_at(
    configs: &Vec<ServiceConfig>,
    probes: &Vec<ServiceProbe>,
    boot_time_secs: u64,
    now: u128,
) -> (r: Aggregation)
    requires
        now <= clock_limit(),
    ensures
        aggregated(r, configs@, probes@, boot_time_secs, now),
{
    let mut records: Vec<ServiceInfo> = Vec::new();
    let mut skipped: Vec<SkippedService> = Vec::new();
    let mut i: usize = 0;
    while i < probes.len()
        invariant
            i <= probes@.len(),
            now <= clock_limit(),
            aggregated(
                Aggregation { records, skipped },
                configs@,
                probes@.subrange(0, i as int),
                boot_time_secs,
                now,
            ),
        decreases probes@.len() - i,
    {
        let ghost prefix = probes@.subrange(0, i as int);
        let ghost next = probes@.subrange(0, i + 1);
        let ghost old_records = records@;
        let ghost old_skipped = skipped@;
        proof {
            assert(next.drop_last() =~= prefix);
            assert forall|j: int| 0 <= j < i implies next[j] == prefix[j] by {}
        }
        let outcome = probe_outcome(&probes[i], configs, boot_time_secs, now);
        proof {
            assert(next.last() == probes@[i as int]);
            let ok0 = described_indices(prefix, configs@);
            let bad0 = skipped_indices(prefix, configs@);
            if probe_skip(probes@[i as int], configs@) is None {
                assert(described_indices(next, configs@) == ok0.push(i as int));
                assert(skipped_indices(next, configs@) == bad0);
            } else {
                assert(described_indices(next, configs@) == ok0);
                assert(skipped_indices(next, configs@) == bad0.push(i as int));
            }
            lemma_indices_below(prefix, configs@);
        }
        match outcome {
            Ok(info) => {
                records.push(info);
            },
            Err(reason) => {
                skipped.push(SkippedService { index: i, reason });
            },
        }
        proof {
            let ok = described_indices(next, configs@);
            let bad = skipped_indices(next, configs@);
            let ok0 = described_indices(prefix, configs@);
            let bad0 = skipped_indices(prefix, configs@);
            assert(records@.len() == ok.len());
            assert(skipped@.len() == bad.len());
            assert forall|k: int| 0 <= k < ok.len() implies describes_probe(
                #[trigger] records@[k],
                next[ok[k]],
                configs@,
                boot_time_secs,
                now,
            ) by {
                if k < ok0.len() {
                    assert(records@[k] == old_records[k]);
                    assert(ok[k] == ok0[k]);
                    assert(next[ok[k]] == prefix[ok0[k]]);
                } else {
                    assert(ok[k] == i);
                }
            }
            assert forall|k: int| 0 <= k < bad.len() implies (#[trigger] skipped@[k]).index == bad[k]
                && probe_skip(next[bad[k]], configs@) == Some(skipped@[k].reason) by {
                if k < bad0.len() {
                    assert(skipped@[k] == old_skipped[k]);
                    assert(bad[k] == bad0[k]);
                    assert(next[bad[k]] == prefix[bad0[k]]);
                } else {
                    assert(bad[k] == i);
                }
            }
            assert(aggregated(Aggregation { records, skipped }, configs@, next, boot_time_secs, now));
        }
        i = i + 1;
    }
    proof {
        assert(probes@.subrange(0, i as int) =~= probes@);
    }
    Aggregation { records, skipped }
}

proof fn lemma_indices_below(probes: Seq<ServiceProbe>, configs: Seq<ServiceConfig>)
    ensures
        forall|k: int|
            0 <= k < described_indices(probes, configs).len() ==> 0 <= #[trigger] described_indices(
                probes,
                configs,
            )[k] < probes.len(),
        forall|k: int|
            0 <= k < skipped_indices(probes, configs).len() ==> 0 <= #[trigger] skipped_indices(
                probes,
                configs,
            )[k] < probes.len(),
    decreases probes.len(),
{
    if probes.len() > 0 {
        let p = probes.drop_last();
        lemma_indices_below(p, configs);
        let ok = described_indices(probes, configs);
        let bad = skipped_indices(probes, configs);
        assert forall|k: int| 0 <= k < ok.len() implies 0 <= #[trigger] ok[k] < probes.len() by {
            if k < described_indices(p, configs).len() {
                assert(ok[k] == described_indices(p, configs)[k]);
            }
        }
        assert forall|k: int| 0 <= k < bad.len() implies 0 <= #[trigger] bad[k] < probes.len() by {
            if k < skipped_indices(p, configs).len() {
                assert(bad[k] == skipped_indices(p, configs)[k]);
            }
        }
    }
}

/// Aggregates the probed services against the configuration, reading the boot time
/// once and the clock once for the whole call.
pub fn aggregate(configs: &Vec<ServiceConfig>, probes: &Vec<ServiceProbe>) -> (r: Aggregation)
    ensures
        exists|boot_time_secs: u64, now: u128|
            now <= clock_limit() && aggregated(r, configs@, probes@, boot_time_secs, now),
{
    let boot_time_secs = get_boot_time();
    let now = now_micros();
    aggregate_at(configs, probes, boot_time_secs, now)
}

/// Two records agree in every field but the uptime.
pub open spec fn same_but_uptime(a: ServiceInfo, b: ServiceInfo) -> bool {
    &&& a.config == b.config
    &&& a.status@ == b.status@
    &&& a.active == b.active
    &&& a.enabled == b.enabled
    &&& a.running == b.running
    &&& a.pid == b.pid
    &&& a.status_code == b.status_code
}

/// The seconds that a probed unit's main process has been running.
pub open spec fn probe_elapsed(probe: ServiceProbe, boot_time_secs: u64, now: u128) -> nat {
    elapsed_secs(u64_answer(probe.properties.start_monotonic)->0, boot_time_secs, now)
}

/// Aggregating twice over the same configuration and unchanged manager answers
/// gives the same records in the same order, equal in every field but the
/// uptime, and the same skipped services. With the same boot time and a clock
/// that has not gone back, every uptime is at least as long the second time.
pub proof fn lemma_aggregate_repeatable(
    configs: Seq<ServiceConfig>,
    probes: Seq<ServiceProbe>,
    first: Aggregation,
    boot1: u64,
    now1: u128,
    second: Aggregation,
    boot2: u64,
    now2: u128,
)
    requires
        aggregated(first, configs, probes, boot1, now1),
        aggregated(second, configs, probes, boot2, now2),
    ensures
        first.records@.len() == second.records@.len(),
        forall|k: int|
            0 <= k < first.records@.len() ==> same_but_uptime(
                #[trigger] first.records@[k],
                second.records@[k],
            ),
        first.skipped@ == second.skipped@,
        boot1 == boot2 && now1 <= now2 ==> forall|k: int|
            0 <= k < first.records@.len() ==> exists|p: ServiceProbe|
                #![trigger probe_elapsed(p, boot1, now1)]
                (#[trigger] first.records@[k]).uptime@ == duration_text(probe_elapsed(p, boot1, now1))
                    && second.records@[k].uptime@ == duration_text(probe_elapsed(p, boot2, now2))
                    && probe_elapsed(p, boot1, now1) <= probe_elapsed(p, boot2, now2),
{
    let ok = described_indices(probes, configs);
    assert forall|k: int| 0 <= k < first.records@.len() implies same_but_uptime(
        #[trigger] first.records@[k],
        second.records@[k],
    ) by {
        assert(describes_probe(first.records@[k], probes[ok[k]], configs, boot1, now1));
        assert(describes_probe(second.records@[k], probes[ok[k]], configs, boot2, now2));
    }
    assert forall|k: int| 0 <= k < first.skipped@.len() implies first.skipped@[k]
        == second.skipped@[k] by {
        let a = first.skipped@[k];
        let b = second.skipped@[k];
        assert(a.index == b.index);
        assert(Some(a.reason) == Some(b.reason));
    }
    assert(first.skipped@ =~= second.skipped@);
    if boot1 == boot2 && now1 <= now2 {
        assert forall|k: int| 0 <= k < first.records@.len() implies exists|p: ServiceProbe|
            #![trigger probe_elapsed(p, boot1, now1)]
            (#[trigger] first.records@[k]).uptime@ == duration_text(probe_elapsed(p, boot1, now1))
                && second.records@[k].uptime@ == duration_text(probe_elapsed(p, boot2, now2))
                && probe_elapsed(p, boot1, now1) <= probe_elapsed(p, boot2, now2) by {
            let p = probes[ok[k]];
            assert(describes_probe(first.records@[k], p, configs, boot1, now1));
            assert(describes_probe(second.records@[k], p, configs, boot2, now2));
            lemma_elapsed_monotonic(
                u64_answer(p.properties.start_monotonic)->0,
                boot1,
                now1,
                now2,
            );
            assert(probe_elapsed(p, boot1, now1) <= probe_elapsed(p, boot2, now2));
        }
    }
}

proof fn lemma_indices_partition(probes: Seq<ServiceProbe>, configs: Seq<ServiceConfig>)
    ensures
        described_indices(probes, configs).len() + skipped_indices(probes, configs).len()
            == probes.len(),
    decreases probes.len(),
{
    if probes.len() > 0 {
        lemma_indices_partition(probes.drop_last(), configs);
    }
}

/// Every probed service is accounted for: it is either described by a record or
/// reported as skipped, so nothing is dropped silently.
pub proof fn lemma_every_probe_accounted(
    agg: Aggregation,
    configs: Seq<ServiceConfig>,
    probes: Seq<ServiceProbe>,
    boot_time_secs: u64,
    now: u128,
)
    requires
        aggregated(agg, configs, probes, boot_time_secs, now),
    ensures
        agg.records@.len() + agg.skipped@.len() == probes.len(),
{
    lemma_indices_partition(probes, configs);
}

} // verus!
