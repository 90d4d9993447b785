//! When a service is probed, which targets are tried, and when it is given up.
use crate::protocol::ServiceType;
use vstd::prelude::*;

verus! {

/// Seconds between two regular probes.
pub const HEALTH_PROBE_DEFAULT_INTERVAL_SECS: u64 = 45;

/// Seconds that one step of a probe may take.
pub const HEALTH_PROBE_DEFAULT_TIMEOUT_SECS: u64 = 5;

/// Failures in a row after which a service is given up.
pub const HEALTH_PROBE_DEFAULT_MAX_FAILURES: u32 = 3;

/// Probes that follow a failed regular one without a pause.
pub const HEALTH_PROBE_QUICK_RETRY_COUNT: u32 = 3;

/// The hosts asked for through TCP services.
pub const HEALTH_PROBE_DEFAULT_TCP_HOSTS: [&'static str; 3] = [
    "www.google.com",
    "www.cloudflare.com",
    "www.bing.com",
];

/// The DNS servers asked through UDP services.
pub const HEALTH_PROBE_DEFAULT_DNS_SERVERS: [&'static str; 3] = [
    "1.1.1.1:53",
    "8.8.8.8:53",
    "208.67.222.222:53",
];

/// The name that DNS servers are asked for.
pub const HEALTH_PROBE_DEFAULT_DNS_QUERY: &'static str = "www.baidu.com";

/// How services are probed.
#[derive(Debug)]
pub struct HealthProbeConfig {
    /// Whether there are probes at all.
    pub enabled: bool,
    /// Seconds between two regular probes.
    pub interval_secs: u64,
    /// Seconds that one step of a probe may take.
    pub timeout_secs: u64,
    /// Failures in a row after which a service is given up.
    pub max_failures: u32,
    /// The hosts asked for through TCP services, in order.
    pub tcp_hosts: Vec<String>,
    /// The DNS servers asked through UDP services, in order.
    pub dns_servers: Vec<String>,
    /// The name that DNS servers are asked for.
    pub dns_query_domain: String,
}

/// The texts of a list of strings.
pub open spec fn texts(list: Seq<String>) -> Seq<Seq<char>> {
    list.map_values(|s: String| s@)
}

fn owned_texts(list: &[&str]) -> (r: Vec<String>)
    ensures
        texts(r@) == list@.map_values(|s: &str| s@),
{
    let mut r: Vec<String> = Vec::new();
    let mut i: usize = 0;
    while i < list.len()
        invariant
            i <= list@.len(),
            r@.len() == i,
            forall|j: int| 0 <= j < i ==> r@[j]@ == list@[j]@,
        decreases list@.len() - i,
    {
        r.push(list[i].to_owned());
        i = i + 1;
    }
    assert(texts(r@) =~= list@.map_values(|s: &str| s@));
    r
}

fn same_texts(list: &Vec<String>) -> (r: Vec<String>)
    ensures
        texts(r@) == texts(list@),
{
    let mut r: Vec<String> = Vec::new();
    let mut i: usize = 0;
    while i < list.len()
        invariant
            i <= list@.len(),
            r@.len() == i,
            forall|j: int| 0 <= j < i ==> r@[j]@ == list@[j]@,
        decreases list@.len() - i,
    {
        r.push(list[i].as_str().to_owned());
        i = i + 1;
    }
    assert(texts(r@) =~= texts(list@));
    r
}

impl Clone for HealthProbeConfig {
    fn clone(&self) -> (r: Self)
        ensures
            r.enabled == self.enabled,
            r.interval_secs == self.interval_secs,
            r.timeout_secs == self.timeout_secs,
            r.max_failures == self.max_failures,
            texts(r.tcp_hosts@) == texts(self.tcp_hosts@),
            texts(r.dns_servers@) == texts(self.dns_servers@),
            r.dns_query_domain@ == self.dns_query_domain@,
    {
        HealthProbeConfig {
            enabled: self.enabled,
            interval_secs: self.interval_secs,
            timeout_secs: self.timeout_secs,
            max_failures: self.max_failures,
            tcp_hosts: same_texts(&self.tcp_hosts),
            dns_servers: same_texts(&self.dns_servers),
            dns_query_domain: self.dns_query_domain.as_str().to_owned(),
        }
    }
}

impl Default for HealthProbeConfig {
    fn default() -> (r: Self)
        ensures
            r.enabled,
            r.interval_secs == 45,
            r.timeout_secs == 5,
            r.max_failures == 3,
            texts(r.tcp_hosts@) == seq!["www.google.com"@, "www.cloudflare.com"@, "www.bing.com"@],
            texts(r.dns_servers@) == seq!["1.1.1.1:53"@, "8.8.8.8:53"@, "208.67.222.222:53"@],
            r.dns_query_domain@ == "www.baidu.com"@,
    {
        let hosts = owned_texts(HEALTH_PROBE_DEFAULT_TCP_HOSTS.as_slice());
        let servers = owned_texts(HEALTH_PROBE_DEFAULT_DNS_SERVERS.as_slice());
        HealthProbeConfig {
            enabled: true,
            interval_secs: HEALTH_PROBE_DEFAULT_INTERVAL_SECS,
            timeout_secs: HEALTH_PROBE_DEFAULT_TIMEOUT_SECS,
            max_failures: HEALTH_PROBE_DEFAULT_MAX_FAILURES,
            tcp_hosts: hosts,
            dns_servers: servers,
            dns_query_domain: HEALTH_PROBE_DEFAULT_DNS_QUERY.to_owned(),
        }
    }
}

/// What a scan of targets does next.
#[derive(Debug)]
pub enum ScanStep<E> {
    /// Try the target at this position.
    Try(usize),
    /// A target answered.
    Succeed,
    /// No target answered: the last one's error.
    Fail(E),
    /// There are no targets.
    NoTarget,
}

/// A walk over the targets of a probe, in their order.
#[derive(Debug)]
pub struct TargetScan {
    total: usize,
    current: usize,
}

/// What follows the outcome of trying the target at `current`.
pub open spec fn scan_next<E>(total: nat, current: nat, outcome: Result<(), E>) -> ScanStep<E> {
    match outcome {
        Ok(_) => ScanStep::Succeed,
        Err(e) => if current + 1 < total {
            ScanStep::Try((current + 1) as usize)
        } else {
            ScanStep::Fail(e)
        },
    }
}

/// How it is told that there is nothing to probe a service by.
pub open spec fn no_target_chars(service_type: ServiceType) -> Seq<char> {
    match service_type {
        ServiceType::Tcp => "没有可用的 TCP 探测目标"@,
        ServiceType::Udp => "没有可用的 DNS 服务器"@,
    }
}

/// Tells that there is nothing to probe a service by.
pub fn no_target_text(service_type: ServiceType) -> (r: String)
    ensures
        r@ == no_target_chars(service_type),
{
    match service_type {
        ServiceType::Tcp => "没有可用的 TCP 探测目标".to_owned(),
        ServiceType::Udp => "没有可用的 DNS 服务器".to_owned(),
    }
}

impl TargetScan {
    /// How many targets there are.
    pub closed spec fn total(&self) -> nat {
        self.total as nat
    }

    /// The target that is being tried.
    pub closed spec fn current(&self) -> nat {
        self.current as nat
    }

    /// Begins with the first target, if there is one.
    pub fn start<E>(total: usize) -> (r: (TargetScan, ScanStep<E>))
        ensures
            r.0.total() == total,
            r.0.current() == 0,
            r.1 == (if total == 0 {
                ScanStep::<E>::NoTarget
            } else {
                ScanStep::<E>::Try(0)
            }),
    {
        let scan = TargetScan { total, current: 0 };
        if total == 0 {
            (scan, ScanStep::NoTarget)
        } else {
            (scan, ScanStep::Try(0))
        }
    }

    /// Takes the outcome of trying the current target.
    pub fn on_outcome<E>(&mut self, outcome: Result<(), E>) -> (r: ScanStep<E>)
        requires
            old(self).current() < old(self).total(),
        ensures
            r == scan_next(old(self).total(), old(self).current(), outcome),
            final(self).total() == old(self).total(),
            final(self).current() == (if r is Try {
                old(self).current() + 1
            } else {
                old(self).current()
            }),
    {
        match outcome {
            Ok(_) => ScanStep::Succeed,
            Err(e) => {
                if self.current + 1 < self.total {
                    self.current = self.current + 1;
                    ScanStep::Try(self.current)
                } else {
                    ScanStep::Fail(e)
                }
            },
        }
    }
}

/// How a scan ends when the target at position `i` answers with `outcomes[i]`,
/// from position `at` on.
pub open spec fn scan_end<E>(outcomes: Seq<Result<(), E>>, at: nat) -> ScanStep<E>
    decreases outcomes.len() - at,
{
    if at >= outcomes.len() {
        ScanStep::NoTarget
    } else {
        let step = scan_next(outcomes.len(), at, outcomes[at as int]);
        if step is Try {
            scan_end(outcomes, at + 1)
        } else {
            step
        }
    }
}

/// A scan succeeds exactly when one of the targets answers; where none does,
/// the error is the last target's, and where there are none, that is said.
pub proof fn scan_succeeds_when_any_target_answers<E>(outcomes: Seq<Result<(), E>>)
    ensures
        scan_end(outcomes, 0) is Succeed <==> exists|i: int|
            0 <= i < outcomes.len() && outcomes[i] is Ok,
        scan_end(outcomes, 0) matches ScanStep::Fail(e) ==> outcomes.last() == Err::<(), E>(e),
        scan_end(outcomes, 0) is NoTarget <==> outcomes.len() == 0,
        !(scan_end(outcomes, 0) is Try),
{
    lemma_scan_end(outcomes, 0);
}

proof fn lemma_scan_end<E>(outcomes: Seq<Result<(), E>>, at: nat)
    requires
        at <= outcomes.len(),
    ensures
        scan_end(outcomes, at) is Succeed <==> exists|i: int|
            at <= i < outcomes.len() && outcomes[i] is Ok,
        scan_end(outcomes, at) matches ScanStep::Fail(e) ==> outcomes.last() == Err::<(), E>(e),
        scan_end(outcomes, at) is NoTarget <==> at == outcomes.len(),
        !(scan_end(outcomes, at) is Try),
    decreases outcomes.len() - at,
{
    if at < outcomes.len() {
        let here = outcomes[at as int];
        if here is Err && at + 1 < outcomes.len() {
            lemma_scan_end(outcomes, at + 1);
        }
    }
}

/// What a probe task does next.
#[derive(Clone, Copy, Debug, PartialEq, Eq, Structural)]
pub enum ProbeAction {
    /// Sleep for the interval, then probe.
    Wait,
    /// Probe at once.
    ProbeNow,
    /// Give the service up and end.
    GiveUp,
}

/// The state of a probe task that has not ended.
#[derive(Debug)]
pub struct ProbeTask {
    max_failures: u32,
    failures: u32,
    quick_left: u32,
}

/// The state of a probe task.
#[verifier::ext_equal]
pub struct ProbeState {
    /// Failures in a row after which the service is given up.
    pub max_failures: nat,
    /// Failures in a row so far.
    pub failures: nat,
    /// Probes still to come without a pause, while the last one failed.
    pub quick_left: nat,
}

/// The state of a task that is about to wait for its first probe.
pub open spec fn probe_state_at_start(max_failures: nat) -> ProbeState {
    ProbeState { max_failures, failures: 0, quick_left: 0 }
}

/// What follows the outcome of a probe.
pub open spec fn probe_step(s: ProbeState, healthy: bool) -> (ProbeState, ProbeAction) {
    if healthy {
        (ProbeState { failures: 0, quick_left: 0, ..s }, ProbeAction::Wait)
    } else {
        let failures = s.failures + 1;
        let quick_left = if s.quick_left == 0 {
            HEALTH_PROBE_QUICK_RETRY_COUNT as nat
        } else {
            (s.quick_left - 1) as nat
        };
        if failures >= s.max_failures {
            (ProbeState { failures, quick_left: 0, ..s }, ProbeAction::GiveUp)
        } else if quick_left > 0 {
            (ProbeState { failures, quick_left, ..s }, ProbeAction::ProbeNow)
        } else {
            (ProbeState { failures, quick_left, ..s }, ProbeAction::Wait)
        }
    }
}

impl View for ProbeTask {
    type V = ProbeState;

    closed spec fn view(&self) -> ProbeState {
        ProbeState {
            max_failures: self.max_failures as nat,
            failures: self.failures as nat,
            quick_left: self.quick_left as nat,
        }
    }
}

impl ProbeTask {
    /// The task has not given up.
    pub open spec fn running(&self) -> bool {
        self@.failures == 0 || self@.failures < self@.max_failures
    }

    /// A task, unless probes are disabled. It begins with a wait.
    pub fn start(config: &HealthProbeConfig) -> (r: Option<ProbeTask>)
        ensures
            r is Some <==> config.enabled,
            r matches Some(t) ==> t@ == probe_state_at_start(config.max_failures as nat)
                && t.running(),
    {
        if !config.enabled {
            return None;
        }
        Some(ProbeTask { max_failures: config.max_failures, failures: 0, quick_left: 0 })
    }

    /// How many probes in a row have failed.
    pub fn failures(&self) -> (r: u32)
        ensures
            r == self@.failures,
    {
        self.failures
    }

    /// Takes the outcome of a probe.
    pub fn on_probe(&mut self, healthy: bool) -> (r: ProbeAction)
        requires
            old(self).running(),
        ensures
            (final(self)@, r) == probe_step(old(self)@, healthy),
            !(r is GiveUp) ==> final(self).running(),
    {
        if healthy {
            self.failures = 0;
            self.quick_left = 0;
            return ProbeAction::Wait;
        }
        self.failures = self.failures + 1;
        if self.failures >= self.max_failures {
            self.quick_left = 0;
            return ProbeAction::GiveUp;
        }
        self.quick_left = if self.quick_left == 0 {
            HEALTH_PROBE_QUICK_RETRY_COUNT
        } else {
            self.quick_left - 1
        };
        if self.quick_left > 0 {
            ProbeAction::ProbeNow
        } else {
            ProbeAction::Wait
        }
    }
}

/// The state and the last action after a series of outcomes.
pub open spec fn probe_run(max_failures: nat, outcomes: Seq<bool>) -> (ProbeState, ProbeAction)
    decreases outcomes.len(),
{
    if outcomes.len() == 0 {
        (probe_state_at_start(max_failures), ProbeAction::Wait)
    } else {
        probe_step(probe_run(max_failures, outcomes.drop_last()).0, outcomes.last())
    }
}

/// The task took every one of the outcomes: it had not given up before the last.
pub open spec fn probed_throughout(max_failures: nat, outcomes: Seq<bool>) -> bool {
    forall|n: int|
        0 <= n < outcomes.len() ==> !(#[trigger] probe_run(max_failures, outcomes.take(n)).1
            is GiveUp)
}

/// How many failures a series of outcomes ends with.
pub open spec fn failures_in_a_row(outcomes: Seq<bool>) -> nat
    decreases outcomes.len(),
{
    if outcomes.len() == 0 || outcomes.last() {
        0
    } else {
        failures_in_a_row(outcomes.drop_last()) + 1
    }
}

/// A task gives its service up exactly when the last outcomes, regular and
/// quick probes alike, are failures in a row up to the threshold; a threshold
/// of none counts as one.
pub proof fn gives_up_after_enough_failures_in_a_row(max_failures: nat, outcomes: Seq<bool>)
    requires
        outcomes.len() > 0,
        probed_throughout(max_failures, outcomes),
    ensures
        probe_run(max_failures, outcomes).0.failures == failures_in_a_row(outcomes),
        probe_run(max_failures, outcomes).1 is GiveUp <==> failures_in_a_row(outcomes) >= (
        if max_failures == 0 {
            1
        } else {
            max_failures
        }),
    decreases outcomes.len(),
{
    let before = outcomes.drop_last();
    if before.len() > 0 {
        assert forall|n: int| 0 <= n < before.len() implies !(#[trigger] probe_run(
            max_failures,
            before.take(n),
        ).1 is GiveUp) by {
            assert(before.take(n) =~= outcomes.take(n));
        }
        gives_up_after_enough_failures_in_a_row(max_failures, before);
    } else {
        assert(failures_in_a_row(before) == 0);
        assert(probe_run(max_failures, before).0 == probe_state_at_start(max_failures));
    }
    lemma_threshold_kept(max_failures, before);
}

proof fn lemma_threshold_kept(max_failures: nat, outcomes: Seq<bool>)
    ensures
        probe_run(max_failures, outcomes).0.max_failures == max_failures,
    decreases outcomes.len(),
{
    if outcomes.len() > 0 {
        lemma_threshold_kept(max_failures, outcomes.drop_last());
    }
}

/// A task that has just been told of success waits, with no failures counted,
/// as one that has just begun.
pub proof fn success_starts_over(max_failures: nat, outcomes: Seq<bool>)
    requires
        outcomes.len() > 0,
        outcomes.last(),
    ensures
        probe_run(max_failures, outcomes) == (
            probe_state_at_start(max_failures),
            ProbeAction::Wait,
        ),
{
    lemma_threshold_kept(max_failures, outcomes.drop_last());
}

/// A task does not probe without a pause for ever: of any four actions in a
/// row, one is not to probe at once.
pub proof fn quick_probes_are_limited(max_failures: nat, outcomes: Seq<bool>)
    requires
        outcomes.len() >= HEALTH_PROBE_QUICK_RETRY_COUNT + 1,
    ensures
        exists|n: int|
            #![trigger outcomes.take(n)]
            outcomes.len() - HEALTH_PROBE_QUICK_RETRY_COUNT <= n <= outcomes.len() && !(probe_run(
                max_failures,
                outcomes.take(n),
            ).1 is ProbeNow),
{
    let a = outcomes.take(outcomes.len() - 3);
    let b = outcomes.take(outcomes.len() - 2);
    let c = outcomes.take(outcomes.len() - 1);
    let d = outcomes.take(outcomes.len() as int);
    assert(d.drop_last() =~= c && c.drop_last() =~= b && b.drop_last() =~= a);
    lemma_quick_left_bounded(max_failures, a);
    let ra = probe_run(max_failures, a);
    let rb = probe_run(max_failures, b);
    let rc = probe_run(max_failures, c);
    let rd = probe_run(max_failures, d);
    assert(rb == probe_step(ra.0, b.last()));
    assert(rc == probe_step(rb.0, c.last()));
    assert(rd == probe_step(rc.0, d.last()));
    assert(!(ra.1 is ProbeNow && rb.1 is ProbeNow && rc.1 is ProbeNow && rd.1 is ProbeNow));
}

proof fn lemma_quick_left_bounded(max_failures: nat, outcomes: Seq<bool>)
    ensures
        probe_run(max_failures, outcomes).0.quick_left <= HEALTH_PROBE_QUICK_RETRY_COUNT,
        probe_run(max_failures, outcomes).1 is ProbeNow ==> probe_run(
            max_failures,
            outcomes,
        ).0.quick_left > 0,
    decreases outcomes.len(),
{
    if outcomes.len() > 0 {
        lemma_quick_left_bounded(max_failures, outcomes.drop_last());
    }
}

/// Targets are tried one after the other, none twice and none left out: the
/// next one after each that fails, until one answers or the last has failed,
/// whose error it then is.
pub proof fn targets_are_tried_in_order<E>(total: nat, current: nat, outcome: Result<(), E>)
    requires
        current < total <= usize::MAX,
    ensures
        ({
            let step = scan_next(total, current, outcome);
            &&& step is Succeed <==> outcome is Ok
            &&& step is Try <==> outcome is Err && current + 1 < total
            &&& step matches ScanStep::Try(i) ==> i == current + 1
            &&& step is Fail <==> outcome is Err && current + 1 == total
            &&& step matches ScanStep::Fail(e) ==> outcome == Err::<(), E>(e)
            &&& !(step is NoTarget)
        }),
{
}

/// A probe that fails is followed by quick ones, up to three in a row, and then
/// by a wait, over and over; a probe that succeeds is followed by a wait. So,
/// as long as the service is not given up, the next probe waits exactly when
/// the failures in a row are a multiple of four, none included.
pub proof fn quick_probes_follow_a_failure(max_failures: nat, outcomes: Seq<bool>)
    requires
        outcomes.len() > 0,
        probed_throughout(max_failures, outcomes),
    ensures
        ({
            let n = failures_in_a_row(outcomes);
            let action = probe_run(max_failures, outcomes).1;
            &&& action is ProbeNow <==> 0 < n < max_failures && n % 4 != 0
            &&& action is Wait <==> n == 0 || (n < max_failures && n % 4 == 0)
        }),
{
    gives_up_after_enough_failures_in_a_row(max_failures, outcomes);
    let before = outcomes.drop_last();
    lemma_quick_left(max_failures, before);
    lemma_threshold_kept(max_failures, before);
    assert(outcomes.take(before.len() as int) =~= before);
    assert(!(probe_run(max_failures, outcomes.take(before.len() as int)).1 is GiveUp));
    assert forall|n: int| 0 <= n < before.len() implies !(#[trigger] probe_run(
        max_failures,
        before.take(n),
    ).1 is GiveUp) by {
        assert(before.take(n) =~= outcomes.take(n));
    }
}

proof fn lemma_quick_left(max_failures: nat, outcomes: Seq<bool>)
    ensures
        !(probe_run(max_failures, outcomes).1 is GiveUp) && (forall|n: int|
            0 <= n < outcomes.len() ==> !(#[trigger] probe_run(max_failures, outcomes.take(n)).1
                is GiveUp)) ==> probe_run(max_failures, outcomes).0.quick_left == (4
            - failures_in_a_row(outcomes) % 4) % 4,
        probe_run(max_failures, outcomes).0.failures == failures_in_a_row(outcomes),
    decreases outcomes.len(),
{
    if outcomes.len() > 0 {
        let before = outcomes.drop_last();
        lemma_quick_left(max_failures, before);
        lemma_threshold_kept(max_failures, before);
        if forall|n: int|
            0 <= n < outcomes.len() ==> !(#[trigger] probe_run(max_failures, outcomes.take(n)).1
                is GiveUp) {
            assert(outcomes.take(before.len() as int) =~= before);
            assert forall|n: int| 0 <= n < before.len() implies !(#[trigger] probe_run(
                max_failures,
                before.take(n),
            ).1 is GiveUp) by {
                assert(before.take(n) =~= outcomes.take(n));
            }
        }
    }
}

/// A failure counts for one more in a row, and a success for none; the
/// threshold stays.
pub proof fn failures_are_counted(s: ProbeState)
    ensures
        probe_step(s, false).0.failures == s.failures + 1,
        probe_step(s, true).0.failures == 0,
        probe_step(s, true).1 is Wait,
        probe_step(s, false).1 is GiveUp <==> s.failures + 1 >= s.max_failures,
        probe_step(s, true).0.max_failures == s.max_failures,
        probe_step(s, false).0.max_failures == s.max_failures,
{
}

/// The texts of a list are those of its strings, all of them, in their order.
pub proof fn every_text_is_kept(list: Seq<String>, i: int)
    requires
        0 <= i < list.len(),
    ensures
        texts(list).len() == list.len(),
        texts(list)[i] == list[i]@,
{
}

} // verus!
