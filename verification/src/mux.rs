//! The pool of multiplexed connections of one service: which connection a
//! stream is opened on, and when another connection is asked for.
use crate::protocol::{ControlChannelMuxResp, MuxRespKind};
use std::collections::VecDeque;
use vstd::prelude::*;
use vstd::string::StringExecFns;

verus! {

/// Seconds after which a request for a connection is taken for lost.
pub const DEFAULT_PENDING_TIMEOUT_SECS: u64 = 30;

/// The same in milliseconds.
pub const PENDING_TIMEOUT_MS: u64 = 30_000;

/// How a connection is chosen for a stream.
#[derive(Clone, Copy, Debug, PartialEq, Eq, Structural)]
pub enum MuxSelect {
    /// The one with the fewest streams.
    LeastStreams,
    /// One after the other.
    RoundRobin,
}

/// One multiplexed connection. Times are milliseconds of one clock.
#[derive(Clone, Copy, Debug, PartialEq, Eq, Structural)]
pub struct MuxSession {
    /// Which connection this is.
    pub id: u64,
    /// How many streams are open on it, or about to be.
    pub in_use: usize,
    /// When it was last used.
    pub last_active_ms: u64,
    /// How many streams it may carry.
    pub max_streams: usize,
}

/// The milliseconds of a number of seconds, in 64 bits.
pub open spec fn millis(secs: u64) -> u64 {
    ((secs * 1000) % 0x1_0000_0000_0000_0000) as u64
}

/// How long ago `then` was at `now`; nothing, if it lies ahead.
pub open spec fn elapsed_ms(now: u64, then: u64) -> int {
    if now >= then {
        now - then
    } else {
        0
    }
}

impl MuxSession {
    /// No stream is open, and none has been for the timeout. A timeout of zero
    /// never passes.
    pub open spec fn is_idle(&self, timeout_secs: u64, now_ms: u64) -> bool {
        &&& timeout_secs != 0
        &&& self.in_use == 0
        &&& elapsed_ms(now_ms, self.last_active_ms) >= millis(timeout_secs)
    }

    /// Whether another stream may be opened.
    pub fn can_open(&self) -> (r: bool)
        ensures
            r == (self.in_use < self.max_streams),
    {
        self.in_use < self.max_streams
    }

    /// How many streams are open.
    pub fn inflight(&self) -> (r: usize)
        ensures
            r == self.in_use,
    {
        self.in_use
    }

    /// Whether the connection has been idle for the timeout.
    pub fn idle_for(&self, timeout_secs: u64, now_ms: u64) -> (r: bool)
        ensures
            r == self.is_idle(timeout_secs, now_ms),
    {
        if timeout_secs == 0 {
            return false;
        }
        if self.in_use != 0 {
            return false;
        }
        let limit: u64 = timeout_secs.wrapping_mul(1000);
        now_ms.saturating_sub(self.last_active_ms) >= limit
    }
}

/// What is fixed when a pool is made.
#[derive(Clone, Copy, Debug, PartialEq, Eq, Structural)]
pub struct MuxPoolConfig {
    /// How a connection is chosen.
    pub select: MuxSelect,
    /// How many connections there should be.
    pub target: usize,
    /// How many streams each may carry.
    pub max_streams: usize,
    /// Seconds after which an unused connection is closed, if it ever is.
    pub idle_timeout: Option<u64>,
}

/// The connections of one service.
#[derive(Debug)]
pub struct MuxPool {
    config: MuxPoolConfig,
    sessions: Vec<MuxSession>,
    pending: VecDeque<u64>,
    client_max_pool: u16,
    rr: usize,
    next_id: u64,
}

/// What a pool holds.
#[verifier::ext_equal]
pub struct PoolState {
    /// What is fixed.
    pub config: MuxPoolConfig,
    /// The connections, oldest first.
    pub sessions: Seq<MuxSession>,
    /// When each request that is not answered yet was sent, oldest first.
    pub pending: Seq<u64>,
    /// How many connections the client allows; the largest number stands for
    /// no limit.
    pub client_max_pool: u16,
    /// How often a connection was looked for in turn.
    pub rr: usize,
    /// What the next connection is called.
    pub next_id: u64,
}

/// What came of a look at the number of connections.
#[derive(Clone, Copy, Debug, PartialEq, Eq, Structural)]
pub struct TargetStep {
    /// Whoever waits for a stream is to look again.
    pub notify: bool,
    /// There are enough connections: the next delay is the shortest again.
    pub reset_backoff: bool,
    /// Ask for another connection.
    pub request: bool,
}

/// What to do about the number of connections while someone waits for a stream.
#[derive(Clone, Copy, Debug, PartialEq, Eq, Structural)]
pub enum BackoffAction {
    /// Nothing.
    Nothing,
    /// Sleep for the next delay and look again.
    Delay,
    /// Ask for another connection.
    Request,
}

impl PoolState {
    /// Each connection has its own name, given out before, and carries no more
    /// streams than it may.
    pub open spec fn wf(self) -> bool {
        &&& forall|i: int|
            #![trigger self.sessions[i]]
            0 <= i < self.sessions.len() ==> {
                &&& self.sessions[i].id < self.next_id
                &&& self.sessions[i].max_streams == self.config.max_streams
                &&& self.sessions[i].in_use <= self.sessions[i].max_streams
            }
        &&& forall|i: int, j: int|
            #![trigger self.sessions[i], self.sessions[j]]
            0 <= i < j < self.sessions.len() ==> self.sessions[i].id != self.sessions[j].id
    }

    /// There is a connection of that name.
    pub open spec fn has(self, id: u64) -> bool {
        exists|i: int| 0 <= i < self.sessions.len() && (#[trigger] self.sessions[i]).id == id
    }

    /// How many connections there should be, by what the client allows.
    pub open spec fn actual_target(self) -> nat {
        if self.client_max_pool == u16::MAX || self.config.target <= self.client_max_pool {
            self.config.target as nat
        } else {
            self.client_max_pool as nat
        }
    }

    /// How many connections there are or were asked for.
    pub open spec fn effective(self) -> nat {
        self.sessions.len() + self.pending.len()
    }
}

/// Whether a request sent at `sent_ms` is taken for lost at `now_ms`.
pub open spec fn is_stale(sent_ms: u64, now_ms: u64) -> bool {
    elapsed_ms(now_ms, sent_ms) >= PENDING_TIMEOUT_MS
}

/// What is left of the requests when those at the front that are taken for
/// lost are dropped.
pub open spec fn without_stale(pending: Seq<u64>, now_ms: u64) -> Seq<u64>
    decreases pending.len(),
{
    if pending.len() > 0 && is_stale(pending[0], now_ms) {
        without_stale(pending.drop_first(), now_ms)
    } else {
        pending
    }
}

/// The pool after stale requests are dropped.
pub open spec fn cleaned(p: PoolState, now_ms: u64) -> PoolState {
    PoolState { pending: without_stale(p.pending, now_ms), ..p }
}

/// The pool after the oldest request is answered.
pub open spec fn answered(p: PoolState) -> PoolState {
    PoolState {
        pending: if p.pending.len() > 0 {
            p.pending.drop_first()
        } else {
            p.pending
        },
        ..p
    }
}

/// The pool after the client's word on a request.
pub open spec fn responded(p: PoolState, resp: ControlChannelMuxResp) -> PoolState {
    let q = if resp.kind is Accepted {
        p
    } else {
        answered(p)
    };
    PoolState { client_max_pool: resp.max_pool, ..q }
}

/// What to do for someone who waits, after a look at the number of connections.
pub open spec fn backoff_action(step: TargetStep, delayed: bool) -> BackoffAction {
    if !step.request {
        BackoffAction::Nothing
    } else if delayed {
        BackoffAction::Request
    } else {
        BackoffAction::Delay
    }
}

/// What a look at the number of connections amounts to.
pub open spec fn target_step(p: PoolState, now_ms: u64) -> TargetStep {
    let c = cleaned(p, now_ms);
    TargetStep {
        notify: c.pending.len() < p.pending.len(),
        reset_backoff: c.effective() >= c.actual_target(),
        request: c.pending.len() == 0 && c.effective() < c.actual_target(),
    }
}

/// The pool with one more connection.
pub open spec fn with_session(p: PoolState, now_ms: u64) -> PoolState {
    PoolState {
        sessions: p.sessions.push(
            MuxSession {
                id: p.next_id,
                in_use: 0,
                last_active_ms: now_ms,
                max_streams: p.config.max_streams,
            },
        ),
        next_id: (p.next_id + 1) as u64,
        ..p
    }
}

impl View for MuxPool {
    type V = PoolState;

    closed spec fn view(&self) -> PoolState {
        PoolState {
            config: self.config,
            sessions: self.sessions@,
            pending: self.pending@,
            client_max_pool: self.client_max_pool,
            rr: self.rr,
            next_id: self.next_id,
        }
    }
}

impl MuxPool {
    /// A pool without connections. A timeout of zero stands for none.
    pub fn new(select: MuxSelect, target: usize, max_streams: usize, idle_timeout: u64) -> (r:
        MuxPool)
        ensures
            r@.wf(),
            r@ == (PoolState {
                config: MuxPoolConfig {
                    select,
                    target,
                    max_streams,
                    idle_timeout: if idle_timeout == 0 {
                        None
                    } else {
                        Some(idle_timeout)
                    },
                },
                sessions: Seq::empty(),
                pending: Seq::empty(),
                client_max_pool: u16::MAX,
                rr: 0,
                next_id: 1,
            }),
    {
        let idle: Option<u64> = if idle_timeout == 0 {
            None
        } else {
            Some(idle_timeout)
        };
        let r = MuxPool {
            config: MuxPoolConfig { select, target, max_streams, idle_timeout: idle },
            sessions: Vec::new(),
            pending: VecDeque::new(),
            client_max_pool: u16::MAX,
            rr: 0,
            next_id: 1,
        };
        assert(r.sessions@ =~= Seq::empty());
        assert(r.pending@ =~= Seq::empty());
        r
    }

    /// How many requests are not answered yet.
    pub fn pending(&self) -> (r: usize)
        ensures
            r == self@.pending.len(),
    {
        self.pending.len()
    }

    /// How many connections there are.
    pub fn session_count(&self) -> (r: usize)
        ensures
            r == self@.sessions.len(),
    {
        self.sessions.len()
    }

    /// How many streams each connection may carry.
    pub fn max_streams(&self) -> (r: usize)
        ensures
            r == self@.config.max_streams,
    {
        self.config.max_streams
    }

    /// Seconds after which an unused connection is closed, if it ever is.
    pub fn idle_timeout(&self) -> (r: Option<u64>)
        ensures
            r == self@.config.idle_timeout,
    {
        self.config.idle_timeout
    }

    /// What the next connection is called.
    pub fn next_session_id(&self) -> (r: u64)
        ensures
            r == self@.next_id,
    {
        self.next_id
    }

    /// How many connections there are or were asked for (the largest number
    /// stands for anything larger), how many there should be, and how many
    /// were asked for.
    pub fn calc_effective_and_target(&self, sessions_len: usize) -> (r: (usize, usize, usize))
        ensures
            r.0 == (if sessions_len + self@.pending.len() > usize::MAX {
                usize::MAX as int
            } else {
                sessions_len + self@.pending.len()
            }),
            r.1 == self@.actual_target(),
            r.2 == self@.pending.len(),
    {
        let pending: usize = self.pending.len();
        let effective: usize = sessions_len.saturating_add(pending);
        let client_limit: usize = self.client_max_pool as usize;
        let actual_target: usize = if self.client_max_pool == u16::MAX || self.config.target
            <= client_limit {
            self.config.target
        } else {
            client_limit
        };
        (effective, actual_target, pending)
    }

    /// Drops the requests at the front that are taken for lost. Says whether
    /// there were any.
    pub fn cleanup_stale_pending(&mut self, now_ms: u64) -> (notify: bool)
        ensures
            final(self)@ == cleaned(old(self)@, now_ms),
            old(self)@.wf() ==> final(self)@.wf(),
            notify == (final(self)@.pending.len() < old(self)@.pending.len()),
    {
        let mut removed: bool = false;
        while self.pending.len() > 0 && now_ms.saturating_sub(self.pending[0])
            >= PENDING_TIMEOUT_MS
            invariant
                cleaned(self@, now_ms) == cleaned(old(self)@, now_ms),
                self@ == (PoolState { pending: self@.pending, ..old(self)@ }),
                removed == (self@.pending.len() < old(self)@.pending.len()),
                self@.pending.len() <= old(self)@.pending.len(),
            decreases self@.pending.len(),
        {
            let ghost before = self@;
            let _ = self.pending.pop_front();
            assert(self@.pending =~= before.pending.drop_first());
            removed = true;
        }
        assert(cleaned(self@, now_ms) =~= self@);
        removed
    }

    fn decrement_pending(&mut self) -> (r: bool)
        ensures
            final(self)@ == answered(old(self)@),
            r == (old(self)@.pending.len() > 0),
    {
        if self.pending.len() == 0 {
            return false;
        }
        let _ = self.pending.pop_front();
        assert(self@.pending =~= old(self)@.pending.drop_first());
        true
    }

    /// Looks at the number of connections and says whether to ask for one.
    pub fn ensure_target(&mut self, now_ms: u64) -> (r: TargetStep)
        ensures
            final(self)@ == cleaned(old(self)@, now_ms),
            old(self)@.wf() ==> final(self)@.wf(),
            r == target_step(old(self)@, now_ms),
    {
        let notify = self.cleanup_stale_pending(now_ms);
        let (effective, actual_target, pending) = self.calc_effective_and_target(
            self.sessions.len(),
        );
        let enough = effective >= actual_target;
        TargetStep { notify, reset_backoff: enough, request: pending == 0 && !enough }
    }

    /// Looks at the number of connections for someone who waits. Where one is
    /// missing, there is a delay first; `delayed` says that it is over.
    pub fn ensure_target_with_backoff(&mut self, now_ms: u64, delayed: bool) -> (r: (
        TargetStep,
        BackoffAction,
    ))
        ensures
            final(self)@ == cleaned(old(self)@, now_ms),
            old(self)@.wf() ==> final(self)@.wf(),
            r.0 == target_step(old(self)@, now_ms),
            r.1 == backoff_action(r.0, delayed),
            r.1 == (if !r.0.request {
                BackoffAction::Nothing
            } else if delayed {
                BackoffAction::Request
            } else {
                BackoffAction::Delay
            }),
    {
        let step = self.ensure_target(now_ms);
        let action = if !step.request {
            BackoffAction::Nothing
        } else if delayed {
            BackoffAction::Request
        } else {
            BackoffAction::Delay
        };
        (step, action)
    }

    /// Takes in a new connection, which answers the oldest request, and looks
    /// at their number. Whoever waits for a stream is to look again, and the
    /// next delay is the shortest again, whatever the look says.
    pub fn add_session(&mut self, now_ms: u64) -> (r: (u64, TargetStep))
        requires
            old(self)@.wf(),
            old(self)@.next_id < u64::MAX,
        ensures
            r.0 == old(self)@.next_id,
            r.1 == target_step(with_session(answered(old(self)@), now_ms), now_ms),
            final(self)@ == cleaned(with_session(answered(old(self)@), now_ms), now_ms),
            final(self)@.wf(),
    {
        let id: u64 = self.next_id;
        let _ = self.decrement_pending();
        let ghost before = self@;
        self.sessions.push(
            MuxSession {
                id,
                in_use: 0,
                last_active_ms: now_ms,
                max_streams: self.config.max_streams,
            },
        );
        self.next_id = self.next_id + 1;
        assert(self@ =~= with_session(before, now_ms));
        let step = self.ensure_target(now_ms);
        (id, step)
    }

    /// A request for a connection was sent.
    pub fn on_mux_request_sent(&mut self, now_ms: u64)
        ensures
            final(self)@ == (PoolState {
                pending: old(self)@.pending.push(now_ms),
                ..old(self)@
            }),
            old(self)@.wf() ==> final(self)@.wf(),
    {
        self.pending.push_back(now_ms);
        assert(self@.pending =~= old(self)@.pending.push(now_ms));
    }

    /// The client's word on a request. Says whether whoever waits for a stream
    /// is to look again.
    pub fn on_mux_resp(&mut self, resp: ControlChannelMuxResp) -> (notify: bool)
        ensures
            final(self)@ == responded(old(self)@, resp),
            notify == (responded(old(self)@, resp).pending.len() < old(self)@.pending.len()),
            final(self)@ == (PoolState {
                client_max_pool: resp.max_pool,
                ..if resp.kind is Accepted {
                    old(self)@
                } else {
                    answered(old(self)@)
                }
            }),
            old(self)@.wf() ==> final(self)@.wf(),
            notify == (!(resp.kind is Accepted) && old(self)@.pending.len() > 0),
    {
        self.client_max_pool = resp.max_pool;
        match resp.kind {
            MuxRespKind::Accepted => false,
            MuxRespKind::Rejected | MuxRespKind::Failed => self.decrement_pending(),
        }
    }
}


/// The pool without the connection of that name.
pub open spec fn without_session(p: PoolState, id: u64) -> PoolState {
    PoolState { sessions: p.sessions.filter(|s: MuxSession| s.id != id), ..p }
}

/// The pool with the connection of that name changed by `f`.
pub open spec fn with_changed(
    p: PoolState,
    id: u64,
    f: spec_fn(MuxSession) -> MuxSession,
) -> PoolState {
    PoolState {
        sessions: p.sessions.map_values(
            |s: MuxSession|
                if s.id == id {
                    f(s)
                } else {
                    s
                },
        ),
        ..p
    }
}

/// A connection that was just used.
pub open spec fn touched(s: MuxSession, now_ms: u64) -> MuxSession {
    MuxSession { last_active_ms: now_ms, ..s }
}

/// A connection with one more stream.
pub open spec fn taken(s: MuxSession, now_ms: u64) -> MuxSession {
    MuxSession { in_use: (s.in_use + 1) as usize, last_active_ms: now_ms, ..s }
}

/// A connection with one stream less.
pub open spec fn given_back(s: MuxSession, now_ms: u64) -> MuxSession {
    MuxSession {
        in_use: if s.in_use > 0 {
            (s.in_use - 1) as usize
        } else {
            0
        },
        last_active_ms: now_ms,
        ..s
    }
}

/// A stream may be opened on the connection, and it is none of the failed ones.
pub open spec fn usable(s: MuxSession, failed: Seq<u64>) -> bool {
    s.in_use < s.max_streams && !failed.contains(s.id)
}

/// Some connection is usable.
pub open spec fn any_usable(p: PoolState, failed: Seq<u64>) -> bool {
    exists|i: int| 0 <= i < p.sessions.len() && usable(#[trigger] p.sessions[i], failed)
}

/// The connection at `i` is the first of the usable ones with the fewest
/// streams.
pub open spec fn least_loaded(p: PoolState, failed: Seq<u64>, i: int) -> bool {
    &&& 0 <= i < p.sessions.len()
    &&& usable(p.sessions[i], failed)
    &&& forall|j: int|
        #![trigger p.sessions[j]]
        0 <= j < p.sessions.len() && usable(p.sessions[j], failed) ==> {
            &&& p.sessions[i].in_use <= p.sessions[j].in_use
            &&& j < i ==> p.sessions[i].in_use < p.sessions[j].in_use
        }
}

/// The position `k` steps after the one whose turn it is.
pub open spec fn turn(p: PoolState, k: int) -> int {
    (p.rr + k) % p.sessions.len() as int
}

/// The connection at `i` is the first usable one from the one whose turn it is.
pub open spec fn next_in_turn(p: PoolState, failed: Seq<u64>, i: int) -> bool {
    exists|k: int|
        #![trigger turn(p, k)]
        {
            &&& 0 <= k < p.sessions.len()
            &&& i == turn(p, k)
            &&& usable(p.sessions[i], failed)
            &&& forall|j: int| 0 <= j < k ==> !usable(p.sessions[#[trigger] turn(p, j)], failed)
        }
}

/// The connection at `i` is the one to choose.
pub open spec fn chosen(p: PoolState, failed: Seq<u64>, i: int) -> bool {
    match p.config.select {
        MuxSelect::LeastStreams => least_loaded(p, failed, i),
        MuxSelect::RoundRobin => next_in_turn(p, failed, i),
    }
}

/// The pool after a connection was looked for.
pub open spec fn after_pick(p: PoolState) -> PoolState {
    if p.config.select is RoundRobin && p.sessions.len() > 0 {
        PoolState {
            rr: if p.rr == usize::MAX {
                0
            } else {
                (p.rr + 1) as usize
            },
            ..p
        }
    } else {
        p
    }
}

proof fn lemma_map_at(p: PoolState, i: int, f: spec_fn(MuxSession) -> MuxSession)
    requires
        p.wf(),
        0 <= i < p.sessions.len(),
    ensures
        with_changed(p, p.sessions[i].id, f).sessions == p.sessions.update(i, f(p.sessions[i])),
{
    assert forall|j: int| 0 <= j < p.sessions.len() implies with_changed(
        p,
        p.sessions[i].id,
        f,
    ).sessions[j] == p.sessions.update(i, f(p.sessions[i]))[j] by {
        if j < i {
            assert(p.sessions[j].id != p.sessions[i].id);
        } else if i < j {
            assert(p.sessions[i].id != p.sessions[j].id);
        }
    }
    assert(with_changed(p, p.sessions[i].id, f).sessions =~= p.sessions.update(
        i,
        f(p.sessions[i]),
    ));
}

impl MuxPool {
    /// Where the connection of that name is.
    fn position(&self, id: u64) -> (r: Option<usize>)
        ensures
            r matches Some(i) ==> i < self@.sessions.len() && self@.sessions[i as int].id == id,
            r is None ==> !self@.has(id),
    {
        let mut i: usize = 0;
        while i < self.sessions.len()
            invariant
                i <= self.sessions@.len(),
                forall|j: int| 0 <= j < i ==> (#[trigger] self.sessions@[j]).id != id,
            decreases self.sessions@.len() - i,
        {
            if self.sessions[i].id == id {
                return Some(i);
            }
            i = i + 1;
        }
        None
    }

    /// The connection of that name.
    pub fn session(&self, id: u64) -> (r: Option<MuxSession>)
        ensures
            r matches Some(s) ==> s.id == id && self@.sessions.contains(s),
            r is Some <==> self@.has(id),
    {
        match self.position(id) {
            Some(i) => Some(self.sessions[i]),
            None => None,
        }
    }

    /// Forgets a connection. Says whether whoever waits for a stream is to look
    /// again.
    pub fn remove_session(&mut self, id: u64) -> (notify: bool)
        requires
            old(self)@.wf(),
        ensures
            final(self)@ == without_session(old(self)@, id),
            final(self)@.wf(),
            !final(self)@.has(id),
            notify == old(self)@.has(id),
    {
        let ghost keep = |s: MuxSession| s.id != id;
        match self.position(id) {
            None => {
                assert(self@.sessions.filter(keep) =~= self@.sessions) by {
                    assert forall|i: int| 0 <= i < self@.sessions.len() implies keep(
                        self@.sessions[i],
                    ) by {}
                    lemma_filter_all(self@.sessions, keep);
                }
                false
            },
            Some(i) => {
                let ghost all = self@.sessions;
                let _ = self.sessions.remove(i);
                proof {
                    assert forall|j: int| 0 <= j < all.len() && j != i implies keep(all[j]) by {
                        if j < i {
                            assert(all[j].id != all[i as int].id);
                        } else {
                            assert(all[i as int].id != all[j].id);
                        }
                    }
                    lemma_filter_one(all, keep, i as int);
                    assert(self@.sessions =~= all.remove(i as int));
                    assert(old(self)@.sessions[i as int].id == id);
                    assert forall|j: int| 0 <= j < self@.sessions.len() implies (
                    #[trigger] self@.sessions[j]).id != id by {
                        if j < i {
                            assert(all[j].id != all[i as int].id);
                        } else {
                            assert(all[i as int].id != all[j + 1].id);
                        }
                    }
                    assert forall|a: int, b: int|
                        #![trigger self@.sessions[a], self@.sessions[b]]
                        0 <= a < b < self@.sessions.len() implies self@.sessions[a].id
                        != self@.sessions[b].id by {
                        let a1 = if a < i {
                            a
                        } else {
                            a + 1
                        };
                        let b1 = if b < i {
                            b
                        } else {
                            b + 1
                        };
                        assert(all[a1].id != all[b1].id);
                    }
                }
                true
            },
        }
    }

    /// A connection was used.
    pub fn touch_session(&mut self, id: u64, now_ms: u64)
        requires
            old(self)@.wf(),
        ensures
            final(self)@ == with_changed(
                old(self)@,
                id,
                |s: MuxSession| touched(s, now_ms),
            ),
            final(self)@.wf(),
    {
        match self.position(id) {
            None => {
                assert(self@.sessions =~= with_changed(
                    self@,
                    id,
                    |s: MuxSession| touched(s, now_ms),
                ).sessions);
            },
            Some(i) => {
                let ghost before = self@;
                let mut s: MuxSession = self.sessions[i];
                s.last_active_ms = now_ms;
                self.sessions.set(i, s);
                proof {
                    lemma_map_at(before, i as int, |s: MuxSession| touched(s, now_ms));
                    lemma_update_keeps_wf(before, i as int, s);
                }
            },
        }
    }

    /// A stream of that connection was closed. Whoever waits for a stream is to
    /// look again.
    pub fn release_stream(&mut self, id: u64, now_ms: u64)
        requires
            old(self)@.wf(),
        ensures
            final(self)@ == with_changed(
                old(self)@,
                id,
                |s: MuxSession| given_back(s, now_ms),
            ),
            final(self)@.wf(),
    {
        match self.position(id) {
            None => {
                assert(self@.sessions =~= with_changed(
                    self@,
                    id,
                    |s: MuxSession| given_back(s, now_ms),
                ).sessions);
            },
            Some(i) => {
                let ghost before = self@;
                let mut s: MuxSession = self.sessions[i];
                if s.in_use > 0 {
                    s.in_use = s.in_use - 1;
                }
                s.last_active_ms = now_ms;
                self.sessions.set(i, s);
                proof {
                    lemma_map_at(before, i as int, |s: MuxSession| given_back(s, now_ms));
                    lemma_update_keeps_wf(before, i as int, s);
                }
            },
        }
    }

    fn position_of_least_loaded(&self, failed: &[u64]) -> (r: Option<usize>)
        ensures
            r matches Some(i) ==> least_loaded(self@, failed@, i as int),
            r is None ==> !any_usable(self@, failed@),
    {
        let mut best: Option<usize> = None;
        let mut i: usize = 0;
        while i < self.sessions.len()
            invariant
                i <= self.sessions@.len(),
                best is None ==> forall|j: int|
                    0 <= j < i ==> !usable(#[trigger] self.sessions@[j], failed@),
                best matches Some(b) ==> {
                    &&& b < i
                    &&& usable(self.sessions@[b as int], failed@)
                    &&& forall|j: int|
                        #![trigger self.sessions@[j]]
                        0 <= j < i && usable(self.sessions@[j], failed@) ==> {
                            &&& self.sessions@[b as int].in_use <= self.sessions@[j].in_use
                            &&& j < b ==> self.sessions@[b as int].in_use
                                < self.sessions@[j].in_use
                        }
                },
            decreases self.sessions@.len() - i,
        {
            let s: MuxSession = self.sessions[i];
            if is_usable(&s, failed) {
                match best {
                    None => {
                        best = Some(i);
                    },
                    Some(b) => {
                        if s.inflight() < self.sessions[b].inflight() {
                            best = Some(i);
                        }
                    },
                }
            }
            i = i + 1;
        }
        best
    }

    fn position_of_next_in_turn(&self, failed: &[u64]) -> (r: Option<usize>)
        requires
            self@.sessions.len() > 0,
        ensures
            r matches Some(i) ==> i < self@.sessions.len() && next_in_turn(
                self@,
                failed@,
                i as int,
            ),
            r is None ==> !any_usable(self@, failed@),
    {
        let n: usize = self.sessions.len();
        let base: usize = self.rr % n;
        let mut k: usize = 0;
        while k < n
            invariant
                n == self.sessions@.len(),
                n > 0,
                base == self.rr % n,
                k <= n,
                forall|j: int|
                    0 <= j < k ==> !usable(self@.sessions[#[trigger] turn(self@, j)], failed@),
            decreases n - k,
        {
            let pos: usize = if k < n - base {
                base + k
            } else {
                k - (n - base)
            };
            proof {
                lemma_turn(self.rr as int, k as int, n as int);
            }
            assert(pos == turn(self@, k as int));
            let s: MuxSession = self.sessions[pos];
            if is_usable(&s, failed) {
                return Some(pos);
            }
            k = k + 1;
        }
        proof {
            if any_usable(self@, failed@) {
                let i = choose|i: int|
                    0 <= i < self@.sessions.len() && usable(
                        #[trigger] self@.sessions[i],
                        failed@,
                    );
                let k = if i >= base {
                    i - base
                } else {
                    i + n - base
                };
                lemma_turn(self.rr as int, k, n as int);
                assert(turn(self@, k) == i);
            }
        }
        None
    }

    /// Chooses a connection for a stream and counts the stream on it. Without a
    /// usable connection there is none.
    pub fn acquire_stream(&mut self, failed: &[u64], now_ms: u64) -> (r: Option<u64>)
        requires
            old(self)@.wf(),
        ensures
            r is Some <==> any_usable(old(self)@, failed@),
            r is None ==> final(self)@ == after_pick(old(self)@),
            r matches Some(id) ==> {
                &&& exists|i: int|
                    chosen(old(self)@, failed@, i) && (#[trigger] old(self)@.sessions[i]).id == id
                &&& !failed@.contains(id)
                &&& final(self)@ == with_changed(
                    after_pick(old(self)@),
                    id,
                    |s: MuxSession| taken(s, now_ms),
                )
            },
            final(self)@.wf(),
    {
        if self.sessions.len() == 0 {
            return None;
        }
        let found = match self.config.select {
            MuxSelect::LeastStreams => self.position_of_least_loaded(failed),
            MuxSelect::RoundRobin => {
                let found = self.position_of_next_in_turn(failed);
                self.rr = if self.rr == usize::MAX {
                    0
                } else {
                    self.rr + 1
                };
                found
            },
        };
        assert(self@ == after_pick(old(self)@));
        match found {
            None => None,
            Some(i) => {
                let ghost before = self@;
                assert(chosen(old(self)@, failed@, i as int));
                let mut s: MuxSession = self.sessions[i];
                let id: u64 = s.id;
                s.in_use = s.in_use + 1;
                s.last_active_ms = now_ms;
                self.sessions.set(i, s);
                proof {
                    lemma_map_at(before, i as int, |s: MuxSession| taken(s, now_ms));
                    lemma_update_keeps_wf(before, i as int, s);
                    assert(old(self)@.sessions[i as int].id == id);
                }
                Some(id)
            },
        }
    }
}

fn is_usable(s: &MuxSession, failed: &[u64]) -> (r: bool)
    ensures
        r == usable(*s, failed@),
{
    if !s.can_open() {
        return false;
    }
    let mut i: usize = 0;
    while i < failed.len()
        invariant
            i <= failed@.len(),
            forall|j: int| 0 <= j < i ==> failed@[j] != s.id,
        decreases failed@.len() - i,
    {
        if failed[i] == s.id {
            assert(failed@.contains(s.id));
            return false;
        }
        i = i + 1;
    }
    true
}

proof fn lemma_turn(rr: int, k: int, n: int)
    requires
        rr >= 0,
        0 <= k < n,
    ensures
        (rr + k) % n == (if k < n - rr % n {
            rr % n + k
        } else {
            k - (n - rr % n)
        }),
{
    vstd::arithmetic::div_mod::lemma_fundamental_div_mod(rr, n);
    let q = rr / n;
    let b = rr % n;
    if k < n - b {
        vstd::arithmetic::div_mod::lemma_fundamental_div_mod_converse(rr + k, n, q, b + k);
    } else {
        assert(n * (q + 1) == n * q + n) by (nonlinear_arith);
        vstd::arithmetic::div_mod::lemma_fundamental_div_mod_converse(rr + k, n, q + 1, b + k - n);
    }
}

proof fn lemma_update_keeps_wf(p: PoolState, i: int, s: MuxSession)
    requires
        p.wf(),
        0 <= i < p.sessions.len(),
        s.id == p.sessions[i].id,
        s.max_streams == p.sessions[i].max_streams,
        s.in_use <= s.max_streams,
    ensures
        (PoolState { sessions: p.sessions.update(i, s), ..p }).wf(),
{
    let q = PoolState { sessions: p.sessions.update(i, s), ..p };
    assert forall|a: int, b: int|
        #![trigger q.sessions[a], q.sessions[b]]
        0 <= a < b < q.sessions.len() implies q.sessions[a].id != q.sessions[b].id by {
        assert(p.sessions[a].id != p.sessions[b].id);
    }
}

proof fn lemma_filter_all<A>(all: Seq<A>, keep: spec_fn(A) -> bool)
    requires
        forall|i: int| 0 <= i < all.len() ==> keep(#[trigger] all[i]),
    ensures
        all.filter(keep) == all,
    decreases all.len(),
{
    reveal(Seq::filter);
    if all.len() > 0 {
        lemma_filter_all(all.drop_last(), keep);
        assert(all =~= all.drop_last().push(all.last()));
    }
}

proof fn lemma_filter_one(all: Seq<MuxSession>, keep: spec_fn(MuxSession) -> bool, i: int)
    requires
        0 <= i < all.len(),
        !keep(all[i]),
        forall|j: int| 0 <= j < all.len() && j != i ==> keep(#[trigger] all[j]),
    ensures
        all.filter(keep) == all.remove(i),
    decreases all.len(),
{
    reveal(Seq::filter);
    let front = all.drop_last();
    if i == all.len() - 1 {
        lemma_filter_all(front, keep);
        assert(all.remove(i) =~= front);
    } else {
        lemma_filter_one(front, keep, i);
        assert(keep(all[all.len() - 1]));
        assert(all.remove(i) =~= front.remove(i).push(all.last()));
    }
}

/// Why a connection that was asked gave no stream.
#[derive(Debug)]
pub enum StreamFailure {
    /// It takes no more requests.
    ChannelClosed,
    /// It could not open the stream: its own words.
    OpenFailed(String),
    /// It ended before it answered.
    SessionDropped,
}

/// How it is told that a connection gave no stream.
pub open spec fn stream_failure_chars(f: StreamFailure) -> Seq<char> {
    match f {
        StreamFailure::ChannelClosed => "mux session channel closed"@,
        StreamFailure::OpenFailed(words) => "open mux stream failed: "@ + words@,
        StreamFailure::SessionDropped => "mux session dropped"@,
    }
}

/// Tells that a connection gave no stream.
pub fn stream_failure_text(f: &StreamFailure) -> (r: String)
    ensures
        r@ == stream_failure_chars(*f),
{
    match f {
        StreamFailure::ChannelClosed => "mux session channel closed".to_owned(),
        StreamFailure::OpenFailed(words) => "open mux stream failed: ".to_owned().concat(
            words.as_str(),
        ),
        StreamFailure::SessionDropped => "mux session dropped".to_owned(),
    }
}

/// An attempt to get a stream: while there is none, every connection that has
/// room is asked, one after the other.
#[derive(Debug)]
pub struct OpenStream<E> {
    failed_ids: Vec<u64>,
    failed: Option<E>,
}

/// What an attempt has come to.
#[verifier::ext_equal]
pub struct OpenState<E> {
    /// The connections that failed, in the order in which they were asked.
    pub failed_ids: Seq<u64>,
    /// How the last of them failed.
    pub failed: Option<E>,
}

/// What to do to get a stream.
#[derive(Debug)]
pub enum OpenAction<E> {
    /// Ask this connection for a stream.
    Ask(u64),
    /// There is no stream to be had, for this reason.
    Fail(E),
    /// Look at the number of connections, then wait until someone says to look
    /// again or a request may be taken for lost.
    Wait,
}

/// The state of an attempt that has tried nothing.
pub open spec fn open_state_at_start<E>() -> OpenState<E> {
    OpenState { failed_ids: Seq::empty(), failed: None }
}

/// The attempt once a connection has failed.
pub open spec fn after_failure<E>(s: OpenState<E>, id: u64, error: E) -> OpenState<E> {
    OpenState { failed_ids: s.failed_ids.push(id), failed: Some(error) }
}

impl<E> View for OpenStream<E> {
    type V = OpenState<E>;

    closed spec fn view(&self) -> OpenState<E> {
        OpenState { failed_ids: self.failed_ids@, failed: self.failed }
    }
}

impl<E> OpenStream<E> {
    /// Begins an attempt.
    pub fn start() -> (r: OpenStream<E>)
        ensures
            r@ == open_state_at_start::<E>(),
    {
        let r: OpenStream<E> = OpenStream { failed_ids: Vec::new(), failed: None };
        assert(r@ =~= open_state_at_start::<E>());
        r
    }

    /// Looks for a connection that has not failed. Where none of those has room,
    /// an earlier failure ends the attempt, and without one there is a wait.
    pub fn look(&mut self, pool: &mut MuxPool, now_ms: u64) -> (r: OpenAction<E>)
        requires
            old(pool)@.wf(),
        ensures
            final(pool)@.wf(),
            r is Ask <==> any_usable(old(pool)@, old(self)@.failed_ids),
            r is Fail <==> !any_usable(old(pool)@, old(self)@.failed_ids) && old(self)@.failed
                is Some,
            r matches OpenAction::Ask(id) ==> {
                &&& exists|i: int|
                    chosen(old(pool)@, old(self)@.failed_ids, i) && (
                    #[trigger] old(pool)@.sessions[i]).id == id
                &&& !old(self)@.failed_ids.contains(id)
                &&& final(pool)@ == with_changed(
                    after_pick(old(pool)@),
                    id,
                    |s: MuxSession| taken(s, now_ms),
                )
                &&& final(self)@ == old(self)@
            },
            !(r is Ask) ==> {
                &&& final(pool)@ == after_pick(old(pool)@)
                &&& final(self)@ == (OpenState { failed: None, ..old(self)@ })
                &&& r == (match old(self)@.failed {
                    Some(e) => OpenAction::<E>::Fail(e),
                    None => OpenAction::<E>::Wait,
                })
            },
    {
        match pool.acquire_stream(self.failed_ids.as_slice(), now_ms) {
            Some(id) => OpenAction::Ask(id),
            None => match self.failed.take() {
                Some(e) => OpenAction::Fail(e),
                None => OpenAction::Wait,
            },
        }
    }

    /// The connection that was asked gave no stream: its place is given back,
    /// whoever waits for a stream is to look again, and the attempt is to look
    /// for another connection.
    pub fn on_failure(&mut self, pool: &mut MuxPool, id: u64, error: E, now_ms: u64)
        requires
            old(pool)@.wf(),
        ensures
            final(self)@ == after_failure(old(self)@, id, error),
            final(pool)@ == with_changed(
                old(pool)@,
                id,
                |s: MuxSession| given_back(s, now_ms),
            ),
            final(pool)@.wf(),
    {
        pool.release_stream(id, now_ms);
        self.failed_ids.push(id);
        self.failed = Some(error);
    }
}

/// What happens to a multiplexed connection.
#[derive(Clone, Copy, Debug, PartialEq, Eq, Structural)]
pub enum MuxServerEvent {
    /// A stream is asked for.
    Open,
    /// The client opened a stream.
    InboundStream,
    /// The connection broke.
    InboundError,
    /// The client closed the connection.
    InboundEnd,
    /// Nobody can ask for streams any more.
    Closed,
    /// The service ends.
    Shutdown,
    /// A second has passed.
    IdleCheck,
}

/// What to do about it.
#[derive(Clone, Copy, Debug, PartialEq, Eq, Structural)]
pub enum MuxServerAction {
    /// Open a stream and hand it over, or the error.
    OpenOutbound,
    /// Drop the stream: clients do not open any.
    IgnoreInbound,
    /// Go on.
    Continue,
    /// Close the connection.
    Close,
}

/// The connection of that name has been unused for longer than it may.
pub open spec fn overdue(p: PoolState, id: u64, now_ms: u64) -> bool {
    p.config.idle_timeout matches Some(t) && exists|i: int|
        0 <= i < p.sessions.len() && (#[trigger] p.sessions[i]).id == id && p.sessions[i].is_idle(
            t,
            now_ms,
        )
}

/// What an event asks for.
pub open spec fn mux_server_action(
    p: PoolState,
    id: u64,
    event: MuxServerEvent,
    now_ms: u64,
) -> MuxServerAction {
    match event {
        MuxServerEvent::Open => MuxServerAction::OpenOutbound,
        MuxServerEvent::InboundStream => MuxServerAction::IgnoreInbound,
        MuxServerEvent::IdleCheck => if overdue(p, id, now_ms) {
            MuxServerAction::Close
        } else {
            MuxServerAction::Continue
        },
        _ => MuxServerAction::Close,
    }
}

impl MuxPool {
    /// Takes an event of a connection.
    pub fn on_mux_server_event(&mut self, id: u64, event: MuxServerEvent, now_ms: u64) -> (r:
        MuxServerAction)
        requires
            old(self)@.wf(),
        ensures
            r == mux_server_action(old(self)@, id, event, now_ms),
            final(self)@ == (if event is Open || event is InboundStream {
                with_changed(old(self)@, id, |s: MuxSession| touched(s, now_ms))
            } else {
                old(self)@
            }),
            final(self)@.wf(),
    {
        match event {
            MuxServerEvent::Open => {
                self.touch_session(id, now_ms);
                MuxServerAction::OpenOutbound
            },
            MuxServerEvent::InboundStream => {
                self.touch_session(id, now_ms);
                MuxServerAction::IgnoreInbound
            },
            MuxServerEvent::IdleCheck => match (self.config.idle_timeout, self.position(id)) {
                (Some(t), Some(i)) => {
                    proof {
                        assert forall|j: int|
                            0 <= j < self@.sessions.len() && (
                            #[trigger] self@.sessions[j]).id == id implies j == i by {
                            if j < i {
                                assert(self@.sessions[j].id != self@.sessions[i as int].id);
                            } else if i < j {
                                assert(self@.sessions[i as int].id != self@.sessions[j].id);
                            }
                        }
                    }
                    if self.sessions[i].idle_for(t, now_ms) {
                        MuxServerAction::Close
                    } else {
                        MuxServerAction::Continue
                    }
                },
                _ => MuxServerAction::Continue,
            },
            _ => MuxServerAction::Close,
        }
    }

    /// A connection was closed: it is forgotten, and their number is looked at.
    /// Says whether whoever waits for a stream is to look again on account of
    /// the first.
    pub fn on_session_end(&mut self, id: u64, now_ms: u64) -> (r: (bool, TargetStep))
        requires
            old(self)@.wf(),
        ensures
            r.0 == old(self)@.has(id),
            r.1 == target_step(without_session(old(self)@, id), now_ms),
            final(self)@ == cleaned(without_session(old(self)@, id), now_ms),
            final(self)@.wf(),
    {
        let notify = self.remove_session(id);
        let step = self.ensure_target(now_ms);
        (notify, step)
    }
}

/// No two connections are both the one to choose.
pub proof fn choice_is_unique(p: PoolState, failed: Seq<u64>, i: int, j: int)
    requires
        chosen(p, failed, i),
        chosen(p, failed, j),
    ensures
        i == j,
{
    match p.config.select {
        MuxSelect::LeastStreams => {
            let a = p.sessions[i];
            let b = p.sessions[j];
            assert(a.in_use <= b.in_use && b.in_use <= a.in_use);
        },
        MuxSelect::RoundRobin => {
            let k = choose|k: int|
                #![trigger turn(p, k)]
                {
                    &&& 0 <= k < p.sessions.len()
                    &&& i == turn(p, k)
                    &&& usable(p.sessions[i], failed)
                    &&& forall|m: int|
                        0 <= m < k ==> !usable(p.sessions[#[trigger] turn(p, m)], failed)
                };
            let l = choose|l: int|
                #![trigger turn(p, l)]
                {
                    &&& 0 <= l < p.sessions.len()
                    &&& j == turn(p, l)
                    &&& usable(p.sessions[j], failed)
                    &&& forall|m: int|
                        0 <= m < l ==> !usable(p.sessions[#[trigger] turn(p, m)], failed)
                };
            if k < l {
                assert(!usable(p.sessions[turn(p, k)], failed));
            }
            if l < k {
                assert(!usable(p.sessions[turn(p, l)], failed));
            }
        },
    }
}

/// While every connection can take a stream, choosing in turn takes them one
/// after the other: two choices fewer steps apart than there are connections
/// differ.
pub proof fn turns_go_round(p: PoolState, later: PoolState, steps: nat, i: int, j: int)
    requires
        p.config.select is RoundRobin,
        later.config == p.config,
        later.sessions == p.sessions,
        forall|m: int|
            0 <= m < p.sessions.len() ==> usable(#[trigger] p.sessions[m], Seq::empty()),
        later.rr == p.rr + steps,
        chosen(p, Seq::empty(), i),
        chosen(later, Seq::empty(), j),
        0 < steps < p.sessions.len(),
    ensures
        i == p.rr as int % p.sessions.len() as int,
        j == (p.rr + steps) % p.sessions.len() as int,
        i != j,
{
    let n = p.sessions.len() as int;
    lemma_turn(p.rr as int, 0, n);
    lemma_turn(p.rr as int, steps as int, n);
    lemma_turn(later.rr as int, 0, n);
    assert(turn(p, 0) == p.rr as int % n);
    assert(turn(later, 0) == later.rr as int % n);
    assert(usable(p.sessions[turn(p, 0)], Seq::empty()));
    assert(usable(p.sessions[turn(later, 0)], Seq::empty()));
}

/// A step of an attempt to get a stream, with the pool as it was before.
pub enum OpenMove<E> {
    /// This connection was asked, at this time.
    Asked(PoolState, u64, u64),
    /// It gave no stream, for this reason, at this time.
    Failed(PoolState, u64, E, u64),
    /// There was no connection to ask.
    NothingUsable(PoolState),
}

/// The pool before a step.
pub open spec fn pool_before<E>(m: OpenMove<E>) -> PoolState {
    match m {
        OpenMove::Asked(p, _, _) => p,
        OpenMove::Failed(p, _, _, _) => p,
        OpenMove::NothingUsable(p) => p,
    }
}

/// What a step makes of the pool.
pub open spec fn pool_after<E>(m: OpenMove<E>) -> PoolState {
    match m {
        OpenMove::Asked(p, id, now) => with_changed(
            after_pick(p),
            id,
            |s: MuxSession| taken(s, now),
        ),
        OpenMove::Failed(p, id, _, now) => with_changed(
            p,
            id,
            |s: MuxSession| given_back(s, now),
        ),
        OpenMove::NothingUsable(p) => after_pick(p),
    }
}

/// An attempt on its way.
pub struct OpenProgress<E> {
    /// What it has come to.
    pub state: OpenState<E>,
    /// The connection that is being asked.
    pub asking: Option<u64>,
    /// It ended without a stream.
    pub ended: bool,
}

/// An attempt after a series of steps.
pub open spec fn open_progress<E>(moves: Seq<OpenMove<E>>) -> OpenProgress<E>
    decreases moves.len(),
{
    if moves.len() == 0 {
        OpenProgress { state: open_state_at_start(), asking: None, ended: false }
    } else {
        let p = open_progress(moves.drop_last());
        match moves.last() {
            OpenMove::Asked(_, id, _) => OpenProgress { asking: Some(id), ..p },
            OpenMove::Failed(_, id, e, _) => OpenProgress {
                state: after_failure(p.state, id, e),
                asking: None,
                ended: false,
            },
            OpenMove::NothingUsable(_) => OpenProgress {
                state: OpenState { failed: None, ..p.state },
                asking: None,
                ended: p.state.failed is Some,
            },
        }
    }
}

/// Each step could follow those before it: nothing follows the end, and one
/// connection is asked at a time, the one to choose from those that have not
/// failed. Other attempts may have changed the pool in between.
pub open spec fn open_moves_ok<E>(moves: Seq<OpenMove<E>>) -> bool
    decreases moves.len(),
{
    moves.len() > 0 ==> {
        let p = open_progress(moves.drop_last());
        &&& open_moves_ok(moves.drop_last())
        &&& !p.ended
        &&& match moves.last() {
            OpenMove::Asked(pool, id, _) => p.asking is None && exists|i: int|
                chosen(pool, p.state.failed_ids, i) && (#[trigger] pool.sessions[i]).id == id,
            OpenMove::Failed(_, id, _, _) => p.asking == Some(id),
            OpenMove::NothingUsable(pool) => p.asking is None && !any_usable(
                pool,
                p.state.failed_ids,
            ),
        }
    }
}

/// The connections that were asked, in order.
pub open spec fn asked_ids<E>(moves: Seq<OpenMove<E>>) -> Seq<u64>
    decreases moves.len(),
{
    if moves.len() == 0 {
        Seq::empty()
    } else {
        match moves.last() {
            OpenMove::Asked(_, id, _) => asked_ids(moves.drop_last()).push(id),
            _ => asked_ids(moves.drop_last()),
        }
    }
}

/// The connections that failed, in order.
pub open spec fn failed_ids<E>(moves: Seq<OpenMove<E>>) -> Seq<u64>
    decreases moves.len(),
{
    if moves.len() == 0 {
        Seq::empty()
    } else {
        match moves.last() {
            OpenMove::Failed(_, id, _, _) => failed_ids(moves.drop_last()).push(id),
            _ => failed_ids(moves.drop_last()),
        }
    }
}

/// An attempt asks no connection twice.
pub proof fn no_connection_is_asked_twice<E>(moves: Seq<OpenMove<E>>)
    requires
        open_moves_ok(moves),
    ensures
        asked_ids(moves).no_duplicates(),
{
    lemma_open_progress(moves);
}

/// An attempt ends without a stream only when some connection has failed, and
/// every connection that is in the pool then and has room was asked and failed.
pub proof fn every_connection_is_tried<E>(moves: Seq<OpenMove<E>>)
    requires
        open_moves_ok(moves),
        open_progress(moves).ended,
    ensures
        failed_ids(moves).len() > 0,
        asked_ids(moves) == failed_ids(moves),
        ({
            let pool = pool_before(moves.last());
            forall|i: int|
                0 <= i < pool.sessions.len() && (#[trigger] pool.sessions[i]).in_use
                    < pool.sessions[i].max_streams ==> failed_ids(moves).contains(
                    pool.sessions[i].id,
                )
        }),
{
    lemma_open_progress(moves);
    lemma_open_progress(moves.drop_last());
    let pool = pool_before(moves.last());
    let failed = failed_ids(moves);
    assert forall|i: int|
        0 <= i < pool.sessions.len() && (#[trigger] pool.sessions[i]).in_use
            < pool.sessions[i].max_streams implies failed.contains(pool.sessions[i].id) by {
        assert(!usable(pool.sessions[i], failed));
    }
}

proof fn lemma_open_progress<E>(moves: Seq<OpenMove<E>>)
    requires
        open_moves_ok(moves),
    ensures
        ({
            let p = open_progress(moves);
            let asked = asked_ids(moves);
            let failed = failed_ids(moves);
            &&& p.state.failed_ids == failed
            &&& asked.no_duplicates()
            &&& p.asking is None ==> asked == failed
            &&& p.asking matches Some(id) ==> asked == failed.push(id)
            &&& !p.ended ==> (p.state.failed is Some <==> failed.len() > 0)
            &&& p.ended ==> moves.len() > 0 && moves.last() is NothingUsable && failed.len() > 0
        }),
    decreases moves.len(),
{
    if moves.len() > 0 {
        let front = moves.drop_last();
        lemma_open_progress(front);
        let p = open_progress(front);
        if let OpenMove::Asked(pool, id, _) = moves.last() {
            let i = choose|i: int|
                chosen(pool, p.state.failed_ids, i) && (#[trigger] pool.sessions[i]).id == id;
            lemma_chosen_is_usable(pool, p.state.failed_ids, i);
            assert(!asked_ids(front).contains(id));
        }
    }
}

proof fn lemma_chosen_is_usable(p: PoolState, failed: Seq<u64>, i: int)
    requires
        chosen(p, failed, i),
    ensures
        0 <= i < p.sessions.len(),
        usable(p.sessions[i], failed),
{
    if p.config.select is RoundRobin {
        let k = choose|k: int|
            #![trigger turn(p, k)]
            {
                &&& 0 <= k < p.sessions.len()
                &&& i == turn(p, k)
                &&& usable(p.sessions[i], failed)
                &&& forall|j: int|
                    0 <= j < k ==> !usable(p.sessions[#[trigger] turn(p, j)], failed)
            };
        lemma_turn(p.rr as int, k, p.sessions.len() as int);
    }
}

/// Nobody else changed the pool between the steps of an attempt.
pub open spec fn undisturbed<E>(moves: Seq<OpenMove<E>>) -> bool
    decreases moves.len(),
{
    moves.len() > 1 ==> {
        &&& undisturbed(moves.drop_last())
        &&& pool_before(moves.last()) == pool_after(moves.drop_last().last())
    }
}

/// The connections of two pools are the same and carry as many streams, but
/// for one more on the connection `extra`.
pub open spec fn same_places(p: PoolState, q: PoolState, extra: Option<u64>) -> bool {
    &&& p.sessions.len() == q.sessions.len()
    &&& forall|i: int|
        #![trigger p.sessions[i]]
        #![trigger q.sessions[i]]
        0 <= i < p.sessions.len() ==> {
            &&& q.sessions[i].id == p.sessions[i].id
            &&& q.sessions[i].max_streams == p.sessions[i].max_streams
            &&& q.sessions[i].in_use == p.sessions[i].in_use + (if extra == Some(
                p.sessions[i].id,
            ) {
                1int
            } else {
                0int
            })
        }
}

/// An attempt that ends without a stream leaves every connection with as many
/// streams as before it began.
pub proof fn a_failed_attempt_keeps_no_place<E>(moves: Seq<OpenMove<E>>)
    requires
        open_moves_ok(moves),
        open_progress(moves).ended,
        undisturbed(moves),
        pool_before(moves[0]).wf(),
    ensures
        same_places(pool_before(moves[0]), pool_after(moves.last()), None),
{
    lemma_open_progress(moves);
    lemma_places(moves);
}

proof fn lemma_places<E>(moves: Seq<OpenMove<E>>)
    requires
        moves.len() > 0,
        open_moves_ok(moves),
        undisturbed(moves),
        pool_before(moves[0]).wf(),
    ensures
        same_places(
            pool_before(moves[0]),
            pool_after(moves.last()),
            open_progress(moves).asking,
        ),
    decreases moves.len(),
{
    let first = pool_before(moves[0]);
    let front = moves.drop_last();
    let before = pool_before(moves.last());
    let p = open_progress(front);
    if front.len() > 0 {
        lemma_places(front);
    }
    assert(same_places(first, before, p.asking));
    match moves.last() {
        OpenMove::Asked(pool, id, now) => {
            let i = choose|i: int|
                chosen(pool, p.state.failed_ids, i) && (#[trigger] pool.sessions[i]).id == id;
            lemma_chosen_is_usable(pool, p.state.failed_ids, i);
            lemma_taking(first, pool, id, i, now);
        },
        OpenMove::Failed(pool, id, _, now) => lemma_giving_back(first, pool, id, now),
        OpenMove::NothingUsable(_) => {},
    }
}

proof fn lemma_taking(first: PoolState, before: PoolState, id: u64, i: int, now: u64)
    requires
        first.wf(),
        same_places(first, before, None),
        0 <= i < before.sessions.len(),
        before.sessions[i].id == id,
        before.sessions[i].in_use < before.sessions[i].max_streams,
    ensures
        same_places(
            first,
            with_changed(after_pick(before), id, |s: MuxSession| taken(s, now)),
            Some(id),
        ),
{
    let f = |s: MuxSession| taken(s, now);
    let after = with_changed(after_pick(before), id, f);
    assert forall|j: int|
        #![trigger first.sessions[j]]
        #![trigger after.sessions[j]]
        0 <= j < first.sessions.len() implies {
        &&& after.sessions[j].id == first.sessions[j].id
        &&& after.sessions[j].max_streams == first.sessions[j].max_streams
        &&& after.sessions[j].in_use == first.sessions[j].in_use + (if Some(id) == Some(
            first.sessions[j].id,
        ) {
            1int
        } else {
            0int
        })
    } by {
        assert(first.sessions[i].id == id);
        assert(before.sessions[j].id == id ==> j == i);
    }
}

proof fn lemma_giving_back(first: PoolState, before: PoolState, id: u64, now: u64)
    requires
        same_places(first, before, Some(id)),
    ensures
        same_places(
            first,
            with_changed(before, id, |s: MuxSession| given_back(s, now)),
            None,
        ),
{
}

/// A stream that is given back leaves every connection with as many streams as
/// before it was taken.
pub proof fn giving_back_undoes_taking(p: PoolState, i: int, j: int, t1: u64, t2: u64)
    requires
        p.wf(),
        0 <= i < p.sessions.len(),
        0 <= j < p.sessions.len(),
        p.sessions[i].in_use < p.sessions[i].max_streams,
    ensures
        ({
            let id = p.sessions[i].id;
            let q = with_changed(p, id, |s: MuxSession| taken(s, t1));
            let r = with_changed(q, id, |s: MuxSession| given_back(s, t2));
            &&& q.sessions[i].in_use == p.sessions[i].in_use + 1
            &&& r.sessions.len() == p.sessions.len()
            &&& r.sessions[j].id == p.sessions[j].id
            &&& r.sessions[j].in_use == p.sessions[j].in_use
        }),
{
    if j < i {
        assert(p.sessions[j].id != p.sessions[i].id);
    } else if i < j {
        assert(p.sessions[i].id != p.sessions[j].id);
    }
}

/// When a connection of a service that has no more than it should is closed,
/// and none is on its way, another is asked for.
pub proof fn a_lost_connection_is_replaced(p: PoolState, id: u64, now_ms: u64)
    requires
        p.wf(),
        p.has(id),
        without_stale(p.pending, now_ms).len() == 0,
        p.sessions.len() <= p.actual_target(),
    ensures
        target_step(without_session(p, id), now_ms).request,
{
    let keep = |s: MuxSession| s.id != id;
    let i = choose|i: int| 0 <= i < p.sessions.len() && (#[trigger] p.sessions[i]).id == id;
    assert forall|j: int| 0 <= j < p.sessions.len() && j != i implies keep(
        #[trigger] p.sessions[j],
    ) by {
        if j < i {
            assert(p.sessions[j].id != p.sessions[i].id);
        } else {
            assert(p.sessions[i].id != p.sessions[j].id);
        }
    }
    lemma_filter_one(p.sessions, keep, i);
}

/// A connection is asked for only while none is on its way, and so never more
/// of them than there should be: the number of connections, with the one asked
/// for, stays within what the service and the client allow.
pub proof fn requests_stay_within_the_target(p: PoolState, now_ms: u64)
    requires
        target_step(p, now_ms).request,
    ensures
        ({
            let c = cleaned(p, now_ms);
            let sent = PoolState { pending: c.pending.push(now_ms), ..c };
            &&& c.pending.len() == 0
            &&& sent.effective() <= sent.actual_target()
            &&& sent.actual_target() <= p.config.target
            &&& p.client_max_pool != u16::MAX ==> sent.effective() <= p.client_max_pool
        }),
{
}

/// While a request is on its way, and not taken for lost, there is no other.
pub proof fn no_request_while_one_is_pending(p: PoolState, now_ms: u64)
    requires
        p.pending.len() > 0,
        !is_stale(p.pending[0], now_ms),
    ensures
        !target_step(p, now_ms).request,
{
}

/// With the requests in the order of their times, exactly those that are taken
/// for lost are dropped.
pub proof fn cleanup_keeps_the_fresh(pending: Seq<u64>, now_ms: u64)
    requires
        forall|i: int, j: int| 0 <= i <= j < pending.len() ==> pending[i] <= pending[j],
    ensures
        without_stale(pending, now_ms) == pending.filter(|t: u64| !is_stale(t, now_ms)),
    decreases pending.len(),
{
    let fresh = |t: u64| !is_stale(t, now_ms);
    if pending.len() > 0 {
        let rest = pending.drop_first();
        if is_stale(pending[0], now_ms) {
            assert forall|i: int, j: int| 0 <= i <= j < rest.len() implies rest[i] <= rest[j] by {
                assert(pending[i + 1] <= pending[j + 1]);
            }
            cleanup_keeps_the_fresh(rest, now_ms);
            assert(pending =~= seq![pending[0]] + rest);
            Seq::filter_distributes_over_add(seq![pending[0]], rest, fresh);
            assert(seq![pending[0]].filter(fresh) =~= Seq::<u64>::empty()) by {
                reveal_with_fuel(Seq::filter, 2);
            }
            assert(Seq::<u64>::empty() + rest.filter(fresh) =~= rest.filter(fresh));
        } else {
            assert forall|i: int| 0 <= i < pending.len() implies fresh(#[trigger] pending[i]) by {
                assert(pending[0] <= pending[i]);
            }
            lemma_filter_all(pending, fresh);
        }
    } else {
        reveal(Seq::filter);
    }
}

/// Every connection is closed when its service ends.
pub proof fn connections_end_with_their_service(p: PoolState, id: u64, now_ms: u64)
    ensures
        mux_server_action(p, id, MuxServerEvent::Shutdown, now_ms) == MuxServerAction::Close,
{
}

/// A connection that carries a stream is never closed for being unused.
pub proof fn busy_connections_stay_open(p: PoolState, i: int, now_ms: u64)
    requires
        p.wf(),
        0 <= i < p.sessions.len(),
        p.sessions[i].in_use > 0,
    ensures
        mux_server_action(p, p.sessions[i].id, MuxServerEvent::IdleCheck, now_ms)
            == MuxServerAction::Continue,
{
    assert forall|j: int|
        0 <= j < p.sessions.len() && (#[trigger] p.sessions[j]).id == p.sessions[i].id implies j
        == i by {
        if j < i {
            assert(p.sessions[j].id != p.sessions[i].id);
        } else if i < j {
            assert(p.sessions[i].id != p.sessions[j].id);
        }
    }
}

/// A number of seconds is a thousand times as many milliseconds; beyond 64
/// bits, what is left of that in 64 bits.
pub proof fn a_second_is_a_thousand_milliseconds(secs: u64)
    ensures
        secs * 1000 <= u64::MAX ==> millis(secs) == secs * 1000,
        (secs * 1000 - millis(secs)) % 0x1_0000_0000_0000_0000 == 0,
{
    let m = 0x1_0000_0000_0000_0000int;
    let x = secs * 1000;
    vstd::arithmetic::div_mod::lemma_fundamental_div_mod(x, m);
    assert(x - x % m == m * (x / m));
    vstd::arithmetic::div_mod::lemma_mod_multiples_basic(x / m, m);
    if x <= u64::MAX {
        vstd::arithmetic::div_mod::lemma_small_mod(x as nat, m as nat);
    }
}

/// So many milliseconds after a time, so many have passed since; and before it,
/// none.
pub proof fn time_passes(then: u64, ms: u64, earlier: u64)
    requires
        then + ms <= u64::MAX,
        earlier <= then,
    ensures
        elapsed_ms((then + ms) as u64, then) == ms,
        elapsed_ms(earlier, then) == 0,
{
}

/// A connection is idle exactly from the moment at which it has carried no
/// stream for the whole timeout; not while it carries one, and never without a
/// timeout.
pub proof fn a_connection_becomes_idle_after_the_timeout(s: MuxSession, secs: u64, now_ms: u64)
    requires
        secs * 1000 <= u64::MAX,
    ensures
        s.is_idle(secs, now_ms) <==> s.in_use == 0 && secs != 0 && (now_ms - s.last_active_ms >= 1000
            * secs),
{
    a_second_is_a_thousand_milliseconds(secs);
}

/// A request is taken for lost exactly from half a minute after it was sent.
pub proof fn a_request_is_lost_after_half_a_minute(sent_ms: u64, now_ms: u64)
    ensures
        is_stale(sent_ms, now_ms) <==> now_ms - sent_ms >= 30_000,
{
}

/// Of the requests, those at the front that were sent half a minute ago or
/// earlier are dropped, up to the first that was not, and the rest stay as
/// they are.
pub proof fn lost_requests_are_dropped_from_the_front(pending: Seq<u64>, now_ms: u64) -> (k: int)
    ensures
        0 <= k <= pending.len(),
        without_stale(pending, now_ms) == pending.skip(k),
        forall|i: int| 0 <= i < k ==> now_ms - #[trigger] pending[i] >= 30_000,
        k < pending.len() ==> now_ms - pending[k] < 30_000,
    decreases pending.len(),
{
    if pending.len() > 0 && is_stale(pending[0], now_ms) {
        let rest = pending.drop_first();
        let m = lost_requests_are_dropped_from_the_front(rest, now_ms);
        assert(rest.skip(m) =~= pending.skip(m + 1));
        assert forall|i: int| 0 <= i < m + 1 implies now_ms - #[trigger] pending[i] >= 30_000 by {
            if i > 0 {
                assert(rest[i - 1] == pending[i]);
            }
        }
        m + 1
    } else {
        assert(pending.skip(0) =~= pending);
        0
    }
}

/// Dropping lost requests touches nothing else.
pub proof fn dropping_requests_touches_nothing_else(p: PoolState, now_ms: u64)
    ensures
        ({
            let c = cleaned(p, now_ms);
            &&& c.config == p.config
            &&& c.sessions == p.sessions
            &&& c.pending == without_stale(p.pending, now_ms)
            &&& c.client_max_pool == p.client_max_pool
            &&& c.rr == p.rr
            &&& c.next_id == p.next_id
        }),
{
}

/// The number of connections that there should be is the lesser of what the
/// service wants and what the client allows; a client that names the largest
/// number allows any. What counts towards it are the connections that there
/// are and those on their way.
pub proof fn the_lesser_of_target_and_bound_is_wanted(p: PoolState)
    ensures
        p.actual_target() <= p.config.target,
        p.client_max_pool != 0xffff ==> p.actual_target() <= p.client_max_pool,
        p.actual_target() == p.config.target || (p.client_max_pool != 0xffff && p.actual_target()
            == p.client_max_pool),
        p.effective() == p.sessions.len() + p.pending.len(),
{
}

/// Another connection is asked for exactly when there are fewer than the
/// service wants and than the client allows, and none is on its way: each
/// request that was sent was sent half a minute ago or earlier.
pub proof fn a_connection_is_asked_for_exactly_when_one_is_missing(p: PoolState, now_ms: u64)
    ensures
        target_step(p, now_ms).request <==> {
            &&& p.sessions.len() < p.config.target
            &&& p.client_max_pool == 0xffff || p.sessions.len() < p.client_max_pool
            &&& forall|i: int|
                0 <= i < p.pending.len() ==> now_ms - #[trigger] p.pending[i] >= 30_000
        },
{
    let k = lost_requests_are_dropped_from_the_front(p.pending, now_ms);
    if k < p.pending.len() {
        assert(now_ms - p.pending[k] < 30_000);
    }
}

/// The delay is the shortest again exactly when the connections that there are
/// and those on their way are as many as the service wants or the client
/// allows; and whoever waits is to look again exactly when a request was taken
/// for lost.
pub proof fn enough_connections_end_the_delay(p: PoolState, now_ms: u64)
    ensures
        ({
            let n = p.sessions.len() + without_stale(p.pending, now_ms).len();
            target_step(p, now_ms).reset_backoff <==> (n >= p.config.target || (p.client_max_pool
                != 0xffff && n >= p.client_max_pool))
        }),
        target_step(p, now_ms).notify <==> p.pending.len() > 0 && now_ms - p.pending[0] >= 30_000,
{
    let k = lost_requests_are_dropped_from_the_front(p.pending, now_ms);
}

/// However the client answers a first request, and however many connections
/// are lost one after the other, another is asked for each time there are too
/// few: losing a connection while no more are there than are wanted leaves one
/// to ask for.
pub proof fn every_lost_connection_is_asked_for_again(p: PoolState, i: int, now_ms: u64)
    requires
        p.wf(),
        0 <= i < p.sessions.len(),
        p.sessions.len() <= p.config.target,
        p.client_max_pool == 0xffff || p.sessions.len() <= p.client_max_pool,
        p.pending.len() == 0,
    ensures
        target_step(without_session(p, p.sessions[i].id), now_ms).request,
{
    a_closed_connection_is_forgotten(p, i);
    a_connection_is_asked_for_exactly_when_one_is_missing(
        without_session(p, p.sessions[i].id),
        now_ms,
    );
}

/// A closed connection is forgotten, and no other; the rest stay in their
/// order, and nothing else changes.
pub proof fn a_closed_connection_is_forgotten(p: PoolState, i: int)
    requires
        p.wf(),
        0 <= i < p.sessions.len(),
    ensures
        without_session(p, p.sessions[i].id) == (PoolState { sessions: p.sessions.remove(i), ..p }),
{
    let id = p.sessions[i].id;
    let keep = |s: MuxSession| s.id != id;
    assert forall|j: int| 0 <= j < p.sessions.len() && j != i implies keep(
        #[trigger] p.sessions[j],
    ) by {
        if j < i {
            assert(p.sessions[j].id != p.sessions[i].id);
        } else {
            assert(p.sessions[i].id != p.sessions[j].id);
        }
    }
    lemma_filter_one(p.sessions, keep, i);
}

/// Forgetting a connection that there is not changes nothing.
pub proof fn forgetting_a_stranger_changes_nothing(p: PoolState, id: u64)
    requires
        forall|i: int| 0 <= i < p.sessions.len() ==> (#[trigger] p.sessions[i]).id != id,
    ensures
        without_session(p, id) == p,
{
    lemma_filter_all(p.sessions, |s: MuxSession| s.id != id);
}

/// A new connection comes last, under a name of its own, with no stream on it;
/// the others and everything else stay as they are.
pub proof fn a_new_connection_joins_the_others(p: PoolState, now_ms: u64)
    requires
        p.wf(),
        p.next_id < u64::MAX,
    ensures
        ({
            let q = with_session(p, now_ms);
            let s = q.sessions.last();
            &&& q.sessions.len() == p.sessions.len() + 1
            &&& q.sessions.drop_last() == p.sessions
            &&& s.in_use == 0
            &&& s.last_active_ms == now_ms
            &&& s.max_streams == p.config.max_streams
            &&& s.id == p.next_id
            &&& forall|i: int| 0 <= i < p.sessions.len() ==> (#[trigger] p.sessions[i]).id != s.id
            &&& q.next_id == p.next_id + 1
            &&& q.config == p.config
            &&& q.pending == p.pending
            &&& q.client_max_pool == p.client_max_pool
            &&& q.rr == p.rr
        }),
{
    assert(with_session(p, now_ms).sessions.drop_last() =~= p.sessions);
}

/// An answer settles the oldest request, if there is one, and nothing else.
pub proof fn an_answer_settles_the_oldest_request(p: PoolState, oldest: u64)
    ensures
        p.pending.len() == 0 ==> answered(p) == p,
        answered(PoolState { pending: seq![oldest] + p.pending, ..p }) == p,
{
    let q = PoolState { pending: seq![oldest] + p.pending, ..p };
    assert(q.pending.drop_first() =~= p.pending);
    assert(answered(q) =~= p);
}

/// What is done to a connection by its name is done to it alone.
pub proof fn a_change_is_for_one_connection(
    p: PoolState,
    id: u64,
    f: spec_fn(MuxSession) -> MuxSession,
    i: int,
)
    requires
        0 <= i < p.sessions.len(),
    ensures
        with_changed(p, id, f).sessions.len() == p.sessions.len(),
        p.sessions[i].id != id ==> with_changed(p, id, f).sessions[i] == p.sessions[i],
        p.sessions[i].id == id ==> with_changed(p, id, f).sessions[i] == f(p.sessions[i]),
        (PoolState { sessions: p.sessions, ..with_changed(p, id, f) }) == p,
{
}

/// A stream that is opened counts for one more, and one that is closed for one
/// less, as far as there is any; either is a use of the connection, and so is
/// an event on it. Nothing else changes.
pub proof fn streams_are_counted(s: MuxSession, now_ms: u64)
    ensures
        s.in_use < usize::MAX ==> taken(s, now_ms).in_use == s.in_use + 1,
        s.in_use > 0 ==> given_back(s, now_ms).in_use == s.in_use - 1,
        s.in_use == 0 ==> given_back(s, now_ms).in_use == 0,
        touched(s, now_ms).in_use == s.in_use,
        taken(s, now_ms).last_active_ms == now_ms,
        given_back(s, now_ms).last_active_ms == now_ms,
        touched(s, now_ms).last_active_ms == now_ms,
        taken(s, now_ms).id == s.id && taken(s, now_ms).max_streams == s.max_streams,
        given_back(s, now_ms).id == s.id && given_back(s, now_ms).max_streams == s.max_streams,
        touched(s, now_ms).id == s.id && touched(s, now_ms).max_streams == s.max_streams,
{
}

/// There is a connection to choose exactly when one that has not failed carries
/// fewer streams than it may.
pub proof fn any_connection_with_room_will_do(p: PoolState, failed: Seq<u64>)
    ensures
        any_usable(p, failed) <==> exists|i: int|
            0 <= i < p.sessions.len() && (#[trigger] p.sessions[i]).in_use
                < p.sessions[i].max_streams && !failed.contains(p.sessions[i].id),
{
    if exists|i: int|
        0 <= i < p.sessions.len() && (#[trigger] p.sessions[i]).in_use < p.sessions[i].max_streams
            && !failed.contains(p.sessions[i].id) {
        let i = choose|i: int|
            0 <= i < p.sessions.len() && (#[trigger] p.sessions[i]).in_use
                < p.sessions[i].max_streams && !failed.contains(p.sessions[i].id);
        assert(usable(p.sessions[i], failed));
    }
}

/// Where the fewest streams decide, the connection that is chosen has room, has
/// not failed, and carries no more streams than any other such; of those with
/// as few, it is the oldest.
pub proof fn the_least_loaded_connection_is_chosen(p: PoolState, failed: Seq<u64>, i: int, j: int)
    requires
        p.config.select is LeastStreams,
        chosen(p, failed, i),
        0 <= j < p.sessions.len(),
        p.sessions[j].in_use < p.sessions[j].max_streams,
        !failed.contains(p.sessions[j].id),
    ensures
        0 <= i < p.sessions.len(),
        p.sessions[i].in_use < p.sessions[i].max_streams,
        !failed.contains(p.sessions[i].id),
        p.sessions[i].in_use <= p.sessions[j].in_use,
        p.sessions[i].in_use == p.sessions[j].in_use ==> i <= j,
{
    assert(usable(p.sessions[j], failed));
}

/// How many steps it takes from one place to another, going round.
pub open spec fn steps_round(from: int, to: int, n: int) -> int {
    if to >= from {
        to - from
    } else {
        to + n - from
    }
}

/// Where connections take turns, the one that is chosen has room, has not
/// failed, and comes no later than any other such, going round from the one
/// whose turn it is.
pub proof fn the_next_connection_in_turn_is_chosen(p: PoolState, failed: Seq<u64>, i: int, j: int)
    requires
        p.config.select is RoundRobin,
        chosen(p, failed, i),
        0 <= j < p.sessions.len(),
        p.sessions[j].in_use < p.sessions[j].max_streams,
        !failed.contains(p.sessions[j].id),
    ensures
        0 <= i < p.sessions.len(),
        p.sessions[i].in_use < p.sessions[i].max_streams,
        !failed.contains(p.sessions[i].id),
        ({
            let n = p.sessions.len() as int;
            let first = p.rr as int % n;
            steps_round(first, i, n) <= steps_round(first, j, n)
        }),
{
    let n = p.sessions.len() as int;
    let first = p.rr as int % n;
    lemma_chosen_is_usable(p, failed, i);
    assert(usable(p.sessions[j], failed));
    let k = choose|k: int|
        #![trigger turn(p, k)]
        {
            &&& 0 <= k < p.sessions.len()
            &&& i == turn(p, k)
            &&& usable(p.sessions[i], failed)
            &&& forall|m: int| 0 <= m < k ==> !usable(p.sessions[#[trigger] turn(p, m)], failed)
        };
    lemma_turn(p.rr as int, k, n);
    let m = steps_round(first, j, n);
    lemma_turn(p.rr as int, m, n);
    assert(turn(p, m) == j);
}

/// Each look for a connection moves the turn on by one, where connections take
/// turns and there are any; nothing else changes.
pub proof fn each_look_moves_the_turn_on(p: PoolState)
    ensures
        p.config.select is RoundRobin && p.sessions.len() > 0 && p.rr < usize::MAX
            ==> after_pick(p).rr == p.rr + 1,
        p.config.select is RoundRobin && p.sessions.len() > 0 && p.rr == usize::MAX
            ==> after_pick(p).rr == 0,
        p.config.select is LeastStreams || p.sessions.len() == 0 ==> after_pick(p).rr == p.rr,
        (PoolState { rr: p.rr, ..after_pick(p) }) == p,
{
}

/// How the last connection that failed did so, if any did.
pub open spec fn last_error<E>(moves: Seq<OpenMove<E>>) -> Option<E>
    decreases moves.len(),
{
    if moves.len() == 0 {
        None
    } else {
        match moves.last() {
            OpenMove::Failed(_, _, e, _) => Some(e),
            _ => last_error(moves.drop_last()),
        }
    }
}

/// While an attempt goes on, it keeps the error of the connection that failed
/// last: that is what it is told to have failed with, should it end.
pub proof fn the_last_failure_is_told<E>(moves: Seq<OpenMove<E>>)
    requires
        open_moves_ok(moves),
        !open_progress(moves).ended,
    ensures
        open_progress(moves).state.failed == last_error(moves),
    decreases moves.len(),
{
    if moves.len() > 0 {
        the_last_failure_is_told(moves.drop_last());
    }
}

/// A connection is closed only when it broke, its client closed it, nobody can
/// ask for streams any more, its service ends, or it was unused for the whole
/// timeout of the service; and then it is.
pub proof fn connections_are_closed_exactly_for_cause(
    p: PoolState,
    i: int,
    event: MuxServerEvent,
    now_ms: u64,
)
    requires
        p.wf(),
        0 <= i < p.sessions.len(),
        p.config.idle_timeout matches Some(t) ==> 0 < t && t * 1000 <= u64::MAX,
    ensures
        mux_server_action(p, p.sessions[i].id, event, now_ms) is Close <==> {
            ||| event is InboundError
            ||| event is InboundEnd
            ||| event is Closed
            ||| event is Shutdown
            ||| event is IdleCheck && p.sessions[i].in_use == 0 && (
            p.config.idle_timeout matches Some(t) && now_ms - p.sessions[i].last_active_ms >= t
                * 1000)
        },
{
    let id = p.sessions[i].id;
    if p.config.idle_timeout is Some {
        a_connection_becomes_idle_after_the_timeout(
            p.sessions[i],
            p.config.idle_timeout->0,
            now_ms,
        );
    }
    assert forall|j: int| 0 <= j < p.sessions.len() && (#[trigger] p.sessions[j]).id == id implies j
        == i by {
        if j < i {
            assert(p.sessions[j].id != p.sessions[i].id);
        } else if i < j {
            assert(p.sessions[i].id != p.sessions[j].id);
        }
    }
    if event is IdleCheck && p.config.idle_timeout is Some && p.sessions[i].is_idle(
        p.config.idle_timeout->0,
        now_ms,
    ) {
        assert(overdue(p, id, now_ms));
    }
}

/// A stream is opened exactly when one is asked for, whatever connection it is
/// asked of; streams that the client opens are dropped, and a second that
/// passes on a connection that is not known changes nothing.
pub proof fn streams_are_opened_exactly_when_asked_for(
    p: PoolState,
    id: u64,
    event: MuxServerEvent,
    now_ms: u64,
)
    ensures
        mux_server_action(p, id, event, now_ms) is OpenOutbound <==> event is Open,
        mux_server_action(p, id, event, now_ms) is IgnoreInbound <==> event is InboundStream,
        mux_server_action(p, id, event, now_ms) is Continue ==> event is IdleCheck,
        event is IdleCheck && !p.has(id) ==> mux_server_action(p, id, event, now_ms) is Continue,
{
}

/// What is told of a connection that could not open a stream ends with its own
/// words: more words, and the text goes on with them.
pub proof fn the_words_of_a_connection_are_told(a: String, b: String, more: Seq<char>)
    requires
        b@ == a@ + more,
    ensures
        stream_failure_chars(StreamFailure::OpenFailed(b)) == stream_failure_chars(
            StreamFailure::OpenFailed(a),
        ) + more,
{
    assert(stream_failure_chars(StreamFailure::OpenFailed(b)) =~= stream_failure_chars(
        StreamFailure::OpenFailed(a),
    ) + more);
}

/// The client's word on a request sets its bound, whatever the word. A client
/// that will make no connection settles the oldest request; one that will has
/// the request stand until the connection comes. The connections themselves,
/// and everything else, stay as they are.
pub proof fn the_clients_word_is_heeded(p: PoolState, resp: ControlChannelMuxResp)
    ensures
        ({
            let q = responded(p, resp);
            &&& q.client_max_pool == resp.max_pool
            &&& resp.kind is Accepted ==> q.pending == p.pending
            &&& !(resp.kind is Accepted) && p.pending.len() > 0 ==> q.pending == p.pending.skip(1)
            &&& p.pending.len() == 0 ==> q.pending == p.pending
            &&& q.sessions == p.sessions
            &&& q.config == p.config
            &&& q.rr == p.rr
            &&& q.next_id == p.next_id
        }),
{
    if p.pending.len() > 0 {
        assert(p.pending.drop_first() =~= p.pending.skip(1));
    }
}

/// For someone who waits, a connection is asked for exactly when one is missing
/// and the delay is over; while it is not, there is the delay, and while none
/// is missing, nothing.
pub proof fn a_missing_connection_is_asked_for_after_a_delay(step: TargetStep, delayed: bool)
    ensures
        backoff_action(step, delayed) is Request <==> step.request && delayed,
        backoff_action(step, delayed) is Delay <==> step.request && !delayed,
        backoff_action(step, delayed) is Nothing <==> !step.request,
{
}

/// A connection is known by its name as long as it is among the others, and
/// not otherwise.
pub proof fn connections_are_known_by_name(p: PoolState, i: int, id: u64)
    requires
        0 <= i < p.sessions.len(),
    ensures
        p.has(p.sessions[i].id),
        (forall|j: int| 0 <= j < p.sessions.len() ==> (#[trigger] p.sessions[j]).id != id)
            ==> !p.has(id),
{
}

} // verus!
