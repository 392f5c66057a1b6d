//! How a runtime starts and keeps its connections: which peers it connects
//! to, in what order, when it gives up, and what it reconnects to when a
//! session or a link closes. Every wait and every transport operation is left
//! to the caller, who reports its outcome back.
use vstd::prelude::*;
use crate::endpoints::{
    contains_string, flatten, flatten_groups, keep_known, views, EndPointGroup, SessionEndpoints,
};

verus! {

/// The role of a runtime.
#[derive(Clone, Copy, Debug, PartialEq, Eq, Structural)]
pub enum WhatAmI {
    Router,
    Peer,
    Client,
}

/// Why starting or connecting failed.
#[derive(Clone, Copy, Debug, PartialEq, Eq, Structural)]
pub enum OrchestratorError {
    /// A client was configured with no peer to connect to.
    NoPeerSpecified,
    /// Connecting to the configured peers took longer than the global timeout.
    ConnectTimeout,
    /// No configured peer could be connected to.
    UnableToConnect,
    /// A retrying connector ended without reaching any endpoint.
    PeerConnectorTerminated,
}

/// The text of an orchestrator error; `peers` is how the configured peers
/// are written in it.
pub open spec fn orchestrator_error_text(e: OrchestratorError, peers: Seq<char>) -> Seq<char> {
    match e {
        OrchestratorError::NoPeerSpecified =>
            "No peer specified and multicast scouting is not available on wasm32-unknown-unknown"@,
        OrchestratorError::ConnectTimeout => "Unable to connect to any of "@ + peers
            + ". Timeout!"@,
        OrchestratorError::UnableToConnect => "Unable to connect to any of "@ + peers + "! "@,
        OrchestratorError::PeerConnectorTerminated =>
            "Peer connector terminated without connecting to any endpoint"@,
    }
}

impl OrchestratorError {
    /// The text of the error; `peers` is how the configured peers are written
    /// in it.
    pub fn message(&self, peers: &str) -> (r: String)
        ensures
            r@ == orchestrator_error_text(*self, peers@),
    {
        match self {
            OrchestratorError::NoPeerSpecified => String::from_str(
                "No peer specified and multicast scouting is not available on wasm32-unknown-unknown",
            ),
            OrchestratorError::ConnectTimeout => {
                let mut r = String::from_str("Unable to connect to any of ");
                r.append(peers);
                r.append(". Timeout!");
                r
            },
            OrchestratorError::UnableToConnect => {
                let mut r = String::from_str("Unable to connect to any of ");
                r.append(peers);
                r.append("! ");
                r
            },
            OrchestratorError::PeerConnectorTerminated => String::from_str(
                "Peer connector terminated without connecting to any endpoint",
            ),
        }
    }
}

/// The configuration that the runtime's connection logic reads, for the
/// runtime's own role.
pub struct RuntimeConfig {
    pub listen_endpoints: Vec<String>,
    pub connect_endpoints: Vec<EndPointGroup>,
    pub multicast_scouting: bool,
    pub wait_connect_scouted: bool,
    pub scouting_delay_ms: u64,
    pub gossip: bool,
    pub wait_declares: bool,
    pub global_connect_timeout_ms: u64,
}

/// What the connection logic knows of a runtime.
pub struct Runtime {
    pub whatami: WhatAmI,
    pub zid: u128,
    pub closed: bool,
    pub config: RuntimeConfig,
}

/// How a runtime connects once it starts.
#[derive(Clone, Copy, Debug, PartialEq, Eq, Structural)]
pub struct StartPlan {
    /// Stop at the first group of endpoints that is reached (a client),
    /// rather than connect to every endpoint.
    pub single_link: bool,
    /// How long to wait after connecting, if at all.
    pub sleep_after_connect_ms: Option<u64>,
}

/// The retry settings of one endpoint to connect to.
pub struct ConnectTarget {
    pub endpoint: String,
    /// The endpoint's retry timeout is zero: it is tried once.
    pub retry_timeout_zero: bool,
    /// A failure to reach the endpoint ends the start with an error.
    pub exit_on_failure: bool,
}

impl ConnectTarget {
    /// A copy of the target.
    pub fn duplicate(&self) -> (r: ConnectTarget)
        ensures
            r == *self,
    {
        ConnectTarget {
            endpoint: self.endpoint.clone(),
            retry_timeout_zero: self.retry_timeout_zero,
            exit_on_failure: self.exit_on_failure,
        }
    }
}

/// The targets of the groups, group after group.
pub open spec fn flat_targets(groups: Seq<Vec<ConnectTarget>>) -> Seq<ConnectTarget>
    decreases groups.len(),
{
    if groups.len() == 0 {
        Seq::empty()
    } else {
        flat_targets(groups.drop_last()) + groups.last()@
    }
}

/// A target is tried once, with no retry, when its own retry timeout or the
/// global connect timeout is zero.
pub open spec fn tried_once(t: ConnectTarget, global_timeout_zero: bool) -> bool {
    t.retry_timeout_zero || global_timeout_zero
}

/// The endpoints of `targets` that are tried once, in order.
pub open spec fn once_endpoints(targets: Seq<ConnectTarget>, gz: bool) -> Seq<Seq<char>>
    decreases targets.len(),
{
    if targets.len() == 0 {
        Seq::empty()
    } else if tried_once(targets.last(), gz) {
        once_endpoints(targets.drop_last(), gz).push(targets.last().endpoint@)
    } else {
        once_endpoints(targets.drop_last(), gz)
    }
}

/// The endpoints of `targets` that are retried, in order.
pub open spec fn retried_endpoints(targets: Seq<ConnectTarget>, gz: bool) -> Seq<Seq<char>>
    decreases targets.len(),
{
    if targets.len() == 0 {
        Seq::empty()
    } else if !tried_once(targets.last(), gz) {
        retried_endpoints(targets.drop_last(), gz).push(targets.last().endpoint@)
    } else {
        retried_endpoints(targets.drop_last(), gz)
    }
}

/// How one group of endpoints is tried by a client: first each endpoint that
/// is tried once, in order, then all the others together, with retries.
pub struct GroupPlan {
    pub once: Vec<String>,
    pub with_retry: Vec<String>,
}

/// How a client's start ends: fine when a group connected, an error when
/// none did.
pub open spec fn connect_outcome(connected: bool) -> Result<(), OrchestratorError> {
    if connected {
        Ok(())
    } else {
        Err(OrchestratorError::UnableToConnect)
    }
}

/// Whether a run of attempts goes on: nothing has connected yet and some
/// attempt is left.
pub open spec fn continues(connected: bool, tried: nat, total: nat) -> bool {
    !connected && tried < total
}

/// The run of attempts that goes on from `tried` attempts made (none of them
/// connected, unless `connected`), out of `total`, while the attempts give
/// `outcomes` in order: how many attempts end up made, and whether one
/// connected.
pub open spec fn run_attempts(connected: bool, tried: nat, total: nat, outcomes: Seq<bool>) -> (
    nat,
    bool,
)
    decreases outcomes.len(),
{
    if !continues(connected, tried, total) || outcomes.len() == 0 {
        (tried, connected)
    } else {
        run_attempts(outcomes[0], tried + 1, total, outcomes.drop_first())
    }
}

/// Runs of attempts compose: running on `a` and then on `b` is running on
/// `a` followed by `b`. A sequence of steps of a `SingleLinkConnect`, a
/// `PeerDial` or a `MultiLinkConnect` (whose outcome is whether the attempt
/// failed fatally), each of which is `run_attempts` on its one outcome, is thus
/// `run_attempts` on all of their outcomes.
pub proof fn attempts_compose(
    connected: bool,
    tried: nat,
    total: nat,
    a: Seq<bool>,
    b: Seq<bool>,
)
    ensures
        run_attempts(connected, tried, total, a + b) == ({
            let first = run_attempts(connected, tried, total, a);
            run_attempts(first.1, first.0, total, b)
        }),
    decreases a.len(),
{
    if !continues(connected, tried, total) {
    } else if a.len() == 0 {
        assert(a + b =~= b);
    } else {
        assert((a + b).drop_first() =~= a.drop_first() + b);
        assert((a + b)[0] == a[0]);
        attempts_compose(a[0], tried + 1, total, a.drop_first(), b);
    }
}

/// Attempts made one after the other until one connects: when every attempt
/// gets its outcome, the run connects exactly when one of the attempts left
/// connects; it stops at the first that does, and makes every attempt when
/// none does.
pub proof fn attempts_stop_at_first_success(tried: nat, total: nat, outcomes: Seq<bool>)
    requires
        tried <= total,
        outcomes.len() >= total - tried,
    ensures
        ({
            let (made, connected) = run_attempts(false, tried, total, outcomes);
            &&& tried <= made <= total
            &&& connected == outcomes.take(total - tried).contains(true)
            &&& connected ==> made > tried && outcomes[made - tried - 1] && forall|j: int|
                0 <= j < made - tried - 1 ==> !#[trigger] outcomes[j]
            &&& !connected ==> made == total
        }),
    decreases total - tried,
{
    let run = run_attempts(false, tried, total, outcomes);
    if tried == total {
        assert(outcomes.take(0) =~= Seq::<bool>::empty());
        assert(run == (tried, false));
    } else {
        let rest = outcomes.drop_first();
        assert(outcomes.len() > 0);
        assert(run == run_attempts(outcomes[0], tried + 1, total, rest));
        if outcomes[0] {
            assert(run_attempts(true, tried + 1, total, rest) == (tried + 1, true));
            assert(outcomes.take(total - tried)[0]);
            assert(run.1 == outcomes.take(total - tried).contains(true));
        } else {
            attempts_stop_at_first_success(tried + 1, total, rest);
            let made = run.0;
            let connected = run.1;
            assert(run == run_attempts(false, tried + 1, total, rest));
            let t = outcomes.take(total - tried);
            let rt = rest.take(total - (tried + 1));
            assert(t =~= seq![false] + rt);
            if connected {
                assert forall|j: int| 0 <= j < made - tried - 1 implies !#[trigger] outcomes[j] by {
                    if j > 0 {
                        assert(outcomes[j] == rest[j - 1]);
                    }
                }
                assert(outcomes[made - tried - 1] == rest[made - (tried + 1) - 1]);
                let k = choose|k: int| 0 <= k < rt.len() && #[trigger] rt[k] == true;
                assert(t[k + 1] == true);
            } else {
                if t.contains(true) {
                    let k = choose|k: int| 0 <= k < t.len() && #[trigger] t[k] == true;
                    assert(k > 0);
                    assert(rt[k - 1] == true);
                }
            }
        }
    }
}

/// A client's way through its groups of endpoints: group after group, until
/// a group connects.
pub struct SingleLinkConnect {
    plans: Vec<GroupPlan>,
    total: usize,
    next: usize,
    connected: bool,
}

impl SingleLinkConnect {
    /// The plans of the groups, in order.
    pub closed spec fn plans(&self) -> Seq<GroupPlan> {
        self.plans@
    }

    /// How many groups have been tried.
    pub closed spec fn tried(&self) -> nat {
        self.next as nat
    }

    /// Whether a tried group connected.
    pub closed spec fn connected(&self) -> bool {
        self.connected
    }

    #[verifier::type_invariant]
    spec fn well_formed(self) -> bool {
        self.next <= self.total && self.total == self.plans@.len()
    }

    fn from_plans(plans: Vec<GroupPlan>) -> (r: SingleLinkConnect)
        ensures
            r.plans() == plans@,
            r.tried() == 0,
            !r.connected(),
    {
        let total = plans.len();
        SingleLinkConnect { plans, total, next: 0, connected: false }
    }

    /// The group to try next, if any: none once a group has connected or
    /// every group has been tried.
    pub fn next_group(&self) -> (r: Option<&GroupPlan>)
        ensures
            match r {
                Some(plan) => continues(self.connected(), self.tried(), self.plans().len())
                    && *plan == self.plans()[self.tried() as int],
                None => !continues(self.connected(), self.tried(), self.plans().len()),
            },
    {
        proof {
            use_type_invariant(self);
        }
        if self.connected || self.next >= self.total {
            None
        } else {
            Some(&self.plans[self.next])
        }
    }

    /// Records how the group just tried went: the outcome of each endpoint
    /// tried once, and whether the retried endpoints connected.
    pub fn record_group(&mut self, once_connected: &Vec<bool>, retry_connected: bool)
        requires
            continues(old(self).connected(), old(self).tried(), old(self).plans().len()),
        ensures
            final(self).plans() == old(self).plans(),
            final(self).tried() == old(self).tried() + 1,
            final(self).connected() == (retry_connected || once_connected@.contains(true)),
            (final(self).tried(), final(self).connected()) == run_attempts(
                old(self).connected(),
                old(self).tried(),
                old(self).plans().len(),
                seq![retry_connected || once_connected@.contains(true)],
            ),
    {
        proof {
            use_type_invariant(&*self);
        }
        let mut any = retry_connected;
        let mut i: usize = 0;
        while i < once_connected.len()
            invariant
                i <= once_connected@.len(),
                any == (retry_connected || once_connected@.take(i as int).contains(true)),
            decreases once_connected@.len() - i,
        {
            proof {
                assert(once_connected@.take(i + 1) =~= once_connected@.take(i as int).push(
                    once_connected@[i as int],
                ));
                if once_connected@.take(i as int).contains(true) {
                    let k = choose|k: int|
                        0 <= k < i && #[trigger] once_connected@.take(i as int)[k] == true;
                    assert(once_connected@.take(i + 1)[k] == true);
                }
                if once_connected@.take(i + 1).contains(true) && !once_connected@[i as int] {
                    let k = choose|k: int|
                        0 <= k < i + 1 && #[trigger] once_connected@.take(i + 1)[k] == true;
                    assert(once_connected@.take(i as int)[k] == true);
                }
                if once_connected@[i as int] {
                    assert(once_connected@.take(i + 1)[i as int] == true);
                }
            }
            any = any || once_connected[i];
            i = i + 1;
        }
        assert(once_connected@.take(i as int) =~= once_connected@);
        assert(seq![any].drop_first() =~= Seq::<bool>::empty());
        assert(run_attempts(any, (self.next + 1) as nat, self.total as nat, Seq::<bool>::empty()) == (
        (self.next + 1) as nat, any));
        self.connected = any;
        self.next = self.next + 1;
    }

    /// How the start ends once no group is left to try.
    pub fn result(&self) -> (r: Result<(), OrchestratorError>)
        ensures
            r == connect_outcome(self.connected()),
    {
        if self.connected {
            Ok(())
        } else {
            Err(OrchestratorError::UnableToConnect)
        }
    }
}

/// How a router or a peer tries one endpoint.
#[derive(Clone, Copy, Debug, PartialEq, Eq, Structural)]
pub enum MultiLinkStep {
    /// Try once.
    ConnectOnce,
    /// Retry until the endpoint is reached, and wait for that.
    RetryUntilConnected,
    /// Leave a connector retrying in the background, and go on.
    SpawnConnector,
}

/// How a router or a peer tries `t` when the global timeout is zero or not.
pub open spec fn multi_step_of(t: ConnectTarget, gz: bool) -> MultiLinkStep {
    if tried_once(t, gz) {
        MultiLinkStep::ConnectOnce
    } else if t.exit_on_failure {
        MultiLinkStep::RetryUntilConnected
    } else {
        MultiLinkStep::SpawnConnector
    }
}

/// Whether the attempt on `t`, which `connected` or not, ends the start
/// with its error.
pub open spec fn fatal(t: ConnectTarget, gz: bool, connected: bool) -> bool {
    match multi_step_of(t, gz) {
        MultiLinkStep::ConnectOnce => !connected && t.exit_on_failure,
        MultiLinkStep::RetryUntilConnected => !connected,
        MultiLinkStep::SpawnConnector => false,
    }
}

/// How a router or a peer tries an endpoint: once exactly when its own retry
/// timeout or the global timeout is zero, whether or not a failure is fatal;
/// otherwise with a waited retry when a failure is to end the start, and with
/// a background connector when it is not.
pub proof fn multi_link_step_law(t: ConnectTarget, gz: bool)
    ensures
        (multi_step_of(t, gz) == MultiLinkStep::ConnectOnce) == (t.retry_timeout_zero || gz),
        (multi_step_of(t, gz) == MultiLinkStep::RetryUntilConnected) == (!t.retry_timeout_zero
            && !gz && t.exit_on_failure),
        (multi_step_of(t, gz) == MultiLinkStep::SpawnConnector) == (!t.retry_timeout_zero && !gz
            && !t.exit_on_failure),
{
}

/// An attempt ends a router's or a peer's start exactly when it did not
/// connect and the endpoint asks for failures to be fatal, however the
/// endpoint is tried: a single try that fails is fatal for such an endpoint,
/// a connected attempt never is, and an endpoint that does not ask for it
/// never ends the start.
pub proof fn fatal_failure_law(t: ConnectTarget, gz: bool, connected: bool)
    ensures
        fatal(t, gz, connected) == (!connected && t.exit_on_failure),
        (t.retry_timeout_zero || gz) && t.exit_on_failure ==> fatal(t, gz, false),
        !fatal(t, gz, true),
{
}

/// A router's or a peer's way through its endpoints: every one of them, in
/// order, until an attempt fails fatally, which ends the start with that
/// attempt's error.
pub struct MultiLinkConnect {
    targets: Vec<ConnectTarget>,
    total: usize,
    next: usize,
    failed: bool,
    global_timeout_zero: bool,
}

impl MultiLinkConnect {
    #[verifier::type_invariant]
    spec fn well_formed(self) -> bool {
        self.next <= self.total && self.total == self.targets@.len()
    }

    /// The endpoints to try, in order.
    pub closed spec fn targets(&self) -> Seq<ConnectTarget> {
        self.targets@
    }

    /// How many endpoints have been tried.
    pub closed spec fn tried(&self) -> nat {
        self.next as nat
    }

    /// Whether a tried endpoint failed fatally.
    pub closed spec fn spec_failed(&self) -> bool {
        self.failed
    }

    /// Whether the global connect timeout is zero.
    pub closed spec fn global_zero(&self) -> bool {
        self.global_timeout_zero
    }

    /// The endpoint to try next, with how to try it; none once an attempt
    /// failed fatally or every endpoint was tried.
    pub fn next_target(&self) -> (r: Option<(&ConnectTarget, MultiLinkStep)>)
        ensures
            match r {
                Some((t, step)) => continues(self.spec_failed(), self.tried(), self.targets().len())
                    && *t == self.targets()[self.tried() as int] && step == multi_step_of(
                    *t,
                    self.global_zero(),
                ) && (step == MultiLinkStep::ConnectOnce) == (t.retry_timeout_zero
                    || self.global_zero()),
                None => !continues(self.spec_failed(), self.tried(), self.targets().len()),
            },
    {
        proof {
            use_type_invariant(self);
        }
        if self.failed || self.next >= self.total {
            None
        } else {
            let t = &self.targets[self.next];
            let step = if t.retry_timeout_zero || self.global_timeout_zero {
                MultiLinkStep::ConnectOnce
            } else if t.exit_on_failure {
                MultiLinkStep::RetryUntilConnected
            } else {
                MultiLinkStep::SpawnConnector
            };
            Some((t, step))
        }
    }

    /// Records whether the endpoint just tried was reached (a background
    /// connector counts as reached); tells whether the attempt failed
    /// fatally, ending the start with its error.
    pub fn record(&mut self, connected: bool) -> (fatal_failure: bool)
        requires
            continues(old(self).spec_failed(), old(self).tried(), old(self).targets().len()),
        ensures
            final(self).targets() == old(self).targets(),
            final(self).global_zero() == old(self).global_zero(),
            fatal_failure == fatal(
                old(self).targets()[old(self).tried() as int],
                old(self).global_zero(),
                connected,
            ),
            fatal_failure == (!connected
                && old(self).targets()[old(self).tried() as int].exit_on_failure),
            final(self).spec_failed() == fatal_failure,
            final(self).tried() == old(self).tried() + 1,
            (final(self).tried(), final(self).spec_failed()) == run_attempts(
                old(self).spec_failed(),
                old(self).tried(),
                old(self).targets().len(),
                seq![fatal_failure],
            ),
    {
        proof {
            use_type_invariant(&*self);
        }
        let t = &self.targets[self.next];
        let failure = if t.retry_timeout_zero || self.global_timeout_zero {
            !connected && t.exit_on_failure
        } else if t.exit_on_failure {
            !connected
        } else {
            false
        };
        assert(seq![failure].drop_first() =~= Seq::<bool>::empty());
        assert(run_attempts(failure, (self.next + 1) as nat, self.total as nat, Seq::<bool>::empty())
            == ((self.next + 1) as nat, failure));
        self.failed = failure;
        self.next = self.next + 1;
        failure
    }

    /// Whether the start failed.
    pub fn failed(&self) -> (r: bool)
        ensures
            r == self.spec_failed(),
    {
        self.failed
    }
}

/// Whether a retry run is over: no peer is left pending, or the run stops at
/// the first peer reached and one was.
pub open spec fn retry_done(pending: nat, stop_after_first: bool, connected: nat) -> bool {
    pending == 0 || (stop_after_first && connected > 0)
}

/// `i` is the first position of `x` in `s`.
pub open spec fn is_first_index(s: Seq<Seq<char>>, x: Seq<char>, i: int) -> bool {
    &&& 0 <= i < s.len()
    &&& s[i] == x
    &&& forall|j: int| 0 <= j < i ==> s[j] != x
}

/// A run of retries over a list of peers: the peers not reached yet, which
/// are the only ones retried, and the identifiers of the peers reached, in
/// the order they were reached. A peer reached leaves the pending list, so
/// each peer gives at most one identifier.
pub struct RetryRun {
    pending: Vec<String>,
    connected: Vec<u128>,
    stop_after_first: bool,
    total: usize,
}

impl RetryRun {
    #[verifier::type_invariant]
    spec fn well_formed(self) -> bool {
        &&& self.connected@.len() + self.pending@.len() == self.total
        &&& self.stop_after_first ==> self.connected@.len() <= 1
    }

    /// The peers not reached yet.
    pub closed spec fn pending(&self) -> Seq<Seq<char>> {
        views(self.pending@)
    }

    /// The identifiers of the peers reached, in order.
    pub closed spec fn connected(&self) -> Seq<u128> {
        self.connected@
    }

    pub closed spec fn stop_after_first(&self) -> bool {
        self.stop_after_first
    }

    /// The number of peers the run started with.
    pub closed spec fn total(&self) -> nat {
        self.total as nat
    }

    /// A run over `peers`, none reached yet; `stop_after_first` ends it at
    /// the first peer reached.
    pub fn new(peers: Vec<String>, stop_after_first: bool) -> (r: RetryRun)
        ensures
            r.pending() == views(peers@),
            r.connected() == Seq::<u128>::empty(),
            r.stop_after_first() == stop_after_first,
            r.total() == peers@.len(),
    {
        let total = peers.len();
        RetryRun { pending: peers, connected: Vec::new(), stop_after_first, total }
    }

    /// The peers not reached yet, to be tried again.
    pub fn pending_peers(&self) -> (r: &Vec<String>)
        ensures
            views(r@) == self.pending(),
    {
        &self.pending
    }

    /// Whether the run is over.
    pub fn is_done(&self) -> (r: bool)
        ensures
            r == retry_done(self.pending().len(), self.stop_after_first(), self.connected().len()),
    {
        self.pending.len() == 0 || (self.stop_after_first && self.connected.len() > 0)
    }

    /// Records an attempt on the pending `peer`: `Some` with the identifier
    /// of the peer reached, which then leaves the pending list (its first
    /// occurrence), or `None` when it stays pending, to be retried.
    pub fn record(&mut self, peer: &String, zid: Option<u128>)
        requires
            !retry_done(
                old(self).pending().len(),
                old(self).stop_after_first(),
                old(self).connected().len(),
            ),
            old(self).pending().contains(peer@),
        ensures
            final(self).stop_after_first() == old(self).stop_after_first(),
            final(self).total() == old(self).total(),
            match zid {
                Some(z) => {
                    &&& final(self).connected() == old(self).connected().push(z)
                    &&& exists|i: int|
                        is_first_index(old(self).pending(), peer@, i) && final(self).pending()
                            == old(self).pending().remove(i)
                },
                None => {
                    &&& final(self).connected() == old(self).connected()
                    &&& final(self).pending() == old(self).pending()
                },
            },
    {
        proof {
            use_type_invariant(&*self);
        }
        match zid {
            None => {},
            Some(z) => {
                let mut taken = RetryRun {
                    pending: Vec::new(),
                    connected: Vec::new(),
                    stop_after_first: false,
                    total: 0,
                };
                std::mem::swap(self, &mut taken);
                let RetryRun { mut pending, mut connected, stop_after_first, total } = taken;
                let ghost before = views(pending@);
                let mut i: usize = 0;
                while i < pending.len()
                    invariant
                        i <= pending@.len(),
                        before == views(pending@),
                        before.contains(peer@),
                        forall|j: int| 0 <= j < i ==> before[j] != peer@,
                    ensures
                        i <= pending@.len(),
                        before == views(pending@),
                        forall|j: int| 0 <= j < i ==> before[j] != peer@,
                        i < pending@.len() ==> before[i as int] == peer@,
                    decreases pending@.len() - i,
                {
                    if pending[i] == *peer {
                        break;
                    }
                    i = i + 1;
                }
                if i == pending.len() {
                    proof {
                        let k = choose|k: int| 0 <= k < before.len() && before[k] == peer@;
                        assert(before[k] != peer@);
                    }
                }
                assert(is_first_index(before, peer@, i as int));
                pending.remove(i);
                assert(views(pending@) =~= before.remove(i as int));
                connected.push(z);
                *self = RetryRun { pending, connected, stop_after_first, total };
            },
        }
    }

    /// How the run ends: the identifiers of the peers reached, in order,
    /// at most one per peer, and exactly one when the run stops at the first
    /// peer reached; an error when no peer was reached.
    pub fn finish(self) -> (r: Result<Vec<u128>, OrchestratorError>)
        ensures
            match r {
                Ok(zids) => {
                    &&& zids@ == self.connected()
                    &&& 1 <= zids@.len() <= self.total()
                    &&& self.stop_after_first() ==> zids@.len() == 1
                },
                Err(e) => self.connected().len() == 0 && e
                    == OrchestratorError::PeerConnectorTerminated,
            },
    {
        proof {
            use_type_invariant(&self);
        }
        if self.connected.len() == 0 {
            Err(OrchestratorError::PeerConnectorTerminated)
        } else {
            let RetryRun { pending: _, connected, stop_after_first: _, total: _ } = self;
            Ok(connected)
        }
    }
}

/// The first peer that a connector reached.
pub fn first_connected(zids: &Vec<u128>) -> (r: u128)
    requires
        zids@.len() > 0,
    ensures
        r == zids@[0],
{
    zids[0]
}

/// What to do next when dialing a discovered peer.
#[derive(Debug)]
pub enum DialAction {
    /// The peer is reached (or is this runtime itself): report success.
    Connected,
    /// Try to open a transport to the peer on this locator.
    Try(String),
    /// Every locator failed: report failure.
    GiveUp,
}

/// Dialing a discovered peer through its locators, one after the other,
/// until one of them works.
pub struct PeerDial {
    locators: Vec<String>,
    total: usize,
    next: usize,
    connected: bool,
}

impl PeerDial {
    pub closed spec fn locators(&self) -> Seq<String> {
        self.locators@
    }

    pub closed spec fn tried(&self) -> nat {
        self.next as nat
    }

    pub closed spec fn connected(&self) -> bool {
        self.connected
    }

    #[verifier::type_invariant]
    spec fn well_formed(self) -> bool {
        self.next <= self.total && self.total == self.locators@.len()
    }
}

impl Runtime {
    /// The warning for a multicast scouting that was asked for: there is no
    /// multicast in a browser.
    pub fn warn_scouting(scouting: bool) -> (r: Option<String>)
        ensures
            match r {
                Some(m) => scouting && m@
                    == "multicast scouting is not available on wasm32-unknown-unknown; configure explicit ws connect endpoints"@,
                None => !scouting,
            },
    {
        if scouting {
            Some(
                String::from_str(
                    "multicast scouting is not available on wasm32-unknown-unknown; configure explicit ws connect endpoints",
                ),
            )
        } else {
            None
        }
    }

    /// Whether to warn that the listen endpoints are ignored: a browser
    /// cannot listen.
    pub fn warn_listeners(listeners: &Vec<String>) -> (r: bool)
        ensures
            r == (listeners@.len() > 0),
    {
        listeners.len() > 0
    }

    /// Whether to warn that a group's one-of strategy falls back to
    /// connecting to all of its endpoints.
    pub fn warn_if_oneof(group: &EndPointGroup) -> (r: bool)
        ensures
            r == group.one_of,
    {
        group.one_of
    }

    /// Whether the global connect timeout is zero, that is, absent.
    pub fn global_timeout_zero(&self) -> (r: bool)
        ensures
            r == (self.config.global_connect_timeout_ms == 0),
    {
        self.config.global_connect_timeout_ms == 0
    }

    /// How the runtime connects when it starts: a client needs a peer and
    /// stops at the first group it reaches; a peer and a router connect to
    /// every endpoint, and then wait for scouting: a router always, a peer
    /// when asked to and when it has peers.
    pub fn start_plan(&self) -> (r: Result<StartPlan, OrchestratorError>)
        ensures
            match self.whatami {
                WhatAmI::Client => if self.config.connect_endpoints@.len() == 0 {
                    r == Err::<StartPlan, OrchestratorError>(OrchestratorError::NoPeerSpecified)
                } else {
                    r == Ok::<StartPlan, OrchestratorError>(
                        StartPlan { single_link: true, sleep_after_connect_ms: None },
                    )
                },
                WhatAmI::Peer => r == Ok::<StartPlan, OrchestratorError>(
                    StartPlan {
                        single_link: false,
                        sleep_after_connect_ms: if self.config.wait_connect_scouted
                            && self.config.connect_endpoints@.len() > 0 {
                            Some(self.config.scouting_delay_ms)
                        } else {
                            None
                        },
                    },
                ),
                WhatAmI::Router => r == Ok::<StartPlan, OrchestratorError>(
                    StartPlan {
                        single_link: false,
                        sleep_after_connect_ms: Some(self.config.scouting_delay_ms),
                    },
                ),
            },
    {
        match self.whatami {
            WhatAmI::Client => {
                if self.config.connect_endpoints.len() == 0 {
                    Err(OrchestratorError::NoPeerSpecified)
                } else {
                    Ok(StartPlan { single_link: true, sleep_after_connect_ms: None })
                }
            },
            WhatAmI::Peer => {
                let sleep = if self.config.wait_connect_scouted
                    && self.config.connect_endpoints.len() > 0 {
                    Some(self.config.scouting_delay_ms)
                } else {
                    None
                };
                Ok(StartPlan { single_link: false, sleep_after_connect_ms: sleep })
            },
            WhatAmI::Router => Ok(
                StartPlan {
                    single_link: false,
                    sleep_after_connect_ms: Some(self.config.scouting_delay_ms),
                },
            ),
        }
    }

    /// How a group of endpoints is tried by a client.
    pub fn plan_group(&self, targets: &Vec<ConnectTarget>) -> (r: GroupPlan)
        ensures
            views(r.once@) == once_endpoints(targets@, self.config.global_connect_timeout_ms == 0),
            views(r.with_retry@) == retried_endpoints(
                targets@,
                self.config.global_connect_timeout_ms == 0,
            ),
    {
        let gz = self.global_timeout_zero();
        let mut once: Vec<String> = Vec::new();
        let mut with_retry: Vec<String> = Vec::new();
        let mut i: usize = 0;
        while i < targets.len()
            invariant
                i <= targets@.len(),
                gz == (self.config.global_connect_timeout_ms == 0),
                views(once@) == once_endpoints(targets@.take(i as int), gz),
                views(with_retry@) == retried_endpoints(targets@.take(i as int), gz),
            decreases targets@.len() - i,
        {
            let t = &targets[i];
            let ghost prev_once = views(once@);
            let ghost prev_retry = views(with_retry@);
            assert(targets@.take(i + 1).drop_last() =~= targets@.take(i as int));
            if t.retry_timeout_zero || gz {
                once.push(t.endpoint.clone());
                assert(views(once@) =~= prev_once.push(t.endpoint@));
            } else {
                with_retry.push(t.endpoint.clone());
                assert(views(with_retry@) =~= prev_retry.push(t.endpoint@));
            }
            i = i + 1;
        }
        assert(targets@.take(i as int) =~= targets@);
        GroupPlan { once, with_retry }
    }

    /// A client's way through its groups of endpoints.
    pub fn single_link_connect(&self, groups: &Vec<Vec<ConnectTarget>>) -> (r: SingleLinkConnect)
        ensures
            r.tried() == 0,
            !r.connected(),
            r.plans().len() == groups@.len(),
            forall|g: int|
                0 <= g < groups@.len() ==> {
                    &&& views(#[trigger] r.plans()[g].once@) == once_endpoints(
                        groups@[g]@,
                        self.config.global_connect_timeout_ms == 0,
                    )
                    &&& views(r.plans()[g].with_retry@) == retried_endpoints(
                        groups@[g]@,
                        self.config.global_connect_timeout_ms == 0,
                    )
                },
    {
        let mut plans: Vec<GroupPlan> = Vec::new();
        let mut g: usize = 0;
        while g < groups.len()
            invariant
                g <= groups@.len(),
                plans@.len() == g,
                forall|k: int|
                    0 <= k < g ==> {
                        &&& views(#[trigger] plans@[k].once@) == once_endpoints(
                            groups@[k]@,
                            self.config.global_connect_timeout_ms == 0,
                        )
                        &&& views(plans@[k].with_retry@) == retried_endpoints(
                            groups@[k]@,
                            self.config.global_connect_timeout_ms == 0,
                        )
                    },
            decreases groups@.len() - g,
        {
            plans.push(self.plan_group(&groups[g]));
            g = g + 1;
        }
        SingleLinkConnect::from_plans(plans)
    }

    /// A router's or a peer's way through the endpoints of `groups`, group
    /// after group.
    pub fn multi_link_connect(&self, groups: &Vec<Vec<ConnectTarget>>) -> (r: MultiLinkConnect)
        ensures
            r.targets() == flat_targets(groups@),
            r.tried() == 0,
            !r.spec_failed(),
            r.global_zero() == (self.config.global_connect_timeout_ms == 0),
    {
        let mut targets: Vec<ConnectTarget> = Vec::new();
        let mut g: usize = 0;
        while g < groups.len()
            invariant
                g <= groups@.len(),
                targets@ == flat_targets(groups@.take(g as int)),
            decreases groups@.len() - g,
        {
            let group = &groups[g];
            let ghost before = targets@;
            let mut i: usize = 0;
            while i < group.len()
                invariant
                    i <= group@.len(),
                    targets@ == before + group@.take(i as int),
                decreases group@.len() - i,
            {
                targets.push(group[i].duplicate());
                assert(group@.take(i + 1) =~= group@.take(i as int).push(group@[i as int]));
                i = i + 1;
            }
            assert(group@.take(i as int) =~= group@);
            assert(groups@.take(g + 1).drop_last() =~= groups@.take(g as int));
            g = g + 1;
        }
        assert(groups@.take(g as int) =~= groups@);
        let total = targets.len();
        MultiLinkConnect {
            targets,
            total,
            next: 0,
            failed: false,
            global_timeout_zero: self.global_timeout_zero(),
        }
    }

    /// How a router or a peer tries `target`: once when its retry timeout or
    /// the global timeout is zero; otherwise with retries, waited for when a
    /// failure is to end the start, left to the background when not.
    pub fn multi_link_step(&self, target: &ConnectTarget) -> (r: MultiLinkStep)
        ensures
            r == (if tried_once(*target, self.config.global_connect_timeout_ms == 0) {
                MultiLinkStep::ConnectOnce
            } else if target.exit_on_failure {
                MultiLinkStep::RetryUntilConnected
            } else {
                MultiLinkStep::SpawnConnector
            }),
    {
        if target.retry_timeout_zero || self.global_timeout_zero() {
            MultiLinkStep::ConnectOnce
        } else if target.exit_on_failure {
            MultiLinkStep::RetryUntilConnected
        } else {
            MultiLinkStep::SpawnConnector
        }
    }

    /// Whether the start ends with the error of `target` after the step
    /// reported `connected`: a single try that failed ends it when the target
    /// asks so; a waited retry always ends it when it fails.
    pub fn multi_link_aborts(step: MultiLinkStep, target: &ConnectTarget, connected: bool) -> (r:
        bool)
        ensures
            r == match step {
                MultiLinkStep::ConnectOnce => !connected && target.exit_on_failure,
                MultiLinkStep::RetryUntilConnected => !connected,
                MultiLinkStep::SpawnConnector => false,
            },
    {
        match step {
            MultiLinkStep::ConnectOnce => !connected && target.exit_on_failure,
            MultiLinkStep::RetryUntilConnected => !connected,
            MultiLinkStep::SpawnConnector => false,
        }
    }

    /// The timeout that bounds connecting to the configured peers: none when
    /// the global connect timeout is zero.
    pub fn connect_deadline_ms(&self) -> (r: Option<u64>)
        ensures
            r == (if self.config.global_connect_timeout_ms == 0 {
                None::<u64>
            } else {
                Some(self.config.global_connect_timeout_ms)
            }),
    {
        if self.config.global_connect_timeout_ms == 0 {
            None
        } else {
            Some(self.config.global_connect_timeout_ms)
        }
    }

    /// Whether a background connector reports its end to the start
    /// conditions once its retries are over: only when the runtime does not
    /// gossip, and does not wait for declarations as a peer.
    pub fn connector_terminates(&self) -> (r: bool)
        ensures
            r == (!self.config.gossip && (!self.config.wait_declares || self.whatami
                != WhatAmI::Peer)),
    {
        !self.config.gossip && (!self.config.wait_declares || self.whatami != WhatAmI::Peer)
    }

    /// Starts dialing the discovered peer `zid` through `locators`; there is
    /// nothing to dial when `zid` is this runtime or a transport to it exists.
    pub fn dial_peer(&self, zid: u128, has_transport: bool, locators: Vec<String>) -> (r: PeerDial)
        ensures
            r.locators() == locators@,
            r.tried() == 0,
            r.connected() == (zid == self.zid || has_transport),
    {
        let total = locators.len();
        PeerDial { locators, total, next: 0, connected: zid == self.zid || has_transport }
    }

    /// What to reconnect to when a session closes: nothing when the runtime
    /// is closed or the session was opened on no configured endpoint.
    /// Otherwise the configured endpoints, all of them for a client, which
    /// then stops at the first one reached, and for the others only those the
    /// session was opened on, which the session then forgets.
    pub fn closed_session(&self, session: &mut SessionEndpoints) -> (r: Option<ReconnectPlan>)
        ensures
            ({
                let configured = flatten(self.config.connect_endpoints@);
                let peers = if self.whatami == WhatAmI::Client {
                    configured
                } else {
                    keep_known(configured, old(session)@)
                };
                if self.closed || old(session)@ == Set::<Seq<char>>::empty() {
                    &&& r is None
                    &&& final(session)@ == old(session)@
                } else {
                    &&& final(session)@ == (if self.whatami == WhatAmI::Client {
                        old(session)@
                    } else {
                        Set::<Seq<char>>::empty()
                    })
                    &&& match r {
                        Some(plan) => {
                            &&& peers.len() > 0
                            &&& views(plan.peers@) == peers
                            &&& plan.stop_after_first == (self.whatami == WhatAmI::Client)
                        },
                        None => peers.len() == 0,
                    }
                }
            }),
    {
        if self.closed {
            return None;
        }
        if session.is_empty() {
            return None;
        }
        let configured = flatten_groups(&self.config.connect_endpoints);
        let peers = if self.whatami != WhatAmI::Client {
            let known = session.take_all();
            keep_listed(&configured, &known)
        } else {
            configured
        };
        if peers.len() > 0 {
            Some(ReconnectPlan { peers, stop_after_first: self.whatami == WhatAmI::Client })
        } else {
            None
        }
    }

    /// Whether to reconnect to `endpoint` when a link on it closes: never for
    /// a client or a closed runtime; otherwise when the endpoint is configured
    /// and the session was opened on it, which the session then forgets.
    pub fn closed_link(&self, session: &mut SessionEndpoints, endpoint: &String) -> (retry: bool)
        ensures
            if self.whatami == WhatAmI::Client || self.closed || !flatten(
                self.config.connect_endpoints@,
            ).contains(endpoint@) {
                &&& !retry
                &&& final(session)@ == old(session)@
            } else {
                &&& retry == old(session)@.contains(endpoint@)
                &&& final(session)@ == old(session)@.remove(endpoint@)
            },
    {
        if self.whatami == WhatAmI::Client {
            return false;
        }
        if self.closed {
            return false;
        }
        let configured = flatten_groups(&self.config.connect_endpoints);
        if contains_string(&configured, endpoint) {
            session.remove(endpoint)
        } else {
            false
        }
    }
}

/// A link that closes is reconnected to once: the session forgets the
/// endpoint when it asks for the reconnection, so that the same endpoint
/// closing again before the session is opened on it again asks for nothing.
pub proof fn closed_link_reconnects_once(session: Set<Seq<char>>, endpoint: Seq<char>)
    ensures
        !session.remove(endpoint).contains(endpoint),
        session.remove(endpoint).remove(endpoint) == session.remove(endpoint),
{
    assert(session.remove(endpoint).remove(endpoint) =~= session.remove(endpoint));
}

/// The endpoints of `peers` that are listed in `known`, in order.
fn keep_listed(peers: &Vec<String>, known: &Vec<String>) -> (r: Vec<String>)
    ensures
        views(r@) == keep_known(views(peers@), views(known@).to_set()),
{
    let mut r: Vec<String> = Vec::new();
    let mut i: usize = 0;
    while i < peers.len()
        invariant
            i <= peers@.len(),
            views(r@) == keep_known(views(peers@).take(i as int), views(known@).to_set()),
        decreases peers@.len() - i,
    {
        let ghost prev = views(r@);
        assert(views(peers@).take(i + 1).drop_last() =~= views(peers@).take(i as int));
        assert(views(peers@).take(i + 1).last() == peers@[i as int]@);
        if contains_string(known, &peers[i]) {
            r.push(peers[i].clone());
            assert(views(r@) =~= prev.push(peers@[i as int]@));
        }
        i = i + 1;
    }
    assert(views(peers@).take(i as int) =~= views(peers@));
    r
}

/// Endpoints to reconnect to, with retries.
pub struct ReconnectPlan {
    pub peers: Vec<String>,
    /// Stop at the first endpoint reached.
    pub stop_after_first: bool,
}

impl PeerDial {
    /// The next step.
    pub fn next_action(&self) -> (r: DialAction)
        ensures
            r == (if self.connected() {
                DialAction::Connected
            } else if continues(self.connected(), self.tried(), self.locators().len()) {
                DialAction::Try(self.locators()[self.tried() as int])
            } else {
                DialAction::GiveUp
            }),
    {
        proof {
            use_type_invariant(self);
        }
        if self.connected {
            DialAction::Connected
        } else if self.next < self.total {
            DialAction::Try(self.locators[self.next].clone())
        } else {
            DialAction::GiveUp
        }
    }

    /// Records whether the locator just tried opened a transport.
    pub fn record(&mut self, opened: bool)
        requires
            continues(old(self).connected(), old(self).tried(), old(self).locators().len()),
        ensures
            final(self).locators() == old(self).locators(),
            final(self).tried() == old(self).tried() + 1,
            final(self).connected() == opened,
            (final(self).tried(), final(self).connected()) == run_attempts(
                old(self).connected(),
                old(self).tried(),
                old(self).locators().len(),
                seq![opened],
            ),
    {
        proof {
            use_type_invariant(&*self);
        }
        assert(seq![opened].drop_first() =~= Seq::<bool>::empty());
        assert(run_attempts(opened, (self.next + 1) as nat, self.total as nat, Seq::<bool>::empty()) == (
        (self.next + 1) as nat, opened));
        self.connected = opened;
        self.next = self.next + 1;
    }
}

} // verus!
