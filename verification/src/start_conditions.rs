//! The bookkeeping of a runtime's peer connectors: one entry per configured
//! or discovered peer that the runtime is connecting to. The runtime's start
//! is released once every connector has terminated.
use vstd::prelude::*;

verus! {

/// One peer connector: the identifier of the peer it reached, once known,
/// and whether it has terminated.
#[derive(Clone, Copy, Debug, PartialEq, Eq, Structural)]
pub struct PeerConnector {
    pub zid: Option<u128>,
    pub terminated: bool,
}

/// A change to the list of peer connectors.
pub enum ConnectorEvent {
    /// A connector for a peer whose identifier is not known yet.
    Add,
    /// A connector for the peer with this identifier, unless there is one.
    AddZid(u128),
    /// The connector at this index reached the peer with this identifier.
    SetZid(usize, u128),
    /// The connector at this index terminated.
    Terminate(usize),
    /// The connector of the peer with this identifier terminated.
    TerminateZid(u128),
}

/// Every connector has terminated.
pub open spec fn all_terminated(s: Seq<PeerConnector>) -> bool {
    forall|i: int| 0 <= i < s.len() ==> #[trigger] s[i].terminated
}

/// Some connector belongs to the peer `zid`.
pub open spec fn has_zid(s: Seq<PeerConnector>, zid: u128) -> bool {
    exists|i: int| 0 <= i < s.len() && #[trigger] s[i].zid == Some(zid)
}

/// `i` is the first connector that belongs to the peer `zid`.
pub open spec fn is_first_zid(s: Seq<PeerConnector>, zid: u128, i: int) -> bool {
    &&& 0 <= i < s.len()
    &&& s[i].zid == Some(zid)
    &&& forall|j: int| 0 <= j < i ==> #[trigger] s[j].zid != Some(zid)
}

/// The connectors after `event`.
pub open spec fn apply(s: Seq<PeerConnector>, event: ConnectorEvent) -> Seq<PeerConnector> {
    match event {
        ConnectorEvent::Add => s.push(PeerConnector { zid: None, terminated: false }),
        ConnectorEvent::AddZid(zid) => if has_zid(s, zid) {
            s
        } else {
            s.push(PeerConnector { zid: Some(zid), terminated: false })
        },
        ConnectorEvent::SetZid(idx, zid) => if idx < s.len() {
            s.update(idx as int, PeerConnector { zid: Some(zid), terminated: s[idx as int].terminated })
        } else {
            s
        },
        ConnectorEvent::Terminate(idx) => if idx < s.len() {
            s.update(idx as int, PeerConnector { zid: s[idx as int].zid, terminated: true })
        } else {
            s
        },
        ConnectorEvent::TerminateZid(zid) => if has_zid(s, zid) {
            let i = choose|i: int| is_first_zid(s, zid, i);
            s.update(i, PeerConnector { zid: s[i].zid, terminated: true })
        } else {
            s.push(PeerConnector { zid: Some(zid), terminated: true })
        },
    }
}

/// The first connector of a peer is unique and exists as soon as any does.
pub proof fn first_zid_exists_and_is_unique(s: Seq<PeerConnector>, zid: u128)
    requires
        has_zid(s, zid),
    ensures
        exists|i: int| is_first_zid(s, zid, i),
        forall|i: int, j: int| is_first_zid(s, zid, i) && is_first_zid(s, zid, j) ==> i == j,
    decreases s.len(),
{
    let k = choose|k: int| 0 <= k < s.len() && #[trigger] s[k].zid == Some(zid);
    if exists|j: int| 0 <= j < k && #[trigger] s[j].zid == Some(zid) {
        let j = choose|j: int| 0 <= j < k && #[trigger] s[j].zid == Some(zid);
        let t = s.take(k);
        assert(t[j].zid == Some(zid));
        first_zid_exists_and_is_unique(t, zid);
        let i = choose|i: int| is_first_zid(t, zid, i);
        assert(is_first_zid(s, zid, i)) by {
            assert forall|m: int| 0 <= m < i implies #[trigger] s[m].zid != Some(zid) by {
                assert(t[m].zid != Some(zid));
            }
        }
    } else {
        assert(is_first_zid(s, zid, k));
    }
    assert forall|i: int, j: int| is_first_zid(s, zid, i) && is_first_zid(s, zid, j) implies i
        == j by {
        if i < j {
            assert(s[i].zid != Some(zid));
        } else if j < i {
            assert(s[j].zid != Some(zid));
        }
    }
}

/// Adding a connector for a peer changes nothing when some connector,
/// terminated or not, already belongs to that peer, and otherwise adds exactly
/// one connector, not terminated, for it at the end. Adding it a second time
/// changes nothing, so that a start once released stays released.
pub proof fn add_peer_connector_zid_law(s: Seq<PeerConnector>, zid: u128)
    ensures
        (exists|i: int| 0 <= i < s.len() && #[trigger] s[i].zid == Some(zid)) ==> apply(
            s,
            ConnectorEvent::AddZid(zid),
        ) == s,
        !(exists|i: int| 0 <= i < s.len() && #[trigger] s[i].zid == Some(zid)) ==> apply(
            s,
            ConnectorEvent::AddZid(zid),
        ) == s.push(PeerConnector { zid: Some(zid), terminated: false }),
        apply(apply(s, ConnectorEvent::AddZid(zid)), ConnectorEvent::AddZid(zid)) == apply(
            s,
            ConnectorEvent::AddZid(zid),
        ),
        (exists|i: int| 0 <= i < s.len() && #[trigger] s[i].zid == Some(zid)) && all_terminated(s)
            ==> all_terminated(apply(s, ConnectorEvent::AddZid(zid))),
{
    let t = apply(s, ConnectorEvent::AddZid(zid));
    if !has_zid(s, zid) {
        assert(t[s.len() as int].zid == Some(zid));
        assert(has_zid(t, zid));
    }
}

/// The peer connectors of a runtime.
pub struct StartConditions {
    peer_connectors: Vec<PeerConnector>,
}

impl View for StartConditions {
    type V = Seq<PeerConnector>;

    closed spec fn view(&self) -> Seq<PeerConnector> {
        self.peer_connectors@
    }
}

impl StartConditions {
    /// No connectors.
    pub fn new() -> (r: StartConditions)
        ensures
            r@ == Seq::<PeerConnector>::empty(),
    {
        StartConditions { peer_connectors: Vec::new() }
    }

    /// Whether every connector has terminated.
    pub fn all_terminated(&self) -> (r: bool)
        ensures
            r == all_terminated(self@),
    {
        let mut i: usize = 0;
        while i < self.peer_connectors.len()
            invariant
                i <= self@.len(),
                forall|j: int| 0 <= j < i ==> #[trigger] self@[j].terminated,
            decreases self@.len() - i,
        {
            if !self.peer_connectors[i].terminated {
                return false;
            }
            i = i + 1;
        }
        true
    }

    /// The index of the first connector of the peer `zid`, if there is one.
    fn find_zid(&self, zid: u128) -> (r: Option<usize>)
        ensures
            match r {
                Some(i) => is_first_zid(self@, zid, i as int),
                None => !has_zid(self@, zid),
            },
    {
        let mut i: usize = 0;
        while i < self.peer_connectors.len()
            invariant
                i <= self@.len(),
                forall|j: int| 0 <= j < i ==> #[trigger] self@[j].zid != Some(zid),
            decreases self@.len() - i,
        {
            match self.peer_connectors[i].zid {
                Some(z) => {
                    if z == zid {
                        return Some(i);
                    }
                },
                None => {},
            }
            i = i + 1;
        }
        None
    }

    /// Adds a connector whose peer is not known yet and returns its index.
    pub fn add_peer_connector(&mut self) -> (idx: usize)
        ensures
            final(self)@ == apply(old(self)@, ConnectorEvent::Add),
            idx == old(self)@.len(),
    {
        self.peer_connectors.push(PeerConnector { zid: None, terminated: false });
        self.peer_connectors.len() - 1
    }

    /// Adds a connector for the peer `zid`, unless one is there already.
    pub fn add_peer_connector_zid(&mut self, zid: u128)
        ensures
            final(self)@ == apply(old(self)@, ConnectorEvent::AddZid(zid)),
    {
        if self.find_zid(zid).is_none() {
            self.peer_connectors.push(PeerConnector { zid: Some(zid), terminated: false });
        }
    }

    /// Records that the connector at `idx` reached the peer `zid`; an index
    /// out of range changes nothing.
    pub fn set_peer_connector_zid(&mut self, idx: usize, zid: u128)
        ensures
            final(self)@ == apply(old(self)@, ConnectorEvent::SetZid(idx, zid)),
    {
        if idx < self.peer_connectors.len() {
            let terminated = self.peer_connectors[idx].terminated;
            self.peer_connectors.set(idx, PeerConnector { zid: Some(zid), terminated });
        }
    }

    /// Marks the connector at `idx` terminated (an index out of range
    /// changes nothing) and tells whether every connector has now terminated,
    /// which is when the runtime's start is to be released.
    pub fn terminate_peer_connector(&mut self, idx: usize) -> (notify: bool)
        ensures
            final(self)@ == apply(old(self)@, ConnectorEvent::Terminate(idx)),
            notify == all_terminated(final(self)@),
    {
        if idx < self.peer_connectors.len() {
            let zid = self.peer_connectors[idx].zid;
            self.peer_connectors.set(idx, PeerConnector { zid, terminated: true });
        }
        self.all_terminated()
    }

    /// Marks the first connector of the peer `zid` terminated, or adds a
    /// terminated one for it when there is none, and tells whether every
    /// connector has now terminated.
    pub fn terminate_peer_connector_zid(&mut self, zid: u128) -> (notify: bool)
        ensures
            final(self)@ == apply(old(self)@, ConnectorEvent::TerminateZid(zid)),
            notify == all_terminated(final(self)@),
    {
        match self.find_zid(zid) {
            Some(i) => {
                proof {
                    first_zid_exists_and_is_unique(self@, zid);
                }
                let old_zid = self.peer_connectors[i].zid;
                self.peer_connectors.set(i, PeerConnector { zid: old_zid, terminated: true });
            },
            None => {
                self.peer_connectors.push(PeerConnector { zid: Some(zid), terminated: true });
            },
        }
        self.all_terminated()
    }
}

/// No change to the connectors removes one or brings a terminated one back:
/// the list only grows, and a connector that has terminated stays terminated
/// and keeps the peer it belongs to, unless a new identifier is set for it.
pub proof fn connectors_grow_and_stay_terminated(s: Seq<PeerConnector>, event: ConnectorEvent)
    ensures
        apply(s, event).len() >= s.len(),
        forall|i: int| 0 <= i < s.len() && #[trigger] s[i].terminated ==> apply(s, event)[i].terminated,
        forall|i: int|
            0 <= i < s.len() && !(event matches ConnectorEvent::SetZid(idx, _) && idx == i)
                ==> #[trigger] apply(s, event)[i].zid == s[i].zid,
{
    if let ConnectorEvent::TerminateZid(zid) = event {
        if has_zid(s, zid) {
            first_zid_exists_and_is_unique(s, zid);
        }
    }
}

/// After a connector of the peer `zid` terminates, the list holds a
/// terminated connector of that peer.
pub proof fn terminated_peer_is_recorded(s: Seq<PeerConnector>, zid: u128)
    ensures
        exists|i: int|
            0 <= i < apply(s, ConnectorEvent::TerminateZid(zid)).len() && #[trigger] apply(
                s,
                ConnectorEvent::TerminateZid(zid),
            )[i] == (PeerConnector { zid: Some(zid), terminated: true }),
{
    let t = apply(s, ConnectorEvent::TerminateZid(zid));
    if has_zid(s, zid) {
        first_zid_exists_and_is_unique(s, zid);
        let i = choose|i: int| is_first_zid(s, zid, i);
        assert(t[i] == PeerConnector { zid: Some(zid), terminated: true });
    } else {
        assert(t[s.len() as int] == PeerConnector { zid: Some(zid), terminated: true });
    }
}

/// Each change touches one connector and leaves the others as they were.
/// A new connector has not terminated, so that it holds the start back until
/// it does. Setting an identifier changes the peer of the connector at that
/// index and not whether it terminated; terminating a connector marks it
/// terminated and keeps its peer; an index out of range changes nothing.
/// Terminating a peer marks its first connector terminated, or adds a
/// terminated connector for it when it has none.
pub proof fn each_event_touches_one_connector(s: Seq<PeerConnector>, event: ConnectorEvent)
    ensures
        event is Add ==> {
            &&& apply(s, event).len() == s.len() + 1
            &&& apply(s, event).take(s.len() as int) == s
            &&& apply(s, event)[s.len() as int].zid is None
            &&& !apply(s, event)[s.len() as int].terminated
            &&& !all_terminated(apply(s, event))
        },
        event matches ConnectorEvent::SetZid(idx, zid) ==> if idx < s.len() {
            &&& apply(s, event).len() == s.len()
            &&& apply(s, event)[idx as int].zid == Some(zid)
            &&& apply(s, event)[idx as int].terminated == s[idx as int].terminated
            &&& forall|j: int| 0 <= j < s.len() && j != idx ==> #[trigger] apply(s, event)[j] == s[j]
        } else {
            apply(s, event) == s
        },
        event matches ConnectorEvent::Terminate(idx) ==> if idx < s.len() {
            &&& apply(s, event).len() == s.len()
            &&& apply(s, event)[idx as int].terminated
            &&& apply(s, event)[idx as int].zid == s[idx as int].zid
            &&& forall|j: int| 0 <= j < s.len() && j != idx ==> #[trigger] apply(s, event)[j] == s[j]
        } else {
            apply(s, event) == s
        },
        event matches ConnectorEvent::TerminateZid(zid) ==> if has_zid(s, zid) {
            exists|i: int|
                {
                    &&& 0 <= i < s.len()
                    &&& s[i].zid == Some(zid)
                    &&& forall|j: int| 0 <= j < i ==> #[trigger] s[j].zid != Some(zid)
                    &&& apply(s, event) == s.update(i, PeerConnector { zid: Some(zid), terminated: true })
                }
        } else {
            apply(s, event) == s.push(PeerConnector { zid: Some(zid), terminated: true })
        },
{
    match event {
        ConnectorEvent::Add => {
            let t = apply(s, event);
            assert(t.take(s.len() as int) =~= s);
            assert(!t[s.len() as int].terminated);
        },
        ConnectorEvent::TerminateZid(zid) => {
            if has_zid(s, zid) {
                first_zid_exists_and_is_unique(s, zid);
                let i = choose|i: int| is_first_zid(s, zid, i);
                assert(apply(s, event) == s.update(i, PeerConnector { zid: Some(zid), terminated: true }));
            }
        },
        _ => {},
    }
}

/// Terminating the one connector that had not terminated releases the start.
pub proof fn last_termination_releases_the_start(s: Seq<PeerConnector>, idx: usize)
    requires
        idx < s.len(),
        forall|j: int| 0 <= j < s.len() && j != idx ==> #[trigger] s[j].terminated,
    ensures
        all_terminated(apply(s, ConnectorEvent::Terminate(idx))),
{
}

} // verus!
