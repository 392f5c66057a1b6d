//! Endpoints as the runtime's connection logic sees them: configured groups
//! of endpoints, and the set of endpoints that a session was opened on.
use vstd::prelude::*;

verus! {

/// The character sequences of a list of strings, in order.
pub open spec fn views(v: Seq<String>) -> Seq<Seq<char>> {
    v.map_values(|s: String| s@)
}

/// A configured group of endpoints to connect to.
pub struct EndPointGroup {
    /// The endpoints of the group, in the order they are configured.
    pub endpoints: Vec<String>,
    /// Whether the group asks for one of its endpoints only (a strategy that
    /// is not implemented: every endpoint is connected to).
    pub one_of: bool,
}

/// All endpoints of the groups, group after group.
pub open spec fn flatten(groups: Seq<EndPointGroup>) -> Seq<Seq<char>>
    decreases groups.len(),
{
    if groups.len() == 0 {
        Seq::empty()
    } else {
        flatten(groups.drop_last()) + views(groups.last().endpoints@)
    }
}

/// The endpoints of `peers` that `known` holds, in order.
pub open spec fn keep_known(peers: Seq<Seq<char>>, known: Set<Seq<char>>) -> Seq<Seq<char>>
    decreases peers.len(),
{
    if peers.len() == 0 {
        Seq::empty()
    } else if known.contains(peers.last()) {
        keep_known(peers.drop_last(), known).push(peers.last())
    } else {
        keep_known(peers.drop_last(), known)
    }
}

/// The number of endpoints in the groups, whatever their strategies.
pub open spec fn endpoint_count(groups: Seq<EndPointGroup>) -> nat
    decreases groups.len(),
{
    if groups.len() == 0 {
        0
    } else {
        endpoint_count(groups.drop_last()) + groups.last().endpoints@.len()
    }
}

/// Flattening the groups keeps every endpoint of every group, one-of groups
/// included (that strategy falls back to connecting to all), and adds none:
/// an endpoint is in the flattened list exactly when some group holds it, the
/// list is as long as all the groups together, and it is the groups' lists
/// joined one after the other, in the configured order.
pub proof fn flatten_keeps_every_endpoint(groups: Seq<EndPointGroup>)
    ensures
        flatten(groups).len() == endpoint_count(groups),
        flatten(groups) == groups.map_values(|g: EndPointGroup| views(g.endpoints@)).flatten(),
        forall|g: int, i: int|
            0 <= g < groups.len() && 0 <= i < groups[g].endpoints@.len() ==> flatten(
                groups,
            ).contains(#[trigger] groups[g].endpoints@[i]@),
        forall|x: Seq<char>|
            #[trigger] flatten(groups).contains(x) ==> exists|g: int, i: int|
                0 <= g < groups.len() && 0 <= i < groups[g].endpoints@.len()
                    && groups[g].endpoints@[i]@ == x,
    decreases groups.len(),
{
    let lists = groups.map_values(|g: EndPointGroup| views(g.endpoints@));
    lists.lemma_flatten_and_flatten_alt_are_equivalent();
    if groups.len() > 0 {
        let init = groups.drop_last();
        let last = groups.last();
        flatten_keeps_every_endpoint(init);
        init.map_values(|g: EndPointGroup| views(g.endpoints@)).lemma_flatten_and_flatten_alt_are_equivalent();
        assert(lists.drop_last() =~= init.map_values(|g: EndPointGroup| views(g.endpoints@)));
        let f = flatten(groups);
        let fi = flatten(init);
        let lv = views(last.endpoints@);
        assert(f == fi + lv);
        assert forall|g: int, i: int|
            0 <= g < groups.len() && 0 <= i < groups[g].endpoints@.len() implies f.contains(
            #[trigger] groups[g].endpoints@[i]@,
        ) by {
            if g < groups.len() - 1 {
                assert(init[g] == groups[g]);
                assert(fi.contains(init[g].endpoints@[i]@));
                let k = choose|k: int| 0 <= k < fi.len() && fi[k] == init[g].endpoints@[i]@;
                assert(f[k] == fi[k]);
            } else {
                assert(f[fi.len() + i] == lv[i]);
            }
        }
        assert forall|x: Seq<char>| #[trigger] f.contains(x) implies exists|g: int, i: int|
            0 <= g < groups.len() && 0 <= i < groups[g].endpoints@.len()
                && groups[g].endpoints@[i]@ == x by {
            let k = choose|k: int| 0 <= k < f.len() && f[k] == x;
            if k < fi.len() {
                assert(fi[k] == x);
                assert(fi.contains(x));
                let (g, i) = choose|g: int, i: int|
                    0 <= g < init.len() && 0 <= i < init[g].endpoints@.len()
                        && init[g].endpoints@[i]@ == x;
                assert(groups[g] == init[g]);
            } else {
                let i = k - fi.len();
                assert(lv[i] == x);
                assert(groups[groups.len() - 1] == last);
                assert(last.endpoints@[i]@ == x);
            }
        }
    }
}

/// The kept endpoints are exactly the endpoints of `peers` that `known`
/// holds, in the order of `peers`: none is lost, none is added and none is
/// moved.
pub proof fn keep_known_law(peers: Seq<Seq<char>>, known: Set<Seq<char>>)
    ensures
        forall|x: Seq<char>|
            #[trigger] keep_known(peers, known).contains(x) == (peers.contains(x) && known.contains(
                x,
            )),
        keep_known(peers, known).len() <= peers.len(),
        keep_known(peers, known) == peers.filter(|x: Seq<char>| known.contains(x)),
    decreases peers.len(),
{
    reveal(Seq::filter);
    if peers.len() > 0 {
        let init = peers.drop_last();
        let last = peers.last();
        keep_known_law(init, known);
        let k = keep_known(peers, known);
        let ki = keep_known(init, known);
        assert forall|x: Seq<char>| #[trigger] k.contains(x) == (peers.contains(x)
            && known.contains(x)) by {
            if k.contains(x) {
                let j = choose|j: int| 0 <= j < k.len() && k[j] == x;
                if j < ki.len() {
                    assert(ki[j] == x);
                    assert(ki.contains(x));
                    let m = choose|m: int| 0 <= m < init.len() && init[m] == x;
                    assert(peers[m] == x);
                } else {
                    assert(x == last);
                    assert(peers[peers.len() - 1] == x);
                }
            }
            if peers.contains(x) && known.contains(x) {
                let m = choose|m: int| 0 <= m < peers.len() && peers[m] == x;
                if m < peers.len() - 1 {
                    assert(init[m] == x);
                    assert(ki.contains(x));
                    let j = choose|j: int| 0 <= j < ki.len() && ki[j] == x;
                    if known.contains(last) {
                        assert(k[j] == x);
                    } else {
                        assert(k[j] == x);
                    }
                } else {
                    assert(last == x);
                    assert(k[k.len() - 1] == x);
                }
            }
        }
    }
}

/// All endpoints of the groups, group after group.
pub fn flatten_groups(groups: &Vec<EndPointGroup>) -> (r: Vec<String>)
    ensures
        views(r@) == flatten(groups@),
{
    let mut r: Vec<String> = Vec::new();
    let mut g: usize = 0;
    while g < groups.len()
        invariant
            g <= groups@.len(),
            views(r@) == flatten(groups@.take(g as int)),
        decreases groups@.len() - g,
    {
        let group = &groups[g];
        let ghost before = r@;
        let mut i: usize = 0;
        while i < group.endpoints.len()
            invariant
                i <= group.endpoints@.len(),
                views(r@) == views(before) + views(group.endpoints@.take(i as int)),
            decreases group.endpoints@.len() - i,
        {
            let ghost prev = r@;
            r.push(group.endpoints[i].clone());
            assert(views(r@) =~= views(prev) + seq![group.endpoints@[i as int]@]);
            assert(views(group.endpoints@.take(i + 1)) =~= views(group.endpoints@.take(i as int))
                + seq![group.endpoints@[i as int]@]);
            i = i + 1;
        }
        assert(group.endpoints@.take(i as int) =~= group.endpoints@);
        assert(groups@.take(g + 1).drop_last() =~= groups@.take(g as int));
        g = g + 1;
    }
    assert(groups@.take(g as int) =~= groups@);
    r
}

/// Whether `list` holds `item`.
pub fn contains_string(list: &Vec<String>, item: &String) -> (r: bool)
    ensures
        r == views(list@).contains(item@),
{
    let mut i: usize = 0;
    while i < list.len()
        invariant
            i <= list@.len(),
            forall|j: int| 0 <= j < i ==> list@[j]@ != item@,
        decreases list@.len() - i,
    {
        if list[i] == *item {
            assert(views(list@)[i as int] == item@);
            return true;
        }
        i = i + 1;
    }
    assert forall|j: int| 0 <= j < views(list@).len() implies views(list@)[j] != item@ by {
        assert(views(list@)[j] == list@[j]@);
    }
    false
}

/// The endpoints that a session was opened on: a set, held in the order the
/// endpoints were added.
pub struct SessionEndpoints {
    endpoints: Vec<String>,
}

impl View for SessionEndpoints {
    type V = Set<Seq<char>>;

    closed spec fn view(&self) -> Set<Seq<char>> {
        views(self.endpoints@).to_set()
    }
}

impl SessionEndpoints {
    #[verifier::type_invariant]
    spec fn no_duplicates(self) -> bool {
        views(self.endpoints@).no_duplicates()
    }

    /// No endpoints.
    pub fn new() -> (r: SessionEndpoints)
        ensures
            r@ == Set::<Seq<char>>::empty(),
    {
        let r = SessionEndpoints { endpoints: Vec::new() };
        assert(views(r.endpoints@).to_set() =~= Set::<Seq<char>>::empty());
        r
    }

    /// Whether the set is empty.
    pub fn is_empty(&self) -> (r: bool)
        ensures
            r == (self@ == Set::<Seq<char>>::empty()),
    {
        proof {
            if self.endpoints@.len() > 0 {
                assert(self@.contains(views(self.endpoints@)[0]));
            } else {
                assert(self@ =~= Set::<Seq<char>>::empty());
            }
        }
        self.endpoints.len() == 0
    }

    /// Whether the set holds `endpoint`.
    pub fn contains(&self, endpoint: &String) -> (r: bool)
        ensures
            r == self@.contains(endpoint@),
    {
        contains_string(&self.endpoints, endpoint)
    }

    /// Adds `endpoint` to the set; tells whether it was new.
    pub fn insert(&mut self, endpoint: String) -> (r: bool)
        ensures
            final(self)@ == old(self)@.insert(endpoint@),
            r == !old(self)@.contains(endpoint@),
    {
        proof {
            use_type_invariant(&*self);
        }
        if self.contains(&endpoint) {
            assert(self@.insert(endpoint@) =~= self@);
            false
        } else {
            let ghost before = views(self.endpoints@);
            let mut endpoints = Vec::new();
            std::mem::swap(&mut endpoints, &mut self.endpoints);
            let ghost e = endpoint@;
            endpoints.push(endpoint);
            assert(views(endpoints@) =~= before.push(e));
            proof {
                assert(!before.contains(e));
                assert(views(endpoints@).no_duplicates()) by {
                    assert forall|i: int, j: int|
                        0 <= i < views(endpoints@).len() && 0 <= j < views(endpoints@).len()
                            && i != j implies views(endpoints@)[i] != views(endpoints@)[j] by {
                        if i < before.len() && j < before.len() {
                        } else if i == before.len() {
                            assert(views(endpoints@)[j] == before[j]);
                        } else {
                            assert(views(endpoints@)[i] == before[i]);
                        }
                    }
                }
                let after = views(endpoints@);
                assert(after.to_set() =~= before.to_set().insert(e)) by {
                    assert forall|p: Seq<char>| #[trigger] before.to_set().insert(e).contains(p)
                        implies after.to_set().contains(p) by {
                        if p == e {
                            assert(after[before.len() as int] == p);
                        } else {
                            let k = choose|k: int| 0 <= k < before.len() && before[k] == p;
                            assert(after[k] == p);
                        }
                    }
                    assert forall|p: Seq<char>| #[trigger] after.to_set().contains(p)
                        implies before.to_set().insert(e).contains(p) by {
                        let k = choose|k: int| 0 <= k < after.len() && after[k] == p;
                        if k < before.len() {
                            assert(before[k] == p);
                        }
                    }
                }
            }
            self.endpoints = endpoints;
            true
        }
    }

    /// Removes `endpoint` from the set; tells whether it was there.
    pub fn remove(&mut self, endpoint: &String) -> (r: bool)
        ensures
            final(self)@ == old(self)@.remove(endpoint@),
            r == old(self)@.contains(endpoint@),
    {
        proof {
            use_type_invariant(&*self);
        }
        let ghost before = views(self.endpoints@);
        let mut i: usize = 0;
        while i < self.endpoints.len()
            invariant
                i <= self.endpoints@.len(),
                before == views(self.endpoints@),
                before.to_set() == old(self)@,
                before.no_duplicates(),
                forall|j: int| 0 <= j < i ==> before[j] != endpoint@,
            decreases self.endpoints@.len() - i,
        {
            if self.endpoints[i] == *endpoint {
                let mut endpoints = Vec::new();
                std::mem::swap(&mut endpoints, &mut self.endpoints);
                endpoints.remove(i);
                proof {
                    let after = views(endpoints@);
                    assert(before[i as int] == endpoint@);
                    assert(after =~= before.remove(i as int));
                    assert(after.no_duplicates()) by {
                        assert forall|a: int, b: int|
                            0 <= a < after.len() && 0 <= b < after.len() && a != b implies after[a]
                            != after[b] by {
                            let a2 = if a < i { a } else { a + 1 };
                            let b2 = if b < i { b } else { b + 1 };
                            assert(after[a] == before[a2]);
                            assert(after[b] == before[b2]);
                        }
                    }
                    assert(after.to_set() =~= before.to_set().remove(endpoint@)) by {
                        assert forall|p: Seq<char>| #[trigger]
                            before.to_set().remove(endpoint@).contains(p) implies after.to_set().contains(p) by {
                            let k = choose|k: int| 0 <= k < before.len() && before[k] == p;
                            assert(k != i);
                            let k2 = if k < i { k } else { k - 1 };
                            assert(after[k2] == p);
                        }
                        assert forall|p: Seq<char>| #[trigger] after.to_set().contains(p) implies before.to_set().remove(endpoint@).contains(p) by {
                            let k = choose|k: int| 0 <= k < after.len() && after[k] == p;
                            let k2 = if k < i { k } else { k + 1 };
                            assert(before[k2] == p);
                            assert(k2 != i);
                        }
                    }
                    assert(before.to_set().contains(endpoint@)) by {
                        assert(before[i as int] == endpoint@);
                    }
                }
                self.endpoints = endpoints;
                return true;
            }
            i = i + 1;
        }
        proof {
            assert(!before.to_set().contains(endpoint@));
            assert(before.to_set().remove(endpoint@) =~= before.to_set());
        }
        false
    }

    /// Empties the set and hands out what it held, each endpoint once.
    pub fn take_all(&mut self) -> (r: Vec<String>)
        ensures
            final(self)@ == Set::<Seq<char>>::empty(),
            views(r@).to_set() == old(self)@,
            views(r@).no_duplicates(),
    {
        proof {
            use_type_invariant(&*self);
        }
        let mut taken = Vec::new();
        std::mem::swap(&mut taken, &mut self.endpoints);
        assert(views(self.endpoints@).to_set() =~= Set::<Seq<char>>::empty());
        taken
    }
}

} // verus!
