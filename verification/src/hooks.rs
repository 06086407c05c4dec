use vstd::prelude::*;
use vstd::string::*;
use crate::text::str_eq;

verus! {

/// A rigid body as the physics world identifies it: the slot it occupies
/// and the generation of that slot.
#[derive(Debug, Clone, Copy, PartialEq, Eq, Structural)]
pub struct LuaRigidBodyHandle {
    pub index: u32,
    pub generation: u32,
}

/// Whether two handles name the same body.
pub fn same_body(a: LuaRigidBodyHandle, b: LuaRigidBodyHandle) -> (r: bool)
    ensures
        r == (a == b),
{
    a.index == b.index && a.generation == b.generation
}

/// A named group of bodies.
#[derive(Debug, Clone)]
pub struct PairGroup {
    pub name: String,
    pub members: Vec<LuaRigidBodyHandle>,
}

/// Named groups of bodies; no name occurs twice.
#[derive(Debug, Clone, Default)]
pub struct PairGroups {
    groups: Vec<PairGroup>,
}

/// Some group of `s` is called `n`.
pub open spec fn has_group(s: Seq<PairGroup>, n: Seq<char>) -> bool {
    exists|i: int| 0 <= i < s.len() && s[i].name@ == n
}

/// No two groups of `s` share a name.
pub open spec fn unique_names(s: Seq<PairGroup>) -> bool {
    forall|i: int, j: int| 0 <= i < s.len() && 0 <= j < s.len() && i != j ==> s[i].name@ != s[j].name@
}

/// The members of the group of `s` called `n`.
pub open spec fn members_of(s: Seq<PairGroup>, n: Seq<char>) -> Set<LuaRigidBodyHandle> {
    let i = choose|i: int| 0 <= i < s.len() && s[i].name@ == n;
    s[i].members@.to_set()
}

/// The groups of `s` as a map from name to members.
pub open spec fn groups_map(s: Seq<PairGroup>) -> Map<Seq<char>, Set<LuaRigidBodyHandle>> {
    Map::new(|n: Seq<char>| has_group(s, n), |n: Seq<char>| members_of(s, n))
}

/// Whether some group of `m` holds both bodies.
pub open spec fn grouped_together(
    m: Map<Seq<char>, Set<LuaRigidBodyHandle>>,
    a: LuaRigidBodyHandle,
    b: LuaRigidBodyHandle,
) -> bool {
    exists|n: Seq<char>| m.dom().contains(n) && m[n].contains(a) && m[n].contains(b)
}

/// With unique names, the group called `n` is the one at any index that
/// carries that name.
proof fn lemma_members_at(s: Seq<PairGroup>, n: Seq<char>, i: int)
    requires
        unique_names(s),
        0 <= i < s.len(),
        s[i].name@ == n,
    ensures
        members_of(s, n) == s[i].members@.to_set(),
{
    let j = choose|j: int| 0 <= j < s.len() && s[j].name@ == n;
    assert(j == i);
}

/// Whether `v` holds the body `h`.
fn holds(v: &Vec<LuaRigidBodyHandle>, h: LuaRigidBodyHandle) -> (r: bool)
    ensures
        r == v@.contains(h),
{
    let mut k: usize = 0;
    while k < v.len()
        invariant
            k <= v.len(),
            forall|x: int| 0 <= x < k ==> v@[x] != h,
        decreases v.len() - k,
    {
        if same_body(v[k], h) {
            assert(v@[k as int] == h);
            return true;
        }
        k = k + 1;
    }
    false
}

impl PairGroups {
    /// The groups by name.
    pub closed spec fn view_map(&self) -> Map<Seq<char>, Set<LuaRigidBodyHandle>> {
        groups_map(self.groups@)
    }

    /// No name occurs twice.
    pub closed spec fn wf(&self) -> bool {
        unique_names(self.groups@)
    }

    /// No groups.
    pub fn new() -> (r: Self)
        ensures
            r.wf(),
            r.view_map() == Map::<Seq<char>, Set<LuaRigidBodyHandle>>::empty(),
    {
        let r = PairGroups { groups: Vec::new() };
        assert(r.view_map() =~= Map::<Seq<char>, Set<LuaRigidBodyHandle>>::empty());
        r
    }

    /// Where the group called `name` is, if there is one.
    fn find(&self, name: &str) -> (r: Option<usize>)
        ensures
            match r {
                Some(i) => i < self.groups.len() && self.groups@[i as int].name@ == name@,
                None => !has_group(self.groups@, name@),
            },
    {
        let mut k: usize = 0;
        while k < self.groups.len()
            invariant
                k <= self.groups.len(),
                forall|x: int| 0 <= x < k ==> self.groups@[x].name@ != name@,
            decreases self.groups.len() - k,
        {
            if str_eq(self.groups[k].name.as_str(), name) {
                return Some(k);
            }
            k = k + 1;
        }
        None
    }

    /// Whether there are no groups.
    pub fn is_empty(&self) -> (r: bool)
        ensures
            r == (self.view_map().dom() =~= Set::<Seq<char>>::empty()),
    {
        proof {
            if self.groups.len() > 0 {
                assert(self.view_map().dom().contains(self.groups@[0].name@));
            }
        }
        self.groups.len() == 0
    }

    /// Removes the group called `name`, if there is one.
    pub fn remove(&mut self, name: &str)
        requires
            old(self).wf(),
        ensures
            final(self).wf(),
            final(self).view_map() == old(self).view_map().remove(name@),
    {
        match self.find(name) {
            None => {
                assert(self.view_map() =~= old(self).view_map().remove(name@));
            },
            Some(i) => {
                let ghost s = self.groups@;
                self.groups.remove(i);
                let ghost t = self.groups@;
                assert(t =~= s.remove(i as int));
                proof {
                    assert forall|n: Seq<char>| has_group(t, n) <==> has_group(s, n) && n != name@ by {
                        if has_group(t, n) {
                            let x = choose|x: int| 0 <= x < t.len() && t[x].name@ == n;
                            if x < i {
                                assert(s[x].name@ == n);
                            } else {
                                assert(s[x + 1].name@ == n);
                            }
                        }
                        if has_group(s, n) && n != name@ {
                            let x = choose|x: int| 0 <= x < s.len() && s[x].name@ == n;
                            if x < i {
                                assert(t[x].name@ == n);
                            } else {
                                assert(x != i);
                                assert(t[x - 1].name@ == n);
                            }
                        }
                    }
                    assert forall|n: Seq<char>| has_group(t, n) implies members_of(t, n)
                        == members_of(s, n) by {
                        let x = choose|x: int| 0 <= x < t.len() && t[x].name@ == n;
                        lemma_members_at(t, n, x);
                        if x < i {
                            lemma_members_at(s, n, x);
                        } else {
                            lemma_members_at(s, n, x + 1);
                        }
                    }
                    assert(self.view_map() =~= old(self).view_map().remove(name@));
                }
            },
        }
    }

    /// Adds a group called `name` holding `members`; a group of that name
    /// that was there before is replaced.
    pub fn insert(&mut self, name: String, members: Vec<LuaRigidBodyHandle>)
        requires
            old(self).wf(),
        ensures
            final(self).wf(),
            final(self).view_map() == old(self).view_map().insert(name@, members@.to_set()),
    {
        self.remove(name.as_str());
        let ghost s = self.groups@;
        let ghost nv = name@;
        let ghost mv = members@;
        self.groups.push(PairGroup { name, members });
        let ghost t = self.groups@;
        proof {
            assert(t == s.push(PairGroup { name: t[s.len() as int].name, members: t[s.len() as int].members }));
            assert(t[s.len() as int].name@ == nv);
            assert(!has_group(s, nv)) by {
                if has_group(s, nv) {
                    assert(groups_map(s).dom().contains(nv));
                }
            }
            assert forall|a: int, b: int|
                0 <= a < t.len() && 0 <= b < t.len() && a != b implies t[a].name@ != t[b].name@ by {
                if a == s.len() {
                    assert(s[b].name@ != nv);
                } else if b == s.len() {
                    assert(s[a].name@ != nv);
                }
            }
            assert forall|n: Seq<char>| has_group(t, n) <==> has_group(s, n) || n == nv by {
                if has_group(s, n) {
                    let x = choose|x: int| 0 <= x < s.len() && s[x].name@ == n;
                    assert(t[x].name@ == n);
                }
                if n == nv {
                    assert(t[s.len() as int].name@ == n);
                }
                if has_group(t, n) && n != nv {
                    let x = choose|x: int| 0 <= x < t.len() && t[x].name@ == n;
                    assert(x < s.len());
                    assert(s[x].name@ == n);
                }
            }
            assert forall|n: Seq<char>| has_group(t, n) implies members_of(t, n) == (if n == nv {
                mv.to_set()
            } else {
                members_of(s, n)
            }) by {
                if n == nv {
                    lemma_members_at(t, n, s.len() as int);
                } else {
                    let x = choose|x: int| 0 <= x < t.len() && t[x].name@ == n;
                    assert(x < s.len());
                    lemma_members_at(t, n, x);
                    lemma_members_at(s, n, x);
                }
            }
            let target = old(self).view_map().insert(nv, mv.to_set());
            assert(groups_map(s) == old(self).view_map().remove(nv));
            assert forall|n: Seq<char>| #[trigger] target.dom().contains(n) == has_group(t, n) by {
                if n != nv {
                    assert(groups_map(s).dom().contains(n) == has_group(s, n));
                }
            }
            assert forall|n: Seq<char>| has_group(t, n) implies #[trigger] groups_map(t)[n]
                == target[n] by {
                if n != nv {
                    assert(groups_map(s)[n] == members_of(s, n));
                    assert(groups_map(s).dom().contains(n));
                    assert(old(self).view_map().remove(nv)[n] == old(self).view_map()[n]);
                }
            }
            assert(groups_map(t) =~= target);
        }
    }

    /// The names of the groups, each once.
    pub fn names(&self) -> (r: Vec<String>)
        requires
            self.wf(),
        ensures
            r.len() == self.view_map().dom().len(),
            forall|n: Seq<char>| self.view_map().dom().contains(n) <==> exists|i: int|
                0 <= i < r.len() && r@[i]@ == n,
            forall|i: int, j: int| 0 <= i < j < r.len() ==> r@[i]@ != r@[j]@,
    {
        let mut out: Vec<String> = Vec::new();
        let mut k: usize = 0;
        while k < self.groups.len()
            invariant
                k <= self.groups.len(),
                out.len() == k,
                forall|x: int| 0 <= x < k ==> out@[x]@ == self.groups@[x].name@,
            decreases self.groups.len() - k,
        {
            out.push(crate::text::to_string(self.groups[k].name.as_str()));
            k = k + 1;
        }
        proof {
            let s = self.groups@;
            let names = s.map_values(|g: PairGroup| g.name@);
            assert forall|n: Seq<char>| self.view_map().dom().contains(n) <==> names.contains(n) by {
                if has_group(s, n) {
                    let x = choose|x: int| 0 <= x < s.len() && s[x].name@ == n;
                    assert(names[x] == n);
                }
                if names.contains(n) {
                    let x = choose|x: int| 0 <= x < names.len() && names[x] == n;
                    assert(s[x].name@ == n);
                }
            }
            assert(names.no_duplicates());
            names.unique_seq_to_set();
            assert(self.view_map().dom() =~= names.to_set());
            assert forall|n: Seq<char>| self.view_map().dom().contains(n) <==> exists|i: int|
                0 <= i < out.len() && out@[i]@ == n by {
                if has_group(s, n) {
                    let x = choose|x: int| 0 <= x < s.len() && s[x].name@ == n;
                    assert(out@[x]@ == n);
                }
            }
        }
        out
    }

    /// Whether one group holds both bodies.
    pub fn together(&self, a: LuaRigidBodyHandle, b: LuaRigidBodyHandle) -> (r: bool)
        requires
            self.wf(),
        ensures
            r == grouped_together(self.view_map(), a, b),
    {
        let mut k: usize = 0;
        while k < self.groups.len()
            invariant
                k <= self.groups.len(),
                unique_names(self.groups@),
                forall|x: int|
                    0 <= x < k ==> !(self.groups@[x].members@.contains(a)
                        && self.groups@[x].members@.contains(b)),
            decreases self.groups.len() - k,
        {
            if holds(&self.groups[k].members, a) && holds(&self.groups[k].members, b) {
                proof {
                    let s = self.groups@;
                    let n = s[k as int].name@;
                    lemma_members_at(s, n, k as int);
                    assert(s[k as int].members@.to_set().contains(a));
                    assert(s[k as int].members@.to_set().contains(b));
                    assert(self.view_map().dom().contains(n));
                }
                return true;
            }
            k = k + 1;
        }
        proof {
            let s = self.groups@;
            if grouped_together(self.view_map(), a, b) {
                let n = choose|n: Seq<char>|
                    self.view_map().dom().contains(n) && self.view_map()[n].contains(a)
                        && self.view_map()[n].contains(b);
                let x = choose|x: int| 0 <= x < s.len() && s[x].name@ == n;
                lemma_members_at(s, n, x);
                assert(s[x].members@.contains(a));
                assert(s[x].members@.contains(b));
            }
        }
        false
    }
}

/// What the contact filter decides for a pair of colliders.
#[derive(Debug, Clone, Copy, PartialEq, Eq, Structural)]
pub enum ContactFilter {
    /// Contacts are computed and resolved with impulses.
    ComputeImpulses,
    /// Contacts are computed but the solver applies no impulse.
    NoImpulses,
}

/// Decides which pairs of bodies touch: bodies that share a contact filter
/// group get no impulses from each other, and bodies that share an
/// intersection group do not intersect.
#[derive(Debug, Clone, Default)]
pub struct LuaPhysicsHooks {
    contact_pair_group: PairGroups,
    intersection_pair_group: PairGroups,
}

impl LuaPhysicsHooks {
    /// The contact filter groups by name.
    pub closed spec fn contact_groups(&self) -> Map<Seq<char>, Set<LuaRigidBodyHandle>> {
        self.contact_pair_group.view_map()
    }

    /// The intersection groups by name.
    pub closed spec fn intersection_groups(&self) -> Map<Seq<char>, Set<LuaRigidBodyHandle>> {
        self.intersection_pair_group.view_map()
    }

    /// No group name occurs twice in either table.
    pub closed spec fn wf(&self) -> bool {
        self.contact_pair_group.wf() && self.intersection_pair_group.wf()
    }

    /// Hooks with no groups.
    pub fn new() -> (r: Self)
        ensures
            r.wf(),
            r.contact_groups() == Map::<Seq<char>, Set<LuaRigidBodyHandle>>::empty(),
            r.intersection_groups() == Map::<Seq<char>, Set<LuaRigidBodyHandle>>::empty(),
    {
        LuaPhysicsHooks { contact_pair_group: PairGroups::new(), intersection_pair_group: PairGroups::new() }
    }

    /// Adds (or replaces) the intersection group called `name`.
    pub fn add_ignore_intersection_group(&mut self, name: String, group: Vec<LuaRigidBodyHandle>)
        requires
            old(self).wf(),
        ensures
            final(self).wf(),
            final(self).intersection_groups() == old(self).intersection_groups().insert(
                name@,
                group@.to_set(),
            ),
            final(self).contact_groups() == old(self).contact_groups(),
    {
        self.intersection_pair_group.insert(name, group);
    }

    /// Adds (or replaces) the contact filter group called `name`.
    pub fn add_contact_filter_group(&mut self, name: String, group: Vec<LuaRigidBodyHandle>)
        requires
            old(self).wf(),
        ensures
            final(self).wf(),
            final(self).contact_groups() == old(self).contact_groups().insert(
                name@,
                group@.to_set(),
            ),
            final(self).intersection_groups() == old(self).intersection_groups(),
    {
        self.contact_pair_group.insert(name, group);
    }

    /// The names of the intersection groups, each once.
    pub fn list_ignore_intersection_group(&self) -> (r: Vec<String>)
        requires
            self.wf(),
        ensures
            r.len() == self.intersection_groups().dom().len(),
            forall|n: Seq<char>| self.intersection_groups().dom().contains(n) <==> exists|i: int|
                0 <= i < r.len() && r@[i]@ == n,
            forall|i: int, j: int| 0 <= i < j < r.len() ==> r@[i]@ != r@[j]@,
    {
        self.intersection_pair_group.names()
    }

    /// The names of the contact filter groups, each once.
    pub fn list_contact_filter_groups(&self) -> (r: Vec<String>)
        requires
            self.wf(),
        ensures
            r.len() == self.contact_groups().dom().len(),
            forall|n: Seq<char>| self.contact_groups().dom().contains(n) <==> exists|i: int|
                0 <= i < r.len() && r@[i]@ == n,
            forall|i: int, j: int| 0 <= i < j < r.len() ==> r@[i]@ != r@[j]@,
    {
        self.contact_pair_group.names()
    }

    /// Removes the intersection group called `name`, if there is one.
    pub fn remove_ignore_intersection_group(&mut self, name: String)
        requires
            old(self).wf(),
        ensures
            final(self).wf(),
            final(self).intersection_groups() == old(self).intersection_groups().remove(name@),
            final(self).contact_groups() == old(self).contact_groups(),
    {
        self.intersection_pair_group.remove(name.as_str());
    }

    /// Removes the contact filter group called `name`, if there is one.
    pub fn remove_contact_filter_group(&mut self, name: String)
        requires
            old(self).wf(),
        ensures
            final(self).wf(),
            final(self).contact_groups() == old(self).contact_groups().remove(name@),
            final(self).intersection_groups() == old(self).intersection_groups(),
    {
        self.contact_pair_group.remove(name.as_str());
    }

    /// The solver's treatment of a contact between two colliders, given the
    /// bodies they are attached to: no impulses between two bodies of one
    /// contact filter group; impulses otherwise, and always when a collider
    /// has no body.
    pub fn filter_contact_pair(
        &self,
        rigid_body1: Option<LuaRigidBodyHandle>,
        rigid_body2: Option<LuaRigidBodyHandle>,
    ) -> (r: ContactFilter)
        requires
            self.wf(),
        ensures
            r == ContactFilter::NoImpulses <==> (rigid_body1 matches Some(a) && rigid_body2 matches Some(
                b,
            ) && grouped_together(self.contact_groups(), a, b)),
    {
        if self.contact_pair_group.is_empty() {
            return ContactFilter::ComputeImpulses;
        }
        match (rigid_body1, rigid_body2) {
            (Some(a), Some(b)) => {
                if self.contact_pair_group.together(a, b) {
                    ContactFilter::NoImpulses
                } else {
                    ContactFilter::ComputeImpulses
                }
            },
            _ => ContactFilter::ComputeImpulses,
        }
    }

    /// Whether two colliders may intersect, given the bodies they are
    /// attached to: not when both bodies share an intersection group.
    pub fn filter_intersection_pair(
        &self,
        rigid_body1: Option<LuaRigidBodyHandle>,
        rigid_body2: Option<LuaRigidBodyHandle>,
    ) -> (r: bool)
        requires
            self.wf(),
        ensures
            !r <==> (rigid_body1 matches Some(a) && rigid_body2 matches Some(b) && grouped_together(
                self.intersection_groups(),
                a,
                b,
            )),
    {
        if self.intersection_pair_group.is_empty() {
            return true;
        }
        match (rigid_body1, rigid_body2) {
            (Some(a), Some(b)) => !self.intersection_pair_group.together(a, b),
            _ => true,
        }
    }
}

/// Two bodies put in one group together are kept apart by that group until
/// it is removed or replaced.
pub proof fn grouping_applies(
    m: Map<Seq<char>, Set<LuaRigidBodyHandle>>,
    name: Seq<char>,
    members: Set<LuaRigidBodyHandle>,
    a: LuaRigidBodyHandle,
    b: LuaRigidBodyHandle,
)
    requires
        members.contains(a),
        members.contains(b),
    ensures
        grouped_together(m.insert(name, members), a, b),
{
    assert(m.insert(name, members).dom().contains(name));
}

/// The order of the pair does not matter to either filter.
pub proof fn grouping_is_symmetric(
    m: Map<Seq<char>, Set<LuaRigidBodyHandle>>,
    a: LuaRigidBodyHandle,
    b: LuaRigidBodyHandle,
)
    ensures
        grouped_together(m, a, b) == grouped_together(m, b, a),
{
    if grouped_together(m, a, b) {
        let n = choose|n: Seq<char>| m.dom().contains(n) && m[n].contains(a) && m[n].contains(b);
        assert(m.dom().contains(n) && m[n].contains(b) && m[n].contains(a));
    }
    if grouped_together(m, b, a) {
        let n = choose|n: Seq<char>| m.dom().contains(n) && m[n].contains(b) && m[n].contains(a);
        assert(m.dom().contains(n) && m[n].contains(a) && m[n].contains(b));
    }
}

/// Without groups, no pair of bodies is filtered.
pub proof fn no_groups_no_filtering(a: LuaRigidBodyHandle, b: LuaRigidBodyHandle)
    ensures
        !grouped_together(Map::<Seq<char>, Set<LuaRigidBodyHandle>>::empty(), a, b),
{
}

/// Removing the only group that holds both bodies lets them touch again.
pub proof fn removing_group_releases(
    m: Map<Seq<char>, Set<LuaRigidBodyHandle>>,
    name: Seq<char>,
    a: LuaRigidBodyHandle,
    b: LuaRigidBodyHandle,
)
    requires
        forall|n: Seq<char>|
            m.dom().contains(n) && n != name ==> !(m[n].contains(a) && m[n].contains(b)),
    ensures
        !grouped_together(m.remove(name), a, b),
{
}

/// The pair-filter hooks a body asks for.
#[derive(Debug, Clone, Copy, PartialEq, Eq, Structural)]
pub struct ActiveHooks {
    pub filter_contact_pairs: bool,
    pub filter_intersection_pair: bool,
}

/// The physics events a body reports.
#[derive(Debug, Clone, Copy, PartialEq, Eq, Structural)]
pub struct ActiveEvents {
    pub collision_events: bool,
    pub contact_force_events: bool,
}

/// The name of a hook set, as scripts write it.
#[derive(Debug, Clone, Default)]
pub struct LuaActiveHooks(pub String);

/// The name of an event set, as scripts write it.
#[derive(Debug, Clone, Default)]
pub struct LuaActiveEvents(pub String);

/// The hooks named by `s`: `filter_contact_pairs`, `filter_intersection_pair`,
/// or `all` of them; any other name asks for none.
pub open spec fn hooks_named(s: Seq<char>) -> ActiveHooks {
    if s == "filter_contact_pairs"@ {
        ActiveHooks { filter_contact_pairs: true, filter_intersection_pair: false }
    } else if s == "filter_intersection_pair"@ {
        ActiveHooks { filter_contact_pairs: false, filter_intersection_pair: true }
    } else if s == "all"@ {
        ActiveHooks { filter_contact_pairs: true, filter_intersection_pair: true }
    } else {
        ActiveHooks { filter_contact_pairs: false, filter_intersection_pair: false }
    }
}

/// The events named by `s`: `collision_events`, `contact_force_events`, or
/// `all` of them; any other name asks for none.
pub open spec fn events_named(s: Seq<char>) -> ActiveEvents {
    if s == "collision_events"@ {
        ActiveEvents { collision_events: true, contact_force_events: false }
    } else if s == "contact_force_events"@ {
        ActiveEvents { collision_events: false, contact_force_events: true }
    } else if s == "all"@ {
        ActiveEvents { collision_events: true, contact_force_events: true }
    } else {
        ActiveEvents { collision_events: false, contact_force_events: false }
    }
}

impl LuaActiveHooks {
    /// The hooks this name asks for.
    pub fn hooks(&self) -> (r: ActiveHooks)
        ensures
            r == hooks_named(self.0@),
    {
        let s = self.0.as_str();
        if str_eq(s, "filter_contact_pairs") {
            ActiveHooks { filter_contact_pairs: true, filter_intersection_pair: false }
        } else if str_eq(s, "filter_intersection_pair") {
            ActiveHooks { filter_contact_pairs: false, filter_intersection_pair: true }
        } else if str_eq(s, "all") {
            ActiveHooks { filter_contact_pairs: true, filter_intersection_pair: true }
        } else {
            ActiveHooks { filter_contact_pairs: false, filter_intersection_pair: false }
        }
    }
}

impl LuaActiveEvents {
    /// The events this name asks for.
    pub fn events(&self) -> (r: ActiveEvents)
        ensures
            r == events_named(self.0@),
    {
        let s = self.0.as_str();
        if str_eq(s, "collision_events") {
            ActiveEvents { collision_events: true, contact_force_events: false }
        } else if str_eq(s, "contact_force_events") {
            ActiveEvents { collision_events: false, contact_force_events: true }
        } else if str_eq(s, "all") {
            ActiveEvents { collision_events: true, contact_force_events: true }
        } else {
            ActiveEvents { collision_events: false, contact_force_events: false }
        }
    }
}

} // verus!
