//! Groups: sets of playables and sequences addressed collectively.
//!
//! A group may itself belong to other groups; group-scoped commands reach
//! everything whose group set has the target group as an ancestor.  Groups
//! form a DAG by construction: a group's parents are fixed when it is
//! added, its id is fresh, and a group may not name itself.

use vstd::prelude::*;

verus! {

use crate::ids::GroupId;
use crate::table::{Table, has_key, key_idx, lemma_key_idx_unique};

/// A group referred to either by id or by a control-side name.
#[derive(Clone, Debug, PartialEq, Eq, Hash)]
pub enum GroupLabel {
    /// Directly by id.
    Id(GroupId),
    /// By a name that the control side resolves to an id.
    Name(String),
}

/// A group: the set of groups it belongs to.
#[derive(Clone, Debug)]
pub struct Group {
    /// The groups this group is a member of.
    pub parents: Vec<GroupId>,
}

impl Group {
    /// A group under the given parent groups.
    pub fn new(parents: Vec<GroupId>) -> (r: Group)
        ensures
            r.parents == parents,
    {
        Group { parents }
    }
}

/// Whether `target` is an ancestor of (or member of) the group set
/// `parents`, following at most `fuel` levels of nesting: the target
/// exists, and either appears in the set directly or is an ancestor of a
/// set member that exists.
pub open spec fn set_reaches(
    gs: Seq<(u64, Group)>,
    parents: Seq<GroupId>,
    target: u64,
    fuel: nat,
) -> bool
    decreases fuel, 0int,
{
    if !has_key(gs, target) {
        false
    } else if exists|i: int| 0 <= i < parents.len() && (#[trigger] parents[i]).index == target {
        true
    } else if fuel == 0 {
        false
    } else {
        exists|i: int|
            0 <= i < parents.len() && reach_via(gs, #[trigger] parents[i], target, (fuel - 1) as nat)
    }
}

/// Whether `target` is an ancestor of the single group `p`: the group
/// exists and its own group set reaches the target.
pub open spec fn reach_via(gs: Seq<(u64, Group)>, p: GroupId, target: u64, fuel: nat) -> bool
    decreases fuel, 1int,
{
    match key_idx(gs, p.index) {
        Some(j) => set_reaches(gs, gs[j].1.parents@, target, fuel),
        None => false,
    }
}

/// Reaching within less fuel also reaches within more.
pub proof fn lemma_set_reaches_fuel(
    gs: Seq<(u64, Group)>,
    parents: Seq<GroupId>,
    target: u64,
    f1: nat,
    f2: nat,
)
    requires
        f1 <= f2,
        set_reaches(gs, parents, target, f1),
    ensures
        set_reaches(gs, parents, target, f2),
    decreases f1,
{
    if !(exists|i: int| 0 <= i < parents.len() && (#[trigger] parents[i]).index == target) {
        let i = choose|i: int|
            0 <= i < parents.len() && reach_via(gs, #[trigger] parents[i], target, (f1 - 1) as nat);
        let j = key_idx(gs, parents[i].index)->Some_0;
        lemma_set_reaches_fuel(gs, gs[j].1.parents@, target, (f1 - 1) as nat, (f2 - 1) as nat);
        assert(reach_via(gs, parents[i], target, (f2 - 1) as nat));
    }
}

/// Ancestry is transitive: a set that reaches group `b` also reaches
/// every ancestor of `b`'s own group set.
pub proof fn lemma_set_reaches_trans(
    gs: Seq<(u64, Group)>,
    parents: Seq<GroupId>,
    b: u64,
    c: u64,
    jb: int,
    f1: nat,
    f2: nat,
)
    requires
        set_reaches(gs, parents, b, f1),
        key_idx(gs, b) == Some(jb),
        0 <= jb < gs.len(),
        gs[jb].0 == b,
        set_reaches(gs, gs[jb].1.parents@, c, f2),
    ensures
        set_reaches(gs, parents, c, (f1 + f2 + 1) as nat),
    decreases f1,
{
    if exists|i: int| 0 <= i < parents.len() && (#[trigger] parents[i]).index == b {
        let i = choose|i: int| 0 <= i < parents.len() && (#[trigger] parents[i]).index == b;
        lemma_set_reaches_fuel(gs, gs[jb].1.parents@, c, f2, (f1 + f2) as nat);
        if !(exists|k: int| 0 <= k < parents.len() && (#[trigger] parents[k]).index == c) {
            assert(reach_via(gs, parents[i], c, (f1 + f2) as nat));
        }
    } else {
        let i = choose|i: int|
            0 <= i < parents.len() && reach_via(gs, #[trigger] parents[i], b, (f1 - 1) as nat);
        let j = key_idx(gs, parents[i].index)->Some_0;
        lemma_set_reaches_trans(gs, gs[j].1.parents@, b, c, jb, (f1 - 1) as nat, f2);
        if !(exists|k: int| 0 <= k < parents.len() && (#[trigger] parents[k]).index == c) {
            assert(reach_via(gs, parents[i], c, (f1 + f2) as nat));
        }
    }
}

/// The store of groups on the audio side.
pub struct Groups {
    table: Table<Group>,
}

impl Groups {
    /// The groups by id, in insertion order.
    pub closed spec fn view(&self) -> Seq<(u64, Group)> {
        self.table.view()
    }

    /// The store's fixed capacity.
    pub closed spec fn spec_cap(&self) -> int {
        self.table.spec_cap()
    }

    /// The underlying table invariant.
    pub closed spec fn wf(&self) -> bool {
        self.table.wf()
    }

    /// An empty store with room for `cap` groups.
    pub fn new(cap: usize) -> (r: Groups)
        ensures
            r.view() == Seq::<(u64, Group)>::empty(),
            r.spec_cap() == cap,
            r.wf(),
    {
        Groups { table: Table::new(cap) }
    }

    /// Add a group; rejected when the id is taken, the store is full, or
    /// a parent is the group itself or not yet present.  Since every
    /// parent must already exist and ids are fresh, the group graph
    /// stays acyclic by construction.
    pub fn add(&mut self, id: GroupId, group: Group) -> (r: bool)
        requires
            old(self).wf(),
        ensures
            final(self).wf(),
            final(self).spec_cap() == old(self).spec_cap(),
            r == (!has_key(old(self).view(), id.index) && old(self).view().len() < old(
                self,
            ).spec_cap() && (forall|i: int|
                0 <= i < group.parents@.len() ==> (#[trigger] group.parents@[i]).index != id.index
                    && has_key(old(self).view(), group.parents@[i].index))),
            r ==> final(self).view() == old(self).view().push((id.index, group)),
            !r ==> final(self).view() == old(self).view(),
    {
        if self.table.contains(id.index) {
            return false;
        }
        if self.table.len() >= self.table.capacity() {
            return false;
        }
        let n = group.parents.len();
        let mut i: usize = 0;
        while i < n
            invariant
                *self == *old(self),
                self.wf(),
                !has_key(self.view(), id.index),
                self.view().len() < self.spec_cap(),
                i <= n,
                n == group.parents@.len(),
                forall|j: int|
                    0 <= j < i ==> (#[trigger] group.parents@[j]).index != id.index && has_key(
                        self.view(),
                        group.parents@[j].index,
                    ),
            decreases n - i,
        {
            if group.parents[i].index == id.index {
                proof {
                    assert((#[trigger] group.parents@[i as int]).index == id.index);
                }
                return false;
            }
            if !self.table.contains(group.parents[i].index) {
                proof {
                    assert(!has_key(
                        self.view(),
                        (#[trigger] group.parents@[i as int]).index,
                    ));
                }
                return false;
            }
            i = i + 1;
        }
        self.table.push(id.index, group);
        true
    }

    /// Remove a group; ignored when the id is unknown.
    pub fn remove(&mut self, id: GroupId) -> (r: bool)
        requires
            old(self).wf(),
        ensures
            final(self).wf(),
            final(self).spec_cap() == old(self).spec_cap(),
            r == has_key(old(self).view(), id.index),
            match key_idx(old(self).view(), id.index) {
                Some(i) => final(self).view() == old(self).view().remove(i),
                None => final(self).view() == old(self).view(),
            },
    {
        match self.table.idx_of(id.index) {
            Some(i) => {
                proof {
                    lemma_key_idx_unique(self.view(), id.index, i as int);
                }
                self.table.remove_at(i);
                true
            },
            None => false,
        }
    }

    /// How many groups the store holds.
    pub fn len(&self) -> (r: usize)
        ensures
            r == self.view().len(),
    {
        self.table.len()
    }

    /// Whether `target` is an ancestor of the group set `parents`,
    /// following nesting as deep as the store itself.
    pub fn set_has_ancestor(&self, parents: &Vec<GroupId>, target: GroupId) -> (r: bool)
        requires
            self.wf(),
        ensures
            r == set_reaches(self.view(), parents@, target.index, self.view().len() as nat),
    {
        let fuel = self.table.len();
        self.reach_rec(parents, target, fuel)
    }

    /// Ancestry bounded by explicit fuel.
    fn reach_rec(&self, parents: &Vec<GroupId>, target: GroupId, fuel: usize) -> (r: bool)
        requires
            self.wf(),
        ensures
            r == set_reaches(self.view(), parents@, target.index, fuel as nat),
        decreases fuel,
    {
        if !self.table.contains(target.index) {
            return false;
        }
        let n = parents.len();
        let mut i: usize = 0;
        while i < n
            invariant
                self.wf(),
                has_key(self.view(), target.index),
                i <= n,
                n == parents@.len(),
                forall|j: int| 0 <= j < i ==> (#[trigger] parents@[j]).index != target.index,
            decreases n - i,
        {
            if parents[i].index == target.index {
                proof {
                    assert((#[trigger] parents@[i as int]).index == target.index);
                }
                return true;
            }
            i = i + 1;
        }
        if fuel == 0 {
            return false;
        }
        let mut k: usize = 0;
        while k < n
            invariant
                k <= n,
                n == parents@.len(),
                self.wf(),
                fuel >= 1,
                has_key(self.view(), target.index),
                forall|j: int| 0 <= j < n ==> (#[trigger] parents@[j]).index != target.index,
                forall|j: int|
                    0 <= j < k ==> !reach_via(
                        self.view(),
                        #[trigger] parents@[j],
                        target.index,
                        (fuel - 1) as nat,
                    ),
            decreases n - k,
        {
            match self.table.idx_of(parents[k].index) {
                Some(j) => {
                    proof {
                        lemma_key_idx_unique(self.view(), parents@[k as int].index, j as int);
                    }
                    let sub = &self.table.value_at(j).parents;
                    if self.reach_rec(sub, target, fuel - 1) {
                        proof {
                            assert(reach_via(
                                self.view(),
                                parents@[k as int],
                                target.index,
                                (fuel - 1) as nat,
                            ));
                        }
                        return true;
                    }
                },
                None => {
                    proof {
                        assert(key_idx(self.view(), parents@[k as int].index) is None);
                    }
                },
            }
            k = k + 1;
        }
        false
    }
}

} // verus!
