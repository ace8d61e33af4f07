use vstd::prelude::*;
use crate::geom::Rect;

verus! {

/// Role tag: exactly one per entity, deciding which systems act on it.
#[derive(Clone, Copy, Debug, PartialEq, Eq, Structural)]
pub enum Role {
    Paddle,
    Ball,
    Block,
}

/// Signed speed along each axis, in milli-units per millisecond
/// (numerically world units per second).  Only the ball carries one.
#[derive(Clone, Copy, Debug, PartialEq, Eq, Structural)]
pub struct Velocity {
    pub vx: i64,
    pub vy: i64,
}

/// One live entity: its identifier, role, center position, full extents,
/// and optional velocity, all in milli-units.
#[derive(Clone, Copy, Debug)]
pub struct Entity {
    pub id: u64,
    pub role: Role,
    pub x: i64,
    pub y: i64,
    pub w: i64,
    pub h: i64,
    pub vel: Option<Velocity>,
}

impl Entity {
    /// The collision rectangle of the entity: its center and extents.
    pub open spec fn spec_rect(self) -> Rect {
        Rect { x: self.x, y: self.y, w: self.w, h: self.h }
    }

    /// Executable copy of `spec_rect`.
    pub fn rect(&self) -> (r: Rect)
        ensures
            r == self.spec_rect(),
    {
        Rect { x: self.x, y: self.y, w: self.w, h: self.h }
    }
}

/// First position in `s` at or after `i` whose entity carries `id`.
pub open spec fn find_id_from(s: Seq<Entity>, id: u64, i: int) -> Option<int>
    decreases s.len() - i,
{
    if i < 0 || i >= s.len() {
        None
    } else if s[i].id == id {
        Some(i)
    } else {
        find_id_from(s, id, i + 1)
    }
}

/// First position in `s` whose entity carries `id`, if any.
pub open spec fn find_id(s: Seq<Entity>, id: u64) -> Option<int> {
    find_id_from(s, id, 0)
}

/// First position in `s` at or after `i` whose entity has role `role`.
pub open spec fn first_role_from(s: Seq<Entity>, role: Role, i: int) -> Option<int>
    decreases s.len() - i,
{
    if i < 0 || i >= s.len() {
        None
    } else if s[i].role == role {
        Some(i)
    } else {
        first_role_from(s, role, i + 1)
    }
}

/// First position in `s` whose entity has role `role`, if any.
pub open spec fn first_role(s: Seq<Entity>, role: Role) -> Option<int> {
    first_role_from(s, role, 0)
}

/// The identifiers of the entities with role `role`, in store order.
pub open spec fn role_ids(s: Seq<Entity>, role: Role) -> Seq<u64>
    decreases s.len(),
{
    if s.len() == 0 {
        Seq::empty()
    } else if s.last().role == role {
        role_ids(s.drop_last(), role).push(s.last().id)
    } else {
        role_ids(s.drop_last(), role)
    }
}

/// How many entities of `s` have role `role`.
pub open spec fn role_count(s: Seq<Entity>, role: Role) -> nat
    decreases s.len(),
{
    if s.len() == 0 {
        0
    } else if s.last().role == role {
        role_count(s.drop_last(), role) + 1
    } else {
        role_count(s.drop_last(), role)
    }
}

/// The entity/component store: the live entities in spawn order, plus the
/// identifier the next spawn will use.
pub struct Store {
    pub entities: Vec<Entity>,
    pub next_id: u64,
}

impl Store {
    /// Well-formedness: every identifier was handed out by a past spawn,
    /// and no two live entities share one.
    pub open spec fn wf(self) -> bool {
        &&& forall|i: int|
            0 <= i < self.entities@.len() ==> #[trigger] self.entities@[i].id < self.next_id
        &&& forall|i: int, j: int|
            0 <= i < j < self.entities@.len() ==> #[trigger] self.entities@[i].id != #[trigger] self.entities@[j].id
    }

    /// An empty store.
    pub fn new() -> (s: Store)
        ensures
            s.wf(),
            s.entities@ =~= Seq::<Entity>::empty(),
            s.next_id == 0,
    {
        Store { entities: Vec::new(), next_id: 0 }
    }

    /// Adds one entity with a fresh identifier and returns that
    /// identifier.  The new entity goes to the end of the store order.
    pub fn spawn(&mut self, role: Role, x: i64, y: i64, w: i64, h: i64, vel: Option<Velocity>) -> (id: u64)
        requires
            old(self).wf(),
            old(self).next_id < u64::MAX,
        ensures
            final(self).wf(),
            id == old(self).next_id,
            final(self).next_id == old(self).next_id + 1,
            final(self).entities@ == old(self).entities@.push(
                Entity { id: old(self).next_id, role, x, y, w, h, vel },
            ),
    {
        let id = self.next_id;
        self.entities.push(Entity { id, role, x, y, w, h, vel });
        self.next_id = self.next_id + 1;
        id
    }

    /// Removes the entity carrying `id`, if one is live; unknown
    /// identifiers are a no-op, so a second despawn of the same identifier
    /// does nothing.  Afterwards no entity carries `id`.
    pub fn despawn(&mut self, id: u64)
        requires
            old(self).wf(),
        ensures
            final(self).wf(),
            final(self).next_id == old(self).next_id,
            final(self).entities@ == (match find_id(old(self).entities@, id) {
                Some(i) => old(self).entities@.remove(i),
                None => old(self).entities@,
            }),
            forall|j: int|
                0 <= j < final(self).entities@.len() ==> #[trigger] final(self).entities@[j].id != id,
    {
        let ghost s = self.entities@;
        let mut i: usize = 0;
        while i < self.entities.len()
            invariant
                self == old(self),
                self.wf(),
                s == self.entities@,
                0 <= i <= s.len(),
                forall|j: int| 0 <= j < i ==> #[trigger] s[j].id != id,
                find_id(s, id) == find_id_from(s, id, i as int),
            decreases s.len() - i,
        {
            if self.entities[i].id == id {
                proof {
                    assert(find_id_from(s, id, i as int) == Some(i as int));
                    lemma_remove_keeps_wf(*self, i as int);
                    let t = s.remove(i as int);
                    assert forall|j: int| 0 <= j < t.len() implies #[trigger] t[j].id != id by {
                        if j < i {
                            assert(t[j] == s[j]);
                        } else {
                            assert(t[j] == s[j + 1]);
                            assert(s[i as int].id == id);
                        }
                    }
                }
                self.entities.remove(i);
                return ;
            }
            proof {
                assert(find_id_from(s, id, i as int) == find_id_from(s, id, i + 1));
            }
            i = i + 1;
        }
        proof {
            assert(find_id_from(s, id, s.len() as int) == None::<int>);
        }
    }

    /// The components of the entity carrying `id`, if it is live.
    pub fn get(&self, id: u64) -> (r: Option<Entity>)
        ensures
            (match find_id(self.entities@, id) {
                Some(i) => r == Some(self.entities@[i]),
                None => r == None::<Entity>,
            }),
    {
        let mut i: usize = 0;
        while i < self.entities.len()
            invariant
                0 <= i <= self.entities@.len(),
                find_id(self.entities@, id) == find_id_from(self.entities@, id, i as int),
            decreases self.entities@.len() - i,
        {
            if self.entities[i].id == id {
                proof {
                    assert(find_id_from(self.entities@, id, i as int) == Some(i as int));
                }
                return Some(self.entities[i]);
            }
            proof {
                assert(find_id_from(self.entities@, id, i as int) == find_id_from(
                    self.entities@,
                    id,
                    i + 1,
                ));
            }
            i = i + 1;
        }
        proof {
            assert(find_id_from(self.entities@, id, self.entities@.len() as int) == None::<int>);
        }
        None
    }

    /// The identifiers of all live entities with role `role`, in store
    /// order.
    pub fn query(&self, role: Role) -> (ids: Vec<u64>)
        ensures
            ids@ == role_ids(self.entities@, role),
    {
        let ghost s = self.entities@;
        let mut ids: Vec<u64> = Vec::new();
        let mut i: usize = 0;
        while i < self.entities.len()
            invariant
                s == self.entities@,
                0 <= i <= s.len(),
                ids@ == role_ids(s.take(i as int), role),
            decreases s.len() - i,
        {
            proof {
                lemma_role_ids_take_step(s, role, i as int);
            }
            if self.entities[i].role == role {
                ids.push(self.entities[i].id);
            }
            i = i + 1;
        }
        proof {
            assert(s.take(s.len() as int) =~= s);
        }
        ids
    }

    /// How many live entities have role `role`.
    pub fn count_role(&self, role: Role) -> (n: usize)
        ensures
            n == role_count(self.entities@, role),
    {
        let ghost s = self.entities@;
        let mut n: usize = 0;
        let mut i: usize = 0;
        while i < self.entities.len()
            invariant
                s == self.entities@,
                0 <= i <= s.len(),
                n <= i,
                n == role_count(s.take(i as int), role),
            decreases s.len() - i,
        {
            proof {
                lemma_role_count_take_step(s, role, i as int);
            }
            if self.entities[i].role == role {
                n = n + 1;
            }
            i = i + 1;
        }
        proof {
            assert(s.take(s.len() as int) =~= s);
        }
        n
    }

    /// Index of the first live entity with role `role`, if any.
    pub fn find_first(&self, role: Role) -> (r: Option<usize>)
        ensures
            (match r {
                Some(i) => first_role(self.entities@, role) == Some(i as int) && i
                    < self.entities@.len(),
                None => first_role(self.entities@, role) == None::<int>,
            }),
    {
        let ghost s = self.entities@;
        let mut i: usize = 0;
        while i < self.entities.len()
            invariant
                s == self.entities@,
                0 <= i <= s.len(),
                first_role(s, role) == first_role_from(s, role, i as int),
            decreases s.len() - i,
        {
            if self.entities[i].role == role {
                return Some(i);
            }
            proof {
                assert(first_role_from(s, role, i as int) == first_role_from(s, role, i + 1));
            }
            i = i + 1;
        }
        None
    }
}

/// Appending one entity raises the role count by one exactly when the
/// entity has the role.
pub proof fn lemma_role_count_push(s: Seq<Entity>, e: Entity, role: Role)
    ensures
        role_count(s.push(e), role) == role_count(s, role) + (if e.role == role {
            1int
        } else {
            0int
        }),
{
    assert(s.push(e).drop_last() =~= s);
    assert(s.push(e).last() == e);
}

/// Role counts add up over concatenation.
pub proof fn lemma_role_count_concat(a: Seq<Entity>, b: Seq<Entity>, role: Role)
    ensures
        role_count(a + b, role) == role_count(a, role) + role_count(b, role),
    decreases b.len(),
{
    if b.len() == 0 {
        assert(a + b =~= a);
    } else {
        assert((a + b).drop_last() =~= a + b.drop_last());
        assert((a + b).last() == b.last());
        lemma_role_count_concat(a, b.drop_last(), role);
    }
}

/// A sequence of entities that all carry the role counts its length.
pub proof fn lemma_role_count_all_same(s: Seq<Entity>, role: Role)
    requires
        forall|i: int| 0 <= i < s.len() ==> #[trigger] s[i].role == role,
    ensures
        role_count(s, role) == s.len(),
    decreases s.len(),
{
    if s.len() > 0 {
        lemma_role_count_all_same(s.drop_last(), role);
    }
}

/// A sequence of entities none of which carries the role counts zero.
pub proof fn lemma_role_count_none(s: Seq<Entity>, role: Role)
    requires
        forall|i: int| 0 <= i < s.len() ==> #[trigger] s[i].role != role,
    ensures
        role_count(s, role) == 0,
    decreases s.len(),
{
    if s.len() > 0 {
        lemma_role_count_none(s.drop_last(), role);
    }
}

/// Replacing an entity by one of the same role keeps every role count.
pub proof fn lemma_role_count_update_same_role(s: Seq<Entity>, i: int, e: Entity, role: Role)
    requires
        0 <= i < s.len(),
        e.role == s[i].role,
    ensures
        role_count(s.update(i, e), role) == role_count(s, role),
    decreases s.len(),
{
    let t = s.update(i, e);
    if i == s.len() - 1 {
        assert(t.drop_last() =~= s.drop_last());
        assert(t.last() == e);
    } else {
        assert(t.drop_last() =~= s.drop_last().update(i, e));
        assert(t.last() == s.last());
        lemma_role_count_update_same_role(s.drop_last(), i, e, role);
    }
}

/// Removing an entity lowers the role count by one exactly when the
/// entity had the role.
pub proof fn lemma_role_count_remove(s: Seq<Entity>, j: int, role: Role)
    requires
        0 <= j < s.len(),
    ensures
        role_count(s.remove(j), role) == role_count(s, role) - (if s[j].role == role {
            1int
        } else {
            0int
        }),
    decreases s.len(),
{
    let t = s.remove(j);
    if j == s.len() - 1 {
        assert(t =~= s.drop_last());
    } else {
        assert(t.drop_last() =~= s.drop_last().remove(j));
        assert(t.last() == s.last());
        lemma_role_count_remove(s.drop_last(), j, role);
    }
}

/// What a `first_role_from` result means: a hit is the earliest entity
/// with the role at or after `j`; a miss means no such entity remains.
pub proof fn lemma_first_role_from_found(s: Seq<Entity>, role: Role, j: int)
    requires
        0 <= j,
    ensures
        (match first_role_from(s, role, j) {
            Some(i) => j <= i < s.len() && s[i].role == role && (forall|k: int|
                j <= k < i ==> #[trigger] s[k].role != role),
            None => forall|k: int| j <= k < s.len() ==> #[trigger] s[k].role != role,
        }),
    decreases s.len() - j,
{
    if j < 0 || j >= s.len() {
    } else if s[j].role == role {
    } else {
        lemma_first_role_from_found(s, role, j + 1);
    }
}

/// Replacing an entity by one of the same role leaves every `first_role`
/// search unchanged.
pub proof fn lemma_first_role_from_update_same_role(
    s: Seq<Entity>,
    i: int,
    e: Entity,
    role: Role,
    j: int,
)
    requires
        0 <= i < s.len(),
        e.role == s[i].role,
    ensures
        first_role_from(s.update(i, e), role, j) == first_role_from(s, role, j),
    decreases s.len() - j,
{
    let t = s.update(i, e);
    if j < 0 || j >= s.len() {
    } else {
        assert(t[j].role == s[j].role);
        if s[j].role == role {
        } else {
            lemma_first_role_from_update_same_role(s, i, e, role, j + 1);
        }
    }
}

/// Replacing an entity by one with the same identifier keeps a
/// well-formed store well-formed.
pub proof fn lemma_update_keeps_wf(st: Store, i: int, e: Entity)
    requires
        st.wf(),
        0 <= i < st.entities@.len(),
        e.id == st.entities@[i].id,
    ensures
        forall|j: int|
            0 <= j < st.entities@.update(i, e).len() ==> #[trigger] st.entities@.update(
                i,
                e,
            )[j].id < st.next_id,
        forall|j: int, k: int|
            0 <= j < k < st.entities@.update(i, e).len() ==> #[trigger] st.entities@.update(
                i,
                e,
            )[j].id != #[trigger] st.entities@.update(i, e)[k].id,
{
    let s = st.entities@;
    let t = s.update(i, e);
    assert forall|j: int| 0 <= j < t.len() implies #[trigger] t[j].id < st.next_id by {
        assert(t[j].id == s[j].id);
    }
    assert forall|j: int, k: int|
        0 <= j < k < t.len() implies #[trigger] t[j].id != #[trigger] t[k].id by {
        assert(t[j].id == s[j].id);
        assert(t[k].id == s[k].id);
    }
}

/// Removing any one entity keeps a well-formed store well-formed.
pub proof fn lemma_remove_keeps_wf(st: Store, i: int)
    requires
        st.wf(),
        0 <= i < st.entities@.len(),
    ensures
        forall|j: int|
            0 <= j < st.entities@.remove(i).len() ==> #[trigger] st.entities@.remove(i)[j].id
                < st.next_id,
        forall|j: int, k: int|
            0 <= j < k < st.entities@.remove(i).len() ==> #[trigger] st.entities@.remove(
                i,
            )[j].id != #[trigger] st.entities@.remove(i)[k].id,
{
    let s = st.entities@;
    let t = s.remove(i);
    assert forall|j: int| 0 <= j < t.len() implies #[trigger] t[j].id < st.next_id by {
        if j < i {
            assert(t[j] == s[j]);
        } else {
            assert(t[j] == s[j + 1]);
        }
    }
    assert forall|j: int, k: int|
        0 <= j < k < t.len() implies #[trigger] t[j].id != #[trigger] t[k].id by {
        let j0 = if j < i { j } else { j + 1 };
        let k0 = if k < i { k } else { k + 1 };
        assert(t[j] == s[j0]);
        assert(t[k] == s[k0]);
    }
}

/// One scan step of `role_ids` over a growing prefix.
proof fn lemma_role_ids_take_step(s: Seq<Entity>, role: Role, i: int)
    requires
        0 <= i < s.len(),
    ensures
        role_ids(s.take(i + 1), role) == (if s[i].role == role {
            role_ids(s.take(i), role).push(s[i].id)
        } else {
            role_ids(s.take(i), role)
        }),
{
    assert(s.take(i + 1).drop_last() =~= s.take(i));
    assert(s.take(i + 1).last() == s[i]);
}

/// One scan step of `role_count` over a growing prefix.
proof fn lemma_role_count_take_step(s: Seq<Entity>, role: Role, i: int)
    requires
        0 <= i < s.len(),
    ensures
        role_count(s.take(i + 1), role) == role_count(s.take(i), role) + (if s[i].role == role {
            1int
        } else {
            0int
        }),
{
    assert(s.take(i + 1).drop_last() =~= s.take(i));
    assert(s.take(i + 1).last() == s[i]);
}

} // verus!
