//! The entity store: which entities exist and what each of them carries.
//!
//! An entity is a number. The store gives the numbers out in rising order and
//! never gives one out twice, so a number that was destroyed stays dead. Each
//! entity has a slot, which holds its components. Destroying an entity marks
//! its slot; the slot is emptied by [`EntityStore::sweep`], at the end of a
//! tick, so that whoever walks the store during the tick still sees it.

use vstd::prelude::*;
use crate::components::{Component, ComponentKind, Enemy, Transform, Velocity};

verus! {

/// The name of an entity.
#[derive(Clone, Copy, Debug, PartialEq, Eq, Structural)]
pub struct Entity {
    pub index: usize,
}

/// What the store holds of one entity.
#[derive(Clone, Copy, Debug, PartialEq, Eq)]
pub struct Slot {
    /// Whether the entity exists.
    pub alive: bool,
    /// Whether the entity is to be removed at the end of the tick.
    pub doomed: bool,
    pub transform: Option<Transform>,
    pub velocity: Option<Velocity>,
    pub enemy: Option<Enemy>,
    pub kabuto: bool,
    pub shot: bool,
    pub shot_collider: bool,
    pub bound_collider: bool,
}

impl Slot {
    /// The slot of an entity that does not exist.
    pub open spec fn vacant() -> Slot {
        Slot {
            alive: false,
            doomed: false,
            transform: None,
            velocity: None,
            enemy: None,
            kabuto: false,
            shot: false,
            shot_collider: false,
            bound_collider: false,
        }
    }

    /// The slot of an entity that exists and carries nothing.
    pub open spec fn bare() -> Slot {
        Slot { alive: true, ..Slot::vacant() }
    }

    /// Whether the slot holds a component of the kind `kind`.
    pub open spec fn has(self, kind: ComponentKind) -> bool {
        match kind {
            ComponentKind::Transform => self.transform is Some,
            ComponentKind::Velocity => self.velocity is Some,
            ComponentKind::Kabuto => self.kabuto,
            ComponentKind::Shot => self.shot,
            ComponentKind::Enemy => self.enemy is Some,
            ComponentKind::ShotCollider => self.shot_collider,
            ComponentKind::BoundCollider => self.bound_collider,
        }
    }

    /// Whether the slot holds a component of each kind in `kinds`.
    pub open spec fn has_all(self, kinds: Seq<ComponentKind>) -> bool {
        forall|k: int| 0 <= k < kinds.len() ==> self.has(#[trigger] kinds[k])
    }

    /// Whether the slot is that of an existing entity with a component of each
    /// kind in `kinds`.
    pub open spec fn selected(self, kinds: Seq<ComponentKind>) -> bool {
        self.alive && self.has_all(kinds)
    }

    /// The slot with `component` put in, in place of what it held of that kind.
    pub open spec fn with(self, component: Component) -> Slot {
        match component {
            Component::Transform(t) => Slot { transform: Some(t), ..self },
            Component::Velocity(v) => Slot { velocity: Some(v), ..self },
            Component::Kabuto(_) => Slot { kabuto: true, ..self },
            Component::Shot(_) => Slot { shot: true, ..self },
            Component::Enemy(e) => Slot { enemy: Some(e), ..self },
            Component::ShotCollider(_) => Slot { shot_collider: true, ..self },
            Component::BoundCollider(_) => Slot { bound_collider: true, ..self },
        }
    }

    /// The slot with what it held of the kind `kind` taken out.
    pub open spec fn without(self, kind: ComponentKind) -> Slot {
        match kind {
            ComponentKind::Transform => Slot { transform: None, ..self },
            ComponentKind::Velocity => Slot { velocity: None, ..self },
            ComponentKind::Kabuto => Slot { kabuto: false, ..self },
            ComponentKind::Shot => Slot { shot: false, ..self },
            ComponentKind::Enemy => Slot { enemy: None, ..self },
            ComponentKind::ShotCollider => Slot { shot_collider: false, ..self },
            ComponentKind::BoundCollider => Slot { bound_collider: false, ..self },
        }
    }

    /// The slot as the end of the tick leaves it: emptied if it was marked.
    pub open spec fn swept(self) -> Slot {
        if self.alive && self.doomed {
            Slot::vacant()
        } else {
            self
        }
    }

    /// Tells whether the slot holds a component of the kind `kind`.
    pub fn holds(&self, kind: ComponentKind) -> (b: bool)
        ensures
            b == self.has(kind),
    {
        match kind {
            ComponentKind::Transform => self.transform.is_some(),
            ComponentKind::Velocity => self.velocity.is_some(),
            ComponentKind::Kabuto => self.kabuto,
            ComponentKind::Shot => self.shot,
            ComponentKind::Enemy => self.enemy.is_some(),
            ComponentKind::ShotCollider => self.shot_collider,
            ComponentKind::BoundCollider => self.bound_collider,
        }
    }

    /// Tells whether the slot holds a component of each kind in `kinds`.
    pub fn holds_all(&self, kinds: &[ComponentKind]) -> (b: bool)
        ensures
            b == self.has_all(kinds@),
    {
        let mut k: usize = 0;
        while k < kinds.len()
            invariant
                k <= kinds.len(),
                forall|j: int| 0 <= j < k ==> self.has(#[trigger] kinds@[j]),
            decreases kinds.len() - k,
        {
            if !self.holds(kinds[k]) {
                return false;
            }
            k += 1;
        }
        true
    }
}

/// The entities among the first `n` of `slots` that exist and carry each kind
/// in `kinds`, in rising order.
pub open spec fn matching(slots: Seq<Slot>, kinds: Seq<ComponentKind>, n: nat) -> Seq<Entity>
    decreases n,
{
    if n == 0 {
        Seq::empty()
    } else {
        let before = matching(slots, kinds, (n - 1) as nat);
        if n <= slots.len() && slots[n - 1].selected(kinds) {
            before.push(Entity { index: (n - 1) as usize })
        } else {
            before
        }
    }
}

/// The entities of `slots` that exist and carry each kind in `kinds`, in
/// rising order.
pub open spec fn query_of(slots: Seq<Slot>, kinds: Seq<ComponentKind>) -> Seq<Entity> {
    matching(slots, kinds, slots.len())
}

/// The slots as the end of the tick leaves them: every marked entity is gone.
pub open spec fn swept(slots: Seq<Slot>) -> Seq<Slot> {
    slots.map_values(|slot: Slot| slot.swept())
}

/// Whether `entity` exists in `slots`.
pub open spec fn exists_in(slots: Seq<Slot>, entity: Entity) -> bool {
    entity.index < slots.len() && slots[entity.index as int].alive
}

/// `matching` holds exactly the selected entities below `n`, each once, in
/// rising order.
pub proof fn lemma_matching(slots: Seq<Slot>, kinds: Seq<ComponentKind>, n: nat)
    requires
        n <= slots.len(),
        slots.len() <= usize::MAX,
    ensures
        forall|e: Entity|
            #[trigger] matching(slots, kinds, n).contains(e) <==> (e.index < n
                && slots[e.index as int].selected(kinds)),
        forall|a: int, b: int|
            0 <= a < b < matching(slots, kinds, n).len() ==> (#[trigger] matching(
                slots,
                kinds,
                n,
            )[a]).index < (#[trigger] matching(slots, kinds, n)[b]).index,
        forall|a: int|
            0 <= a < matching(slots, kinds, n).len() ==> (#[trigger] matching(slots, kinds, n)[a]).index
                < n,
        matching(slots, kinds, n).len() <= n,
    decreases n,
{
    if n > 0 {
        let before = matching(slots, kinds, (n - 1) as nat);
        lemma_matching(slots, kinds, (n - 1) as nat);
        let now = matching(slots, kinds, n);
        let last = Entity { index: (n - 1) as usize };
        if slots[n - 1].selected(kinds) {
            assert(now == before.push(last));
            assert forall|e: Entity| #[trigger] now.contains(e) <==> (e.index < n
                && slots[e.index as int].selected(kinds)) by {
                if now.contains(e) {
                    let i = choose|i: int| 0 <= i < now.len() && now[i] == e;
                    if i < before.len() {
                        assert(before[i] == e);
                        assert(before.contains(e));
                    }
                }
                if e.index < n && slots[e.index as int].selected(kinds) {
                    if e.index == n - 1 {
                        assert(now[before.len() as int] == e);
                    } else {
                        assert(before.contains(e));
                        let i = choose|i: int| 0 <= i < before.len() && before[i] == e;
                        assert(now[i] == e);
                    }
                }
            }
        } else {
            assert(now == before);
        }
    } else {
        assert(matching(slots, kinds, n) =~= Seq::<Entity>::empty());
    }
}

/// Two stores of one length whose slots agree on what is selected give the
/// same entities.
pub proof fn lemma_matching_same(
    a: Seq<Slot>,
    b: Seq<Slot>,
    kinds: Seq<ComponentKind>,
    n: nat,
)
    requires
        n <= a.len(),
        n <= b.len(),
        forall|i: int| 0 <= i < n ==> (#[trigger] a[i]).selected(kinds) == (#[trigger] b[i]).selected(kinds),
    ensures
        matching(a, kinds, n) == matching(b, kinds, n),
    decreases n,
{
    if n > 0 {
        lemma_matching_same(a, b, kinds, (n - 1) as nat);
        assert(a[n - 1].selected(kinds) == b[n - 1].selected(kinds));
    }
}

/// Slots beyond the first `n` that are not selected add nothing.
pub proof fn lemma_matching_tail(slots: Seq<Slot>, kinds: Seq<ComponentKind>, n: nat, m: nat)
    requires
        n <= m,
        forall|i: int| n <= i < m && i < slots.len() ==> !(#[trigger] slots[i]).selected(kinds),
    ensures
        matching(slots, kinds, m) == matching(slots, kinds, n),
    decreases m - n,
{
    if n < m {
        lemma_matching_tail(slots, kinds, n, (m - 1) as nat);
    }
}

/// The entities and their components.
pub struct EntityStore {
    slots: Vec<Slot>,
}

impl View for EntityStore {
    type V = Seq<Slot>;

    /// The slots, one for each name given out so far, at the name's index.
    closed spec fn view(&self) -> Seq<Slot> {
        self.slots@
    }
}

impl EntityStore {
    /// A store without entities.
    pub fn new() -> (store: EntityStore)
        ensures
            store@ == Seq::<Slot>::empty(),
    {
        EntityStore { slots: Vec::new() }
    }

    /// A store never holds more slots than can be counted.
    pub proof fn lemma_bounded(&self)
        ensures
            self@.len() <= usize::MAX,
    {
        assert(self.slots.len() == self.slots@.len());
    }

    /// The number of names given out so far.
    pub fn len(&self) -> (n: usize)
        ensures
            n == self@.len(),
    {
        self.slots.len()
    }

    /// Tells whether `entity` exists.
    pub fn contains(&self, entity: Entity) -> (b: bool)
        ensures
            b == exists_in(self@, entity),
    {
        entity.index < self.slots.len() && self.slots[entity.index].alive
    }

    /// The slot of `entity`, if it exists.
    pub fn get(&self, entity: Entity) -> (slot: Option<Slot>)
        ensures
            slot == if exists_in(self@, entity) {
                Some(self@[entity.index as int])
            } else {
                None
            },
    {
        if entity.index < self.slots.len() && self.slots[entity.index].alive {
            Some(self.slots[entity.index])
        } else {
            None
        }
    }

    /// Makes a new entity, which carries nothing yet.
    pub fn create(&mut self) -> (entity: Entity)
        ensures
            entity.index == old(self)@.len(),
            final(self)@ == old(self)@.push(Slot::bare()),
    {
        let index = self.slots.len();
        self.slots.push(
            Slot {
                alive: true,
                doomed: false,
                transform: None,
                velocity: None,
                enemy: None,
                kabuto: false,
                shot: false,
                shot_collider: false,
                bound_collider: false,
            },
        );
        Entity { index }
    }

    /// Gives `entity` the component `component`, in place of what it carried
    /// of that kind. Returns whether the entity exists; if it does not,
    /// nothing changes.
    pub fn attach(&mut self, entity: Entity, component: Component) -> (done: bool)
        ensures
            done == exists_in(old(self)@, entity),
            final(self)@ == if done {
                old(self)@.update(entity.index as int, old(self)@[entity.index as int].with(component))
            } else {
                old(self)@
            },
    {
        if !self.contains(entity) {
            return false;
        }
        let mut slot = self.slots[entity.index];
        match component {
            Component::Transform(t) => {
                slot.transform = Some(t);
            },
            Component::Velocity(v) => {
                slot.velocity = Some(v);
            },
            Component::Kabuto(_) => {
                slot.kabuto = true;
            },
            Component::Shot(_) => {
                slot.shot = true;
            },
            Component::Enemy(e) => {
                slot.enemy = Some(e);
            },
            Component::ShotCollider(_) => {
                slot.shot_collider = true;
            },
            Component::BoundCollider(_) => {
                slot.bound_collider = true;
            },
        }
        self.slots.set(entity.index, slot);
        true
    }

    /// Takes from `entity` what it carries of the kind `kind`. Returns whether
    /// the entity exists; if it does not, nothing changes.
    pub fn detach(&mut self, entity: Entity, kind: ComponentKind) -> (done: bool)
        ensures
            done == exists_in(old(self)@, entity),
            final(self)@ == if done {
                old(self)@.update(entity.index as int, old(self)@[entity.index as int].without(kind))
            } else {
                old(self)@
            },
    {
        if !self.contains(entity) {
            return false;
        }
        let mut slot = self.slots[entity.index];
        match kind {
            ComponentKind::Transform => {
                slot.transform = None;
            },
            ComponentKind::Velocity => {
                slot.velocity = None;
            },
            ComponentKind::Kabuto => {
                slot.kabuto = false;
            },
            ComponentKind::Shot => {
                slot.shot = false;
            },
            ComponentKind::Enemy => {
                slot.enemy = None;
            },
            ComponentKind::ShotCollider => {
                slot.shot_collider = false;
            },
            ComponentKind::BoundCollider => {
                slot.bound_collider = false;
            },
        }
        self.slots.set(entity.index, slot);
        true
    }

    /// Marks `entity` for removal at the end of the tick. Until then it is
    /// still found with all that it carries. Returns whether the entity
    /// exists; if it does not, nothing changes.
    pub fn destroy(&mut self, entity: Entity) -> (done: bool)
        ensures
            done == exists_in(old(self)@, entity),
            final(self)@ == if done {
                old(self)@.update(
                    entity.index as int,
                    Slot { doomed: true, ..old(self)@[entity.index as int] },
                )
            } else {
                old(self)@
            },
    {
        if !self.contains(entity) {
            return false;
        }
        let mut slot = self.slots[entity.index];
        slot.doomed = true;
        self.slots.set(entity.index, slot);
        true
    }

    /// Removes every entity that was marked for removal, with all that it
    /// carried. Its name is not given out again.
    pub fn sweep(&mut self)
        ensures
            final(self)@ == swept(old(self)@),
    {
        let ghost before = self@;
        let n = self.slots.len();
        let mut i: usize = 0;
        while i < n
            invariant
                i <= n,
                n == before.len(),
                self@.len() == n,
                forall|j: int| 0 <= j < i ==> #[trigger] self@[j] == before[j].swept(),
                forall|j: int| i <= j < n ==> #[trigger] self@[j] == before[j],
            decreases n - i,
        {
            let slot = self.slots[i];
            if slot.alive && slot.doomed {
                self.slots.set(
                    i,
                    Slot {
                        alive: false,
                        doomed: false,
                        transform: None,
                        velocity: None,
                        enemy: None,
                        kabuto: false,
                        shot: false,
                        shot_collider: false,
                        bound_collider: false,
                    },
                );
            }
            i += 1;
        }
        assert(self@ =~= swept(before));
    }

    /// The entities that exist and carry a component of each kind in `kinds`,
    /// in rising order.
    pub fn query(&self, kinds: &[ComponentKind]) -> (found: Vec<Entity>)
        ensures
            found@ == query_of(self@, kinds@),
            forall|e: Entity|
                #[trigger] found@.contains(e) <==> (exists_in(self@, e) && self@[e.index as int].has_all(
                    kinds@,
                )),
            forall|a: int, b: int|
                0 <= a < b < found@.len() ==> (#[trigger] found@[a]).index < (#[trigger] found@[b]).index,
    {
        let mut found: Vec<Entity> = Vec::new();
        let n = self.slots.len();
        let mut i: usize = 0;
        while i < n
            invariant
                i <= n,
                n == self@.len(),
                found@ == matching(self@, kinds@, i as nat),
            decreases n - i,
        {
            let slot = self.slots[i];
            if slot.alive && slot.holds_all(kinds) {
                found.push(Entity { index: i });
            }
            i += 1;
        }
        proof {
            lemma_matching(self@, kinds@, n as nat);
        }
        found
    }
}

} // verus!
