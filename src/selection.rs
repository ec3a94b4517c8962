use vstd::prelude::*;

verus! {

/// An entity of the host world, identified by its packed 64-bit id.
#[derive(Clone, Copy, Debug, PartialEq, Eq, Hash, Structural)]
pub struct Entity {
    pub bits: u64,
}

impl Entity {
    pub fn from_bits(bits: u64) -> (r: Entity)
        ensures
            r.bits == bits,
    {
        Entity { bits }
    }
}

/// How a click on an entity changes the selection.
#[derive(Clone, Copy, Debug, PartialEq, Eq, Structural)]
pub enum SelectionMode {
    /// Clear the selection and select the entity alone.
    Replace,
    /// Toggle the entity: select it if it is not selected, deselect it if it is.
    Add,
    /// Range selection. No behaviour is defined for it: `select` does not accept it.
    Extend,
}

/// Holds of every entity but `e`.
pub open spec fn other_than(e: Entity) -> spec_fn(Entity) -> bool {
    |x: Entity| x != e
}

/// `s` with every occurrence of `e` taken out, the order of the rest kept.
pub open spec fn without(s: Seq<Entity>, e: Entity) -> Seq<Entity> {
    s.filter(other_than(e))
}

/// The selection `s` after `e` was selected with `mode` (`Replace` or `Add`).
pub open spec fn select_result(s: Seq<Entity>, mode: SelectionMode, e: Entity) -> Seq<Entity> {
    if mode == SelectionMode::Replace {
        seq![e]
    } else if s.contains(e) {
        without(s, e)
    } else {
        s.push(e)
    }
}

/// Appending an entity that is not there keeps the entities distinct.
pub proof fn lemma_push_no_duplicates(s: Seq<Entity>, e: Entity)
    requires
        s.no_duplicates(),
        !s.contains(e),
    ensures
        s.push(e).no_duplicates(),
{
    let t = s.push(e);
    assert forall|i: int, j: int| 0 <= i < t.len() && 0 <= j < t.len() && i != j implies t[i]
        != t[j] by {
        if i == s.len() {
            assert(s.contains(t[j]));
        } else if j == s.len() {
            assert(s.contains(t[i]));
        }
    }
}

/// Filtering distinct entities leaves them distinct.
pub proof fn lemma_filter_no_duplicates(s: Seq<Entity>, pred: spec_fn(Entity) -> bool)
    requires
        s.no_duplicates(),
    ensures
        s.filter(pred).no_duplicates(),
    decreases s.len(),
{
    if s.len() > 0 {
        let rest = s.drop_last();
        assert(s =~= rest.push(s.last()));
        assert forall|i: int, j: int|
            0 <= i < rest.len() && 0 <= j < rest.len() && i != j implies rest[i] != rest[j] by {
            assert(rest[i] == s[i] && rest[j] == s[j]);
        }
        lemma_filter_no_duplicates(rest, pred);
        rest.lemma_filter_push(s.last(), pred);
        if pred(s.last()) {
            if rest.filter(pred).contains(s.last()) {
                rest.lemma_filter_contains_rev(pred, s.last());
                let k = choose|k: int| 0 <= k < rest.len() && rest[k] == s.last();
                assert(s[k] == s[s.len() - 1]);
            }
            lemma_push_no_duplicates(rest.filter(pred), s.last());
        }
    }
}

/// Taking out an entity that is not there leaves the sequence as it is.
pub proof fn lemma_without_absent(s: Seq<Entity>, e: Entity)
    requires
        !s.contains(e),
    ensures
        without(s, e) == s,
    decreases s.len(),
{
    if s.len() > 0 {
        let rest = s.drop_last();
        assert(s =~= rest.push(s.last()));
        assert(!rest.contains(e)) by {
            if rest.contains(e) {
                let k = choose|k: int| 0 <= k < rest.len() && rest[k] == e;
                assert(s[k] == e);
            }
        }
        lemma_without_absent(rest, e);
        rest.lemma_filter_push(s.last(), other_than(e));
    }
}

/// Once an entity is deselected it is not selected, whatever selected it before.
pub proof fn lemma_removed_not_selected(s: Seq<Entity>, e: Entity)
    ensures
        !without(s, e).contains(e),
{
    if without(s, e).contains(e) {
        let k = choose|k: int| 0 <= k < without(s, e).len() && without(s, e)[k] == e;
        s.lemma_filter_pred(other_than(e), k);
    }
}

/// Selecting with `Add` toggles the entity and leaves every other entity as it was.
pub proof fn lemma_add_toggles(s: Seq<Entity>, e: Entity)
    ensures
        select_result(s, SelectionMode::Add, e).contains(e) == !s.contains(e),
        forall|x: Entity|
            x != e ==> (#[trigger] select_result(s, SelectionMode::Add, e).contains(x)
                == s.contains(x)),
{
    let r = select_result(s, SelectionMode::Add, e);
    if s.contains(e) {
        lemma_removed_not_selected(s, e);
        assert forall|x: Entity| x != e implies #[trigger] r.contains(x) == s.contains(x) by {
            if s.contains(x) {
                let k = choose|k: int| 0 <= k < s.len() && s[k] == x;
                s.lemma_filter_contains(other_than(e), k);
            }
            if r.contains(x) {
                s.lemma_filter_contains_rev(other_than(e), x);
            }
        }
    } else {
        assert(r[s.len() as int] == e);
        assert forall|x: Entity| x != e implies #[trigger] r.contains(x) == s.contains(x) by {
            if s.contains(x) {
                let k = choose|k: int| 0 <= k < s.len() && s[k] == x;
                assert(r[k] == x);
            }
            if r.contains(x) {
                let k = choose|k: int| 0 <= k < r.len() && r[k] == x;
                assert(s[k] == x);
            }
        }
    }
}

/// The entities selected in the editor, in the order in which they were selected,
/// with the last change made by `select`.
pub struct SelectedEntities {
    entities: Vec<Entity>,
    last_action: Option<(SelectionMode, Entity)>,
}

impl View for SelectedEntities {
    type V = Seq<Entity>;

    closed spec fn view(&self) -> Seq<Entity> {
        self.entities@
    }
}

impl SelectedEntities {
    /// The last change made by `select`, if any.
    pub closed spec fn last_action_spec(&self) -> Option<(SelectionMode, Entity)> {
        self.last_action
    }

    /// No entity is selected twice, and the recorded change is one that `select` makes.
    pub open spec fn wf(&self) -> bool {
        &&& self@.no_duplicates()
        &&& match self.last_action_spec() {
            Some((mode, _)) => mode != SelectionMode::Extend,
            None => true,
        }
    }

    pub fn new() -> (r: SelectedEntities)
        ensures
            r.wf(),
            r@ == Seq::<Entity>::empty(),
            r.last_action_spec() == None::<(SelectionMode, Entity)>,
    {
        SelectedEntities { entities: Vec::new(), last_action: None }
    }

    pub fn len(&self) -> (r: usize)
        ensures
            r == self@.len(),
    {
        self.entities.len()
    }

    pub fn is_empty(&self) -> (r: bool)
        ensures
            r == (self@.len() == 0),
    {
        self.entities.len() == 0
    }

    pub fn as_slice(&self) -> (r: &[Entity])
        ensures
            r@ == self@,
    {
        self.entities.as_slice()
    }

    pub fn last_action(&self) -> (r: Option<(SelectionMode, Entity)>)
        ensures
            r == self.last_action_spec(),
    {
        self.last_action
    }

    pub fn contains(&self, entity: Entity) -> (r: bool)
        ensures
            r == self@.contains(entity),
    {
        let n = self.entities.len();
        let mut i: usize = 0;
        while i < n
            invariant
                n == self@.len(),
                0 <= i <= n,
                forall|k: int| 0 <= k < i ==> self@[k] != entity,
            decreases n - i,
        {
            if self.entities[i] == entity {
                return true;
            }
            i = i + 1;
        }
        false
    }

    /// Deselects `entity`; returns whether it was selected. The recorded change stays.
    pub fn remove(&mut self, entity: Entity) -> (r: bool)
        requires
            old(self).wf(),
        ensures
            final(self).wf(),
            final(self)@ == without(old(self)@, entity),
            final(self).last_action_spec() == old(self).last_action_spec(),
            r == old(self)@.contains(entity),
    {
        let ghost s = self@;
        let ghost pred = other_than(entity);
        let n = self.entities.len();
        let mut kept: Vec<Entity> = Vec::new();
        let mut found = false;
        let mut i: usize = 0;
        while i < n
            invariant
                n == s.len(),
                s == self@,
                pred == other_than(entity),
                0 <= i <= n,
                kept@ == s.subrange(0, i as int).filter(pred),
                found == s.subrange(0, i as int).contains(entity),
            decreases n - i,
        {
            let x = self.entities[i];
            proof {
                assert(s.subrange(0, i + 1) =~= s.subrange(0, i as int).push(x));
                s.subrange(0, i as int).lemma_filter_push(x, pred);
                if s.subrange(0, i as int).contains(entity) {
                    let k = choose|k: int| 0 <= k < i && s.subrange(0, i as int)[k] == entity;
                    assert(s.subrange(0, i + 1)[k] == entity);
                }
                if x == entity {
                    assert(s.subrange(0, i + 1)[i as int] == entity);
                }
            }
            if x != entity {
                kept.push(x);
            } else {
                found = true;
            }
            i = i + 1;
        }
        proof {
            assert(s.subrange(0, n as int) =~= s);
            lemma_filter_no_duplicates(s, pred);
        }
        self.entities = kept;
        found
    }

    /// Applies `mode` to `entity` and records the change.
    pub fn select(&mut self, mode: SelectionMode, entity: Entity)
        requires
            old(self).wf(),
            mode != SelectionMode::Extend,
        ensures
            final(self).wf(),
            final(self)@ == select_result(old(self)@, mode, entity),
            final(self).last_action_spec() == Some((mode, entity)),
    {
        if mode == SelectionMode::Replace || self.entities.len() == 0 {
            let mut v: Vec<Entity> = Vec::new();
            v.push(entity);
            self.entities = v;
            proof {
                assert(self@ =~= seq![entity]);
                if mode != SelectionMode::Replace {
                    assert(old(self)@.push(entity) =~= seq![entity]);
                }
            }
        } else if !self.remove(entity) {
            proof {
                lemma_without_absent(old(self)@, entity);
                lemma_push_no_duplicates(self@, entity);
            }
            self.entities.push(entity);
        }
        self.last_action = Some((mode, entity));
    }
}

} // verus!
