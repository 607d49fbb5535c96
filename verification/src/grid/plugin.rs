use vstd::prelude::*;

verus! {

/// Groups the simulation systems and resources of the application.
#[derive(Clone, Copy, Debug, PartialEq, Eq, Structural)]
pub struct GridPlugin;

/// A resource to keep track of the current ids of objects in the grid
#[derive(Clone, Copy, Debug, PartialEq, Eq, Structural)]
pub struct ComponentIDs {
    current_mic_id: usize,
    current_source_id: usize,
    current_wall_id: usize,
}

/// The kinds of objects that get ids of their own.
#[derive(Clone, Copy, Debug, PartialEq, Eq, Structural)]
pub enum IdKind {
    Mic,
    Source,
    Wall,
}

impl ComponentIDs {
    /// The id the next object of `kind` will get.
    pub open spec fn next_id(self, kind: IdKind) -> usize {
        match kind {
            IdKind::Mic => self.next_mic_id(),
            IdKind::Source => self.next_source_id(),
            IdKind::Wall => self.next_wall_id(),
        }
    }

    /// The id the next microphone will get.
    pub closed spec fn next_mic_id(self) -> usize {
        self.current_mic_id
    }

    /// The id the next source will get.
    pub closed spec fn next_source_id(self) -> usize {
        self.current_source_id
    }

    /// The id the next wall will get.
    pub closed spec fn next_wall_id(self) -> usize {
        self.current_wall_id
    }

    /// The ids the next microphone, source and wall will get.
    pub fn next_ids(&self) -> (ids: (usize, usize, usize))
        ensures
            ids == (self.next_mic_id(), self.next_source_id(), self.next_wall_id()),
    {
        (self.current_mic_id, self.current_source_id, self.current_wall_id)
    }

    /// Get a new **valid** id for a microphone
    pub fn get_new_mic_id(&mut self) -> (id: usize)
        requires
            old(self).next_mic_id() < usize::MAX,
        ensures
            id == old(self).next_mic_id(),
            final(self).next_mic_id() == id + 1,
            final(self).next_source_id() == old(self).next_source_id(),
            final(self).next_wall_id() == old(self).next_wall_id(),
    {
        let current = self.current_mic_id;
        self.current_mic_id += 1;
        current
    }

    /// Get a new **valid** id for a source
    pub fn get_new_source_id(&mut self) -> (id: usize)
        requires
            old(self).next_source_id() < usize::MAX,
        ensures
            id == old(self).next_source_id(),
            final(self).next_source_id() == id + 1,
            final(self).next_mic_id() == old(self).next_mic_id(),
            final(self).next_wall_id() == old(self).next_wall_id(),
    {
        let current = self.current_source_id;
        self.current_source_id += 1;
        current
    }

    /// Get a new **valid** id for a wall
    pub fn get_new_wall_id(&mut self) -> (id: usize)
        requires
            old(self).next_wall_id() < usize::MAX,
        ensures
            id == old(self).next_wall_id(),
            final(self).next_wall_id() == id + 1,
            final(self).next_mic_id() == old(self).next_mic_id(),
            final(self).next_source_id() == old(self).next_source_id(),
    {
        let current = self.current_wall_id;
        self.current_wall_id += 1;
        current
    }

    /// Decrements the current wall id
    pub fn decrement_wall_ids(&mut self)
        requires
            old(self).next_wall_id() > 0,
        ensures
            final(self).next_wall_id() == old(self).next_wall_id() - 1,
            final(self).next_mic_id() == old(self).next_mic_id(),
            final(self).next_source_id() == old(self).next_source_id(),
    {
        self.current_wall_id -= 1;
    }

    /// Starts counting every kind of id from zero again.
    pub fn reset(&mut self)
        ensures
            final(self).next_mic_id() == 0,
            final(self).next_source_id() == 0,
            final(self).next_wall_id() == 0,
    {
        self.current_mic_id = 0;
        self.current_source_id = 0;
        self.current_wall_id = 0;
    }
}

/// Ids handed out one after the other are fresh. `states[j]` and
/// `states[j + 1]` are the counters before and after the `j`-th of several
/// successive calls of the getter for `kind` (`get_new_mic_id`,
/// `get_new_source_id` or `get_new_wall_id`, with no decrement or reset in
/// between) and `ids[j]` is what that call returned, as their contracts state.
/// Then the `j`-th id is the first plus `j`, and no two of them are equal.
pub proof fn lemma_successive_ids_are_fresh(
    states: Seq<ComponentIDs>,
    ids: Seq<usize>,
    kind: IdKind,
)
    requires
        states.len() == ids.len() + 1,
        forall|j: int|
            0 <= j < ids.len() ==> #[trigger] ids[j] == states[j].next_id(kind) && states[j
                + 1].next_id(kind) == ids[j] + 1,
    ensures
        forall|j: int| 0 <= j < ids.len() ==> #[trigger] ids[j] == ids[0] + j,
        forall|i: int, j: int| 0 <= i < j < ids.len() ==> ids[i] != ids[j],
    decreases ids.len(),
{
    if ids.len() > 1 {
        let n = ids.len() - 1;
        lemma_successive_ids_are_fresh(states.drop_last(), ids.drop_last(), kind);
        assert(ids.drop_last()[n - 1] == ids[n - 1]);
        assert(ids[n - 1] == states[n - 1].next_id(kind) && states[n].next_id(kind) == ids[n - 1] + 1);
        assert(ids[n] == states[n].next_id(kind));
        assert forall|j: int| 0 <= j < ids.len() implies #[trigger] ids[j] == ids[0] + j by {
            if j < n {
                assert(ids.drop_last()[j] == ids[j]);
            }
        }
    }
}

impl Default for ComponentIDs {
    fn default() -> (ids: Self)
        ensures
            ids.next_mic_id() == 0,
            ids.next_source_id() == 0,
            ids.next_wall_id() == 0,
    {
        ComponentIDs { current_mic_id: 0, current_source_id: 0, current_wall_id: 0 }
    }
}

} // verus!
