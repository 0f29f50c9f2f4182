//! The streams that the hub knows, and which of them are running.
use vstd::prelude::*;

use crate::model;
use crate::text;

use crate::model::{StreamConfig, StreamMetadata, StreamResponse};

verus! {

/// The time after which a stream that nobody reads is stopped, in nanoseconds.
pub const IDLE_LIMIT: u64 = 60_000_000_000;

/// How far before its arrival a new stream counts as last read, in
/// nanoseconds.
pub const BACKDATE: u64 = 120_000_000_000;

/// What is known of one stream. `C` is the handle of a running process.
pub struct Entry<C> {
    pub name: String,
    pub url: String,
    pub child: Option<C>,
    pub last_access: u64,
    pub metadata: StreamMetadata,
    pub proxy: String,
}

/// The content of an [`Entry`].
pub struct EntryView<C> {
    pub name: Seq<char>,
    pub url: Seq<char>,
    pub child: Option<C>,
    pub last_access: u64,
    pub metadata: model::MetadataView,
    pub proxy: Seq<char>,
}

impl<C> View for Entry<C> {
    type V = EntryView<C>;

    open spec fn view(&self) -> EntryView<C> {
        EntryView {
            name: self.name@,
            url: self.url@,
            child: self.child,
            last_access: self.last_access,
            metadata: self.metadata@,
            proxy: self.proxy@,
        }
    }
}

/// A stream that was just added or loaded: not running.
pub open spec fn standby<C>(config: model::ConfigView, now: u64) -> EntryView<C> {
    EntryView {
        name: config.name,
        url: config.url,
        child: None,
        last_access: (now - BACKDATE) as u64,
        metadata: config.metadata,
        proxy: config.proxy,
    }
}

/// What a client is shown of a stream.
pub open spec fn response_of<C>(id: Seq<char>, entry: EntryView<C>) -> model::ResponseView {
    model::ResponseView {
        id,
        name: entry.name,
        url: entry.url,
        m3u8_url: model::playlist_path(id),
        status: model::status_word(entry.child is Some),
        metadata: entry.metadata,
    }
}

/// The stream runs and was last read more than the limit ago.
pub open spec fn is_idle<C>(entry: EntryView<C>, now: u64) -> bool {
    entry.child is Some && now - entry.last_access > IDLE_LIMIT
}

/// The process of the stream `id`, where it runs.
pub open spec fn child_of<C>(streams: Map<Seq<char>, EntryView<C>>, id: Seq<char>) -> Option<C> {
    if streams.contains_key(id) {
        streams[id].child
    } else {
        None
    }
}

/// The streams, once `id` was read at the time `now`.
pub open spec fn touched<C>(
    streams: Map<Seq<char>, EntryView<C>>,
    id: Seq<char>,
    now: u64,
) -> Map<Seq<char>, EntryView<C>> {
    if streams.contains_key(id) {
        streams.insert(id, EntryView { last_access: now, ..streams[id] })
    } else {
        streams
    }
}

/// The streams, once `child` is the process of `id`.
pub open spec fn attached<C>(
    streams: Map<Seq<char>, EntryView<C>>,
    id: Seq<char>,
    child: C,
) -> Map<Seq<char>, EntryView<C>> {
    if streams.contains_key(id) {
        streams.insert(id, EntryView { child: Some(child), ..streams[id] })
    } else {
        streams
    }
}

/// The streams, once `id` no longer runs.
pub open spec fn detached<C>(
    streams: Map<Seq<char>, EntryView<C>>,
    id: Seq<char>,
) -> Map<Seq<char>, EntryView<C>> {
    if streams.contains_key(id) {
        streams.insert(id, EntryView { child: None, ..streams[id] })
    } else {
        streams
    }
}

/// The views of a list of responses.
pub open spec fn response_views(responses: Seq<StreamResponse>) -> Seq<model::ResponseView> {
    responses.map_values(|response: StreamResponse| response@)
}

/// `ids` holds every stream of `streams` once, in some order, and no other.
pub open spec fn enumerates<C>(
    ids: Seq<Seq<char>>,
    streams: Map<Seq<char>, EntryView<C>>,
) -> bool {
    &&& ids.no_duplicates()
    &&& forall|id: Seq<char>| ids.contains(id) <==> #[trigger] streams.contains_key(id)
}

/// `shown` shows every stream of `streams` once, in some order, and no other.
pub open spec fn lists<C>(
    shown: Seq<model::ResponseView>,
    streams: Map<Seq<char>, EntryView<C>>,
) -> bool {
    &&& enumerates(shown.map_values(|response: model::ResponseView| response.id), streams)
    &&& forall|i: int|
        0 <= i < shown.len() ==> #[trigger] shown[i] == response_of(
            shown[i].id,
            streams[shown[i].id],
        )
}

struct Slot<C> {
    id: String,
    entry: Entry<C>,
}

/// The streams by their ids.
pub struct Registry<C> {
    slots: Vec<Slot<C>>,
}

/// No id stands in two slots.
spec fn unique_ids<C>(slots: Seq<Slot<C>>) -> bool {
    forall|i: int, j: int|
        0 <= i < j < slots.len() ==> (#[trigger] slots[i]).id@ != (#[trigger] slots[j]).id@
}

/// The slot `i` holds the stream `id`.
spec fn holds<C>(slots: Seq<Slot<C>>, id: Seq<char>, i: int) -> bool {
    0 <= i < slots.len() && slots[i].id@ == id
}

/// The streams that the slots hold, by their ids.
spec fn slot_map<C>(slots: Seq<Slot<C>>) -> Map<Seq<char>, EntryView<C>> {
    Map::new(
        |id: Seq<char>| exists|i: int| holds(slots, id, i),
        |id: Seq<char>| slots[choose|i: int| holds(slots, id, i)].entry@,
    )
}

proof fn slot_is_mapped<C>(slots: Seq<Slot<C>>, i: int)
    requires
        unique_ids(slots),
        0 <= i < slots.len(),
    ensures
        slot_map(slots).contains_key(slots[i].id@),
        slot_map(slots)[slots[i].id@] == slots[i].entry@,
{
    let id = slots[i].id@;
    assert(holds(slots, id, i));
    let chosen = choose|j: int| holds(slots, id, j);
    assert(holds(slots, id, chosen));
    assert(chosen == i) by {
        if chosen < i {
            assert(slots[chosen].id@ != slots[i].id@);
        } else if i < chosen {
            assert(slots[i].id@ != slots[chosen].id@);
        }
    }
}

proof fn updating_a_slot<C>(slots: Seq<Slot<C>>, i: int, slot: Slot<C>)
    requires
        unique_ids(slots),
        0 <= i < slots.len(),
        slot.id@ == slots[i].id@,
    ensures
        unique_ids(slots.update(i, slot)),
        slot_map(slots.update(i, slot)) == slot_map(slots).insert(slot.id@, slot.entry@),
{
    let after = slots.update(i, slot);
    assert(unique_ids(after));
    assert forall|id: Seq<char>| slot_map(after).contains_key(id) <==> slot_map(slots).insert(
        slot.id@,
        slot.entry@,
    ).contains_key(id) by {
        if slot_map(after).contains_key(id) {
            let j = choose|j: int| holds(after, id, j);
            assert(holds(slots, id, j));
        }
        if slot_map(slots).contains_key(id) {
            let j = choose|j: int| holds(slots, id, j);
            assert(holds(after, id, j));
        }
        assert(holds(after, slot.id@, i));
    }
    assert forall|id: Seq<char>| slot_map(after).contains_key(id) implies slot_map(after)[id]
        == slot_map(slots).insert(slot.id@, slot.entry@)[id] by {
        let j = choose|j: int| holds(after, id, j);
        slot_is_mapped(after, j);
        slot_is_mapped(slots, j);
    }
    assert(slot_map(after) =~= slot_map(slots).insert(slot.id@, slot.entry@));
}

proof fn adding_a_slot<C>(slots: Seq<Slot<C>>, slot: Slot<C>)
    requires
        unique_ids(slots),
        !slot_map(slots).contains_key(slot.id@),
    ensures
        unique_ids(slots.push(slot)),
        slot_map(slots.push(slot)) == slot_map(slots).insert(slot.id@, slot.entry@),
{
    let after = slots.push(slot);
    let last = slots.len() as int;
    assert forall|i: int, j: int| 0 <= i < j < after.len() implies (#[trigger] after[i]).id@ != (
    #[trigger] after[j]).id@ by {
        if j == last {
            assert(holds(slots, slots[i].id@, i));
        }
    }
    assert forall|id: Seq<char>| slot_map(after).contains_key(id) <==> slot_map(slots).insert(
        slot.id@,
        slot.entry@,
    ).contains_key(id) by {
        if slot_map(after).contains_key(id) {
            let j = choose|j: int| holds(after, id, j);
            if j < last {
                assert(holds(slots, id, j));
            }
        }
        if slot_map(slots).contains_key(id) {
            let j = choose|j: int| holds(slots, id, j);
            assert(holds(after, id, j));
        }
        assert(holds(after, slot.id@, last));
    }
    assert forall|id: Seq<char>| slot_map(after).contains_key(id) implies slot_map(after)[id]
        == slot_map(slots).insert(slot.id@, slot.entry@)[id] by {
        let j = choose|j: int| holds(after, id, j);
        slot_is_mapped(after, j);
        if j < last {
            slot_is_mapped(slots, j);
        }
    }
    assert(slot_map(after) =~= slot_map(slots).insert(slot.id@, slot.entry@));
}

proof fn removing_a_slot<C>(slots: Seq<Slot<C>>, i: int)
    requires
        unique_ids(slots),
        0 <= i < slots.len(),
    ensures
        unique_ids(slots.remove(i)),
        slot_map(slots.remove(i)) == slot_map(slots).remove(slots[i].id@),
{
    let after = slots.remove(i);
    let gone = slots[i].id@;
    assert forall|a: int, b: int| 0 <= a < b < after.len() implies (#[trigger] after[a]).id@ != (
    #[trigger] after[b]).id@ by {
        let a0 = if a < i {
            a
        } else {
            a + 1
        };
        let b0 = if b < i {
            b
        } else {
            b + 1
        };
        assert(slots[a0].id@ != slots[b0].id@);
    }
    assert forall|id: Seq<char>| slot_map(after).contains_key(id) <==> slot_map(slots).remove(
        gone,
    ).contains_key(id) by {
        if slot_map(after).contains_key(id) {
            let j = choose|j: int| holds(after, id, j);
            let j0 = if j < i {
                j
            } else {
                j + 1
            };
            assert(holds(slots, id, j0));
            if j0 < i {
                assert(slots[j0].id@ != slots[i].id@);
            } else {
                assert(slots[i].id@ != slots[j0].id@);
            }
        }
        if slot_map(slots).contains_key(id) && id != gone {
            let j = choose|j: int| holds(slots, id, j);
            let j1 = if j < i {
                j
            } else {
                j - 1
            };
            assert(holds(after, id, j1));
        }
    }
    assert forall|id: Seq<char>| slot_map(after).contains_key(id) implies slot_map(after)[id]
        == slot_map(slots).remove(gone)[id] by {
        let j = choose|j: int| holds(after, id, j);
        slot_is_mapped(after, j);
        let j0 = if j < i {
            j
        } else {
            j + 1
        };
        slot_is_mapped(slots, j0);
    }
    assert(slot_map(after) =~= slot_map(slots).remove(gone));
}

proof fn slots_are_enumerated<C>(slots: Seq<Slot<C>>, ids: Seq<Seq<char>>)
    requires
        unique_ids(slots),
        ids.len() == slots.len(),
        forall|i: int| 0 <= i < slots.len() ==> #[trigger] ids[i] == slots[i].id@,
    ensures
        enumerates(ids, slot_map(slots)),
{
    assert forall|i: int, j: int| 0 <= i < ids.len() && 0 <= j < ids.len() && i != j implies ids[i]
        != ids[j] by {
        if i < j {
            assert(slots[i].id@ != slots[j].id@);
        } else {
            assert(slots[j].id@ != slots[i].id@);
        }
    }
    assert forall|id: Seq<char>|
        ids.contains(id) <==> #[trigger] slot_map(slots).contains_key(id) by {
        if ids.contains(id) {
            let i = choose|i: int| 0 <= i < ids.len() && ids[i] == id;
            assert(holds(slots, id, i));
        }
        if slot_map(slots).contains_key(id) {
            let i = choose|i: int| holds(slots, id, i);
            assert(ids[i] == id);
        }
    }
}

impl<C> View for Registry<C> {
    type V = Map<Seq<char>, EntryView<C>>;

    closed spec fn view(&self) -> Map<Seq<char>, EntryView<C>> {
        slot_map(self.slots@)
    }
}

impl<C> Registry<C> {
    #[verifier::type_invariant]
    spec fn well_formed(self) -> bool {
        unique_ids(self.slots@)
    }

    /// A registry without streams.
    pub fn new() -> (registry: Self)
        ensures
            registry@ == Map::<Seq<char>, EntryView<C>>::empty(),
    {
        let registry = Registry { slots: Vec::new() };
        assert(registry@ =~= Map::<Seq<char>, EntryView<C>>::empty()) by {
            assert forall|id: Seq<char>| !registry@.contains_key(id) by {
                if registry@.contains_key(id) {
                    let i = choose|i: int| holds(registry.slots@, id, i);
                    assert(holds(registry.slots@, id, i));
                }
            }
        }
        registry
    }

    fn find_slot(&self, id: &str) -> (at: Option<usize>)
        ensures
            match at {
                Some(i) => holds(self.slots@, id@, i as int) && self@.contains_key(id@) && self@[id@]
                    == self.slots[i as int].entry@,
                None => !self@.contains_key(id@),
            },
    {
        proof {
            use_type_invariant(self);
        }
        let mut i: usize = 0;
        while i < self.slots.len()
            invariant
                i <= self.slots.len(),
                unique_ids(self.slots@),
                forall|j: int| 0 <= j < i ==> (#[trigger] self.slots[j]).id@ != id@,
            decreases self.slots.len() - i,
        {
            if text::same(self.slots[i].id.as_str(), id) {
                proof {
                    slot_is_mapped(self.slots@, i as int);
                }
                return Some(i);
            }
            i += 1;
        }
        assert(!self@.contains_key(id@)) by {
            if self@.contains_key(id@) {
                let j = choose|j: int| holds(self.slots@, id@, j);
                assert(holds(self.slots@, id@, j));
                assert(self.slots[j].id@ == id@);
            }
        }
        None
    }

    /// What is known of the stream `id`.
    pub fn get(&self, id: &str) -> (entry: Option<&Entry<C>>)
        ensures
            match entry {
                Some(known) => self@.contains_key(id@) && self@[id@] == known@,
                None => !self@.contains_key(id@),
            },
    {
        match self.find_slot(id) {
            Some(i) => Some(&self.slots[i].entry),
            None => None,
        }
    }

    /// Adds a stream, not running; one that has its id is replaced.
    pub fn insert(&mut self, config: &StreamConfig, now: u64)
        requires
            now >= BACKDATE,
        ensures
            final(self)@ == old(self)@.insert(config.id@, standby(config@, now)),
    {
        let entry = Entry {
            name: config.name.clone(),
            url: config.url.clone(),
            child: None,
            last_access: now - BACKDATE,
            metadata: config.metadata.clone(),
            proxy: config.proxy.clone(),
        };
        let slot = Slot { id: config.id.clone(), entry };
        let found = self.find_slot(config.id.as_str());
        proof {
            use_type_invariant(&*self);
        }
        let mut slots: Vec<Slot<C>> = Vec::new();
        std::mem::swap(&mut slots, &mut self.slots);
        match found {
            Some(i) => {
                proof {
                    updating_a_slot(slots@, i as int, slot);
                }
                slots[i] = slot;
            },
            None => {
                proof {
                    adding_a_slot(slots@, slot);
                }
                slots.push(slot);
            },
        }
        self.slots = slots;
    }

    /// Forgets the stream `id` and hands out what was known of it.
    pub fn remove(&mut self, id: &str) -> (entry: Option<Entry<C>>)
        ensures
            final(self)@ == old(self)@.remove(id@),
            match entry {
                Some(known) => old(self)@.contains_key(id@) && old(self)@[id@] == known@,
                None => !old(self)@.contains_key(id@),
            },
    {
        match self.find_slot(id) {
            Some(i) => {
                proof {
                    use_type_invariant(&*self);
                }
                let mut slots: Vec<Slot<C>> = Vec::new();
                std::mem::swap(&mut slots, &mut self.slots);
                proof {
                    removing_a_slot(slots@, i as int);
                }
                let slot = slots.remove(i);
                self.slots = slots;
                Some(slot.entry)
            },
            None => {
                assert(self@.remove(id@) =~= self@);
                None
            },
        }
    }

    /// Notes that the stream `id` was read at the time `now`.
    pub fn touch(&mut self, id: &str, now: u64)
        ensures
            final(self)@ == touched(old(self)@, id@, now),
    {
        match self.find_slot(id) {
            Some(i) => {
                proof {
                    use_type_invariant(&*self);
                }
                let mut slots: Vec<Slot<C>> = Vec::new();
                std::mem::swap(&mut slots, &mut self.slots);
                let ghost before = slots@;
                slots[i].entry.last_access = now;
                proof {
                    updating_a_slot(before, i as int, slots[i as int]);
                    assert(slots@ =~= before.update(i as int, slots[i as int]));
                }
                self.slots = slots;
            },
            None => {},
        }
    }

    /// Makes `child` the process of the stream `id`, in place of one that it
    /// had, and tells whether the stream is known.
    pub fn attach(&mut self, id: &str, child: C) -> (known: bool)
        ensures
            known == old(self)@.contains_key(id@),
            final(self)@ == attached(old(self)@, id@, child),
    {
        match self.find_slot(id) {
            Some(i) => {
                proof {
                    use_type_invariant(&*self);
                }
                let mut slots: Vec<Slot<C>> = Vec::new();
                std::mem::swap(&mut slots, &mut self.slots);
                let ghost before = slots@;
                slots[i].entry.child = Some(child);
                proof {
                    updating_a_slot(before, i as int, slots[i as int]);
                    assert(slots@ =~= before.update(i as int, slots[i as int]));
                }
                self.slots = slots;
                true
            },
            None => false,
        }
    }

    /// Hands out the process of the stream `id`, which no longer runs then.
    pub fn detach(&mut self, id: &str) -> (child: Option<C>)
        ensures
            child == child_of(old(self)@, id@),
            final(self)@ == detached(old(self)@, id@),
    {
        match self.find_slot(id) {
            Some(i) => {
                proof {
                    use_type_invariant(&*self);
                }
                let mut slots: Vec<Slot<C>> = Vec::new();
                std::mem::swap(&mut slots, &mut self.slots);
                let ghost before = slots@;
                let child = slots[i].entry.child.take();
                proof {
                    updating_a_slot(before, i as int, slots[i as int]);
                    assert(slots@ =~= before.update(i as int, slots[i as int]));
                }
                self.slots = slots;
                child
            },
            None => None,
        }
    }

    /// Hands out the process of the stream `id` if the stream is idle, and
    /// the stream no longer runs then.
    pub fn expire(&mut self, id: &str, now: u64) -> (child: Option<C>)
        ensures
            old(self)@.contains_key(id@) && is_idle(old(self)@[id@], now) ==> child == child_of(
                old(self)@,
                id@,
            ) && final(self)@ == detached(old(self)@, id@),
            !(old(self)@.contains_key(id@) && is_idle(old(self)@[id@], now)) ==> child is None
                && final(self)@ == old(self)@,
    {
        let idle = match self.get(id) {
            Some(entry) => entry.child.is_some() && now > entry.last_access && now
                - entry.last_access > IDLE_LIMIT,
            None => false,
        };
        if idle {
            self.detach(id)
        } else {
            None
        }
    }

    /// The ids of the streams, in no particular order.
    pub fn ids(&self) -> (ids: Vec<String>)
        ensures
            enumerates(text::texts(ids@), self@),
    {
        proof {
            use_type_invariant(self);
        }
        let mut ids: Vec<String> = Vec::new();
        let mut i: usize = 0;
        while i < self.slots.len()
            invariant
                i <= self.slots.len(),
                ids.len() == i,
                forall|j: int| 0 <= j < i ==> (#[trigger] ids[j])@ == self.slots[j].id@,
            decreases self.slots.len() - i,
        {
            ids.push(self.slots[i].id.clone());
            i += 1;
        }
        proof {
            slots_are_enumerated(self.slots@, text::texts(ids@));
        }
        ids
    }

    /// What clients are shown of all streams, in no particular order.
    pub fn list(&self) -> (shown: Vec<StreamResponse>)
        ensures
            lists(response_views(shown@), self@),
    {
        proof {
            use_type_invariant(self);
        }
        let mut shown: Vec<StreamResponse> = Vec::new();
        let mut i: usize = 0;
        while i < self.slots.len()
            invariant
                i <= self.slots.len(),
                shown.len() == i,
                forall|j: int|
                    0 <= j < i ==> (#[trigger] shown[j])@ == response_of(
                        self.slots[j].id@,
                        self.slots[j].entry@,
                    ),
            decreases self.slots.len() - i,
        {
            let slot = &self.slots[i];
            shown.push(
                StreamResponse {
                    id: slot.id.clone(),
                    name: slot.entry.name.clone(),
                    url: slot.entry.url.clone(),
                    m3u8_url: model::m3u8_url(slot.id.as_str()),
                    status: model::status_text(slot.entry.child.is_some()),
                    metadata: slot.entry.metadata.clone(),
                },
            );
            i += 1;
        }
        proof {
            let views = response_views(shown@);
            let ids = views.map_values(|response: model::ResponseView| response.id);
            slots_are_enumerated(self.slots@, ids);
            assert forall|j: int| 0 <= j < views.len() implies #[trigger] views[j] == response_of(
                views[j].id,
                self@[views[j].id],
            ) by {
                slot_is_mapped(self.slots@, j);
                assert(views[j] == shown[j]@);
            }
        }
        shown
    }
}

} // verus!
