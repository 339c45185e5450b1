//! Entity chunks: fetching them from disk, and generating those that are not
//! there.

use crate::chunk_map::{self, lists, lookup};
use crate::level::{Level, LevelView};
use crate::math::Vector2;
use vstd::prelude::*;

verus! {

/// An entity chunk: where it is, the handles of its entities, and whether it
/// has changed since it was saved.
#[derive(Debug)]
pub struct ChunkEntityData {
    pub x: i32,
    pub z: i32,
    pub data: Vec<usize>,
    pub dirty: bool,
}

/// Why a chunk could not be read.
#[derive(Clone, Copy, Debug, PartialEq, Eq, Structural)]
pub enum ChunkReadingError {
    /// There is no such chunk on disk.
    ChunkNotExist,
    /// Something else went wrong; the number says what to whoever read.
    Other(usize),
}

/// What came of fetching one chunk from disk.
#[derive(Clone, Copy, Debug, PartialEq, Eq, Structural)]
pub enum LoadedData {
    /// The chunk, by its handle, and the coordinates that it bears itself.
    Loaded(usize, Vector2),
    /// There is no chunk with these coordinates.
    Missing(Vector2),
    /// The chunk with these coordinates could not be read.
    Error(Vector2, ChunkReadingError),
}

/// How a call for an entity chunk goes on.
#[derive(Clone, Copy, Debug, PartialEq, Eq, Structural)]
pub enum EntityChunkStep {
    /// Here is the chunk.
    Ready(usize),
    /// The chunk is to be fetched from disk.
    Fetch,
    /// The chunk is to be waited for until it is generated; `request` says
    /// whether its generation must still be asked for.
    AwaitGeneration { request: bool },
}

/// What to do with one chunk that came from disk, for whoever receives a
/// number of entity chunks.
#[derive(Clone, Copy, Debug, PartialEq, Eq, Structural)]
pub enum Arrival {
    /// Send the chunk on, and say whether it was generated. `replaced` is the
    /// chunk that left memory for it, if one did.
    Deliver { handle: usize, generated: bool, replaced: Option<usize> },
    /// Wait until the chunk with these coordinates is generated; `request`
    /// says whether its generation must still be asked for. Then send it on,
    /// and say whether it was generated.
    AwaitGeneration { pos: Vector2, request: bool, generated: bool },
}

/// An entity chunk that was generated.
#[derive(Debug)]
pub struct Generated {
    pub chunk: ChunkEntityData,
    /// Those who wait for the chunk, in the order in which they came.
    pub waiters: Vec<usize>,
    /// The chunk that left memory for it, if one did.
    pub replaced: Option<usize>,
}

/// The entity chunks that were asked for: those in memory, by their handles,
/// and the coordinates of those that are to be fetched.
pub struct ReceivePlan {
    pub ready: Vec<usize>,
    pub to_fetch: Vec<Vector2>,
}

/// The handles of the listed chunks that a map holds, in the order of the list.
pub open spec fn held(map: Map<(i32, i32), usize>, chunks: Seq<Vector2>) -> Seq<usize> {
    chunks.filter_map(|at: Vector2| lookup(map, at.key()))
}

/// The listed chunks that a map does not hold, in the order of the list.
pub open spec fn not_held(map: Map<(i32, i32), usize>, chunks: Seq<Vector2>) -> Seq<Vector2> {
    chunks.filter(|at: Vector2| !map.contains_key(at.key()))
}

/// The queues after one more waits for a chunk.
pub open spec fn enqueued(
    pending: Map<(i32, i32), Seq<usize>>,
    pos: Vector2,
    waiter: usize,
) -> Map<(i32, i32), Seq<usize>> {
    pending.insert(pos.key(), waiting(pending, pos).push(waiter))
}

/// Who waits for a chunk.
pub open spec fn waiting(pending: Map<(i32, i32), Seq<usize>>, pos: Vector2) -> Seq<usize> {
    if pending.contains_key(pos.key()) {
        pending[pos.key()]
    } else {
        Seq::empty()
    }
}

impl LevelView {
    /// The level after one more waits for an entity chunk.
    pub open spec fn with_waiter(self, pos: Vector2, waiter: usize) -> LevelView {
        LevelView { pending: enqueued(self.pending, pos, waiter), ..self }
    }

    /// The level after an entity chunk came into memory.
    pub open spec fn with_entity_chunk(self, pos: Vector2, handle: usize) -> LevelView {
        LevelView { loaded_entities: self.loaded_entities.insert(pos.key(), handle), ..self }
    }

    /// How a call for an entity chunk begins.
    pub open spec fn entity_chunk_step(self, pos: Vector2) -> EntityChunkStep {
        match lookup(self.loaded_entities, pos.key()) {
            Some(handle) => EntityChunkStep::Ready(handle),
            None => EntityChunkStep::Fetch,
        }
    }
}

/// What a fetch of a single entity chunk gives, from the first thing that came
/// back, if anything did. A chunk that was fetched was not generated.
pub open spec fn single_fetch(fetched: Option<LoadedData>) -> Result<
    (usize, bool),
    ChunkReadingError,
> {
    match fetched {
        Some(LoadedData::Loaded(handle, _)) => Ok((handle, false)),
        Some(LoadedData::Missing(_)) => Err(ChunkReadingError::ChunkNotExist),
        Some(LoadedData::Error(_, error)) => Err(error),
        None => Err(ChunkReadingError::ChunkNotExist),
    }
}

impl ReceivePlan {
    /// Whether anything is to be fetched.
    pub fn has_chunks_to_fetch(&self) -> (fetches: bool)
        ensures
            fetches == (self.to_fetch@.len() > 0),
    {
        !self.to_fetch.is_empty()
    }
}

impl ChunkEntityData {
    /// A new entity chunk: it holds no entities and has not been saved.
    pub fn generated(pos: Vector2) -> (chunk: ChunkEntityData)
        ensures
            chunk.x == pos.x,
            chunk.z == pos.y,
            chunk.data@.len() == 0,
            chunk.dirty,
    {
        ChunkEntityData { x: pos.x, z: pos.y, data: Vec::new(), dirty: true }
    }
}

impl Level {
    /// The handle of an entity chunk, if it is in memory. The map is not waited
    /// for.
    pub fn try_get_entity_chunk(&self, coordinates: Vector2) -> (found: Option<usize>)
        ensures
            found == lookup(self@.loaded_entities, coordinates.key()),
    {
        chunk_map::try_get(&self.loaded_entity_chunks, coordinates.key()).value()
    }

    /// The handles of the entity chunks in memory, with their coordinates,
    /// each once, in some order.
    pub fn loaded_entity_chunk_handles(&self) -> (listed: Vec<((i32, i32), usize)>)
        ensures
            lists(listed@, self@.loaded_entities),
    {
        chunk_map::to_vec(&self.loaded_entity_chunks)
    }

    /// Lets one more wait for an entity chunk that is to be generated. Says
    /// whether its generation must still be asked for: it must if nobody
    /// waited for it before.
    pub fn await_entity_generation(&mut self, pos: Vector2, waiter: usize) -> (request: bool)
        requires
            old(self)@.wf(),
        ensures
            final(self)@.wf(),
            final(self)@ == old(self)@.with_waiter(pos, waiter),
            request == !old(self)@.pending.contains_key(pos.key()),
    {
        let (mut queue, request) = match chunk_map::take_queue(
            &mut self.pending_entity_generations,
            pos.key(),
        ) {
            Some(queue) => (queue, false),
            None => (Vec::new(), true),
        };
        queue.push(waiter);
        chunk_map::put_queue(&mut self.pending_entity_generations, pos.key(), queue);
        assert(self@.pending =~= enqueued(old(self)@.pending, pos, waiter));
        request
    }

    /// Generates the entity chunk with the given coordinates, to be kept under
    /// the given handle, unless the level is shutting down. Returns the chunk,
    /// those who wait for it, and what it replaced.
    pub fn generate_entity_chunk(&mut self, pos: Vector2, handle: usize) -> (generated: Option<
        Generated,
    >)
        requires
            old(self)@.wf(),
        ensures
            final(self)@.wf(),
            generated is None <==> old(self)@.is_shutting_down,
            generated is None ==> final(self)@ == old(self)@,
            generated is Some ==> {
                let Generated { chunk, waiters, replaced } = generated->0;
                &&& chunk.x == pos.x
                &&& chunk.z == pos.y
                &&& chunk.data@.len() == 0
                &&& chunk.dirty
                &&& waiters@ == waiting(old(self)@.pending, pos)
                &&& replaced == lookup(old(self)@.loaded_entities, pos.key())
                &&& final(self)@ == (LevelView {
                    pending: old(self)@.pending.remove(pos.key()),
                    ..old(self)@.with_entity_chunk(pos, handle)
                })
            },
    {
        if self.is_shutting_down {
            return None;
        }
        let chunk = ChunkEntityData::generated(pos);
        let replaced = chunk_map::insert(&mut self.loaded_entity_chunks, pos.key(), handle);
        let waiters = match chunk_map::take_queue(
            &mut self.pending_entity_generations,
            pos.key(),
        ) {
            Some(waiters) => waiters,
            None => Vec::new(),
        };
        Some(Generated { chunk, waiters, replaced })
    }

    /// What a fetch of a single entity chunk gives, from the first thing that
    /// came back, if anything did.
    pub fn load_single_entity_chunk(fetched: Option<LoadedData>) -> (loaded: Result<
        (usize, bool),
        ChunkReadingError,
    >)
        ensures
            loaded == single_fetch(fetched),
    {
        match fetched {
            Some(LoadedData::Loaded(handle, _)) => Ok((handle, false)),
            Some(LoadedData::Missing(_)) => Err(ChunkReadingError::ChunkNotExist),
            Some(LoadedData::Error(_, error)) => Err(error),
            None => Err(ChunkReadingError::ChunkNotExist),
        }
    }

    /// Begins a call for an entity chunk: it is in memory, or it is to be
    /// fetched.
    pub fn get_entity_chunk(&self, pos: Vector2) -> (step: EntityChunkStep)
        ensures
            step == self@.entity_chunk_step(pos),
            step is Fetch <==> !self@.loaded_entities.contains_key((pos.x, pos.y)),
            step matches EntityChunkStep::Ready(handle) ==> self@.loaded_entities.contains_key(
                (pos.x, pos.y),
            ) && self@.loaded_entities[(pos.x, pos.y)] == handle,
    {
        match chunk_map::get(&self.loaded_entity_chunks, pos.key()) {
            Some(handle) => EntityChunkStep::Ready(handle),
            None => EntityChunkStep::Fetch,
        }
    }

    /// Goes on with a call for an entity chunk when the fetch has come back: a
    /// chunk that was fetched comes into memory under the coordinates that it
    /// was asked for; where none was, the caller waits for its generation.
    /// Hands back the chunk that left memory for the new one, if one did.
    pub fn entity_chunk_fetched(
        &mut self,
        pos: Vector2,
        fetched: Option<LoadedData>,
        waiter: usize,
    ) -> (went: (EntityChunkStep, Option<usize>))
        requires
            old(self)@.wf(),
        ensures
            final(self)@.wf(),
            match single_fetch(fetched) {
                Ok((handle, _)) => {
                    &&& went.0 == EntityChunkStep::Ready(handle)
                    &&& went.1 == lookup(old(self)@.loaded_entities, pos.key())
                    &&& final(self)@ == old(self)@.with_entity_chunk(pos, handle)
                },
                Err(_) => {
                    &&& went.0 == (EntityChunkStep::AwaitGeneration {
                        request: !old(self)@.pending.contains_key(pos.key()),
                    })
                    &&& went.1 is None
                    &&& final(self)@ == old(self)@.with_waiter(pos, waiter)
                },
            },
    {
        match Level::load_single_entity_chunk(fetched) {
            Ok((handle, _)) => {
                let replaced = chunk_map::insert(
                    &mut self.loaded_entity_chunks,
                    pos.key(),
                    handle,
                );
                (EntityChunkStep::Ready(handle), replaced)
            },
            Err(_) => {
                let request = self.await_entity_generation(pos, waiter);
                (EntityChunkStep::AwaitGeneration { request }, None)
            },
        }
    }

    /// Parts the entity chunks that were asked for into those in memory and
    /// those to be fetched.
    pub fn receive_entity_chunks(&self, chunks: &Vec<Vector2>) -> (plan: ReceivePlan)
        ensures
            plan.ready@ == held(self@.loaded_entities, chunks@),
            plan.to_fetch@ == not_held(self@.loaded_entities, chunks@),
            plan.ready@ == chunks@.filter(
                |at: Vector2| self@.loaded_entities.contains_key((at.x, at.y)),
            ).map_values(|at: Vector2| self@.loaded_entities[(at.x, at.y)]),
            plan.to_fetch@ == chunks@.filter(
                |at: Vector2| !self@.loaded_entities.contains_key((at.x, at.y)),
            ),
    {
        let mut ready: Vec<usize> = Vec::new();
        let mut to_fetch: Vec<Vector2> = Vec::new();
        let mut i: usize = 0;
        proof {
            reveal(Seq::filter);
        }
        while i < chunks.len()
            invariant
                i <= chunks@.len(),
                ready@ == held(self@.loaded_entities, chunks@.take(i as int)),
                to_fetch@ == not_held(self@.loaded_entities, chunks@.take(i as int)),
            decreases chunks@.len() - i,
        {
            let pos = chunks[i];
            match chunk_map::get(&self.loaded_entity_chunks, pos.key()) {
                Some(handle) => {
                    ready.push(handle);
                },
                None => {
                    to_fetch.push(pos);
                },
            }
            i += 1;
            proof {
                reveal(Seq::filter);
                assert(chunks@.take(i as int).drop_last() =~= chunks@.take(i - 1));
                assert(ready@ =~= held(self@.loaded_entities, chunks@.take(i as int)));
            }
        }
        assert(chunks@.take(i as int) =~= chunks@);
        proof {
            law_ready_chunks_are_those_asked_for(self@.loaded_entities, chunks@);
            law_chunks_to_fetch_are_those_not_in_memory(self@.loaded_entities, chunks@);
        }
        ReceivePlan { ready, to_fetch }
    }

    /// Deals with one entity chunk that came from disk, for whoever receives a
    /// number of them: a chunk that was fetched comes into memory under the
    /// coordinates that it bears and is sent on; one that was not is waited
    /// for until it is generated.
    pub fn entity_chunk_arrived(&mut self, data: LoadedData, waiter: usize) -> (arrival: Arrival)
        requires
            old(self)@.wf(),
        ensures
            final(self)@.wf(),
            match data {
                LoadedData::Loaded(handle, pos) => {
                    &&& arrival == (Arrival::Deliver {
                        handle,
                        generated: false,
                        replaced: lookup(old(self)@.loaded_entities, pos.key()),
                    })
                    &&& final(self)@ == old(self)@.with_entity_chunk(pos, handle)
                },
                LoadedData::Missing(pos) | LoadedData::Error(pos, _) => {
                    &&& arrival == (Arrival::AwaitGeneration {
                        pos,
                        request: !old(self)@.pending.contains_key(pos.key()),
                        generated: true,
                    })
                    &&& final(self)@ == old(self)@.with_waiter(pos, waiter)
                },
            },
    {
        match data {
            LoadedData::Loaded(handle, pos) => {
                let replaced = chunk_map::insert(
                    &mut self.loaded_entity_chunks,
                    pos.key(),
                    handle,
                );
                Arrival::Deliver { handle, generated: false, replaced }
            },
            LoadedData::Missing(pos) | LoadedData::Error(pos, _) => {
                let request = self.await_entity_generation(pos, waiter);
                Arrival::AwaitGeneration { pos, request, generated: true }
            },
        }
    }
}

/// The queues after a number of callers have begun to wait for a chunk, one
/// after the other.
pub open spec fn enqueued_all(
    pending: Map<(i32, i32), Seq<usize>>,
    pos: Vector2,
    waiters: Seq<usize>,
) -> Map<(i32, i32), Seq<usize>>
    decreases waiters.len(),
{
    if waiters.len() == 0 {
        pending
    } else {
        enqueued(enqueued_all(pending, pos, waiters.drop_last()), pos, waiters.last())
    }
}

/// Of all who wait for a chunk that nobody waited for before, only the first
/// asks for its generation; the chunk then goes to every one of them, in the
/// order in which they came; and nobody else's wait is touched.
pub proof fn law_one_request_serves_all_who_wait(
    pending: Map<(i32, i32), Seq<usize>>,
    pos: Vector2,
    waiters: Seq<usize>,
)
    requires
        !pending.contains_key(pos.key()),
    ensures
        waiting(enqueued_all(pending, pos, waiters), pos) == waiters,
        enqueued_all(pending, pos, waiters).contains_key(pos.key()) <==> waiters.len() > 0,
        enqueued_all(pending, pos, waiters).remove(pos.key()) == pending,
    decreases waiters.len(),
{
    if waiters.len() > 0 {
        law_one_request_serves_all_who_wait(pending, pos, waiters.drop_last());
        assert(waiters.drop_last().push(waiters.last()) =~= waiters);
    }
    assert(enqueued_all(pending, pos, waiters).remove(pos.key()) =~= pending);
}

/// An entity chunk that has come into memory is handed out from there, without
/// another fetch, and other entity chunks are handed out as before.
pub proof fn law_entity_chunk_in_memory_is_handed_out(
    level: LevelView,
    pos: Vector2,
    handle: usize,
    other: Vector2,
)
    ensures
        level.with_entity_chunk(pos, handle).entity_chunk_step(pos) == EntityChunkStep::Ready(
            handle,
        ),
        other != pos ==> level.with_entity_chunk(pos, handle).entity_chunk_step(other)
            == level.entity_chunk_step(other),
{
    if other != pos {
        assert(other.key() != pos.key());
    }
}

/// Every entity chunk that is asked for is either handed out at once or
/// fetched, and those that are fetched are not in memory.
pub proof fn law_every_chunk_is_handed_out_or_fetched(
    map: Map<(i32, i32), usize>,
    chunks: Seq<Vector2>,
)
    ensures
        held(map, chunks).len() + not_held(map, chunks).len() == chunks.len(),
        forall|at: Vector2| #[trigger]
            not_held(map, chunks).contains(at) <==> chunks.contains(at) && !map.contains_key(
                at.key(),
            ),
    decreases chunks.len(),
{
    reveal(Seq::filter);
    if chunks.len() > 0 {
        let shorter = chunks.drop_last();
        law_every_chunk_is_handed_out_or_fetched(map, shorter);
        let missing = not_held(map, chunks);
        let missing_before = not_held(map, shorter);
        assert forall|at: Vector2| #[trigger] missing.contains(at) <==> chunks.contains(at)
            && !map.contains_key(at.key()) by {
            assert(missing_before.contains(at) <==> shorter.contains(at) && !map.contains_key(
                at.key(),
            ));
            assert(chunks =~= shorter.push(chunks.last()));
            assert(chunks.contains(at) <==> shorter.contains(at) || at == chunks.last()) by {
                vstd::seq_lib::lemma_seq_contains_after_push(shorter, chunks.last(), at);
            }
            if !map.contains_key(chunks.last().key()) {
                assert(missing =~= missing_before.push(chunks.last()));
                vstd::seq_lib::lemma_seq_contains_after_push(missing_before, chunks.last(), at);
            }
        }
    }
}

/// The handles that are handed out at once are those that memory holds under
/// the coordinates of the chunks that were asked for, in the order in which
/// these were asked for: the first handle is that of the first of them that is
/// in memory, the next that of the next, and so on.
pub proof fn law_ready_chunks_are_those_asked_for(
    map: Map<(i32, i32), usize>,
    chunks: Seq<Vector2>,
)
    ensures
        held(map, chunks) == chunks.filter(
            |at: Vector2| map.contains_key((at.x, at.y)),
        ).map_values(|at: Vector2| map[(at.x, at.y)]),
        forall|handle: usize| #[trigger]
            held(map, chunks).contains(handle) <==> exists|i: int|
                0 <= i < chunks.len() && map.contains_key(
                    ((#[trigger] chunks[i]).x, chunks[i].y),
                ) && map[(chunks[i].x, chunks[i].y)] == handle,
    decreases chunks.len(),
{
    reveal(Seq::filter);
    let there = |at: Vector2| map.contains_key((at.x, at.y));
    let handle_of = |at: Vector2| map[(at.x, at.y)];
    let ready = held(map, chunks);
    if chunks.len() > 0 {
        let shorter = chunks.drop_last();
        let last = chunks.last();
        let ready_before = held(map, shorter);
        law_ready_chunks_are_those_asked_for(map, shorter);
        if there(last) {
            assert(ready =~= ready_before.push(handle_of(last)));
            assert(chunks.filter(there) =~= shorter.filter(there).push(last));
            assert(chunks.filter(there).map_values(handle_of) =~= shorter.filter(
                there,
            ).map_values(handle_of).push(handle_of(last)));
        }
        assert forall|handle: usize| #[trigger] ready.contains(handle) <==> exists|i: int|
            0 <= i < chunks.len() && map.contains_key(((#[trigger] chunks[i]).x, chunks[i].y))
                && map[(chunks[i].x, chunks[i].y)] == handle by {
            assert(forall|i: int| 0 <= i < shorter.len() ==> shorter[i] == #[trigger] chunks[i]);
            assert(ready_before.contains(handle) <==> exists|i: int|
                0 <= i < shorter.len() && map.contains_key(((#[trigger] shorter[i]).x, shorter[i].y))
                    && map[(shorter[i].x, shorter[i].y)] == handle);
            if ready_before.contains(handle) {
                let i = choose|i: int|
                    0 <= i < shorter.len() && map.contains_key(
                        ((#[trigger] shorter[i]).x, shorter[i].y),
                    ) && map[(shorter[i].x, shorter[i].y)] == handle;
                assert(chunks[i] == shorter[i]);
            }
            if there(last) {
                vstd::seq_lib::lemma_seq_contains_after_push(
                    ready_before,
                    handle_of(last),
                    handle,
                );
                assert(chunks[chunks.len() - 1] == last);
            }
        }
    } else {
        assert(chunks.filter(there).map_values(handle_of) =~= ready);
    }
}

/// The chunks to be fetched are those that were asked for and under whose
/// coordinates memory holds nothing, in the order in which they were asked for.
pub proof fn law_chunks_to_fetch_are_those_not_in_memory(
    map: Map<(i32, i32), usize>,
    chunks: Seq<Vector2>,
)
    ensures
        not_held(map, chunks) == chunks.filter(|at: Vector2| !map.contains_key((at.x, at.y))),
{
    assert((|at: Vector2| !map.contains_key(at.key())) =~= (|at: Vector2|
        !map.contains_key((at.x, at.y))));
}

/// A call for an entity chunk begins with a fetch just if no entity chunk is in
/// memory under its coordinates; otherwise it hands out the one that is.
/// Whatever else the level holds does not matter.
pub proof fn law_only_entity_chunks_in_memory_are_ready(level: LevelView, pos: Vector2)
    ensures
        level.entity_chunk_step(pos) is Fetch <==> !level.loaded_entities.contains_key(
            (pos.x, pos.y),
        ),
        level.loaded_entities.contains_key((pos.x, pos.y)) ==> level.entity_chunk_step(pos)
            == EntityChunkStep::Ready(level.loaded_entities[(pos.x, pos.y)]),
{
}

/// An entity chunk that comes into memory lies under its coordinates, in place
/// of what was there; every other entity chunk, and all else, stays.
pub proof fn law_entity_chunk_comes_into_memory_alone(
    level: LevelView,
    pos: Vector2,
    handle: usize,
)
    ensures
        level.with_entity_chunk(pos, handle) == (LevelView {
            loaded_entities: level.loaded_entities.insert((pos.x, pos.y), handle),
            ..level
        }),
{
}

/// One who begins to wait for a chunk stands behind those who wait for it
/// already, alone if there are none; every other queue, and all else, stays.
pub proof fn law_waiter_stands_behind_the_others(level: LevelView, pos: Vector2, waiter: usize)
    ensures
        level.with_waiter(pos, waiter) == (LevelView {
            pending: level.with_waiter(pos, waiter).pending,
            ..level
        }),
        level.with_waiter(pos, waiter).pending.dom() == level.pending.dom().insert((pos.x, pos.y)),
        level.pending.contains_key((pos.x, pos.y)) ==> level.with_waiter(
            pos,
            waiter,
        ).pending[(pos.x, pos.y)] == level.pending[(pos.x, pos.y)].push(waiter),
        !level.pending.contains_key((pos.x, pos.y)) ==> level.with_waiter(
            pos,
            waiter,
        ).pending[(pos.x, pos.y)] == seq![waiter],
        forall|key: (i32, i32)|
            key != (pos.x, pos.y) && #[trigger] level.pending.contains_key(key)
                ==> level.with_waiter(pos, waiter).pending[key] == level.pending[key],
{
    assert(Seq::<usize>::empty().push(waiter) =~= seq![waiter]);
}

/// Those who wait for a chunk are all in the queue under its coordinates.
pub proof fn law_queue_holds_all_who_wait(pending: Map<(i32, i32), Seq<usize>>, pos: Vector2)
    ensures
        pending.contains_key((pos.x, pos.y)) ==> waiting(pending, pos) == pending[(pos.x, pos.y)],
        !pending.contains_key((pos.x, pos.y)) ==> waiting(pending, pos).len() == 0,
{
}

/// A fetch of a single entity chunk succeeds just if a chunk came back, with
/// that chunk, which was not generated; an error that came back is passed on;
/// and where nothing came back, or the chunk was missing, there is no such chunk.
pub proof fn law_fetch_succeeds_just_if_a_chunk_came(fetched: Option<LoadedData>)
    ensures
        single_fetch(fetched) is Ok <==> fetched is Some && fetched->0 is Loaded,
        fetched matches Some(LoadedData::Loaded(handle, _)) ==> single_fetch(fetched)
            == Ok::<(usize, bool), ChunkReadingError>((handle, false)),
        fetched matches Some(LoadedData::Error(_, error)) ==> single_fetch(fetched)
            == Err::<(usize, bool), ChunkReadingError>(error),
        fetched is None || fetched->0 is Missing ==> single_fetch(fetched)
            == Err::<(usize, bool), ChunkReadingError>(ChunkReadingError::ChunkNotExist),
{
}

} // verus!
