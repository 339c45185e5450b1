//! Shutting a level down.
//!
//! Shutting down takes turns with the outside: the level says what to do next,
//! the caller does it and comes back. The steps have a fixed order.

use crate::chunk_map::{self, lists, lookup};
use crate::level::{Level, LevelView};
use crate::math::Vector2;
use crate::memory::SaveRequest;
use vstd::prelude::*;

verus! {

/// How far the shutdown has come.
pub enum ShutdownPhase {
    /// Nothing has been done yet.
    Start,
    /// Tasks have been told to stop.
    WaitersNotified,
    /// No further tasks of the level are taken on.
    TasksClosed,
    /// The tasks of the level have ended.
    TasksDone,
    /// The chunk system has been told to stop.
    ChunkSystemNotified,
    /// The threads have ended.
    ThreadsJoined,
    /// No further tasks of the chunk system are taken on.
    ChunkSystemTasksClosed,
    /// The tasks of the chunk system have ended.
    ChunkSystemTasksDone,
    /// No chunk is being saved any more.
    ChunkSaverIdle,
    /// No entity chunk is being saved any more.
    EntitySaverIdle,
    /// Nobody watches entity chunks any more; these are still to be saved.
    WatchesCleared(Vec<(Vector2, usize)>),
    /// The level is shut down.
    Done,
}

/// What to do next to shut the level down.
pub enum ShutdownAction {
    /// Wake all who wait for the shutdown.
    NotifyWaiters,
    /// Take on no further tasks of the level.
    CloseTasks,
    /// Wait for the tasks of the level.
    AwaitTasks,
    /// Tell the chunk system that something has changed.
    NotifyChunkSystem,
    /// Wait for all threads, one after the other.
    JoinThreads,
    /// Take on no further tasks of the chunk system.
    CloseChunkSystemTasks,
    /// Wait for the tasks of the chunk system.
    AwaitChunkSystemTasks,
    /// Wait until no chunk is being saved.
    AwaitChunkSaver,
    /// Wait until no entity chunk is being saved.
    AwaitEntitySaver,
    /// Let the saver of entity chunks forget who watches them.
    ClearEntityWatches,
    /// Save entity chunks, if there are any.
    WriteEntityChunks(Option<SaveRequest>),
    /// Nothing is left to do.
    Finish,
}

/// Whether a list has every entry of a map once, in some order.
pub open spec fn lists_chunks(
    listed: Seq<(Vector2, usize)>,
    map: Map<(i32, i32), usize>,
) -> bool {
    lists(listed.map_values(|entry: (Vector2, usize)| (entry.0.key(), entry.1)), map)
}

/// Whether a step of the shutdown is as it should be: from a level and a phase
/// to a level, a phase and what to do next.
pub open spec fn shutdown_step(
    before: LevelView,
    phase: ShutdownPhase,
    after: LevelView,
    next: ShutdownPhase,
    action: ShutdownAction,
) -> bool {
    match phase {
        ShutdownPhase::Start => {
            &&& after == (LevelView { is_shutting_down: true, ..before })
            &&& next is WaitersNotified
            &&& action is NotifyWaiters
        },
        ShutdownPhase::WaitersNotified => {
            &&& after == before
            &&& next is TasksClosed
            &&& action is CloseTasks
        },
        ShutdownPhase::TasksClosed => {
            &&& after == before
            &&& next is TasksDone
            &&& action is AwaitTasks
        },
        ShutdownPhase::TasksDone => {
            &&& after == (LevelView { shut_down_chunk_system: true, ..before })
            &&& next is ChunkSystemNotified
            &&& action is NotifyChunkSystem
        },
        ShutdownPhase::ChunkSystemNotified => {
            &&& after == before
            &&& next is ThreadsJoined
            &&& action is JoinThreads
        },
        ShutdownPhase::ThreadsJoined => {
            &&& after == before
            &&& next is ChunkSystemTasksClosed
            &&& action is CloseChunkSystemTasks
        },
        ShutdownPhase::ChunkSystemTasksClosed => {
            &&& after == before
            &&& next is ChunkSystemTasksDone
            &&& action is AwaitChunkSystemTasks
        },
        ShutdownPhase::ChunkSystemTasksDone => {
            &&& after == before
            &&& next is ChunkSaverIdle
            &&& action is AwaitChunkSaver
        },
        ShutdownPhase::ChunkSaverIdle => {
            &&& after == before
            &&& next is EntitySaverIdle
            &&& action is AwaitEntitySaver
        },
        ShutdownPhase::EntitySaverIdle => {
            &&& after == (LevelView { loaded_entities: Map::empty(), ..before })
            &&& next matches ShutdownPhase::WatchesCleared(chunks)
            &&& lists_chunks(chunks@, before.loaded_entities)
            &&& action is ClearEntityWatches
        },
        ShutdownPhase::WatchesCleared(chunks) => {
            &&& after == before
            &&& next is Done
            &&& action matches ShutdownAction::WriteEntityChunks(request)
            &&& request is None <==> chunks@.len() == 0
            &&& request is Some ==> request->0 == (SaveRequest {
                level_folder: before.level_folder,
                format: before.entity_saver,
                chunks,
            })
        },
        ShutdownPhase::Done => {
            &&& after == before
            &&& next is Done
            &&& action is Finish
        },
    }
}

impl Level {
    /// Takes the entity chunks out of memory, to be saved.
    fn drain_entity_chunks(&mut self) -> (chunks: Vec<(Vector2, usize)>)
        ensures
            final(self)@ == (LevelView { loaded_entities: Map::empty(), ..old(self)@ }),
            lists_chunks(chunks@, old(self)@.loaded_entities),
    {
        let listed = chunk_map::to_vec(&self.loaded_entity_chunks);
        let mut chunks: Vec<(Vector2, usize)> = Vec::new();
        let mut i: usize = 0;
        while i < listed.len()
            invariant
                i <= listed@.len(),
                chunks@.len() == i,
                forall|k: int|
                    0 <= k < i ==> #[trigger] chunks@[k] == (
                        Vector2::from_key(listed@[k].0),
                        listed@[k].1,
                    ),
            decreases listed@.len() - i,
        {
            chunks.push((Vector2::from_key(listed[i].0), listed[i].1));
            i += 1;
        }
        assert(chunks@.map_values(|entry: (Vector2, usize)| (entry.0.key(), entry.1))
            =~= listed@);
        chunk_map::clear(&mut self.loaded_entity_chunks);
        chunks
    }

    /// Takes the shutdown one step further.
    pub fn shutdown(&mut self, phase: ShutdownPhase) -> (next: (ShutdownPhase, ShutdownAction))
        requires
            old(self)@.wf(),
        ensures
            final(self)@.wf(),
            shutdown_step(old(self)@, phase, final(self)@, next.0, next.1),
    {
        let next = match phase {
            ShutdownPhase::Start => {
                self.is_shutting_down = true;
                (ShutdownPhase::WaitersNotified, ShutdownAction::NotifyWaiters)
            },
            ShutdownPhase::WaitersNotified => (
                ShutdownPhase::TasksClosed,
                ShutdownAction::CloseTasks,
            ),
            ShutdownPhase::TasksClosed => (ShutdownPhase::TasksDone, ShutdownAction::AwaitTasks),
            ShutdownPhase::TasksDone => {
                self.shut_down_chunk_system = true;
                (ShutdownPhase::ChunkSystemNotified, ShutdownAction::NotifyChunkSystem)
            },
            ShutdownPhase::ChunkSystemNotified => (
                ShutdownPhase::ThreadsJoined,
                ShutdownAction::JoinThreads,
            ),
            ShutdownPhase::ThreadsJoined => (
                ShutdownPhase::ChunkSystemTasksClosed,
                ShutdownAction::CloseChunkSystemTasks,
            ),
            ShutdownPhase::ChunkSystemTasksClosed => (
                ShutdownPhase::ChunkSystemTasksDone,
                ShutdownAction::AwaitChunkSystemTasks,
            ),
            ShutdownPhase::ChunkSystemTasksDone => (
                ShutdownPhase::ChunkSaverIdle,
                ShutdownAction::AwaitChunkSaver,
            ),
            ShutdownPhase::ChunkSaverIdle => (
                ShutdownPhase::EntitySaverIdle,
                ShutdownAction::AwaitEntitySaver,
            ),
            ShutdownPhase::EntitySaverIdle => {
                let chunks = self.drain_entity_chunks();
                (ShutdownPhase::WatchesCleared(chunks), ShutdownAction::ClearEntityWatches)
            },
            ShutdownPhase::WatchesCleared(chunks) => (
                ShutdownPhase::Done,
                ShutdownAction::WriteEntityChunks(self.write_entity_chunks(chunks)),
            ),
            ShutdownPhase::Done => (ShutdownPhase::Done, ShutdownAction::Finish),
        };
        assert(self@.watchers == old(self)@.watchers && self@.pending == old(self)@.pending);
        next
    }
}

/// How many steps a shutdown still takes.
pub open spec fn steps_left(phase: ShutdownPhase) -> nat {
    match phase {
        ShutdownPhase::Start => 11,
        ShutdownPhase::WaitersNotified => 10,
        ShutdownPhase::TasksClosed => 9,
        ShutdownPhase::TasksDone => 8,
        ShutdownPhase::ChunkSystemNotified => 7,
        ShutdownPhase::ThreadsJoined => 6,
        ShutdownPhase::ChunkSystemTasksClosed => 5,
        ShutdownPhase::ChunkSystemTasksDone => 4,
        ShutdownPhase::ChunkSaverIdle => 3,
        ShutdownPhase::EntitySaverIdle => 2,
        ShutdownPhase::WatchesCleared(_) => 1,
        ShutdownPhase::Done => 0,
    }
}

/// Whether the level's flags are as they are in a phase of its shutdown.
pub open spec fn flags_match(level: LevelView, phase: ShutdownPhase) -> bool {
    &&& steps_left(phase) < 11 ==> level.is_shutting_down
    &&& steps_left(phase) < 8 ==> level.shut_down_chunk_system
}

/// Every step brings the shutdown nearer to its end, until it is there.
pub proof fn law_shutdown_ends(
    before: LevelView,
    phase: ShutdownPhase,
    after: LevelView,
    next: ShutdownPhase,
    action: ShutdownAction,
)
    requires
        shutdown_step(before, phase, after, next, action),
    ensures
        phase is Done <==> action is Finish,
        !(phase is Done) ==> steps_left(next) == steps_left(phase) - 1,
{
}

/// From the first step on the level says that it is shutting down, and from
/// when its own tasks have ended it tells the chunk system to shut down; no
/// thread is waited for before both are said.
pub proof fn law_shutdown_is_announced(
    before: LevelView,
    phase: ShutdownPhase,
    after: LevelView,
    next: ShutdownPhase,
    action: ShutdownAction,
)
    requires
        flags_match(before, phase),
        shutdown_step(before, phase, after, next, action),
    ensures
        flags_match(after, next),
        action is JoinThreads ==> after.is_shutting_down && after.shut_down_chunk_system,
        !(phase is Start) && !(phase is TasksDone) ==> after.is_shutting_down
            == before.is_shutting_down && after.shut_down_chunk_system
            == before.shut_down_chunk_system,
{
}

/// The shutdown saves every entity chunk that is in memory when saving has come
/// to rest, with its handle, and nothing else, and saves no chunk twice; none
/// stays in memory.
pub proof fn law_shutdown_saves_every_entity_chunk(
    level: LevelView,
    drained: LevelView,
    chunks: Vec<(Vector2, usize)>,
    clearing: ShutdownAction,
    end: LevelView,
    last: ShutdownPhase,
    writing: ShutdownAction,
    at: Vector2,
)
    requires
        shutdown_step(
            level,
            ShutdownPhase::EntitySaverIdle,
            drained,
            ShutdownPhase::WatchesCleared(chunks),
            clearing,
        ),
        shutdown_step(drained, ShutdownPhase::WatchesCleared(chunks), end, last, writing),
        level.loaded_entities.contains_key(at.key()),
    ensures
        last is Done,
        end.loaded_entities.is_empty(),
        writing matches ShutdownAction::WriteEntityChunks(Some(request)) && {
            &&& request.chunks@.contains((at, level.loaded_entities[at.key()]))
            &&& forall|i: int|
                0 <= i < request.chunks@.len() ==> lookup(
                    level.loaded_entities,
                    (#[trigger] request.chunks@[i]).0.key(),
                ) == Some(request.chunks@[i].1)
            &&& forall|i: int, j: int|
                0 <= i < j < request.chunks@.len() ==> (#[trigger] request.chunks@[i]).0 != (
                #[trigger] request.chunks@[j]).0
            &&& request.level_folder == level.level_folder
            &&& request.format == level.entity_saver
        },
{
    let listed = chunks@.map_values(|entry: (Vector2, usize)| (entry.0.key(), entry.1));
    let entry = (at.key(), level.loaded_entities[at.key()]);
    assert(listed.contains(entry));
    let k = choose|k: int| 0 <= k < listed.len() && listed[k] == entry;
    assert(chunks@[k] == (at, level.loaded_entities[at.key()]));
    assert forall|i: int| 0 <= i < chunks@.len() implies lookup(
        level.loaded_entities,
        (#[trigger] chunks@[i]).0.key(),
    ) == Some(chunks@[i].1) by {
        assert(lookup(level.loaded_entities, listed[i].0) == Some(listed[i].1));
    }
    assert forall|i: int, j: int| 0 <= i < j < chunks@.len() implies (#[trigger] chunks@[i]).0 != (
    #[trigger] chunks@[j]).0 by {
        assert(listed[i].0 != listed[j].0);
    }
    assert(chunks@.len() > 0);
}

/// What is done in a shutdown comes in one order: each thing is done in one
/// phase alone, and each phase comes after one other alone.
pub proof fn law_shutdown_keeps_its_order(
    before: LevelView,
    phase: ShutdownPhase,
    after: LevelView,
    next: ShutdownPhase,
    action: ShutdownAction,
)
    requires
        shutdown_step(before, phase, after, next, action),
    ensures
        action is NotifyWaiters <==> phase is Start,
        next is WaitersNotified <==> phase is Start,
        action is CloseTasks <==> phase is WaitersNotified,
        next is TasksClosed <==> phase is WaitersNotified,
        action is AwaitTasks <==> phase is TasksClosed,
        next is TasksDone <==> phase is TasksClosed,
        action is NotifyChunkSystem <==> phase is TasksDone,
        next is ChunkSystemNotified <==> phase is TasksDone,
        action is JoinThreads <==> phase is ChunkSystemNotified,
        next is ThreadsJoined <==> phase is ChunkSystemNotified,
        action is CloseChunkSystemTasks <==> phase is ThreadsJoined,
        next is ChunkSystemTasksClosed <==> phase is ThreadsJoined,
        action is AwaitChunkSystemTasks <==> phase is ChunkSystemTasksClosed,
        next is ChunkSystemTasksDone <==> phase is ChunkSystemTasksClosed,
        action is AwaitChunkSaver <==> phase is ChunkSystemTasksDone,
        next is ChunkSaverIdle <==> phase is ChunkSystemTasksDone,
        action is AwaitEntitySaver <==> phase is ChunkSaverIdle,
        next is EntitySaverIdle <==> phase is ChunkSaverIdle,
        action is ClearEntityWatches <==> phase is EntitySaverIdle,
        next is WatchesCleared <==> phase is EntitySaverIdle,
        action is WriteEntityChunks <==> phase is WatchesCleared,
        next is Done <==> phase is WatchesCleared || phase is Done,
{
}

/// A shutdown changes three things of the level and no other: the first step
/// sets the sign that it is shutting down, the step after the level's tasks have
/// ended sets the sign for the chunk system, and the step after saving has come
/// to rest empties memory of entity chunks.
pub proof fn law_shutdown_changes_three_things(
    before: LevelView,
    phase: ShutdownPhase,
    after: LevelView,
    next: ShutdownPhase,
    action: ShutdownAction,
)
    requires
        shutdown_step(before, phase, after, next, action),
    ensures
        after == (LevelView {
            is_shutting_down: before.is_shutting_down || phase is Start,
            shut_down_chunk_system: before.shut_down_chunk_system || phase is TasksDone,
            loaded_entities: after.loaded_entities,
            ..before
        }),
        !(phase is EntitySaverIdle) ==> after.loaded_entities == before.loaded_entities,
        phase is EntitySaverIdle ==> forall|key: (i32, i32)|
            !#[trigger] after.loaded_entities.contains_key(key),
{
}

/// A shutdown asks for nothing to be written where no entity chunk is in memory
/// when saving has come to rest.
pub proof fn law_shutdown_writes_nothing_of_an_empty_level(
    level: LevelView,
    drained: LevelView,
    chunks: Vec<(Vector2, usize)>,
    clearing: ShutdownAction,
    end: LevelView,
    last: ShutdownPhase,
    writing: ShutdownAction,
)
    requires
        shutdown_step(
            level,
            ShutdownPhase::EntitySaverIdle,
            drained,
            ShutdownPhase::WatchesCleared(chunks),
            clearing,
        ),
        shutdown_step(drained, ShutdownPhase::WatchesCleared(chunks), end, last, writing),
        forall|key: (i32, i32)| !#[trigger] level.loaded_entities.contains_key(key),
    ensures
        writing == ShutdownAction::WriteEntityChunks(None),
{
    let listed = chunks@.map_values(|entry: (Vector2, usize)| (entry.0.key(), entry.1));
    if chunks@.len() > 0 {
        assert(lookup(level.loaded_entities, listed[0].0) == Some(listed[0].1));
    }
}

} // verus!
