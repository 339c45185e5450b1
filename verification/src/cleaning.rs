//! Cleaning entity chunks that nobody watches: they are written first, and
//! leave memory only then.
//!
//! A cleaning takes turns with the outside: the level says what to do next, the
//! caller does it and comes back. If a chunk left memory before it was written,
//! somebody could be given an older one from disk meanwhile, and that one would
//! be written later.

use crate::entity::EntityChunkStep;
use crate::level::{Level, LevelView};
use crate::math::Vector2;
use crate::memory::{lemma_to_clean, mentions, SaveRequest};
use crate::tick::append_all;
use crate::watch::watch_count;
use vstd::prelude::*;

verus! {

/// How far a cleaning has come.
pub enum CleaningPhase {
    /// These chunks are to be looked through; nothing has been done yet.
    Start(Vec<Vector2>),
    /// These chunks, with their handles, are being written.
    Writing(Vec<(Vector2, usize)>),
    /// The cleaning is over.
    Done,
}

/// What to do next in a cleaning.
pub enum CleaningAction {
    /// Write chunks, if there are any, and come back when they are written or
    /// could not be.
    Write(Option<SaveRequest>),
    /// Let go of the chunks with these handles: they have left memory.
    Release(Vec<usize>),
    /// Nothing is left to do.
    Finish,
}

/// Whether a step of a cleaning is as it should be: from a level and a phase to
/// a level, a phase and what to do next.
pub open spec fn cleaning_step(
    before: LevelView,
    phase: CleaningPhase,
    after: LevelView,
    next: CleaningPhase,
    action: CleaningAction,
) -> bool {
    match phase {
        CleaningPhase::Start(chunks) => {
            &&& after == before
            &&& next matches CleaningPhase::Writing(listed)
            &&& listed@ == before.to_clean(chunks@)
            &&& action matches CleaningAction::Write(request)
            &&& asks_to_write(request, before, listed@)
        },
        CleaningPhase::Writing(listed) => {
            &&& after == before.without_unwatched(listed@)
            &&& next is Done
            &&& action matches CleaningAction::Release(removed)
            &&& removed@ == before.handles_removed(listed@)
        },
        CleaningPhase::Done => {
            &&& after == before
            &&& next is Done
            &&& action is Finish
        },
    }
}

/// Whether just the listed entity chunks of a level are asked to be written, to
/// the level's folder; nothing is asked where none is listed.
pub open spec fn asks_to_write(
    request: Option<SaveRequest>,
    level: LevelView,
    listed: Seq<(Vector2, usize)>,
) -> bool {
    match request {
        Some(request) => {
            &&& listed.len() > 0
            &&& request.level_folder == level.level_folder
            &&& request.format == level.entity_saver
            &&& request.chunks@ == listed
        },
        None => listed.len() == 0,
    }
}

impl Level {
    /// Takes a cleaning one step further. What came of the writing is not
    /// asked: the chunks leave memory also when they could not be written.
    pub fn step_cleaning(&mut self, phase: CleaningPhase) -> (next: (CleaningPhase, CleaningAction))
        requires
            old(self)@.wf(),
        ensures
            final(self)@.wf(),
            cleaning_step(old(self)@, phase, final(self)@, next.0, next.1),
    {
        match phase {
            CleaningPhase::Start(chunks) => {
                let listed = self.clean_entity_chunks(chunks.as_slice());
                let mut to_write: Vec<(Vector2, usize)> = Vec::new();
                append_all(&mut to_write, &listed);
                assert(to_write@ =~= listed@);
                let request = self.write_entity_chunks(to_write);
                (CleaningPhase::Writing(listed), CleaningAction::Write(request))
            },
            CleaningPhase::Writing(listed) => {
                let removed = self.finish_cleaning(&listed);
                (CleaningPhase::Done, CleaningAction::Release(removed))
            },
            CleaningPhase::Done => (CleaningPhase::Done, CleaningAction::Finish),
        }
    }
}

/// A cleaning changes the level only in the step that follows the writing, and
/// there it only takes out of memory what was listed when the writing was asked
/// for and what nobody watches; it writes, then releases, and then is over.
pub proof fn law_cleaning_changes_memory_only_after_the_writing(
    before: LevelView,
    phase: CleaningPhase,
    after: LevelView,
    next: CleaningPhase,
    action: CleaningAction,
)
    requires
        cleaning_step(before, phase, after, next, action),
    ensures
        !(phase is Writing) ==> after == before,
        phase matches CleaningPhase::Writing(listed) ==> after == before.without_unwatched(listed@),
        next is Writing <==> action is Write,
        action is Write <==> phase is Start,
        action is Release <==> phase is Writing,
        action is Finish <==> phase is Done,
        next is Done <==> !(phase is Start),
{
}

/// Whether an entity chunk that is in memory in one of a number of successive
/// states of a level is there in all that follow.
pub open spec fn stays_in_memory(states: Seq<LevelView>, at: Vector2) -> bool {
    forall|i: int|
        0 < i < states.len() && states[i - 1].loaded_entities.contains_key(at.key())
            ==> (#[trigger] states[i]).loaded_entities.contains_key(at.key())
}

proof fn lemma_stays_in_memory(states: Seq<LevelView>, at: Vector2, i: int)
    requires
        stays_in_memory(states, at),
        0 <= i < states.len(),
        states[0].loaded_entities.contains_key(at.key()),
    ensures
        states[i].loaded_entities.contains_key(at.key()),
    decreases i,
{
    if i > 0 {
        lemma_stays_in_memory(states, at, i - 1);
    }
}

/// From when the writing of an entity chunk is asked for until the writing is
/// over, the chunk is handed out from memory and not fetched from disk, whatever
/// else happens to the level meanwhile, if only nobody else takes the chunk out
/// of memory. `meanwhile` are the states of the level from the one in which the
/// writing is asked for to the one in which the cleaning goes on.
pub proof fn law_chunk_is_handed_out_until_it_is_written(
    level: LevelView,
    chunks: Vec<Vector2>,
    asked: LevelView,
    listed: Vec<(Vector2, usize)>,
    writing: CleaningAction,
    meanwhile: Seq<LevelView>,
    at: Vector2,
    i: int,
)
    requires
        cleaning_step(
            level,
            CleaningPhase::Start(chunks),
            asked,
            CleaningPhase::Writing(listed),
            writing,
        ),
        mentions(listed@, at),
        meanwhile.len() > 0,
        meanwhile[0] == asked,
        stays_in_memory(meanwhile, at),
        0 <= i < meanwhile.len(),
    ensures
        meanwhile[i].entity_chunk_step(at) == EntityChunkStep::Ready(
            meanwhile[i].loaded_entities[at.key()],
        ),
        listed@.contains((at, meanwhile[0].loaded_entities[at.key()])),
{
    lemma_to_clean(level, chunks@, at);
    lemma_stays_in_memory(meanwhile, at, i);
}

/// An entity chunk that a cleaning takes out of memory was asked to be written
/// before, under the handle that it had then, and nobody watches it when it
/// leaves; every other chunk that was in memory when the writing was over stays
/// as it was. `waited` is the level when the writing is over.
pub proof fn law_cleaning_releases_only_what_was_written(
    level: LevelView,
    chunks: Vec<Vector2>,
    asked: LevelView,
    listed: Vec<(Vector2, usize)>,
    writing: CleaningAction,
    waited: LevelView,
    end: LevelView,
    last: CleaningPhase,
    releasing: CleaningAction,
    at: Vector2,
)
    requires
        cleaning_step(
            level,
            CleaningPhase::Start(chunks),
            asked,
            CleaningPhase::Writing(listed),
            writing,
        ),
        cleaning_step(waited, CleaningPhase::Writing(listed), end, last, releasing),
        waited.loaded_entities.contains_key(at.key()),
    ensures
        !end.loaded_entities.contains_key(at.key()) ==> {
            &&& writing matches CleaningAction::Write(Some(request))
            &&& request.chunks@.contains((at, level.loaded_entities[at.key()]))
            &&& watch_count(waited.watchers, at) == 0
        },
        end.loaded_entities.contains_key(at.key()) ==> end.loaded_entities[at.key()]
            == waited.loaded_entities[at.key()],
        end == (LevelView { loaded_entities: end.loaded_entities, ..waited }),
{
    assert(Vector2::from_key(at.key()) == at);
    lemma_to_clean(level, chunks@, at);
}

/// A cleaning begins by asking that just those of the chunks be written that are
/// in memory and that nobody is counted as watching, with the handles that
/// memory holds, in the order given, to the level's folder and in the format of
/// its entity chunks.
pub proof fn law_cleaning_writes_what_nobody_watches(
    level: LevelView,
    chunks: Vec<Vector2>,
    after: LevelView,
    next: CleaningPhase,
    action: CleaningAction,
    listed: Seq<(Vector2, usize)>,
)
    requires
        cleaning_step(level, CleaningPhase::Start(chunks), after, next, action),
        listed == chunks@.filter(
            |at: Vector2|
                level.loaded_entities.contains_key((at.x, at.y)) && !(level.watchers.contains_key(
                    (at.x, at.y),
                ) && level.watchers[(at.x, at.y)] > 0),
        ).map_values(|at: Vector2| (at, level.loaded_entities[(at.x, at.y)])),
    ensures
        next matches CleaningPhase::Writing(to_write) && to_write@ == listed,
        listed.len() == 0 ==> action == CleaningAction::Write(None),
        listed.len() > 0 ==> {
            &&& action matches CleaningAction::Write(Some(request))
            &&& request.chunks@ == listed
            &&& request.level_folder == level.level_folder
            &&& request.format == level.entity_saver
        },
{
    crate::memory::law_chunks_to_clean_are_those_nobody_watches(level, chunks@);
}

/// A cleaning releases the handles of just those entity chunks that leave memory
/// in the same step.
pub proof fn law_cleaning_releases_what_leaves_memory(
    level: LevelView,
    listed: Vec<(Vector2, usize)>,
    after: LevelView,
    next: CleaningPhase,
    action: CleaningAction,
    handle: usize,
)
    requires
        cleaning_step(level, CleaningPhase::Writing(listed), after, next, action),
    ensures
        action matches CleaningAction::Release(removed) && (removed@.contains(handle)
            <==> exists|at: Vector2|
            level.loaded_entities.contains_key((at.x, at.y)) && level.loaded_entities[(
                at.x,
                at.y,
            )] == handle && !(#[trigger] after.loaded_entities.contains_key((at.x, at.y)))),
        action matches CleaningAction::Release(removed) && removed@ == level.handles_removed(
            listed@,
        ),
{
    crate::memory::law_handles_handed_back_are_of_chunks_that_leave(level, listed@, handle);
}

} // verus!
