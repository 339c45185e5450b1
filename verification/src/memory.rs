//! What leaves memory, and what is saved before it does.

use crate::chunk_map;
use crate::entity::EntityChunkStep;
use crate::folder::LevelFolder;
use crate::level::{ChunkConfig, Level, LevelView};
use crate::math::Vector2;
use crate::watch::{is_unwatched, is_zero, left_alone, watch_count, watching_ended};
use vstd::prelude::*;

verus! {

/// A map with room for this many entries more than it holds is shrunk.
pub const SPARE_ENTRIES: usize = 4096;

/// Chunks to save, and where.
pub struct SaveRequest {
    pub level_folder: LevelFolder,
    pub format: ChunkConfig,
    pub chunks: Vec<(Vector2, usize)>,
}

/// Whether a list of chunks and handles mentions a chunk.
pub open spec fn mentions(listed: Seq<(Vector2, usize)>, at: Vector2) -> bool {
    exists|i: int| 0 <= i < listed.len() && (#[trigger] listed[i]).0 == at
}

impl LevelView {
    /// Whether an entity chunk is in memory and nobody watches it.
    pub open spec fn cleanable(self, at: Vector2) -> bool {
        watch_count(self.watchers, at) == 0 && self.loaded_entities.contains_key(at.key())
    }

    /// The level after all entity chunks that nobody watches left memory.
    pub open spec fn with_watched_entities_only(self) -> LevelView {
        LevelView {
            loaded_entities: self.loaded_entities.restrict(self.watchers.dom()),
            ..self
        }
    }

    /// The listed entity chunks that are in memory and that nobody watches, in
    /// the order of the list, with their handles.
    pub open spec fn to_clean(self, chunks: Seq<Vector2>) -> Seq<(Vector2, usize)> {
        chunks.filter_map(
            |at: Vector2|
                if self.cleanable(at) {
                    Some((at, self.loaded_entities[at.key()]))
                } else {
                    None
                },
        )
    }

    /// The level after the listed entity chunks that nobody watches left memory.
    pub open spec fn without_unwatched(self, listed: Seq<(Vector2, usize)>) -> LevelView {
        LevelView {
            loaded_entities: self.loaded_entities.remove_keys(
                Set::new(
                    |key: (i32, i32)|
                        mentions(listed, Vector2::from_key(key)) && watch_count(
                            self.watchers,
                            Vector2::from_key(key),
                        ) == 0,
                ),
            ),
            ..self
        }
    }

    /// The handles of the entity chunks that leave memory when the listed
    /// chunks that nobody watches are removed one after the other.
    pub open spec fn handles_removed(self, listed: Seq<(Vector2, usize)>) -> Seq<usize>
        decreases listed.len(),
    {
        if listed.len() == 0 {
            Seq::empty()
        } else {
            let before = self.handles_removed(listed.drop_last());
            let at = listed.last().0;
            if self.cleanable(at) && !mentions(listed.drop_last(), at) {
                before.push(self.loaded_entities[at.key()])
            } else {
                before
            }
        }
    }
}

/// Whether a map with room for `capacity` entries that holds `len` of them has
/// so much room to spare that it is worth shrinking.
pub fn has_spare_room(capacity: usize, len: usize) -> (spare: bool)
    requires
        len <= capacity,
    ensures
        spare == (capacity - len >= SPARE_ENTRIES),
        spare == (capacity - len >= 4096),
{
    capacity - len >= SPARE_ENTRIES
}

impl Level {
    /// The listed entity chunks that are in memory and that nobody watches.
    /// They are to be saved first; only then may they leave memory, see
    /// [`Level::finish_cleaning`]. [`Level::step_cleaning`] keeps that order.
    pub fn clean_entity_chunks(&self, chunks: &[Vector2]) -> (to_clean: Vec<(Vector2, usize)>)
        ensures
            to_clean@ == self@.to_clean(chunks@),
    {
        let mut to_clean: Vec<(Vector2, usize)> = Vec::new();
        let mut i: usize = 0;
        assert(to_clean@ =~= self@.to_clean(chunks@.take(0)));
        while i < chunks.len()
            invariant
                i <= chunks@.len(),
                to_clean@ == self@.to_clean(chunks@.take(i as int)),
            decreases chunks@.len() - i,
        {
            let pos = chunks[i];
            if is_unwatched(&self.chunk_watchers, pos) {
                if let Some(handle) = chunk_map::get(&self.loaded_entity_chunks, pos.key()) {
                    to_clean.push((pos, handle));
                }
            }
            i += 1;
            proof {
                assert(chunks@.take(i as int).drop_last() =~= chunks@.take(i - 1));
                assert(to_clean@ =~= self@.to_clean(chunks@.take(i as int)));
            }
        }
        assert(chunks@.take(i as int) =~= chunks@);
        to_clean
    }

    /// See [`Level::clean_entity_chunks`].
    pub fn clean_entity_chunk(&self, chunk: &Vector2) -> (to_clean: Vec<(Vector2, usize)>)
        ensures
            to_clean@ == self@.to_clean(seq![*chunk]),
    {
        let chunks = [*chunk];
        assert(chunks@ =~= seq![*chunk]);
        self.clean_entity_chunks(&chunks)
    }

    /// Removes entity chunks from memory that have been saved, except those
    /// that somebody has begun to watch meanwhile. Returns the handles of the
    /// chunks that left.
    pub fn finish_cleaning(&mut self, listed: &Vec<(Vector2, usize)>) -> (removed: Vec<usize>)
        requires
            old(self)@.wf(),
        ensures
            final(self)@.wf(),
            final(self)@ == old(self)@.without_unwatched(listed@),
            removed@ == old(self)@.handles_removed(listed@),
    {
        let mut removed: Vec<usize> = Vec::new();
        let mut i: usize = 0;
        assert(self@ =~= old(self)@.without_unwatched(listed@.take(0)));
        while i < listed.len()
            invariant
                i <= listed@.len(),
                self@ == old(self)@.without_unwatched(listed@.take(i as int)),
                removed@ == old(self)@.handles_removed(listed@.take(i as int)),
            decreases listed@.len() - i,
        {
            let ghost before = self@;
            let pos = listed[i].0;
            let watchers = &self.chunk_watchers;
            let unwatched = |_key: &(i32, i32), _handle: &usize| -> (answer: bool)
                ensures
                    answer == (watch_count(chunk_map::entries(*watchers), pos) == 0),
                { is_unwatched(watchers, pos) };
            let dropped = chunk_map::remove_if(
                &mut self.loaded_entity_chunks,
                pos.key(),
                unwatched,
            );
            if let Some(handle) = dropped {
                removed.push(handle);
            }
            i += 1;
            proof {
                let shorter = listed@.take(i - 1);
                let longer = listed@.take(i as int);
                assert(longer.drop_last() =~= shorter);
                assert forall|at: Vector2| #[trigger] mentions(longer, at) <==> (mentions(
                    shorter,
                    at,
                ) || at == pos) by {
                    assert(longer[i - 1].0 == pos);
                    if mentions(shorter, at) {
                        let k = choose|k: int| 0 <= k < shorter.len() && (#[trigger] shorter[k]).0
                            == at;
                        assert(longer[k].0 == at);
                    }
                    if mentions(longer, at) {
                        let k = choose|k: int| 0 <= k < longer.len() && (#[trigger] longer[k]).0
                            == at;
                        if k < i - 1 {
                            assert(shorter[k].0 == at);
                        }
                    }
                }
                assert(Vector2::from_key(pos.key()) == pos);
                assert(self@ =~= old(self)@.without_unwatched(longer));
            }
        }
        assert(listed@.take(i as int) =~= listed@);
        removed
    }

    /// Removes from memory all entity chunks that nobody watches, and gives
    /// back room that the maps no longer need.
    pub fn clean_memory(&mut self)
        requires
            old(self)@.wf(),
        ensures
            final(self)@.wf(),
            final(self)@ == old(self)@.with_watched_entities_only(),
    {
        let watched = |_key: &(i32, i32), count: &usize| -> (answer: bool)
            ensures
                answer == (*count != 0),
            { !is_zero(*count) };
        chunk_map::retain(&mut self.chunk_watchers, watched);
        assert(self@.watchers =~= old(self)@.watchers);
        let watchers = &self.chunk_watchers;
        let at_watched = |at: &(i32, i32), _handle: &usize| -> (answer: bool)
            ensures
                answer == chunk_map::entries(*watchers).contains_key(*at),
            { chunk_map::get(watchers, *at).is_some() };
        chunk_map::retain(&mut self.loaded_entity_chunks, at_watched);
        assert(self@.loaded_entities =~= old(self)@.with_watched_entities_only().loaded_entities);

        let capacity: usize = chunk_map::capacity(&self.chunk_watchers);
        let len: usize = chunk_map::len(&self.chunk_watchers);
        if has_spare_room(capacity, len) {
            chunk_map::shrink_to_fit(&mut self.chunk_watchers);
        }
        let capacity: usize = chunk_map::capacity(&self.loaded_entity_chunks);
        let len: usize = chunk_map::len(&self.loaded_entity_chunks);
        if has_spare_room(capacity, len) {
            chunk_map::shrink_to_fit(&mut self.loaded_entity_chunks);
        }
    }

    /// What to save of the given chunks: all of them, in the level's folder;
    /// nothing if there are none.
    pub fn write_chunks(&self, chunks_to_write: Vec<(Vector2, usize)>) -> (request: Option<
        SaveRequest,
    >)
        ensures
            request is None <==> chunks_to_write@.len() == 0,
            request is Some ==> request->0 == (SaveRequest {
                level_folder: self@.level_folder,
                format: self@.chunk_saver,
                chunks: chunks_to_write,
            }),
    {
        if chunks_to_write.is_empty() {
            return None;
        }
        Some(
            SaveRequest {
                level_folder: self.level_folder.clone(),
                format: self.chunk_saver,
                chunks: chunks_to_write,
            },
        )
    }

    /// What to save of the given entity chunks: all of them, in the level's
    /// folder; nothing if there are none.
    pub fn write_entity_chunks(&self, chunks_to_write: Vec<(Vector2, usize)>) -> (request: Option<
        SaveRequest,
    >)
        ensures
            request is None <==> chunks_to_write@.len() == 0,
            request is Some ==> request->0 == (SaveRequest {
                level_folder: self@.level_folder,
                format: self@.entity_saver,
                chunks: chunks_to_write,
            }),
    {
        if chunks_to_write.is_empty() {
            return None;
        }
        Some(
            SaveRequest {
                level_folder: self.level_folder.clone(),
                format: self.entity_saver,
                chunks: chunks_to_write,
            },
        )
    }
}

/// The chunks to be cleaned are the listed ones that can be, with their
/// handles.
pub(crate) proof fn lemma_to_clean(level: LevelView, chunks: Seq<Vector2>, at: Vector2)
    ensures
        mentions(level.to_clean(chunks), at) <==> chunks.contains(at) && level.cleanable(at),
        mentions(level.to_clean(chunks), at) ==> level.to_clean(chunks).contains(
            (at, level.loaded_entities[at.key()]),
        ),
    decreases chunks.len(),
{
    if chunks.len() > 0 {
        let shorter = chunks.drop_last();
        let last = chunks.last();
        let listed = level.to_clean(chunks);
        let listed_before = level.to_clean(shorter);
        lemma_to_clean(level, shorter, at);
        assert(chunks =~= shorter.push(last));
        vstd::seq_lib::lemma_seq_contains_after_push(shorter, last, at);
        if level.cleanable(last) {
            let entry = (last, level.loaded_entities[last.key()]);
            assert(listed =~= listed_before.push(entry));
            assert(listed[listed.len() - 1] == entry);
            assert(forall|k: int|
                0 <= k < listed_before.len() ==> listed_before[k] == #[trigger] listed[k]);
            if mentions(listed_before, at) {
                let k = choose|k: int|
                    0 <= k < listed_before.len() && (#[trigger] listed_before[k]).0 == at;
                assert(listed[k].0 == at);
                vstd::seq_lib::lemma_seq_contains_after_push(
                    listed_before,
                    entry,
                    (at, level.loaded_entities[at.key()]),
                );
            }
            if mentions(listed, at) {
                let k = choose|k: int| 0 <= k < listed.len() && (#[trigger] listed[k]).0 == at;
                if k < listed_before.len() {
                    assert(listed_before[k].0 == at);
                }
            }
        } else {
            assert(listed =~= listed_before);
        }
    }
}

/// An entity chunk that somebody watches stays in memory, even if it was to be
/// cleaned; so does one that was not saved.
pub proof fn law_watched_or_unsaved_entity_chunks_stay(
    level: LevelView,
    saved: Seq<(Vector2, usize)>,
    at: Vector2,
)
    requires
        level.loaded_entities.contains_key(at.key()),
        watch_count(level.watchers, at) > 0 || !mentions(saved, at),
    ensures
        level.without_unwatched(saved).loaded_entities.contains_key(at.key()),
        level.without_unwatched(saved).loaded_entities[at.key()]
            == level.loaded_entities[at.key()],
{
    assert(Vector2::from_key(at.key()) == at);
}

/// An entity chunk that was saved and that nobody watches leaves memory.
pub proof fn law_saved_unwatched_entity_chunks_leave(
    level: LevelView,
    saved: Seq<(Vector2, usize)>,
    at: Vector2,
)
    requires
        watch_count(level.watchers, at) == 0,
        mentions(saved, at),
    ensures
        !level.without_unwatched(saved).loaded_entities.contains_key(at.key()),
{
    assert(Vector2::from_key(at.key()) == at);
}

/// When no players are watching a chunk any more, it is removed from memory:
/// once the chunks that players left alone have been cleaned, none of them is
/// there.
pub proof fn law_chunks_left_alone_leave_memory(
    before: Map<(i32, i32), usize>,
    chunks: Seq<Vector2>,
    level: LevelView,
    at: Vector2,
)
    requires
        watching_ended(before, chunks, level.watchers),
        left_alone(before, chunks).contains(at),
    ensures
        !level.without_unwatched(
            level.to_clean(left_alone(before, chunks)),
        ).loaded_entities.contains_key(at.key()),
{
    let alone = left_alone(before, chunks);
    crate::watch::law_chunks_handed_back_are_those_left_alone(before, chunks, level.watchers);
    assert(watch_count(level.watchers, at) == 0);
    lemma_to_clean(level, alone, at);
    if level.loaded_entities.contains_key(at.key()) {
        assert(level.cleanable(at));
        law_saved_unwatched_entity_chunks_leave(level, level.to_clean(alone), at);
    }
}

/// A chunk that leaves memory was listed for saving, with the very handle
/// that leaves, if nothing changed in between.
pub proof fn law_what_leaves_memory_was_saved(level: LevelView, chunks: Seq<Vector2>, at: Vector2)
    requires
        level.loaded_entities.contains_key(at.key()),
        !level.without_unwatched(level.to_clean(chunks)).loaded_entities.contains_key(at.key()),
    ensures
        level.to_clean(chunks).contains((at, level.loaded_entities[at.key()])),
{
    assert(Vector2::from_key(at.key()) == at);
    lemma_to_clean(level, chunks, at);
}

/// After a cleaning of memory the entity chunks there are those of before that
/// somebody watches; a second cleaning changes nothing.
pub proof fn law_cleaning_memory_keeps_what_is_watched(level: LevelView, at: Vector2)
    requires
        level.wf(),
    ensures
        level.with_watched_entities_only().loaded_entities.contains_key(at.key())
            <==> level.loaded_entities.contains_key(at.key()) && watch_count(level.watchers, at)
            > 0,
        level.with_watched_entities_only().with_watched_entities_only()
            == level.with_watched_entities_only(),
{
    let once = level.with_watched_entities_only();
    assert(once.with_watched_entities_only().loaded_entities =~= once.loaded_entities);
}

/// While a chunk is being saved, it is still in memory and handed out from
/// there, so that nobody is given an older one from disk.
pub proof fn law_chunk_being_saved_is_still_handed_out(
    level: LevelView,
    chunks: Seq<Vector2>,
    i: int,
)
    requires
        0 <= i < level.to_clean(chunks).len(),
    ensures
        level.entity_chunk_step(level.to_clean(chunks)[i].0) == EntityChunkStep::Ready(
            level.to_clean(chunks)[i].1,
        ),
    decreases chunks.len(),
{
    if chunks.len() > 0 && i < level.to_clean(chunks.drop_last()).len() {
        law_chunk_being_saved_is_still_handed_out(level, chunks.drop_last(), i);
    }
}

/// A list mentions the chunks whose coordinates it lists.
pub proof fn law_list_mentions_what_it_lists(listed: Seq<(Vector2, usize)>, at: Vector2)
    ensures
        mentions(listed, at) <==> listed.map_values(|entry: (Vector2, usize)| entry.0).contains(at),
{
    let places = listed.map_values(|entry: (Vector2, usize)| entry.0);
    if mentions(listed, at) {
        let i = choose|i: int| 0 <= i < listed.len() && (#[trigger] listed[i]).0 == at;
        assert(places[i] == at);
    }
    if places.contains(at) {
        let i = choose|i: int| 0 <= i < places.len() && places[i] == at;
        assert(listed[i].0 == at);
    }
}

/// The chunks to be cleaned are the listed ones under whose coordinates memory
/// holds an entity chunk and nobody is counted as watching, in the order of the
/// list, with the handles that memory holds.
pub proof fn law_chunks_to_clean_are_those_nobody_watches(level: LevelView, chunks: Seq<Vector2>)
    ensures
        level.to_clean(chunks) == chunks.filter(
            |at: Vector2|
                level.loaded_entities.contains_key((at.x, at.y)) && !(level.watchers.contains_key(
                    (at.x, at.y),
                ) && level.watchers[(at.x, at.y)] > 0),
        ).map_values(|at: Vector2| (at, level.loaded_entities[(at.x, at.y)])),
    decreases chunks.len(),
{
    reveal(Seq::filter);
    let chosen = |at: Vector2|
        level.loaded_entities.contains_key((at.x, at.y)) && !(level.watchers.contains_key(
            (at.x, at.y),
        ) && level.watchers[(at.x, at.y)] > 0);
    let entry_of = |at: Vector2| (at, level.loaded_entities[(at.x, at.y)]);
    if chunks.len() > 0 {
        let shorter = chunks.drop_last();
        let last = chunks.last();
        law_chunks_to_clean_are_those_nobody_watches(level, shorter);
        if chosen(last) {
            assert(level.to_clean(chunks) =~= level.to_clean(shorter).push(entry_of(last)));
            assert(chunks.filter(chosen).map_values(entry_of) =~= shorter.filter(
                chosen,
            ).map_values(entry_of).push(entry_of(last)));
        } else {
            assert(level.to_clean(chunks) =~= level.to_clean(shorter));
        }
    } else {
        assert(level.to_clean(chunks) =~= chunks.filter(chosen).map_values(entry_of));
    }
}

/// When a cleaning is finished, an entity chunk is still in memory just if it
/// was there and either was not listed or is watched, under the handle that it
/// had; and all else is as it was.
pub proof fn law_finished_cleaning_removes_just_the_listed_unwatched(
    level: LevelView,
    listed: Seq<(Vector2, usize)>,
    at: Vector2,
)
    ensures
        level.without_unwatched(listed).loaded_entities.contains_key((at.x, at.y))
            <==> level.loaded_entities.contains_key((at.x, at.y)) && (!listed.map_values(
            |entry: (Vector2, usize)| entry.0,
        ).contains(at) || level.watchers.contains_key((at.x, at.y)) && level.watchers[(
            at.x,
            at.y,
        )] > 0),
        level.without_unwatched(listed).loaded_entities.contains_key((at.x, at.y))
            ==> level.without_unwatched(listed).loaded_entities[(at.x, at.y)]
            == level.loaded_entities[(at.x, at.y)],
        level.without_unwatched(listed) == (LevelView {
            loaded_entities: level.without_unwatched(listed).loaded_entities,
            ..level
        }),
{
    assert(Vector2::from_key((at.x, at.y)) == at);
    law_list_mentions_what_it_lists(listed, at);
}

/// One more listed chunk adds its handle to those that are handed back just if
/// the chunk is in memory, nobody is counted as watching it, and it was not
/// listed before.
pub proof fn law_handle_is_handed_back_once(
    level: LevelView,
    listed: Seq<(Vector2, usize)>,
    last: (Vector2, usize),
    leaves: bool,
)
    requires
        leaves <==> level.loaded_entities.contains_key((last.0.x, last.0.y)) && !(
        level.watchers.contains_key((last.0.x, last.0.y)) && level.watchers[(
            last.0.x,
            last.0.y,
        )] > 0) && !listed.map_values(|entry: (Vector2, usize)| entry.0).contains(last.0),
    ensures
        level.handles_removed(Seq::empty()).len() == 0,
        leaves ==> level.handles_removed(listed.push(last)) == level.handles_removed(listed).push(
            level.loaded_entities[(last.0.x, last.0.y)],
        ),
        !leaves ==> level.handles_removed(listed.push(last)) == level.handles_removed(listed),
{
    assert(listed.push(last).drop_last() =~= listed);
    law_list_mentions_what_it_lists(listed, last.0);
}

/// The handles that are handed back are those of the entity chunks that leave
/// memory.
pub proof fn law_handles_handed_back_are_of_chunks_that_leave(
    level: LevelView,
    listed: Seq<(Vector2, usize)>,
    handle: usize,
)
    ensures
        level.handles_removed(listed).contains(handle) <==> exists|at: Vector2|
            level.loaded_entities.contains_key((at.x, at.y)) && level.loaded_entities[(
                at.x,
                at.y,
            )] == handle && !(#[trigger] level.without_unwatched(
                listed,
            ).loaded_entities.contains_key((at.x, at.y))),
    decreases listed.len(),
{
    let after = level.without_unwatched(listed);
    if listed.len() > 0 {
        let shorter = listed.drop_last();
        let at = listed.last().0;
        let after_shorter = level.without_unwatched(shorter);
        law_handles_handed_back_are_of_chunks_that_leave(level, shorter, handle);
        assert(listed =~= shorter.push(listed.last()));
        assert forall|other: Vector2| #[trigger]
            after.loaded_entities.contains_key((other.x, other.y))
                <==> after_shorter.loaded_entities.contains_key((other.x, other.y)) && !(other == at
                && watch_count(level.watchers, at) == 0) by {
            law_finished_cleaning_removes_just_the_listed_unwatched(level, listed, other);
            law_finished_cleaning_removes_just_the_listed_unwatched(level, shorter, other);
            law_list_mentions_what_it_lists(listed, other);
            law_list_mentions_what_it_lists(shorter, other);
            assert(listed[listed.len() - 1].0 == at);
            if mentions(shorter, other) {
                let k = choose|k: int|
                    0 <= k < shorter.len() && (#[trigger] shorter[k]).0 == other;
                assert(listed[k].0 == other);
            }
            if mentions(listed, other) {
                let k = choose|k: int| 0 <= k < listed.len() && (#[trigger] listed[k]).0 == other;
                if k < shorter.len() {
                    assert(shorter[k].0 == other);
                }
            }
        }
        let before = level.handles_removed(shorter);
        vstd::seq_lib::lemma_seq_contains_after_push(
            before,
            level.loaded_entities[at.key()],
            handle,
        );
        if before.contains(handle) {
            let other = choose|other: Vector2|
                level.loaded_entities.contains_key((other.x, other.y)) && level.loaded_entities[(
                    other.x,
                    other.y,
                )] == handle && !(#[trigger] after_shorter.loaded_entities.contains_key(
                    (other.x, other.y),
                ));
            assert(!after.loaded_entities.contains_key((other.x, other.y)));
        }
        if level.cleanable(at) {
            assert(!after.loaded_entities.contains_key((at.x, at.y)));
            if mentions(shorter, at) {
                law_list_mentions_what_it_lists(shorter, at);
                law_finished_cleaning_removes_just_the_listed_unwatched(level, shorter, at);
                assert(!after_shorter.loaded_entities.contains_key((at.x, at.y)));
            }
        }
    } else {
        assert forall|at: Vector2| level.loaded_entities.contains_key((at.x, at.y)) implies
            #[trigger] after.loaded_entities.contains_key((at.x, at.y)) by {
            law_finished_cleaning_removes_just_the_listed_unwatched(level, listed, at);
            law_list_mentions_what_it_lists(listed, at);
        }
    }
}

/// A cleaning of memory keeps an entity chunk just if there is a count of
/// watchers under its coordinates, under the handle that it had; and all else is
/// as it was.
pub proof fn law_cleaning_memory_goes_by_the_watchers(level: LevelView, at: Vector2)
    ensures
        level.with_watched_entities_only().loaded_entities.contains_key((at.x, at.y))
            <==> level.loaded_entities.contains_key((at.x, at.y)) && level.watchers.contains_key(
            (at.x, at.y),
        ),
        level.with_watched_entities_only().loaded_entities.contains_key((at.x, at.y))
            ==> level.with_watched_entities_only().loaded_entities[(at.x, at.y)]
            == level.loaded_entities[(at.x, at.y)],
        level.with_watched_entities_only() == (LevelView {
            loaded_entities: level.with_watched_entities_only().loaded_entities,
            ..level
        }),
{
}

} // verus!
