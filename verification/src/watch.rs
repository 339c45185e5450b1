//! Who watches which chunk.
//!
//! A chunk is watched by a number of players. When nobody watches it any more,
//! it is removed from memory.

use crate::chunk_map::{self, ChunkMap};
use crate::level::{Level, LevelView};
use crate::math::Vector2;
use num_traits::Zero;
use vstd::prelude::*;

verus! {

/// How often a chunk occurs in a list.
pub open spec fn occurrences(chunks: Seq<Vector2>, at: Vector2) -> nat
    decreases chunks.len(),
{
    if chunks.len() == 0 {
        0
    } else {
        let before = occurrences(chunks.drop_last(), at);
        if chunks.last() == at {
            before + 1
        } else {
            before
        }
    }
}

/// How many watch a chunk.
pub open spec fn watch_count(watchers: Map<(i32, i32), usize>, at: Vector2) -> nat {
    if watchers.contains_key(at.key()) {
        watchers[at.key()] as nat
    } else {
        0
    }
}

/// How many watch a chunk that `count` watched before `more` came. The count
/// stays at the largest number once it is there.
pub open spec fn count_after_watching(count: nat, more: nat) -> nat {
    if count + more <= usize::MAX {
        count + more
    } else {
        usize::MAX as nat
    }
}

/// How many watch a chunk that `count` watched before `fewer` left.
pub open spec fn count_after_leaving(count: nat, fewer: nat) -> nat {
    if fewer <= count {
        (count - fewer) as nat
    } else {
        0
    }
}

/// Whether every watched chunk is watched by someone.
pub open spec fn all_watched(watchers: Map<(i32, i32), usize>) -> bool {
    forall|key: (i32, i32)| #[trigger] watchers.contains_key(key) ==> watchers[key] > 0
}

/// Whether the watchers after a player began to watch the listed chunks are
/// as they should be.
pub open spec fn watching_begun(
    before: Map<(i32, i32), usize>,
    chunks: Seq<Vector2>,
    after: Map<(i32, i32), usize>,
) -> bool {
    &&& all_watched(after)
    &&& forall|at: Vector2| #[trigger]
        watch_count(after, at) == count_after_watching(
            watch_count(before, at),
            occurrences(chunks, at),
        )
}

/// Whether the watchers after a player stopped watching the listed chunks are
/// as they should be.
pub open spec fn watching_ended(
    before: Map<(i32, i32), usize>,
    chunks: Seq<Vector2>,
    after: Map<(i32, i32), usize>,
) -> bool {
    &&& all_watched(after)
    &&& forall|at: Vector2| #[trigger]
        watch_count(after, at) == count_after_leaving(
            watch_count(before, at),
            occurrences(chunks, at),
        )
}

/// The chunks of a list that lose their last watcher when a player stops
/// watching the listed chunks one after the other, in the order in which they
/// lose it.
pub open spec fn left_alone(
    watchers: Map<(i32, i32), usize>,
    chunks: Seq<Vector2>,
) -> Seq<Vector2>
    decreases chunks.len(),
{
    if chunks.len() == 0 {
        Seq::empty()
    } else {
        let before = left_alone(watchers, chunks.drop_last());
        if occurrences(chunks, chunks.last()) == watch_count(watchers, chunks.last()) {
            before.push(chunks.last())
        } else {
            before
        }
    }
}

/// The chunks of a list whose count of watchers is used up when a player begins
/// to watch the listed chunks one after the other, in the order of the list: at
/// these the count stands still.
pub open spec fn past_counting(
    watchers: Map<(i32, i32), usize>,
    chunks: Seq<Vector2>,
) -> Seq<Vector2>
    decreases chunks.len(),
{
    if chunks.len() == 0 {
        Seq::empty()
    } else {
        let before = past_counting(watchers, chunks.drop_last());
        if watch_count(watchers, chunks.last()) + occurrences(chunks, chunks.last())
            > usize::MAX {
            before.push(chunks.last())
        } else {
            before
        }
    }
}

/// A chunk does not occur more often than a list is long.
proof fn lemma_occurrences_bounded(chunks: Seq<Vector2>, at: Vector2)
    ensures
        occurrences(chunks, at) <= chunks.len(),
    decreases chunks.len(),
{
    if chunks.len() > 0 {
        lemma_occurrences_bounded(chunks.drop_last(), at);
    }
}

/// How often a chunk occurs among the first of a list.
fn count_occurrences(chunks: &[Vector2], first: usize, at: Vector2) -> (count: usize)
    requires
        first <= chunks@.len(),
    ensures
        count == occurrences(chunks@.take(first as int), at),
{
    let mut count: usize = 0;
    let mut i: usize = 0;
    while i < first
        invariant
            i <= first <= chunks@.len(),
            count <= i,
            count == occurrences(chunks@.take(i as int), at),
        decreases first - i,
    {
        if chunks[i] == at {
            count += 1;
        }
        i += 1;
        assert(chunks@.take(i as int).drop_last() =~= chunks@.take(i - 1));
    }
    count
}

/// Calls [`num_traits::Zero::is_zero`], which says whether a count is zero.
#[verifier::external_body]
pub(crate) fn is_zero(count: usize) -> (zero: bool)
    ensures
        zero == (count == 0),
{
    count.is_zero()
}

/// Whether nobody watches the chunk: it has no count of watchers, or none are
/// counted.
pub(crate) fn is_unwatched(watchers: &ChunkMap, chunk: Vector2) -> (unwatched: bool)
    ensures
        unwatched == (watch_count(chunk_map::entries(*watchers), chunk) == 0),
{
    match chunk_map::get(watchers, chunk.key()) {
        Some(count) => is_zero(count),
        None => true,
    }
}

impl Level {
    /// The listed chunks whose count of watchers is used up when a player begins
    /// to watch the listed chunks, each as often as its count then stands still.
    pub fn chunks_past_counting(&self, chunks: &[Vector2]) -> (past: Vec<Vector2>)
        ensures
            past@ == past_counting(self@.watchers, chunks@),
    {
        let mut past: Vec<Vector2> = Vec::new();
        let mut i: usize = 0;
        while i < chunks.len()
            invariant
                i <= chunks@.len(),
                past@ == past_counting(self@.watchers, chunks@.take(i as int)),
            decreases chunks@.len() - i,
        {
            let chunk = chunks[i];
            i += 1;
            proof {
                let listed = chunks@.take(i as int);
                assert(listed.drop_last() =~= chunks@.take(i - 1));
                assert(listed.last() == chunk);
                lemma_occurrences_bounded(listed, chunk);
            }
            let count: usize = match chunk_map::get(&self.chunk_watchers, chunk.key()) {
                Some(count) => count,
                None => 0,
            };
            let room: usize = usize::MAX - count;
            if room < i && room < count_occurrences(chunks, i, chunk) {
                past.push(chunk);
            }
        }
        assert(chunks@.take(i as int) =~= chunks@);
        past
    }

    /// Marks chunks as "watched" by a unique player. When no players are watching a chunk,
    /// it is removed from memory. Should only be called on chunks the player was not watching
    /// before
    ///
    /// A count that is used up stands still, see [`Level::chunks_past_counting`].
    pub fn mark_chunks_as_newly_watched(&mut self, chunks: &[Vector2])
        requires
            old(self)@.wf(),
        ensures
            final(self)@.wf(),
            watching_begun(old(self)@.watchers, chunks@, final(self)@.watchers),
            final(self)@ == (LevelView { watchers: final(self)@.watchers, ..old(self)@ }),
    {
        let mut i: usize = 0;
        while i < chunks.len()
            invariant
                i <= chunks@.len(),
                old(self)@.wf(),
                watching_begun(old(self)@.watchers, chunks@.take(i as int), self@.watchers),
                self@ == (LevelView { watchers: self@.watchers, ..old(self)@ }),
            decreases chunks@.len() - i,
        {
            let ghost before = self@.watchers;
            let chunk = chunks[i];
            match chunk_map::get(&self.chunk_watchers, chunk.key()) {
                Some(value) => {
                    if let Some(new_value) = value.checked_add(1) {
                        chunk_map::insert(&mut self.chunk_watchers, chunk.key(), new_value);
                    }
                },
                None => {
                    chunk_map::insert(&mut self.chunk_watchers, chunk.key(), 1);
                },
            }
            i += 1;
            proof {
                let listed = chunks@.take(i as int);
                assert(listed.drop_last() =~= chunks@.take(i - 1));
                assert forall|at: Vector2| #[trigger]
                    watch_count(self@.watchers, at) == count_after_watching(
                        watch_count(old(self)@.watchers, at),
                        occurrences(listed, at),
                    ) by {
                    assert(watch_count(before, at) == count_after_watching(
                        watch_count(old(self)@.watchers, at),
                        occurrences(listed.drop_last(), at),
                    ));
                    if at != chunk {
                        assert(at.key() != chunk.key());
                    }
                }
            }
        }
        assert(chunks@.take(i as int) =~= chunks@);
    }

    /// Marks chunks no longer "watched" by a unique player. When no players are watching a chunk,
    /// it is removed from memory. Should only be called on chunks the player was watching before
    ///
    /// Returns the chunks that nobody watches any more. Chunks that nobody watched before are
    /// passed over: a player can leave before their chunks have come into memory.
    pub fn mark_chunks_as_not_watched(&mut self, chunks: &[Vector2]) -> (chunks_to_clean: Vec<
        Vector2,
    >)
        requires
            old(self)@.wf(),
        ensures
            final(self)@.wf(),
            watching_ended(old(self)@.watchers, chunks@, final(self)@.watchers),
            final(self)@ == (LevelView { watchers: final(self)@.watchers, ..old(self)@ }),
            chunks_to_clean@ == left_alone(old(self)@.watchers, chunks@),
    {
        let mut chunks_to_clean: Vec<Vector2> = Vec::new();
        let mut i: usize = 0;
        while i < chunks.len()
            invariant
                i <= chunks@.len(),
                old(self)@.wf(),
                watching_ended(old(self)@.watchers, chunks@.take(i as int), self@.watchers),
                self@ == (LevelView { watchers: self@.watchers, ..old(self)@ }),
                chunks_to_clean@ == left_alone(old(self)@.watchers, chunks@.take(i as int)),
            decreases chunks@.len() - i,
        {
            let ghost before = self@.watchers;
            let chunk = chunks[i];
            proof {
                let listed = chunks@.take(i + 1);
                assert(listed.drop_last() =~= chunks@.take(i as int));
                assert(listed.last() == chunk);
                assert(watch_count(before, chunk) == count_after_leaving(
                    watch_count(old(self)@.watchers, chunk),
                    occurrences(listed.drop_last(), chunk),
                ));
            }
            match chunk_map::get(&self.chunk_watchers, chunk.key()) {
                Some(value) => {
                    let value = value.saturating_sub(1);
                    if value == 0 {
                        chunk_map::remove(&mut self.chunk_watchers, chunk.key());
                        chunks_to_clean.push(chunk);
                    } else {
                        chunk_map::insert(&mut self.chunk_watchers, chunk.key(), value);
                    }
                },
                None => {},
            }
            i += 1;
            proof {
                let listed = chunks@.take(i as int);
                assert forall|at: Vector2| #[trigger]
                    watch_count(self@.watchers, at) == count_after_leaving(
                        watch_count(old(self)@.watchers, at),
                        occurrences(listed, at),
                    ) by {
                    assert(watch_count(before, at) == count_after_leaving(
                        watch_count(old(self)@.watchers, at),
                        occurrences(listed.drop_last(), at),
                    ));
                    if at != chunk {
                        assert(at.key() != chunk.key());
                    }
                }
            }
        }
        assert(chunks@.take(i as int) =~= chunks@);
        chunks_to_clean
    }

    /// Returns whether the chunk should be removed from memory
    pub fn mark_chunk_as_not_watched(&mut self, chunk: Vector2) -> (alone: bool)
        requires
            old(self)@.wf(),
        ensures
            final(self)@.wf(),
            alone == (watch_count(old(self)@.watchers, chunk) == 1),
            alone <==> old(self)@.watchers.contains_key((chunk.x, chunk.y)) && old(
                self,
            )@.watchers[(chunk.x, chunk.y)] == 1,
            watching_ended(old(self)@.watchers, seq![chunk], final(self)@.watchers),
            final(self)@ == (LevelView { watchers: final(self)@.watchers, ..old(self)@ }),
    {
        let chunks = [chunk];
        assert(chunks@ =~= seq![chunk]);
        let chunks_to_clean = self.mark_chunks_as_not_watched(&chunks);
        proof {
            reveal_with_fuel(occurrences, 2);
            reveal_with_fuel(left_alone, 2);
            assert(seq![chunk].drop_last() =~= Seq::<Vector2>::empty());
        }
        !chunks_to_clean.is_empty()
    }

    /// Whether anybody watches the chunk.
    pub fn is_chunk_watched(&self, chunk: &Vector2) -> (watched: bool)
        requires
            self@.wf(),
        ensures
            watched == (watch_count(self@.watchers, *chunk) > 0),
            watched == self@.watchers.contains_key((chunk.x, chunk.y)),
    {
        chunk_map::get(&self.chunk_watchers, chunk.key()).is_some()
    }
}

/// Two accounts of who watches are the same if they count the same watchers
/// for every chunk.
proof fn lemma_counts_determine_watchers(
    a: Map<(i32, i32), usize>,
    b: Map<(i32, i32), usize>,
)
    requires
        all_watched(a),
        all_watched(b),
        forall|at: Vector2| #[trigger] watch_count(a, at) == watch_count(b, at),
    ensures
        a == b,
{
    assert forall|key: (i32, i32)| a.contains_key(key) == b.contains_key(key) && (a.contains_key(
        key,
    ) ==> a[key] == b[key]) by {
        let at = Vector2::from_key(key);
        assert(at.key() == key);
        assert(watch_count(a, at) == watch_count(b, at));
    }
    assert(a =~= b);
}

/// A player who begins to watch some chunks and then stops watching them
/// leaves everything as it was. (At the largest number the count of watchers
/// stands still, so it must not be reached.)
pub proof fn law_watching_and_leaving_changes_nothing(
    before: Map<(i32, i32), usize>,
    chunks: Seq<Vector2>,
    during: Map<(i32, i32), usize>,
    after: Map<(i32, i32), usize>,
)
    requires
        all_watched(before),
        watching_begun(before, chunks, during),
        watching_ended(during, chunks, after),
        forall|at: Vector2|
            #![trigger watch_count(before, at)]
            watch_count(before, at) + occurrences(chunks, at) <= usize::MAX,
    ensures
        after == before,
{
    assert forall|at: Vector2| #[trigger] watch_count(after, at) == watch_count(before, at) by {
        assert(watch_count(during, at) == count_after_watching(
            watch_count(before, at),
            occurrences(chunks, at),
        ));
    }
    lemma_counts_determine_watchers(after, before);
}

/// The count of watchers falls short of how many watch for just those chunks
/// that are named as past counting.
pub proof fn law_counts_fall_short_only_of_chunks_past_counting(
    before: Map<(i32, i32), usize>,
    chunks: Seq<Vector2>,
    after: Map<(i32, i32), usize>,
    at: Vector2,
)
    requires
        watching_begun(before, chunks, after),
    ensures
        past_counting(before, chunks).contains(at) <==> watch_count(after, at) < watch_count(
            before,
            at,
        ) + occurrences(chunks, at),
{
    lemma_past_counting(before, chunks, at);
    assert(watch_count(after, at) == count_after_watching(
        watch_count(before, at),
        occurrences(chunks, at),
    ));
}

/// A chunk is past counting if its watchers and those to come are too many to
/// count.
proof fn lemma_past_counting(
    before: Map<(i32, i32), usize>,
    chunks: Seq<Vector2>,
    at: Vector2,
)
    ensures
        past_counting(before, chunks).contains(at) <==> watch_count(before, at) + occurrences(
            chunks,
            at,
        ) > usize::MAX,
    decreases chunks.len(),
{
    if chunks.len() > 0 {
        let shorter = chunks.drop_last();
        lemma_past_counting(before, shorter, at);
        vstd::seq_lib::lemma_seq_contains_after_push(
            past_counting(before, shorter),
            chunks.last(),
            at,
        );
    }
}

/// A chunk stays watched for as long as more players watch it than leave.
pub proof fn law_chunk_stays_watched_until_the_last_player_leaves(
    before: Map<(i32, i32), usize>,
    chunks: Seq<Vector2>,
    after: Map<(i32, i32), usize>,
    at: Vector2,
)
    requires
        watching_ended(before, chunks, after),
    ensures
        watch_count(after, at) > 0 <==> watch_count(before, at) > occurrences(chunks, at),
{
    assert(watch_count(after, at) == count_after_leaving(
        watch_count(before, at),
        occurrences(chunks, at),
    ));
}

/// Players may come in any order: only how many came to each chunk matters.
pub proof fn law_order_of_watching_does_not_matter(
    before: Map<(i32, i32), usize>,
    chunks: Seq<Vector2>,
    others: Seq<Vector2>,
    after: Map<(i32, i32), usize>,
    after_others: Map<(i32, i32), usize>,
)
    requires
        watching_begun(before, chunks, after),
        watching_begun(before, others, after_others),
        forall|at: Vector2| #[trigger] occurrences(chunks, at) == occurrences(others, at),
    ensures
        after == after_others,
{
    assert forall|at: Vector2| #[trigger] watch_count(after, at) == watch_count(
        after_others,
        at,
    ) by {
        assert(occurrences(chunks, at) == occurrences(others, at));
        assert(watch_count(after_others, at) == count_after_watching(
            watch_count(before, at),
            occurrences(others, at),
        ));
    }
    lemma_counts_determine_watchers(after, after_others);
}

/// Players may leave in any order: only how many left each chunk matters.
pub proof fn law_order_of_leaving_does_not_matter(
    before: Map<(i32, i32), usize>,
    chunks: Seq<Vector2>,
    others: Seq<Vector2>,
    after: Map<(i32, i32), usize>,
    after_others: Map<(i32, i32), usize>,
)
    requires
        watching_ended(before, chunks, after),
        watching_ended(before, others, after_others),
        forall|at: Vector2| #[trigger] occurrences(chunks, at) == occurrences(others, at),
    ensures
        after == after_others,
{
    assert forall|at: Vector2| #[trigger] watch_count(after, at) == watch_count(
        after_others,
        at,
    ) by {
        assert(occurrences(chunks, at) == occurrences(others, at));
        assert(watch_count(after_others, at) == count_after_leaving(
            watch_count(before, at),
            occurrences(others, at),
        ));
    }
    lemma_counts_determine_watchers(after, after_others);
}

/// The chunks that lose their last watcher are those that no more watch than
/// leave, and each loses it once.
proof fn lemma_left_alone(
    before: Map<(i32, i32), usize>,
    chunks: Seq<Vector2>,
)
    ensures
        forall|at: Vector2| #[trigger]
            left_alone(before, chunks).contains(at) <==> 0 < watch_count(before, at)
                <= occurrences(chunks, at),
        left_alone(before, chunks).no_duplicates(),
    decreases chunks.len(),
{
    if chunks.len() > 0 {
        let shorter = chunks.drop_last();
        let last = chunks.last();
        lemma_left_alone(before, shorter);
        let alone = left_alone(before, chunks);
        let alone_before = left_alone(before, shorter);
        if occurrences(chunks, last) == watch_count(before, last) {
            assert(!alone_before.contains(last));
            assert(alone == alone_before.push(last));
            assert(alone[alone.len() - 1] == last);
            assert forall|at: Vector2| #[trigger] alone.contains(at) <==> (alone_before.contains(at)
                || at == last) by {
                if alone_before.contains(at) {
                    let k = choose|k: int| 0 <= k < alone_before.len() && alone_before[k] == at;
                    assert(alone[k] == at);
                }
            }
        }
        assert forall|at: Vector2| #[trigger] alone.contains(at) <==> 0 < watch_count(before, at)
            <= occurrences(chunks, at) by {
            assert(alone_before.contains(at) <==> 0 < watch_count(before, at) <= occurrences(
                shorter,
                at,
            ));
        }
    }
}

/// The chunks that are handed back for removal are those that were watched
/// before and are not watched after, each once.
pub proof fn law_chunks_handed_back_are_those_left_alone(
    before: Map<(i32, i32), usize>,
    chunks: Seq<Vector2>,
    after: Map<(i32, i32), usize>,
)
    requires
        watching_ended(before, chunks, after),
    ensures
        left_alone(before, chunks).no_duplicates(),
        forall|at: Vector2| #[trigger]
            left_alone(before, chunks).contains(at) <==> watch_count(before, at) > 0
                && watch_count(after, at) == 0,
{
    lemma_left_alone(before, chunks);
    assert forall|at: Vector2| #[trigger] left_alone(before, chunks).contains(at) <==> watch_count(
        before,
        at,
    ) > 0 && watch_count(after, at) == 0 by {
        law_chunk_stays_watched_until_the_last_player_leaves(before, chunks, after, at);
    }
}

/// A chunk occurs in a list as often as the multiset of the list counts it.
pub proof fn law_occurrences_are_counted(chunks: Seq<Vector2>, at: Vector2)
    ensures
        occurrences(chunks, at) == chunks.to_multiset().count(at),
    decreases chunks.len(),
{
    broadcast use vstd::seq_lib::group_to_multiset_ensures;

    if chunks.len() > 0 {
        law_occurrences_are_counted(chunks.drop_last(), at);
        assert(chunks =~= chunks.drop_last().push(chunks.last()));
    }
}

/// The number under a chunk's coordinates grows by one for each time that the
/// chunk is listed, up to the largest number; a chunk without a number begins at
/// none; and nothing changes for a chunk that is not listed.
pub proof fn law_watching_counts_each_time_listed(
    before: Map<(i32, i32), usize>,
    chunks: Seq<Vector2>,
    after: Map<(i32, i32), usize>,
    at: Vector2,
)
    requires
        forall|key: (i32, i32)| #[trigger] before.contains_key(key) ==> before[key] > 0,
        watching_begun(before, chunks, after),
    ensures
        !chunks.contains(at) ==> (after.contains_key((at.x, at.y)) <==> before.contains_key(
            (at.x, at.y),
        )),
        !chunks.contains(at) && before.contains_key((at.x, at.y)) ==> after[(at.x, at.y)]
            == before[(at.x, at.y)],
        chunks.contains(at) ==> after.contains_key((at.x, at.y)),
        chunks.contains(at) && !before.contains_key((at.x, at.y)) ==> after[(at.x, at.y)]
            == vstd::math::min(chunks.to_multiset().count(at) as int, usize::MAX as int),
        chunks.contains(at) && before.contains_key((at.x, at.y)) ==> after[(at.x, at.y)]
            == vstd::math::min(
            before[(at.x, at.y)] + chunks.to_multiset().count(at),
            usize::MAX as int,
        ),
{
    chunks.to_multiset_ensures();
    law_occurrences_are_counted(chunks, at);
    assert(watch_count(after, at) == count_after_watching(
        watch_count(before, at),
        occurrences(chunks, at),
    ));
    assert(chunks.contains(at) <==> chunks.to_multiset().count(at) > 0);
}

/// The number under a chunk's coordinates shrinks by one for each time that the
/// chunk is listed; where that takes the last away, no number is left.
pub proof fn law_leaving_counts_each_time_listed(
    before: Map<(i32, i32), usize>,
    chunks: Seq<Vector2>,
    after: Map<(i32, i32), usize>,
    at: Vector2,
)
    requires
        forall|key: (i32, i32)| #[trigger] before.contains_key(key) ==> before[key] > 0,
        watching_ended(before, chunks, after),
    ensures
        after.contains_key((at.x, at.y)) <==> before.contains_key((at.x, at.y))
            && before[(at.x, at.y)] > chunks.to_multiset().count(at),
        after.contains_key((at.x, at.y)) ==> after[(at.x, at.y)] == before[(at.x, at.y)]
            - chunks.to_multiset().count(at),
{
    law_occurrences_are_counted(chunks, at);
    assert(watch_count(after, at) == count_after_leaving(
        watch_count(before, at),
        occurrences(chunks, at),
    ));
}

/// A player who leaves one chunk more hands that chunk back just if it is left
/// for the time that takes its last watcher, behind those handed back before.
pub proof fn law_chunk_is_handed_back_with_its_last_watcher(
    watchers: Map<(i32, i32), usize>,
    chunks: Seq<Vector2>,
    last: Vector2,
)
    ensures
        left_alone(watchers, Seq::empty()).len() == 0,
        watchers.contains_key((last.x, last.y)) && watchers[(last.x, last.y)] == chunks.push(
            last,
        ).to_multiset().count(last) ==> left_alone(watchers, chunks.push(last)) == left_alone(
            watchers,
            chunks,
        ).push(last),
        !watchers.contains_key((last.x, last.y)) || watchers[(last.x, last.y)] != chunks.push(
            last,
        ).to_multiset().count(last) ==> left_alone(watchers, chunks.push(last)) == left_alone(
            watchers,
            chunks,
        ),
{
    assert(chunks.push(last).drop_last() =~= chunks);
    law_occurrences_are_counted(chunks.push(last), last);
    chunks.push(last).to_multiset_ensures();
    assert(chunks.push(last)[chunks.len() as int] == last);
    assert(chunks.push(last).contains(last));
}

/// A player who watches one chunk more has that chunk named as past counting
/// just if its watchers and the times that it is listed are then more than the
/// largest number, behind those named before.
pub proof fn law_chunk_is_named_when_its_count_is_used_up(
    watchers: Map<(i32, i32), usize>,
    chunks: Seq<Vector2>,
    last: Vector2,
    count: int,
)
    requires
        count == (if watchers.contains_key((last.x, last.y)) {
            watchers[(last.x, last.y)] as int
        } else {
            0
        }),
    ensures
        past_counting(watchers, Seq::empty()).len() == 0,
        count + chunks.push(last).to_multiset().count(last) > usize::MAX ==> past_counting(
            watchers,
            chunks.push(last),
        ) == past_counting(watchers, chunks).push(last),
        count + chunks.push(last).to_multiset().count(last) <= usize::MAX ==> past_counting(
            watchers,
            chunks.push(last),
        ) == past_counting(watchers, chunks),
{
    assert(chunks.push(last).drop_last() =~= chunks);
    law_occurrences_are_counted(chunks.push(last), last);
}

} // verus!
