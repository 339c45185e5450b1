//! Getting a chunk that may not be in memory.
//!
//! A call for a chunk takes turns with the chunk system: the level says what to
//! do next, the caller does it and comes back.

use crate::chunk_map::{self, lookup};
use crate::level::Level;
use crate::math::Vector2;
use vstd::prelude::*;

verus! {

/// How far a call for a chunk has come.
#[derive(Clone, Copy, Debug, PartialEq, Eq, Structural)]
pub enum ChunkFetch {
    /// Nothing has been done yet.
    Start,
    /// Somebody listens for the chunk.
    Listening,
    /// The chunk system has been told to load the chunk.
    Requested,
    /// The chunk is waited for.
    Waiting,
    /// The chunk has come; the chunk system need not hold it any longer.
    Releasing(usize),
    /// The chunk has been handed out.
    Done(usize),
}

/// What to do next in a call for a chunk.
#[derive(Clone, Copy, Debug, PartialEq, Eq, Structural)]
pub enum FetchAction {
    /// Listen for the chunk.
    AddListener,
    /// Add a ticket that forces the chunk system to load the chunk, and tell
    /// the chunk system of the change, both under one lock.
    AddForceTicketAndSendChange,
    /// Wait until the listener hears of the chunk.
    AwaitListener,
    /// Take back the ticket.
    RemoveForceTicket,
    /// Hand out the chunk.
    Finish(usize),
}

impl ChunkFetch {
    /// What comes next, given the chunk's handle if it is in memory, and the
    /// handle that the listener heard of, if it did.
    ///
    /// Once the chunk system has been told, memory is looked through a second
    /// time: a chunk that came in before the listener did is never heard of.
    pub open spec fn next(self, loaded: Option<usize>, delivered: Option<usize>) -> (
        ChunkFetch,
        FetchAction,
    ) {
        match self {
            ChunkFetch::Start => match loaded {
                Some(handle) => (ChunkFetch::Done(handle), FetchAction::Finish(handle)),
                None => (ChunkFetch::Listening, FetchAction::AddListener),
            },
            ChunkFetch::Listening => (
                ChunkFetch::Requested,
                FetchAction::AddForceTicketAndSendChange,
            ),
            ChunkFetch::Requested => match loaded {
                Some(handle) => (ChunkFetch::Releasing(handle), FetchAction::RemoveForceTicket),
                None => (ChunkFetch::Waiting, FetchAction::AwaitListener),
            },
            ChunkFetch::Waiting => match delivered {
                Some(handle) => (ChunkFetch::Releasing(handle), FetchAction::RemoveForceTicket),
                None => (ChunkFetch::Waiting, FetchAction::AwaitListener),
            },
            ChunkFetch::Releasing(handle) => (
                ChunkFetch::Done(handle),
                FetchAction::Finish(handle),
            ),
            ChunkFetch::Done(handle) => (ChunkFetch::Done(handle), FetchAction::Finish(handle)),
        }
    }

    /// Whether the chunk system holds a ticket on behalf of the call.
    pub open spec fn holds_ticket(self) -> bool {
        self is Requested || self is Waiting
    }
}

impl Level {
    /// Takes a call for a chunk one step further. `delivered` is the chunk
    /// that the listener heard of, if it did.
    pub fn get_chunk(&self, pos: Vector2, fetch: ChunkFetch, delivered: Option<usize>) -> (next: (
        ChunkFetch,
        FetchAction,
    ))
        ensures
            next == fetch.next(lookup(self@.loaded, pos.key()), delivered),
            fetch is Start && self@.loaded.contains_key((pos.x, pos.y)) ==> next == (
                ChunkFetch::Done(self@.loaded[(pos.x, pos.y)]),
                FetchAction::Finish(self@.loaded[(pos.x, pos.y)]),
            ),
            fetch is Start && !self@.loaded.contains_key((pos.x, pos.y)) ==> next == (
                ChunkFetch::Listening,
                FetchAction::AddListener,
            ),
            fetch is Requested && self@.loaded.contains_key((pos.x, pos.y)) ==> next == (
                ChunkFetch::Releasing(self@.loaded[(pos.x, pos.y)]),
                FetchAction::RemoveForceTicket,
            ),
            fetch is Requested && !self@.loaded.contains_key((pos.x, pos.y)) ==> next == (
                ChunkFetch::Waiting,
                FetchAction::AwaitListener,
            ),
    {
        match fetch {
            ChunkFetch::Start => match chunk_map::get(&self.loaded_chunks, pos.key()) {
                Some(handle) => (ChunkFetch::Done(handle), FetchAction::Finish(handle)),
                None => (ChunkFetch::Listening, FetchAction::AddListener),
            },
            ChunkFetch::Listening => (
                ChunkFetch::Requested,
                FetchAction::AddForceTicketAndSendChange,
            ),
            ChunkFetch::Requested => match chunk_map::get(&self.loaded_chunks, pos.key()) {
                Some(handle) => (ChunkFetch::Releasing(handle), FetchAction::RemoveForceTicket),
                None => (ChunkFetch::Waiting, FetchAction::AwaitListener),
            },
            ChunkFetch::Waiting => match delivered {
                Some(handle) => (ChunkFetch::Releasing(handle), FetchAction::RemoveForceTicket),
                None => (ChunkFetch::Waiting, FetchAction::AwaitListener),
            },
            ChunkFetch::Releasing(handle) => (
                ChunkFetch::Done(handle),
                FetchAction::Finish(handle),
            ),
            ChunkFetch::Done(handle) => (ChunkFetch::Done(handle), FetchAction::Finish(handle)),
        }
    }
}

/// How far a call for a chunk has come after a number of steps, given what was
/// in memory and what was heard of at each step.
pub open spec fn state_after(seen: Seq<(Option<usize>, Option<usize>)>) -> ChunkFetch
    decreases seen.len(),
{
    if seen.len() == 0 {
        ChunkFetch::Start
    } else {
        state_after(seen.drop_last()).next(seen.last().0, seen.last().1).0
    }
}

/// What was done in a number of steps of a call for a chunk.
pub open spec fn actions_of(seen: Seq<(Option<usize>, Option<usize>)>) -> Seq<FetchAction>
    decreases seen.len(),
{
    if seen.len() == 0 {
        Seq::empty()
    } else {
        actions_of(seen.drop_last()).push(
            state_after(seen.drop_last()).next(seen.last().0, seen.last().1).1,
        )
    }
}

/// How many tickets were added and not taken back.
pub open spec fn tickets_held(actions: Seq<FetchAction>) -> int
    decreases actions.len(),
{
    if actions.len() == 0 {
        0
    } else {
        tickets_held(actions.drop_last()) + match actions.last() {
            FetchAction::AddForceTicketAndSendChange => 1int,
            FetchAction::RemoveForceTicket => -1int,
            _ => 0int,
        }
    }
}

/// A call for a chunk holds at most one ticket at any time, and has taken it
/// back when it hands out the chunk.
pub proof fn law_every_ticket_is_taken_back(seen: Seq<(Option<usize>, Option<usize>)>)
    ensures
        tickets_held(actions_of(seen)) == (if state_after(seen).holds_ticket() {
            1int
        } else {
            0
        }),
        state_after(seen) is Done ==> tickets_held(actions_of(seen)) == 0,
    decreases seen.len(),
{
    if seen.len() > 0 {
        law_every_ticket_is_taken_back(seen.drop_last());
        assert(actions_of(seen).drop_last() =~= actions_of(seen.drop_last()));
    }
}

proof fn lemma_first_action(seen: Seq<(Option<usize>, Option<usize>)>)
    ensures
        actions_of(seen).len() == seen.len(),
        state_after(seen) is Start <==> seen.len() == 0,
        seen.len() > 0 && !(state_after(seen) is Done) ==> actions_of(seen)[0]
            == FetchAction::AddListener,
    decreases seen.len(),
{
    if seen.len() > 0 {
        lemma_first_action(seen.drop_last());
    }
}

/// A ticket is added, and the chunk is waited for, only after somebody began
/// to listen.
pub proof fn law_listener_comes_first(seen: Seq<(Option<usize>, Option<usize>)>, i: int)
    requires
        0 <= i < actions_of(seen).len(),
        actions_of(seen)[i] is AddForceTicketAndSendChange || actions_of(seen)[i] is AwaitListener,
    ensures
        i > 0,
        actions_of(seen)[0] == FetchAction::AddListener,
    decreases seen.len(),
{
    let shorter = seen.drop_last();
    lemma_first_action(shorter);
    if i < actions_of(shorter).len() {
        law_listener_comes_first(shorter, i);
    }
}

/// A call that waits for a chunk ends two steps after the listener has heard
/// of the chunk, and hands out that chunk.
pub proof fn law_call_ends_when_the_chunk_is_heard_of(
    seen: Seq<(Option<usize>, Option<usize>)>,
    loaded: Option<usize>,
    handle: usize,
    later: (Option<usize>, Option<usize>),
)
    requires
        state_after(seen) is Waiting,
    ensures
        state_after(seen.push((loaded, Some(handle))).push(later)) == ChunkFetch::Done(handle),
{
    let heard = seen.push((loaded, Some(handle)));
    assert(heard.drop_last() =~= seen);
    assert(state_after(heard) == ChunkFetch::Releasing(handle));
    assert(heard.push(later).drop_last() =~= heard);
}

/// The chunk that is handed out was in memory at some step, or was heard of.
pub proof fn law_chunk_handed_out_was_seen(
    seen: Seq<(Option<usize>, Option<usize>)>,
    handle: usize,
)
    requires
        state_after(seen) == ChunkFetch::Releasing(handle) || state_after(seen)
            == ChunkFetch::Done(handle),
    ensures
        exists|i: int|
            0 <= i < seen.len() && ((#[trigger] seen[i]).0 == Some(handle) || seen[i].1 == Some(
                handle,
            )),
    decreases seen.len(),
{
    let shorter = seen.drop_last();
    if state_after(shorter) == ChunkFetch::Releasing(handle) || state_after(shorter)
        == ChunkFetch::Done(handle) {
        law_chunk_handed_out_was_seen(shorter, handle);
        let i = choose|i: int|
            0 <= i < shorter.len() && ((#[trigger] shorter[i]).0 == Some(handle) || shorter[i].1
                == Some(handle));
        assert(seen[i] == shorter[i]);
    } else {
        assert(seen[seen.len() - 1] == seen.last());
    }
}

/// A chunk that is in memory is handed out at once; and one that comes into
/// memory before the second look through it is not waited for.
pub proof fn law_chunk_in_memory_is_not_waited_for(handle: usize, delivered: Option<usize>)
    ensures
        ChunkFetch::Start.next(Some(handle), delivered) == (
            ChunkFetch::Done(handle),
            FetchAction::Finish(handle),
        ),
        ChunkFetch::Requested.next(Some(handle), delivered) == (
            ChunkFetch::Releasing(handle),
            FetchAction::RemoveForceTicket,
        ),
{
}

/// A call for a chunk that is not in memory listens, then has the chunk loaded,
/// then waits; it waits until the listener hears of a chunk, whatever is in
/// memory by then, and takes back its ticket for that chunk before it hands it
/// out.
pub proof fn law_missing_chunk_is_listened_for_loaded_and_awaited(
    loaded: Option<usize>,
    delivered: Option<usize>,
    handle: usize,
)
    ensures
        ChunkFetch::Start.next(None, delivered) == (
            ChunkFetch::Listening,
            FetchAction::AddListener,
        ),
        ChunkFetch::Listening.next(loaded, delivered) == (
            ChunkFetch::Requested,
            FetchAction::AddForceTicketAndSendChange,
        ),
        ChunkFetch::Requested.next(None, delivered) == (
            ChunkFetch::Waiting,
            FetchAction::AwaitListener,
        ),
        ChunkFetch::Waiting.next(loaded, None) == (
            ChunkFetch::Waiting,
            FetchAction::AwaitListener,
        ),
        ChunkFetch::Waiting.next(loaded, Some(handle)) == (
            ChunkFetch::Releasing(handle),
            FetchAction::RemoveForceTicket,
        ),
        ChunkFetch::Releasing(handle).next(loaded, delivered) == (
            ChunkFetch::Done(handle),
            FetchAction::Finish(handle),
        ),
        ChunkFetch::Done(handle).next(loaded, delivered) == (
            ChunkFetch::Done(handle),
            FetchAction::Finish(handle),
        ),
{
}

proof fn lemma_awaiting(seen: Seq<(Option<usize>, Option<usize>)>)
    requires
        seen.len() >= 3,
        seen[0].0 is None,
        seen[2].0 is None,
        forall|k: int| 3 <= k < seen.len() ==> (#[trigger] seen[k]).1 is None,
    ensures
        state_after(seen) is Waiting,
        actions_of(seen) == seq![
            FetchAction::AddListener,
            FetchAction::AddForceTicketAndSendChange,
        ] + Seq::new((seen.len() - 2) as nat, |k: int| FetchAction::AwaitListener),
    decreases seen.len(),
{
    let shorter = seen.drop_last();
    if seen.len() == 3 {
        reveal_with_fuel(state_after, 4);
        reveal_with_fuel(actions_of, 4);
        assert(shorter.drop_last().drop_last().len() == 0);
        assert(shorter.drop_last().last() == seen[0]);
    } else {
        lemma_awaiting(shorter);
    }
    assert(actions_of(seen) =~= seq![
        FetchAction::AddListener,
        FetchAction::AddForceTicketAndSendChange,
    ] + Seq::new((seen.len() - 2) as nat, |k: int| FetchAction::AwaitListener));
}

/// The whole course of a call for a chunk that is in memory neither at the first
/// look nor at the second, and that the listener hears of at last: one listener,
/// one ticket, the wait, the ticket taken back, and the chunk that was heard of
/// handed out.
pub proof fn law_course_of_a_call_for_a_missing_chunk(
    seen: Seq<(Option<usize>, Option<usize>)>,
    loaded: Option<usize>,
    handle: usize,
    later: (Option<usize>, Option<usize>),
)
    requires
        seen.len() >= 3,
        seen[0].0 is None,
        seen[2].0 is None,
        forall|k: int| 3 <= k < seen.len() ==> (#[trigger] seen[k]).1 is None,
    ensures
        actions_of(seen.push((loaded, Some(handle))).push(later)) == seq![
            FetchAction::AddListener,
            FetchAction::AddForceTicketAndSendChange,
        ] + Seq::new((seen.len() - 2) as nat, |k: int| FetchAction::AwaitListener) + seq![
            FetchAction::RemoveForceTicket,
            FetchAction::Finish(handle),
        ],
{
    lemma_awaiting(seen);
    let heard = seen.push((loaded, Some(handle)));
    assert(heard.drop_last() =~= seen);
    assert(heard.push(later).drop_last() =~= heard);
    assert(state_after(heard) == ChunkFetch::Releasing(handle));
    assert(actions_of(heard) == actions_of(seen).push(FetchAction::RemoveForceTicket));
    assert(actions_of(heard.push(later)) =~= actions_of(seen) + seq![
        FetchAction::RemoveForceTicket,
        FetchAction::Finish(handle),
    ]);
}

} // verus!
