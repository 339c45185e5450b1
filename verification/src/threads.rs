//! The threads that a level runs on.

use vstd::prelude::*;

verus! {

/// How many threads a level starts.
#[derive(Clone, Copy, Debug, PartialEq, Eq, Structural)]
pub struct ThreadPlan {
    /// Threads of the chunk system that read and write.
    pub io_threads: usize,
    /// Threads of the chunk system that generate chunks.
    pub generation_threads: usize,
    /// Threads that generate entity chunks.
    pub entity_threads: usize,
}

impl ThreadPlan {
    /// The plan for a machine with the given number of processors: two
    /// processors are left to others, half as many threads generate entity
    /// chunks as generate chunks, and there is at least one of each.
    pub open spec fn spec_for_cpus(cpus: usize) -> ThreadPlan {
        let generation_threads: usize = if cpus <= 3 {
            1
        } else {
            (cpus - 2) as usize
        };
        ThreadPlan {
            io_threads: 4,
            generation_threads,
            entity_threads: if generation_threads < 2 {
                1
            } else {
                (generation_threads / 2) as usize
            },
        }
    }

    /// The plan for a machine with the given number of processors.
    pub fn for_cpus(cpus: usize) -> (plan: ThreadPlan)
        ensures
            plan == ThreadPlan::spec_for_cpus(cpus),
            plan.generation_threads >= 1,
            plan.entity_threads >= 1,
    {
        let left: usize = cpus.saturating_sub(2);
        let generation_threads: usize = if left < 1 {
            1
        } else {
            left
        };
        let half: usize = generation_threads / 2;
        let entity_threads: usize = if half < 1 {
            1
        } else {
            half
        };
        ThreadPlan { io_threads: 4, generation_threads, entity_threads }
    }

    /// The plan for this machine. It is the plan for some number of processors.
    pub fn for_this_machine() -> (plan: ThreadPlan)
        ensures
            exists|cpus: usize| plan == #[trigger] ThreadPlan::spec_for_cpus(cpus),
    {
        ThreadPlan::for_cpus(processor_count())
    }
}

/// Calls [`num_cpus::get`], which says how many processors this machine has
/// for the program. Nothing is stated of the number: it is the machine's.
#[verifier::external_body]
fn processor_count() -> (cpus: usize) {
    num_cpus::get()
}

/// The digit for a number below ten.
pub open spec fn digit(n: int) -> char {
    (48 + n) as char
}

/// A number in decimal digits.
pub open spec fn decimal(n: nat) -> Seq<char>
    decreases n,
{
    if n < 10 {
        seq![digit(n as int)]
    } else {
        decimal(n / 10).push(digit((n % 10) as int))
    }
}

/// The text of a number below ten.
fn digit_text(n: usize) -> (text: &'static str)
    requires
        n < 10,
    ensures
        text@ == seq![digit(n as int)],
{
    proof {
        reveal_strlit("0");
        reveal_strlit("1");
        reveal_strlit("2");
        reveal_strlit("3");
        reveal_strlit("4");
        reveal_strlit("5");
        reveal_strlit("6");
        reveal_strlit("7");
        reveal_strlit("8");
        reveal_strlit("9");
    }
    let text = match n {
        0 => "0",
        1 => "1",
        2 => "2",
        3 => "3",
        4 => "4",
        5 => "5",
        6 => "6",
        7 => "7",
        8 => "8",
        _ => "9",
    };
    assert(text@ =~= seq![digit(n as int)]);
    text
}

/// Appends a number in decimal digits.
fn push_decimal(text: &mut String, n: usize)
    ensures
        final(text)@ == old(text)@ + decimal(n as nat),
    decreases n,
{
    if n >= 10 {
        push_decimal(text, n / 10);
    }
    text.append(digit_text(n % 10));
    assert(text@ =~= old(text)@ + decimal(n as nat));
}

/// The name of the thread with the given number that generates entity chunks.
pub fn entity_thread_name(thread_id: usize) -> (name: String)
    ensures
        name@ == "Entity Chunk Generation Thread "@ + decimal(thread_id as nat),
{
    let mut name = "Entity Chunk Generation Thread ".to_owned();
    push_decimal(&mut name, thread_id);
    name
}

/// Two processors are left to others, unless that would leave no thread; and
/// there are half as many threads for entity chunks, rounded down, unless that
/// would leave none.
pub proof fn law_threads_follow_the_processors(cpus: usize)
    ensures
        ThreadPlan::spec_for_cpus(cpus).io_threads == 4,
        ThreadPlan::spec_for_cpus(cpus).generation_threads >= 1,
        ThreadPlan::spec_for_cpus(cpus).generation_threads + 2 >= cpus,
        ThreadPlan::spec_for_cpus(cpus).generation_threads > 1
            ==> ThreadPlan::spec_for_cpus(cpus).generation_threads + 2 == cpus,
        ThreadPlan::spec_for_cpus(cpus).entity_threads >= 1,
        2 * ThreadPlan::spec_for_cpus(cpus).entity_threads + 1
            >= ThreadPlan::spec_for_cpus(cpus).generation_threads,
        ThreadPlan::spec_for_cpus(cpus).entity_threads > 1 ==> 2 * ThreadPlan::spec_for_cpus(
            cpus,
        ).entity_threads <= ThreadPlan::spec_for_cpus(cpus).generation_threads,
{
}

/// A number is read back from its digits: all are decimal digits, no zero leads
/// but that of zero itself, and the digits, each worth ten of the next, give the
/// number.
pub proof fn law_number_is_read_back_from_its_digits(n: nat)
    ensures
        decimal(n).len() > 0,
        forall|i: int| 0 <= i < decimal(n).len() ==> '0' <= #[trigger] decimal(n)[i] <= '9',
        n > 0 ==> decimal(n)[0] != '0',
        decimal(n).fold_left(0int, |read: int, c: char| 10 * read + (c as int - 48)) == n,
        n == 0 ==> decimal(n).len() == 1,
    decreases n,
{
    let read = |read: int, c: char| 10 * read + (c as int - 48);
    if n < 10 {
        assert(decimal(n).drop_last() =~= Seq::<char>::empty());
        assert(decimal(n).fold_left(0int, read) == read(
            Seq::<char>::empty().fold_left(0int, read),
            digit(n as int),
        ));
    } else {
        law_number_is_read_back_from_its_digits(n / 10);
        assert(decimal(n).drop_last() =~= decimal(n / 10));
    }
}

} // verus!
