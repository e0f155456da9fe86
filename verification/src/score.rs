//! The score of a simulation run, for comparing policies: lower is better.

use vstd::prelude::*;

verus! {

/// The sum of the numbers in `s`.
pub open spec fn total(s: Seq<usize>) -> nat
    decreases s.len(),
{
    if s.len() == 0 {
        0
    } else {
        total(s.drop_last()) + s.last() as nat
    }
}

/// A sum of some of the first numbers is no more than the sum of all.
proof fn lemma_total_grows(s: Seq<usize>, i: int)
    requires
        0 <= i <= s.len(),
    ensures
        total(s.take(i)) <= total(s),
    decreases s.len(),
{
    if i < s.len() {
        lemma_total_grows(s.drop_last(), i);
        assert(s.drop_last().take(i) =~= s.take(i));
    } else {
        assert(s.take(i) =~= s);
    }
}

/// The score of a run: the sum of its wait times and ten for each job left
/// open.
pub open spec fn score_of(wait_times: Seq<usize>, backlog: usize) -> nat {
    total(wait_times) + 10 * backlog as nat
}

/// The sum of the wait times, or `None` if it is more than an `i32` holds.
pub fn wait_score(wait_times: &Vec<usize>) -> (sum: Option<i32>)
    ensures
        total(wait_times@) <= i32::MAX ==> sum == Some(total(wait_times@) as i32),
        total(wait_times@) > i32::MAX ==> sum is None,
{
    let mut sum: i32 = 0;
    let mut i: usize = 0;
    proof {
        assert(wait_times@.take(0) =~= Seq::<usize>::empty());
    }
    while i < wait_times.len()
        invariant
            i <= wait_times.len(),
            0 <= sum,
            sum == total(wait_times@.take(i as int)),
        decreases wait_times.len() - i,
    {
        let wait = wait_times[i];
        proof {
            assert(wait_times@.take(i + 1).drop_last() =~= wait_times@.take(i as int));
            lemma_total_grows(wait_times@, i + 1);
        }
        if wait > (i32::MAX - sum) as usize {
            return None;
        }
        sum = sum + wait as i32;
        i += 1;
    }
    proof {
        assert(wait_times@.take(i as int) =~= wait_times@);
    }
    Some(sum)
}

/// Ten for each job left open, or `None` if that is more than an `i32` holds.
pub fn backlog_penalty(backlog: usize) -> (penalty: Option<i32>)
    ensures
        10 * backlog <= i32::MAX ==> penalty == Some((10 * backlog) as i32),
        10 * backlog > i32::MAX ==> penalty is None,
{
    if backlog > (i32::MAX / 10) as usize {
        None
    } else {
        Some(backlog as i32 * 10)
    }
}

/// The score of a run, or `None` if it is more than an `i32` holds.
pub fn score(wait_times: &Vec<usize>, backlog: usize) -> (score: Option<i32>)
    ensures
        score_of(wait_times@, backlog) <= i32::MAX ==> score == Some(
            score_of(wait_times@, backlog) as i32,
        ),
        score_of(wait_times@, backlog) > i32::MAX ==> score is None,
{
    match (wait_score(wait_times), backlog_penalty(backlog)) {
        (Some(waits), Some(penalty)) => waits.checked_add(penalty),
        _ => None,
    }
}

} // verus!
