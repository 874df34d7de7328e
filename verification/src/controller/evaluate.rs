use vstd::prelude::*;

use crate::model::cell::CellState;

verus! {

/// Number of positions `k < n` at which `a` holds the letter `c` while `b`
/// holds a different letter there.
///
/// With `a` the guess and `b` the secret this counts the earlier
/// occurrences of `c` in the guess that were not exact matches; with the
/// roles swapped it counts the occurrences of `c` in the secret still
/// available for a `Present` match after all exact matches are consumed.
pub open spec fn misplaced_count(a: Seq<char>, b: Seq<char>, c: char, n: int) -> int
    decreases n,
{
    if n <= 0 {
        0
    } else {
        misplaced_count(a, b, c, n - 1) + if a[n - 1] == c && a[n - 1] != b[n - 1] {
            1int
        } else {
            0int
        }
    }
}

/// The feedback for position `i` of a guess, under the two-pass,
/// duplicate-aware rule: an exact match is `Correct`; otherwise the letter
/// is `Present` iff, among the secret's occurrences of that letter not
/// consumed by exact matches, one is still left after the earlier
/// non-exact occurrences of the same letter in the guess have each
/// consumed one; otherwise it is `Absent`.
pub open spec fn cell_state_at(guess: Seq<char>, secret: Seq<char>, i: int) -> CellState {
    if guess[i] == secret[i] {
        CellState::Correct
    } else if misplaced_count(guess, secret, guess[i], i) < misplaced_count(
        secret,
        guess,
        guess[i],
        secret.len() as int,
    ) {
        CellState::Present
    } else {
        CellState::Absent
    }
}

/// The feedback for a whole guess against a secret of the same length.
pub open spec fn eval_states(guess: Seq<char>, secret: Seq<char>) -> Seq<CellState> {
    Seq::new(guess.len(), |i: int| cell_state_at(guess, secret, i))
}

/// Guessing the secret itself yields `Correct` in every position.
pub proof fn lemma_eval_secret_itself(secret: Seq<char>)
    ensures
        eval_states(secret, secret).len() == secret.len(),
        forall|i: int|
            0 <= i < secret.len() ==> eval_states(secret, secret)[i] == CellState::Correct,
{
}

/// The number of positions `k < n` at which `a` holds `c` while `b` holds
/// a different letter, computed by a scan.
pub fn count_misplaced(a: &[char], b: &[char], c: char, n: usize) -> (r: usize)
    requires
        n <= a@.len(),
        n <= b@.len(),
    ensures
        r == misplaced_count(a@, b@, c, n as int),
{
    let mut r: usize = 0;
    let mut k: usize = 0;
    while k < n
        invariant
            k <= n <= a@.len(),
            n <= b@.len(),
            r <= k,
            r == misplaced_count(a@, b@, c, k as int),
        decreases n - k,
    {
        if a[k] == c && a[k] != b[k] {
            r = r + 1;
        }
        k = k + 1;
    }
    r
}

} // verus!
