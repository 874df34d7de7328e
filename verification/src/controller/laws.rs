use vstd::prelude::*;

use crate::controller::game_controller::{guessed_row, step_result, step_state, GuessResult};
use crate::model::game_state::GameStateV;
use crate::service::dictionary::{dict_has_text, WordV};
use crate::text::upper_seq;

verus! {

/// The game left behind by playing the given guesses in order, each
/// through [`step_state`](crate::controller::game_controller::step_state).
pub open spec fn run_guesses(gs: GameStateV, dict: Seq<WordV>, guesses: Seq<Seq<char>>) -> GameStateV
    decreases guesses.len(),
{
    if guesses.len() == 0 {
        gs
    } else {
        step_state(run_guesses(gs, dict, guesses.drop_last()), dict, guesses.last())
    }
}

/// A guess against a game that has already ended changes nothing and
/// always answers `GameAlreadyOver`, whatever the guess and the
/// dictionary.
pub proof fn lemma_game_over_changes_nothing(s: GameStateV, dict: Seq<WordV>, g: Seq<char>)
    requires
        !(s.status is Playing),
    ensures
        step_result(s, dict, g) == GuessResult::GameAlreadyOver,
        step_state(s, dict, g) == s,
{
}

/// A guess that is no dictionary word changes nothing and answers
/// `InvalidWord`: it costs no attempt.
pub proof fn lemma_invalid_word_changes_nothing(s: GameStateV, dict: Seq<WordV>, g: Seq<char>)
    requires
        s.status is Playing,
        !dict_has_text(dict, upper_seq(g)),
    ensures
        step_result(s, dict, g) == GuessResult::InvalidWord,
        step_state(s, dict, g) == s,
{
}

/// A recognized guess equal to the secret word always answers `Won` and
/// locks the current row where it stands — however many attempts remain —
/// and the finished game is well formed with every row locked.
pub proof fn lemma_winning_guess(s: GameStateV, dict: Seq<WordV>, g: Seq<char>)
    requires
        s.wf(),
        s.status is Playing,
        g.len() == s.word_length,
        dict_has_text(dict, upper_seq(g)),
        upper_seq(g) == s.secret_word.text,
    ensures
        step_result(s, dict, g) == GuessResult::Won,
        step_state(s, dict, g).status is Won,
        step_state(s, dict, g).grid.current_row == s.grid.current_row,
        step_state(s, dict, g).grid.rows[s.grid.current_row].is_disabled,
        step_state(s, dict, g).grid.all_disabled(),
        step_state(s, dict, g).wf(),
{
    let t = step_state(s, dict, g);
    assert forall|i: int| 0 <= i < t.grid.rows.len() implies (#[trigger] t.grid.rows[i]).is_disabled by {
        assert(s.grid.only_enabled(s.grid.current_row));
        assert(s.grid.rows[i].is_disabled <==> i != s.grid.current_row);
    }
    assert(t.wf());
}

/// One recognized, non-winning, full-length guess against a well-formed
/// game in progress: it consumes the current attempt. While a further row
/// is left the outcome is `Continue` and the cursor moves down one row;
/// on the last row the outcome is `Lost`, the cursor stays, the row is
/// locked and the game ends. The game stays well formed and keeps its
/// secret and its dimensions either way.
pub proof fn lemma_step_non_winning(s: GameStateV, dict: Seq<WordV>, g: Seq<char>)
    requires
        s.wf(),
        s.status is Playing,
        g.len() == s.word_length,
        dict_has_text(dict, upper_seq(g)),
        upper_seq(g) != s.secret_word.text,
    ensures
        step_state(s, dict, g).wf(),
        step_state(s, dict, g).secret_word == s.secret_word,
        step_state(s, dict, g).num_tries == s.num_tries,
        step_state(s, dict, g).word_length == s.word_length,
        step_result(s, dict, g) == if s.grid.can_advance() {
            GuessResult::Continue
        } else {
            GuessResult::Lost
        },
        s.grid.can_advance() ==> step_state(s, dict, g).status is Playing && step_state(
            s,
            dict,
            g,
        ).grid.current_row == s.grid.current_row + 1,
        !s.grid.can_advance() ==> step_state(s, dict, g).status is Lost && step_state(
            s,
            dict,
            g,
        ).grid.current_row == s.grid.current_row && step_state(s, dict, g).grid.rows[s.grid.current_row].is_disabled,
{
    let t = step_state(s, dict, g);
    let u = upper_seq(g);
    let row = guessed_row(u, s.secret_word.text);
    let cur = s.grid.current_row;
    let written = s.grid.with_row(cur, row);
    assert(row.wf());
    assert(written.wf());
    if s.grid.can_advance() {
        assert(t.grid == written.after_advance());
        assert(t.grid.wf());
        assert forall|i: int| 0 <= i < t.grid.rows.len() implies ((#[trigger] t.grid.rows[i]).is_disabled
            <==> i != cur + 1) by {
            assert(s.grid.only_enabled(cur));
            assert(s.grid.rows[i].is_disabled <==> i != cur);
        }
        assert(t.wf());
    } else {
        assert(t.grid == written.after_advance());
        assert forall|i: int| 0 <= i < t.grid.rows.len() implies (#[trigger] t.grid.rows[i]).is_disabled by {
            assert(s.grid.only_enabled(cur));
            assert(s.grid.rows[i].is_disabled <==> i != cur);
        }
        assert(t.wf());
    }
}

/// Exhausting the attempts: starting from a fresh, well-formed game and
/// playing `num_tries` recognized, full-length guesses none of which is
/// the secret, every guess but the last answers `Continue` — moving the
/// cursor down one row each time — and the last answers `Lost`, leaving
/// the cursor on the last row, that row locked, and the game ended.
pub proof fn lemma_exhausting_tries(gs: GameStateV, dict: Seq<WordV>, guesses: Seq<Seq<char>>)
    requires
        gs.wf(),
        gs.status is Playing,
        gs.grid.current_row == 0,
        guesses.len() == gs.num_tries,
        forall|k: int| 0 <= k < guesses.len() ==> (#[trigger] guesses[k]).len() == gs.word_length,
        forall|k: int|
            0 <= k < guesses.len() ==> dict_has_text(dict, upper_seq(#[trigger] guesses[k])),
        forall|k: int|
            0 <= k < guesses.len() ==> upper_seq(#[trigger] guesses[k]) != gs.secret_word.text,
    ensures
        forall|k: int|
            0 <= k < guesses.len() - 1 ==> step_result(
                run_guesses(gs, dict, guesses.take(k)),
                dict,
                #[trigger] guesses[k],
            ) == GuessResult::Continue,
        step_result(
            run_guesses(gs, dict, guesses.drop_last()),
            dict,
            guesses.last(),
        ) == GuessResult::Lost,
        run_guesses(gs, dict, guesses).status is Lost,
        run_guesses(gs, dict, guesses).grid.current_row == gs.num_tries - 1,
        run_guesses(gs, dict, guesses).grid.rows[gs.num_tries - 1].is_disabled,
        run_guesses(gs, dict, guesses).wf(),
{
    assert forall|k: int|
        0 <= k < guesses.len() - 1 implies step_result(
        run_guesses(gs, dict, guesses.take(k)),
        dict,
        #[trigger] guesses[k],
    ) == GuessResult::Continue by {
        let s = run_guesses(gs, dict, guesses.take(k));
        lemma_run_prefix(gs, dict, guesses, k);
        lemma_step_non_winning(s, dict, guesses[k]);
    }
    let last = guesses.len() - 1;
    let s = run_guesses(gs, dict, guesses.take(last));
    lemma_run_prefix(gs, dict, guesses, last);
    lemma_step_non_winning(s, dict, guesses[last]);
    assert(guesses.take(last) =~= guesses.drop_last());
    assert(guesses.take(guesses.len() as int) =~= guesses);
    lemma_run_prefix(gs, dict, guesses, guesses.len() as int);
}

/// After `k` of the guesses of [`lemma_exhausting_tries`], the game is
/// still well formed, keeps its secret and dimensions, and — while
/// guesses remain — is still in progress with the cursor on row `k`;
/// after the final guess it is lost with the last row locked.
proof fn lemma_run_prefix(gs: GameStateV, dict: Seq<WordV>, guesses: Seq<Seq<char>>, k: int)
    requires
        gs.wf(),
        gs.status is Playing,
        gs.grid.current_row == 0,
        guesses.len() == gs.num_tries,
        0 <= k <= guesses.len(),
        forall|j: int| 0 <= j < guesses.len() ==> (#[trigger] guesses[j]).len() == gs.word_length,
        forall|j: int|
            0 <= j < guesses.len() ==> dict_has_text(dict, upper_seq(#[trigger] guesses[j])),
        forall|j: int|
            0 <= j < guesses.len() ==> upper_seq(#[trigger] guesses[j]) != gs.secret_word.text,
    ensures
        run_guesses(gs, dict, guesses.take(k)).wf(),
        run_guesses(gs, dict, guesses.take(k)).secret_word == gs.secret_word,
        run_guesses(gs, dict, guesses.take(k)).num_tries == gs.num_tries,
        run_guesses(gs, dict, guesses.take(k)).word_length == gs.word_length,
        k < guesses.len() ==> run_guesses(gs, dict, guesses.take(k)).status is Playing
            && run_guesses(gs, dict, guesses.take(k)).grid.current_row == k,
        k == guesses.len() ==> run_guesses(gs, dict, guesses.take(k)).status is Lost
            && run_guesses(gs, dict, guesses.take(k)).grid.current_row == k - 1 && run_guesses(
            gs,
            dict,
            guesses.take(k),
        ).grid.rows[k - 1].is_disabled,
    decreases k,
{
    if k == 0 {
        assert(guesses.take(0) =~= Seq::<Seq<char>>::empty());
    } else {
        lemma_run_prefix(gs, dict, guesses, k - 1);
        let prev = run_guesses(gs, dict, guesses.take(k - 1));
        assert(guesses.take(k).drop_last() =~= guesses.take(k - 1));
        assert(guesses.take(k).last() == guesses[k - 1]);
        lemma_step_non_winning(prev, dict, guesses[k - 1]);
        assert(prev.grid.can_advance() <==> k - 1 < gs.num_tries - 1);
    }
}

} // verus!
