//! The game session: the manager that owns the secret word, the guess
//! history and the remaining-attempts budget, the evaluation of one guess,
//! word validation, and the small decisions taken on the player's answers.

use vstd::prelude::*;
use rand::seq::SliceRandom;
use crate::text::{spec_lower, is_ascii_letter, to_lower, is_letter, contains_char, push_char};
use crate::word::{
    Letter, init_letter, spec_init_word, spec_render, letter_matches, revealed_letter, has_match,
    word_after_guess, match_count, all_revealed, lemma_match_count_zero, lemma_has_match_take_step,
    lemma_match_count_take_step,
};

verus! {

/// The smallest word a player may enter.
pub const MIN_WORD_LENGTH: i32 = 3;

/// The largest word a player may enter.
pub const MAX_WORD_LENGTH: i32 = 25;

/// The wrong-guess budget a fresh round starts with.
pub const STEPS: i32 = 7;

/// The mathematical state of a session: the word with its reveal flags,
/// the lower-cased guess history, and the attempts left.
#[verifier::ext_equal]
pub ghost struct GameView {
    pub word: Seq<Letter>,
    pub guessed: Seq<char>,
    pub steps: int,
}

/// One full game session.
pub struct GameManager {
    pub word: Vec<Letter>,
    pub already_guessed: Vec<char>,
    pub steps_left: i32,
}

impl View for GameManager {
    type V = GameView;

    open spec fn view(&self) -> GameView {
        GameView {
            word: self.word@,
            guessed: self.already_guessed@,
            steps: self.steps_left as int,
        }
    }
}

/// What the session answers to one guessed character.
#[derive(Clone, Copy, PartialEq, Eq, Structural, Debug)]
pub enum TurnResult {
    /// Not a single ASCII alphabetic character: rejected, nothing changes.
    Invalid,
    /// The letter is already in the history: rejected, nothing changes.
    AlreadyGuessed,
    /// The guess was evaluated and the game goes on.
    Continue,
    /// Every position is revealed.
    Won,
    /// The attempts budget is used up.
    Lost,
}

/// Why a manually entered word was rejected.
#[derive(Clone, Copy, PartialEq, Eq, Structural, Debug)]
pub enum WordError {
    /// Not between `MIN_WORD_LENGTH` and `MAX_WORD_LENGTH` characters.
    BadLength,
    /// A character that is not a single ASCII alphabetic one.
    BadCharacter,
}

/// The player's answer to "use the default dictionary?".
#[derive(Clone, Copy, PartialEq, Eq, Structural, Debug)]
pub enum Choice {
    /// "y", "Y" or an empty answer: draw a word from the dictionary.
    UseDictionary,
    /// "n" or "N": the player enters a word.
    EnterWord,
    /// Anything else: ask again.
    Unrecognized,
}

/// The state after one guess: an invalid or repeated guess changes
/// nothing; a hit reveals every matching position and records the letter
/// once per match; a miss records the letter once and costs one attempt.
pub open spec fn spec_turn_state(g: GameView, c: char) -> GameView {
    if !is_ascii_letter(c) {
        g
    } else if g.guessed.contains(spec_lower(c)) {
        g
    } else if has_match(g.word, c) {
        GameView {
            word: word_after_guess(g.word, c),
            guessed: g.guessed + Seq::new(
                match_count(g.word, c),
                |k: int| spec_lower(c),
            ),
            steps: g.steps,
        }
    } else {
        GameView { word: g.word, guessed: g.guessed.push(spec_lower(c)), steps: g.steps - 1 }
    }
}

/// The answer to one guess, win checked before lose.
pub open spec fn spec_turn_result(g: GameView, c: char) -> TurnResult {
    if !is_ascii_letter(c) {
        TurnResult::Invalid
    } else if g.guessed.contains(spec_lower(c)) {
        TurnResult::AlreadyGuessed
    } else {
        let g2 = spec_turn_state(g, c);
        if all_revealed(g2.word) {
            TurnResult::Won
        } else if g2.steps == 0 {
            TurnResult::Lost
        } else {
            TurnResult::Continue
        }
    }
}

/// Whether a word may be chosen: between the length bounds and made of
/// ASCII alphabetic characters only.
pub open spec fn valid_word_chars(w: Seq<char>) -> bool {
    forall|i: int| 0 <= i < w.len() ==> is_ascii_letter(w[i])
}

/// The validation verdict on a manually entered word; the length bound is
/// checked first, as the prompts report it first.
pub open spec fn spec_validate_word(w: Seq<char>) -> Result<(), WordError> {
    if w.len() < MIN_WORD_LENGTH as int || w.len() > MAX_WORD_LENGTH as int {
        Err(WordError::BadLength)
    } else if !valid_word_chars(w) {
        Err(WordError::BadCharacter)
    } else {
        Ok(())
    }
}

/// How a trimmed answer to "use the default dictionary?" is read.
pub open spec fn spec_parse_choice(s: Seq<char>) -> Choice {
    if s.len() == 0 || (s.len() == 1 && spec_lower(s[0]) == 'y') {
        Choice::UseDictionary
    } else if s.len() == 1 && spec_lower(s[0]) == 'n' {
        Choice::EnterWord
    } else {
        Choice::Unrecognized
    }
}

/// Whether a trimmed answer to "play again?" keeps the session going:
/// only "y" or "Y" does; anything else, the empty answer included, ends it.
pub open spec fn spec_wants_replay(s: Seq<char>) -> bool {
    s.len() == 1 && spec_lower(s[0]) == 'y'
}

impl GameManager {
    /// A session's state is well formed when the attempts budget lies
    /// between zero and the starting budget.
    pub open spec fn wf(&self) -> bool {
        0 <= self@.steps <= STEPS as int
    }

    /// A fresh session: no word, no guesses, a full budget.
    pub fn new() -> (g: GameManager)
        ensures
            g@.word == Seq::<Letter>::empty(),
            g@.guessed == Seq::<char>::empty(),
            g@.steps == STEPS as int,
            g.wf(),
    {
        GameManager { word: Vec::new(), already_guessed: Vec::new(), steps_left: STEPS }
    }

    /// Resets the session for the next round: the word and the guess
    /// history are cleared and the budget is restored.
    pub fn flush(&mut self)
        ensures
            final(self)@.word == Seq::<Letter>::empty(),
            final(self)@.guessed == Seq::<char>::empty(),
            final(self)@.steps == STEPS as int,
            final(self).wf(),
    {
        self.steps_left = STEPS;
        self.word.clear();
        self.already_guessed.clear();
    }

    /// Replaces the letter sequence with one letter per character of the
    /// chosen word, spaces pre-revealed; history and budget are untouched.
    pub fn init_word(&mut self, word: &str)
        ensures
            final(self)@.word == spec_init_word(word@),
            final(self)@.guessed == old(self)@.guessed,
            final(self)@.steps == old(self)@.steps,
    {
        self.word.clear();
        let n = word.unicode_len();
        let mut i: usize = 0;
        while i < n
            invariant
                n == word@.len(),
                i <= n,
                self.word@ == spec_init_word(word@).take(i as int),
                self.already_guessed@ == old(self)@.guessed,
                self.steps_left == old(self).steps_left,
            decreases n - i,
        {
            let c = word.get_char(i);
            self.word.push(Letter { letter: c, status: c == ' ' });
            proof {
                assert(spec_init_word(word@)[i as int] == init_letter(word@[i as int]));
                assert(spec_init_word(word@).take(i + 1) =~= spec_init_word(word@).take(
                    i as int,
                ).push(init_letter(word@[i as int])));
            }
            i += 1;
        }
        proof {
            assert(spec_init_word(word@).take(n as int) =~= spec_init_word(word@));
        }
    }

    /// The displayable form of the word: the full original when `end` is
    /// set, otherwise the masked form with `'_'` for unrevealed positions.
    pub fn print_word(&self, end: bool) -> (r: String)
        ensures
            r@ == spec_render(self@.word, end),
    {
        let mut r = String::new();
        let n = self.word.len();
        let mut i: usize = 0;
        while i < n
            invariant
                n == self@.word.len(),
                i <= n,
                r@ == spec_render(self@.word, end).take(i as int),
            decreases n - i,
        {
            let l = self.word[i];
            let c = if end {
                l.letter
            } else if l.status {
                l.letter
            } else {
                '_'
            };
            push_char(&mut r, c);
            proof {
                assert(spec_render(self@.word, end)[i as int] == c);
                assert(spec_render(self@.word, end).take(i + 1) =~= spec_render(
                    self@.word,
                    end,
                ).take(i as int).push(c));
            }
            i += 1;
        }
        proof {
            assert(spec_render(self@.word, end).take(n as int) =~= spec_render(self@.word, end));
        }
        r
    }

    /// Evaluates one guessed character against the word: every matching
    /// position becomes revealed and the lower-cased guess is recorded
    /// once per match; returns whether anything matched. The budget is not
    /// touched here.
    pub fn check_letter(&mut self, letter: char) -> (found: bool)
        ensures
            final(self)@.word == word_after_guess(old(self)@.word, letter),
            final(self)@.guessed == old(self)@.guessed + Seq::new(
                match_count(old(self)@.word, letter),
                |k: int| spec_lower(letter),
            ),
            final(self)@.steps == old(self)@.steps,
            found == has_match(old(self)@.word, letter),
    {
        let ghost w0 = old(self)@.word;
        let mut found = false;
        let lower = to_lower(letter);
        let n = self.word.len();
        let mut i: usize = 0;
        while i < n
            invariant
                n == w0.len(),
                i <= n,
                self.word@.len() == n,
                lower == spec_lower(letter),
                forall|j: int| 0 <= j < i ==> self.word@[j] == word_after_guess(w0, letter)[j],
                forall|j: int| i <= j < n ==> self.word@[j] == w0[j],
                found == has_match(w0.take(i as int), letter),
                self.already_guessed@ == old(self)@.guessed + Seq::new(
                    match_count(w0.take(i as int), letter),
                    |k: int| spec_lower(letter),
                ),
                self.steps_left == old(self).steps_left,
            decreases n - i,
        {
            let l = self.word[i];
            proof {
                lemma_has_match_take_step(w0, letter, i as int);
                lemma_match_count_take_step(w0, letter, i as int);
            }
            if to_lower(l.letter) == lower {
                self.word[i] = Letter { letter: l.letter, status: true };
                found = true;
                self.already_guessed.push(lower);
                proof {
                    assert(letter_matches(w0[i as int], letter));
                    assert(self.word@[i as int] == revealed_letter(w0[i as int]));
                    assert(self.already_guessed@ =~= old(self)@.guessed + Seq::new(
                        match_count(w0.take(i + 1), letter),
                        |k: int| spec_lower(letter),
                    ));
                }
            } else {
                proof {
                    assert(!letter_matches(w0[i as int], letter));
                    assert(self.word@[i as int] == word_after_guess(w0, letter)[i as int]);
                }
            }
            i += 1;
        }
        proof {
            assert(w0.take(n as int) =~= w0);
            assert(self.word@ =~= word_after_guess(w0, letter));
        }
        found
    }

    /// Whether every position of the word is revealed.
    pub fn check_win(&self) -> (r: bool)
        ensures
            r == all_revealed(self@.word),
    {
        let n = self.word.len();
        let mut i: usize = 0;
        while i < n
            invariant
                n == self@.word.len(),
                i <= n,
                forall|j: int| 0 <= j < i ==> self@.word[j].status,
            decreases n - i,
        {
            if !self.word[i].status {
                return false;
            }
            i += 1;
        }
        true
    }

    /// Whether the attempts budget is used up.
    pub fn check_lose(&self) -> (r: bool)
        ensures
            r == (self@.steps == 0),
    {
        self.steps_left == 0
    }

    /// Plays one guess: rejects anything but a fresh single ASCII letter,
    /// otherwise evaluates it, charges the budget on a miss, and reports
    /// a win (checked first) or a loss when one is reached.
    pub fn play_turn(&mut self, letter: char) -> (r: TurnResult)
        requires
            old(self).wf(),
            old(self)@.steps >= 1,
        ensures
            final(self)@ == spec_turn_state(old(self)@, letter),
            r == spec_turn_result(old(self)@, letter),
            final(self).wf(),
    {
        if !is_letter(letter) {
            return TurnResult::Invalid;
        }
        let lower = to_lower(letter);
        if contains_char(&self.already_guessed, lower) {
            return TurnResult::AlreadyGuessed;
        }
        let found = self.check_letter(letter);
        if !found {
            self.already_guessed.push(lower);
            self.steps_left = self.steps_left - 1;
            proof {
                lemma_match_count_zero(old(self)@.word, letter);
                assert(self@.guessed =~= old(self)@.guessed.push(spec_lower(letter)));
                assert(self@.word =~= old(self)@.word) by {
                    crate::word::lemma_miss_changes_nothing(old(self)@.word, letter);
                }
                assert(self@ =~= spec_turn_state(old(self)@, letter));
            }
        } else {
            proof {
                assert(self@ =~= spec_turn_state(old(self)@, letter));
            }
        }
        if self.check_win() {
            return TurnResult::Won;
        }
        if self.check_lose() {
            return TurnResult::Lost;
        }
        TurnResult::Continue
    }
}

/// Law: a missed letter never costs more than one attempt. After the miss
/// it stands in the history, so guessing it again is answered
/// `AlreadyGuessed` and changes nothing; the budget went down exactly once.
pub proof fn lemma_repeat_guess_is_free(g: GameView, c: char)
    requires
        is_ascii_letter(c),
        !g.guessed.contains(spec_lower(c)),
        !has_match(g.word, c),
    ensures
        spec_turn_state(g, c).steps == g.steps - 1,
        spec_turn_result(spec_turn_state(g, c), c) == TurnResult::AlreadyGuessed,
        spec_turn_state(spec_turn_state(g, c), c) == spec_turn_state(g, c),
{
    let g1 = spec_turn_state(g, c);
    assert(g1.guessed == g.guessed.push(spec_lower(c)));
    assert(g1.guessed[g.guessed.len() as int] == spec_lower(c));
    assert(g1.guessed.contains(spec_lower(c)));
}

/// Validates a manually entered word: between `MIN_WORD_LENGTH` and
/// `MAX_WORD_LENGTH` characters, all of them ASCII alphabetic; the length
/// bound is reported first.
pub fn validate_word(word: &str) -> (r: Result<(), WordError>)
    ensures
        r == spec_validate_word(word@),
{
    let n = word.unicode_len();
    if n < MIN_WORD_LENGTH as usize || n > MAX_WORD_LENGTH as usize {
        return Err(WordError::BadLength);
    }
    let mut i: usize = 0;
    while i < n
        invariant
            n == word@.len(),
            i <= n,
            MIN_WORD_LENGTH as int <= n <= MAX_WORD_LENGTH as int,
            forall|j: int| 0 <= j < i ==> is_ascii_letter(word@[j]),
        decreases n - i,
    {
        if !is_letter(word.get_char(i)) {
            return Err(WordError::BadCharacter);
        }
        i += 1;
    }
    Ok(())
}

/// The guess a trimmed answer to "enter a letter" carries: exactly one
/// character, or nothing. Whether that character is an acceptable letter
/// is judged by the turn itself.
pub open spec fn spec_parse_guess(s: Seq<char>) -> Option<char> {
    if s.len() == 1 {
        Some(s[0])
    } else {
        None
    }
}

/// Reads the trimmed answer to "enter a letter": anything but a single
/// character is rejected.
pub fn parse_guess(answer: &str) -> (r: Option<char>)
    ensures
        r == spec_parse_guess(answer@),
{
    if answer.unicode_len() == 1 {
        Some(answer.get_char(0))
    } else {
        None
    }
}

/// Reads the trimmed answer to "use the default dictionary?".
pub fn parse_choice(answer: &str) -> (r: Choice)
    ensures
        r == spec_parse_choice(answer@),
{
    let n = answer.unicode_len();
    if n == 0 {
        Choice::UseDictionary
    } else if n == 1 {
        let c = to_lower(answer.get_char(0));
        if c == 'y' {
            Choice::UseDictionary
        } else if c == 'n' {
            Choice::EnterWord
        } else {
            Choice::Unrecognized
        }
    } else {
        Choice::Unrecognized
    }
}

/// Reads the trimmed answer to "play again?": only "y" or "Y" continues.
pub fn wants_replay(answer: &str) -> (r: bool)
    ensures
        r == spec_wants_replay(answer@),
{
    answer.unicode_len() == 1 && to_lower(answer.get_char(0)) == 'y'
}

/// Relies on rand's `SliceRandom::choose` (with `rand::thread_rng` as the
/// generator): `None` exactly on an empty slice, otherwise a reference to
/// one of its elements, picked at random; the result is cloned.
#[verifier::external_body]
fn choose_random(words: &Vec<String>) -> (r: Option<String>)
    ensures
        (r is Some) <==> words@.len() > 0,
        r matches Some(w) ==> exists|i: int| 0 <= i < words@.len() && w@ == words@[i]@,
{
    words.choose(&mut rand::thread_rng()).cloned()
}

/// Draws a random word from a dictionary: `None` exactly when the
/// dictionary is empty, otherwise one of its entries. Which entry comes
/// back is left to chance.
pub fn pick_random_word(words: &Vec<String>) -> (r: Option<String>)
    ensures
        (r is Some) <==> words@.len() > 0,
        r matches Some(w) ==> exists|i: int| 0 <= i < words@.len() && w@ == words@[i]@,
{
    choose_random(words)
}

} // verus!
