//! The secret word as a sequence of per-letter reveal flags, and the
//! mathematical model of initialization, guess evaluation, masked rendering
//! and win detection.

use vstd::prelude::*;
use crate::text::{spec_lower, is_ascii_letter};

verus! {

/// One position of the secret word: the original character (kept as typed,
/// case included) and whether the guesser has revealed it.
#[derive(Clone, Copy)]
pub struct Letter {
    pub letter: char,
    pub status: bool,
}

/// The letter a character turns into on initialization: spaces are
/// pre-revealed (they are not guessable), everything else starts hidden.
pub open spec fn init_letter(c: char) -> Letter {
    Letter { letter: c, status: c == ' ' }
}

/// The letter sequence a word turns into on initialization.
pub open spec fn spec_init_word(w: Seq<char>) -> Seq<Letter> {
    Seq::new(w.len(), |i: int| init_letter(w[i]))
}

/// The character a position shows when the word is masked: the letter if
/// revealed, `'_'` otherwise.
pub open spec fn masked_char(l: Letter) -> char {
    if l.status {
        l.letter
    } else {
        '_'
    }
}

/// The rendered form of the word: the full original when `reveal_all`, the
/// masked form otherwise, order and length preserved.
pub open spec fn spec_render(w: Seq<Letter>, reveal_all: bool) -> Seq<char> {
    Seq::new(w.len(), |i: int| if reveal_all {
        w[i].letter
    } else {
        masked_char(w[i])
    })
}

/// Whether a guessed character hits a position, compared case-insensitively.
pub open spec fn letter_matches(l: Letter, c: char) -> bool {
    spec_lower(l.letter) == spec_lower(c)
}

/// A position once it has been revealed.
pub open spec fn revealed_letter(l: Letter) -> Letter {
    Letter { letter: l.letter, status: true }
}

/// Whether the guess hits at least one position of the word.
pub open spec fn has_match(w: Seq<Letter>, c: char) -> bool {
    exists|i: int| 0 <= i < w.len() && letter_matches(w[i], c)
}

/// The word after a guess: every position whose letter matches the guess
/// case-insensitively becomes revealed, every other position is unchanged.
pub open spec fn word_after_guess(w: Seq<Letter>, c: char) -> Seq<Letter> {
    Seq::new(w.len(), |i: int| if letter_matches(w[i], c) {
        revealed_letter(w[i])
    } else {
        w[i]
    })
}

/// How many positions of the word the guess matches. The guess history
/// grows by one entry per matching position.
pub open spec fn match_count(w: Seq<Letter>, c: char) -> nat
    decreases w.len(),
{
    if w.len() == 0 {
        0
    } else {
        match_count(w.drop_last(), c) + (if letter_matches(w.last(), c) {
            1nat
        } else {
            0nat
        })
    }
}

/// Whether every position of the word is revealed: the win condition.
pub open spec fn all_revealed(w: Seq<Letter>) -> bool {
    forall|i: int| 0 <= i < w.len() ==> w[i].status
}

/// A guess matches no position exactly when it matches zero positions.
pub proof fn lemma_match_count_zero(w: Seq<Letter>, c: char)
    ensures
        (match_count(w, c) == 0) <==> !has_match(w, c),
    decreases w.len(),
{
    if w.len() > 0 {
        lemma_match_count_zero(w.drop_last(), c);
        if has_match(w, c) {
            let i = choose|i: int| 0 <= i < w.len() && #[trigger] letter_matches(w[i], c);
            if i < w.len() - 1 {
                assert(w.drop_last()[i] == w[i]);
                assert(has_match(w.drop_last(), c));
            }
        }
        if has_match(w.drop_last(), c) {
            let i = choose|i: int|
                0 <= i < w.drop_last().len() && #[trigger] letter_matches(w.drop_last()[i], c);
            assert(letter_matches(w[i], c));
        }
        if letter_matches(w.last(), c) {
            assert(letter_matches(w[w.len() - 1], c));
        }
    }
}

/// Extending a prefix by one position adds its match, if any, to
/// `has_match`.
pub proof fn lemma_has_match_take_step(w: Seq<Letter>, c: char, i: int)
    requires
        0 <= i < w.len(),
    ensures
        has_match(w.take(i + 1), c) <==> (has_match(w.take(i), c) || letter_matches(w[i], c)),
{
    if has_match(w.take(i + 1), c) {
        let j = choose|j: int|
            0 <= j < w.take(i + 1).len() && #[trigger] letter_matches(w.take(i + 1)[j], c);
        if j < i {
            assert(w.take(i)[j] == w[j]);
            assert(has_match(w.take(i), c));
        } else {
            assert(w.take(i + 1)[j] == w[i]);
        }
    }
    if has_match(w.take(i), c) {
        let j = choose|j: int|
            0 <= j < w.take(i).len() && #[trigger] letter_matches(w.take(i)[j], c);
        assert(letter_matches(w.take(i + 1)[j], c));
        assert(has_match(w.take(i + 1), c));
    }
    if letter_matches(w[i], c) {
        assert(letter_matches(w.take(i + 1)[i], c));
        assert(has_match(w.take(i + 1), c));
    }
}

/// Extending a prefix by one position adds its match, if any, to
/// `match_count`.
pub proof fn lemma_match_count_take_step(w: Seq<Letter>, c: char, i: int)
    requires
        0 <= i < w.len(),
    ensures
        match_count(w.take(i + 1), c) == match_count(w.take(i), c) + (if letter_matches(
            w[i],
            c,
        ) {
            1nat
        } else {
            0nat
        }),
{
    assert(w.take(i + 1).drop_last() =~= w.take(i));
    assert(w.take(i + 1).last() == w[i]);
}

/// Law: for a word of alphabetic characters, rendering with `reveal_all`
/// right after initialization gives back the word exactly, case preserved.
pub proof fn lemma_render_full_after_init(w: Seq<char>)
    requires
        forall|i: int| 0 <= i < w.len() ==> is_ascii_letter(w[i]),
    ensures
        spec_render(spec_init_word(w), true) == w,
{
    assert(spec_render(spec_init_word(w), true) =~= w);
}

/// Law: a guess of a character present nowhere in the word (compared
/// case-insensitively) misses, and leaves every reveal flag as it was.
pub proof fn lemma_miss_changes_nothing(w: Seq<Letter>, c: char)
    requires
        forall|i: int| 0 <= i < w.len() ==> !letter_matches(w[i], c),
    ensures
        !has_match(w, c),
        word_after_guess(w, c) == w,
{
    assert(word_after_guess(w, c) =~= w);
}

/// Law: a guess of a character the word contains (in any case) hits; every
/// position whose lower-cased letter equals the lower-cased guess becomes
/// revealed, and every other position is untouched.
pub proof fn lemma_hit_reveals_matches(w: Seq<Letter>, c: char)
    requires
        has_match(w, c),
    ensures
        word_after_guess(w, c).len() == w.len(),
        forall|i: int|
            0 <= i < w.len() && letter_matches(w[i], c) ==> word_after_guess(w, c)[i]
                == revealed_letter(w[i]),
        forall|i: int|
            0 <= i < w.len() && !letter_matches(w[i], c) ==> word_after_guess(w, c)[i] == w[i],
{
}

/// Law: the word is won exactly when its masked rendering contains no `'_'`
/// character (stated for words that do not themselves use `'_'` as a
/// letter; the game only ever builds words without it).
pub proof fn lemma_won_iff_no_underscore(w: Seq<Letter>)
    requires
        forall|i: int| 0 <= i < w.len() ==> w[i].letter != '_',
    ensures
        all_revealed(w) <==> !spec_render(w, false).contains('_'),
{
    if all_revealed(w) {
        if spec_render(w, false).contains('_') {
            let i = choose|i: int|
                0 <= i < spec_render(w, false).len() && spec_render(w, false)[i] == '_';
            assert(w[i].status);
        }
    }
    if !spec_render(w, false).contains('_') {
        assert forall|i: int| 0 <= i < w.len() implies w[i].status by {
            if !w[i].status {
                assert(spec_render(w, false)[i] == '_');
            }
        }
    }
}

} // verus!
