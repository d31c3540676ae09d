//! The gallows frames: parsing the frame asset's lines into frames,
//! selecting the frame for a remaining-attempts count, and composing the
//! full displayable status block.

use vstd::prelude::*;
use crate::session::STEPS;
use crate::text::{push_char, dec_rep, format_usize};

verus! {

/// The inner width of the word line of the status block; it equals the
/// largest allowed word length.
pub const INNER_WIDTH: usize = 25;

/// Why the status block could not be composed.
#[derive(Clone, Copy, PartialEq, Eq, Structural, Debug)]
pub enum FrameError {
    /// The frame asset decoded to no frames at all.
    NoFrames,
    /// The selected index lies outside the loaded frame sequence.
    MissingFrame,
}

/// A line of the frame asset that separates frames: its first character
/// is `'-'`. An empty line is not a boundary.
pub open spec fn is_boundary(l: Seq<char>) -> bool {
    l.len() > 0 && l[0] == '-'
}

/// The frames read from the asset's lines, with `cur` the frame being
/// collected and `acc` the frames finished so far: boundary lines close
/// the current frame, and an empty current frame is never emitted.
pub open spec fn parse_frames_rec(
    lines: Seq<Seq<char>>,
    cur: Seq<Seq<char>>,
    acc: Seq<Seq<Seq<char>>>,
) -> Seq<Seq<Seq<char>>>
    decreases lines.len(),
{
    if lines.len() == 0 {
        if cur.len() > 0 {
            acc.push(cur)
        } else {
            acc
        }
    } else if is_boundary(lines[0]) {
        parse_frames_rec(
            lines.drop_first(),
            Seq::empty(),
            if cur.len() > 0 {
                acc.push(cur)
            } else {
                acc
            },
        )
    } else {
        parse_frames_rec(lines.drop_first(), cur.push(lines[0]), acc)
    }
}

/// The frames read from the asset's lines.
pub open spec fn spec_parse_frames(lines: Seq<Seq<char>>) -> Seq<Seq<Seq<char>>> {
    parse_frames_rec(lines, Seq::empty(), Seq::empty())
}

/// Whether the line's first character is `'-'`.
fn starts_with_dash(line: &String) -> (r: bool)
    ensures
        r == is_boundary(line@),
{
    let s = line.as_str();
    !s.is_empty() && s.get_char(0) == '-'
}

/// Groups the asset's lines into frames: a line whose first character is
/// `'-'` closes the frame being collected; boundary lines are never part
/// of a frame, and no empty frame is produced.
pub fn parse_frames(lines: &Vec<String>) -> (frames: Vec<Vec<String>>)
    ensures
        frames.deep_view() == spec_parse_frames(lines.deep_view()),
{
    let ghost all = lines.deep_view();
    let mut frames: Vec<Vec<String>> = Vec::new();
    let mut current: Vec<String> = Vec::new();
    proof {
        assert(all.skip(0) =~= all);
        assert(frames.deep_view() =~= Seq::<Seq<Seq<char>>>::empty());
        assert(current.deep_view() =~= Seq::<Seq<char>>::empty());
    }
    let n = lines.len();
    let mut i: usize = 0;
    while i < n
        invariant
            n == all.len(),
            all == lines.deep_view(),
            i <= n,
            parse_frames_rec(all.skip(i as int), current.deep_view(), frames.deep_view())
                == spec_parse_frames(all),
        decreases n - i,
    {
        let ghost rest = all.skip(i as int);
        let ghost cur0 = current.deep_view();
        let ghost acc0 = frames.deep_view();
        proof {
            assert(rest.len() > 0);
            assert(rest[0] == all[i as int]);
            assert(rest.drop_first() =~= all.skip(i + 1));
        }
        let line = &lines[i];
        proof {
            assert(line@ == all[i as int]);
        }
        if starts_with_dash(line) {
            if current.len() > 0 {
                frames.push(current);
                current = Vec::new();
                proof {
                    assert(frames.deep_view() =~= acc0.push(cur0));
                }
            }
            proof {
                assert(current.deep_view() =~= Seq::<Seq<char>>::empty());
                assert(parse_frames_rec(rest, cur0, acc0) == parse_frames_rec(
                    all.skip(i + 1),
                    current.deep_view(),
                    frames.deep_view(),
                ));
            }
        } else {
            let cloned = line.clone();
            current.push(cloned);
            proof {
                assert(current.deep_view() =~= cur0.push(all[i as int]));
                assert(parse_frames_rec(rest, cur0, acc0) == parse_frames_rec(
                    all.skip(i + 1),
                    current.deep_view(),
                    frames.deep_view(),
                ));
            }
        }
        i += 1;
    }
    proof {
        assert(all.skip(n as int) =~= Seq::<Seq<char>>::empty());
    }
    if current.len() > 0 {
        let ghost cur0 = current.deep_view();
        let ghost acc0 = frames.deep_view();
        frames.push(current);
        proof {
            assert(frames.deep_view() =~= acc0.push(cur0));
        }
    }
    frames
}

/// The index of the frame shown for a remaining-attempts count: a full
/// budget shows the first frame, an exhausted one the last, and a count
/// above the budget falls back to the first.
pub open spec fn spec_frame_index(steps: int) -> int {
    if steps > STEPS as int {
        0
    } else {
        STEPS as int - steps
    }
}

/// Selects the frame index for a remaining-attempts count.
pub fn frame_index(steps: usize) -> (i: usize)
    ensures
        i as int == spec_frame_index(steps as int),
{
    if steps > STEPS as usize {
        0
    } else {
        STEPS as usize - steps
    }
}

/// A frame's lines joined with a newline between each pair.
pub open spec fn join_nl(lines: Seq<Seq<char>>) -> Seq<char>
    decreases lines.len(),
{
    if lines.len() == 0 {
        Seq::empty()
    } else if lines.len() == 1 {
        lines[0]
    } else {
        join_nl(lines.drop_last()) + seq!['\n'] + lines.last()
    }
}

/// Joins a frame's lines with newlines.
fn join_frame(frame: &Vec<String>) -> (r: String)
    ensures
        r@ == join_nl(frame.deep_view()),
{
    let ghost dv = frame.deep_view();
    let mut r = String::new();
    let n = frame.len();
    let mut i: usize = 0;
    while i < n
        invariant
            n == dv.len(),
            dv == frame.deep_view(),
            i <= n,
            r@ == join_nl(dv.take(i as int)),
        decreases n - i,
    {
        if i > 0 {
            push_char(&mut r, '\n');
        }
        let line = &frame[i];
        proof {
            assert(line@ == dv[i as int]);
            assert(dv.take(i + 1).drop_last() =~= dv.take(i as int));
            assert(dv.take(i + 1).last() == dv[i as int]);
        }
        r.append(line.as_str());
        proof {
            if i == 0 {
                assert(join_nl(dv.take(1)) == dv.take(1)[0]);
                assert(r@ =~= join_nl(dv.take(1)));
            } else {
                assert(join_nl(dv.take(i + 1)) == join_nl(dv.take(i as int)) + seq!['\n']
                    + dv[i as int]);
                assert(r@ =~= join_nl(dv.take(i + 1)));
            }
        }
        i += 1;
    }
    proof {
        assert(dv.take(n as int) =~= dv);
    }
    r
}

/// A run of spaces.
pub open spec fn spaces(n: nat) -> Seq<char> {
    Seq::new(n, |i: int| ' ')
}

/// The word line of the status block: the masked word centered in the
/// inner width, the left pad one space shorter when the slack is odd,
/// flanked by `"# "` and `" #"`.
pub open spec fn spec_word_line(w: Seq<char>) -> Seq<char> {
    "# "@ + spaces(((INNER_WIDTH - w.len()) / 2) as nat) + w + spaces(
        ((INNER_WIDTH - w.len()) / 2 + (INNER_WIDTH - w.len()) % 2) as nat,
    ) + " #"@
}

/// Appends `count` spaces to the string.
fn push_spaces(r: &mut String, count: usize)
    ensures
        final(r)@ == old(r)@ + spaces(count as nat),
{
    let mut j: usize = 0;
    while j < count
        invariant
            j <= count,
            r@ == old(r)@ + spaces(j as nat),
        decreases count - j,
    {
        push_char(r, ' ');
        proof {
            assert(spaces((j + 1) as nat) =~= spaces(j as nat).push(' '));
        }
        j += 1;
    }
}

/// Builds the centered word line for a masked word that fits the width.
pub fn word_line(word: &str) -> (r: String)
    requires
        word@.len() <= INNER_WIDTH as int,
    ensures
        r@ == spec_word_line(word@),
{
    let n = word.unicode_len();
    let left = (INNER_WIDTH - n) / 2;
    let right = (INNER_WIDTH - n) / 2 + (INNER_WIDTH - n) % 2;
    let mut r = String::from_str("# ");
    push_spaces(&mut r, left);
    r.append(word);
    push_spaces(&mut r, right);
    r.append(" #");
    proof {
        assert(r@ =~= spec_word_line(word@));
    }
    r
}

/// The footer of the status block, showing the remaining attempts.
pub open spec fn spec_footer(steps: nat) -> Seq<char> {
    "########## "@ + dec_rep(steps) + " steps ##########"@
}

/// Builds the footer line for a remaining-attempts count.
fn footer_line(steps: usize) -> (r: String)
    ensures
        r@ == spec_footer(steps as nat),
{
    let mut r = String::from_str("########## ");
    let digits = format_usize(steps);
    r.append(digits.as_str());
    r.append(" steps ##########");
    proof {
        assert(r@ =~= spec_footer(steps as nat));
    }
    r
}

/// The full status block: header, the selected frame's lines joined with
/// newlines, the centered word line, and the footer, each part on its own
/// line.
pub open spec fn spec_frame_block(steps: nat, word: Seq<char>, frames: Seq<Seq<Seq<char>>>) -> Seq<
    char,
> {
    "########## Hangman ##########"@ + seq!['\n'] + join_nl(frames[spec_frame_index(steps as int)])
        + seq!['\n'] + spec_word_line(word) + seq!['\n'] + spec_footer(steps)
}

/// Composes the full status block for a remaining-attempts count and a
/// masked word, from the loaded frames. Fails exactly when the asset gave
/// no frames at all, or when the selected index lies outside the loaded
/// sequence: the game cannot render without its assets.
pub fn generate_frame(steps: usize, word: &str, frames: &Vec<Vec<String>>) -> (r: Result<
    String,
    FrameError,
>)
    requires
        word@.len() <= INNER_WIDTH as int,
    ensures
        frames.deep_view().len() == 0 ==> r == Err::<String, FrameError>(FrameError::NoFrames),
        frames.deep_view().len() > 0 && spec_frame_index(steps as int)
            >= frames.deep_view().len() ==> r == Err::<String, FrameError>(
            FrameError::MissingFrame,
        ),
        spec_frame_index(steps as int) < frames.deep_view().len() ==> (r matches Ok(s) && s@
            == spec_frame_block(steps as nat, word@, frames.deep_view())),
    {
    let ghost dv = frames.deep_view();
    if frames.len() == 0 {
        return Err(FrameError::NoFrames);
    }
    let idx = frame_index(steps);
    if idx >= frames.len() {
        return Err(FrameError::MissingFrame);
    }
    let mut r = String::from_str("########## Hangman ##########");
    push_char(&mut r, '\n');
    let frame = &frames[idx];
    proof {
        assert(frame.deep_view() == dv[idx as int]);
    }
    let joined = join_frame(frame);
    r.append(joined.as_str());
    push_char(&mut r, '\n');
    let wl = word_line(word);
    r.append(wl.as_str());
    push_char(&mut r, '\n');
    let ft = footer_line(steps);
    r.append(ft.as_str());
    proof {
        assert(r@ =~= spec_frame_block(steps as nat, word@, dv));
    }
    Ok(r)
}

} // verus!
