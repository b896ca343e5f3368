//! The compact, layout-safe preview of an entry's text shown in a popup row.
//!
//! The entry keeps its exact content; only this display copy is shortened:
//! leading blank lines are skipped, at most three lines and 180 characters
//! are shown, trailing white space is dropped, control characters become
//! spaces, a cut is marked with an ellipsis, and text with nothing visible
//! shows a marker instead.
use vstd::prelude::*;

use crate::text::{
    all_white_space, char_is_control, char_is_white_space, chars_of, is_control, is_white_space,
    lemma_line_end, lemma_line_end_shift, line_end_exec, push_char, text_lines, trim_end,
};

verus! {

/// Visible lines before the preview is cut off.
pub const PREVIEW_LINES: usize = 3;

/// Character budget for a preview, so a huge entry never becomes a huge
/// layout.
pub const PREVIEW_CHARS: usize = 180;

/// Keeps a single long word or URL from widening the popup.
pub const PREVIEW_WIDTH_CHARS: i32 = 42;

pub const WHITESPACE_PREVIEW: &'static str = "(whitespace)";

/// The preview while lines are being added.
pub struct PreviewState {
    pub text: Seq<char>,
    pub rendered: nat,
    pub budget: nat,
    pub truncated: bool,
}

pub open spec fn start_state() -> PreviewState {
    PreviewState { text: seq![], rendered: 0, budget: PREVIEW_CHARS as nat, truncated: false }
}

/// A character as shown: control characters become spaces.
pub open spec fn shown_char(c: char) -> char {
    if is_control(c) {
        ' '
    } else {
        c
    }
}

pub open spec fn shown_chars(s: Seq<char>) -> Seq<char> {
    s.map_values(|c: char| shown_char(c))
}

/// Adds one line: a blank line before anything is shown is skipped; a
/// fourth line cuts the preview; otherwise the line, without trailing white
/// space, is added on a line of its own as far as the budget allows.
pub open spec fn add_line(st: PreviewState, line: Seq<char>) -> PreviewState {
    if st.rendered == 0 && all_white_space(line) {
        st
    } else if st.rendered == PREVIEW_LINES {
        PreviewState { truncated: true, ..st }
    } else {
        let base = if st.rendered > 0 {
            st.text.push('\n')
        } else {
            st.text
        };
        let chars = trim_end(line);
        let take = if chars.len() <= st.budget {
            chars.len()
        } else {
            st.budget
        };
        PreviewState {
            text: base + shown_chars(chars.take(take as int)),
            rendered: st.rendered + 1,
            budget: (st.budget - take) as nat,
            truncated: chars.len() > st.budget,
        }
    }
}

/// The state after the lines, stopping at the first cut.
pub open spec fn add_lines(st: PreviewState, lines: Seq<Seq<char>>) -> PreviewState
    decreases lines.len(),
{
    if lines.len() == 0 || st.truncated {
        st
    } else {
        add_lines(add_line(st, lines[0]), lines.drop_first())
    }
}

/// The preview of `text`.
pub open spec fn preview_of(text: Seq<char>) -> Seq<char> {
    let st = add_lines(start_state(), text_lines(text));
    let shown = if st.truncated {
        st.text.push('…')
    } else {
        st.text
    };
    if all_white_space(shown) {
        WHITESPACE_PREVIEW@
    } else {
        shown
    }
}

fn is_blank(chars: &Vec<char>, from: usize, to: usize) -> (blank: bool)
    requires
        from <= to <= chars@.len(),
    ensures
        blank == all_white_space(chars@.subrange(from as int, to as int)),
{
    let ghost line = chars@.subrange(from as int, to as int);
    let mut i = from;
    while i < to
        invariant
            from <= i <= to <= chars@.len(),
            line == chars@.subrange(from as int, to as int),
            forall|k: int| from <= k < i ==> is_white_space(#[trigger] chars@[k]),
        decreases to - i,
    {
        if !char_is_white_space(chars[i]) {
            assert(!is_white_space(line[i - from]));
            return false;
        }
        i = i + 1;
    }
    assert forall|k: int| 0 <= k < line.len() implies is_white_space(#[trigger] line[k]) by {
        assert(line[k] == chars@[from + k]);
    }
    true
}

/// The end of `chars[from..to]` without its trailing white space.
fn trimmed_end(chars: &Vec<char>, from: usize, to: usize) -> (end: usize)
    requires
        from <= to <= chars@.len(),
    ensures
        from <= end <= to,
        chars@.subrange(from as int, end as int) == trim_end(chars@.subrange(from as int, to as int)),
{
    let ghost line = chars@.subrange(from as int, to as int);
    let mut end = to;
    while end > from && char_is_white_space(chars[end - 1])
        invariant
            from <= end <= to <= chars@.len(),
            line == chars@.subrange(from as int, to as int),
            forall|k: int| end - from <= k < line.len() ==> is_white_space(#[trigger] line[k]),
        decreases end,
    {
        assert(line[end - 1 - from] == chars@[end - 1]);
        end = end - 1;
    }
    proof {
        if end > from {
            assert(line[end - from - 1] == chars@[end - 1]);
        }
        crate::text::lemma_trim_end_at(line, end - from);
        assert(line.take(end - from) =~= chars@.subrange(from as int, end as int));
    }
    end
}

fn all_white(s: &String) -> (blank: bool)
    ensures
        blank == all_white_space(s@),
{
    let chars = chars_of(s.as_str());
    let n = chars.len();
    let r = is_blank(&chars, 0, n);
    assert(chars@.subrange(0, n as int) =~= chars@);
    r
}

/// Builds the preview of `text`.
pub fn preview_text(text: &str) -> (preview: String)
    ensures
        preview@ == preview_of(text@),
{
    let chars = chars_of(text);
    let ghost s = chars@;
    let mut preview = String::new();
    let mut rendered: usize = 0;
    let mut budget: usize = PREVIEW_CHARS;
    let mut truncated = false;
    let mut start: usize = 0;
    let ghost mut st = start_state();
    assert(s.skip(0) =~= s);
    while start < chars.len()
        invariant_except_break
            !truncated,
            add_lines(start_state(), text_lines(s)) == add_lines(st, text_lines(s.skip(start as int))),
        invariant
            s == chars@,
            s == text@,
            start <= s.len(),
            st == (PreviewState {
                text: preview@,
                rendered: rendered as nat,
                budget: budget as nat,
                truncated,
            }),
            rendered <= PREVIEW_LINES,
            budget <= PREVIEW_CHARS,
        ensures
            add_lines(start_state(), text_lines(s)) == st,
        decreases s.len() - start,
    {
        let end = line_end_exec(&chars, start);
        let ghost rest = s.skip(start as int);
        let ghost line = s.subrange(start as int, end as int);
        let ghost next_lines = text_lines(rest).drop_first();
        proof {
            lemma_line_end(s, start as int);
            lemma_line_end_shift(s, start as int, 0);
            lemma_line_end(rest, 0);
            assert(rest.len() > 0);
            if end < s.len() {
                assert(rest.subrange(0, end - start) =~= line);
                assert(rest.skip(end - start + 1) =~= s.skip(end + 1));
                assert(text_lines(rest) == seq![line] + text_lines(s.skip(end + 1)));
                assert(text_lines(rest)[0] == line);
                assert(next_lines =~= text_lines(s.skip(end + 1)));
            } else {
                assert(rest =~= line);
                assert(text_lines(rest) == seq![line]);
                assert(next_lines =~= Seq::<Seq<char>>::empty());
            }
            assert(add_lines(st, text_lines(rest)) == add_lines(add_line(st, line), next_lines));
        }
        let ghost before = st;
        if !(rendered == 0 && is_blank(&chars, start, end)) {
            if rendered == PREVIEW_LINES {
                truncated = true;
                proof {
                    st = PreviewState { truncated: true, ..st };
                    assert(st == add_line(before, line));
                    assert(add_lines(st, next_lines) == st);
                }
                break;
            }
            if rendered > 0 {
                push_char(&mut preview, '\n');
            }
            let line_stop = trimmed_end(&chars, start, end);
            let ghost kept = s.subrange(start as int, line_stop as int);
            let ghost base = preview@;
            let mut i = start;
            while i < line_stop && budget > 0
                invariant
                    start <= i <= line_stop <= end <= s.len(),
                    s == chars@,
                    budget <= PREVIEW_CHARS,
                    i - start + budget == before.budget,
                    preview@ == base + shown_chars(kept.take(i - start)),
                    kept == s.subrange(start as int, line_stop as int),
                decreases line_stop - i,
            {
                let c = chars[i];
                let shown = if char_is_control(c) { ' ' } else { c };
                push_char(&mut preview, shown);
                proof {
                    assert(kept.take(i - start + 1) =~= kept.take(i - start).push(kept[i - start]));
                    assert(kept[i - start] == c);
                    assert(shown_chars(kept.take(i - start + 1)) =~= shown_chars(
                        kept.take(i - start),
                    ).push(shown_char(c)));
                }
                budget = budget - 1;
                i = i + 1;
            }
            if i < line_stop {
                truncated = true;
            }
            rendered = rendered + 1;
            proof {
                st = add_line(before, line);
                assert(st.text =~= preview@);
            }
            if truncated {
                assert(add_lines(st, next_lines) == st);
                break;
            }
        } else {
            proof {
                assert(add_line(before, line) == before);
            }
        }
        if end == chars.len() {
            assert(add_lines(st, next_lines) == st);
            break;
        }
        start = end + 1;
    }
    if truncated {
        push_char(&mut preview, '…');
    }
    if all_white(&preview) {
        return String::from_str(WHITESPACE_PREVIEW);
    }
    preview
}

/// What every state on the way to a preview keeps: at most three lines, and
/// the text shown plus the budget left is the whole budget plus one
/// newline between shown lines.
pub open spec fn preview_bounded(st: PreviewState) -> bool {
    &&& st.rendered <= PREVIEW_LINES
    &&& st.text.len() + st.budget == PREVIEW_CHARS + if st.rendered > 0 {
        st.rendered - 1
    } else {
        0
    }
}

proof fn lemma_add_lines_bounded(st: PreviewState, lines: Seq<Seq<char>>)
    requires
        preview_bounded(st),
    ensures
        preview_bounded(add_lines(st, lines)),
    decreases lines.len(),
{
    if lines.len() > 0 && !st.truncated {
        let next = add_line(st, lines[0]);
        assert(preview_bounded(next));
        lemma_add_lines_bounded(next, lines.drop_first());
    }
}

/// A preview never grows past the character budget, the newlines between
/// at most three lines, and the ellipsis that marks a cut.
pub proof fn law_preview_is_bounded(text: Seq<char>)
    ensures
        preview_of(text).len() <= PREVIEW_CHARS + PREVIEW_LINES,
{
    lemma_add_lines_bounded(start_state(), text_lines(text));
    reveal_strlit("(whitespace)");
}

} // verus!
