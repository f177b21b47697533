//! Viewport windowing: extracting the trailing slice of a transcript
//! that fits a fixed-height viewport, and the line arithmetic used for
//! cursor placement.

use vstd::prelude::*;

verus! {

/// Number of line breaks in the text.
pub open spec fn count_breaks(s: Seq<char>) -> nat
    decreases s.len(),
{
    if s.len() == 0 {
        0
    } else {
        (if s.last() == '\n' {
            1nat
        } else {
            0nat
        }) + count_breaks(s.drop_last())
    }
}

/// Where the visible window begins: scanning from the end of the text,
/// the offset immediately after the `(h + 1)`-th line break, or the
/// start of the text when it holds fewer breaks.  The window therefore
/// spans up to `h + 1` trailing lines.
pub open spec fn visible_start(s: Seq<char>, h: nat) -> int
    decreases s.len(),
{
    if s.len() == 0 {
        0
    } else if s.last() == '\n' {
        if h == 0 {
            s.len() as int
        } else {
            visible_start(s.drop_last(), (h - 1) as nat)
        }
    } else {
        visible_start(s.drop_last(), h)
    }
}

/// The trailing slice of the text that a viewport of height `h` shows.
pub open spec fn visible_text(s: Seq<char>, h: nat) -> Seq<char> {
    s.subrange(visible_start(s, h), s.len() as int)
}

/// Length of the text's last line: the characters after the final line
/// break, or the whole text when it holds none.
pub open spec fn last_line_len(s: Seq<char>) -> nat
    decreases s.len(),
{
    if s.len() == 0 {
        0
    } else if s.last() == '\n' {
        0
    } else {
        1 + last_line_len(s.drop_last())
    }
}

/// Number of lines of the text, counted as a terminal would display
/// them: empty text has no line, and a trailing break opens no new one.
pub open spec fn line_count(s: Seq<char>) -> nat {
    if s.len() == 0 {
        0
    } else if s.last() == '\n' {
        count_breaks(s)
    } else {
        count_breaks(s) + 1
    }
}

/// The start of the visible window lies inside the text.
pub proof fn lemma_visible_start_in_range(s: Seq<char>, h: nat)
    ensures
        0 <= visible_start(s, h) <= s.len(),
    decreases s.len(),
{
    if s.len() == 0 {
    } else if s.last() == '\n' {
        if h > 0 {
            lemma_visible_start_in_range(s.drop_last(), (h - 1) as nat);
        }
    } else {
        lemma_visible_start_in_range(s.drop_last(), h);
    }
}

/// A text never holds more line breaks than characters.
pub proof fn lemma_count_breaks_le_len(s: Seq<char>)
    ensures
        count_breaks(s) <= s.len(),
    decreases s.len(),
{
    if s.len() > 0 {
        lemma_count_breaks_le_len(s.drop_last());
    }
}

/// The last line is never longer than the text.
pub proof fn lemma_last_line_len_le(s: Seq<char>)
    ensures
        last_line_len(s) <= s.len(),
    decreases s.len(),
{
    if s.len() > 0 && s.last() != '\n' {
        lemma_last_line_len_le(s.drop_last());
    }
}

/// A text whose breaks all fit the height is shown from its start.
pub proof fn lemma_few_breaks_whole_text(s: Seq<char>, h: nat)
    requires
        count_breaks(s) <= h,
    ensures
        visible_start(s, h) == 0,
    decreases s.len(),
{
    if s.len() == 0 {
    } else if s.last() == '\n' {
        lemma_few_breaks_whole_text(s.drop_last(), (h - 1) as nat);
    } else {
        lemma_few_breaks_whole_text(s.drop_last(), h);
    }
}

/// A text with no line breaks is returned unchanged, whatever the
/// height of the viewport.
pub proof fn lemma_no_breaks_whole_text(s: Seq<char>, h: nat)
    requires
        count_breaks(s) == 0,
    ensures
        visible_text(s, h) == s,
{
    lemma_few_breaks_whole_text(s, h);
    assert(s.subrange(0, s.len() as int) =~= s);
}

/// The visible window never holds more than `h` line breaks, that is,
/// more than `h + 1` lines.
pub proof fn lemma_visible_breaks_bounded(s: Seq<char>, h: nat)
    ensures
        count_breaks(visible_text(s, h)) <= h,
    decreases s.len(),
{
    lemma_visible_start_in_range(s, h);
    if s.len() == 0 {
        assert(visible_text(s, h) =~= Seq::<char>::empty());
    } else if s.last() == '\n' && h == 0 {
        assert(visible_text(s, h) =~= Seq::<char>::empty());
    } else if s.last() == '\n' {
        lemma_visible_start_in_range(s.drop_last(), (h - 1) as nat);
        lemma_visible_breaks_bounded(s.drop_last(), (h - 1) as nat);
        let w = visible_text(s, h);
        assert(w.drop_last() =~= visible_text(s.drop_last(), (h - 1) as nat));
        assert(w.last() == '\n');
    } else {
        lemma_visible_start_in_range(s.drop_last(), h);
        lemma_visible_breaks_bounded(s.drop_last(), h);
        let w = visible_text(s, h);
        assert(w.drop_last() =~= visible_text(s.drop_last(), h));
        assert(w.last() == s.last());
    }
}

/// Windowing is idempotent: applying the window to its own output with
/// the same height returns that output unchanged.
pub proof fn lemma_visible_text_idempotent(s: Seq<char>, h: nat)
    ensures
        visible_text(visible_text(s, h), h) == visible_text(s, h),
{
    let w = visible_text(s, h);
    lemma_visible_breaks_bounded(s, h);
    lemma_few_breaks_whole_text(w, h);
    assert(w.subrange(0, w.len() as int) =~= w);
}

/// Finds the offset where the visible window begins.
fn find_visible_start(text: &Vec<char>, max_height: usize) -> (start: usize)
    ensures
        start == visible_start(text@, max_height as nat),
        start <= text@.len(),
{
    let mut i: usize = text.len();
    let mut h: usize = max_height;
    proof {
        assert(text@.subrange(0, text@.len() as int) =~= text@);
    }
    while i > 0
        invariant
            i <= text@.len(),
            h <= max_height,
            visible_start(text@, max_height as nat) == visible_start(
                text@.subrange(0, i as int),
                h as nat,
            ),
        decreases i,
    {
        proof {
            assert(text@.subrange(0, i as int).drop_last() =~= text@.subrange(0, i - 1));
            assert(text@.subrange(0, i as int).last() == text@[i - 1]);
        }
        if text[i - 1] == '\n' {
            if h == 0 {
                proof {
                    assert(visible_start(text@.subrange(0, i as int), 0) == i);
                }
                return i;
            }
            h = h - 1;
        }
        i = i - 1;
    }
    proof {
        assert(text@.subrange(0, 0) =~= Seq::<char>::empty());
    }
    0
}

/// The trailing slice of `text` that fits a viewport `max_height` rows
/// high: everything after the `(max_height + 1)`-th line break counted
/// from the end, hence up to `max_height + 1` lines.
pub fn get_visible_text(text: &Vec<char>, max_height: usize) -> (r: Vec<char>)
    ensures
        r@ == visible_text(text@, max_height as nat),
{
    let start = find_visible_start(text, max_height);
    let mut r: Vec<char> = Vec::new();
    let mut j: usize = start;
    while j < text.len()
        invariant
            start <= j <= text@.len(),
            r@ == text@.subrange(start as int, j as int),
        decreases text@.len() - j,
    {
        r.push(text[j]);
        proof {
            assert(r@ =~= text@.subrange(start as int, j + 1));
        }
        j = j + 1;
    }
    r
}

/// Length of the text's last line, in characters.
pub fn last_line_length(text: &Vec<char>) -> (r: usize)
    ensures
        r == last_line_len(text@),
{
    let mut i: usize = text.len();
    proof {
        assert(text@.subrange(0, text@.len() as int) =~= text@);
    }
    while i > 0
        invariant
            i <= text@.len(),
            last_line_len(text@) == last_line_len(text@.subrange(0, i as int)) + (text@.len() - i),
        decreases i,
    {
        proof {
            assert(text@.subrange(0, i as int).drop_last() =~= text@.subrange(0, i - 1));
            assert(text@.subrange(0, i as int).last() == text@[i - 1]);
        }
        if text[i - 1] == '\n' {
            return text.len() - i;
        }
        i = i - 1;
    }
    proof {
        assert(text@.subrange(0, 0) =~= Seq::<char>::empty());
    }
    text.len()
}

/// Number of line breaks in the text.
pub fn count_break_chars(text: &Vec<char>) -> (r: usize)
    ensures
        r == count_breaks(text@),
{
    let mut i: usize = text.len();
    let mut seen: usize = 0;
    proof {
        assert(text@.subrange(0, text@.len() as int) =~= text@);
    }
    while i > 0
        invariant
            text@.len() <= usize::MAX,
            i <= text@.len(),
            seen <= text@.len() - i,
            count_breaks(text@) == count_breaks(text@.subrange(0, i as int)) + seen,
        decreases i,
    {
        proof {
            assert(text@.subrange(0, i as int).drop_last() =~= text@.subrange(0, i - 1));
            assert(text@.subrange(0, i as int).last() == text@[i - 1]);
        }
        if text[i - 1] == '\n' {
            seen = seen + 1;
        }
        i = i - 1;
    }
    proof {
        assert(text@.subrange(0, 0) =~= Seq::<char>::empty());
    }
    seen
}

} // verus!
