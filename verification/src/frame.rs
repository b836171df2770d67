//! The frames of the device's text stream.
//!
//! A frame is the marker `*#ESD_`, a name that holds no `#`, and a closing `#`.
//! The name may be empty. A chunk of text is searched for its first frame, the
//! one that starts earliest.

use vstd::prelude::*;

verus! {

/// The six characters that open a frame.
pub open spec fn frame_marker() -> Seq<char> {
    seq!['*', '#', 'E', 'S', 'D', '_']
}

/// The character that closes a frame and that no name holds.
pub open spec fn frame_end() -> char {
    '#'
}

/// The marker stands in `text` at index `start`.
pub open spec fn marker_at(text: Seq<char>, start: int) -> bool {
    &&& 0 <= start
    &&& start + 6 <= text.len()
    &&& forall|k: int| 0 <= k < 6 ==> text[start + k] == #[trigger] frame_marker()[k]
}

/// A frame starts at `start` and its closing `#` stands at `end`: the marker
/// at `start`, then no `#` up to `end`.
pub open spec fn frame_at(text: Seq<char>, start: int, end: int) -> bool {
    &&& marker_at(text, start)
    &&& start + 6 <= end < text.len()
    &&& text[end] == frame_end()
    &&& forall|k: int| start + 6 <= k < end ==> #[trigger] text[k] != frame_end()
}

/// The frame at `start` and `end` is the first of `text`: no frame starts earlier.
pub open spec fn is_first_frame(text: Seq<char>, start: int, end: int) -> bool {
    &&& frame_at(text, start, end)
    &&& forall|s: int, e: int| #[trigger] frame_at(text, s, e) ==> start <= s
}

/// The name of the first frame of `text`, if `text` holds a frame.
pub open spec fn first_frame(text: Seq<char>) -> Option<Seq<char>> {
    if exists|s: int, e: int| is_first_frame(text, s, e) {
        let (s, e) = choose|s: int, e: int| is_first_frame(text, s, e);
        Some(text.subrange(s + 6, e))
    } else {
        None
    }
}

/// A frame that starts at a given index ends at one index only.
pub proof fn lemma_frame_end_unique(text: Seq<char>, start: int, e1: int, e2: int)
    requires
        frame_at(text, start, e1),
        frame_at(text, start, e2),
    ensures
        e1 == e2,
{
    if e1 < e2 {
        assert(text[e1] != frame_end());
    } else if e2 < e1 {
        assert(text[e2] != frame_end());
    }
}

/// Where the first frame of `text` stands at `start` and `end`, its name is
/// what lies between the marker and `end`.
pub proof fn lemma_first_frame_at(text: Seq<char>, start: int, end: int)
    requires
        is_first_frame(text, start, end),
    ensures
        first_frame(text) == Some(text.subrange(start + 6, end)),
{
    let (s, e) = choose|s: int, e: int| is_first_frame(text, s, e);
    assert(frame_at(text, s, e));
    assert(frame_at(text, start, end));
    assert(s == start);
    lemma_frame_end_unique(text, start, e, end);
}

/// A frame that starts below `bound` implies a first frame: the search for the
/// least start ends.
proof fn lemma_least_frame(text: Seq<char>, bound: int)
    requires
        exists|s: int, e: int| frame_at(text, s, e) && s < bound,
    ensures
        exists|s: int, e: int| is_first_frame(text, s, e),
    decreases bound,
{
    let (s, e) = choose|s: int, e: int| frame_at(text, s, e) && s < bound;
    if exists|s2: int, e2: int| frame_at(text, s2, e2) && s2 < s {
        lemma_least_frame(text, s);
    } else {
        assert(is_first_frame(text, s, e));
    }
}

/// A text has a first frame exactly when it holds a frame at all.
pub proof fn lemma_first_frame_exists(text: Seq<char>)
    ensures
        first_frame(text) is Some <==> exists|s: int, e: int| frame_at(text, s, e),
{
    if exists|s: int, e: int| frame_at(text, s, e) {
        let (s, e) = choose|s: int, e: int| frame_at(text, s, e);
        assert(frame_at(text, s, e) && s < s + 1);
        lemma_least_frame(text, s + 1);
    }
}

/// The name of a frame holds no `#`.
pub proof fn lemma_name_has_no_end(text: Seq<char>)
    ensures
        first_frame(text) matches Some(name) ==> !name.contains(frame_end()),
{
    if exists|s: int, e: int| is_first_frame(text, s, e) {
        let (s, e) = choose|s: int, e: int| is_first_frame(text, s, e);
        let name = text.subrange(s + 6, e);
        assert forall|i: int| 0 <= i < name.len() implies name[i] != frame_end() by {
            assert(name[i] == text[s + 6 + i]);
        }
    }
}

/// The text of one frame: the marker, `name`, and the closing `#`.
pub open spec fn framed(name: Seq<char>) -> Seq<char> {
    frame_marker() + name + seq![frame_end()]
}

/// A frame is found, with its name, wherever no marker stands before it:
/// `before` and `after` are what surrounds the frame in the text.
pub proof fn lemma_framed_name_is_found(before: Seq<char>, name: Seq<char>, after: Seq<char>)
    requires
        !name.contains(frame_end()),
        forall|s: int| 0 <= s < before.len() ==> !marker_at(before + framed(name) + after, s),
    ensures
        first_frame(before + framed(name) + after) == Some(name),
{
    let text = before + framed(name) + after;
    let start = before.len() as int;
    let end = start + 6 + name.len();
    assert forall|k: int| 0 <= k < 6 implies text[start + k] == #[trigger] frame_marker()[k] by {
        assert(text[start + k] == framed(name)[k]);
    }
    assert(text[end] == framed(name)[end - start]);
    assert forall|k: int| start + 6 <= k < end implies #[trigger] text[k] != frame_end() by {
        assert(text[k] == name[k - start - 6]);
        assert(name.contains(name[k - start - 6]));
    }
    assert(frame_at(text, start, end));
    assert(is_first_frame(text, start, end));
    lemma_first_frame_at(text, start, end);
    assert(text.subrange(start + 6, end) =~= name);
}

/// A text in which the marker stands nowhere holds no frame.
pub proof fn lemma_no_marker_no_frame(text: Seq<char>)
    requires
        forall|s: int| !marker_at(text, s),
    ensures
        first_frame(text) is None,
{
}

/// The characters of `text`, in order.
fn chars_of(text: &str) -> (chars: Vec<char>)
    ensures
        chars@ == text@,
{
    let mut chars: Vec<char> = Vec::new();
    for c in it: text.chars()
        invariant
            it.seq() == text@,
            chars@ == text@.subrange(0, it.index() as int),
    {
        chars.push(c);
        assert(chars@ =~= text@.subrange(0, it.index() + 1));
    }
    assert(text@.subrange(0, text@.len() as int) =~= text@);
    chars
}

/// Whether the marker stands in `chars` at index `start`.
fn marker_stands_at(chars: &Vec<char>, start: usize) -> (stands: bool)
    ensures
        stands == marker_at(chars@, start as int),
{
    if chars.len() < 6 || start > chars.len() - 6 {
        return false;
    }
    let stands = chars[start] == '*' && chars[start + 1] == '#' && chars[start + 2] == 'E'
        && chars[start + 3] == 'S' && chars[start + 4] == 'D' && chars[start + 5] == '_';
    proof {
        let text = chars@;
        let s = start as int;
        if stands {
            assert forall|k: int| 0 <= k < 6 implies text[s + k] == #[trigger] frame_marker()[k] by {
                if k == 0 {
                } else if k == 1 {
                } else if k == 2 {
                } else if k == 3 {
                } else if k == 4 {
                } else {
                }
            }
        } else if marker_at(text, s) {
            assert(text[s + 0] == frame_marker()[0]);
            assert(text[s + 1] == frame_marker()[1]);
            assert(text[s + 2] == frame_marker()[2]);
            assert(text[s + 3] == frame_marker()[3]);
            assert(text[s + 4] == frame_marker()[4]);
            assert(text[s + 5] == frame_marker()[5]);
        }
    }
    stands
}

/// The index of the first `#` of `chars` at or after `from`.
fn find_end(chars: &Vec<char>, from: usize) -> (end: Option<usize>)
    requires
        from <= chars.len(),
    ensures
        match end {
            Some(e) => from <= e < chars.len() && chars[e as int] == frame_end() && forall|k: int|
                from <= k < e ==> #[trigger] chars[k] != frame_end(),
            None => forall|k: int| from <= k < chars.len() ==> #[trigger] chars[k] != frame_end(),
        },
{
    let mut j: usize = from;
    while j < chars.len()
        invariant
            from <= j <= chars.len(),
            forall|k: int| from <= k < j ==> #[trigger] chars[k] != frame_end(),
        decreases chars.len() - j,
    {
        if chars[j] == '#' {
            return Some(j);
        }
        j = j + 1;
    }
    None
}

/// Where the first frame of `chars` starts and ends.
fn locate(chars: &Vec<char>) -> (place: Option<(usize, usize)>)
    ensures
        match place {
            Some((start, end)) => is_first_frame(chars@, start as int, end as int),
            None => forall|s: int, e: int| !frame_at(chars@, s, e),
        },
{
    let mut i: usize = 0;
    while i < chars.len()
        invariant
            i <= chars.len(),
            forall|s: int, e: int| s < i ==> !frame_at(chars@, s, e),
        decreases chars.len() - i,
    {
        if marker_stands_at(chars, i) {
            match find_end(chars, i + 6) {
                Some(end) => {
                    return Some((i, end));
                },
                None => {},
            }
        }
        i = i + 1;
    }
    None
}

/// Searches `text` for its first frame and returns the frame's name.
///
/// The result is `None` exactly when `text` holds no frame.
pub fn extract(text: &str) -> (found: Option<String>)
    ensures
        match found {
            Some(name) => first_frame(text@) == Some(name@),
            None => first_frame(text@) is None,
        },
{
    let chars = chars_of(text);
    match locate(&chars) {
        Some((start, end)) => {
            proof {
                lemma_first_frame_at(text@, start as int, end as int);
            }
            let name = text.substring_char(start + 6, end);
            Some(name.to_owned())
        },
        None => None,
    }
}

} // verus!
