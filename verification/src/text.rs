//! Substring search and line splitting on UTF-8 text, taken byte by byte.
//!
//! Positions are byte offsets. A newline byte never occurs inside the
//! encoding of another character, and a match of one well-formed text inside
//! another always starts and ends between characters, so working on bytes
//! finds the same lines and the same matches as working on characters would.

use vstd::prelude::*;
use vstd::slice::slice_subrange;
use vstd::string::StringSliceAdditionalSpecFns;

verus! {

broadcast use vstd::seq::group_seq_axioms;

/// Whether `needle` stands in `hay` at offset `i`.
pub open spec fn occurs_at(hay: Seq<u8>, needle: Seq<u8>, i: int) -> bool {
    &&& 0 <= i
    &&& i + needle.len() <= hay.len()
    &&& hay.subrange(i, i + needle.len()) == needle
}

/// The first offset at or after `start` at which `needle` stands in `hay`.
pub open spec fn find_from(hay: Seq<u8>, needle: Seq<u8>, start: int) -> Option<int>
    decreases hay.len() - start,
{
    if start < 0 || start > hay.len() {
        None
    } else if occurs_at(hay, needle, start) {
        Some(start)
    } else if start == hay.len() {
        None
    } else {
        find_from(hay, needle, start + 1)
    }
}

/// The first offset at which `needle` stands in `hay`. The empty needle
/// stands at offset 0 of every text.
pub open spec fn find(hay: Seq<u8>, needle: Seq<u8>) -> Option<int> {
    find_from(hay, needle, 0)
}

/// Whether `needle` stands anywhere in `hay`.
pub open spec fn contains(hay: Seq<u8>, needle: Seq<u8>) -> bool {
    find(hay, needle) is Some
}

/// `find_from` gives the least offset from `start` on at which the needle
/// stands, and nothing exactly when it stands at none.
pub proof fn lemma_find_from_is_first(hay: Seq<u8>, needle: Seq<u8>, start: int)
    requires
        0 <= start,
    ensures
        match find_from(hay, needle, start) {
            Some(i) => {
                &&& start <= i
                &&& occurs_at(hay, needle, i)
                &&& forall|j: int| start <= j < i ==> !occurs_at(hay, needle, j)
            },
            None => forall|j: int| start <= j ==> !occurs_at(hay, needle, j),
        },
    decreases hay.len() - start,
{
    if start < hay.len() && !occurs_at(hay, needle, start) {
        lemma_find_from_is_first(hay, needle, start + 1);
    }
}

/// The search finds the needle exactly where it first stands: an offset is
/// the result if and only if the needle stands there and at no earlier
/// offset, and there is no result if and only if it stands nowhere.
pub proof fn law_find_is_first_occurrence(hay: Seq<u8>, needle: Seq<u8>, i: int)
    ensures
        find(hay, needle) == Some(i) <==> occurs_at(hay, needle, i) && forall|j: int|
            0 <= j < i ==> !occurs_at(hay, needle, j),
        find(hay, needle) is None <==> forall|j: int| !occurs_at(hay, needle, j),
        contains(hay, needle) <==> exists|j: int| occurs_at(hay, needle, j),
{
    lemma_find_from_is_first(hay, needle, 0);
    if occurs_at(hay, needle, i) && forall|j: int| 0 <= j < i ==> !occurs_at(hay, needle, j) {
        match find(hay, needle) {
            Some(k) => {
                if k < i {
                    assert(!occurs_at(hay, needle, k));
                }
                if i < k {
                    assert(!occurs_at(hay, needle, i));
                }
            },
            None => {
                assert(!occurs_at(hay, needle, i));
            },
        }
    }
    if find(hay, needle) is Some {
        assert(occurs_at(hay, needle, find(hay, needle)->0));
    }
}

/// Whether `needle` stands in `hay` at offset `i`.
pub fn matches_at(hay: &[u8], needle: &[u8], i: usize) -> (res: bool)
    ensures
        res == occurs_at(hay@, needle@, i as int),
{
    if needle.len() > hay.len() || i > hay.len() - needle.len() {
        return false;
    }
    let mut k: usize = 0;
    while k < needle.len()
        invariant
            k <= needle@.len(),
            i + needle@.len() <= hay@.len() <= usize::MAX,
            forall|j: int| 0 <= j < k ==> hay@[i + j] == needle@[j],
        decreases needle@.len() - k,
    {
        if hay[i + k] != needle[k] {
            proof {
                assert(hay@.subrange(i as int, i + needle@.len())[k as int] == hay@[i + k]);
            }
            return false;
        }
        k += 1;
    }
    proof {
        assert(hay@.subrange(i as int, i + needle@.len()) =~= needle@);
    }
    true
}

/// The first offset at which `needle` stands in `hay`, if it stands there at
/// all.
pub fn find_bytes(hay: &[u8], needle: &[u8]) -> (res: Option<usize>)
    ensures
        match res {
            Some(i) => find(hay@, needle@) == Some(i as int),
            None => find(hay@, needle@) is None,
        },
{
    if needle.len() > hay.len() {
        proof {
            lemma_find_from_is_first(hay@, needle@, 0);
        }
        return None;
    }
    let last: usize = hay.len() - needle.len();
    let mut i: usize = 0;
    loop
        invariant
            last == hay@.len() - needle@.len(),
            i <= last,
            find(hay@, needle@) == find_from(hay@, needle@, i as int),
        decreases last - i,
    {
        if matches_at(hay, needle, i) {
            return Some(i);
        }
        if i == last {
            proof {
                lemma_find_from_is_first(hay@, needle@, i + 1);
            }
            return None;
        }
        i += 1;
    }
}

/// The byte that ends a line.
pub const NEWLINE: u8 = 10;

/// The byte that is dropped where it stands right before a line's end.
pub const CARRIAGE_RETURN: u8 = 13;

/// The offset of the first newline at or after `start`, or the text's length
/// if there is none.
pub open spec fn newline_from(text: Seq<u8>, start: int) -> int
    decreases text.len() - start,
{
    if start < 0 || start >= text.len() {
        text.len() as int
    } else if text[start] == NEWLINE {
        start
    } else {
        newline_from(text, start + 1)
    }
}

/// A line without the carriage return that stood before its newline.
pub open spec fn strip_cr(line: Seq<u8>) -> Seq<u8> {
    if line.len() > 0 && line.last() == CARRIAGE_RETURN {
        line.drop_last()
    } else {
        line
    }
}

/// The first line of a text that is not empty: what stands before the first
/// newline, less a carriage return right before it, or the whole text if no
/// newline is left.
pub open spec fn first_line(text: Seq<u8>) -> Seq<u8> {
    let n = newline_from(text, 0);
    if n < text.len() {
        strip_cr(text.subrange(0, n))
    } else {
        text
    }
}

/// What follows the first line and its newline.
pub open spec fn after_first_line(text: Seq<u8>) -> Seq<u8> {
    let n = newline_from(text, 0);
    if 0 <= n < text.len() {
        text.subrange(n + 1, text.len() as int)
    } else {
        Seq::empty()
    }
}

/// The lines of a text. A line ends at a newline, or at a carriage return
/// right before one; the ending is no part of the line. The last line need
/// not be ended, and a lone carriage return at the very end stays. The empty
/// text has no lines.
pub open spec fn lines(text: Seq<u8>) -> Seq<Seq<u8>>
    decreases text.len(),
{
    if text.len() == 0 {
        Seq::empty()
    } else {
        seq![first_line(text)] + lines(after_first_line(text))
    }
}

/// The first newline from `start` on lies between `start` and the text's
/// end, and no newline stands before it.
pub proof fn lemma_newline_from(text: Seq<u8>, start: int)
    requires
        0 <= start <= text.len(),
    ensures
        start <= newline_from(text, start) <= text.len(),
        newline_from(text, start) < text.len() ==> text[newline_from(text, start)] == NEWLINE,
        forall|i: int| start <= i < newline_from(text, start) ==> text[i] != NEWLINE,
    decreases text.len() - start,
{
    if start < text.len() && text[start] != NEWLINE {
        lemma_newline_from(text, start + 1);
    }
}

/// The offset of the first newline in `text`, or its length if there is
/// none.
pub fn first_newline(text: &[u8]) -> (n: usize)
    ensures
        n == newline_from(text@, 0),
        n <= text@.len(),
{
    let mut i: usize = 0;
    while i < text.len()
        invariant
            i <= text@.len(),
            newline_from(text@, 0) == newline_from(text@, i as int),
        decreases text@.len() - i,
    {
        if text[i] == NEWLINE {
            return i;
        }
        i += 1;
    }
    i
}

/// Every line takes at least one byte of the text, so a text has no more
/// lines than bytes.
pub proof fn lemma_lines_len(text: Seq<u8>)
    ensures
        lines(text).len() <= text.len(),
    decreases text.len(),
{
    if text.len() > 0 {
        lemma_newline_from(text, 0);
        lemma_lines_len(after_first_line(text));
    }
}

/// The number of lines in `text`.
pub fn count_lines(text: &[u8]) -> (n: usize)
    ensures
        n == lines(text@).len(),
{
    let mut rest: &[u8] = text;
    let mut n: usize = 0;
    let total = text.len();
    proof {
        lemma_lines_len(text@);
    }
    while rest.len() > 0
        invariant
            n + lines(rest@).len() == lines(text@).len(),
            lines(text@).len() <= total,
        decreases rest@.len(),
    {
        let end = first_newline(rest);
        proof {
            lemma_newline_from(rest@, 0);
        }
        if end < rest.len() {
            rest = slice_subrange(rest, end + 1, rest.len());
        } else {
            rest = slice_subrange(rest, end, rest.len());
            assert(rest@ =~= Seq::<u8>::empty());
        }
        n += 1;
    }
    n
}

/// A newline or a carriage return is a character of its own: it is never a
/// byte in the middle of another character's encoding.
proof fn lemma_line_ending_is_no_continuation(b: u8)
    requires
        b == NEWLINE || b == CARRIAGE_RETURN,
    ensures
        !vstd::utf8::is_continuation_byte(b),
        vstd::utf8::is_leading_byte_width_1(b),
{
}

/// In well-formed text that begins with a one-byte character, the second
/// byte begins a character too.
proof fn lemma_boundary_after_first_ascii(bytes: Seq<u8>)
    requires
        vstd::utf8::valid_utf8(bytes),
        bytes.len() > 0,
        bytes[0] <= 0x7f,
    ensures
        vstd::utf8::is_char_boundary(bytes, 1),
{
    reveal_with_fuel(vstd::utf8::is_char_boundary, 2);
    reveal_with_fuel(vstd::utf8::valid_utf8, 2);
}

/// Splits a text that is not empty into its first line and what follows that
/// line's ending.
pub fn split_first_line<'a>(text: &'a str) -> (res: (&'a str, &'a str))
    requires
        text.spec_bytes().len() > 0,
    ensures
        res.0.spec_bytes() == first_line(text.spec_bytes()),
        res.1.spec_bytes() == after_first_line(text.spec_bytes()),
        res.1.spec_bytes().len() < text.spec_bytes().len(),
{
    broadcast use vstd::utf8::encode_utf8_valid_utf8;

    let ghost bytes = text.spec_bytes();
    let raw = text.as_bytes();
    let end = first_newline(raw);
    proof {
        lemma_newline_from(bytes, 0);
        vstd::utf8::encode_utf8_valid_utf8(text@);
    }
    if end == raw.len() {
        proof {
            vstd::utf8::is_char_boundary_start_end_of_seq(bytes);
        }
        let (line, rest) = text.split_at(end);
        assert(line.spec_bytes() =~= bytes);
        assert(rest.spec_bytes() =~= Seq::<u8>::empty());
        return (line, rest);
    }
    proof {
        lemma_line_ending_is_no_continuation(bytes[end as int]);
        vstd::utf8::is_char_boundary_iff_not_is_continuation_byte(bytes, end as int);
    }
    let (head, tail) = text.split_at(end);
    proof {
        lemma_boundary_after_first_ascii(tail.spec_bytes());
    }
    let (_, rest) = tail.split_at(1);
    assert(rest.spec_bytes() =~= bytes.subrange(end + 1, bytes.len() as int));
    let ghost head_bytes = head.spec_bytes();
    let head_raw = head.as_bytes();
    if end > 0 && head_raw[end - 1] == CARRIAGE_RETURN {
        proof {
            lemma_line_ending_is_no_continuation(head_bytes[end - 1]);
            vstd::utf8::is_char_boundary_iff_not_is_continuation_byte(head_bytes, end - 1);
        }
        let (line, _) = head.split_at(end - 1);
        assert(line.spec_bytes() =~= strip_cr(bytes.subrange(0, end as int)));
        (line, rest)
    } else {
        assert(head_bytes =~= strip_cr(bytes.subrange(0, end as int)));
        (head, rest)
    }
}

/// The lines of `text`, in order.
pub fn split_lines<'a>(text: &'a str) -> (res: Vec<&'a str>)
    ensures
        res@.len() == lines(text.spec_bytes()).len(),
        forall|i: int|
            0 <= i < res@.len() ==> (#[trigger] res@[i]).spec_bytes() == lines(
                text.spec_bytes(),
            )[i],
{
    let mut res: Vec<&'a str> = Vec::new();
    let mut rest: &'a str = text;
    while rest.as_bytes().len() > 0
        invariant
            res@.len() + lines(rest.spec_bytes()).len() == lines(text.spec_bytes()).len(),
            forall|i: int|
                0 <= i < res@.len() ==> (#[trigger] res@[i]).spec_bytes() == lines(
                    text.spec_bytes(),
                )[i],
            forall|i: int|
                0 <= i < lines(rest.spec_bytes()).len() ==> #[trigger] lines(rest.spec_bytes())[i]
                    == lines(text.spec_bytes())[res@.len() + i],
        decreases rest.spec_bytes().len(),
    {
        let ghost before = rest.spec_bytes();
        let ghost done = res@.len();
        let (line, tail) = split_first_line(rest);
        proof {
            assert(lines(before) =~= seq![first_line(before)] + lines(after_first_line(before)));
            assert(lines(before)[0] == first_line(before));
            assert forall|i: int| 0 <= i < lines(tail.spec_bytes()).len() implies #[trigger] lines(
                tail.spec_bytes(),
            )[i] == lines(text.spec_bytes())[done + 1 + i] by {
                assert(lines(before)[i + 1] == lines(tail.spec_bytes())[i]);
            }
        }
        res.push(line);
        rest = tail;
    }
    res
}

/// Whether two byte strings are the same.
pub fn same_bytes(a: &[u8], b: &[u8]) -> (res: bool)
    ensures
        res == (a@ == b@),
{
    if a.len() != b.len() {
        return false;
    }
    let mut i: usize = 0;
    while i < a.len()
        invariant
            a@.len() == b@.len(),
            i <= a@.len(),
            forall|j: int| 0 <= j < i ==> a@[j] == b@[j],
        decreases a@.len() - i,
    {
        if a[i] != b[i] {
            return false;
        }
        i += 1;
    }
    assert(a@ =~= b@);
    true
}

/// Two texts have the same characters exactly when they have the same bytes.
pub proof fn lemma_same_bytes_same_chars(a: Seq<char>, b: Seq<char>)
    ensures
        (vstd::utf8::encode_utf8(a) == vstd::utf8::encode_utf8(b)) <==> a == b,
{
    vstd::utf8::encode_utf8_decode_utf8(a);
    vstd::utf8::encode_utf8_decode_utf8(b);
}

/// Whether two texts are the same, character for character.
pub fn same_text(a: &str, b: &str) -> (res: bool)
    ensures
        res == (a@ == b@),
{
    proof {
        lemma_same_bytes_same_chars(a@, b@);
    }
    same_bytes(a.as_bytes(), b.as_bytes())
}

} // verus!
