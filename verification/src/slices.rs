//! Cutting a text into the words that its spaces separate.

use vstd::prelude::*;
use vstd::string::StringSliceAdditionalSpecFns;

verus! {

broadcast use vstd::seq::group_seq_axioms;

/// The byte that separates words.
pub const SPACE: u8 = 32;

/// The offset of the first space at or after `start`, or the text's length
/// if there is none.
pub open spec fn space_from(text: Seq<u8>, start: int) -> int
    decreases text.len() - start,
{
    if start < 0 || start >= text.len() {
        text.len() as int
    } else if text[start] == SPACE {
        start
    } else {
        space_from(text, start + 1)
    }
}

/// The first space from `start` on lies between `start` and the text's end,
/// and no space stands before it.
pub proof fn lemma_space_from(text: Seq<u8>, start: int)
    requires
        0 <= start <= text.len(),
    ensures
        start <= space_from(text, start) <= text.len(),
        space_from(text, start) < text.len() ==> text[space_from(text, start)] == SPACE,
        forall|i: int| start <= i < space_from(text, start) ==> text[i] != SPACE,
    decreases text.len() - start,
{
    if start < text.len() && text[start] != SPACE {
        lemma_space_from(text, start + 1);
    }
}

/// The first word of a text: what stands before its first space, or all of
/// it if it has none.
pub open spec fn first_word_of(text: Seq<u8>) -> Seq<u8> {
    text.subrange(0, space_from(text, 0))
}

/// What follows the first word and the space behind it.
pub open spec fn after_first_word(text: Seq<u8>) -> Seq<u8> {
    let end = space_from(text, 0);
    if 0 <= end < text.len() {
        text.subrange(end + 1, text.len() as int)
    } else {
        Seq::empty()
    }
}

/// The words of a text: the pieces between its spaces, in order, the empty
/// ones too. A text that ends in a space has no word behind that space, and
/// the empty text has no words.
pub open spec fn words(text: Seq<u8>) -> Seq<Seq<u8>>
    decreases text.len(),
{
    if text.len() == 0 {
        Seq::empty()
    } else {
        seq![first_word_of(text)] + words(after_first_word(text))
    }
}

/// The offset of the first space in `text`, or its length if there is none.
fn first_space(text: &[u8]) -> (end: usize)
    ensures
        end == space_from(text@, 0),
        end <= text@.len(),
{
    let mut i: usize = 0;
    while i < text.len()
        invariant
            i <= text@.len(),
            space_from(text@, 0) == space_from(text@, i as int),
        decreases text@.len() - i,
    {
        if text[i] == SPACE {
            return i;
        }
        i += 1;
    }
    i
}

/// The first word of `s` and its length in bytes: the word ends before the
/// first space, or at the end of the text.
pub fn first_word(s: &str) -> (res: (&str, usize))
    ensures
        res.1 == space_from(s.spec_bytes(), 0),
        res.0.spec_bytes() == first_word_of(s.spec_bytes()),
{
    let raw = s.as_bytes();
    let end = first_space(raw);
    proof {
        let bytes = s.spec_bytes();
        lemma_space_from(bytes, 0);
        vstd::utf8::encode_utf8_valid_utf8(s@);
        if end < bytes.len() {
            assert(!vstd::utf8::is_continuation_byte(bytes[end as int]));
            vstd::utf8::is_char_boundary_iff_not_is_continuation_byte(bytes, end as int);
        } else {
            vstd::utf8::is_char_boundary_start_end_of_seq(bytes);
        }
    }
    let (word, _) = s.split_at(end);
    (word, end)
}

/// In well-formed text that begins with a space, the second byte begins a
/// character.
proof fn lemma_boundary_after_space(bytes: Seq<u8>)
    requires
        vstd::utf8::valid_utf8(bytes),
        bytes.len() > 0,
        bytes[0] == SPACE,
    ensures
        vstd::utf8::is_char_boundary(bytes, 1),
{
    reveal_with_fuel(vstd::utf8::is_char_boundary, 2);
    reveal_with_fuel(vstd::utf8::valid_utf8, 2);
}

/// The words of `input`, in order.
pub fn split_words<'a>(input: &'a str) -> (res: Vec<&'a str>)
    ensures
        res@.len() == words(input.spec_bytes()).len(),
        forall|i: int|
            0 <= i < res@.len() ==> (#[trigger] res@[i]).spec_bytes() == words(
                input.spec_bytes(),
            )[i],
{
    let mut res: Vec<&'a str> = Vec::new();
    let mut rest: &'a str = input;
    while rest.as_bytes().len() > 0
        invariant
            res@.len() + words(rest.spec_bytes()).len() == words(input.spec_bytes()).len(),
            forall|i: int|
                0 <= i < res@.len() ==> (#[trigger] res@[i]).spec_bytes() == words(
                    input.spec_bytes(),
                )[i],
            forall|i: int|
                0 <= i < words(rest.spec_bytes()).len() ==> #[trigger] words(rest.spec_bytes())[i]
                    == words(input.spec_bytes())[res@.len() + i],
        decreases rest.spec_bytes().len(),
    {
        let ghost before = rest.spec_bytes();
        let ghost done = res@.len();
        let (word, end) = first_word(rest);
        proof {
            lemma_space_from(before, 0);
            vstd::utf8::encode_utf8_valid_utf8(rest@);
            if end < before.len() {
                assert(!vstd::utf8::is_continuation_byte(before[end as int]));
                vstd::utf8::is_char_boundary_iff_not_is_continuation_byte(before, end as int);
            } else {
                vstd::utf8::is_char_boundary_start_end_of_seq(before);
            }
        }
        let (_, tail) = rest.split_at(end);
        let next: &'a str = if tail.as_bytes().len() > 0 {
            proof {
                vstd::utf8::encode_utf8_valid_utf8(tail@);
                lemma_boundary_after_space(tail.spec_bytes());
            }
            let (_, behind) = tail.split_at(1);
            assert(behind.spec_bytes() =~= before.subrange(end + 1, before.len() as int));
            behind
        } else {
            tail
        };
        proof {
            assert(next.spec_bytes() =~= after_first_word(before));
            assert(words(before) =~= seq![first_word_of(before)] + words(after_first_word(before)));
            assert(words(before)[0] == first_word_of(before));
            assert forall|i: int| 0 <= i < words(next.spec_bytes()).len() implies #[trigger] words(
                next.spec_bytes(),
            )[i] == words(input.spec_bytes())[done + 1 + i] by {
                assert(words(before)[i + 1] == words(next.spec_bytes())[i]);
            }
        }
        res.push(word);
        rest = next;
    }
    res
}

} // verus!
