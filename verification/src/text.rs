//! Operations on UTF-8 text and on raw bytes.

use vstd::prelude::*;
use vstd::utf8::{decode_utf8, encode_utf8, encode_utf8_decode_utf8, valid_utf8};

verus! {

/// Lexicographic order on bytes.
pub open spec fn bytes_before(a: Seq<u8>, b: Seq<u8>) -> bool
    decreases a.len(),
{
    if b.len() == 0 {
        false
    } else if a.len() == 0 {
        true
    } else if a[0] != b[0] {
        a[0] < b[0]
    } else {
        bytes_before(a.drop_first(), b.drop_first())
    }
}

/// The order of text: lexicographic on its UTF-8 encoding.
pub open spec fn text_before(a: Seq<char>, b: Seq<char>) -> bool {
    bytes_before(encode_utf8(a), encode_utf8(b))
}

proof fn lemma_bytes_before_irreflexive(a: Seq<u8>)
    ensures
        !bytes_before(a, a),
    decreases a.len(),
{
    if a.len() > 0 {
        lemma_bytes_before_irreflexive(a.drop_first());
    }
}

proof fn lemma_bytes_before_transitive(a: Seq<u8>, b: Seq<u8>, c: Seq<u8>)
    requires
        bytes_before(a, b),
        bytes_before(b, c),
    ensures
        bytes_before(a, c),
    decreases a.len(),
{
    if a.len() > 0 && a[0] == b[0] && b[0] == c[0] {
        lemma_bytes_before_transitive(a.drop_first(), b.drop_first(), c.drop_first());
    }
}

proof fn lemma_bytes_before_total(a: Seq<u8>, b: Seq<u8>)
    requires
        !bytes_before(a, b),
        !bytes_before(b, a),
    ensures
        a == b,
    decreases a.len(),
{
    if a.len() > 0 && b.len() > 0 {
        lemma_bytes_before_total(a.drop_first(), b.drop_first());
        assert(a =~= seq![a[0]] + a.drop_first());
        assert(b =~= seq![b[0]] + b.drop_first());
    } else {
        assert(a =~= b);
    }
}

/// Text that has the same encoding is the same text.
pub proof fn lemma_encoding_injective(a: Seq<char>, b: Seq<char>)
    requires
        encode_utf8(a) == encode_utf8(b),
    ensures
        a == b,
{
    encode_utf8_decode_utf8(a);
    encode_utf8_decode_utf8(b);
}

/// The order of text is a strict total order.
pub proof fn text_order_is_strict_and_total(a: Seq<char>, b: Seq<char>, c: Seq<char>)
    ensures
        !text_before(a, a),
        text_before(a, b) && text_before(b, c) ==> text_before(a, c),
        text_before(a, b) || text_before(b, a) || a == b,
{
    lemma_bytes_before_irreflexive(encode_utf8(a));
    if text_before(a, b) && text_before(b, c) {
        lemma_bytes_before_transitive(encode_utf8(a), encode_utf8(b), encode_utf8(c));
    }
    if !text_before(a, b) && !text_before(b, a) {
        lemma_bytes_before_total(encode_utf8(a), encode_utf8(b));
        lemma_encoding_injective(a, b);
    }
}

/// Whether `a` comes before `b`.
pub fn is_text_before(a: &str, b: &str) -> (r: bool)
    ensures
        r == text_before(a@, b@),
{
    let x = a.as_bytes();
    let y = b.as_bytes();
    let mut i: usize = 0;
    assert(x@.skip(0) =~= x@);
    assert(y@.skip(0) =~= y@);
    while i < x.len() && i < y.len() && x[i] == y[i]
        invariant
            i <= x@.len(),
            i <= y@.len(),
            bytes_before(x@, y@) == bytes_before(x@.skip(i as int), y@.skip(i as int)),
        decreases x@.len() - i,
    {
        assert(x@.skip(i as int).drop_first() =~= x@.skip(i + 1));
        assert(y@.skip(i as int).drop_first() =~= y@.skip(i + 1));
        i += 1;
    }
    if i >= y.len() {
        false
    } else if i >= x.len() {
        true
    } else {
        assert(x@.skip(i as int)[0] == x@[i as int]);
        assert(y@.skip(i as int)[0] == y@[i as int]);
        x[i] < y[i]
    }
}

/// Whether `a` and `b` are the same text.
pub fn same_text(a: &str, b: &str) -> (r: bool)
    ensures
        r == (a@ == b@),
{
    let x = a.as_bytes();
    let y = b.as_bytes();
    if x.len() != y.len() {
        return false;
    }
    let mut i: usize = 0;
    while i < x.len()
        invariant
            x@.len() == y@.len(),
            i <= x@.len(),
            forall|j: int| 0 <= j < i ==> x@[j] == y@[j],
            x@ == encode_utf8(a@),
            y@ == encode_utf8(b@),
        decreases x@.len() - i,
    {
        if x[i] != y[i] {
            return false;
        }
        i += 1;
    }
    proof {
        assert(x@ =~= y@);
        lemma_encoding_injective(a@, b@);
    }
    true
}

/// Whether `text` is one of `list`.
pub fn contains_text(list: &Vec<String>, text: &str) -> (r: bool)
    ensures
        r == exists|i: int| 0 <= i < list@.len() && #[trigger] list@[i]@ == text@,
        r == texts(list@).contains(text@),
{
    let mut i: usize = 0;
    while i < list.len()
        invariant
            i <= list@.len(),
            forall|j: int| 0 <= j < i ==> #[trigger] list@[j]@ != text@,
        decreases list@.len() - i,
    {
        if same_text(list[i].as_str(), text) {
            assert(texts(list@)[i as int] == text@);
            return true;
        }
        i += 1;
    }
    assert(forall|j: int| 0 <= j < list@.len() ==> #[trigger] texts(list@)[j] == list@[j]@);
    false
}

/// The views of a list of strings.
pub open spec fn texts(list: Seq<String>) -> Seq<Seq<char>> {
    list.map_values(|s: String| s@)
}

/// The view of an optional string.
pub open spec fn optional_text(text: Option<String>) -> Option<Seq<char>> {
    match text {
        Some(s) => Some(s@),
        None => None,
    }
}

/// A copy of an optional string.
pub fn copy_optional(text: &Option<String>) -> (r: Option<String>)
    ensures
        optional_text(r) == optional_text(*text),
{
    match text {
        Some(s) => Some(s.clone()),
        None => None,
    }
}

/// A copy of a list of strings.
pub fn copy_texts(list: &Vec<String>) -> (r: Vec<String>)
    ensures
        texts(r@) == texts(list@),
{
    let mut r: Vec<String> = Vec::new();
    let mut i: usize = 0;
    while i < list.len()
        invariant
            i <= list@.len(),
            r@.len() == i,
            forall|j: int| 0 <= j < i ==> #[trigger] r@[j]@ == list@[j]@,
        decreases list@.len() - i,
    {
        r.push(list[i].clone());
        i += 1;
    }
    assert(texts(r@) =~= texts(list@));
    r
}

/// A character with the Unicode property `White_Space`.
pub open spec fn is_white_space(c: char) -> bool {
    ||| '\u{9}' <= c <= '\u{d}'
    ||| c == '\u{20}' || c == '\u{85}' || c == '\u{a0}' || c == '\u{1680}'
    ||| '\u{2000}' <= c <= '\u{200a}'
    ||| c == '\u{2028}' || c == '\u{2029}' || c == '\u{202f}' || c == '\u{205f}' || c == '\u{3000}'
}

/// `text` without the white space at its start.
pub open spec fn trimmed_start(text: Seq<char>) -> Seq<char>
    decreases text.len(),
{
    if text.len() > 0 && is_white_space(text.first()) {
        trimmed_start(text.drop_first())
    } else {
        text
    }
}

/// `text` without the white space at its end.
pub open spec fn trimmed_end(text: Seq<char>) -> Seq<char>
    decreases text.len(),
{
    if text.len() > 0 && is_white_space(text.last()) {
        trimmed_end(text.drop_last())
    } else {
        text
    }
}

/// `text` without the white space at both ends.
pub open spec fn trimmed(text: Seq<char>) -> Seq<char> {
    trimmed_end(trimmed_start(text))
}

/// `str::trim`: the text without the characters of property `White_Space` at its two ends.
#[verifier::external_body]
pub(crate) fn trim(text: &str) -> (r: &str)
    ensures
        r@ == trimmed(text@),
{
    text.trim()
}

/// `str::starts_with` for a string pattern: whether `prefix` is a prefix of `text`.
#[verifier::external_body]
pub(crate) fn starts_with(text: &str, prefix: &str) -> (r: bool)
    ensures
        r == prefix@.is_prefix_of(text@),
{
    text.starts_with(prefix)
}

/// `str::split_once` for a character: the text before and after the first `separator`,
/// or nothing where the text does not hold it.
#[verifier::external_body]
pub(crate) fn split_once(text: &str, separator: char) -> (r: Option<(&str, &str)>)
    ensures
        r is None <==> !text@.contains(separator),
        r matches Some((before, after)) ==> text@ == before@.push(separator) + after@
            && !before@.contains(separator),
{
    text.split_once(separator)
}

/// `std::str::from_utf8`: the text that `bytes` encode, or nothing where they are not UTF-8.
#[verifier::external_body]
pub(crate) fn utf8_text(bytes: &[u8]) -> (r: Option<&str>)
    ensures
        r is Some <==> valid_utf8(bytes@),
        r matches Some(text) ==> text@ == decode_utf8(bytes@),
{
    std::str::from_utf8(bytes).ok()
}

/// What `String::from_utf8_lossy` makes of bytes.
pub uninterp spec fn lossy_text(bytes: Seq<u8>) -> Seq<char>;

/// `String::from_utf8_lossy`: the text that `bytes` encode, with a replacement character
/// for what is not UTF-8. Bytes that are UTF-8 are decoded as they are.
#[verifier::external_body]
pub(crate) fn utf8_text_lossy(bytes: &[u8]) -> (r: String)
    ensures
        r@ == lossy_text(bytes@),
        valid_utf8(bytes@) ==> r@ == decode_utf8(bytes@),
{
    String::from_utf8_lossy(bytes).into_owned()
}

/// What the `Debug` format of a string is.
pub uninterp spec fn debug_text(text: Seq<char>) -> Seq<char>;

/// The `Debug` format of a `str`: the text in quotes, with escapes.
#[verifier::external_body]
pub(crate) fn debug_format(text: &str) -> (r: String)
    ensures
        r@ == debug_text(text@),
{
    format!("{text:?}")
}

/// The part of `text` before the first `stop`; all of it where it does not hold `stop`.
pub open spec fn text_until(text: Seq<char>, stop: char) -> Seq<char>
    decreases text.len(),
{
    if text.len() == 0 || text[0] == stop {
        seq![]
    } else {
        seq![text[0]] + text_until(text.drop_first(), stop)
    }
}

/// The pieces of `text` that end in `terminator`, without it, and what follows the last of
/// them where that is not empty.
pub open spec fn terminated_pieces(text: Seq<char>, terminator: char) -> Seq<Seq<char>>
    decreases text.len(),
{
    let piece = text_until(text, terminator);
    if piece.len() < text.len() {
        seq![piece] + terminated_pieces(text.skip(piece.len() as int + 1), terminator)
    } else if text.len() == 0 {
        seq![]
    } else {
        seq![text]
    }
}

/// How a text splits at the first `stop`.
pub proof fn lemma_text_until(text: Seq<char>, stop: char)
    ensures
        text_until(text, stop).len() <= text.len(),
        text_until(text, stop) == text.take(text_until(text, stop).len() as int),
        !text_until(text, stop).contains(stop),
        text_until(text, stop).len() < text.len() ==> text[text_until(text, stop).len() as int]
            == stop,
        text_until(text, stop).len() < text.len() <==> text.contains(stop),
    decreases text.len(),
{
    let until = text_until(text, stop);
    if text.len() > 0 && text[0] != stop {
        let rest = text.drop_first();
        lemma_text_until(rest, stop);
        let inner = text_until(rest, stop);
        assert(until =~= text.take(until.len() as int)) by {
            assert forall|i: int| 0 <= i < until.len() implies until[i] == text[i] by {
                if i > 0 {
                    assert(until[i] == inner[i - 1]);
                    assert(inner[i - 1] == rest.take(inner.len() as int)[i - 1]);
                }
            }
        }
        assert forall|i: int| 0 <= i < until.len() implies until[i] != stop by {
            if i > 0 {
                assert(until[i] == inner[i - 1]);
                assert(inner.contains(inner[i - 1]));
            }
        }
        if rest.contains(stop) {
            let k = choose|k: int| 0 <= k < rest.len() && rest[k] == stop;
            assert(text[k + 1] == stop);
        }
        if text.contains(stop) {
            let k = choose|k: int| 0 <= k < text.len() && text[k] == stop;
            assert(rest[k - 1] == stop);
        }
    } else if text.len() > 0 {
        assert(text.contains(text[0]));
        assert(until =~= text.take(0));
    } else {
        assert(until =~= text.take(0));
    }
}

/// A split at a `stop` that the part before does not hold is the split at the first one.
pub proof fn lemma_split_is_first(text: Seq<char>, before: Seq<char>, stop: char, after: Seq<char>)
    requires
        text == before.push(stop) + after,
        !before.contains(stop),
    ensures
        text_until(text, stop) == before,
        text.skip(before.len() as int + 1) == after,
        before.len() < text.len(),
    decreases before.len(),
{
    assert(text.skip(before.len() as int + 1) =~= after);
    if before.len() > 0 {
        assert(before.contains(before[0]));
        assert forall|c: char| before.drop_first().contains(c) implies before.contains(c) by {
            let k = choose|k: int| 0 <= k < before.drop_first().len() && before.drop_first()[k] == c;
            assert(before[k + 1] == c);
        }
        assert(text.drop_first() =~= before.drop_first().push(stop) + after);
        lemma_split_is_first(text.drop_first(), before.drop_first(), stop, after);
        assert(text_until(text, stop) =~= before);
    } else {
        assert(text[0] == stop);
        assert(text_until(text, stop) =~= before);
    }
}

/// The pieces of `text` that end in `terminator`, in order.
pub fn split_terminated(text: &str, terminator: char) -> (r: Vec<String>)
    ensures
        texts(r@) == terminated_pieces(text@, terminator),
{
    let mut pieces: Vec<String> = Vec::new();
    let mut rest: &str = text;
    assert(texts(pieces@) =~= seq![]);
    loop
        invariant
            texts(pieces@) + terminated_pieces(rest@, terminator) == terminated_pieces(
                text@,
                terminator,
            ),
        decreases rest@.len(),
    {
        match split_once(rest, terminator) {
            Some((piece, after)) => {
                let ghost earlier = pieces@;
                pieces.push(piece.to_owned());
                proof {
                    lemma_split_is_first(rest@, piece@, terminator, after@);
                    assert(texts(pieces@) =~= texts(earlier).push(piece@));
                    assert(texts(pieces@) + terminated_pieces(after@, terminator) =~= texts(earlier)
                        + (seq![piece@] + terminated_pieces(after@, terminator)));
                }
                rest = after;
            },
            None => {
                proof {
                    lemma_text_until(rest@, terminator);
                }
                if !rest.is_empty() {
                    let ghost earlier = pieces@;
                    pieces.push(rest.to_owned());
                    assert(texts(pieces@) =~= texts(earlier) + seq![rest@]);
                }
                assert(texts(pieces@) =~= terminated_pieces(text@, terminator));
                return pieces;
            },
        }
    }
}

/// A character at which no text is trimmed stays, and the blanks, tabs and line ends go.
pub proof fn blanks_are_white_space_and_visible_characters_are_not(c: char)
    ensures
        c == ' ' || c == '\t' || c == '\n' || c == '\r' ==> is_white_space(c),
        '!' <= c <= '~' ==> !is_white_space(c),
{
}

/// Trimming takes off all the white space at the two ends, and nothing else: whatever stands
/// between the first and the last character that is none is kept.
pub proof fn trimming_takes_white_space_off_the_ends(
    before: Seq<char>,
    kept: Seq<char>,
    after: Seq<char>,
)
    requires
        forall|i: int| 0 <= i < before.len() ==> is_white_space(#[trigger] before[i]),
        forall|i: int| 0 <= i < after.len() ==> is_white_space(#[trigger] after[i]),
        kept.len() > 0 ==> !is_white_space(kept.first()) && !is_white_space(kept.last()),
    ensures
        trimmed(before + kept + after) == kept,
    decreases before.len() + after.len(),
{
    let text = before + kept + after;
    if before.len() > 0 {
        assert(text.first() == before[0]);
        assert(text.drop_first() =~= before.drop_first() + kept + after);
        assert forall|i: int| 0 <= i < before.drop_first().len() implies is_white_space(
            #[trigger] before.drop_first()[i],
        ) by {
            assert(before.drop_first()[i] == before[i + 1]);
        }
        trimming_takes_white_space_off_the_ends(before.drop_first(), kept, after);
    } else if kept.len() > 0 {
        assert(text.first() == kept.first());
        assert(trimmed_start(text) == text);
        assert(text =~= kept + after);
        lemma_trimmed_end(kept, after);
    } else if after.len() > 0 {
        assert(text.first() == after[0]);
        assert(text.drop_first() =~= before + kept + after.drop_first());
        assert forall|i: int| 0 <= i < after.drop_first().len() implies is_white_space(
            #[trigger] after.drop_first()[i],
        ) by {
            assert(after.drop_first()[i] == after[i + 1]);
        }
        trimming_takes_white_space_off_the_ends(before, kept, after.drop_first());
    } else {
        assert(text =~= kept);
    }
}

proof fn lemma_trimmed_end(kept: Seq<char>, after: Seq<char>)
    requires
        forall|i: int| 0 <= i < after.len() ==> is_white_space(#[trigger] after[i]),
        kept.len() > 0,
        !is_white_space(kept.last()),
    ensures
        trimmed_end(kept + after) == kept,
    decreases after.len(),
{
    if after.len() > 0 {
        assert((kept + after).last() == after.last());
        assert((kept + after).drop_last() =~= kept + after.drop_last());
        assert forall|i: int| 0 <= i < after.drop_last().len() implies is_white_space(
            #[trigger] after.drop_last()[i],
        ) by {
            assert(after.drop_last()[i] == after[i]);
        }
        lemma_trimmed_end(kept, after.drop_last());
    } else {
        assert(kept + after =~= kept);
    }
}

/// The order of text is that of a dictionary over its bytes: behind a common beginning the
/// smaller byte comes first, and a text comes before those that go on behind it.
pub proof fn text_is_ordered_like_a_dictionary(
    a: Seq<char>,
    b: Seq<char>,
    common: Seq<u8>,
    rest_a: Seq<u8>,
    rest_b: Seq<u8>,
)
    requires
        encode_utf8(a) == common + rest_a,
        encode_utf8(b) == common + rest_b,
    ensures
        rest_a.len() > 0 && rest_b.len() > 0 && rest_a[0] < rest_b[0] ==> text_before(a, b),
        rest_a.len() == 0 && rest_b.len() > 0 ==> text_before(a, b),
{
    lemma_dictionary(common, rest_a, rest_b);
}

proof fn lemma_dictionary(common: Seq<u8>, a: Seq<u8>, b: Seq<u8>)
    ensures
        a.len() > 0 && b.len() > 0 && a[0] < b[0] ==> bytes_before(common + a, common + b),
        a.len() == 0 && b.len() > 0 ==> bytes_before(common + a, common + b),
    decreases common.len(),
{
    if common.len() > 0 {
        lemma_dictionary(common.drop_first(), a, b);
        assert((common + a).drop_first() =~= common.drop_first() + a);
        assert((common + b).drop_first() =~= common.drop_first() + b);
    } else {
        assert(common + a =~= a);
        assert(common + b =~= b);
    }
}

/// A text comes before another one where [`is_text_before`] says so; two texts are the same where
/// [`same_text`] does.
pub proof fn texts_are_compared_as_they_are_ordered(a: &str, b: &str, before: bool, same: bool)
    requires
        call_ensures(is_text_before, (a, b), before),
        call_ensures(same_text, (a, b), same),
    ensures
        before == text_before(a@, b@),
        same == (a@ == b@),
        !(before && same),
{
    text_order_is_strict_and_total(a@, a@, a@);
}

/// A list holds a text where one of its items is that text.
pub proof fn listed_texts_are_found(list: &Vec<String>, text: &str, found: bool)
    requires
        call_ensures(contains_text, (list, text), found),
    ensures
        found <==> texts(list@).contains(text@),
{
}

/// Pieces that hold no terminator, each with one behind it, are split into these pieces; so is
/// what follows the last of them, where that is not empty.
pub proof fn terminated_pieces_are_split(first: Seq<char>, terminator: char, rest: Seq<char>)
    requires
        !first.contains(terminator),
    ensures
        terminated_pieces(first.push(terminator) + rest, terminator) == seq![first]
            + terminated_pieces(rest, terminator),
        first.len() > 0 ==> terminated_pieces(first, terminator) == seq![first],
        terminated_pieces(seq![], terminator) == Seq::<Seq<char>>::empty(),
{
    lemma_split_is_first(first.push(terminator) + rest, first, terminator, rest);
    lemma_text_until(first, terminator);
    assert(text_until(first, terminator).len() == first.len());
}

/// A text is split by the pieces that it is made of.
pub proof fn texts_are_split_at_their_terminators(text: &str, terminator: char, r: Vec<String>)
    requires
        call_ensures(split_terminated, (text, terminator), r),
    ensures
        texts(r@) == terminated_pieces(text@, terminator),
{
}

/// A copy of a text or of a list of texts is the same.
pub proof fn texts_are_copied(
    text: &Option<String>,
    copy: Option<String>,
    list: &Vec<String>,
    copies: Vec<String>,
)
    requires
        call_ensures(copy_optional, (text,), copy),
        call_ensures(copy_texts, (list,), copies),
    ensures
        copy is Some <==> *text is Some,
        *text matches Some(text) ==> copy->0@ == text@,
        texts(copies@) == texts(list@),
{
    if let Some(inner) = *text {
        assert(optional_text(*text) == Some(inner@));
    }
}

}
