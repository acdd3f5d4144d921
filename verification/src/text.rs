//! Text as characters and as bytes: spans given by byte offsets, the pieces
//! that they cut out, and the replacement of a piece.

use vstd::prelude::*;
use vstd::string::StringSliceAdditionalSpecFns;
use vstd::utf8::*;

verus! {

/// The length of `text` in bytes.
pub open spec fn byte_len(text: Seq<char>) -> int {
    encode_utf8(text).len() as int
}

/// Whether the byte offsets `from` and `to` cut a piece out of `text`: they
/// lie in this order inside the text, and neither falls inside a character.
pub open spec fn is_span(text: Seq<char>, from: int, to: int) -> bool {
    &&& 0 <= from <= to <= byte_len(text)
    &&& is_char_boundary(encode_utf8(text), from)
    &&& is_char_boundary(encode_utf8(text), to)
}

/// The characters of `text` between the byte offsets `from` and `to`.
pub open spec fn piece(text: Seq<char>, from: int, to: int) -> Seq<char> {
    decode_utf8(encode_utf8(text).subrange(from, to))
}

/// `text` with the piece between `from` and `to` replaced by `with`.
pub open spec fn spliced(text: Seq<char>, from: int, to: int, with: Seq<char>) -> Seq<char> {
    piece(text, 0, from) + with + piece(text, to, byte_len(text))
}

/// A boundary of the bytes is a boundary of every stretch of them that
/// starts and ends at a boundary.
proof fn lemma_boundary_inside(bytes: Seq<u8>, from: int, at: int, to: int)
    requires
        valid_utf8(bytes),
        0 <= from <= at <= to <= bytes.len(),
        is_char_boundary(bytes, from),
        is_char_boundary(bytes, at),
        is_char_boundary(bytes, to),
    ensures
        valid_utf8(bytes.subrange(from, to)),
        is_char_boundary(bytes.subrange(from, to), at - from),
{
    let tail = bytes.subrange(from, bytes.len() as int);
    valid_utf8_split(bytes, from);
    assert(is_char_boundary(tail, to - from)) by {
        if to == bytes.len() {
            is_char_boundary_start_end_of_seq(tail);
        } else {
            is_char_boundary_iff_not_is_continuation_byte(bytes, to);
            is_char_boundary_iff_not_is_continuation_byte(tail, to - from);
        }
    }
    valid_utf8_split(tail, to - from);
    let part = bytes.subrange(from, to);
    assert(part =~= tail.subrange(0, to - from));
    if at == to {
        is_char_boundary_start_end_of_seq(part);
    } else {
        is_char_boundary_iff_not_is_continuation_byte(bytes, at);
        is_char_boundary_iff_not_is_continuation_byte(part, at - from);
    }
}

/// A boundary of a piece is a boundary of the text.
pub proof fn lemma_boundary_of_piece(text: Seq<char>, from: int, at: int, to: int)
    requires
        is_span(text, from, to),
        from <= at <= to,
        is_char_boundary(encode_utf8(text).subrange(from, to), at - from),
    ensures
        is_span(text, from, at),
        is_span(text, at, to),
{
    let bytes = encode_utf8(text);
    encode_utf8_valid_utf8(text);
    lemma_boundary_inside(bytes, from, from, to);
    if at < to {
        is_char_boundary_iff_not_is_continuation_byte(bytes, at);
        is_char_boundary_iff_not_is_continuation_byte(bytes.subrange(from, to), at - from);
    }
}

/// A piece is as many bytes long as its offsets are apart.
pub proof fn lemma_piece_len(text: Seq<char>, from: int, to: int)
    requires
        is_span(text, from, to),
    ensures
        encode_utf8(piece(text, from, to)) == encode_utf8(text).subrange(from, to),
        byte_len(piece(text, from, to)) == to - from,
{
    let bytes = encode_utf8(text);
    encode_utf8_valid_utf8(text);
    lemma_boundary_inside(bytes, from, from, to);
    decode_utf8_encode_utf8(bytes.subrange(from, to));
}

/// The whole text is a piece of itself.
pub proof fn lemma_piece_whole(text: Seq<char>)
    ensures
        is_span(text, 0, byte_len(text)),
        piece(text, 0, byte_len(text)) == text,
{
    let bytes = encode_utf8(text);
    encode_utf8_valid_utf8(text);
    is_char_boundary_start_end_of_seq(bytes);
    assert(bytes.subrange(0, bytes.len() as int) =~= bytes);
    encode_utf8_decode_utf8(text);
}

/// Two pieces that meet make up the piece that spans both.
pub proof fn lemma_pieces_meet(text: Seq<char>, from: int, at: int, to: int)
    requires
        is_span(text, from, at),
        is_span(text, at, to),
    ensures
        is_span(text, from, to),
        piece(text, from, to) == piece(text, from, at) + piece(text, at, to),
{
    let bytes = encode_utf8(text);
    encode_utf8_valid_utf8(text);
    lemma_boundary_inside(bytes, from, at, to);
    let part = bytes.subrange(from, to);
    decode_utf8_split(part, at - from);
    assert(part.subrange(0, at - from) =~= bytes.subrange(from, at));
    assert(part.subrange(at - from, part.len() as int) =~= bytes.subrange(at, to));
}

/// A span cuts the text into what stands before it, the piece itself, and
/// what follows.
pub proof fn lemma_span_cuts(text: Seq<char>, from: int, to: int)
    requires
        is_span(text, from, to),
    ensures
        is_span(text, 0, from),
        is_span(text, to, byte_len(text)),
        text == piece(text, 0, from) + piece(text, from, to) + piece(
            text,
            to,
            byte_len(text),
        ),
{
    lemma_piece_whole(text);
    lemma_pieces_meet(text, 0, from, to);
    lemma_pieces_meet(text, 0, to, byte_len(text));
}

/// The bytes of two texts written one after the other are the bytes of the
/// first followed by the bytes of the second.
pub proof fn lemma_bytes_of_concat(first: Seq<char>, second: Seq<char>)
    ensures
        encode_utf8(first + second) == encode_utf8(first) + encode_utf8(second),
        byte_len(first + second) == byte_len(first) + byte_len(second),
    decreases first.len(),
{
    if first.len() == 0 {
        assert(first + second =~= second);
        assert(encode_utf8(first) + encode_utf8(second) =~= encode_utf8(second));
    } else {
        lemma_bytes_of_concat(first.drop_first(), second);
        assert((first + second).drop_first() =~= first.drop_first() + second);
        assert((first + second)[0] == first[0]);
        assert(encode_utf8(first + second) =~= encode_utf8(first) + encode_utf8(second));
    }
}

/// The length of `text` in bytes.
pub fn byte_len_of(text: &str) -> (n: usize)
    ensures
        n == byte_len(text@),
{
    text.as_bytes().len()
}

/// Whether the offsets cut a piece out of `text`.
pub fn is_span_of(text: &str, from: usize, to: usize) -> (ok: bool)
    ensures
        ok == is_span(text@, from as int, to as int),
{
    from <= to && to <= byte_len_of(text) && text.is_char_boundary(from) && text.is_char_boundary(
        to,
    )
}

/// The piece of `text` between two byte offsets.
pub(crate) fn piece_of<'a>(text: &'a str, from: usize, to: usize) -> (part: &'a str)
    requires
        is_span(text@, from as int, to as int),
    ensures
        part@ == piece(text@, from as int, to as int),
{
    let ghost bytes = text.spec_bytes();
    proof {
        encode_utf8_valid_utf8(text@);
        lemma_boundary_inside(bytes, 0, from as int, to as int);
    }
    let (head, _) = text.split_at(to);
    let (_, part) = head.split_at(from);
    proof {
        assert(part.spec_bytes() =~= bytes.subrange(from as int, to as int));
        encode_utf8_decode_utf8(part@);
    }
    part
}

/// `text` with the piece between two byte offsets replaced by `with`, or
/// nothing where the offsets cut no piece out of the text.
pub fn splice(text: &str, from: usize, to: usize, with: &str) -> (out: Option<String>)
    ensures
        out is Some <==> is_span(text@, from as int, to as int),
        out matches Some(s) ==> s@ == spliced(text@, from as int, to as int, with@),
{
    if !is_span_of(text, from, to) {
        return None;
    }
    proof {
        lemma_span_cuts(text@, from as int, to as int);
    }
    let head = piece_of(text, 0, from);
    let tail = piece_of(text, to, byte_len_of(text));
    let mut out = String::from_str(head);
    out.append(with);
    out.append(tail);
    Some(out)
}

/// Whether `c` is white space: a blank, a tab, a line break or one of the
/// other characters that Unicode lists with the property White_Space.
pub open spec fn is_whitespace(c: char) -> bool {
    let code = c as u32;
    ||| 0x09 <= code <= 0x0d
    ||| code == 0x20
    ||| code == 0x85
    ||| code == 0xa0
    ||| code == 0x1680
    ||| 0x2000 <= code <= 0x200a
    ||| code == 0x2028
    ||| code == 0x2029
    ||| code == 0x202f
    ||| code == 0x205f
    ||| code == 0x3000
}

/// The lower-case form of `text`: what `str::to_lowercase` returns.
pub uninterp spec fn lowercase(text: Seq<char>) -> Seq<char>;

/// Whether `c` is white space.
pub fn is_whitespace_char(c: char) -> (white: bool)
    ensures
        white == is_whitespace(c),
{
    let code = c as u32;
    (0x09 <= code && code <= 0x0d) || code == 0x20 || code == 0x85 || code == 0xa0 || code
        == 0x1680 || (0x2000 <= code && code <= 0x200a) || code == 0x2028 || code == 0x2029
        || code == 0x202f || code == 0x205f || code == 0x3000
}

/// Calls `str::to_lowercase`. The result depends on the text alone, and the
/// contract gives it the name `lowercase` without saying how letters map.
#[verifier::external_body]
pub(crate) fn str_to_lowercase(text: &str) -> (lower: String)
    ensures
        lower@ == lowercase(text@),
{
    text.to_lowercase()
}

/// How many characters of `text` stay when the white space at its end is
/// taken off.
pub open spec fn kept(text: Seq<char>) -> nat
    decreases text.len(),
{
    if text.len() > 0 && is_whitespace(text.last()) {
        kept(text.drop_last())
    } else {
        text.len()
    }
}

/// `text` without the white space at its end.
pub open spec fn trimmed(text: Seq<char>) -> Seq<char> {
    text.take(kept(text) as int)
}

/// What trimming takes off is white space, and what stays does not end in
/// white space.
pub proof fn lemma_kept(text: Seq<char>)
    ensures
        kept(text) <= text.len(),
        forall|i: int| kept(text) <= i < text.len() ==> is_whitespace(#[trigger] text[i]),
        kept(text) > 0 ==> !is_whitespace(text[kept(text) - 1]),
        text == trimmed(text) + text.skip(kept(text) as int),
    decreases text.len(),
{
    if text.len() > 0 && is_whitespace(text.last()) {
        let head = text.drop_last();
        lemma_kept(head);
        assert forall|i: int| kept(text) <= i < text.len() implies is_whitespace(
            #[trigger] text[i],
        ) by {
            if i < head.len() {
                assert(head[i] == text[i]);
            }
        }
        if kept(text) > 0 {
            assert(head[kept(text) - 1] == text[kept(text) - 1]);
        }
    }
    assert(text =~= trimmed(text) + text.skip(kept(text) as int));
}

/// Trimming looks at the end of the text only.
proof fn lemma_kept_of_prefix(text: Seq<char>, k: int)
    requires
        0 <= k <= text.len(),
        forall|i: int| k <= i < text.len() ==> is_whitespace(#[trigger] text[i]),
    ensures
        kept(text) == kept(text.take(k)),
    decreases text.len() - k,
{
    if k < text.len() {
        assert(is_whitespace(text[text.len() - 1]));
        assert(text.drop_last().take(k) =~= text.take(k));
        lemma_kept_of_prefix(text.drop_last(), k);
    } else {
        assert(text.take(k) =~= text);
    }
}

/// Where one text ends and the next begins, no character is cut.
pub proof fn lemma_boundary_between(first: Seq<char>, second: Seq<char>)
    ensures
        is_char_boundary(encode_utf8(first + second), byte_len(first)),
    decreases first.len(),
{
    let whole = first + second;
    let bytes = encode_utf8(whole);
    encode_utf8_valid_utf8(whole);
    if first.len() > 0 {
        lemma_bytes_of_concat(first, second);
        lemma_boundary_between(first.drop_first(), second);
        assert(whole.drop_first() =~= first.drop_first() + second);
        encode_utf8_first_scalar(whole);
        encode_utf8_first_scalar(first);
        assert(pop_first_scalar(bytes) =~= encode_utf8(whole.drop_first()));
        assert(encode_utf8(first) =~= encode_scalar(first[0] as u32) + encode_utf8(
            first.drop_first(),
        ));
    }
}

/// The length in bytes of `text` without the white space at its end.
pub fn trimmed_byte_len(text: &str) -> (n: usize)
    ensures
        n == byte_len(trimmed(text@)),
        n <= byte_len(text@),
{
    let mut k: usize = text.unicode_len();
    while k > 0 && is_whitespace_char(text.get_char(k - 1))
        invariant
            k <= text@.len(),
            forall|i: int| k <= i < text@.len() ==> is_whitespace(#[trigger] text@[i]),
        decreases k,
    {
        k -= 1;
    }
    proof {
        lemma_kept_of_prefix(text@, k as int);
        assert(kept(text@.take(k as int)) == k) by {
            if k > 0 {
                assert(text@.take(k as int).last() == text@[k - 1]);
            }
        }
        lemma_kept(text@);
        lemma_bytes_of_concat(trimmed(text@), text@.skip(kept(text@) as int));
    }
    let stays = text.substring_char(0, k);
    byte_len_of(stays)
}

/// The end of a trimmed piece is a place at which the text can be cut.
pub proof fn lemma_trimmed_piece_is_span(text: Seq<char>, from: int, to: int)
    requires
        is_span(text, from, to),
    ensures
        byte_len(trimmed(piece(text, from, to))) <= to - from,
        is_span(text, from, from + byte_len(trimmed(piece(text, from, to)))),
        is_span(text, from + byte_len(trimmed(piece(text, from, to))), to),
        piece(text, from, from + byte_len(trimmed(piece(text, from, to)))) == trimmed(
            piece(text, from, to),
        ),
{
    let part = piece(text, from, to);
    let stays = trimmed(part);
    let rest = part.skip(kept(part) as int);
    lemma_kept(part);
    lemma_piece_len(text, from, to);
    lemma_bytes_of_concat(stays, rest);
    lemma_boundary_between(stays, rest);
    let at = from + byte_len(stays);
    lemma_boundary_of_piece(text, from, at, to);
    lemma_pieces_meet(text, from, at, to);
    lemma_piece_len(text, from, at);
    assert(piece(text, from, at) == stays) by {
        let bytes = encode_utf8(text);
        assert(bytes.subrange(from, at) =~= encode_utf8(part).subrange(0, byte_len(stays)));
        assert(encode_utf8(part).subrange(0, byte_len(stays)) =~= encode_utf8(stays));
        encode_utf8_decode_utf8(stays);
    }
}

/// Three texts written one after the other can be cut where they meet, and
/// the cuts give the three texts back.
pub proof fn lemma_cut_where_joined(first: Seq<char>, second: Seq<char>, third: Seq<char>)
    ensures
        byte_len(first + second + third) == byte_len(first) + byte_len(second) + byte_len(third),
        is_span(first + second + third, 0, byte_len(first)),
        is_span(
            first + second + third,
            byte_len(first),
            byte_len(first) + byte_len(second),
        ),
        is_span(
            first + second + third,
            byte_len(first) + byte_len(second),
            byte_len(first + second + third),
        ),
        piece(first + second + third, 0, byte_len(first)) == first,
        piece(first + second + third, byte_len(first), byte_len(first) + byte_len(second))
            == second,
        piece(
            first + second + third,
            byte_len(first) + byte_len(second),
            byte_len(first + second + third),
        ) == third,
{
    let whole = first + second + third;
    let bytes = encode_utf8(whole);
    let a = byte_len(first);
    let b = a + byte_len(second);
    lemma_bytes_of_concat(first + second, third);
    lemma_bytes_of_concat(first, second);
    assert(whole =~= first + (second + third));
    lemma_bytes_of_concat(first, second + third);
    lemma_bytes_of_concat(second, third);
    lemma_boundary_between(first, second + third);
    lemma_boundary_between(first + second, third);
    lemma_piece_whole(whole);
    assert(bytes.subrange(0, a) =~= encode_utf8(first));
    assert(bytes.subrange(a, b) =~= encode_utf8(second));
    assert(bytes.subrange(b, bytes.len() as int) =~= encode_utf8(third));
    encode_utf8_decode_utf8(first);
    encode_utf8_decode_utf8(second);
    encode_utf8_decode_utf8(third);
}

/// Replacing a piece leaves the text around it as it was: what stood in
/// front of the piece still stands there, the replacement follows it, and
/// what stood behind the piece stands behind the replacement.
pub proof fn lemma_splice_keeps_surroundings(text: Seq<char>, from: int, to: int, with: Seq<char>)
    requires
        is_span(text, from, to),
    ensures
        byte_len(spliced(text, from, to, with)) == byte_len(text) - (to - from) + byte_len(with),
        is_span(spliced(text, from, to, with), 0, from),
        is_span(spliced(text, from, to, with), from, from + byte_len(with)),
        is_span(
            spliced(text, from, to, with),
            from + byte_len(with),
            byte_len(spliced(text, from, to, with)),
        ),
        piece(spliced(text, from, to, with), 0, from) == piece(text, 0, from),
        piece(spliced(text, from, to, with), from, from + byte_len(with)) == with,
        piece(
            spliced(text, from, to, with),
            from + byte_len(with),
            byte_len(spliced(text, from, to, with)),
        ) == piece(text, to, byte_len(text)),
{
    lemma_span_cuts(text, from, to);
    lemma_piece_len(text, 0, from);
    lemma_piece_len(text, to, byte_len(text));
    lemma_cut_where_joined(piece(text, 0, from), with, piece(text, to, byte_len(text)));
}

/// Nothing is taken off a text that does not end in white space.
pub proof fn lemma_nothing_to_trim(text: Seq<char>)
    requires
        text.len() > 0,
        !is_whitespace(text.last()),
    ensures
        trimmed(text) == text,
{
    assert(text.take(text.len() as int) =~= text);
}

/// Where the whole of a text is replaced, the replacement is all that is
/// left.
pub proof fn lemma_splice_whole(text: Seq<char>, with: Seq<char>)
    ensures
        is_span(text, 0, byte_len(text)),
        spliced(text, 0, byte_len(text), with) == with,
{
    lemma_piece_whole(text);
    let bytes = encode_utf8(text);
    assert(bytes.subrange(0, 0) =~= Seq::<u8>::empty());
    assert(bytes.subrange(bytes.len() as int, bytes.len() as int) =~= Seq::<u8>::empty());
    assert(spliced(text, 0, byte_len(text), with) =~= with);
}

} // verus!
