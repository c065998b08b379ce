//! Paths of the operating system as text, and back.
//!
//! A path of the operating system is a sequence of bytes that need not be UTF-8. Its text is the
//! path itself where it is UTF-8. Each byte that is part of no character stands in the text as an
//! escape, one of the last characters of Unicode, so that no two paths have the same text.

use vstd::prelude::*;
use vstd::utf8::{
    char_u32_cast, codepoint_width_1, decode_first_scalar, decode_utf8, decode_utf8_encode_utf8,
    decode_utf8_first_scalar, encode_scalar, encode_utf8, length_of_first_scalar, pop_first_scalar, take_first_scalar,
    valid_first_scalar, valid_utf8,
};

use crate::text::{chars_of, utf8_text};

verus! {

/// Whether a character is an escape for a byte.
pub open spec fn is_escape(c: char) -> bool {
    c as u32 >= 0x10ff80
}

/// The escape for a byte above the ASCII range.
pub open spec fn escape_of(byte: u8) -> char {
    (0x10ff00 + byte) as char
}

/// The text of the path `bytes`. A character that is an escape itself is not taken as it is: its
/// bytes are escaped.
pub open spec fn path_text_of(bytes: Seq<u8>) -> Seq<char>
    decreases bytes.len(),
{
    if bytes.len() == 0 {
        Seq::empty()
    } else if valid_first_scalar(bytes) && !is_escape(decode_first_scalar(bytes) as char) {
        seq![decode_first_scalar(bytes) as char] + path_text_of(pop_first_scalar(bytes))
    } else {
        seq![escape_of(bytes[0])] + path_text_of(bytes.drop_first())
    }
}

/// The bytes that a character of a path's text stands for.
pub open spec fn char_bytes(c: char) -> Seq<u8> {
    if is_escape(c) {
        seq![(c as u32 - 0x10ff00) as u8]
    } else {
        encode_scalar(c as u32)
    }
}

/// The path whose text is `text`.
pub open spec fn path_bytes_of(text: Seq<char>) -> Seq<u8>
    decreases text.len(),
{
    if text.len() == 0 {
        Seq::empty()
    } else {
        char_bytes(text[0]) + path_bytes_of(text.drop_first())
    }
}

/// Calls `char::from_u32`, which gives the character with the number `number`, if there is one.
#[verifier::external_body]
fn char_from(number: u32) -> (res: Option<char>)
    ensures
        res is Some <==> number <= 0xd7ff || 0xe000 <= number <= 0x10ffff,
        res matches Some(c) ==> c as u32 == number,
{
    char::from_u32(number)
}

/// The character that the bytes from `at` on begin with, and how many bytes it takes.
fn first_char(bytes: &Vec<u8>, at: usize) -> (res: Option<(char, usize)>)
    requires
        at < bytes@.len(),
    ensures
        res is Some <==> valid_first_scalar(bytes@.skip(at as int)),
        res matches Some((c, length)) ==> {
            &&& c == decode_first_scalar(bytes@.skip(at as int)) as char
            &&& length == length_of_first_scalar(bytes@.skip(at as int))
            &&& 0 < length <= bytes@.len() - at
        },
{
    let ghost rest = bytes@.skip(at as int);
    let lead = bytes[at];
    let length: usize = if lead <= 0x7f {
        1
    } else if 0xc0 <= lead && lead <= 0xdf {
        2
    } else if 0xe0 <= lead && lead <= 0xef {
        3
    } else if 0xf0 <= lead && lead <= 0xf7 {
        4
    } else {
        return None;
    };
    if bytes.len() - at < length {
        return None;
    }
    let end: usize = at + length;
    let mut piece: Vec<u8> = Vec::new();
    let mut i: usize = 0;
    while i < length
        invariant
            i <= length,
            end == at + length <= bytes@.len(),
            piece@ == bytes@.subrange(at as int, at + i),
        decreases length - i,
    {
        piece.push(bytes[at + i]);
        i += 1;
    }
    proof {
        assert(piece@ == rest.take(length as int));
        assert(pop_first_scalar(piece@) =~= Seq::<u8>::empty());
        assert(valid_first_scalar(piece@) == valid_first_scalar(rest));
        reveal_with_fuel(valid_utf8, 2);
        reveal_with_fuel(decode_utf8, 2);
    }
    match utf8_text(piece) {
        Some(text) => {
            assert(text@ =~= seq![decode_first_scalar(piece@) as char]);
            Some((text.as_str().get_char(0), length))
        },
        None => None,
    }
}

/// The text of the path `bytes`.
pub fn path_text(bytes: &Vec<u8>) -> (res: String)
    ensures
        res@ == path_text_of(bytes@),
{
    let mut res = String::new();
    let mut i: usize = 0;
    assert(bytes@.skip(0) == bytes@);
    while i < bytes.len()
        invariant
            i <= bytes@.len(),
            res@ + path_text_of(bytes@.skip(i as int)) == path_text_of(bytes@),
        decreases bytes@.len() - i,
    {
        let ghost rest = bytes@.skip(i as int);
        let ghost before = res@;
        let byte = bytes[i];
        let (c, length): (char, usize) = match first_char(bytes, i) {
            Some((c, length)) if (c as u32) < 0x10ff80 => {
                assert(pop_first_scalar(rest) == rest.skip(length as int));
                (c, length)
            },
            _ => {
                let escape = char_from(0x10ff00 + byte as u32).unwrap();
                proof {
                    char_u32_cast(escape, (0x10ff00 + byte) as u32);
                    assert(rest.drop_first() == rest.skip(1));
                }
                (escape, 1)
            },
        };
        assert(path_text_of(rest) == seq![c] + path_text_of(rest.skip(length as int)));
        assert(rest.skip(length as int) == bytes@.skip(i + length));
        res.push(c);
        assert(res@ + path_text_of(bytes@.skip(i + length)) == before + path_text_of(rest));
        i += length;
    }
    res
}

/// The path whose text is `text`.
pub fn path_bytes(text: &str) -> (res: Vec<u8>)
    ensures
        res@ == path_bytes_of(text@),
{
    let chars = chars_of(text);
    let mut res: Vec<u8> = Vec::new();
    let mut i: usize = 0;
    assert(text@.skip(0) == text@);
    while i < chars.len()
        invariant
            chars@ == text@,
            i <= chars@.len(),
            res@ + path_bytes_of(text@.skip(i as int)) == path_bytes_of(text@),
        decreases chars@.len() - i,
    {
        let ghost rest = text@.skip(i as int);
        let ghost before = res@;
        let c = chars[i];
        if (c as u32) >= 0x10ff80 {
            res.push((c as u32 - 0x10ff00) as u8);
        } else {
            let mut single = String::new();
            single.push(c);
            proof {
                reveal_with_fuel(encode_utf8, 2);
                assert(encode_utf8(single@) =~= encode_scalar(c as u32));
            }
            res.extend_from_slice(single.as_str().as_bytes());
        }
        assert(res@ == before + char_bytes(c));
        assert(rest.drop_first() == text@.skip(i + 1));
        assert(res@ + path_bytes_of(text@.skip(i + 1)) == before + path_bytes_of(rest));
        i += 1;
    }
    res
}

/// The character that `bytes` begin with, encoded again, gives the bytes that it was read from.
proof fn lemma_first_char_bytes(bytes: Seq<u8>)
    requires
        valid_first_scalar(bytes),
    ensures
        encode_scalar((decode_first_scalar(bytes) as char) as u32) + pop_first_scalar(bytes)
            == bytes,
{
    let piece = bytes.take(length_of_first_scalar(bytes));
    assert(pop_first_scalar(piece) =~= Seq::<u8>::empty());
    assert(valid_first_scalar(piece));
    reveal_with_fuel(valid_utf8, 2);
    decode_utf8_first_scalar(piece);
    assert(take_first_scalar(piece) =~= piece);
    assert(piece + pop_first_scalar(bytes) =~= bytes);
}

/// A path can be read back from its text.
pub proof fn law_path_is_read_back(bytes: Seq<u8>)
    ensures
        path_bytes_of(path_text_of(bytes)) == bytes,
    decreases bytes.len(),
{
    if bytes.len() > 0 {
        let text = path_text_of(bytes);
        if valid_first_scalar(bytes) && !is_escape(decode_first_scalar(bytes) as char) {
            let rest = pop_first_scalar(bytes);
            law_path_is_read_back(rest);
            assert(text.drop_first() =~= path_text_of(rest));
            lemma_first_char_bytes(bytes);
        } else {
            let rest = bytes.drop_first();
            law_path_is_read_back(rest);
            assert(text.drop_first() =~= path_text_of(rest));
            if bytes[0] <= 0x7f {
                lemma_ascii(bytes);
            }
            assert(char_bytes(escape_of(bytes[0])) =~= seq![bytes[0]]);
            assert(seq![bytes[0]] + rest =~= bytes);
        }
    }
}

/// An ASCII byte is the character with its number.
proof fn lemma_ascii(bytes: Seq<u8>)
    requires
        bytes.len() > 0,
        bytes[0] <= 0x7f,
    ensures
        valid_first_scalar(bytes),
        decode_first_scalar(bytes) == bytes[0],
        length_of_first_scalar(bytes) == 1,
        !is_escape(decode_first_scalar(bytes) as char),
{
    let byte = bytes[0];
    assert(codepoint_width_1(byte) == byte) by (bit_vector)
        requires
            byte <= 0x7f,
    ;
}

/// No two paths have the same text.
pub proof fn law_paths_differ_in_text(one: Seq<u8>, other: Seq<u8>)
    ensures
        path_text_of(one) == path_text_of(other) ==> one == other,
{
    law_path_is_read_back(one);
    law_path_is_read_back(other);
}

/// A path that is UTF-8 and holds no escapes is its own text.
pub proof fn law_unicode_path_is_its_own_text(bytes: Seq<u8>)
    requires
        valid_utf8(bytes),
        forall|i: int| 0 <= i < decode_utf8(bytes).len() ==> !is_escape(#[trigger] decode_utf8(bytes)[i]),
    ensures
        path_text_of(bytes) == decode_utf8(bytes),
    decreases bytes.len(),
{
    if bytes.len() > 0 {
        let rest = pop_first_scalar(bytes);
        let chars = decode_utf8(bytes);
        assert(!is_escape(chars[0]));
        assert forall|i: int| 0 <= i < decode_utf8(rest).len() implies !is_escape(
            #[trigger] decode_utf8(rest)[i],
        ) by {
            assert(decode_utf8(rest)[i] == chars[i + 1]);
        }
        law_unicode_path_is_its_own_text(rest);
    }
}

/// Text is made piece by piece where an ASCII character, such as a separator, begins the second
/// piece: the text of the whole is the text of the pieces in a row.
pub proof fn law_text_splits_at_ascii(front: Seq<u8>, back: Seq<u8>)
    requires
        back.len() > 0,
        back[0] <= 0x7f,
    ensures
        path_text_of(front + back) == path_text_of(front) + path_text_of(back),
    decreases front.len(),
{
    let whole = front + back;
    if front.len() == 0 {
        assert(whole =~= back);
        assert(path_text_of(front) + path_text_of(back) =~= path_text_of(back));
    } else {
        assert(whole[0] == front[0]);
        assert(valid_first_scalar(whole) == valid_first_scalar(front));
        if valid_first_scalar(front) && !is_escape(decode_first_scalar(front) as char) {
            let rest = pop_first_scalar(front);
            law_text_splits_at_ascii(rest, back);
            assert(pop_first_scalar(whole) =~= rest + back);
        } else {
            let rest = front.drop_first();
            law_text_splits_at_ascii(rest, back);
            assert(whole.drop_first() =~= rest + back);
        }
        assert(path_text_of(whole) =~= path_text_of(front) + path_text_of(back));
    }
}

/// The text of a path gives the path back, byte for byte, so two paths with the same text are the
/// same path.
pub proof fn law_path_text_is_undone(bytes: &Vec<u8>, text: String, read: &str, back: Vec<u8>)
    requires
        call_ensures(path_text, (bytes,), text),
        read@ == text@,
        call_ensures(path_bytes, (read,), back),
    ensures
        back@ == bytes@,
{
    law_path_is_read_back(bytes@);
}

/// A path that is UTF-8 and has no character from U+10FF80 on is its own text, and such a text is
/// its own path.
pub proof fn law_plain_text_stays(bytes: &Vec<u8>, text: String)
    requires
        call_ensures(path_text, (bytes,), text),
        valid_utf8(bytes@),
        forall|i: int|
            0 <= i < decode_utf8(bytes@).len() ==> (#[trigger] decode_utf8(bytes@)[i] as u32)
                < 0x10ff80,
    ensures
        text@ == decode_utf8(bytes@),
        encode_utf8(text@) == bytes@,
{
    assert forall|i: int| 0 <= i < decode_utf8(bytes@).len() implies !is_escape(
        #[trigger] decode_utf8(bytes@)[i],
    ) by {
        assert((decode_utf8(bytes@)[i] as u32) < 0x10ff80);
    }
    law_unicode_path_is_its_own_text(bytes@);
    decode_utf8_encode_utf8(bytes@);
}

/// Text without a character from U+10FF80 on stands for its UTF-8 bytes.
pub proof fn law_plain_text_is_its_own_path(text: &str, res: Vec<u8>)
    requires
        call_ensures(path_bytes, (text,), res),
        forall|i: int| 0 <= i < text@.len() ==> (#[trigger] text@[i] as u32) < 0x10ff80,
    ensures
        res@ == encode_utf8(text@),
{
    lemma_plain_bytes(text@);
}

/// The same of the text as such.
proof fn lemma_plain_bytes(text: Seq<char>)
    requires
        forall|i: int| 0 <= i < text.len() ==> (#[trigger] text[i] as u32) < 0x10ff80,
    ensures
        path_bytes_of(text) == encode_utf8(text),
    decreases text.len(),
{
    if text.len() > 0 {
        let rest = text.drop_first();
        assert((text[0] as u32) < 0x10ff80);
        assert forall|i: int| 0 <= i < rest.len() implies (#[trigger] rest[i] as u32) < 0x10ff80 by {
            assert(rest[i] == text[i + 1]);
        }
        lemma_plain_bytes(rest);
    }
}

} // verus!
