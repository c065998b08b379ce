//! Text: decoding compiler output, splitting it into lines, trimming it.

use vstd::prelude::*;
use vstd::utf8::{decode_utf8, valid_utf8};

verus! {

/// `String::push`: appends one character to the end of the string.
pub assume_specification[ String::push ](s: &mut String, c: char)
    ensures
        final(s)@ == old(s)@.push(c),
;

/// Decodes bytes with `String::from_utf8`, which gives the decoded text when the bytes are
/// valid UTF-8 and an error when they are not.
#[verifier::external_body]
pub(crate) fn utf8_text(bytes: Vec<u8>) -> (res: Option<String>)
    ensures
        res is Some <==> valid_utf8(bytes@),
        res matches Some(text) ==> text@ == decode_utf8(bytes@),
{
    String::from_utf8(bytes).ok()
}

/// Asks `char::is_whitespace`, which tells whether a character has the Unicode property
/// `White_Space`; [`white_space`] lists the characters that have it.
#[verifier::external_body]
fn is_whitespace(c: char) -> (res: bool)
    ensures
        res == white_space(c),
{
    c.is_whitespace()
}

/// The characters with the Unicode property `White_Space`.
pub open spec fn white_space(c: char) -> bool {
    ||| '\u{9}' <= c <= '\u{d}'
    ||| c == '\u{20}'
    ||| c == '\u{85}'
    ||| c == '\u{a0}'
    ||| c == '\u{1680}'
    ||| '\u{2000}' <= c <= '\u{200a}'
    ||| c == '\u{2028}'
    ||| c == '\u{2029}'
    ||| c == '\u{202f}'
    ||| c == '\u{205f}'
    ||| c == '\u{3000}'
}

/// The texts behind a sequence of strings.
pub open spec fn texts(strings: Seq<String>) -> Seq<Seq<char>> {
    strings.map_values(|s: String| s@)
}

/// `line` without the carriage return that it may end in.
pub open spec fn without_carriage_return(line: Seq<char>) -> Seq<char> {
    if line.len() > 0 && line.last() == '\r' {
        line.drop_last()
    } else {
        line
    }
}

/// Where the first `\n` of `text` stands; the length of `text` if it has none.
pub open spec fn line_end(text: Seq<char>) -> nat
    decreases text.len(),
{
    if text.len() == 0 || text[0] == '\n' {
        0
    } else {
        1 + line_end(text.drop_first())
    }
}

/// The lines of `text`. A line ends in `\n` or `\r\n`, which is not part of it; the last line
/// needs no ending, and nothing follows the ending of the last line.
pub open spec fn lines_of(text: Seq<char>) -> Seq<Seq<char>>
    decreases text.len(),
{
    let end = line_end(text) as int;
    if text.len() == 0 {
        Seq::empty()
    } else if end >= text.len() {
        seq![text]
    } else {
        seq![without_carriage_return(text.take(end))] + lines_of(text.skip(end + 1))
    }
}

/// `text` without the white space that it starts with.
pub open spec fn trim_start_of(text: Seq<char>) -> Seq<char>
    decreases text.len(),
{
    if text.len() > 0 && white_space(text[0]) {
        trim_start_of(text.drop_first())
    } else {
        text
    }
}

/// `text` without the white space that it ends in.
pub open spec fn trim_end_of(text: Seq<char>) -> Seq<char>
    decreases text.len(),
{
    if text.len() > 0 && white_space(text.last()) {
        trim_end_of(text.drop_last())
    } else {
        text
    }
}

/// `text` without the white space around it.
pub open spec fn trimmed(text: Seq<char>) -> Seq<char> {
    trim_end_of(trim_start_of(text))
}

/// `line_end` is the first position that holds `\n`.
proof fn lemma_line_end(text: Seq<char>, end: int)
    requires
        0 <= end <= text.len(),
        forall|i: int| 0 <= i < end ==> text[i] != '\n',
        end < text.len() ==> text[end] == '\n',
    ensures
        line_end(text) == end,
    decreases text.len(),
{
    if end > 0 {
        assert forall|i: int| 0 <= i < end - 1 implies text.drop_first()[i] != '\n' by {
            assert(text.drop_first()[i] == text[i + 1]);
        }
        lemma_line_end(text.drop_first(), end - 1);
    }
}

/// No line holds a `\n`.
pub proof fn law_lines_hold_no_newline(text: Seq<char>)
    ensures
        forall|i: int| 0 <= i < lines_of(text).len() ==> !(#[trigger] lines_of(text)[i]).contains('\n'),
    decreases text.len(),
{
    let end = line_end(text) as int;
    lemma_before_line_end(text);
    if text.len() > 0 && end < text.len() {
        let rest = text.skip(end + 1);
        law_lines_hold_no_newline(rest);
        assert forall|i: int| 0 <= i < lines_of(text).len() implies !(
        #[trigger] lines_of(text)[i]).contains('\n') by {
            if i > 0 {
                assert(lines_of(text)[i] == lines_of(rest)[i - 1]);
            }
        }
    }
}

/// The ending of the last line is optional: text that ends neither in `\n` nor in `\r` has the
/// same lines with and without a `\n` at its end.
pub proof fn law_final_line_ending_is_optional(text: Seq<char>)
    requires
        text.len() > 0,
        text.last() != '\n',
        text.last() != '\r',
    ensures
        lines_of(text.push('\n')) == lines_of(text),
    decreases text.len(),
{
    let ended = text.push('\n');
    let end = line_end(text) as int;
    lemma_before_line_end(text);
    lemma_line_end(ended, end);
    if end < text.len() {
        let rest = text.skip(end + 1);
        assert(ended.take(end) == text.take(end));
        assert(ended.skip(end + 1) == rest.push('\n'));
        law_final_line_ending_is_optional(rest);
    } else {
        assert(ended.take(end) == text);
        assert(ended.skip(end + 1) == Seq::<char>::empty());
        assert(lines_of(ended) == seq![text] + lines_of(Seq::empty()));
    }
}

/// Trimmed text neither starts nor ends with white space, so trimming it again changes nothing.
pub proof fn law_trimmed_has_no_outer_white_space(text: Seq<char>)
    ensures
        trimmed(text).len() > 0 ==> !white_space(trimmed(text)[0]) && !white_space(
            trimmed(text).last(),
        ),
        trimmed(trimmed(text)) == trimmed(text),
    decreases text.len(),
{
    lemma_trim_start(text);
    lemma_trim_end(trim_start_of(text));
}

/// What is left of `text` does not start with white space.
proof fn lemma_trim_start(text: Seq<char>)
    ensures
        trim_start_of(text).len() > 0 ==> !white_space(trim_start_of(text)[0]),
    decreases text.len(),
{
    if text.len() > 0 && white_space(text[0]) {
        lemma_trim_start(text.drop_first());
    }
}

/// What is left of `text` starts as `text` does and does not end in white space.
proof fn lemma_trim_end(text: Seq<char>)
    ensures
        trim_end_of(text).len() <= text.len(),
        trim_end_of(text).len() > 0 ==> !white_space(trim_end_of(text).last())
            && trim_end_of(text)[0] == text[0],
    decreases text.len(),
{
    if text.len() > 0 && white_space(text.last()) {
        lemma_trim_end(text.drop_last());
    }
}

/// `line_end` is within `text`, no `\n` stands before it, and one stands at it unless it is the
/// end of `text`.
proof fn lemma_before_line_end(text: Seq<char>)
    ensures
        line_end(text) <= text.len(),
        forall|i: int| 0 <= i < line_end(text) ==> text[i] != '\n',
        line_end(text) < text.len() ==> text[line_end(text) as int] == '\n',
    decreases text.len(),
{
    if text.len() > 0 && text[0] != '\n' {
        let rest = text.drop_first();
        lemma_before_line_end(rest);
        assert forall|i: int| 0 <= i < line_end(text) implies text[i] != '\n' by {
            if i > 0 {
                assert(text[i] == rest[i - 1]);
            }
        }
    }
}

/// Copies the characters of `text` into a vector.
pub(crate) fn chars_of(text: &str) -> (res: Vec<char>)
    ensures
        res@ == text@,
{
    let mut res: Vec<char> = Vec::new();
    for c in iter: text.chars()
        invariant
            iter.seq() == text@,
            res@ == text@.take(iter.index() as int),
    {
        res.push(c);
    }
    assert(text@.take(text@.len() as int) == text@);
    res
}

/// The string of the characters from `from` up to, not including, `to`.
fn slice(chars: &Vec<char>, from: usize, to: usize) -> (res: String)
    requires
        from <= to <= chars@.len(),
    ensures
        res@ == chars@.subrange(from as int, to as int),
{
    let mut res = String::new();
    let mut i: usize = from;
    while i < to
        invariant
            from <= i <= to <= chars@.len(),
            res@ == chars@.subrange(from as int, i as int),
        decreases to - i,
    {
        res.push(chars[i]);
        i += 1;
    }
    res
}

/// The lines of `text`, as strings.
pub fn lines(text: &str) -> (res: Vec<String>)
    ensures
        texts(res@) == lines_of(text@),
{
    let chars = chars_of(text);
    let mut res: Vec<String> = Vec::new();
    let mut start: usize = 0;
    let mut i: usize = 0;
    assert(texts(res@) + lines_of(text@.skip(0)) == lines_of(text@)) by {
        assert(text@.skip(0) == text@);
        assert(texts(res@) == Seq::<Seq<char>>::empty());
    }
    while i < chars.len()
        invariant
            chars@ == text@,
            start <= i <= chars@.len(),
            forall|k: int| start <= k < i ==> chars@[k] != '\n',
            texts(res@) + lines_of(text@.skip(start as int)) == lines_of(text@),
        decreases chars@.len() - i,
    {
        if chars[i] == '\n' {
            let end: usize = if start < i && chars[i - 1] == '\r' {
                i - 1
            } else {
                i
            };
            let line = slice(&chars, start, end);
            proof {
                let rest = text@.skip(start as int);
                let length = i - start;
                lemma_line_end(rest, length);
                assert(rest.take(length) == chars@.subrange(start as int, i as int));
                assert(without_carriage_return(rest.take(length)) == line@);
                assert(rest.skip(length + 1) == text@.skip(i + 1));
                assert(texts(res@.push(line)) == texts(res@).push(line@));
                assert(texts(res@).push(line@) + lines_of(text@.skip(i + 1)) == texts(res@) + (
                seq![line@] + lines_of(text@.skip(i + 1))));
            }
            res.push(line);
            start = i + 1;
        }
        i += 1;
    }
    proof {
        lemma_line_end(text@.skip(start as int), text@.len() - start);
    }
    if start < chars.len() {
        let line = slice(&chars, start, chars.len());
        proof {
            assert(line@ == text@.skip(start as int));
            assert(texts(res@.push(line)) == texts(res@) + seq![line@]);
        }
        res.push(line);
    }
    res
}

/// A copy of `text` without the white space around it.
pub fn trim(text: &str) -> (res: String)
    ensures
        res@ == trimmed(text@),
{
    let chars = chars_of(text);
    let mut from: usize = 0;
    assert(text@.skip(0) == text@);
    while from < chars.len() && is_whitespace(chars[from])
        invariant
            chars@ == text@,
            from <= chars@.len(),
            trim_start_of(text@.skip(from as int)) == trim_start_of(text@),
        decreases chars@.len() - from,
    {
        assert(text@.skip(from as int).drop_first() == text@.skip(from + 1));
        from += 1;
    }
    let mut to: usize = chars.len();
    assert(text@.subrange(from as int, to as int) == trim_start_of(text@));
    while from < to && is_whitespace(chars[to - 1])
        invariant
            chars@ == text@,
            from <= to <= chars@.len(),
            trim_end_of(text@.subrange(from as int, to as int)) == trimmed(text@),
        decreases to,
    {
        assert(text@.subrange(from as int, to as int).drop_last() == text@.subrange(
            from as int,
            to - 1,
        ));
        to -= 1;
    }
    slice(&chars, from, to)
}

/// Whether `ending` can end the line `line`. A line ends in `\n`, unless that makes it end in
/// `\r\n`, or in `\r\n`; the last one may have no ending if there is anything on it.
spec fn is_ending(line: Seq<char>, ending: Seq<char>, is_last: bool) -> bool {
    ||| ending == seq!['\n'] && !(line.len() > 0 && line.last() == '\r')
    ||| ending == seq!['\r', '\n']
    ||| ending.len() == 0 && is_last && line.len() > 0
}

/// The endings of the lines of `text`: put back, they give the text.
proof fn lemma_line_endings(text: Seq<char>) -> (endings: Seq<Seq<char>>)
    ensures
        endings.len() == lines_of(text).len(),
        Seq::new(endings.len(), |i: int| lines_of(text)[i] + endings[i]).flatten() == text,
        forall|i: int|
            0 <= i < endings.len() ==> is_ending(
                lines_of(text)[i],
                #[trigger] endings[i],
                i == endings.len() - 1,
            ),
    decreases text.len(),
{
    let end = line_end(text) as int;
    let lines = lines_of(text);
    lemma_before_line_end(text);
    if text.len() == 0 {
        let endings = Seq::<Seq<char>>::empty();
        assert(Seq::new(endings.len(), |i: int| lines[i] + endings[i]).flatten() =~= text);
        endings
    } else if end >= text.len() {
        let endings = seq![Seq::<char>::empty()];
        let pieces = Seq::new(endings.len(), |i: int| lines[i] + endings[i]);
        pieces.lemma_flatten_one_element();
        assert(pieces[0] =~= text);
        endings
    } else {
        let rest = text.skip(end + 1);
        let front = text.take(end);
        let more = lemma_line_endings(rest);
        let ending = if end > 0 && text[end - 1] == '\r' {
            seq!['\r', '\n']
        } else {
            seq!['\n']
        };
        let endings = seq![ending] + more;
        let pieces = Seq::new(endings.len(), |i: int| lines[i] + endings[i]);
        let rest_pieces = Seq::new(more.len(), |i: int| lines_of(rest)[i] + more[i]);
        assert(pieces.drop_first() =~= rest_pieces) by {
            assert forall|i: int| 0 <= i < rest_pieces.len() implies pieces.drop_first()[i]
                == rest_pieces[i] by {
                assert(lines[i + 1] == lines_of(rest)[i]);
                assert(endings[i + 1] == more[i]);
            }
        }
        assert(pieces[0] =~= text.take(end + 1));
        assert(pieces.flatten() =~= text.take(end + 1) + rest);
        assert(pieces.flatten() =~= text);
        assert forall|i: int| 0 <= i < endings.len() implies is_ending(
            lines[i],
            #[trigger] endings[i],
            i == endings.len() - 1,
        ) by {
            if i > 0 {
                assert(lines[i] == lines_of(rest)[i - 1]);
                assert(endings[i] == more[i - 1]);
            } else if end > 0 && text[end - 1] != '\r' {
                assert(front.last() == text[end - 1]);
            }
        }
        endings
    }
}

/// Nothing is lost in splitting: each line with its ending put back, one after the other, gives the
/// text. A line holds no `\n`, and it ends in `\n` or `\r\n`; only the last may go without, and
/// then it is not empty. A `\r` before a `\n` belongs to the ending.
pub proof fn law_lines_give_the_text_back(text: &str, res: Vec<String>) -> (endings: Seq<Seq<char>>)
    requires
        call_ensures(lines, (text,), res),
    ensures
        endings.len() == res@.len(),
        Seq::new(res@.len(), |i: int| res@[i]@ + endings[i]).flatten() == text@,
        forall|i: int| 0 <= i < res@.len() ==> !(#[trigger] res@[i])@.contains('\n'),
        forall|i: int|
            0 <= i < res@.len() ==> {
                ||| #[trigger] endings[i] == seq!['\n'] && !(res@[i]@.len() > 0 && res@[i]@.last()
                    == '\r')
                ||| endings[i] == seq!['\r', '\n']
                ||| endings[i] == Seq::<char>::empty() && i == res@.len() - 1 && res@[i]@.len() > 0
            },
{
    lemma_lines_give_the_text_back(text@, res)
}

/// The same of strings that hold the lines of `text`.
pub proof fn lemma_lines_give_the_text_back(text: Seq<char>, res: Vec<String>) -> (endings: Seq<
    Seq<char>,
>)
    requires
        texts(res@) == lines_of(text),
    ensures
        endings.len() == res@.len(),
        Seq::new(res@.len(), |i: int| res@[i]@ + endings[i]).flatten() == text,
        forall|i: int| 0 <= i < res@.len() ==> !(#[trigger] res@[i])@.contains('\n'),
        forall|i: int|
            0 <= i < res@.len() ==> {
                ||| #[trigger] endings[i] == seq!['\n'] && !(res@[i]@.len() > 0 && res@[i]@.last()
                    == '\r')
                ||| endings[i] == seq!['\r', '\n']
                ||| endings[i] == Seq::<char>::empty() && i == res@.len() - 1 && res@[i]@.len() > 0
            },
{
    let endings = lemma_line_endings(text);
    law_lines_hold_no_newline(text);
    let found = texts(res@);
    assert(found == lines_of(text));
    assert(found.len() == res@.len());
    assert forall|i: int| 0 <= i < res@.len() implies (#[trigger] res@[i])@ == lines_of(
        text,
    )[i] by {
        assert(found[i] == res@[i]@);
    }
    assert(Seq::new(res@.len(), |i: int| res@[i]@ + endings[i]) =~= Seq::new(
        endings.len(),
        |i: int| lines_of(text)[i] + endings[i],
    ));
    assert forall|i: int| 0 <= i < res@.len() implies {
        ||| #[trigger] endings[i] == seq!['\n'] && !(res@[i]@.len() > 0 && res@[i]@.last() == '\r')
        ||| endings[i] == seq!['\r', '\n']
        ||| endings[i] == Seq::<char>::empty() && i == res@.len() - 1 && res@[i]@.len() > 0
    } by {
        assert(res@[i]@ == lines_of(text)[i]);
        assert(is_ending(lines_of(text)[i], endings[i], i == endings.len() - 1));
        if endings[i].len() == 0 {
            assert(endings[i] =~= Seq::<char>::empty());
        }
    }
    endings
}

/// The lines of a text without `\r`, each followed by `\n`, are the text, with a `\n` added if it
/// has a last line that ends in none.
pub proof fn law_lines_joined_by_newlines(text: &str, res: Vec<String>)
    requires
        call_ensures(lines, (text,), res),
        !text@.contains('\r'),
    ensures
        Seq::new(res@.len(), |i: int| res@[i]@.push('\n')).flatten() == if text@.len() > 0
            && text@.last() != '\n' {
            text@.push('\n')
        } else {
            text@
        },
{
    let found = texts(res@);
    assert(found == lines_of(text@));
    assert(found.len() == res@.len());
    assert(Seq::new(res@.len(), |i: int| res@[i]@.push('\n')) =~= found.map_values(
        |line: Seq<char>| line.push('\n'),
    ));
    lemma_joined_by_newlines(text@);
}

/// The same of the lines as such.
proof fn lemma_joined_by_newlines(text: Seq<char>)
    requires
        !text.contains('\r'),
    ensures
        lines_of(text).map_values(|line: Seq<char>| line.push('\n')).flatten() == if text.len() > 0
            && text.last() != '\n' {
            text.push('\n')
        } else {
            text
        },
    decreases text.len(),
{
    let end = line_end(text) as int;
    let ended = lines_of(text).map_values(|line: Seq<char>| line.push('\n'));
    lemma_before_line_end(text);
    if text.len() == 0 {
        assert(ended.flatten() =~= text);
    } else if end >= text.len() {
        ended.lemma_flatten_one_element();
        assert(ended[0] == text.push('\n'));
        assert(text[text.len() - 1] != '\n');
    } else {
        let rest = text.skip(end + 1);
        assert forall|i: int| 0 <= i < rest.len() implies rest[i] != '\r' by {
            assert(rest[i] == text[i + end + 1]);
        }
        lemma_joined_by_newlines(rest);
        if end > 0 {
            assert(text.take(end).last() == text[end - 1]);
            assert(text[end - 1] != '\r');
        }
        assert(ended[0] =~= text.take(end + 1));
        assert(ended.drop_first() =~= lines_of(rest).map_values(|line: Seq<char>| line.push('\n')));
        if rest.len() > 0 {
            assert(rest.last() == text.last());
        }
        assert(ended.flatten() =~= if text.last() != '\n' {
            text.push('\n')
        } else {
            text
        });
    }
}

/// Trimming takes white space off both ends and leaves the rest as it is, up to the first and the
/// last character that are not white space.
pub proof fn law_trim_takes_white_space_off_the_ends(text: &str, res: String) -> (ends: (
    Seq<char>,
    Seq<char>,
))
    requires
        call_ensures(trim, (text,), res),
    ensures
        ends.0 + res@ + ends.1 == text@,
        forall|i: int| 0 <= i < ends.0.len() ==> white_space(#[trigger] ends.0[i]),
        forall|i: int| 0 <= i < ends.1.len() ==> white_space(#[trigger] ends.1[i]),
        res@.len() > 0 ==> !white_space(res@[0]) && !white_space(res@.last()),
{
    lemma_trimmed_ends(text@)
}

/// The white space that is taken off both ends of `text`.
pub proof fn lemma_trimmed_ends(text: Seq<char>) -> (ends: (Seq<char>, Seq<char>))
    ensures
        ends.0 + trimmed(text) + ends.1 == text,
        forall|i: int| 0 <= i < ends.0.len() ==> white_space(#[trigger] ends.0[i]),
        forall|i: int| 0 <= i < ends.1.len() ==> white_space(#[trigger] ends.1[i]),
        trimmed(text).len() > 0 ==> !white_space(trimmed(text)[0]) && !white_space(
            trimmed(text).last(),
        ),
{
    let start = lemma_trimmed_start(text);
    let end = lemma_trimmed_end(trim_start_of(text));
    law_trimmed_has_no_outer_white_space(text);
    assert(start + trimmed(text) + end =~= start + (trimmed(text) + end));
    (start, end)
}

/// What is taken off the start is white space.
proof fn lemma_trimmed_start(text: Seq<char>) -> (start: Seq<char>)
    ensures
        start + trim_start_of(text) == text,
        forall|i: int| 0 <= i < start.len() ==> white_space(#[trigger] start[i]),
    decreases text.len(),
{
    if text.len() > 0 && white_space(text[0]) {
        let more = lemma_trimmed_start(text.drop_first());
        let start = seq![text[0]] + more;
        assert(start + trim_start_of(text) =~= seq![text[0]] + text.drop_first());
        assert(seq![text[0]] + text.drop_first() =~= text);
        start
    } else {
        assert(Seq::<char>::empty() + text =~= text);
        Seq::empty()
    }
}

/// What is taken off the end is white space.
proof fn lemma_trimmed_end(text: Seq<char>) -> (end: Seq<char>)
    ensures
        trim_end_of(text) + end == text,
        forall|i: int| 0 <= i < end.len() ==> white_space(#[trigger] end[i]),
    decreases text.len(),
{
    if text.len() > 0 && white_space(text.last()) {
        let more = lemma_trimmed_end(text.drop_last());
        let end = more.push(text.last());
        assert(trim_end_of(text) + end =~= text.drop_last().push(text.last()));
        assert(text.drop_last().push(text.last()) =~= text);
        end
    } else {
        assert(text + Seq::<char>::empty() =~= text);
        Seq::empty()
    }
}

/// The characters that count as white space, by number: the tab, the line ends, the space, and the
/// spaces and line ends that Unicode adds to them.
pub proof fn law_white_space(c: char)
    ensures
        white_space(c) <==> {
            let number = c as u32;
            ||| 9 <= number <= 13
            ||| number == 32
            ||| number == 133
            ||| number == 160
            ||| number == 5760
            ||| 8192 <= number <= 8202
            ||| number == 8232
            ||| number == 8233
            ||| number == 8239
            ||| number == 8287
            ||| number == 12288
        },
{
}

} // verus!
