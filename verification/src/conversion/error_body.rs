//! The text of an upstream error body that no translator can read.
//!
//! A proxy in front of a model server may answer with a page of its own. Its text is carried
//! through on one line and cut to a size that fits an error object.

use vstd::prelude::*;

verus! {

/// The most characters of a body that are carried through.
pub const LIMIT: usize = 512;

/// The white space of Unicode.
pub open spec fn is_white(c: char) -> bool {
    let code = c as u32;
    ||| 0x09 <= code <= 0x0d
    ||| code == 0x20
    ||| code == 0x85
    ||| code == 0xa0
    ||| code == 0x1680
    ||| 0x2000 <= code <= 0x200a
    ||| code == 0x2028
    ||| code == 0x2029
    ||| code == 0x202f
    ||| code == 0x205f
    ||| code == 0x3000
}

/// The words of a text, set apart by one space each. A word is a longest run of characters that
/// are not white.
pub open spec fn collapsed(text: Seq<char>) -> Seq<char>
    decreases text.len(),
{
    if text.len() == 0 {
        Seq::empty()
    } else {
        let before = collapsed(text.drop_last());
        if is_white(text.last()) {
            before
        } else if before.len() > 0 && is_white(text.drop_last().last()) {
            before.push(' ').push(text.last())
        } else {
            before.push(text.last())
        }
    }
}

/// The message for an error body of this text.
pub open spec fn body_message(text: Seq<char>) -> Seq<char> {
    let words = collapsed(text);
    if words.len() == 0 {
        "upstream returned an empty error body"@
    } else if words.len() <= LIMIT {
        words
    } else {
        words.take(LIMIT as int) + "... (truncated)"@
    }
}

/// The text that `String::from_utf8_lossy` gives for bytes.
pub uninterp spec fn utf8_lossy(bytes: Seq<u8>) -> Seq<char>;

/// `String::from_utf8_lossy` decodes UTF-8; what is not UTF-8 is replaced, in a way that the
/// bytes alone determine. Valid UTF-8 is decoded as it is.
#[verifier::external_body]
fn from_utf8_lossy(bytes: &[u8]) -> (res: String)
    ensures
        res@ == utf8_lossy(bytes@),
        vstd::utf8::valid_utf8(bytes@) ==> res@ == vstd::utf8::decode_utf8(bytes@),
{
    String::from_utf8_lossy(bytes).into_owned()
}

/// Whether a character is white space.
pub fn is_white_space(c: char) -> (res: bool)
    ensures
        res == is_white(c),
{
    let code: u32 = c as u32;
    (0x09 <= code && code <= 0x0d) || code == 0x20 || code == 0x85 || code == 0xa0 || code == 0x1680
        || (0x2000 <= code && code <= 0x200a) || code == 0x2028 || code == 0x2029 || code == 0x202f
        || code == 0x205f || code == 0x3000
}

fn collapse(text: &str) -> (res: String)
    ensures
        res@ == collapsed(text@),
{
    let mut out = String::new();
    let mut started = false;
    let mut gap = false;
    for c in it: text.chars()
        invariant
            it.seq() == text@,
            out@ == collapsed(text@.take(it.index())),
            started == (out@.len() > 0),
            gap == (it.index() > 0 && is_white(text@[it.index() - 1])),
    {
        let ghost upto = text@.take(it.index() + 1);
        assert(upto.drop_last() == text@.take(it.index()));
        assert(upto.last() == c);
        if is_white_space(c) {
            gap = true;
        } else {
            if gap && started {
                out.push(' ');
            }
            out.push(c);
            started = true;
            gap = false;
        }
    }
    assert(text@.take(text@.len() as int) == text@);
    out
}

/// The message for an error body of this text.
pub fn describe_body(text: &str) -> (res: String)
    ensures
        res@ == body_message(text@),
{
    let words = collapse(text);
    let count: usize = words.as_str().unicode_len();
    if count == 0 {
        return "upstream returned an empty error body".to_owned();
    }
    if count <= LIMIT {
        return words;
    }
    let mut cut: String = words.as_str().substring_char(0, LIMIT).to_owned();
    cut.append("... (truncated)");
    assert(words@.subrange(0, LIMIT as int) =~= words@.take(LIMIT as int));
    cut
}

/// The message for an error body that no translator can read.
pub fn unparseable_upstream_body(bytes: &[u8]) -> (res: String)
    ensures
        res@ == body_message(utf8_lossy(bytes@)),
        vstd::utf8::valid_utf8(bytes@) ==> res@ == body_message(vstd::utf8::decode_utf8(bytes@)),
{
    let text = from_utf8_lossy(bytes);
    describe_body(text.as_str())
}

/// The characters of a text that are not white, in turn.
pub open spec fn ink(text: Seq<char>) -> Seq<char>
    decreases text.len(),
{
    if text.len() == 0 {
        Seq::empty()
    } else if is_white(text.last()) {
        ink(text.drop_last())
    } else {
        ink(text.drop_last()).push(text.last())
    }
}

/// A text on one line without needless space: it neither begins nor ends with white space, the
/// only white space in it is the space, and no two spaces are next to each other.
pub open spec fn is_tidy(text: Seq<char>) -> bool {
    &&& text.len() > 0 ==> !is_white(text[0]) && !is_white(text.last())
    &&& forall|i: int| 0 <= i < text.len() && is_white(#[trigger] text[i]) ==> text[i] == ' '
    &&& forall|i: int|
        0 <= i < text.len() - 1 && is_white(#[trigger] text[i]) ==> !is_white(text[i + 1])
}

/// A collapsed text is tidy, and no character of a word is lost, added or moved.
pub proof fn law_collapsed_is_tidy(text: Seq<char>)
    ensures
        is_tidy(collapsed(text)),
        ink(collapsed(text)) == ink(text),
    decreases text.len(),
{
    if text.len() > 0 {
        let shorter = text.drop_last();
        let before = collapsed(shorter);
        law_collapsed_is_tidy(shorter);
        assert(is_white(' '));
        if !is_white(text.last()) {
            if before.len() > 0 && is_white(shorter.last()) {
                let spaced = before.push(' ');
                assert(spaced.drop_last() =~= before);
                assert(spaced.push(text.last()).drop_last() =~= spaced);
                assert(ink(spaced) == ink(before));
            } else {
                assert(before.push(text.last()).drop_last() =~= before);
            }
        }
    }
}

/// A tidy text collapses to itself.
pub proof fn law_tidy_text_stays(text: Seq<char>)
    requires
        is_tidy(text),
    ensures
        collapsed(text) == text,
    decreases text.len(),
{
    if text.len() > 0 {
        let shorter = text.drop_last();
        let n = text.len() as int;
        if n == 1 {
            assert(collapsed(shorter) =~= Seq::empty());
            assert(collapsed(text) =~= text);
        } else if is_white(text[n - 2]) {
            let word = shorter.drop_last();
            assert(n > 2);
            assert(text[n - 2] == ' ');
            if is_white(text[n - 3]) {
                assert(!is_white(text[n - 3 + 1]));
            }
            assert forall|i: int| 0 <= i < word.len() && is_white(#[trigger] word[i]) implies word[i]
                == ' ' by {
                assert(is_white(text[i]));
            }
            assert forall|i: int| 0 <= i < word.len() - 1 && is_white(#[trigger] word[i]) implies !is_white(
                word[i + 1],
            ) by {
                assert(is_white(text[i]));
            }
            law_tidy_text_stays(word);
            assert(collapsed(shorter) == word);
            assert(collapsed(text) =~= text);
        } else {
            assert forall|i: int| 0 <= i < shorter.len() && is_white(#[trigger] shorter[i]) implies shorter[i]
                == ' ' by {
                assert(is_white(text[i]));
            }
            assert forall|i: int|
                0 <= i < shorter.len() - 1 && is_white(#[trigger] shorter[i]) implies !is_white(
                shorter[i + 1],
            ) by {
                assert(is_white(text[i]));
            }
            law_tidy_text_stays(shorter);
            assert(collapsed(text) =~= text);
        }
    }
}

/// The message for an error body is never empty, never longer than the limit and the mark of
/// truncation, and on one line.
pub proof fn law_body_message_is_bounded(text: Seq<char>)
    ensures
        0 < body_message(text).len() <= LIMIT + 15,
        forall|i: int|
            0 <= i < body_message(text).len() && is_white(#[trigger] body_message(text)[i])
                ==> body_message(text)[i] == ' ',
{
    reveal_strlit("upstream returned an empty error body");
    reveal_strlit("... (truncated)");
    law_collapsed_is_tidy(text);
    let words = collapsed(text);
    let message = body_message(text);
    assert forall|i: int| 0 <= i < message.len() && is_white(#[trigger] message[i]) implies message[i]
        == ' ' by {
        if words.len() > LIMIT {
            if i < LIMIT {
                assert(message[i] == words[i]);
            } else {
                assert(message[i] == "... (truncated)"@[i - LIMIT]);
            }
        }
    }
}

} // verus!
