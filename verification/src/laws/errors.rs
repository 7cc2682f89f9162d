//! What the message for an unreadable error body promises.

use vstd::prelude::*;

use crate::conversion::error_body;

verus! {

/// White space is what Unicode calls so: the space, the tab and the ends of a line, and the
/// spaces beyond ASCII. Nothing that is visible in ASCII is white.
pub proof fn law_what_white_space_is(c: char)
    ensures
        error_body::is_white(' ') && error_body::is_white('\t') && error_body::is_white('\n')
            && error_body::is_white('\r') && error_body::is_white('\u{b}') && error_body::is_white(
            '\u{c}',
        ),
        error_body::is_white('\u{85}') && error_body::is_white('\u{a0}') && error_body::is_white(
            '\u{1680}',
        ) && error_body::is_white('\u{2028}') && error_body::is_white('\u{2029}')
            && error_body::is_white('\u{202f}') && error_body::is_white('\u{205f}')
            && error_body::is_white('\u{3000}'),
        '\u{2000}' <= c <= '\u{200a}' ==> error_body::is_white(c),
        '!' <= c <= '~' ==> !error_body::is_white(c),
        c > '\u{3000}' ==> !error_body::is_white(c),
        '\u{a1}' <= c < '\u{1680}' ==> !error_body::is_white(c),
        '\u{1680}' < c < '\u{2000}' ==> !error_body::is_white(c),
        '\u{200a}' < c < '\u{2028}' ==> !error_body::is_white(c),
        '\u{2029}' < c < '\u{202f}' ==> !error_body::is_white(c),
        '\u{202f}' < c < '\u{205f}' ==> !error_body::is_white(c),
        '\u{205f}' < c < '\u{3000}' ==> !error_body::is_white(c),
        c < '\t' ==> !error_body::is_white(c),
        '\r' < c < ' ' ==> !error_body::is_white(c),
        '\u{7f}' <= c < '\u{85}' ==> !error_body::is_white(c),
        '\u{85}' < c < '\u{a0}' ==> !error_body::is_white(c),
{
}

/// White space sets words apart, and one space stands for it: the words of two texts with white
/// space between them are those of the first and those of the second, with one space between.
pub proof fn law_one_space_stands_for_white_space(first: Seq<char>, white: char, second: Seq<char>)
    requires
        error_body::is_white(white),
    ensures
        ({
            let one = error_body::collapsed(first);
            let other = error_body::collapsed(second);
            let both = error_body::collapsed(first.push(white) + second);
            &&& one.len() == 0 ==> both == other
            &&& other.len() == 0 ==> both == one
            &&& one.len() > 0 && other.len() > 0 ==> both == one.push(' ') + other
        }),
    decreases second.len(),
{
    let whole = first.push(white) + second;
    let one = error_body::collapsed(first);
    if second.len() == 0 {
        assert(whole =~= first.push(white));
        assert(first.push(white).drop_last() =~= first);
    } else {
        let shorter = second.drop_last();
        let before = first.push(white) + shorter;
        assert(whole.drop_last() =~= before);
        law_one_space_stands_for_white_space(first, white, shorter);
        let other = error_body::collapsed(second);
        let less = error_body::collapsed(shorter);
        let last = second.last();
        if shorter.len() == 0 {
            assert(before.last() == white);
            if !error_body::is_white(last) {
                assert(error_body::collapsed(second) =~= seq![last]);
                assert(one.len() > 0 ==> error_body::collapsed(whole) =~= one.push(' ') + seq![last]);
                assert(one.len() == 0 ==> error_body::collapsed(whole) =~= seq![last]);
            }
        } else {
            assert(before.last() == shorter.last());
            if !error_body::is_white(last) {
                lemma_no_words(shorter);
                if one.len() == 0 {
                    assert(error_body::collapsed(whole) =~= other);
                } else if less.len() == 0 {
                    assert(error_body::is_white(shorter.last()));
                    assert(error_body::collapsed(whole) =~= one.push(' ') + other);
                } else {
                    assert(error_body::collapsed(whole) =~= one.push(' ') + other);
                }
            }
        }
    }
}

proof fn lemma_no_words(text: Seq<char>)
    requires
        text.len() > 0,
    ensures
        error_body::collapsed(text).len() == 0 ==> error_body::is_white(text.last()),
{
}

/// A text without white space is one word and stays as it is.
pub proof fn law_a_word_stays_as_it_is(word: Seq<char>)
    requires
        forall|i: int| 0 <= i < word.len() ==> !error_body::is_white(#[trigger] word[i]),
    ensures
        error_body::collapsed(word) == word,
    decreases word.len(),
{
    if word.len() > 0 {
        let shorter = word.drop_last();
        assert forall|i: int| 0 <= i < shorter.len() implies !error_body::is_white(
            #[trigger] shorter[i],
        ) by {
            assert(shorter[i] == word[i]);
        }
        law_a_word_stays_as_it_is(shorter);
        let n = word.len() - 1;
        assert(!error_body::is_white(word[n]));
        if n > 0 {
            assert(!error_body::is_white(word[n - 1]));
            assert(shorter.last() == word[n - 1]);
        }
        assert(shorter.push(word[n]) =~= word);
    }
}

/// The message is the words of the body where they are 512 characters or fewer, and else the
/// first 512 of them and a mark; a body without words is called empty.
pub proof fn law_the_message_is_the_beginning_of_the_body(text: Seq<char>, i: int)
    ensures
        ({
            let words = error_body::collapsed(text);
            let message = error_body::body_message(text);
            &&& words.len() == 0 ==> message == "upstream returned an empty error body"@
            &&& 0 < words.len() <= 512 ==> message == words
            &&& words.len() > 512 ==> message.len() == 512 + "... (truncated)"@.len()
            &&& words.len() > 512 && 0 <= i < 512 ==> message[i] == words[i]
            &&& words.len() > 512 && 512 <= i < message.len() ==> message[i]
                == "... (truncated)"@[i - 512]
        }),
{
}

} // verus!
