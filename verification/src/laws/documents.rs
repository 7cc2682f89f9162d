//! What reading and writing a document promises.

use vstd::prelude::*;

use crate::json;
use crate::json::{Json, JsonView};
use crate::text;

verus! {

/// A member that was set is read back, and every other member stays as it was.
pub proof fn law_set_member_is_read_back(
    doc: JsonView,
    key: Seq<char>,
    value: JsonView,
    other: Seq<char>,
)
    requires
        doc is Object || doc is Null,
    ensures
        doc.with_member(key, value) is Object,
        doc.with_member(key, value).member(key) == Some(value),
        other != key ==> doc.with_member(key, value).member(other) == doc.member(other),
        doc.with_optional(key, Some(value)) == doc.with_member(key, value),
        doc.with_optional(key, None) == doc,
{
}

/// Only an object has members, and it has those of its map.
pub proof fn law_members_are_those_of_the_object(doc: JsonView, key: Seq<char>, value: JsonView)
    ensures
        doc.member(key) == Some(value) <==> doc is Object && doc->Object_0.contains_key(key)
            && doc->Object_0[key] == value,
        json::member_of(Some(doc), key) == doc.member(key),
        json::member_of(None, key) is None,
        doc.takes_members() <==> doc is Null || doc is Object,
{
}

/// A document gives the value of its own kind and of no other.
pub proof fn law_a_document_is_of_one_kind(doc: JsonView, index: int)
    ensures
        doc is Text <==> doc.text() is Some,
        doc is Text ==> doc.text() == Some(doc->Text_0),
        doc is Unsigned <==> doc.unsigned() is Some,
        doc is Unsigned ==> doc.unsigned() == Some(doc->Unsigned_0),
        doc is Bool <==> doc.flag() is Some,
        doc is Bool ==> doc.flag() == Some(doc->Bool_0),
        doc is Array <==> doc.items() is Some,
        doc is Array ==> doc.items() == Some(doc->Array_0),
        doc is Array && 0 <= index < doc->Array_0.len() ==> doc.element(index) == Some(
            doc->Array_0[index],
        ),
        !(doc is Array) || index < 0 || index >= doc->Array_0.len() ==> doc.element(index) is None,
        json::text_of(Some(doc)) == doc.text(),
        json::unsigned_of(Some(doc)) == doc.unsigned(),
        json::flag_of(Some(doc)) == doc.flag(),
        json::items_of(Some(doc)) == doc.items(),
        json::element_of(Some(doc), index) == doc.element(index),
        json::text_of(None) is None,
        json::unsigned_of(None) is None,
        json::flag_of(None) is None,
        json::items_of(None) is None,
        json::element_of(None, index) is None,
{
}

/// A document in memory says what it holds.
pub proof fn law_a_document_says_what_it_holds(doc: Json)
    ensures
        doc is Null ==> doc@ == JsonView::Null,
        doc is Bool ==> doc@ == JsonView::Bool(doc->Bool_0),
        doc is Unsigned ==> doc@ == JsonView::Unsigned(doc->Unsigned_0),
        doc is Number ==> doc@ == (match json::number_u64(doc->Number_0) {
            Some(n) => JsonView::Unsigned(n),
            None => JsonView::Number(doc->Number_0),
        }),
        doc is Text ==> doc@ == JsonView::Text(doc->Text_0@),
        doc is Array ==> doc@ is Array && doc@->Array_0.len() == doc->Array_0@.len() && forall|i: int|
            0 <= i < doc->Array_0@.len() ==> #[trigger] doc@->Array_0[i] == doc->Array_0@[i]@,
        doc is Object ==> doc@ == JsonView::Object(json::members_view(doc->Object_0@)),
        json::opt_view(Some(&doc)) == Some(doc@),
        json::owned_view(Some(doc)) == Some(doc@),
        json::opt_view(None) is None,
        json::owned_view(None) is None,
{
    if doc is Array {
        json::lemma_items_view(doc->Array_0@);
    }
}

/// Of the entries of one key the last one counts, and an object in memory has no other keys.
pub proof fn law_last_member_of_a_key_counts(members: Seq<(String, Json)>, i: int)
    requires
        0 <= i < members.len(),
    ensures
        json::members_view(members).contains_key(members[i].0@),
        (forall|j: int| i < j < members.len() ==> (#[trigger] members[j]).0@ != members[i].0@)
            ==> json::members_view(members)[members[i].0@] == members[i].1@,
    decreases members.len(),
{
    let shorter = members.drop_last();
    let n = members.len() - 1;
    if i < n {
        law_last_member_of_a_key_counts(shorter, i);
        if forall|j: int| i < j < members.len() ==> (#[trigger] members[j]).0@ != members[i].0@ {
            assert(members[n].0@ != members[i].0@);
            assert forall|j: int| i < j < shorter.len() implies (#[trigger] shorter[j]).0@
                != shorter[i].0@ by {
                assert(shorter[j] == members[j]);
            }
        }
    }
}

/// An object in memory has no other keys than those of its entries.
pub proof fn law_no_member_comes_from_nowhere(members: Seq<(String, Json)>, key: Seq<char>)
    requires
        json::members_view(members).contains_key(key),
    ensures
        exists|i: int| 0 <= i < members.len() && (#[trigger] members[i]).0@ == key,
    decreases members.len(),
{
    if members.len() > 0 {
        let n = members.len() - 1;
        if members[n].0@ != key {
            law_no_member_comes_from_nowhere(members.drop_last(), key);
            let i = choose|i: int|
                0 <= i < members.drop_last().len() && (#[trigger] members.drop_last()[i]).0@ == key;
            assert(members[i].0@ == key);
        }
    }
}

/// The character of a digit.
pub proof fn law_digits_are_written_in_order(d: nat)
    requires
        d < 16,
    ensures
        text::digit_char(d) as int == (if d < 10 {
            '0' as int + d
        } else {
            'a' as int + d - 10
        }),
{
}

/// A number that is shifted by one place and gets a last digit is written with that digit behind
/// the others. A number below the base is its one digit.
pub proof fn law_a_number_is_written_digit_by_digit(n: nat, d: nat, base: nat)
    requires
        2 <= base <= 16,
        d < base,
    ensures
        text::digits(d, base) == seq![text::digit_char(d)],
        n > 0 ==> text::digits(n * base + d, base) == text::digits(n, base).push(
            text::digit_char(d),
        ),
{
    if n > 0 {
        assert(n * base + d >= base) by (nonlinear_arith)
            requires
                n > 0,
                base >= 2,
        ;
        vstd::arithmetic::div_mod::lemma_fundamental_div_mod_converse(
            (n * base + d) as int,
            base as int,
            n as int,
            d as int,
        );
    }
}

} // verus!
