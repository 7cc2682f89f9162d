//! Further dimensions of a usage report: a map from names to values.

use vstd::prelude::*;

use crate::json::{no_members, Json, JsonView};
use crate::text::str_eq;

verus! {

/// Dimensions of a report. A name occurs once.
pub struct Dimensions {
    entries: Vec<(String, String)>,
}

/// What a list of names and values says, one by one.
pub open spec fn pairs_view(pairs: Seq<(String, String)>) -> Seq<(Seq<char>, Seq<char>)> {
    pairs.map_values(|pair: (String, String)| (pair.0@, pair.1@))
}

/// The map that a list of names and values makes: a later entry takes the place of an earlier one
/// of its name.
pub open spec fn map_of(pairs: Seq<(Seq<char>, Seq<char>)>) -> Map<Seq<char>, Seq<char>>
    decreases pairs.len(),
{
    if pairs.len() == 0 {
        Map::empty()
    } else {
        map_of(pairs.drop_last()).insert(pairs.last().0, pairs.last().1)
    }
}

/// No name occurs twice in a list of names and values.
pub open spec fn names_are_distinct(pairs: Seq<(Seq<char>, Seq<char>)>) -> bool {
    forall|i: int, j: int|
        0 <= i < j < pairs.len() ==> (#[trigger] pairs[i]).0 != (#[trigger] pairs[j]).0
}

/// Of the entries of one name the last one counts, and the map has no other names than the list.
pub proof fn law_last_entry_of_a_name_counts(pairs: Seq<(Seq<char>, Seq<char>)>)
    ensures
        forall|i: int|
            0 <= i < pairs.len() ==> map_of(pairs).contains_key((#[trigger] pairs[i]).0),
        forall|i: int|
            0 <= i < pairs.len() && (forall|j: int|
                i < j < pairs.len() ==> (#[trigger] pairs[j]).0 != pairs[i].0) ==> map_of(
                pairs,
            )[(#[trigger] pairs[i]).0] == pairs[i].1,
        forall|name: Seq<char>| #[trigger]
            map_of(pairs).contains_key(name) ==> exists|i: int|
                0 <= i < pairs.len() && (#[trigger] pairs[i]).0 == name,
    decreases pairs.len(),
{
    if pairs.len() > 0 {
        let shorter = pairs.drop_last();
        let n = pairs.len() - 1;
        law_last_entry_of_a_name_counts(shorter);
        assert forall|i: int| 0 <= i < pairs.len() implies map_of(pairs).contains_key(
            (#[trigger] pairs[i]).0,
        ) by {
            if i < n {
                assert(shorter[i] == pairs[i]);
            }
        }
        assert forall|i: int|
            0 <= i < pairs.len() && (forall|j: int|
                i < j < pairs.len() ==> (#[trigger] pairs[j]).0 != pairs[i].0) implies map_of(
            pairs,
        )[(#[trigger] pairs[i]).0] == pairs[i].1 by {
            if i < n {
                assert(shorter[i] == pairs[i]);
                assert(pairs[n].0 != pairs[i].0);
                assert forall|j: int| i < j < shorter.len() implies (#[trigger] shorter[j]).0
                    != shorter[i].0 by {
                    assert(shorter[j] == pairs[j]);
                }
            }
        }
        assert forall|name: Seq<char>| #[trigger] map_of(pairs).contains_key(name) implies exists|
            i: int,
        |
            0 <= i < pairs.len() && (#[trigger] pairs[i]).0 == name by {
            if name == pairs[n].0 {
                assert(0 <= n < pairs.len() && pairs[n].0 == name);
            } else {
                assert(map_of(shorter).contains_key(name));
                let i = choose|i: int| 0 <= i < shorter.len() && (#[trigger] shorter[i]).0 == name;
                assert(pairs[i].0 == name);
            }
        }
    }
}

/// Entries of distinct names make a map that gives each name its value.
proof fn lemma_distinct(pairs: Seq<(Seq<char>, Seq<char>)>, i: int)
    requires
        names_are_distinct(pairs),
        0 <= i < pairs.len(),
    ensures
        map_of(pairs).contains_key(pairs[i].0),
        map_of(pairs)[pairs[i].0] == pairs[i].1,
{
    law_last_entry_of_a_name_counts(pairs);
}

/// A new value at the place of a name sets that name in the map.
proof fn lemma_update(pairs: Seq<(Seq<char>, Seq<char>)>, at: int, value: Seq<char>)
    requires
        names_are_distinct(pairs),
        0 <= at < pairs.len(),
    ensures
        names_are_distinct(pairs.update(at, (pairs[at].0, value))),
        map_of(pairs.update(at, (pairs[at].0, value))) == map_of(pairs).insert(pairs[at].0, value),
{
    let name = pairs[at].0;
    let updated = pairs.update(at, (name, value));
    let before = map_of(pairs);
    let after = map_of(updated);
    assert forall|i: int| 0 <= i < pairs.len() implies (#[trigger] updated[i]).0 == pairs[i].0 by {}
    law_last_entry_of_a_name_counts(pairs);
    law_last_entry_of_a_name_counts(updated);
    assert forall|other: Seq<char>| after.contains_key(other) == before.insert(
        name,
        value,
    ).contains_key(other) by {
        if after.contains_key(other) {
            let i = choose|i: int| 0 <= i < updated.len() && (#[trigger] updated[i]).0 == other;
            assert(before.contains_key(pairs[i].0));
        }
        if before.insert(name, value).contains_key(other) {
            if other == name {
                assert(after.contains_key(updated[at].0));
            } else {
                let i = choose|i: int| 0 <= i < pairs.len() && (#[trigger] pairs[i]).0 == other;
                assert(after.contains_key(updated[i].0));
            }
        }
    }
    assert forall|other: Seq<char>| after.contains_key(other) implies after[other] == before.insert(
        name,
        value,
    )[other] by {
        let i = choose|i: int| 0 <= i < updated.len() && (#[trigger] updated[i]).0 == other;
        lemma_distinct(updated, i);
        lemma_distinct(pairs, i);
    }
    assert(after =~= before.insert(name, value));
}

impl View for Dimensions {
    type V = Map<Seq<char>, Seq<char>>;

    closed spec fn view(&self) -> Map<Seq<char>, Seq<char>> {
        map_of(pairs_view(self.entries@))
    }
}

/// The document of dimensions: an object of texts.
pub open spec fn dimensions_document(dimensions: Map<Seq<char>, Seq<char>>) -> JsonView {
    JsonView::Object(dimensions.map_values(|value: Seq<char>| JsonView::Text(value)))
}

impl Dimensions {
    #[verifier::type_invariant]
    spec fn well_formed(self) -> bool {
        names_are_distinct(pairs_view(self.entries@))
    }

    /// No dimensions.
    pub fn new() -> (res: Dimensions)
        ensures
            (res@ == Map::<Seq<char>, Seq<char>>::empty()),
    {
        Dimensions { entries: Vec::new() }
    }

    /// The dimensions of a list of names and values.
    pub fn from_pairs(pairs: Vec<(String, String)>) -> (res: Dimensions)
        ensures
            res@ == map_of(pairs_view(pairs@)),
    {
        let mut res = Dimensions::new();
        let ghost all = pairs_view(pairs@);
        for i in 0..pairs.len()
            invariant
                all == pairs_view(pairs@),
                res@ == map_of(all.take(i as int)),
        {
            assert(all.take(i + 1).drop_last() == all.take(i as int));
            res.insert(pairs[i].0.clone(), pairs[i].1.clone());
        }
        assert(all.take(all.len() as int) == all);
        res
    }

    /// Sets the value of a name, in place of an earlier one.
    pub fn insert(&mut self, name: String, value: String)
        ensures
            final(self)@ == old(self)@.insert(name@, value@),
    {
        let mut entries: Vec<(String, String)> = Vec::new();
        proof {
            use_type_invariant(&*self);
        }
        std::mem::swap(&mut self.entries, &mut entries);
        let ghost before = pairs_view(entries@);
        let mut at: Option<usize> = None;
        for i in 0..entries.len()
            invariant
                before == pairs_view(entries@),
                match at {
                    Some(found) => found < i && before[found as int].0 == name@,
                    None => forall|j: int| 0 <= j < i ==> (#[trigger] before[j]).0 != name@,
                },
        {
            assert(before[i as int] == (entries[i as int].0@, entries[i as int].1@));
            if str_eq(entries[i].0.as_str(), name.as_str()) {
                at = Some(i);
            }
        }
        match at {
            Some(found) => {
                proof {
                    lemma_update(before, found as int, value@);
                }
                entries.set(found, (name, value));
                assert(pairs_view(entries@) =~= before.update(
                    found as int,
                    (before[found as int].0, value@),
                ));
            },
            None => {
                entries.push((name, value));
                assert(pairs_view(entries@) =~= before.push((name@, value@)));
                assert(pairs_view(entries@).drop_last() =~= before);
            },
        }
        std::mem::swap(&mut self.entries, &mut entries);
    }

    /// Whether there are no dimensions.
    pub fn is_empty(&self) -> (res: bool)
        ensures
            res == (self@ == Map::<Seq<char>, Seq<char>>::empty()),
    {
        proof {
            law_last_entry_of_a_name_counts(pairs_view(self.entries@));
            if self.entries@.len() > 0 {
                assert(self@.contains_key(pairs_view(self.entries@)[0].0));
            }
        }
        self.entries.len() == 0
    }

    /// The dimensions as a document.
    pub fn document(&self) -> (res: Json)
        ensures
            res@ == dimensions_document(self@),
    {
        let mut doc = no_members();
        let ghost all = pairs_view(self.entries@);
        assert(dimensions_document(map_of(all.take(0)))->Object_0 =~= Map::empty());
        for i in 0..self.entries.len()
            invariant
                all == pairs_view(self.entries@),
                doc@ == dimensions_document(map_of(all.take(i as int))),
        {
            let ghost before = map_of(all.take(i as int));
            assert(all.take(i + 1).drop_last() == all.take(i as int));
            doc.set(self.entries[i].0.as_str(), Json::Text(self.entries[i].1.clone()));
            assert(doc@->Object_0 =~= dimensions_document(map_of(all.take(i + 1)))->Object_0);
        }
        assert(all.take(all.len() as int) == all);
        doc
    }
}

} // verus!
