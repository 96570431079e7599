//! Named attributes of keystore items.

use vstd::prelude::*;

use crate::text::same;

verus! {

/// The characters of a list of attributes.
pub open spec fn pairs(list: Seq<(&str, &str)>) -> Seq<(Seq<char>, Seq<char>)> {
    list.map_values(|pair: (&str, &str)| (pair.0@, pair.1@))
}

/// The characters of a list of attributes.
pub open spec fn owned_pairs(list: Seq<(String, String)>) -> Seq<(Seq<char>, Seq<char>)> {
    list.map_values(|pair: (String, String)| (pair.0@, pair.1@))
}

/// The value of the first attribute of a name.
pub open spec fn lookup(list: Seq<(Seq<char>, Seq<char>)>, name: Seq<char>) -> Option<Seq<char>>
    decreases list.len(),
{
    if list.len() == 0 {
        None
    } else if list[0].0 == name {
        Some(list[0].1)
    } else {
        lookup(list.drop_first(), name)
    }
}

/// The value of the first attribute of a name.
pub(crate) fn find<'a>(list: &'a Vec<(String, String)>, name: &str) -> (r: Option<&'a String>)
    ensures
        (match r {
            Some(value) => Some(value@),
            None => None,
        }) == lookup(owned_pairs(list@), name@),
{
    let ghost all = owned_pairs(list@);
    let mut i: usize = 0;
    assert(all.skip(0) =~= all);
    while i < list.len()
        invariant
            i <= list@.len(),
            all == owned_pairs(list@),
            lookup(all.skip(i as int), name@) == lookup(all, name@),
        decreases list@.len() - i,
    {
        assert(all.skip(i as int)[0] == all[i as int]);
        assert(all.skip(i as int).drop_first() =~= all.skip(i + 1));
        if same(list[i].0.as_str(), name) {
            return Some(&list[i].1);
        }
        i += 1;
    }
    None
}

/// An attribute is looked up by its name: what is found is the value of the first
/// attribute of that name, and nothing is found exactly if there is none.
pub proof fn the_first_of_a_name_is_found(list: Seq<(Seq<char>, Seq<char>)>, name: Seq<char>)
    ensures
        lookup(list, name) is Some <==> exists|i: int|
            0 <= i < list.len() && (#[trigger] list[i]).0 == name,
        lookup(list, name) matches Some(value) ==> exists|i: int|
            {
                &&& 0 <= i < list.len()
                &&& #[trigger] list[i] == (name, value)
                &&& forall|j: int| 0 <= j < i ==> (#[trigger] list[j]).0 != name
            },
    decreases list.len(),
{
    if list.len() > 0 {
        let rest = list.drop_first();
        if list[0].0 != name {
            the_first_of_a_name_is_found(rest, name);
            if lookup(rest, name) is Some {
                let value = lookup(rest, name)->0;
                let i = choose|i: int|
                    {
                        &&& 0 <= i < rest.len()
                        &&& #[trigger] rest[i] == (name, value)
                        &&& forall|j: int| 0 <= j < i ==> (#[trigger] rest[j]).0 != name
                    };
                assert(list[i + 1] == (name, value));
                assert forall|j: int| 0 <= j < i + 1 implies (#[trigger] list[j]).0 != name by {
                    if j > 0 {
                        assert(rest[j - 1] == list[j]);
                    }
                }
            } else {
                assert forall|i: int| 0 <= i < list.len() implies (#[trigger] list[i]).0
                    != name by {
                    if i > 0 {
                        assert(rest[i - 1] == list[i]);
                    }
                }
            }
        } else {
            assert(list[0] == (name, list[0].1));
        }
    }
}

} // verus!
