//! Indexes from names to positions in a run.

use vstd::prelude::*;

verus! {

/// Whether `i` is the last position of `keys` that holds `key`.
pub open spec fn is_last_position(keys: Seq<Option<Seq<char>>>, key: Seq<char>, i: int) -> bool {
    &&& 0 <= i < keys.len()
    &&& keys[i] == Some(key)
    &&& forall|j: int| i < j < keys.len() ==> keys[j] != Some(key)
}

/// The position that each name stands for: names are entered from the
/// front of the run, and a name that comes again replaces the earlier entry.
/// A position without a name enters nothing.
pub open spec fn position_index(keys: Seq<Option<Seq<char>>>) -> Map<Seq<char>, usize>
    decreases keys.len(),
{
    if keys.len() == 0 {
        Map::empty()
    } else {
        let earlier = position_index(keys.drop_last());
        match keys.last() {
            Some(key) => earlier.insert(key, (keys.len() - 1) as usize),
            None => earlier,
        }
    }
}

/// The run in which every position has the name given for it.
pub open spec fn all_named(names: Seq<Seq<char>>) -> Seq<Option<Seq<char>>> {
    Seq::new(names.len(), |i: int| Some(names[i]))
}

/// The index knows exactly the names that stand somewhere in the run, and
/// gives for each the last position that holds it.
pub proof fn lemma_position_index(keys: Seq<Option<Seq<char>>>)
    requires
        keys.len() <= usize::MAX,
    ensures
        forall|key: Seq<char>| #[trigger]
            position_index(keys).contains_key(key) <==> keys.contains(Some(key)),
        forall|key: Seq<char>| #[trigger]
            position_index(keys).contains_key(key) ==> is_last_position(
                keys,
                key,
                position_index(keys)[key] as int,
            ),
    decreases keys.len(),
{
    if keys.len() > 0 {
        let earlier = keys.drop_last();
        lemma_position_index(earlier);
        assert forall|key: Seq<char>| #[trigger]
            position_index(keys).contains_key(key) <==> keys.contains(Some(key)) by {
            if keys.contains(Some(key)) && keys.last() != Some(key) {
                let i = choose|i: int| 0 <= i < keys.len() && keys[i] == Some(key);
                assert(earlier[i] == Some(key));
                assert(position_index(earlier).contains_key(key));
            }
            if position_index(keys).contains_key(key) && keys.last() != Some(key) {
                assert(position_index(earlier).contains_key(key));
            }
        }
        assert forall|key: Seq<char>| #[trigger]
            position_index(keys).contains_key(key) implies is_last_position(
            keys,
            key,
            position_index(keys)[key] as int,
        ) by {
            if keys.last() != Some(key) {
                let i = position_index(earlier)[key] as int;
                assert forall|j: int| i < j < keys.len() implies keys[j] != Some(key) by {
                    if j < keys.len() - 1 {
                        assert(earlier[j] == keys[j]);
                    }
                }
            }
        }
    }
}

} // verus!
