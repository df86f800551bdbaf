//! Identifiers: making fresh ones and looking them up in a list.

use vstd::prelude::*;

verus! {

/// `c` is a digit or one of the letters `a` to `f`.
pub open spec fn is_lower_hex(c: char) -> bool {
    ('0' <= c && c <= '9') || ('a' <= c && c <= 'f')
}

/// `id` is written the way fresh identifiers are: 36 characters, five groups
/// of lower-case hexadecimal digits with a hyphen between each two groups,
/// the third group starting with `4` and the fourth with `8`, `9`, `a` or `b`.
pub open spec fn is_fresh_id(id: Seq<char>) -> bool {
    &&& id.len() == 36
    &&& forall|i: int|
        0 <= i < 36 ==> if i == 8 || i == 13 || i == 18 || i == 23 {
            #[trigger] id[i] == '-'
        } else {
            is_lower_hex(id[i])
        }
    &&& id[14] == '4'
    &&& (id[19] == '8' || id[19] == '9' || id[19] == 'a' || id[19] == 'b')
}

/// Calls `uuid::Uuid::new_v4` and writes the result out with `to_string`.
///
/// The identifier is random. What is claimed is only how it is written:
/// `to_string` gives the hyphenated lower-case form, and `new_v4` sets the
/// digits that mark the version and the variant of the identifier.
/// `new_v4` does not return when the system's source of randomness fails.
#[verifier::external_body]
pub(crate) fn fresh_id() -> (id: String)
    ensures
        is_fresh_id(id@),
{
    uuid::Uuid::new_v4().to_string()
}

/// `i` is the first place in `ids` where `id` stands.
pub open spec fn is_first_at(ids: Seq<Seq<char>>, id: Seq<char>, i: int) -> bool {
    &&& 0 <= i < ids.len()
    &&& ids[i] == id
    &&& forall|j: int| 0 <= j < i ==> #[trigger] ids[j] != id
}

/// The first place in `ids` where `id` stands, if it stands anywhere.
pub open spec fn first_index_of(ids: Seq<Seq<char>>, id: Seq<char>) -> Option<int>
    decreases ids.len(),
{
    if ids.len() == 0 {
        None
    } else {
        match first_index_of(ids.drop_last(), id) {
            Some(i) => Some(i),
            None => if ids.last() == id {
                Some(ids.len() - 1)
            } else {
                None
            },
        }
    }
}

/// [`first_index_of`] finds the first place where `id` stands, and finds
/// nothing only where `id` does not occur.
pub proof fn lemma_first_index_of(ids: Seq<Seq<char>>, id: Seq<char>)
    ensures
        match first_index_of(ids, id) {
            Some(i) => is_first_at(ids, id, i),
            None => !ids.contains(id),
        },
    decreases ids.len(),
{
    if ids.len() > 0 {
        lemma_first_index_of(ids.drop_last(), id);
        match first_index_of(ids.drop_last(), id) {
            Some(i) => {
                assert forall|j: int| 0 <= j < i implies #[trigger] ids[j] != id by {
                    assert(ids.drop_last()[j] == ids[j]);
                }
            },
            None => {
                assert forall|j: int| 0 <= j < ids.len() - 1 implies #[trigger] ids[j] != id by {
                    assert(ids.drop_last()[j] == ids[j]);
                }
            },
        }
    }
}

/// Where `id` first stands at `i`, that is what [`first_index_of`] finds.
pub proof fn lemma_first_at_is_found(ids: Seq<Seq<char>>, id: Seq<char>, i: int)
    requires
        is_first_at(ids, id, i),
    ensures
        first_index_of(ids, id) == Some(i),
{
    lemma_first_index_of(ids, id);
}

/// Where `id` occurs nowhere, [`first_index_of`] finds nothing.
pub proof fn lemma_absent_is_not_found(ids: Seq<Seq<char>>, id: Seq<char>)
    requires
        forall|j: int| 0 <= j < ids.len() ==> #[trigger] ids[j] != id,
    ensures
        first_index_of(ids, id) is None,
        !ids.contains(id),
{
    lemma_first_index_of(ids, id);
}

/// Tells whether `id` is among `ids`.
pub fn contains_id(ids: &Vec<String>, id: &str) -> (found: bool)
    ensures
        found == ids.deep_view().contains(id@),
{
    let mut i: usize = 0;
    while i < ids.len()
        invariant
            i <= ids.len(),
            forall|j: int| 0 <= j < i ==> #[trigger] ids.deep_view()[j] != id@,
        decreases ids.len() - i,
    {
        if *ids[i].as_str() == *id {
            assert(ids.deep_view()[i as int] == id@);
            return true;
        }
        i += 1;
    }
    false
}

/// Tells whether the identifier at `at` already stands earlier in `ids`.
pub(crate) fn stands_earlier(ids: &Vec<String>, at: usize) -> (earlier: bool)
    requires
        at < ids.len(),
    ensures
        earlier == ids.deep_view().take(at as int).contains(ids[at as int]@),
{
    let ghost before = ids.deep_view().take(at as int);
    let mut i: usize = 0;
    while i < at
        invariant
            i <= at < ids.len(),
            before == ids.deep_view().take(at as int),
            forall|j: int| 0 <= j < i ==> #[trigger] before[j] != ids[at as int]@,
        decreases at - i,
    {
        if ids[i] == ids[at] {
            assert(before[i as int] == ids[at as int]@);
            return true;
        }
        i += 1;
    }
    false
}

} // verus!
