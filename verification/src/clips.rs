//! Ordered lists of clips: looking clips up by identifier, removing them,
//! replacing their text, putting them in a requested order and merging them.
//!
//! The specification functions speak of `Seq<ClipView>`, the view of a list
//! of clips; the executable functions work on `Vec<ClipObject>`.

use vstd::prelude::*;
use crate::clip::{raw_status, ClipMetadata, ClipObject, ClipView};
use crate::clock::Timestamp;
use crate::ident::{
    contains_id, first_index_of, lemma_absent_is_not_found, lemma_first_at_is_found,
    lemma_first_index_of, stands_earlier,
};
use crate::laws::{law_reorder_keeps_ids_distinct, law_reorder_permutes};
use crate::text::{blank_line, join_blank_line, join_with};

verus! {

/// The identifiers of the clips, in order.
pub open spec fn ids_of(clips: Seq<ClipView>) -> Seq<Seq<char>> {
    Seq::new(clips.len(), |i: int| clips[i].id)
}

/// The texts of the clips, in order.
pub open spec fn contents_of(clips: Seq<ClipView>) -> Seq<Seq<char>> {
    Seq::new(clips.len(), |i: int| clips[i].content)
}

/// Some clip carries the identifier `id`.
pub open spec fn has_id(clips: Seq<ClipView>, id: Seq<char>) -> bool {
    ids_of(clips).contains(id)
}

/// No two clips carry the same identifier.
pub open spec fn distinct_ids(clips: Seq<ClipView>) -> bool {
    ids_of(clips).no_duplicates()
}

/// The place of the first clip that carries `id`, if there is one.
pub open spec fn position_of(clips: Seq<ClipView>, id: Seq<char>) -> Option<int> {
    first_index_of(ids_of(clips), id)
}

/// For each identifier in `ids`, in that order, the first clip that carries
/// it; identifiers that no clip carries are passed over.
pub open spec fn picked(clips: Seq<ClipView>, ids: Seq<Seq<char>>) -> Seq<ClipView>
    decreases ids.len(),
{
    if ids.len() == 0 {
        Seq::empty()
    } else {
        let before = picked(clips, ids.drop_last());
        match position_of(clips, ids.last()) {
            Some(i) => before.push(clips[i]),
            None => before,
        }
    }
}

/// For each identifier in `ids`, in that order, the first clip that carries
/// it, each clip once: an identifier that no clip carries is passed over,
/// and so is one that stands earlier in `ids`.
pub open spec fn picked_once(clips: Seq<ClipView>, ids: Seq<Seq<char>>) -> Seq<ClipView>
    decreases ids.len(),
{
    if ids.len() == 0 {
        Seq::empty()
    } else {
        let before = picked_once(clips, ids.drop_last());
        match position_of(clips, ids.last()) {
            Some(i) => if ids.drop_last().contains(ids.last()) {
                before
            } else {
                before.push(clips[i])
            },
            None => before,
        }
    }
}

/// The clips whose identifier is not among `ids`, in their old order.
pub open spec fn unrequested(clips: Seq<ClipView>, ids: Seq<Seq<char>>) -> Seq<ClipView>
    decreases clips.len(),
{
    if clips.len() == 0 {
        Seq::empty()
    } else {
        let before = unrequested(clips.drop_last(), ids);
        if ids.contains(clips.last().id) {
            before
        } else {
            before.push(clips.last())
        }
    }
}

/// The clips without those that carry `id`.
pub open spec fn without_id(clips: Seq<ClipView>, id: Seq<char>) -> Seq<ClipView> {
    unrequested(clips, seq![id])
}

/// The clips with the text of the first one that carries `id` replaced by
/// `content`; unchanged where no clip carries `id`.
pub open spec fn with_new_content(
    clips: Seq<ClipView>,
    id: Seq<char>,
    content: Seq<char>,
) -> Seq<ClipView> {
    match position_of(clips, id) {
        Some(i) => clips.update(i, clips[i].with_content(content)),
        None => clips,
    }
}

/// The clips in the order that `ids` asks for: first the clips that `ids`
/// names, each once, in the order in which `ids` first names them, then
/// every clip that `ids` does not name, in the old order.
pub open spec fn reordered(clips: Seq<ClipView>, ids: Seq<Seq<char>>) -> Seq<ClipView> {
    picked_once(clips, ids) + unrequested(clips, ids)
}

/// All the clips' text, a blank line between each two clips.
pub open spec fn all_content(clips: Seq<ClipView>) -> Seq<char> {
    join_with(contents_of(clips), blank_line())
}

/// The clip that merging the clips named by `ids` makes, under the identifier
/// `new_id`: their texts joined in the order of `ids`, with the metadata of
/// the first of them. Meaningful where `ids` names at least one clip.
pub open spec fn merged_clip(
    clips: Seq<ClipView>,
    ids: Seq<Seq<char>>,
    new_id: Seq<char>,
) -> ClipView {
    ClipView {
        id: new_id,
        content: all_content(picked(clips, ids)),
        metadata: picked(clips, ids)[0].metadata,
        status: raw_status(),
    }
}

/// The texts of the first clip under `a` and of the first clip under `b`,
/// a blank line between them. Meaningful where both are there.
pub open spec fn pair_content(clips: Seq<ClipView>, a: Seq<char>, b: Seq<char>) -> Seq<char> {
    clips[position_of(clips, a).unwrap()].content + blank_line() + clips[position_of(
        clips,
        b,
    ).unwrap()].content
}

/// The clips after a merge: the merged clip first, then the clips that `ids`
/// does not name.
pub open spec fn after_merge(
    clips: Seq<ClipView>,
    ids: Seq<Seq<char>>,
    new_id: Seq<char>,
) -> Seq<ClipView> {
    seq![merged_clip(clips, ids, new_id)] + unrequested(clips, ids)
}

/// Finds the first clip that carries `id`.
pub fn find_clip(clips: &Vec<ClipObject>, id: &str) -> (found: Option<usize>)
    ensures
        match found {
            Some(i) => i < clips.len() && position_of(clips.deep_view(), id@) == Some(i as int),
            None => position_of(clips.deep_view(), id@) is None,
        },
{
    let ghost ids = ids_of(clips.deep_view());
    let mut i: usize = 0;
    while i < clips.len()
        invariant
            i <= clips.len(),
            ids == ids_of(clips.deep_view()),
            forall|j: int| 0 <= j < i ==> #[trigger] ids[j] != id@,
        decreases clips.len() - i,
    {
        if *clips[i].id.as_str() == *id {
            proof {
                lemma_first_at_is_found(ids, id@, i as int);
            }
            return Some(i);
        }
        i += 1;
    }
    proof {
        lemma_absent_is_not_found(ids, id@);
    }
    None
}

/// Removes every clip that carries `id` and tells whether there was one.
pub fn remove_clip(clips: &mut Vec<ClipObject>, id: &str) -> (removed: bool)
    ensures
        final(clips).deep_view() == without_id(old(clips).deep_view(), id@),
        removed == has_id(old(clips).deep_view(), id@),
{
    let mut taken: Vec<ClipObject> = Vec::new();
    std::mem::swap(clips, &mut taken);
    let ghost before = taken.deep_view();
    let mut removed = false;
    for clip in it: taken
        invariant
            it.seq().len() == before.len(),
            forall|j: int| 0 <= j < before.len() ==> #[trigger] it.seq()[j]@ == before[j],
            clips.deep_view() == without_id(before.take(it.index()), id@),
            removed == has_id(before.take(it.index()), id@),
    {
        proof {
            let k = it.index();
            assert(before.take(k + 1).drop_last() =~= before.take(k));
            assert(seq![id@].contains(clip@.id) <==> clip@.id == id@) by {
                if clip@.id == id@ {
                    assert(seq![id@][0] == id@);
                }
            }
            lemma_has_id_push(before.take(k), clip@, id@);
            assert(before.take(k + 1) =~= before.take(k).push(clip@));
        }
        if *clip.id.as_str() == *id {
            removed = true;
        } else {
            clips.push(clip);
        }
    }
    proof {
        assert(before.take(before.len() as int) =~= before);
    }
    removed
}

/// Replaces the text of the first clip that carries `id` and tells whether
/// there was one.
pub fn replace_content(clips: &mut Vec<ClipObject>, id: &str, content: String) -> (found: bool)
    ensures
        final(clips).deep_view() == with_new_content(old(clips).deep_view(), id@, content@),
        found == has_id(old(clips).deep_view(), id@),
{
    proof {
        lemma_first_index_of(ids_of(clips.deep_view()), id@);
    }
    match find_clip(clips, id) {
        Some(i) => {
            clips[i].content = content;
            true
        },
        None => false,
    }
}

/// Moves the clips of `from` whose identifier is not among `ids` to the end
/// of `out`, in their order, and drops the others.
fn append_unrequested(out: &mut Vec<ClipObject>, from: Vec<ClipObject>, ids: &Vec<String>)
    ensures
        final(out).deep_view() == old(out).deep_view() + unrequested(
            from.deep_view(),
            ids.deep_view(),
        ),
{
    let ghost head = out.deep_view();
    let ghost source = from.deep_view();
    let ghost wanted = ids.deep_view();
    for clip in it: from
        invariant
            it.seq().len() == source.len(),
            forall|j: int| 0 <= j < source.len() ==> #[trigger] it.seq()[j]@ == source[j],
            wanted == ids.deep_view(),
            out.deep_view() == head + unrequested(source.take(it.index()), wanted),
    {
        proof {
            let k = it.index();
            assert(source.take(k + 1).drop_last() =~= source.take(k));
        }
        if !contains_id(ids, clip.id.as_str()) {
            let ghost kept = out.deep_view();
            out.push(clip);
            assert(out.deep_view() =~= kept.push(clip@));
        }
    }
    proof {
        assert(source.take(source.len() as int) =~= source);
    }
}

/// Puts the clips in the order that `ids` asks for. An identifier that no
/// clip carries is passed over, as is one that `ids` has named before, and
/// clips that `ids` does not name follow in their old order.
pub fn reorder(clips: &mut Vec<ClipObject>, ids: &Vec<String>)
    ensures
        final(clips).deep_view() == reordered(old(clips).deep_view(), ids.deep_view()),
        distinct_ids(old(clips).deep_view()) ==> {
            &&& final(clips).len() == old(clips).len()
            &&& final(clips).deep_view().to_multiset() == old(clips).deep_view().to_multiset()
            &&& distinct_ids(final(clips).deep_view())
        },
{
    proof {
        if distinct_ids(clips.deep_view()) {
            law_reorder_permutes(clips.deep_view(), ids.deep_view());
            law_reorder_keeps_ids_distinct(clips.deep_view(), ids.deep_view());
        }
    }
    let mut taken: Vec<ClipObject> = Vec::new();
    std::mem::swap(clips, &mut taken);
    let ghost before = taken.deep_view();
    let ghost wanted = ids.deep_view();
    let mut k: usize = 0;
    while k < ids.len()
        invariant
            k <= ids.len(),
            taken.deep_view() == before,
            wanted == ids.deep_view(),
            clips.deep_view() == picked_once(before, wanted.take(k as int)),
        decreases ids.len() - k,
    {
        proof {
            assert(wanted.take(k + 1).drop_last() =~= wanted.take(k as int));
        }
        if !stands_earlier(ids, k) {
            match find_clip(&taken, ids[k].as_str()) {
                Some(i) => {
                    clips.push(taken[i].clone());
                },
                None => {},
            }
        }
        k += 1;
    }
    proof {
        assert(wanted.take(wanted.len() as int) =~= wanted);
    }
    append_unrequested(clips, taken, ids);
}

/// Whether merging the clips that `ids` names can go ahead: `ids` holds at
/// least two identifiers and at least one of them is carried by a clip.
pub open spec fn mergeable(clips: Seq<ClipView>, ids: Seq<Seq<char>>) -> bool {
    ids.len() >= 2 && picked(clips, ids).len() > 0
}

/// Merges the clips that `ids` names into one clip under the identifier
/// `new_id`, puts it first and removes the clips that `ids` names. Nothing
/// changes where the merge cannot go ahead.
pub fn merge(clips: &mut Vec<ClipObject>, ids: &Vec<String>, new_id: String) -> (merged: Option<
    ClipObject,
>)
    ensures
        match merged {
            Some(clip) => {
                &&& mergeable(old(clips).deep_view(), ids.deep_view())
                &&& clip@ == merged_clip(old(clips).deep_view(), ids.deep_view(), new_id@)
                &&& final(clips).deep_view() == after_merge(
                    old(clips).deep_view(),
                    ids.deep_view(),
                    new_id@,
                )
            },
            None => {
                &&& !mergeable(old(clips).deep_view(), ids.deep_view())
                &&& final(clips).deep_view() == old(clips).deep_view()
            },
        },
{
    if ids.len() < 2 {
        return None;
    }
    let ghost before = clips.deep_view();
    let ghost wanted = ids.deep_view();
    let mut parts: Vec<&str> = Vec::new();
    let mut first_metadata: Option<ClipMetadata> = None;
    let mut k: usize = 0;
    while k < ids.len()
        invariant
            k <= ids.len(),
            clips.deep_view() == before,
            wanted == ids.deep_view(),
            parts.deep_view() == contents_of(picked(before, wanted.take(k as int))),
            match first_metadata {
                Some(metadata) => parts.len() > 0 && metadata@ == picked(
                    before,
                    wanted.take(k as int),
                )[0].metadata,
                None => parts.len() == 0,
            },
        decreases ids.len() - k,
    {
        proof {
            assert(wanted.take(k + 1).drop_last() =~= wanted.take(k as int));
        }
        match find_clip(clips, ids[k].as_str()) {
            Some(i) => {
                let ghost texts = parts.deep_view();
                parts.push(clips[i].content.as_str());
                assert(parts.deep_view() =~= texts.push(before[i as int].content));
                if first_metadata.is_none() {
                    first_metadata = Some(clips[i].metadata.clone());
                }
            },
            None => {},
        }
        k += 1;
    }
    proof {
        assert(wanted.take(wanted.len() as int) =~= wanted);
    }
    if parts.len() == 0 {
        return None;
    }
    let content = join_blank_line(&parts);
    let metadata = match first_metadata {
        Some(metadata) => metadata,
        // A stand-in, should no metadata have been captured. The contract
        // shows that it never comes to this: every text in `parts` came
        // with the metadata of its clip.
        None => ClipMetadata {
            timestamp: Timestamp::now(),
            source_app: "Stack".to_string(),
            window_title: "Merged Clip".to_string(),
        },
    };
    let new_clip = ClipObject { id: new_id, content, metadata, status: "raw".to_string() };
    let mut taken: Vec<ClipObject> = Vec::new();
    std::mem::swap(clips, &mut taken);
    clips.push(new_clip.clone());
    append_unrequested(clips, taken, ids);
    Some(new_clip)
}

/// All the clips' text in order, a blank line between each two clips.
pub fn joined_content(clips: &Vec<ClipObject>) -> (text: String)
    ensures
        text@ == all_content(clips.deep_view()),
{
    let mut parts: Vec<&str> = Vec::new();
    let mut i: usize = 0;
    while i < clips.len()
        invariant
            i <= clips.len(),
            parts.deep_view() == contents_of(clips.deep_view().take(i as int)),
        decreases clips.len() - i,
    {
        let ghost texts = parts.deep_view();
        parts.push(clips[i].content.as_str());
        assert(parts.deep_view() =~= texts.push(clips[i as int]@.content));
        i += 1;
    }
    proof {
        assert(clips.deep_view().take(clips.len() as int) =~= clips.deep_view());
    }
    join_blank_line(&parts)
}

/// A list with one more clip at its end has `id` exactly when the list had
/// it or the new clip carries it.
pub proof fn lemma_has_id_push(clips: Seq<ClipView>, clip: ClipView, id: Seq<char>)
    ensures
        has_id(clips.push(clip), id) <==> has_id(clips, id) || clip.id == id,
{
    let longer = clips.push(clip);
    assert(ids_of(longer) =~= ids_of(clips).push(clip.id));
    if has_id(clips, id) {
        let j = choose|j: int| 0 <= j < ids_of(clips).len() && ids_of(clips)[j] == id;
        assert(ids_of(longer)[j] == id);
    }
    if clip.id == id {
        assert(ids_of(longer)[clips.len() as int] == id);
    }
}

} // verus!
