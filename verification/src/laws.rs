//! Laws that relate the operations on a list of clips and on the store.
//!
//! Each law is stated over the views, so it holds of every run of the
//! executable operations, whose contracts say that they compute these
//! functions.

use vstd::multiset::Multiset;
use vstd::prelude::*;
use crate::clip::ClipView;
use crate::clips::{
    after_merge, all_content, distinct_ids, has_id, ids_of, merged_clip, pair_content, picked,
    picked_once, position_of, reordered, unrequested, with_new_content, without_id,
};
use crate::ident::{
    first_index_of, lemma_absent_is_not_found, lemma_first_at_is_found, lemma_first_index_of,
};
use crate::pastebook::PastebookView;
use crate::storage::{pastebook_ids, StorageView};
use crate::text::{
    blank_line, is_blank, join_with, trimmed, trimmed_end, trimmed_start, white_space,
};

verus! {

/// The store after the clips of `clips` were added one after another, the
/// first of them first.
pub open spec fn after_adds(store: StorageView, clips: Seq<ClipView>) -> StorageView
    decreases clips.len(),
{
    if clips.len() == 0 {
        store
    } else {
        after_adds(store, clips.drop_last()).add_clip(clips.last())
    }
}

/// Replacing the active pastebook's clips changes nothing else: the same
/// pastebooks are there under the same identifiers, the same one is active,
/// and it holds the new clips.
pub proof fn lemma_with_active_clips(store: StorageView, clips: Seq<ClipView>)
    ensures
        pastebook_ids(store.with_active_clips(clips).pastebooks) == pastebook_ids(store.pastebooks),
        store.with_active_clips(clips).active_pastebook_id == store.active_pastebook_id,
        store.with_active_clips(clips).api_key == store.api_key,
        store.with_active_clips(clips).active_index() == store.active_index(),
        store.active_index() is Some ==> store.with_active_clips(clips).active_clips() == clips,
        store.with_active_clips(store.active_clips()) == store,
        store.well_formed() ==> store.with_active_clips(clips).well_formed(),
{
    match store.active_index() {
        Some(i) => {
            lemma_first_index_of(pastebook_ids(store.pastebooks), store.active_pastebook_id.unwrap());
            assert(store.with_active_clips(store.active_clips()).pastebooks =~= store.pastebooks);
        },
        None => {},
    }
}

/// A store on first use holds exactly one pastebook, which is active and
/// empty.
pub proof fn law_fresh_store(store: StorageView)
    requires
        store.is_fresh(),
    ensures
        store.pastebooks.len() == 1,
        store.active_pastebook_id == Some(store.pastebooks[0].id),
        store.active_index() == Some(0int),
        store.active_clips().len() == 0,
        store.well_formed(),
{
    lemma_first_at_is_found(pastebook_ids(store.pastebooks), store.pastebooks[0].id, 0);
}

/// Clips added one after another stack up: the active pastebook then holds
/// them newest first, in front of the clips it held before, so its length
/// grew by the number of clips added. Where no pastebook is active no add
/// succeeds and the store stays as it was.
pub proof fn law_adds_stack_up(store: StorageView, clips: Seq<ClipView>)
    ensures
        after_adds(store, clips).active_index() == store.active_index(),
        store.active_index() is Some ==> after_adds(store, clips).active_clips()
            == clips.reverse() + store.active_clips(),
        store.active_index() is Some ==> after_adds(store, clips).active_clips().len()
            == store.active_clips().len() + clips.len(),
        store.active_index() is None ==> after_adds(store, clips) == store,
    decreases clips.len(),
{
    if clips.len() > 0 {
        let earlier = after_adds(store, clips.drop_last());
        law_adds_stack_up(store, clips.drop_last());
        lemma_with_active_clips(earlier, seq![clips.last()] + earlier.active_clips());
    }
}

/// Where every clip's identifier is named by `a` exactly when it is named
/// by `b`, the two leave the same clips unrequested.
pub proof fn lemma_unrequested_by_membership(
    clips: Seq<ClipView>,
    a: Seq<Seq<char>>,
    b: Seq<Seq<char>>,
)
    requires
        forall|j: int|
            0 <= j < clips.len() ==> (a.contains(#[trigger] clips[j].id) <==> b.contains(
                clips[j].id,
            )),
    ensures
        unrequested(clips, a) == unrequested(clips, b),
    decreases clips.len(),
{
    if clips.len() > 0 {
        assert forall|j: int| 0 <= j < clips.drop_last().len() implies (a.contains(
            #[trigger] clips.drop_last()[j].id,
        ) <==> b.contains(clips.drop_last()[j].id)) by {}
        lemma_unrequested_by_membership(clips.drop_last(), a, b);
    }
}

/// Where `ids` names none of the clips, all of them are unrequested.
pub proof fn lemma_unrequested_all(clips: Seq<ClipView>, ids: Seq<Seq<char>>)
    requires
        forall|j: int| 0 <= j < clips.len() ==> !ids.contains(#[trigger] clips[j].id),
    ensures
        unrequested(clips, ids) == clips,
    decreases clips.len(),
{
    if clips.len() > 0 {
        assert forall|j: int| 0 <= j < clips.drop_last().len() implies !ids.contains(
            #[trigger] clips.drop_last()[j].id,
        ) by {}
        lemma_unrequested_all(clips.drop_last(), ids);
    }
}

/// The unrequested clips are clips of the list, none of them named by
/// `ids`, and every clip that `ids` does not name is among them.
pub proof fn lemma_unrequested_members(clips: Seq<ClipView>, ids: Seq<Seq<char>>)
    ensures
        unrequested(clips, ids).len() <= clips.len(),
        forall|j: int|
            0 <= j < unrequested(clips, ids).len() ==> {
                &&& clips.contains(#[trigger] unrequested(clips, ids)[j])
                &&& !ids.contains(unrequested(clips, ids)[j].id)
            },
        forall|j: int|
            0 <= j < clips.len() && !ids.contains(clips[j].id) ==> unrequested(
                clips,
                ids,
            ).contains(#[trigger] clips[j]),
    decreases clips.len(),
{
    if clips.len() > 0 {
        let shorter = clips.drop_last();
        lemma_unrequested_members(shorter, ids);
        let kept = unrequested(clips, ids);
        assert forall|j: int| 0 <= j < kept.len() implies {
            &&& clips.contains(#[trigger] kept[j])
            &&& !ids.contains(kept[j].id)
        } by {
            if j < unrequested(shorter, ids).len() {
                let k = choose|k: int| 0 <= k < shorter.len() && shorter[k] == kept[j];
                assert(clips[k] == kept[j]);
            } else {
                assert(clips[clips.len() - 1] == kept[j]);
            }
        }
        assert forall|j: int| 0 <= j < clips.len() && !ids.contains(clips[j].id) implies kept.contains(
            #[trigger] clips[j],
        ) by {
            if j < shorter.len() {
                let c = shorter[j];
                let k = choose|k: int|
                    0 <= k < unrequested(shorter, ids).len() && unrequested(shorter, ids)[k] == c;
                assert(kept[k] == c);
            } else {
                assert(kept[kept.len() - 1] == clips[j]);
            }
        }
    }
}

/// Deleting an identifier that no clip of the active pastebook carries
/// leaves the store as it was.
pub proof fn law_delete_absent_clip(store: StorageView, id: Seq<char>)
    requires
        !has_id(store.active_clips(), id),
    ensures
        without_id(store.active_clips(), id) == store.active_clips(),
        store.delete_clip(id) == store,
{
    let clips = store.active_clips();
    assert forall|j: int| 0 <= j < clips.len() implies !seq![id].contains(
        #[trigger] clips[j].id,
    ) by {
        assert(ids_of(clips)[j] == clips[j].id);
    }
    lemma_unrequested_all(clips, seq![id]);
    lemma_with_active_clips(store, clips);
}

/// A merge of fewer than two identifiers does not go ahead and leaves the
/// store as it was.
pub proof fn law_merge_needs_two(store: StorageView, ids: Seq<Seq<char>>, new_id: Seq<char>)
    requires
        ids.len() < 2,
    ensures
        !store.can_merge(ids),
        store.merge_clips(ids, new_id) == store,
{
}

/// The only pastebook of a store cannot be deleted: the store stays as it
/// was, and where that pastebook was active it still is.
pub proof fn law_last_pastebook_stays(store: StorageView, id: Seq<char>)
    requires
        store.pastebooks.len() == 1,
    ensures
        store.delete_pastebook(id) == store,
        store.well_formed() ==> store.delete_pastebook(id).active_index() == Some(0int),
{
    if store.well_formed() {
        lemma_first_index_of(pastebook_ids(store.pastebooks), store.active_pastebook_id.unwrap());
    }
}

/// The joined text of no clips is empty.
pub proof fn law_no_clips_no_content()
    ensures
        all_content(Seq::empty()) == Seq::<char>::empty(),
{
}

/// The joined text of one clip is its text, and that of two clips is their
/// texts with a blank line between them.
pub proof fn law_all_content_small(a: ClipView, b: ClipView)
    ensures
        all_content(seq![a]) == a.content,
        all_content(seq![a, b]) == a.content + blank_line() + b.content,
{
    reveal_with_fuel(join_with, 3);
}

/// An identifier that no clip carries changes nothing at the end of a
/// request.
proof fn lemma_unrequested_push_absent(clips: Seq<ClipView>, ids: Seq<Seq<char>>, x: Seq<char>)
    requires
        !has_id(clips, x),
    ensures
        unrequested(clips, ids.push(x)) == unrequested(clips, ids),
{
    assert forall|j: int| 0 <= j < clips.len() implies (ids.push(x).contains(
        #[trigger] clips[j].id,
    ) <==> ids.contains(clips[j].id)) by {
        assert(ids_of(clips)[j] == clips[j].id);
        lemma_contains_push(ids, x, clips[j].id);
    }
    lemma_unrequested_by_membership(clips, ids.push(x), ids);
}

/// A list with one more identifier at its end holds `y` exactly when the
/// list held it or the new identifier is `y`.
proof fn lemma_contains_push(ids: Seq<Seq<char>>, x: Seq<char>, y: Seq<char>)
    ensures
        ids.push(x).contains(y) <==> ids.contains(y) || x == y,
{
    if ids.contains(y) {
        let j = choose|j: int| 0 <= j < ids.len() && ids[j] == y;
        assert(ids.push(x)[j] == y);
    }
    if x == y {
        assert(ids.push(x)[ids.len() as int] == y);
    }
}

/// Naming one more clip, the only one that carries `x`, takes exactly that
/// clip out of the unrequested ones.
proof fn lemma_unrequested_push_present(
    clips: Seq<ClipView>,
    ids: Seq<Seq<char>>,
    x: Seq<char>,
    p: int,
)
    requires
        distinct_ids(clips),
        !ids.contains(x),
        0 <= p < clips.len(),
        clips[p].id == x,
    ensures
        unrequested(clips, ids).to_multiset() == unrequested(
            clips,
            ids.push(x),
        ).to_multiset().insert(clips[p]),
    decreases clips.len(),
{
    broadcast use vstd::seq_lib::to_multiset_build;

    let shorter = clips.drop_last();
    assert forall|i: int, j: int|
        0 <= i < shorter.len() && 0 <= j < shorter.len() && i != j implies ids_of(shorter)[i]
        != ids_of(shorter)[j] by {
        assert(ids_of(clips)[i] != ids_of(clips)[j]);
    }
    lemma_contains_push(ids, x, clips.last().id);
    if p == clips.len() - 1 {
        assert forall|j: int| 0 <= j < shorter.len() implies ids_of(shorter)[j] != x by {
            assert(ids_of(clips)[j] != ids_of(clips)[p]);
        }
        lemma_unrequested_push_absent(shorter, ids, x);
    } else {
        assert(ids_of(clips)[clips.len() - 1] != ids_of(clips)[p]);
        lemma_unrequested_push_present(shorter, ids, x, p);
    }
}

/// The clips a request picks, each once, and the clips it leaves
/// unrequested are together the clips of the list, each once.
proof fn lemma_reorder_multiset(clips: Seq<ClipView>, ids: Seq<Seq<char>>)
    requires
        distinct_ids(clips),
    ensures
        picked_once(clips, ids).to_multiset().add(unrequested(clips, ids).to_multiset())
            == clips.to_multiset(),
    decreases ids.len(),
{
    broadcast use vstd::seq_lib::to_multiset_build;

    if ids.len() == 0 {
        assert forall|j: int| 0 <= j < clips.len() implies !ids.contains(
            #[trigger] clips[j].id,
        ) by {}
        lemma_unrequested_all(clips, ids);
        assert(picked_once(clips, ids).to_multiset() =~= Multiset::<ClipView>::empty()) by {
            broadcast use vstd::multiset::group_multiset_axioms;

            vstd::seq_lib::to_multiset_len(picked_once(clips, ids));
        }
    } else {
        let earlier = ids.drop_last();
        let x = ids.last();
        assert(earlier.push(x) =~= ids);
        lemma_reorder_multiset(clips, earlier);
        lemma_first_index_of(ids_of(clips), x);
        if earlier.contains(x) {
            // Named before: nothing more is picked, nothing more is named.
            assert forall|j: int| 0 <= j < clips.len() implies (ids.contains(
                #[trigger] clips[j].id,
            ) <==> earlier.contains(clips[j].id)) by {
                lemma_contains_push(earlier, x, clips[j].id);
            }
            lemma_unrequested_by_membership(clips, ids, earlier);
        } else {
            match position_of(clips, x) {
                Some(p) => {
                    lemma_unrequested_push_present(clips, earlier, x, p);
                },
                None => {
                    lemma_unrequested_push_absent(clips, earlier, x);
                },
            }
        }
    }
}

/// Every clip a request picks is the first clip of the list under one of
/// the requested identifiers, and no two picked clips carry the same
/// identifier.
pub proof fn lemma_picked_once_members(clips: Seq<ClipView>, ids: Seq<Seq<char>>)
    ensures
        picked_once(clips, ids).len() <= ids.len(),
        forall|j: int|
            0 <= j < picked_once(clips, ids).len() ==> {
                &&& ids.contains((#[trigger] picked_once(clips, ids)[j]).id)
                &&& position_of(clips, picked_once(clips, ids)[j].id) is Some
                &&& clips[position_of(clips, picked_once(clips, ids)[j].id).unwrap()]
                    == picked_once(clips, ids)[j]
            },
        distinct_ids(picked_once(clips, ids)),
    decreases ids.len(),
{
    if ids.len() > 0 {
        let earlier = ids.drop_last();
        let x = ids.last();
        lemma_picked_once_members(clips, earlier);
        lemma_first_index_of(ids_of(clips), x);
        let chosen = picked_once(clips, ids);
        let before = picked_once(clips, earlier);
        assert forall|j: int| 0 <= j < chosen.len() implies {
            &&& ids.contains((#[trigger] chosen[j]).id)
            &&& position_of(clips, chosen[j].id) is Some
            &&& clips[position_of(clips, chosen[j].id).unwrap()] == chosen[j]
        } by {
            if j < before.len() {
                let k = choose|k: int| 0 <= k < earlier.len() && earlier[k] == chosen[j].id;
                assert(ids[k] == chosen[j].id);
            } else {
                assert(ids[ids.len() - 1] == chosen[j].id);
            }
        }
        assert forall|i: int, j: int|
            0 <= i < chosen.len() && 0 <= j < chosen.len() && i != j implies ids_of(chosen)[i]
            != ids_of(chosen)[j] by {
            if i < before.len() && j < before.len() {
                assert(ids_of(before)[i] != ids_of(before)[j]);
            } else {
                // One of the two is the clip picked last, under `x`, which
                // does not stand earlier; the other was picked under an
                // earlier identifier.
                let inner = if i < before.len() {
                    i
                } else {
                    j
                };
                assert(earlier.contains(before[inner].id));
            }
        }
    }
}

/// Putting clips in a requested order loses no clip and repeats none,
/// whatever the request holds: the result holds the same clips, each as
/// often as before, so it is as long as the list was and carries the same
/// identifiers. This holds of every list whose clips carry distinct
/// identifiers.
pub proof fn law_reorder_permutes(clips: Seq<ClipView>, ids: Seq<Seq<char>>)
    requires
        distinct_ids(clips),
    ensures
        reordered(clips, ids).to_multiset() == clips.to_multiset(),
        reordered(clips, ids).len() == clips.len(),
        forall|id: Seq<char>| has_id(reordered(clips, ids), id) <==> has_id(clips, id),
{
    let result = reordered(clips, ids);
    vstd::seq_lib::to_multiset_len(result);
    vstd::seq_lib::to_multiset_len(clips);
    lemma_reorder_multiset(clips, ids);
    vstd::seq_lib::lemma_multiset_commutative(picked_once(clips, ids), unrequested(clips, ids));
    assert forall|id: Seq<char>| has_id(result, id) <==> has_id(clips, id) by {
        lemma_same_clips_same_ids(result, clips, id);
        lemma_same_clips_same_ids(clips, result, id);
    }
}

/// Where every clip of `a` is a clip of `b`, every identifier in `a` is one
/// in `b`.
proof fn lemma_same_clips_same_ids(a: Seq<ClipView>, b: Seq<ClipView>, id: Seq<char>)
    requires
        a.to_multiset() == b.to_multiset(),
    ensures
        has_id(a, id) ==> has_id(b, id),
{
    if has_id(a, id) {
        let j = choose|j: int| 0 <= j < ids_of(a).len() && ids_of(a)[j] == id;
        vstd::seq_lib::to_multiset_contains(a, a[j]);
        vstd::seq_lib::to_multiset_contains(b, a[j]);
        let k = choose|k: int| 0 <= k < b.len() && b[k] == a[j];
        assert(ids_of(b)[k] == id);
    }
}

/// The store-level form of [`law_reorder_permutes`]: reordering the active
/// pastebook keeps its length, its clips and their identifiers, and leaves
/// which pastebook is active as it was.
pub proof fn law_reorder_keeps_every_clip(store: StorageView, ids: Seq<Seq<char>>)
    requires
        distinct_ids(store.active_clips()),
    ensures
        store.reorder_clips(ids).active_index() == store.active_index(),
        store.reorder_clips(ids).active_clips().len() == store.active_clips().len(),
        store.reorder_clips(ids).active_clips().to_multiset()
            == store.active_clips().to_multiset(),
        forall|id: Seq<char>|
            has_id(store.reorder_clips(ids).active_clips(), id) <==> has_id(
                store.active_clips(),
                id,
            ),
        distinct_ids(store.reorder_clips(ids).active_clips()),
{
    lemma_with_active_clips(store, reordered(store.active_clips(), ids));
    if store.active_index() is Some {
        law_reorder_permutes(store.active_clips(), ids);
        law_reorder_keeps_ids_distinct(store.active_clips(), ids);
    }
}

/// An identifier that no clip carries changes nothing about what a request
/// picks, wherever it stands in the request.
proof fn lemma_picked_once_without_stale(
    clips: Seq<ClipView>,
    before: Seq<Seq<char>>,
    stale: Seq<char>,
    after: Seq<Seq<char>>,
)
    requires
        !has_id(clips, stale),
    ensures
        picked_once(clips, before + seq![stale] + after) == picked_once(clips, before + after),
    decreases after.len(),
{
    lemma_first_index_of(ids_of(clips), stale);
    let with_stale = before + seq![stale] + after;
    let without = before + after;
    if after.len() == 0 {
        assert(with_stale.drop_last() =~= before);
        assert(without =~= before);
    } else {
        let y = after.last();
        lemma_picked_once_without_stale(clips, before, stale, after.drop_last());
        assert(with_stale.drop_last() =~= before + seq![stale] + after.drop_last());
        assert(without.drop_last() =~= before + after.drop_last());
        lemma_first_index_of(ids_of(clips), y);
        if position_of(clips, y) is Some {
            // A clip carries `y`, so `y` is not the stale identifier.
            lemma_contains_concat(before + seq![stale], after.drop_last(), y);
            lemma_contains_concat(before, seq![stale], y);
            lemma_contains_concat(before, after.drop_last(), y);
            assert(seq![stale].contains(y) ==> y == stale);
        }
    }
}

/// A requested identifier that no clip carries is passed over: wherever it
/// stands in the request, the result is the same as without it.
pub proof fn law_stale_id_is_ignored(
    clips: Seq<ClipView>,
    before: Seq<Seq<char>>,
    stale: Seq<char>,
    after: Seq<Seq<char>>,
)
    requires
        !has_id(clips, stale),
    ensures
        reordered(clips, before + seq![stale] + after) == reordered(clips, before + after),
{
    lemma_picked_once_without_stale(clips, before, stale, after);
    assert forall|j: int| 0 <= j < clips.len() implies ((before + seq![stale] + after).contains(
        #[trigger] clips[j].id,
    ) <==> (before + after).contains(clips[j].id)) by {
        let y = clips[j].id;
        assert(ids_of(clips)[j] == y);
        lemma_contains_concat(before + seq![stale], after, y);
        lemma_contains_concat(before, seq![stale], y);
        lemma_contains_concat(before, after, y);
    }
    lemma_unrequested_by_membership(clips, before + seq![stale] + after, before + after);
}

/// An identifier named a second time changes nothing: the result is the
/// same as for the request without the repeat.
pub proof fn law_repeated_id_is_ignored(
    clips: Seq<ClipView>,
    ids: Seq<Seq<char>>,
    again: Seq<char>,
)
    requires
        ids.contains(again),
    ensures
        reordered(clips, ids.push(again)) == reordered(clips, ids),
{
    assert(ids.push(again).drop_last() =~= ids);
    assert forall|j: int| 0 <= j < clips.len() implies (ids.push(again).contains(
        #[trigger] clips[j].id,
    ) <==> ids.contains(clips[j].id)) by {
        lemma_contains_push(ids, again, clips[j].id);
    }
    lemma_unrequested_by_membership(clips, ids.push(again), ids);
}

/// A concatenation holds `y` exactly when one of its two parts does.
proof fn lemma_contains_concat(a: Seq<Seq<char>>, b: Seq<Seq<char>>, y: Seq<char>)
    ensures
        (a + b).contains(y) <==> a.contains(y) || b.contains(y),
{
    if a.contains(y) {
        let j = choose|j: int| 0 <= j < a.len() && a[j] == y;
        assert((a + b)[j] == y);
    }
    if b.contains(y) {
        let j = choose|j: int| 0 <= j < b.len() && b[j] == y;
        assert((a + b)[a.len() + j] == y);
    }
    if (a + b).contains(y) {
        let j = choose|j: int| 0 <= j < (a + b).len() && (a + b)[j] == y;
        if j < a.len() {
            assert(a[j] == y);
        } else {
            assert(b[j - a.len()] == y);
        }
    }
}

/// After a merge that went ahead the new clip stands first, and no clip
/// behind it carries a requested identifier. So no clip at all carries a
/// requested identifier, unless it is the new clip's own.
pub proof fn law_merge_removes_named(store: StorageView, ids: Seq<Seq<char>>, new_id: Seq<char>)
    requires
        store.can_merge(ids),
    ensures
        ({
            let after = store.merge_clips(ids, new_id).active_clips();
            &&& after.len() > 0
            &&& after[0] == merged_clip(store.active_clips(), ids, new_id)
            &&& after.drop_first() == unrequested(store.active_clips(), ids)
            &&& forall|j: int| 1 <= j < after.len() ==> !ids.contains((#[trigger] after[j]).id)
            &&& forall|id: Seq<char>|
                #[trigger] ids.contains(id) && id != new_id ==> !has_id(after, id)
        }),
{
    let before = store.active_clips();
    lemma_with_active_clips(store, after_merge(before, ids, new_id));
    let after = store.merge_clips(ids, new_id).active_clips();
    let rest = unrequested(before, ids);
    lemma_unrequested_members(before, ids);
    assert(after.drop_first() =~= rest);
    assert forall|j: int| 1 <= j < after.len() implies !ids.contains((#[trigger] after[j]).id) by {
        assert(after[j] == rest[j - 1]);
    }
    assert forall|id: Seq<char>| #[trigger] ids.contains(id) && id != new_id implies !has_id(
        after,
        id,
    ) by {
        if has_id(after, id) {
            let j = choose|j: int| 0 <= j < ids_of(after).len() && ids_of(after)[j] == id;
            assert(after[j].id == id);
        }
    }
}

/// Merging two clips that are both there: the merge goes ahead; the new
/// clip stands first, under the new identifier, with the first clip's
/// metadata and with the two texts in the order asked for, a blank line
/// between them; and behind it stand exactly the clips that carry neither
/// identifier, so both merged clips are gone. Where the new identifier is
/// neither of the two, no clip at all carries one of them afterwards.
pub proof fn law_merge_two(store: StorageView, a: Seq<char>, b: Seq<char>, new_id: Seq<char>)
    requires
        has_id(store.active_clips(), a),
        has_id(store.active_clips(), b),
    ensures
        ({
            let before = store.active_clips();
            let after = store.merge_clips(seq![a, b], new_id).active_clips();
            &&& store.can_merge(seq![a, b])
            &&& after.len() > 0
            &&& after[0].id == new_id
            &&& after[0].content == pair_content(before, a, b)
            &&& after[0].metadata == before[position_of(before, a).unwrap()].metadata
            &&& after.drop_first() == unrequested(before, seq![a, b])
            &&& !has_id(after.drop_first(), a)
            &&& !has_id(after.drop_first(), b)
            &&& new_id != a ==> !has_id(after, a)
            &&& new_id != b ==> !has_id(after, b)
        }),
{
    let before = store.active_clips();
    let ids = seq![a, b];
    lemma_first_index_of(ids_of(before), a);
    lemma_first_index_of(ids_of(before), b);
    let first = before[position_of(before, a).unwrap()];
    let second = before[position_of(before, b).unwrap()];
    assert(picked(before, ids) =~= seq![first, second]) by {
        reveal_with_fuel(picked, 3);
    }
    law_all_content_small(first, second);
    lemma_with_active_clips(store, after_merge(before, ids, new_id));
    let after = store.merge_clips(ids, new_id).active_clips();
    lemma_unrequested_members(before, ids);
    assert forall|j: int| 0 <= j < after.drop_first().len() implies ids_of(after.drop_first())[j]
        != a && ids_of(after.drop_first())[j] != b by {
        assert(!ids.contains(unrequested(before, ids)[j].id));
        assert(ids[0] == a && ids[1] == b);
    }
}

/// No operation on clips makes a well-formed store ill-formed: afterwards
/// the store still holds a pastebook and the active identifier still names
/// one.
pub proof fn law_clip_operations_keep_well_formed(
    store: StorageView,
    clip: ClipView,
    id: Seq<char>,
    content: Seq<char>,
    ids: Seq<Seq<char>>,
    new_id: Seq<char>,
)
    requires
        store.well_formed(),
    ensures
        store.add_clip(clip).well_formed(),
        store.delete_clip(id).well_formed(),
        store.update_clip(id, content).well_formed(),
        store.reorder_clips(ids).well_formed(),
        store.merge_clips(ids, new_id).well_formed(),
        store.clear_clips().well_formed(),
{
    let clips = store.active_clips();
    lemma_with_active_clips(store, seq![clip] + clips);
    lemma_with_active_clips(store, without_id(clips, id));
    lemma_with_active_clips(store, with_new_content(clips, id, content));
    lemma_with_active_clips(store, reordered(clips, ids));
    lemma_with_active_clips(store, after_merge(clips, ids, new_id));
    lemma_with_active_clips(store, Seq::empty());
}

/// A list of pastebooks that holds `pastebook` holds its identifier.
proof fn lemma_member_id(pastebooks: Seq<PastebookView>, pastebook: PastebookView)
    requires
        pastebooks.contains(pastebook),
    ensures
        pastebook_ids(pastebooks).contains(pastebook.id),
        first_index_of(pastebook_ids(pastebooks), pastebook.id) is Some,
{
    let k = choose|k: int| 0 <= k < pastebooks.len() && pastebooks[k] == pastebook;
    assert(pastebook_ids(pastebooks)[k] == pastebook.id);
    lemma_first_index_of(pastebook_ids(pastebooks), pastebook.id);
}

/// A pastebook that was added is there and active, so the store is
/// well-formed afterwards whatever it was before.
pub proof fn law_add_pastebook_makes_well_formed(store: StorageView, pastebook: PastebookView)
    ensures
        store.add_pastebook(pastebook).well_formed(),
        store.add_pastebook(pastebook).active_pastebook_id == Some(pastebook.id),
        store.add_pastebook(pastebook).pastebooks.len() == store.pastebooks.len() + 1,
        store.add_pastebook(pastebook).pastebooks.last() == pastebook,
{
    let added = store.add_pastebook(pastebook);
    assert(added.pastebooks[store.pastebooks.len() as int] == pastebook);
    lemma_member_id(added.pastebooks, pastebook);
}

/// Switching to another pastebook and renaming a pastebook keep a
/// well-formed store well-formed.
pub proof fn law_switch_and_rename_keep_well_formed(
    store: StorageView,
    id: Seq<char>,
    name: Seq<char>,
)
    requires
        store.well_formed(),
    ensures
        store.switch_pastebook(id).well_formed(),
        store.rename_pastebook(id, name).well_formed(),
{
    let renamed = store.rename_pastebook(id, name);
    lemma_first_index_of(pastebook_ids(store.pastebooks), id);
    assert(pastebook_ids(renamed.pastebooks) =~= pastebook_ids(store.pastebooks));
}

/// Asking a store to delete a pastebook it does not hold leaves it as it
/// was.
pub proof fn law_delete_unknown_pastebook(store: StorageView, id: Seq<char>)
    requires
        store.index_of(id) is None,
    ensures
        store.delete_pastebook(id) == store,
{
}

/// Deleting a pastebook keeps a well-formed store well-formed: the store
/// keeps at least one pastebook, and where the active one was deleted the
/// first one left is active.
pub proof fn law_delete_pastebook_keeps_well_formed(store: StorageView, id: Seq<char>)
    requires
        store.well_formed(),
    ensures
        store.delete_pastebook(id).well_formed(),
        store.delete_pastebook(id).pastebooks.len() >= 1,
        store.active_pastebook_id == Some(id) && store.pastebooks.len() > 1
            ==> store.delete_pastebook(id).active_index() == Some(0int),
{
    let ids = pastebook_ids(store.pastebooks);
    let active = store.active_pastebook_id.unwrap();
    lemma_first_index_of(ids, id);
    lemma_first_index_of(ids, active);
    if store.pastebooks.len() > 1 && store.index_of(id) is Some {
        let gone = store.index_of(id).unwrap();
        let left = store.pastebooks.remove(gone);
        if active == id {
            lemma_first_at_is_found(pastebook_ids(left), left[0].id, 0);
        } else {
            // The active pastebook is another one, and it stays.
            let i = store.active_index().unwrap();
            let moved = if i < gone {
                i
            } else {
                i - 1
            };
            assert(left[moved] == store.pastebooks[i]);
            assert(left.contains(store.pastebooks[i]));
            lemma_member_id(left, store.pastebooks[i]);
        }
    }
}

/// Where the pastebooks carry distinct identifiers, a deleted pastebook is
/// gone: afterwards no pastebook carries its identifier, and the
/// identifiers left are distinct still.
pub proof fn law_deleted_pastebook_is_gone(store: StorageView, id: Seq<char>)
    requires
        store.distinct_pastebook_ids(),
        store.pastebooks.len() > 1,
        store.index_of(id) is Some,
    ensures
        store.delete_pastebook(id).index_of(id) is None,
        store.delete_pastebook(id).distinct_pastebook_ids(),
{
    let ids = pastebook_ids(store.pastebooks);
    lemma_first_index_of(ids, id);
    let gone = store.index_of(id).unwrap();
    let left = pastebook_ids(store.delete_pastebook(id).pastebooks);
    assert(left =~= ids.remove(gone));
    assert forall|j: int| 0 <= j < left.len() implies #[trigger] left[j] != id by {
        let k = if j < gone {
            j
        } else {
            j + 1
        };
        assert(ids[k] != ids[gone]);
    }
    lemma_absent_is_not_found(left, id);
    assert forall|i: int, j: int| 0 <= i < left.len() && 0 <= j < left.len() && i != j implies left[i]
        != left[j] by {
        let from_i = if i < gone {
            i
        } else {
            i + 1
        };
        let from_j = if j < gone {
            j
        } else {
            j + 1
        };
        assert(ids[from_i] != ids[from_j]);
    }
}

/// The clips a request leaves unrequested carry distinct identifiers where
/// the clips of the list do.
proof fn lemma_unrequested_distinct(clips: Seq<ClipView>, ids: Seq<Seq<char>>)
    requires
        distinct_ids(clips),
    ensures
        distinct_ids(unrequested(clips, ids)),
    decreases clips.len(),
{
    if clips.len() > 0 {
        let shorter = clips.drop_last();
        assert forall|i: int, j: int|
            0 <= i < shorter.len() && 0 <= j < shorter.len() && i != j implies ids_of(shorter)[i]
            != ids_of(shorter)[j] by {
            assert(ids_of(clips)[i] != ids_of(clips)[j]);
        }
        lemma_unrequested_distinct(shorter, ids);
        lemma_unrequested_members(shorter, ids);
        let kept = unrequested(clips, ids);
        let before = unrequested(shorter, ids);
        assert forall|i: int, j: int|
            0 <= i < kept.len() && 0 <= j < kept.len() && i != j implies ids_of(kept)[i] != ids_of(
            kept,
        )[j] by {
            if i < before.len() && j < before.len() {
                assert(ids_of(before)[i] != ids_of(before)[j]);
            } else {
                let inner = if i < before.len() {
                    i
                } else {
                    j
                };
                let k = choose|k: int| 0 <= k < shorter.len() && shorter[k] == before[inner];
                assert(ids_of(clips)[k] != ids_of(clips)[clips.len() - 1]);
            }
        }
    }
}

/// Putting clips in a requested order keeps their identifiers distinct.
pub proof fn law_reorder_keeps_ids_distinct(clips: Seq<ClipView>, ids: Seq<Seq<char>>)
    requires
        distinct_ids(clips),
    ensures
        distinct_ids(reordered(clips, ids)),
{
    lemma_unrequested_distinct(clips, ids);
    let chosen = picked_once(clips, ids);
    let rest = unrequested(clips, ids);
    let result = reordered(clips, ids);
    lemma_picked_once_members(clips, ids);
    lemma_unrequested_members(clips, ids);
    assert forall|i: int, j: int|
        0 <= i < result.len() && 0 <= j < result.len() && i != j implies ids_of(result)[i]
        != ids_of(result)[j] by {
        if i < chosen.len() && j < chosen.len() {
            assert(ids_of(chosen)[i] != ids_of(chosen)[j]);
        } else if i >= chosen.len() && j >= chosen.len() {
            assert(ids_of(rest)[i - chosen.len()] != ids_of(rest)[j - chosen.len()]);
        } else {
            // One is picked, so named; the other is unrequested, so not.
            let (front, back) = if i < j {
                (i, j)
            } else {
                (j, i)
            };
            assert(ids.contains(chosen[front].id));
            assert(!ids.contains(rest[back - chosen.len()].id));
        }
    }
}

/// The operations on a list of clips keep the clips' identifiers distinct:
/// removing clips, replacing a text and reordering always do; adding a clip
/// and merging do where the new identifier is not yet in use.
pub proof fn law_distinct_ids_are_kept(
    clips: Seq<ClipView>,
    clip: ClipView,
    id: Seq<char>,
    content: Seq<char>,
    ids: Seq<Seq<char>>,
    new_id: Seq<char>,
)
    requires
        distinct_ids(clips),
    ensures
        !has_id(clips, clip.id) ==> distinct_ids(seq![clip] + clips),
        distinct_ids(without_id(clips, id)),
        distinct_ids(unrequested(clips, ids)),
        distinct_ids(with_new_content(clips, id, content)),
        distinct_ids(reordered(clips, ids)),
        !has_id(unrequested(clips, ids), new_id) ==> distinct_ids(
            after_merge(clips, ids, new_id),
        ),
{
    // add
    if !has_id(clips, clip.id) {
        let longer = seq![clip] + clips;
        assert forall|i: int, j: int|
            0 <= i < longer.len() && 0 <= j < longer.len() && i != j implies ids_of(longer)[i]
            != ids_of(longer)[j] by {
            if i > 0 && j > 0 {
                assert(ids_of(clips)[i - 1] != ids_of(clips)[j - 1]);
            } else {
                let inner = if i > 0 {
                    i
                } else {
                    j
                };
                assert(ids_of(clips)[inner - 1] == longer[inner].id);
            }
        }
    }
    // remove
    lemma_unrequested_distinct(clips, seq![id]);
    lemma_unrequested_distinct(clips, ids);
    // replace a text
    lemma_first_index_of(ids_of(clips), id);
    assert(ids_of(with_new_content(clips, id, content)) =~= ids_of(clips));
    // reorder
    law_reorder_keeps_ids_distinct(clips, ids);
    // merge
    if !has_id(unrequested(clips, ids), new_id) {
        let rest = unrequested(clips, ids);
        let result = after_merge(clips, ids, new_id);
        assert forall|i: int, j: int|
            0 <= i < result.len() && 0 <= j < result.len() && i != j implies ids_of(result)[i]
            != ids_of(result)[j] by {
            if i > 0 && j > 0 {
                assert(ids_of(rest)[i - 1] != ids_of(rest)[j - 1]);
            } else {
                let inner = if i > 0 {
                    i
                } else {
                    j
                };
                assert(ids_of(rest)[inner - 1] == result[inner].id);
            }
        }
    }
}

/// Replacing the active pastebook's clips by clips with distinct
/// identifiers keeps a store in which every pastebook's clips carry
/// distinct identifiers that way.
pub proof fn law_store_keeps_distinct_clip_ids(store: StorageView, clips: Seq<ClipView>)
    requires
        store.distinct_clip_ids(),
        distinct_ids(clips),
    ensures
        distinct_ids(store.active_clips()),
        store.with_active_clips(clips).distinct_clip_ids(),
{
    match store.active_index() {
        Some(i) => {
            lemma_first_index_of(pastebook_ids(store.pastebooks), store.active_pastebook_id.unwrap());
            let after = store.with_active_clips(clips);
            assert forall|j: int| 0 <= j < after.pastebooks.len() implies distinct_ids(
                (#[trigger] after.pastebooks[j]).clips,
            ) by {
                if j != i {
                    assert(after.pastebooks[j] == store.pastebooks[j]);
                }
            }
        },
        None => {},
    }
}

/// What is left when the white space at the start of a text is taken off:
/// a piece at the end of the text that does not start with white space,
/// behind nothing but white space.
proof fn lemma_trimmed_start(text: Seq<char>) -> (k: int)
    ensures
        0 <= k <= text.len(),
        trimmed_start(text) == text.skip(k),
        forall|i: int| 0 <= i < k ==> white_space(#[trigger] text[i]),
        k < text.len() ==> !white_space(text[k]),
    decreases text.len(),
{
    if text.len() > 0 && white_space(text[0]) {
        let inner = lemma_trimmed_start(text.drop_first());
        assert(text.drop_first().skip(inner) =~= text.skip(inner + 1));
        assert forall|i: int| 0 <= i < inner + 1 implies white_space(#[trigger] text[i]) by {
            if i > 0 {
                assert(text.drop_first()[i - 1] == text[i]);
            }
        }
        if inner + 1 < text.len() {
            assert(text.drop_first()[inner] == text[inner + 1]);
        }
        inner + 1
    } else {
        assert(text.skip(0) =~= text);
        0
    }
}

/// Nothing is left when the white space at the end of a text is taken off
/// exactly where the text is blank.
proof fn lemma_trimmed_end(text: Seq<char>)
    ensures
        trimmed_end(text).len() == 0 <==> is_blank(text),
    decreases text.len(),
{
    if text.len() > 0 && white_space(text.last()) {
        lemma_trimmed_end(text.drop_last());
        if is_blank(text.drop_last()) {
            assert forall|i: int| 0 <= i < text.len() implies white_space(#[trigger] text[i]) by {
                if i < text.len() - 1 {
                    assert(text.drop_last()[i] == text[i]);
                }
            }
        }
        if is_blank(text) {
            assert forall|i: int| 0 <= i < text.drop_last().len() implies white_space(
                #[trigger] text.drop_last()[i],
            ) by {
                assert(text.drop_last()[i] == text[i]);
            }
        }
    } else if text.len() > 0 {
        assert(!white_space(text[text.len() - 1]));
    }
}

/// A text is blank exactly when nothing is left of it once the white space
/// around it is taken off.
pub proof fn law_blank_trims_to_nothing(text: Seq<char>)
    ensures
        is_blank(text) <==> trimmed(text).len() == 0,
{
    let k = lemma_trimmed_start(text);
    let rest = text.skip(k);
    lemma_trimmed_end(rest);
    if is_blank(text) {
        assert(k == text.len());
    }
    if is_blank(rest) {
        if k < text.len() {
            assert(rest[0] == text[k]);
        }
        assert forall|i: int| 0 <= i < text.len() implies white_space(#[trigger] text[i]) by {}
    }
}

} // verus!
