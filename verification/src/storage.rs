//! The store: every pastebook, and which of them is active.
//!
//! Clip operations work on the active pastebook. Each operation's contract
//! says that the store's view after the call is a function of its view
//! before: the function of the same name on [`StorageView`].

use vstd::prelude::*;
use crate::clip::{ClipObject, ClipView};
use crate::clips::{
    after_merge, all_content, distinct_ids, has_id, ids_of, joined_content, merge, merged_clip,
    mergeable, pair_content, reorder, remove_clip, reordered,
    replace_content, with_new_content, without_id,
};
use crate::ident::{
    first_index_of, fresh_id, is_fresh_id, lemma_absent_is_not_found, lemma_first_at_is_found,
    lemma_first_index_of,
};
use crate::laws::{
    law_add_pastebook_makes_well_formed, law_delete_absent_clip,
    law_delete_pastebook_keeps_well_formed, law_fresh_store, law_merge_removes_named,
    law_merge_two, law_no_clips_no_content, law_reorder_keeps_every_clip,
    law_switch_and_rename_keep_well_formed, lemma_with_active_clips,
};
use crate::pastebook::{Pastebook, PastebookView};

verus! {

/// Every pastebook in order of creation, the identifier of the active one,
/// and the key for the optional sorting assistant.
#[derive(Debug)]
pub struct AppStorage {
    pub pastebooks: Vec<Pastebook>,
    pub active_pastebook_id: Option<String>,
    pub api_key: Option<String>,
}

/// The mathematical view of an [`AppStorage`].
pub struct StorageView {
    pub pastebooks: Seq<PastebookView>,
    pub active_pastebook_id: Option<Seq<char>>,
    pub api_key: Option<Seq<char>>,
}

/// The identifiers of the pastebooks, in order.
pub open spec fn pastebook_ids(pastebooks: Seq<PastebookView>) -> Seq<Seq<char>> {
    Seq::new(pastebooks.len(), |i: int| pastebooks[i].id)
}

/// The name that the pastebook of a new store gets.
pub open spec fn first_pastebook_name() -> Seq<char> {
    "My First Pastebook"@
}

impl StorageView {
    /// The place of the first pastebook that carries `id`, if there is one.
    pub open spec fn index_of(self, id: Seq<char>) -> Option<int> {
        first_index_of(pastebook_ids(self.pastebooks), id)
    }

    /// The place of the active pastebook: the first one that carries the
    /// active identifier. `None` where no identifier is active or no
    /// pastebook carries it.
    pub open spec fn active_index(self) -> Option<int> {
        match self.active_pastebook_id {
            Some(id) => self.index_of(id),
            None => None,
        }
    }

    /// The active pastebook, if there is one.
    pub open spec fn active_pastebook(self) -> Option<PastebookView> {
        match self.active_index() {
            Some(i) => Some(self.pastebooks[i]),
            None => None,
        }
    }

    /// The clips of the active pastebook; no clips where none is active.
    pub open spec fn active_clips(self) -> Seq<ClipView> {
        match self.active_pastebook() {
            Some(pastebook) => pastebook.clips,
            None => Seq::empty(),
        }
    }

    /// This store with the clips of the pastebook at `i` replaced.
    pub open spec fn with_clips_at(self, i: int, clips: Seq<ClipView>) -> StorageView {
        StorageView {
            pastebooks: self.pastebooks.update(i, self.pastebooks[i].with_clips(clips)),
            ..self
        }
    }

    /// This store with the clips of the active pastebook replaced; unchanged
    /// where none is active.
    pub open spec fn with_active_clips(self, clips: Seq<ClipView>) -> StorageView {
        match self.active_index() {
            Some(i) => self.with_clips_at(i, clips),
            None => self,
        }
    }

    /// What holds of a store on first use: one empty pastebook, which is
    /// active, and no key.
    pub open spec fn is_fresh(self) -> bool {
        &&& self.pastebooks.len() == 1
        &&& self.pastebooks[0].name == first_pastebook_name()
        &&& self.pastebooks[0].clips.len() == 0
        &&& is_fresh_id(self.pastebooks[0].id)
        &&& self.active_pastebook_id == Some(self.pastebooks[0].id)
        &&& self.api_key is None
    }

    /// What holds of a store that starts anew but keeps the key `api_key`:
    /// one empty pastebook, which is active.
    pub open spec fn is_fresh_keeping(self, api_key: Option<Seq<char>>) -> bool {
        &&& self.pastebooks.len() == 1
        &&& self.pastebooks[0].name == first_pastebook_name()
        &&& self.pastebooks[0].clips.len() == 0
        &&& is_fresh_id(self.pastebooks[0].id)
        &&& self.active_pastebook_id == Some(self.pastebooks[0].id)
        &&& self.api_key == api_key
    }

    /// This store with its first pastebook made active.
    pub open spec fn with_first_active(self) -> StorageView {
        StorageView { active_pastebook_id: Some(self.pastebooks[0].id), ..self }
    }

    /// The store holds at least one pastebook and the active identifier is
    /// that of a pastebook in it.
    pub open spec fn well_formed(self) -> bool {
        self.pastebooks.len() > 0 && self.active_index() is Some
    }

    /// No two pastebooks carry the same identifier.
    pub open spec fn distinct_pastebook_ids(self) -> bool {
        pastebook_ids(self.pastebooks).no_duplicates()
    }

    /// Within each pastebook no two clips carry the same identifier.
    pub open spec fn distinct_clip_ids(self) -> bool {
        forall|i: int|
            0 <= i < self.pastebooks.len() ==> distinct_ids((#[trigger] self.pastebooks[i]).clips)
    }

    /// The store after `clip` was put first in the active pastebook.
    pub open spec fn add_clip(self, clip: ClipView) -> StorageView {
        self.with_active_clips(seq![clip] + self.active_clips())
    }

    /// The store after every clip carrying `id` left the active pastebook.
    pub open spec fn delete_clip(self, id: Seq<char>) -> StorageView {
        self.with_active_clips(without_id(self.active_clips(), id))
    }

    /// The store after the first clip carrying `id` got the text `content`.
    pub open spec fn update_clip(self, id: Seq<char>, content: Seq<char>) -> StorageView {
        self.with_active_clips(with_new_content(self.active_clips(), id, content))
    }

    /// The store after the active pastebook's clips were put in the order
    /// that `ids` asks for.
    pub open spec fn reorder_clips(self, ids: Seq<Seq<char>>) -> StorageView {
        self.with_active_clips(reordered(self.active_clips(), ids))
    }

    /// Whether a merge of the clips named by `ids` goes ahead: `ids` holds at
    /// least two identifiers, a pastebook is active, and one of its clips
    /// carries one of them.
    pub open spec fn can_merge(self, ids: Seq<Seq<char>>) -> bool {
        self.active_index() is Some && mergeable(self.active_clips(), ids)
    }

    /// The store after the clips named by `ids` were merged into a clip with
    /// the identifier `new_id`; unchanged where the merge does not go ahead.
    pub open spec fn merge_clips(self, ids: Seq<Seq<char>>, new_id: Seq<char>) -> StorageView {
        if self.can_merge(ids) {
            self.with_active_clips(after_merge(self.active_clips(), ids, new_id))
        } else {
            self
        }
    }

    /// The store after the active pastebook was emptied.
    pub open spec fn clear_clips(self) -> StorageView {
        self.with_active_clips(Seq::empty())
    }

    /// The store after `pastebook` was added at the end and made active.
    pub open spec fn add_pastebook(self, pastebook: PastebookView) -> StorageView {
        StorageView {
            pastebooks: self.pastebooks.push(pastebook),
            active_pastebook_id: Some(pastebook.id),
            ..self
        }
    }

    /// The store after the pastebook carrying `id` was made active;
    /// unchanged where no pastebook carries `id`.
    pub open spec fn switch_pastebook(self, id: Seq<char>) -> StorageView {
        if self.index_of(id) is Some {
            StorageView { active_pastebook_id: Some(id), ..self }
        } else {
            self
        }
    }

    /// The store after a request to delete the pastebook carrying `id`. A
    /// store with a single pastebook, or without a pastebook that carries
    /// `id`, stays as it is. Otherwise the first pastebook carrying `id` is
    /// removed, and where `id` was the active identifier the first pastebook
    /// left becomes active.
    pub open spec fn delete_pastebook(self, id: Seq<char>) -> StorageView {
        match self.index_of(id) {
            Some(i) => if self.pastebooks.len() <= 1 {
                self
            } else {
                let left = self.pastebooks.remove(i);
                StorageView {
                    pastebooks: left,
                    active_pastebook_id: if self.active_pastebook_id == Some(id) {
                        Some(left[0].id)
                    } else {
                        self.active_pastebook_id
                    },
                    ..self
                }
            },
            None => self,
        }
    }

    /// The store after the first pastebook carrying `id` was renamed.
    pub open spec fn rename_pastebook(self, id: Seq<char>, name: Seq<char>) -> StorageView {
        match self.index_of(id) {
            Some(i) => StorageView {
                pastebooks: self.pastebooks.update(i, self.pastebooks[i].with_name(name)),
                ..self
            },
            None => self,
        }
    }
}

impl DeepView for AppStorage {
    type V = StorageView;

    open spec fn deep_view(&self) -> StorageView {
        StorageView {
            pastebooks: self.pastebooks.deep_view(),
            active_pastebook_id: self.active_pastebook_id.deep_view(),
            api_key: self.api_key.deep_view(),
        }
    }
}

impl View for AppStorage {
    type V = StorageView;

    open spec fn view(&self) -> StorageView {
        self.deep_view()
    }
}

/// A store in which only the clips of the pastebook at `i` differ from those
/// of `before` has the view that [`StorageView::with_clips_at`] describes.
proof fn lemma_clips_replaced(before: AppStorage, after: AppStorage, i: int)
    requires
        0 <= i < before.pastebooks.len(),
        after.pastebooks.len() == before.pastebooks.len(),
        forall|j: int|
            0 <= j < before.pastebooks.len() && j != i ==> after.pastebooks[j]
                == before.pastebooks[j],
        after.pastebooks[i].id == before.pastebooks[i].id,
        after.pastebooks[i].name == before.pastebooks[i].name,
        after.pastebooks[i].created_at == before.pastebooks[i].created_at,
        after.active_pastebook_id == before.active_pastebook_id,
        after.api_key == before.api_key,
    ensures
        after@ == before@.with_clips_at(i, after.pastebooks[i].clips.deep_view()),
{
    assert(after@.pastebooks =~= before@.with_clips_at(
        i,
        after.pastebooks[i].clips.deep_view(),
    ).pastebooks);
}

impl Clone for AppStorage {
    fn clone(&self) -> (copy: Self)
        ensures
            copy@ == self@,
    {
        let copy = AppStorage {
            pastebooks: self.pastebooks.clone(),
            active_pastebook_id: match &self.active_pastebook_id {
                Some(id) => Some(id.clone()),
                None => None,
            },
            api_key: match &self.api_key {
                Some(key) => Some(key.clone()),
                None => None,
            },
        };
        assert(copy@.pastebooks =~= self@.pastebooks);
        copy
    }
}

impl Default for AppStorage {
    /// The store on first use: one empty pastebook, which is active.
    fn default() -> (storage: Self)
        ensures
            storage@.is_fresh(),
            storage@.well_formed(),
            storage@.pastebooks.len() == 1,
            storage@.active_pastebook_id == Some(storage@.pastebooks[0].id),
            storage@.active_clips().len() == 0,
    {
        let storage = AppStorage::starting_with(Pastebook::new("My First Pastebook".to_string()));
        proof {
            law_fresh_store(storage@);
        }
        storage
    }
}

impl AppStorage {
    /// Makes a store that holds `pastebook` alone and has it active.
    pub fn starting_with(pastebook: Pastebook) -> (storage: Self)
        ensures
            storage@ == (StorageView {
                pastebooks: seq![pastebook@],
                active_pastebook_id: Some(pastebook@.id),
                api_key: None,
            }),
            storage@.well_formed(),
    {
        let active = pastebook.id.clone();
        let mut pastebooks: Vec<Pastebook> = Vec::new();
        pastebooks.push(pastebook);
        let storage = AppStorage { pastebooks, active_pastebook_id: Some(active), api_key: None };
        proof {
            assert(storage@.pastebooks =~= seq![pastebook@]);
            lemma_first_at_is_found(pastebook_ids(storage@.pastebooks), pastebook@.id, 0);
        }
        storage
    }

    /// Settles what the store is at start-up, so that it holds a pastebook
    /// and has one active. `stored` is what was read back from an earlier
    /// run, or `None` where nothing was saved or it could not be read; then
    /// the store starts afresh. A stored store that is well-formed is taken
    /// as it is. One whose active identifier is missing or names no
    /// pastebook gets its first pastebook made active. One without any
    /// pastebook starts afresh and keeps only its key.
    pub fn load(stored: Option<AppStorage>) -> (storage: Self)
        ensures
            storage@.well_formed(),
            match stored {
                None => storage@.is_fresh(),
                Some(earlier) => if earlier@.well_formed() {
                    storage == earlier
                } else if earlier@.pastebooks.len() > 0 {
                    storage@ == earlier@.with_first_active()
                } else {
                    storage@.is_fresh_keeping(earlier@.api_key)
                },
            },
    {
        match stored {
            Some(earlier) => {
                if earlier.pastebooks.len() == 0 {
                    let mut storage = AppStorage::default();
                    storage.api_key = earlier.api_key;
                    storage
                } else if earlier.active_position().is_none() {
                    let mut storage = earlier;
                    storage.active_pastebook_id = Some(storage.pastebooks[0].id.clone());
                    proof {
                        lemma_first_at_is_found(
                            pastebook_ids(storage@.pastebooks),
                            storage@.pastebooks[0].id,
                            0,
                        );
                    }
                    storage
                } else {
                    earlier
                }
            },
            None => AppStorage::default(),
        }
    }

    /// Finds the first pastebook that carries `id`.
    pub fn find_pastebook(&self, id: &str) -> (found: Option<usize>)
        ensures
            match found {
                Some(i) => i < self.pastebooks.len() && self@.index_of(id@) == Some(i as int),
                None => self@.index_of(id@) is None,
            },
    {
        let ghost ids = pastebook_ids(self@.pastebooks);
        let mut i: usize = 0;
        while i < self.pastebooks.len()
            invariant
                i <= self.pastebooks.len(),
                ids == pastebook_ids(self@.pastebooks),
                forall|j: int| 0 <= j < i ==> #[trigger] ids[j] != id@,
            decreases self.pastebooks.len() - i,
        {
            if *self.pastebooks[i].id.as_str() == *id {
                proof {
                    lemma_first_at_is_found(ids, id@, i as int);
                }
                return Some(i);
            }
            i += 1;
        }
        proof {
            lemma_absent_is_not_found(ids, id@);
        }
        None
    }

    /// Finds the active pastebook.
    pub fn active_position(&self) -> (found: Option<usize>)
        ensures
            match found {
                Some(i) => i < self.pastebooks.len() && self@.active_index() == Some(i as int),
                None => self@.active_index() is None,
            },
    {
        match &self.active_pastebook_id {
            Some(id) => self.find_pastebook(id.as_str()),
            None => None,
        }
    }

    /// The active pastebook, if there is one.
    pub fn get_active_pastebook(&self) -> (active: Option<&Pastebook>)
        ensures
            active.deep_view() == self@.active_pastebook(),
            active matches Some(pastebook) ==> *pastebook
                == self.pastebooks[self@.active_index().unwrap()],
    {
        match self.active_position() {
            Some(i) => Some(&self.pastebooks[i]),
            None => None,
        }
    }

    /// The active pastebook, for changing it in place. What the caller
    /// leaves behind the reference takes the active pastebook's place in the
    /// store; nothing else in the store changes.
    pub fn get_active_pastebook_mut(&mut self) -> (active: Option<&mut Pastebook>)
        ensures
            match active {
                Some(pastebook) => {
                    &&& old(self)@.active_pastebook() == Some(pastebook@)
                    &&& *pastebook == old(self).pastebooks[old(self)@.active_index().unwrap()]
                    &&& final(self).pastebooks@ == old(self).pastebooks@.update(
                        old(self)@.active_index().unwrap(),
                        *final(pastebook),
                    )
                    &&& final(self).active_pastebook_id == old(self).active_pastebook_id
                    &&& final(self).api_key == old(self).api_key
                },
                None => old(self)@.active_index() is None && *final(self) == *old(self),
            },
    {
        match self.active_position() {
            Some(i) => Some(&mut self.pastebooks[i]),
            None => None,
        }
    }

    /// Adds `pastebook` at the end and makes it active.
    pub fn add_pastebook(&mut self, pastebook: Pastebook)
        ensures
            final(self)@ == old(self)@.add_pastebook(pastebook@),
            final(self)@.well_formed(),
    {
        self.active_pastebook_id = Some(pastebook.id.clone());
        self.pastebooks.push(pastebook);
        proof {
            assert(self@.pastebooks =~= old(self)@.pastebooks.push(pastebook@));
            law_add_pastebook_makes_well_formed(old(self)@, pastebook@);
        }
    }

    /// Creates an empty pastebook called `name`, adds it at the end, makes it
    /// active and returns a copy of it.
    pub fn create_pastebook(&mut self, name: String) -> (created: Pastebook)
        ensures
            created@.name == name@,
            created@.clips == Seq::<ClipView>::empty(),
            is_fresh_id(created@.id),
            final(self)@ == old(self)@.add_pastebook(created@),
            final(self)@.well_formed(),
    {
        let pastebook = Pastebook::new(name);
        let created = pastebook.clone();
        self.add_pastebook(pastebook);
        created
    }

    /// Makes the pastebook that carries `id` active and tells whether there
    /// is one.
    pub fn switch_pastebook(&mut self, id: String) -> (switched: bool)
        ensures
            switched == old(self)@.index_of(id@) is Some,
            final(self)@ == old(self)@.switch_pastebook(id@),
            old(self)@.well_formed() ==> final(self)@.well_formed(),
    {
        proof {
            if self@.well_formed() {
                law_switch_and_rename_keep_well_formed(self@, id@, id@);
            }
        }
        match self.find_pastebook(id.as_str()) {
            Some(_) => {
                self.active_pastebook_id = Some(id);
                true
            },
            None => false,
        }
    }

    /// Deletes the first pastebook that carries `id` and tells whether one
    /// was deleted. The last pastebook of a store is never deleted, so a
    /// well-formed store stays well-formed: it keeps a pastebook, and where
    /// the active one was deleted the first one left becomes active.
    pub fn delete_pastebook(&mut self, id: &str) -> (deleted: bool)
        ensures
            deleted == (old(self)@.pastebooks.len() > 1 && old(self)@.index_of(id@) is Some),
            final(self)@ == old(self)@.delete_pastebook(id@),
            !deleted ==> final(self)@ == old(self)@,
            deleted ==> final(self)@.pastebooks.len() == old(self)@.pastebooks.len() - 1,
            old(self)@.well_formed() ==> final(self)@.well_formed(),
    {
        proof {
            if self@.well_formed() {
                law_delete_pastebook_keeps_well_formed(self@, id@);
            }
            lemma_first_index_of(pastebook_ids(self@.pastebooks), id@);
        }
        if self.pastebooks.len() <= 1 {
            return false;
        }
        match self.find_pastebook(id) {
            Some(i) => {
                self.pastebooks.remove(i);
                assert(self.pastebooks.deep_view() =~= old(self)@.pastebooks.remove(i as int));
                let was_active = match &self.active_pastebook_id {
                    Some(active) => *active.as_str() == *id,
                    None => false,
                };
                if was_active {
                    self.active_pastebook_id = Some(self.pastebooks[0].id.clone());
                }
                true
            },
            None => false,
        }
    }

    /// Renames the first pastebook that carries `id` and tells whether there
    /// is one.
    pub fn rename_pastebook(&mut self, id: &str, new_name: String) -> (renamed: bool)
        ensures
            renamed == old(self)@.index_of(id@) is Some,
            final(self)@ == old(self)@.rename_pastebook(id@, new_name@),
            old(self)@.well_formed() ==> final(self)@.well_formed(),
    {
        proof {
            if self@.well_formed() {
                law_switch_and_rename_keep_well_formed(self@, id@, new_name@);
            }
        }
        match self.find_pastebook(id) {
            Some(i) => {
                self.pastebooks[i].name = new_name;
                assert(self@.pastebooks =~= old(self)@.rename_pastebook(id@, new_name@).pastebooks);
                true
            },
            None => false,
        }
    }

    /// For each pastebook, in order: its identifier, its name and how many
    /// clips it holds.
    pub fn list_pastebooks(&self) -> (summary: Vec<(String, String, usize)>)
        ensures
            summary.len() == self.pastebooks.len(),
            forall|i: int|
                0 <= i < summary.len() ==> {
                    &&& (#[trigger] summary[i]).0@ == self@.pastebooks[i].id
                    &&& summary[i].1@ == self@.pastebooks[i].name
                    &&& summary[i].2 == self@.pastebooks[i].clips.len()
                },
    {
        let mut summary: Vec<(String, String, usize)> = Vec::new();
        let mut i: usize = 0;
        while i < self.pastebooks.len()
            invariant
                i <= self.pastebooks.len(),
                summary.len() == i,
                forall|j: int|
                    0 <= j < i ==> {
                        &&& (#[trigger] summary[j]).0@ == self@.pastebooks[j].id
                        &&& summary[j].1@ == self@.pastebooks[j].name
                        &&& summary[j].2 == self@.pastebooks[j].clips.len()
                    },
            decreases self.pastebooks.len() - i,
        {
            let pastebook = &self.pastebooks[i];
            summary.push((pastebook.id.clone(), pastebook.name.clone(), pastebook.clips.len()));
            i += 1;
        }
        summary
    }

    /// Puts `clip` first in the active pastebook. Tells whether a pastebook
    /// is active; where none is, nothing changes.
    pub fn add_clip(&mut self, clip: ClipObject) -> (added: bool)
        ensures
            added == old(self)@.active_index() is Some,
            final(self)@ == old(self)@.add_clip(clip@),
            added ==> final(self)@.active_clips() == seq![clip@] + old(self)@.active_clips(),
            !added ==> final(self)@ == old(self)@,
            old(self)@.well_formed() ==> final(self)@.well_formed(),
    {
        match self.active_position() {
            Some(i) => {
                self.pastebooks[i].clips.insert(0, clip);
                proof {
                    assert(self.pastebooks[i as int].clips.deep_view() =~= seq![clip@] + old(
                        self,
                    )@.active_clips());
                    lemma_clips_replaced(*old(self), *self, i as int);
                    lemma_with_active_clips(
                        old(self)@,
                        self.pastebooks[i as int].clips.deep_view(),
                    );
                }
                true
            },
            None => false,
        }
    }

    /// A copy of the active pastebook's clips, in order; no clips where no
    /// pastebook is active.
    pub fn get_clips(&self) -> (clips: Vec<ClipObject>)
        ensures
            clips.deep_view() == self@.active_clips(),
    {
        match self.active_position() {
            Some(i) => self.pastebooks[i].clips.clone(),
            None => Vec::new(),
        }
    }

    /// Removes the clips that carry `id` from the active pastebook and tells
    /// whether there was one.
    pub fn delete_clip(&mut self, id: &str) -> (deleted: bool)
        ensures
            deleted == has_id(old(self)@.active_clips(), id@),
            final(self)@ == old(self)@.delete_clip(id@),
            !deleted ==> final(self)@ == old(self)@,
            old(self)@.well_formed() ==> final(self)@.well_formed(),
    {
        proof {
            if !has_id(self@.active_clips(), id@) {
                law_delete_absent_clip(self@, id@);
            }
        }
        match self.active_position() {
            Some(i) => {
                let deleted = remove_clip(&mut self.pastebooks[i].clips, id);
                proof {
                    lemma_clips_replaced(*old(self), *self, i as int);
                    lemma_with_active_clips(
                        old(self)@,
                        self.pastebooks[i as int].clips.deep_view(),
                    );
                }
                deleted
            },
            None => {
                proof {
                    lemma_absent_is_not_found(ids_of(Seq::empty()), id@);
                }
                false
            },
        }
    }

    /// Replaces the text of the first clip in the active pastebook that
    /// carries `id` and tells whether there is one.
    pub fn update_clip(&mut self, id: &str, content: String) -> (updated: bool)
        ensures
            updated == has_id(old(self)@.active_clips(), id@),
            final(self)@ == old(self)@.update_clip(id@, content@),
            old(self)@.well_formed() ==> final(self)@.well_formed(),
    {
        match self.active_position() {
            Some(i) => {
                let updated = replace_content(&mut self.pastebooks[i].clips, id, content);
                proof {
                    lemma_clips_replaced(*old(self), *self, i as int);
                    lemma_with_active_clips(
                        old(self)@,
                        self.pastebooks[i as int].clips.deep_view(),
                    );
                }
                updated
            },
            None => {
                proof {
                    lemma_absent_is_not_found(ids_of(Seq::empty()), id@);
                }
                false
            },
        }
    }

    /// Puts the active pastebook's clips in the order that `ids` asks for.
    /// Identifiers that no clip carries are passed over, an identifier named
    /// again counts where it first stands, and clips that `ids` does not
    /// name follow in their old order. No clip is lost and none is repeated.
    pub fn reorder_clips(&mut self, ids: Vec<String>)
        ensures
            final(self)@ == old(self)@.reorder_clips(ids.deep_view()),
            distinct_ids(old(self)@.active_clips()) ==> {
                &&& final(self)@.active_clips().len() == old(self)@.active_clips().len()
                &&& final(self)@.active_clips().to_multiset()
                    == old(self)@.active_clips().to_multiset()
                &&& forall|id: Seq<char>|
                    has_id(final(self)@.active_clips(), id) <==> has_id(
                        old(self)@.active_clips(),
                        id,
                    )
                &&& distinct_ids(final(self)@.active_clips())
            },
            old(self)@.well_formed() ==> final(self)@.well_formed(),
    {
        proof {
            if distinct_ids(self@.active_clips()) {
                law_reorder_keeps_every_clip(self@, ids.deep_view());
            }
        }
        match self.active_position() {
            Some(i) => {
                reorder(&mut self.pastebooks[i].clips, &ids);
                proof {
                    lemma_clips_replaced(*old(self), *self, i as int);
                    lemma_with_active_clips(
                        old(self)@,
                        self.pastebooks[i as int].clips.deep_view(),
                    );
                }
            },
            None => {},
        }
    }

    /// Merges the clips of the active pastebook that `ids` names into one
    /// new clip with a fresh identifier. The new clip holds their texts in
    /// the order of `ids`, a blank line between each two, and the metadata of
    /// the first of them; it is put first, and the clips that `ids` names
    /// are removed. Returns a copy of the new clip, or `None`, with nothing
    /// changed, where the merge does not go ahead.
    pub fn merge_clips(&mut self, ids: Vec<String>) -> (merged: Option<ClipObject>)
        ensures
            match merged {
                Some(clip) => {
                    &&& old(self)@.can_merge(ids.deep_view())
                    &&& is_fresh_id(clip@.id)
                    &&& clip@ == merged_clip(old(self)@.active_clips(), ids.deep_view(), clip@.id)
                    &&& final(self)@ == old(self)@.merge_clips(ids.deep_view(), clip@.id)
                },
                None => !old(self)@.can_merge(ids.deep_view()) && final(self)@ == old(self)@,
            },
            ids.len() < 2 ==> merged is None,
            merged is Some ==> {
                &&& final(self)@.active_clips().len() > 0
                &&& final(self)@.active_clips()[0] == merged.unwrap()@
                &&& forall|id: Seq<char>|
                    #[trigger] ids.deep_view().contains(id) && id != merged.unwrap()@.id
                        ==> !has_id(final(self)@.active_clips(), id)
            },
            ids.len() == 2 && has_id(old(self)@.active_clips(), ids[0]@) && has_id(
                old(self)@.active_clips(),
                ids[1]@,
            ) ==> {
                &&& merged is Some
                &&& merged.unwrap()@.content == pair_content(
                    old(self)@.active_clips(),
                    ids[0]@,
                    ids[1]@,
                )
                &&& final(self)@.active_clips().len() > 0
                &&& final(self)@.active_clips()[0] == merged.unwrap()@
                &&& !has_id(final(self)@.active_clips().drop_first(), ids[0]@)
                &&& !has_id(final(self)@.active_clips().drop_first(), ids[1]@)
                &&& merged.unwrap()@.id != ids[0]@ ==> !has_id(
                    final(self)@.active_clips(),
                    ids[0]@,
                )
                &&& merged.unwrap()@.id != ids[1]@ ==> !has_id(
                    final(self)@.active_clips(),
                    ids[1]@,
                )
            },
            old(self)@.well_formed() ==> final(self)@.well_formed(),
    {
        if ids.len() < 2 {
            return None;
        }
        self.merge_clips_as(&ids, fresh_id())
    }

    /// Does what [`AppStorage::merge_clips`] does, with `new_id` as the new
    /// clip's identifier.
    pub fn merge_clips_as(&mut self, ids: &Vec<String>, new_id: String) -> (merged: Option<
        ClipObject,
    >)
        ensures
            match merged {
                Some(clip) => {
                    &&& old(self)@.can_merge(ids.deep_view())
                    &&& clip@ == merged_clip(old(self)@.active_clips(), ids.deep_view(), new_id@)
                },
                None => !old(self)@.can_merge(ids.deep_view()),
            },
            final(self)@ == old(self)@.merge_clips(ids.deep_view(), new_id@),
            ids.len() < 2 ==> merged is None && final(self)@ == old(self)@,
            merged is Some ==> {
                &&& final(self)@.active_clips().len() > 0
                &&& final(self)@.active_clips()[0] == merged.unwrap()@
                &&& forall|id: Seq<char>|
                    #[trigger] ids.deep_view().contains(id) && id != new_id@ ==> !has_id(
                        final(self)@.active_clips(),
                        id,
                    )
            },
            ids.len() == 2 && has_id(old(self)@.active_clips(), ids[0]@) && has_id(
                old(self)@.active_clips(),
                ids[1]@,
            ) ==> {
                &&& merged is Some
                &&& merged.unwrap()@.content == pair_content(
                    old(self)@.active_clips(),
                    ids[0]@,
                    ids[1]@,
                )
                &&& final(self)@.active_clips().len() > 0
                &&& final(self)@.active_clips()[0] == merged.unwrap()@
                &&& !has_id(final(self)@.active_clips().drop_first(), ids[0]@)
                &&& !has_id(final(self)@.active_clips().drop_first(), ids[1]@)
                &&& merged.unwrap()@.id != ids[0]@ ==> !has_id(
                    final(self)@.active_clips(),
                    ids[0]@,
                )
                &&& merged.unwrap()@.id != ids[1]@ ==> !has_id(
                    final(self)@.active_clips(),
                    ids[1]@,
                )
            },
            old(self)@.well_formed() ==> final(self)@.well_formed(),
    {
        proof {
            if ids.len() == 2 && has_id(self@.active_clips(), ids[0]@) && has_id(
                self@.active_clips(),
                ids[1]@,
            ) {
                assert(ids.deep_view() =~= seq![ids[0]@, ids[1]@]);
                law_merge_two(self@, ids[0]@, ids[1]@, new_id@);
            }
            if self@.can_merge(ids.deep_view()) {
                law_merge_removes_named(self@, ids.deep_view(), new_id@);
            }
        }
        match self.active_position() {
            Some(i) => {
                let merged = merge(&mut self.pastebooks[i].clips, ids, new_id);
                proof {
                    lemma_clips_replaced(*old(self), *self, i as int);
                    lemma_with_active_clips(
                        old(self)@,
                        self.pastebooks[i as int].clips.deep_view(),
                    );
                }
                merged
            },
            None => None,
        }
    }

    /// The text of every clip in the active pastebook, in order, a blank
    /// line between each two; empty where there is no clip.
    pub fn get_all_content(&self) -> (text: String)
        ensures
            text@ == all_content(self@.active_clips()),
            self@.active_clips().len() == 0 ==> text@ == Seq::<char>::empty(),
    {
        proof {
            if self@.active_clips().len() == 0 {
                assert(self@.active_clips() =~= Seq::<ClipView>::empty());
                law_no_clips_no_content();
            }
        }
        match self.active_position() {
            Some(i) => joined_content(&self.pastebooks[i].clips),
            None => {
                String::new()
            },
        }
    }

    /// Empties the active pastebook.
    pub fn clear_clips(&mut self)
        ensures
            final(self)@ == old(self)@.clear_clips(),
            old(self)@.well_formed() ==> final(self)@.well_formed(),
    {
        match self.active_position() {
            Some(i) => {
                self.pastebooks[i].clips.clear();
                proof {
                    assert(self.pastebooks[i as int].clips.deep_view() =~= Seq::<ClipView>::empty());
                    lemma_clips_replaced(*old(self), *self, i as int);
                    lemma_with_active_clips(
                        old(self)@,
                        self.pastebooks[i as int].clips.deep_view(),
                    );
                }
            },
            None => {},
        }
    }
}

} // verus!
