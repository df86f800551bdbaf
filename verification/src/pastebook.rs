//! A pastebook: a named, ordered collection of clips.

use vstd::prelude::*;
use crate::clip::{ClipObject, ClipView};
use crate::clock::Timestamp;
use crate::ident::{fresh_id, is_fresh_id};

verus! {

/// A named, ordered collection of clips. The order of `clips` is the order in
/// which they are shown and exported.
#[derive(Debug)]
pub struct Pastebook {
    pub id: String,
    pub name: String,
    pub created_at: Timestamp,
    pub clips: Vec<ClipObject>,
}

/// The mathematical view of a [`Pastebook`].
pub struct PastebookView {
    pub id: Seq<char>,
    pub name: Seq<char>,
    pub created_at: Timestamp,
    pub clips: Seq<ClipView>,
}

impl PastebookView {
    /// This pastebook holding `clips` and otherwise unchanged.
    pub open spec fn with_clips(self, clips: Seq<ClipView>) -> PastebookView {
        PastebookView { clips, ..self }
    }

    /// This pastebook under the name `name` and otherwise unchanged.
    pub open spec fn with_name(self, name: Seq<char>) -> PastebookView {
        PastebookView { name, ..self }
    }
}

impl DeepView for Pastebook {
    type V = PastebookView;

    open spec fn deep_view(&self) -> PastebookView {
        PastebookView {
            id: self.id@,
            name: self.name@,
            created_at: self.created_at,
            clips: self.clips.deep_view(),
        }
    }
}

impl View for Pastebook {
    type V = PastebookView;

    open spec fn view(&self) -> PastebookView {
        self.deep_view()
    }
}

impl Clone for Pastebook {
    fn clone(&self) -> (copy: Self)
        ensures
            copy@ == self@,
    {
        Pastebook {
            id: self.id.clone(),
            name: self.name.clone(),
            created_at: self.created_at,
            clips: self.clips.clone(),
        }
    }
}

impl Pastebook {
    /// Makes an empty pastebook called `name`, with a fresh identifier and
    /// the current time as its time of creation.
    pub fn new(name: String) -> (pastebook: Self)
        ensures
            pastebook@.name == name@,
            pastebook@.clips == Seq::<ClipView>::empty(),
            is_fresh_id(pastebook@.id),
    {
        Pastebook::created(fresh_id(), Timestamp::now(), name)
    }

    /// Makes an empty pastebook called `name`, created at `created_at`,
    /// under the identifier `id`.
    pub fn created(id: String, created_at: Timestamp, name: String) -> (pastebook: Self)
        ensures
            pastebook@ == (PastebookView {
                id: id@,
                name: name@,
                created_at,
                clips: Seq::empty(),
            }),
    {
        let pastebook = Pastebook { id, name, created_at, clips: Vec::new() };
        assert(pastebook.clips.deep_view() =~= Seq::<ClipView>::empty());
        pastebook
    }
}

} // verus!
