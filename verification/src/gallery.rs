//! The gallery: an ordered collection of finished drawings, addressed by
//! positional index, with at most one selected entry. Indices are unstable
//! across deletes; out-of-range indices make every operation a no-op.

use vstd::prelude::*;

use crate::drawing::Drawing;
use crate::drawing::DrawingModel;
use crate::drawing::toggle_points_model;

verus! {

/// The mathematical value of a `Gallery`: the stored drawings in order and
/// the selected index, if any.
#[verifier::ext_equal]
pub ghost struct GalleryModel {
    pub drawings: Seq<DrawingModel>,
    pub selected: Option<usize>,
}

/// An ordered collection of drawings with an optional selected index. The
/// selection is pure view state and is never persisted.
pub struct Gallery {
    pub drawings: Vec<Drawing>,
    pub selected: Option<usize>,
}

impl View for Gallery {
    type V = GalleryModel;

    open spec fn view(&self) -> GalleryModel {
        GalleryModel {
            drawings: self.drawings@.map_values(|d: Drawing| d@),
            selected: self.selected,
        }
    }
}

/// The intents the gallery page dispatches. `Download` changes no state: the
/// export itself is the presentation layer's work.
pub enum Msg {
    Download(usize),
    Delete(usize),
    Select(usize),
    UnSelect,
    TogglePoints(usize),
}

impl Gallery {
    /// An empty gallery with nothing selected.
    pub fn new() -> (g: Gallery)
        ensures
            g@.drawings == Seq::<DrawingModel>::empty(),
            g@.selected is None,
    {
        let g = Gallery { drawings: Vec::new(), selected: None };
        proof {
            assert(g@.drawings =~= Seq::<DrawingModel>::empty());
        }
        g
    }

    /// The number of stored drawings.
    pub fn len(&self) -> (n: usize)
        ensures
            n == self@.drawings.len(),
    {
        self.drawings.len()
    }

    /// The drawing at `idx`.
    pub fn get(&self, idx: usize) -> (d: &Drawing)
        requires
            idx < self@.drawings.len(),
        ensures
            d@ == self@.drawings[idx as int],
    {
        &self.drawings[idx]
    }

    /// Appends a drawing at the end; the selection is untouched.
    pub fn append(&mut self, d: Drawing)
        ensures
            final(self)@.drawings == old(self)@.drawings.push(d@),
            final(self)@.selected == old(self)@.selected,
    {
        let ghost dm = d@;
        self.drawings.push(d);
        proof {
            assert(final(self)@.drawings =~= old(self)@.drawings.push(dm));
        }
    }

    /// Removes the drawing at `idx` and shifts every later drawing down by
    /// one index; a no-op when `idx` is out of range. The selection is
    /// untouched.
    pub fn delete(&mut self, idx: usize)
        ensures
            final(self)@.selected == old(self)@.selected,
            idx < old(self)@.drawings.len() ==> {
                &&& final(self)@.drawings == old(self)@.drawings.remove(idx as int)
                &&& final(self)@.drawings.len() == old(self)@.drawings.len() - 1
                &&& forall|j: int|
                    0 <= j < idx ==> final(self)@.drawings[j] == old(self)@.drawings[j]
                &&& forall|j: int|
                    idx <= j < final(self)@.drawings.len() ==> final(self)@.drawings[j] == old(self)@.drawings[j + 1]
            },
            idx >= old(self)@.drawings.len() ==> *final(self) == *old(self),
    {
        if idx < self.drawings.len() {
            self.drawings.remove(idx);
            proof {
                assert(final(self)@.drawings =~= old(self)@.drawings.remove(idx as int));
            }
        }
    }

    /// Flips the grid-point visibility flag of the drawing at `idx`; a no-op
    /// when `idx` is out of range. The selection is untouched.
    pub fn toggle_points(&mut self, idx: usize)
        ensures
            final(self)@.selected == old(self)@.selected,
            idx < old(self)@.drawings.len() ==> final(self)@.drawings == old(self)@.drawings.update(
                idx as int,
                toggle_points_model(old(self)@.drawings[idx as int]),
            ),
            idx >= old(self)@.drawings.len() ==> *final(self) == *old(self),
    {
        if idx < self.drawings.len() {
            let d = &mut self.drawings[idx];
            d.toggle_include_points();
            proof {
                assert(final(self)@.drawings =~= old(self)@.drawings.update(
                    idx as int,
                    toggle_points_model(old(self)@.drawings[idx as int]),
                ));
            }
        }
    }

    /// Marks `idx` as selected; the stored drawings are untouched. The index
    /// is not validated, exactly as an index-addressed selection cannot be
    /// ahead of a later delete.
    pub fn select(&mut self, idx: usize)
        ensures
            final(self)@.drawings == old(self)@.drawings,
            final(self)@.selected == Some(idx),
    {
        self.selected = Some(idx);
    }

    /// Clears the selection; the stored drawings are untouched.
    pub fn unselect(&mut self)
        ensures
            final(self)@.drawings == old(self)@.drawings,
            final(self)@.selected is None,
    {
        self.selected = None;
    }

    /// Applies one gallery-page intent. `Download` leaves the gallery
    /// unchanged: the caller performs the export.
    pub fn update(&mut self, msg: Msg)
        ensures
            match msg {
                Msg::Download(_) => *final(self) == *old(self),
                Msg::Delete(idx) => {
                    &&& final(self)@.selected == old(self)@.selected
                    &&& (idx < old(self)@.drawings.len() ==> final(self)@.drawings == old(self)@.drawings.remove(idx as int))
                    &&& (idx >= old(self)@.drawings.len() ==> *final(self) == *old(self))
                },
                Msg::Select(idx) => final(self)@.drawings == old(self)@.drawings && final(self)@.selected == Some(idx),
                Msg::UnSelect => final(self)@.drawings == old(self)@.drawings && final(self)@.selected is None,
                Msg::TogglePoints(idx) => {
                    &&& final(self)@.selected == old(self)@.selected
                    &&& (idx < old(self)@.drawings.len() ==> final(self)@.drawings == old(self)@.drawings.update(
                        idx as int,
                        toggle_points_model(old(self)@.drawings[idx as int]),
                    ))
                    &&& (idx >= old(self)@.drawings.len() ==> *final(self) == *old(self))
                },
            },
    {
        match msg {
            Msg::Download(_) => {},
            Msg::Delete(idx) => self.delete(idx),
            Msg::Select(idx) => self.select(idx),
            Msg::UnSelect => self.unselect(),
            Msg::TogglePoints(idx) => self.toggle_points(idx),
        }
    }
}

} // verus!
