//! The interactive editing session: a drawing under construction, the valid
//! row range for new endpoints, and at most one pending ("candidate")
//! segment. Every user intent is a synchronous transition of this state;
//! intents that draw random endpoints call into the random number generator
//! behind a guarded range check.

use vstd::prelude::*;

use rand::Rng;

use crate::drawing::Drawing;
use crate::drawing::Shape;
use crate::drawing::add_line_model;
use crate::drawing::default_model;
use crate::drawing::segment_shapes;
use crate::drawing::toggle_points_model;
use crate::gallery::Gallery;

verus! {

/// A random draw was asked from an empty integer range.
#[derive(Clone, Copy, PartialEq, Eq, Structural, Debug)]
pub struct InvalidRangeError;

/// Relies on rand::Rng::gen_range over the half-open range `lo..hi` with
/// rand's thread-local generator: the result is uniform in `[lo, hi)`, and
/// the call panics only on an empty range, which the precondition excludes.
#[verifier::external_body]
fn rand_in_range(lo: i16, hi: i16) -> (r: i16)
    requires
        lo < hi,
    ensures
        lo <= r < hi,
{
    rand::thread_rng().gen_range(lo..hi)
}

/// Cell `c` lies on the first `width` grid columns, in the row window
/// `[y_limits.0, y_limits.1)`.
pub open spec fn cell_in_bounds(c: (i16, i16), width: u16, y_limits: (i16, i16)) -> bool {
    &&& 0 <= c.0 < width
    &&& y_limits.0 <= c.1 < y_limits.1
}

/// Draws a random cell from `[0, width) x [y_limits.0, y_limits.1)`. Fails
/// exactly when a range is empty or `width` does not fit a 16-bit column
/// index, so an empty draw never reaches the generator.
pub fn random_cell(width: u16, y_limits: (i16, i16)) -> (r: Result<
    (i16, i16),
    InvalidRangeError,
>)
    ensures
        r is Ok <==> (1 <= width <= 0x7fff && y_limits.0 < y_limits.1),
        r matches Ok(c) ==> cell_in_bounds(c, width, y_limits),
{
    if width < 1 || width > 0x7fff || y_limits.0 >= y_limits.1 {
        return Err(InvalidRangeError);
    }
    let col = rand_in_range(0, width as i16);
    let row = rand_in_range(y_limits.0, y_limits.1);
    Ok((col, row))
}

/// The intents the drawing page dispatches. `Download` changes no state: the
/// export itself is the presentation layer's work.
pub enum Msg {
    ToggleShowPoints,
    NextRandomLine,
    LineFrom(u16),
    AddLine,
    NextRow,
    Download,
    ChangeNumCols(u16),
    Clear,
    Save,
}

/// Maps a raw keyboard key to the intent it triggers: one commit key, one
/// randomize key, one grow-row key, and the digit keys, which start a
/// candidate from the numbered column.
pub fn key_to_msg(key: char) -> (r: Option<Msg>)
    ensures
        match r {
            Some(Msg::AddLine) => key == 'c',
            Some(Msg::NextRandomLine) => key == 'r',
            Some(Msg::NextRow) => key == 'n',
            Some(Msg::LineFrom(x)) => '0' <= key <= '9' && x == key as u16 - '0' as u16,
            Some(_) => false,
            None => !(key == 'c' || key == 'r' || key == 'n' || '0' <= key <= '9'),
        },
{
    if key == 'c' {
        Some(Msg::AddLine)
    } else if key == 'r' {
        Some(Msg::NextRandomLine)
    } else if key == 'n' {
        Some(Msg::NextRow)
    } else if '0' <= key && key <= '9' {
        Some(Msg::LineFrom(key as u16 - '0' as u16))
    } else {
        None
    }
}

/// The editing state of the drawing page. `next_line` is the candidate: at
/// most one pending, uncommitted segment; `None` means the session is idle.
pub struct DrawSession {
    pub y_limits: (i16, i16),
    pub next_line: Option<((i16, i16), (i16, i16))>,
    pub drawing: Drawing,
}

impl DrawSession {
    /// The session's validity: the grid is at least one column wide and one
    /// row high (and the width fits a 16-bit column index), the surface has
    /// positive dimensions, and the row window for new endpoints is
    /// non-empty and starts at a valid row. Constructors establish it and
    /// every intent preserves it.
    pub open spec fn inv(&self) -> bool {
        &&& 1 <= self.drawing.grid_width <= 0x7fff
        &&& 1 <= self.drawing.grid_height
        &&& 1 <= self.drawing.view_width
        &&& 1 <= self.drawing.view_height
        &&& 0 <= self.y_limits.0 < self.y_limits.1
    }

    /// A fresh session: a default drawing, no candidate, and the row window
    /// covering the default grid's rows.
    pub fn init() -> (s: DrawSession)
        ensures
            s.drawing@ == default_model(),
            s.y_limits == (0i16, 2i16),
            s.next_line is None,
            s.inv(),
    {
        DrawSession { y_limits: (0, 2), next_line: None, drawing: Drawing::new() }
    }

    /// The shapes of the candidate segment, for previewing it over the
    /// drawing: empty when the session is idle.
    pub fn preview(&self) -> (r: Vec<Shape>)
        ensures
            match self.next_line {
                Some(l) => r@ == segment_shapes(
                    crate::geometry::Spacing {
                        num: self.drawing.view_width,
                        den: (self.drawing.grid_width + 1) as u32,
                    },
                    crate::geometry::Spacing {
                        num: self.drawing.view_height,
                        den: (self.drawing.grid_height + 1) as u32,
                    },
                    l,
                ),
                None => r@ == Seq::<Shape>::empty(),
            },
    {
        match self.next_line {
            Some(l) => crate::drawing::draw_line(l, self.drawing.x_spacing(), self.drawing.y_spacing()),
            None => {
                let r: Vec<Shape> = Vec::new();
                proof {
                    assert(r@ =~= Seq::<Shape>::empty());
                }
                r
            },
        }
    }

    /// Applies one drawing-page intent, a synchronous transition of the
    /// session (and, on `Save`, of the gallery):
    ///
    /// - `ToggleShowPoints` flips the drawing's visibility flag.
    /// - `NextRandomLine` replaces the candidate with a segment drawn
    ///   uniformly from the grid columns and the current row window.
    /// - `LineFrom(col)`, for `1 <= col <= grid_width`, starts the candidate
    ///   at column `col - 1` on the window's first row, with a random far
    ///   endpoint; any other `col` is a no-op.
    /// - `AddLine` commits the candidate: it moves into the drawing exactly
    ///   once and the session returns to idle; idle sessions are unchanged.
    /// - `NextRow` grows the grid by one row and shifts the row window up by
    ///   one; a no-op while a candidate is pending, or if a count would
    ///   overflow its machine width.
    /// - `Download` changes nothing: the caller performs the export.
    /// - `ChangeNumCols(w)` sets the grid width to `w` when `w >= 1` fits a
    ///   16-bit column index; otherwise a no-op.
    /// - `Clear` resets the drawing and the row window to their defaults and
    ///   drops the candidate.
    /// - `Save` appends the drawing to the gallery, replaces it with a fresh
    ///   default drawing, and drops the candidate.
    pub fn update(&mut self, msg: Msg, gallery: &mut Gallery)
        requires
            old(self).inv(),
        ensures
            final(self).inv(),
            final(gallery)@.selected == old(gallery)@.selected,
            match msg {
                Msg::ToggleShowPoints => {
                    &&& final(self).drawing@ == toggle_points_model(old(self).drawing@)
                    &&& final(self).y_limits == old(self).y_limits
                    &&& final(self).next_line == old(self).next_line
                    &&& final(gallery)@ == old(gallery)@
                },
                Msg::NextRandomLine => {
                    &&& final(self).next_line matches Some(l) && cell_in_bounds(
                        l.0,
                        old(self).drawing.grid_width,
                        old(self).y_limits,
                    ) && cell_in_bounds(l.1, old(self).drawing.grid_width, old(self).y_limits)
                    &&& final(self).drawing == old(self).drawing
                    &&& final(self).y_limits == old(self).y_limits
                    &&& final(gallery)@ == old(gallery)@
                },
                Msg::LineFrom(x) => {
                    &&& (1 <= x <= old(self).drawing.grid_width ==> (final(self).next_line matches Some(l)
                        && l.0 == ((x - 1) as i16, old(self).y_limits.0) && cell_in_bounds(
                        l.1,
                        old(self).drawing.grid_width,
                        old(self).y_limits,
                    )))
                    &&& (!(1 <= x <= old(self).drawing.grid_width) ==> *final(self) == *old(self))
                    &&& final(self).drawing == old(self).drawing
                    &&& final(self).y_limits == old(self).y_limits
                    &&& final(gallery)@ == old(gallery)@
                },
                Msg::AddLine => {
                    &&& (old(self).next_line matches Some(l) ==> final(self).drawing@
                        == add_line_model(old(self).drawing@, l.0, l.1) && final(self).next_line
                        is None)
                    &&& (old(self).next_line is None ==> *final(self) == *old(self))
                    &&& final(self).y_limits == old(self).y_limits
                    &&& final(gallery)@ == old(gallery)@
                },
                Msg::NextRow => {
                    &&& (old(self).next_line is None && old(self).drawing.grid_height < 0xffff
                        && old(self).y_limits.1 < 0x7fff ==> {
                        &&& final(self).drawing@.grid_height == old(self).drawing@.grid_height + 1
                        &&& final(self).drawing@ == (crate::drawing::DrawingModel {
                            grid_height: (old(self).drawing@.grid_height + 1) as u16,
                            ..old(self).drawing@
                        })
                        &&& final(self).y_limits == ((old(self).y_limits.0 + 1) as i16, (old(
                            self,
                        ).y_limits.1 + 1) as i16)
                        &&& final(self).next_line is None
                    })
                    &&& (!(old(self).next_line is None && old(self).drawing.grid_height < 0xffff
                        && old(self).y_limits.1 < 0x7fff) ==> *final(self) == *old(self))
                    &&& final(gallery)@ == old(gallery)@
                },
                Msg::Download => {
                    &&& *final(self) == *old(self)
                    &&& final(gallery)@ == old(gallery)@
                },
                Msg::ChangeNumCols(w) => {
                    &&& (1 <= w <= 0x7fff ==> final(self).drawing@ == (crate::drawing::DrawingModel {
                        grid_width: w,
                        ..old(self).drawing@
                    }) && final(self).y_limits == old(self).y_limits && final(self).next_line
                        == old(self).next_line)
                    &&& (!(1 <= w <= 0x7fff) ==> *final(self) == *old(self))
                    &&& final(gallery)@ == old(gallery)@
                },
                Msg::Clear => {
                    &&& final(self).drawing@ == default_model()
                    &&& final(self).y_limits == (0i16, 2i16)
                    &&& final(self).next_line is None
                    &&& final(gallery)@ == old(gallery)@
                },
                Msg::Save => {
                    &&& final(gallery)@.drawings == old(gallery)@.drawings.push(old(self).drawing@)
                    &&& final(self).drawing@ == default_model()
                    &&& final(self).next_line is None
                    &&& final(self).y_limits == old(self).y_limits
                },
            },
    {
        match msg {
            Msg::ToggleShowPoints => {
                self.drawing.toggle_include_points();
            },
            Msg::NextRandomLine => {
                let from = random_cell(self.drawing.grid_width, self.y_limits);
                let to = random_cell(self.drawing.grid_width, self.y_limits);
                match (from, to) {
                    (Ok(f), Ok(t)) => {
                        self.next_line = Some((f, t));
                    },
                    _ => {
                        proof {
                            assert(false);
                        }
                    },
                }
            },
            Msg::LineFrom(x) => {
                if 1 <= x && x <= self.drawing.grid_width {
                    let to = random_cell(self.drawing.grid_width, self.y_limits);
                    match to {
                        Ok(t) => {
                            self.next_line = Some((((x - 1) as i16, self.y_limits.0), t));
                        },
                        Err(_) => {
                            proof {
                                assert(false);
                            }
                        },
                    }
                }
            },
            Msg::AddLine => {
                match self.next_line {
                    Some(l) => {
                        self.drawing.add_line(l.0, l.1);
                        self.next_line = None;
                    },
                    None => {},
                }
            },
            Msg::NextRow => {
                if self.next_line.is_none() && self.drawing.grid_height < 0xffff
                    && self.y_limits.1 < 0x7fff {
                    self.drawing.grid_height = self.drawing.grid_height + 1;
                    self.y_limits = (self.y_limits.0 + 1, self.y_limits.1 + 1);
                }
            },
            Msg::Download => {},
            Msg::ChangeNumCols(w) => {
                if 1 <= w && w <= 0x7fff {
                    self.drawing.grid_width = w;
                }
            },
            Msg::Clear => {
                self.y_limits = (0, 2);
                self.next_line = None;
                self.drawing = Drawing::new();
            },
            Msg::Save => {
                let mut finished = Drawing::new();
                core::mem::swap(&mut self.drawing, &mut finished);
                gallery.append(finished);
                self.next_line = None;
            },
        }
    }
}

} // verus!
