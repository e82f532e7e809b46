//! The drawing aggregate: grid dimensions, the committed line segments, the
//! surface dimensions of the output coordinate space, and the grid-point
//! visibility flag, together with the projection of a drawing into a flat
//! list of renderable shapes.

use vstd::prelude::*;

use crate::geometry::Coord;
use crate::geometry::Spacing;
use crate::geometry::point_num;

verus! {

/// Stroke width of a rendered segment, in drawing units.
pub const STROKE_WIDTH: u32 = 20;

/// Radius of a rendered grid point or segment endpoint, in drawing units.
pub const POINT_RADIUS: u32 = 10;

/// The mathematical value of a `Drawing`: its grid and surface dimensions,
/// the visibility flag, and the committed segments as a sequence.
#[verifier::ext_equal]
pub ghost struct DrawingModel {
    pub grid_width: u16,
    pub grid_height: u16,
    pub view_width: u32,
    pub view_height: u32,
    pub includes_points: bool,
    pub lines: Seq<((i16, i16), (i16, i16))>,
}

/// A drawing: a `grid_width x grid_height` grid of points mapped onto a
/// `view_width x view_height` surface, and an append-only list of line
/// segments between grid cells. Segments are never validated against the
/// current grid bounds; degenerate segments are permitted.
pub struct Drawing {
    pub grid_width: u16,
    pub grid_height: u16,
    pub view_width: u32,
    pub view_height: u32,
    pub includes_points: bool,
    pub lines: Vec<((i16, i16), (i16, i16))>,
}

impl View for Drawing {
    type V = DrawingModel;

    open spec fn view(&self) -> DrawingModel {
        DrawingModel {
            grid_width: self.grid_width,
            grid_height: self.grid_height,
            view_width: self.view_width,
            view_height: self.view_height,
            includes_points: self.includes_points,
            lines: self.lines@,
        }
    }
}

/// The model of a freshly constructed drawing: a 4 x 2 grid on a
/// 1000 x 2000 surface, no segments, grid points shown.
pub open spec fn default_model() -> DrawingModel {
    DrawingModel {
        grid_width: 4,
        grid_height: 2,
        view_width: 1000,
        view_height: 2000,
        includes_points: true,
        lines: Seq::empty(),
    }
}

/// The model after flipping the grid-point visibility flag.
pub open spec fn toggle_points_model(m: DrawingModel) -> DrawingModel {
    DrawingModel { includes_points: !m.includes_points, ..m }
}

/// The model after appending one segment.
pub open spec fn add_line_model(
    m: DrawingModel,
    from: (i16, i16),
    to: (i16, i16),
) -> DrawingModel {
    DrawingModel { lines: m.lines.push((from, to)), ..m }
}

/// Flipping the visibility flag twice returns a drawing to its original
/// value.
pub proof fn lemma_toggle_points_twice(m: DrawingModel)
    ensures
        toggle_points_model(toggle_points_model(m)) == m,
{
    assert(toggle_points_model(toggle_points_model(m)) =~= m);
}

/// The exact coordinate of grid index `c` under spacing `s`.
pub open spec fn spec_coord(s: Spacing, c: int) -> Coord {
    Coord { num: point_num(s.num as int, c) as i64, den: s.den }
}

/// One renderable shape of the vector output: a stroked line or a filled
/// circle, with exact fractional coordinates.
#[derive(Clone, Copy, PartialEq, Eq, Structural, Debug)]
pub enum Shape {
    Line { x1: Coord, y1: Coord, x2: Coord, y2: Coord, stroke_width: u32 },
    Circle { cx: Coord, cy: Coord, radius: u32 },
}

/// The three shapes a segment renders to: the stroked line and a circle on
/// each endpoint.
pub open spec fn segment_shapes(
    xs: Spacing,
    ys: Spacing,
    l: ((i16, i16), (i16, i16)),
) -> Seq<Shape> {
    seq![
        Shape::Line {
            x1: spec_coord(xs, l.0.0 as int),
            y1: spec_coord(ys, l.0.1 as int),
            x2: spec_coord(xs, l.1.0 as int),
            y2: spec_coord(ys, l.1.1 as int),
            stroke_width: STROKE_WIDTH,
        },
        Shape::Circle {
            cx: spec_coord(xs, l.0.0 as int),
            cy: spec_coord(ys, l.0.1 as int),
            radius: POINT_RADIUS,
        },
        Shape::Circle {
            cx: spec_coord(xs, l.1.0 as int),
            cy: spec_coord(ys, l.1.1 as int),
            radius: POINT_RADIUS,
        },
    ]
}

/// One circle per grid intersection, rows outermost: element `k` marks
/// column `k % gw` of row `k / gw`.
pub open spec fn grid_point_shapes(xs: Spacing, ys: Spacing, gw: int, gh: int) -> Seq<Shape> {
    Seq::new(
        (gh * gw) as nat,
        |k: int|
            Shape::Circle {
                cx: spec_coord(xs, k % gw),
                cy: spec_coord(ys, k / gw),
                radius: POINT_RADIUS,
            },
    )
}

/// The shapes of a sequence of segments, in order, three per segment.
pub open spec fn lines_shapes(
    xs: Spacing,
    ys: Spacing,
    lines: Seq<((i16, i16), (i16, i16))>,
) -> Seq<Shape>
    decreases lines.len(),
{
    if lines.len() == 0 {
        Seq::empty()
    } else {
        lines_shapes(xs, ys, lines.drop_last()) + segment_shapes(xs, ys, lines.last())
    }
}

/// The full rendered geometry of a drawing: the grid-point circles when they
/// are shown, followed by the shapes of every committed segment.
pub open spec fn render_spec(m: DrawingModel) -> Seq<Shape> {
    let xs = Spacing { num: m.view_width, den: (m.grid_width + 1) as u32 };
    let ys = Spacing { num: m.view_height, den: (m.grid_height + 1) as u32 };
    (if m.includes_points {
        grid_point_shapes(xs, ys, m.grid_width as int, m.grid_height as int)
    } else {
        Seq::empty()
    }) + lines_shapes(xs, ys, m.lines)
}

/// Renders one segment under the given spacings: the stroked line and its
/// two endpoint circles.
pub fn draw_line(
    line: ((i16, i16), (i16, i16)),
    x_spacing: Spacing,
    y_spacing: Spacing,
) -> (r: Vec<Shape>)
    ensures
        r@ == segment_shapes(x_spacing, y_spacing, line),
{
    let from = crate::geometry::cell_to_point(line.0, x_spacing, y_spacing);
    let to = crate::geometry::cell_to_point(line.1, x_spacing, y_spacing);
    let mut ret: Vec<Shape> = Vec::new();
    ret.push(
        Shape::Line {
            x1: from.0,
            y1: from.1,
            x2: to.0,
            y2: to.1,
            stroke_width: STROKE_WIDTH,
        },
    );
    ret.push(Shape::Circle { cx: from.0, cy: from.1, radius: POINT_RADIUS });
    ret.push(Shape::Circle { cx: to.0, cy: to.1, radius: POINT_RADIUS });
    proof {
        assert(ret@ =~= segment_shapes(x_spacing, y_spacing, line));
    }
    ret
}

impl Drawing {
    /// A fresh drawing: 4 x 2 grid, 1000 x 2000 surface, no segments, grid
    /// points shown.
    pub fn new() -> (d: Drawing)
        ensures
            d@ == default_model(),
    {
        let d = Drawing {
            grid_width: 4,
            grid_height: 2,
            view_width: 1000,
            view_height: 2000,
            lines: Vec::new(),
            includes_points: true,
        };
        proof {
            assert(d@ =~= default_model());
        }
        d
    }

    /// Appends the segment `(from, to)` to the drawing. No bounds check is
    /// made against the current grid dimensions.
    pub fn add_line(&mut self, from: (i16, i16), to: (i16, i16))
        ensures
            final(self)@ == add_line_model(old(self)@, from, to),
    {
        self.lines.push((from, to));
        proof {
            assert(final(self)@ =~= add_line_model(old(self)@, from, to));
        }
    }

    /// Flips the grid-point visibility flag; nothing else changes.
    pub fn toggle_include_points(&mut self)
        ensures
            final(self)@ == toggle_points_model(old(self)@),
    {
        self.includes_points = !self.includes_points;
        proof {
            assert(final(self)@ =~= toggle_points_model(old(self)@));
        }
    }

    /// The horizontal distance between adjacent grid columns: the surface
    /// width split into `grid_width + 1` equal spacings. Recomputed from the
    /// live fields on every call.
    pub fn x_spacing(&self) -> (r: Spacing)
        ensures
            r.num == self.view_width,
            r.den == self.grid_width as u32 + 1,
    {
        Spacing { num: self.view_width, den: self.grid_width as u32 + 1 }
    }

    /// The vertical distance between adjacent grid rows: the surface height
    /// split into `grid_height + 1` equal spacings, so the row layout follows
    /// the row count just as the column layout follows the column count.
    pub fn y_spacing(&self) -> (r: Spacing)
        ensures
            r.num == self.view_height,
            r.den == self.grid_height as u32 + 1,
    {
        Spacing { num: self.view_height, den: self.grid_height as u32 + 1 }
    }

    /// One circle per grid intersection, row by row.
    fn gen_circles(&self) -> (r: Vec<Shape>)
        ensures
            r@ == grid_point_shapes(
                Spacing { num: self.view_width, den: (self.grid_width + 1) as u32 },
                Spacing { num: self.view_height, den: (self.grid_height + 1) as u32 },
                self.grid_width as int,
                self.grid_height as int,
            ),
    {
        let xs = self.x_spacing();
        let ys = self.y_spacing();
        let gw = self.grid_width as u32;
        let gh = self.grid_height as u32;
        proof {
            assert(gh * gw <= 0xffff_ffff) by (nonlinear_arith)
                requires
                    gh <= 0xffff,
                    gw <= 0xffff,
            ;
        }
        let total: u32 = gh * gw;
        let ghost spec_shapes = grid_point_shapes(xs, ys, gw as int, gh as int);
        let mut ret: Vec<Shape> = Vec::new();
        let mut k: u32 = 0;
        while k < total
            invariant
                k <= total,
                total == gh * gw,
                gw == self.grid_width,
                gh == self.grid_height,
                xs == (Spacing { num: self.view_width, den: (self.grid_width + 1) as u32 }),
                ys == (Spacing { num: self.view_height, den: (self.grid_height + 1) as u32 }),
                spec_shapes == grid_point_shapes(xs, ys, gw as int, gh as int),
                ret@ =~= spec_shapes.take(k as int),
            decreases total - k,
        {
            proof {
                if gw == 0 {
                    assert(total == gh * 0);
                    assert(total == 0) by (nonlinear_arith)
                        requires
                            total == gh * 0,
                    ;
                }
            }
            let col = k % gw;
            let row = k / gw;
            proof {
                assert(row < gh && col < gw) by (nonlinear_arith)
                    requires
                        0 < gw,
                        k < gh * gw,
                        col == k % gw,
                        row == k / gw,
                ;
                crate::geometry::lemma_spacing_product_fits(xs.num as int, col as int);
                crate::geometry::lemma_spacing_product_fits(ys.num as int, row as int);
            }
            let cx_num: i64 = (xs.num as i64) * ((col as i64) + 1);
            let cy_num: i64 = (ys.num as i64) * ((row as i64) + 1);
            proof {
                assert(spec_shapes[k as int] == (Shape::Circle {
                    cx: spec_coord(xs, k as int % gw as int),
                    cy: spec_coord(ys, k as int / gw as int),
                    radius: POINT_RADIUS,
                }));
            }
            ret.push(
                Shape::Circle {
                    cx: Coord { num: cx_num, den: xs.den },
                    cy: Coord { num: cy_num, den: ys.den },
                    radius: POINT_RADIUS,
                },
            );
            proof {
                assert(ret@ =~= spec_shapes.take(k as int + 1));
            }
            k = k + 1;
        }
        proof {
            assert(spec_shapes.take(total as int) =~= spec_shapes);
        }
        ret
    }

    /// Projects the drawing into its flat list of renderable shapes: the
    /// grid-point circles when `includes_points` is set, then three shapes
    /// per committed segment. A pure projection; the drawing is unchanged.
    pub fn draw(&self) -> (r: Vec<Shape>)
        ensures
            r@ == render_spec(self@),
    {
        let xs = self.x_spacing();
        let ys = self.y_spacing();
        let mut ret: Vec<Shape> = if self.includes_points {
            self.gen_circles()
        } else {
            Vec::new()
        };
        let ghost base = ret@;
        let mut t: usize = 0;
        while t < self.lines.len()
            invariant
                t <= self.lines.len(),
                xs == (Spacing { num: self.view_width, den: (self.grid_width + 1) as u32 }),
                ys == (Spacing { num: self.view_height, den: (self.grid_height + 1) as u32 }),
                ret@ =~= base + lines_shapes(xs, ys, self.lines@.take(t as int)),
            decreases self.lines.len() - t,
        {
            let mut shapes = draw_line(self.lines[t], xs, ys);
            ret.append(&mut shapes);
            proof {
                let taken = self.lines@.take(t as int + 1);
                assert(taken.drop_last() =~= self.lines@.take(t as int));
                assert(taken.last() == self.lines@[t as int]);
                assert(ret@ =~= base + lines_shapes(xs, ys, taken));
            }
            t = t + 1;
        }
        proof {
            assert(self.lines@.take(self.lines@.len() as int) =~= self.lines@);
            assert(ret@ =~= render_spec(self@));
        }
        ret
    }

    /// Structural equality on every field, segment order included.
    pub fn same_as(&self, other: &Drawing) -> (r: bool)
        ensures
            r == (self@ == other@),
    {
        if self.grid_width != other.grid_width || self.grid_height != other.grid_height
            || self.view_width != other.view_width || self.view_height != other.view_height
            || self.includes_points != other.includes_points || self.lines.len()
            != other.lines.len() {
            proof {
                assert(self@ != other@);
            }
            return false;
        }
        let mut i: usize = 0;
        while i < self.lines.len()
            invariant
                i <= self.lines.len(),
                self.lines.len() == other.lines.len(),
                forall|j: int| 0 <= j < i ==> self.lines@[j] == other.lines@[j],
            decreases self.lines.len() - i,
        {
            let a = self.lines[i];
            let b = other.lines[i];
            if a.0.0 != b.0.0 || a.0.1 != b.0.1 || a.1.0 != b.1.0 || a.1.1 != b.1.1 {
                proof {
                    assert(self.lines@[i as int] != other.lines@[i as int]);
                }
                return false;
            }
            i = i + 1;
        }
        proof {
            assert(self.lines@ =~= other.lines@);
            assert(self@ =~= other@);
        }
        true
    }
}

} // verus!
