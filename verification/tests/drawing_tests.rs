use trackgrid::drawing::Drawing;
use trackgrid::drawing::Shape;
use trackgrid::drawing::draw_line;
use trackgrid::geometry::Coord;
use trackgrid::geometry::Spacing;
use trackgrid::geometry::cell_to_point;

#[test]
fn new_drawing_has_defaults() {
    let d = Drawing::new();
    assert_eq!(d.grid_width, 4);
    assert_eq!(d.grid_height, 2);
    assert_eq!(d.view_width, 1000);
    assert_eq!(d.view_height, 2000);
    assert!(d.includes_points);
    assert_eq!(d.lines.len(), 0);
}

#[test]
fn spacings_follow_live_dimensions() {
    let mut d = Drawing::new();
    assert_eq!(d.x_spacing(), Spacing { num: 1000, den: 5 });
    assert_eq!(d.y_spacing(), Spacing { num: 2000, den: 3 });
    d.grid_width = 7;
    assert_eq!(d.x_spacing(), Spacing { num: 1000, den: 8 });
}

#[test]
fn first_and_last_columns_keep_one_spacing_margin() {
    // A 4-wide grid on a 1000-unit surface: spacing is 1000/5 units.
    let xs = Spacing { num: 1000, den: 5 };
    let ys = Spacing { num: 2000, den: 3 };
    let first = cell_to_point((0, 0), xs, ys);
    let last = cell_to_point((3, 0), xs, ys);
    // Column 0 sits exactly one spacing unit (1000/5 = 200) from the left
    // edge, strictly inside (0, 1000).
    assert_eq!(first.0, Coord { num: 1000, den: 5 });
    assert!(first.0.num > 0);
    assert!(first.0.num < 1000 * 5);
    // Column 3 sits at 4000/5 = 800: one spacing unit from the right edge.
    assert_eq!(last.0, Coord { num: 4000, den: 5 });
    assert_eq!(1000 * 5 - last.0.num, 1000);
}

#[test]
fn cell_to_point_scales_rows_by_row_spacing() {
    let xs = Spacing { num: 1000, den: 5 };
    let ys = Spacing { num: 2000, den: 3 };
    let p = cell_to_point((2, 1), xs, ys);
    assert_eq!(p.0, Coord { num: 3000, den: 5 });
    assert_eq!(p.1, Coord { num: 4000, den: 3 });
}

#[test]
fn add_line_appends_in_order() {
    let mut d = Drawing::new();
    d.add_line((0, 0), (1, 1));
    d.add_line((2, 0), (3, 1));
    assert_eq!(d.lines.len(), 2);
    assert_eq!(d.lines[0], ((0, 0), (1, 1)));
    assert_eq!(d.lines[1], ((2, 0), (3, 1)));
}

#[test]
fn toggle_points_twice_restores_flag() {
    let mut d = Drawing::new();
    let before = d.includes_points;
    d.toggle_include_points();
    assert_eq!(d.includes_points, !before);
    d.toggle_include_points();
    assert_eq!(d.includes_points, before);
}

#[test]
fn draw_emits_grid_circles_then_segment_shapes() {
    let mut d = Drawing::new();
    d.add_line((0, 0), (3, 1));
    let shapes = d.draw();
    // 4 x 2 grid points, then line + two endpoint circles.
    assert_eq!(shapes.len(), 8 + 3);
    // First circle: column 0 of row 0, at one spacing from each edge.
    assert_eq!(
        shapes[0],
        Shape::Circle { cx: Coord { num: 1000, den: 5 }, cy: Coord { num: 2000, den: 3 }, radius: 10 }
    );
    // Second circle is the next column of the same row.
    assert_eq!(
        shapes[1],
        Shape::Circle { cx: Coord { num: 2000, den: 5 }, cy: Coord { num: 2000, den: 3 }, radius: 10 }
    );
    // The segment's line comes right after the grid circles.
    assert_eq!(
        shapes[8],
        Shape::Line {
            x1: Coord { num: 1000, den: 5 },
            y1: Coord { num: 2000, den: 3 },
            x2: Coord { num: 4000, den: 5 },
            y2: Coord { num: 4000, den: 3 },
            stroke_width: 20,
        }
    );
}

#[test]
fn draw_without_points_renders_segments_only() {
    let mut d = Drawing::new();
    d.toggle_include_points();
    d.add_line((0, 0), (1, 1));
    d.add_line((1, 0), (2, 1));
    let shapes = d.draw();
    assert_eq!(shapes.len(), 6);
    assert!(matches!(shapes[0], Shape::Line { .. }));
    assert!(matches!(shapes[1], Shape::Circle { .. }));
    assert!(matches!(shapes[2], Shape::Circle { .. }));
    assert!(matches!(shapes[3], Shape::Line { .. }));
}

#[test]
fn draw_line_renders_one_line_and_two_endpoints() {
    let xs = Spacing { num: 1000, den: 5 };
    let ys = Spacing { num: 2000, den: 3 };
    let shapes = draw_line(((1, 0), (2, 1)), xs, ys);
    assert_eq!(shapes.len(), 3);
    assert_eq!(
        shapes[0],
        Shape::Line {
            x1: Coord { num: 2000, den: 5 },
            y1: Coord { num: 2000, den: 3 },
            x2: Coord { num: 3000, den: 5 },
            y2: Coord { num: 4000, den: 3 },
            stroke_width: 20,
        }
    );
    assert_eq!(
        shapes[1],
        Shape::Circle { cx: Coord { num: 2000, den: 5 }, cy: Coord { num: 2000, den: 3 }, radius: 10 }
    );
    assert_eq!(
        shapes[2],
        Shape::Circle { cx: Coord { num: 3000, den: 5 }, cy: Coord { num: 4000, den: 3 }, radius: 10 }
    );
}

#[test]
fn same_as_compares_every_field() {
    let mut a = Drawing::new();
    let mut b = Drawing::new();
    assert!(a.same_as(&b));
    a.add_line((0, 0), (1, 1));
    assert!(!a.same_as(&b));
    b.add_line((0, 0), (1, 1));
    assert!(a.same_as(&b));
    b.toggle_include_points();
    assert!(!a.same_as(&b));
}
