use trackgrid::drawing::Shape;
use trackgrid::gallery::Gallery;
use trackgrid::session::DrawSession;
use trackgrid::session::InvalidRangeError;
use trackgrid::session::Msg;
use trackgrid::session::key_to_msg;
use trackgrid::session::random_cell;

fn in_bounds(c: (i16, i16), width: u16, y_limits: (i16, i16)) -> bool {
    0 <= c.0 && (c.0 as u16) < width && y_limits.0 <= c.1 && c.1 < y_limits.1
}

#[test]
fn init_starts_idle_with_default_drawing() {
    let s = DrawSession::init();
    assert_eq!(s.y_limits, (0, 2));
    assert!(s.next_line.is_none());
    assert_eq!(s.drawing.grid_width, 4);
    assert_eq!(s.drawing.grid_height, 2);
    assert_eq!(s.drawing.lines.len(), 0);
}

#[test]
fn commit_moves_candidate_into_drawing_exactly_once() {
    let mut s = DrawSession::init();
    let mut g = Gallery::new();
    s.next_line = Some(((0, 0), (2, 1)));
    s.update(Msg::AddLine, &mut g);
    assert_eq!(s.drawing.lines.len(), 1);
    assert_eq!(s.drawing.lines[0], ((0, 0), (2, 1)));
    assert!(s.next_line.is_none());
    // Committing again while idle changes nothing.
    s.update(Msg::AddLine, &mut g);
    assert_eq!(s.drawing.lines.len(), 1);
    assert!(s.next_line.is_none());
}

#[test]
fn grow_row_shifts_window_and_height_by_one() {
    let mut s = DrawSession::init();
    let mut g = Gallery::new();
    s.update(Msg::NextRow, &mut g);
    assert_eq!(s.drawing.grid_height, 3);
    assert_eq!(s.y_limits, (1, 3));
    s.update(Msg::NextRow, &mut g);
    assert_eq!(s.drawing.grid_height, 4);
    assert_eq!(s.y_limits, (2, 4));
}

#[test]
fn grow_row_is_a_no_op_while_a_candidate_is_pending() {
    let mut s = DrawSession::init();
    let mut g = Gallery::new();
    s.next_line = Some(((0, 0), (1, 1)));
    s.update(Msg::NextRow, &mut g);
    assert_eq!(s.drawing.grid_height, 2);
    assert_eq!(s.y_limits, (0, 2));
    assert_eq!(s.next_line, Some(((0, 0), (1, 1))));
}

#[test]
fn clear_resets_everything_to_defaults() {
    let mut s = DrawSession::init();
    let mut g = Gallery::new();
    s.update(Msg::ChangeNumCols(7), &mut g);
    s.update(Msg::NextRow, &mut g);
    s.next_line = Some(((0, 1), (1, 2)));
    s.update(Msg::AddLine, &mut g);
    s.update(Msg::ToggleShowPoints, &mut g);
    s.update(Msg::Clear, &mut g);
    assert_eq!(s.drawing.grid_width, 4);
    assert_eq!(s.drawing.grid_height, 2);
    assert_eq!(s.drawing.lines.len(), 0);
    assert!(s.drawing.includes_points);
    assert_eq!(s.y_limits, (0, 2));
    assert!(s.next_line.is_none());
}

#[test]
fn toggle_points_intent_twice_restores_flag() {
    let mut s = DrawSession::init();
    let mut g = Gallery::new();
    let before = s.drawing.includes_points;
    s.update(Msg::ToggleShowPoints, &mut g);
    assert_eq!(s.drawing.includes_points, !before);
    s.update(Msg::ToggleShowPoints, &mut g);
    assert_eq!(s.drawing.includes_points, before);
}

#[test]
fn random_candidate_stays_on_the_grid() {
    let mut s = DrawSession::init();
    let mut g = Gallery::new();
    for _ in 0..50 {
        s.update(Msg::NextRandomLine, &mut g);
        let (from, to) = s.next_line.expect("a candidate after a random draw");
        assert!(in_bounds(from, s.drawing.grid_width, s.y_limits));
        assert!(in_bounds(to, s.drawing.grid_width, s.y_limits));
    }
}

#[test]
fn line_from_column_pins_the_near_endpoint() {
    let mut s = DrawSession::init();
    let mut g = Gallery::new();
    s.update(Msg::LineFrom(2), &mut g);
    let (from, to) = s.next_line.expect("a candidate from a valid column");
    assert_eq!(from, (1, 0));
    assert!(in_bounds(to, s.drawing.grid_width, s.y_limits));
}

#[test]
fn line_from_out_of_range_column_is_a_no_op() {
    let mut s = DrawSession::init();
    let mut g = Gallery::new();
    s.update(Msg::LineFrom(0), &mut g);
    assert!(s.next_line.is_none());
    s.update(Msg::LineFrom(5), &mut g);
    assert!(s.next_line.is_none());
}

#[test]
fn resize_width_applies_only_to_valid_widths() {
    let mut s = DrawSession::init();
    let mut g = Gallery::new();
    s.update(Msg::ChangeNumCols(8), &mut g);
    assert_eq!(s.drawing.grid_width, 8);
    s.update(Msg::ChangeNumCols(0), &mut g);
    assert_eq!(s.drawing.grid_width, 8);
}

#[test]
fn save_appends_to_gallery_and_resets_the_working_drawing() {
    // The full editing scenario: a candidate from column 2, committed, then
    // saved into an initially empty gallery.
    let mut s = DrawSession::init();
    let mut g = Gallery::new();
    s.update(Msg::LineFrom(2), &mut g);
    let (from, to) = s.next_line.expect("a candidate from column 2");
    assert_eq!(from, (1, 0));
    s.update(Msg::AddLine, &mut g);
    assert_eq!(s.drawing.lines.len(), 1);
    assert_eq!(s.drawing.lines[0], ((1, 0), to));
    assert!(in_bounds(to, 4, (0, 2)));
    s.update(Msg::Save, &mut g);
    assert_eq!(g.len(), 1);
    assert_eq!(g.get(0).lines.len(), 1);
    assert_eq!(g.get(0).lines[0], ((1, 0), to));
    assert_eq!(s.drawing.grid_width, 4);
    assert_eq!(s.drawing.grid_height, 2);
    assert_eq!(s.drawing.lines.len(), 0);
    assert!(s.next_line.is_none());
}

#[test]
fn download_intent_changes_nothing() {
    let mut s = DrawSession::init();
    let mut g = Gallery::new();
    s.next_line = Some(((0, 0), (1, 1)));
    s.update(Msg::Download, &mut g);
    assert_eq!(s.next_line, Some(((0, 0), (1, 1))));
    assert_eq!(s.drawing.lines.len(), 0);
    assert_eq!(g.len(), 0);
}

#[test]
fn random_cell_rejects_empty_ranges() {
    assert!(matches!(random_cell(0, (0, 2)), Err(InvalidRangeError)));
    assert!(matches!(random_cell(4, (2, 2)), Err(InvalidRangeError)));
    assert!(matches!(random_cell(4, (3, 1)), Err(InvalidRangeError)));
}

#[test]
fn random_cell_draws_within_both_ranges() {
    for _ in 0..50 {
        let c = random_cell(3, (1, 4)).expect("non-empty ranges");
        assert!(in_bounds(c, 3, (1, 4)));
    }
}

#[test]
fn keyboard_mapping_covers_every_shortcut() {
    assert!(matches!(key_to_msg('c'), Some(Msg::AddLine)));
    assert!(matches!(key_to_msg('r'), Some(Msg::NextRandomLine)));
    assert!(matches!(key_to_msg('n'), Some(Msg::NextRow)));
    assert!(matches!(key_to_msg('0'), Some(Msg::LineFrom(0))));
    assert!(matches!(key_to_msg('2'), Some(Msg::LineFrom(2))));
    assert!(matches!(key_to_msg('9'), Some(Msg::LineFrom(9))));
    assert!(key_to_msg('x').is_none());
    assert!(key_to_msg(' ').is_none());
}

#[test]
fn preview_is_empty_while_idle_and_shows_the_candidate() {
    let mut s = DrawSession::init();
    assert_eq!(s.preview().len(), 0);
    s.next_line = Some(((0, 0), (3, 1)));
    let shapes = s.preview();
    assert_eq!(shapes.len(), 3);
    assert!(matches!(shapes[0], Shape::Line { .. }));
}

#[test]
fn save_keeps_the_row_window() {
    let mut s = DrawSession::init();
    let mut g = Gallery::new();
    s.update(Msg::NextRow, &mut g);
    s.update(Msg::Save, &mut g);
    // The fresh drawing starts at the default height, but the row window is
    // wherever the session had grown it.
    assert_eq!(s.drawing.grid_height, 2);
    assert_eq!(s.y_limits, (1, 3));
}

#[test]
fn grow_row_stops_at_the_row_index_limit() {
    let mut s = DrawSession::init();
    let mut g = Gallery::new();
    for _ in 0..40_000 {
        s.update(Msg::NextRow, &mut g);
    }
    // The window's upper bound saturates at the largest 16-bit row index,
    // and further growth is a no-op.
    assert_eq!(s.y_limits.1, i16::MAX);
    assert_eq!(s.drawing.grid_height, 32_767);
    s.update(Msg::NextRow, &mut g);
    assert_eq!(s.drawing.grid_height, 32_767);
}
