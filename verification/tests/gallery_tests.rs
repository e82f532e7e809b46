use trackgrid::codec::decode;
use trackgrid::drawing::Drawing;
use trackgrid::gallery::Gallery;
use trackgrid::gallery::Msg;

fn sample(grid_width: u16, with_line: bool) -> Drawing {
    let mut d = Drawing::new();
    d.grid_width = grid_width;
    if with_line {
        d.add_line((0, 0), (1, 1));
    }
    d
}

#[test]
fn snapshot_round_trips_two_drawings() {
    let mut d1 = Drawing::new();
    d1.add_line((0, 0), (3, 1));
    d1.add_line((-1, 5), (2, -7));
    d1.toggle_include_points();
    let mut d2 = Drawing::new();
    d2.grid_width = 7;
    d2.grid_height = 5;
    d2.add_line((2, 2), (2, 2));

    let mut g = Gallery::new();
    g.append(d1);
    g.append(d2);

    let bytes = g.save();
    let loaded = Gallery::load(&bytes);
    assert_eq!(loaded.len(), 2);
    assert!(loaded.get(0).same_as(g.get(0)));
    assert!(loaded.get(1).same_as(g.get(1)));
    assert!(loaded.selected.is_none());
}

#[test]
fn empty_snapshot_round_trips() {
    let g = Gallery::new();
    let bytes = g.save();
    // The snapshot of an empty gallery is just the zero count.
    assert_eq!(bytes, vec![0u8; 8]);
    let loaded = Gallery::load(&bytes);
    assert_eq!(loaded.len(), 0);
}

#[test]
fn default_drawing_encodes_to_its_exact_bytes() {
    let mut g = Gallery::new();
    g.append(Drawing::new());
    let bytes = g.save();
    let mut expected: Vec<u8> = vec![1, 0, 0, 0, 0, 0, 0, 0];
    expected.extend_from_slice(&[4, 0]);
    expected.extend_from_slice(&[2, 0]);
    expected.extend_from_slice(&[0xe8, 0x03, 0, 0]);
    expected.extend_from_slice(&[0xd0, 0x07, 0, 0]);
    expected.push(1);
    expected.extend_from_slice(&[0, 0, 0, 0, 0, 0, 0, 0]);
    assert_eq!(bytes, expected);
}

#[test]
fn segment_endpoints_encode_shifted_into_the_unsigned_range() {
    let mut d = Drawing::new();
    d.add_line((-1, 0), (2, -3));
    let mut g = Gallery::new();
    g.append(d);
    let bytes = g.save();
    // The single segment's eight bytes sit at the end of the snapshot.
    let seg = &bytes[bytes.len() - 8..];
    assert_eq!(seg, &[0xff, 0x7f, 0x00, 0x80, 0x02, 0x80, 0xfd, 0x7f]);
}

#[test]
fn malformed_snapshots_load_as_an_empty_gallery() {
    assert_eq!(Gallery::load(&Vec::new()).len(), 0);
    assert_eq!(Gallery::load(&vec![1, 2, 3]).len(), 0);
    // A count with no drawings behind it.
    assert_eq!(Gallery::load(&vec![5, 0, 0, 0, 0, 0, 0, 0]).len(), 0);
    // A valid snapshot with trailing garbage is malformed too.
    let mut g = Gallery::new();
    g.append(Drawing::new());
    let mut bytes = g.save();
    bytes.push(0);
    assert_eq!(Gallery::load(&bytes).len(), 0);
}

#[test]
fn decode_rejects_a_bad_visibility_flag() {
    let mut g = Gallery::new();
    g.append(Drawing::new());
    let mut bytes = g.save();
    // The flag byte follows the count and the four dimension fields.
    assert_eq!(bytes[8 + 2 + 2 + 4 + 4], 1);
    bytes[8 + 2 + 2 + 4 + 4] = 7;
    assert!(decode(&bytes).is_none());
}

#[test]
fn delete_removes_exactly_one_and_shifts_the_rest() {
    let mut g = Gallery::new();
    g.append(sample(5, false));
    g.append(sample(6, true));
    g.append(sample(7, false));
    g.delete(1);
    assert_eq!(g.len(), 2);
    assert_eq!(g.get(0).grid_width, 5);
    assert_eq!(g.get(1).grid_width, 7);
}

#[test]
fn delete_out_of_range_is_a_no_op() {
    let mut g = Gallery::new();
    g.append(sample(5, false));
    g.append(sample(6, false));
    g.append(sample(7, false));
    g.delete(3);
    assert_eq!(g.len(), 3);
    assert_eq!(g.get(0).grid_width, 5);
    assert_eq!(g.get(1).grid_width, 6);
    assert_eq!(g.get(2).grid_width, 7);
}

#[test]
fn toggle_points_flips_only_the_addressed_drawing() {
    let mut g = Gallery::new();
    g.append(sample(5, false));
    g.append(sample(6, false));
    g.toggle_points(1);
    assert!(g.get(0).includes_points);
    assert!(!g.get(1).includes_points);
    g.toggle_points(9);
    assert!(g.get(0).includes_points);
    assert!(!g.get(1).includes_points);
}

#[test]
fn selection_is_pure_view_state() {
    let mut g = Gallery::new();
    g.append(sample(5, false));
    g.select(0);
    assert_eq!(g.selected, Some(0));
    let bytes = g.save();
    let loaded = Gallery::load(&bytes);
    assert!(loaded.selected.is_none());
    g.unselect();
    assert!(g.selected.is_none());
}

#[test]
fn gallery_intents_dispatch_to_the_operations() {
    let mut g = Gallery::new();
    g.append(sample(5, false));
    g.append(sample(6, false));
    g.update(Msg::Select(1));
    assert_eq!(g.selected, Some(1));
    g.update(Msg::TogglePoints(0));
    assert!(!g.get(0).includes_points);
    g.update(Msg::Download(0));
    assert_eq!(g.len(), 2);
    g.update(Msg::Delete(0));
    assert_eq!(g.len(), 1);
    assert_eq!(g.get(0).grid_width, 6);
    g.update(Msg::UnSelect);
    assert!(g.selected.is_none());
}
