use tdengine::canvas::Canvas;
use tdengine::vec::Vector2;

fn cell(point: (i32, i32), size: (u16, u16)) -> Option<(u16, u16)> {
    Canvas::set_pixel(point.into(), size.into()).map(|c| (c.x, c.y))
}

#[test]
fn a_new_canvas_is_empty() {
    let canvas = Canvas::new();
    assert!(canvas.verticies.is_empty());
    assert!(canvas.indicies.is_empty());
    assert!(canvas.draw().is_empty());
}

#[test]
fn the_origin_lands_in_the_middle_of_the_screen() {
    assert_eq!(cell((0, 0), (80, 24)), Some((40, 12)));
    assert_eq!(cell((0, 0), (81, 25)), Some((40, 12)));
    assert_eq!(cell((3, -2), (80, 24)), Some((43, 10)));
}

#[test]
fn the_left_and_top_edges_are_the_first_column_and_row() {
    assert_eq!(cell((-40, 0), (80, 24)), Some((0, 12)));
    assert_eq!(cell((-41, 0), (80, 24)), None);
    assert_eq!(cell((0, -12), (80, 24)), Some((40, 0)));
    assert_eq!(cell((0, -13), (80, 24)), None);
}

#[test]
fn one_cell_past_the_right_and_bottom_edges_still_counts() {
    assert_eq!(cell((39, 0), (80, 24)), Some((79, 12)));
    assert_eq!(cell((40, 0), (80, 24)), Some((80, 12)));
    assert_eq!(cell((41, 0), (80, 24)), None);
    assert_eq!(cell((0, 11), (80, 24)), Some((40, 23)));
    assert_eq!(cell((0, 12), (80, 24)), Some((40, 24)));
    assert_eq!(cell((0, 13), (80, 24)), None);
    assert_eq!(cell((40, 12), (80, 24)), Some((80, 24)));
}

#[test]
fn a_screen_without_cells_takes_the_origin_only() {
    assert_eq!(cell((0, 0), (0, 0)), Some((0, 0)));
    assert_eq!(cell((1, 0), (0, 0)), None);
    assert_eq!(cell((0, -1), (0, 0)), None);
}

#[test]
fn the_largest_screen_and_the_farthest_points_are_handled() {
    assert_eq!(cell((32768, 32768), (u16::MAX, u16::MAX)), Some((u16::MAX, u16::MAX)));
    assert_eq!(cell((32769, 0), (u16::MAX, u16::MAX)), None);
    assert_eq!(cell((i32::MAX, 0), (80, 24)), None);
    assert_eq!(cell((0, i32::MAX), (u16::MAX, u16::MAX)), None);
    assert_eq!(cell((i32::MIN, i32::MIN), (80, 24)), None);
}

#[test]
fn draw_gives_one_line_for_each_edge_in_order() {
    let mut canvas = Canvas::new();
    canvas.verticies = vec![(0, 0).into(), (4, 0).into(), (3, 2).into()];
    canvas.indicies = vec![(0, 1).into(), (2, 0).into(), (1, 1).into()];
    let lines = canvas.draw();
    assert_eq!(lines.len(), 3);
    assert_eq!(lines[0], Canvas::draw_line((0, 0).into(), (4, 0).into()));
    assert_eq!(lines[1], Canvas::draw_line((3, 2).into(), (0, 0).into()));
    assert_eq!(lines[2], vec![Vector2::new(4, 0)]);
}

#[test]
fn draw_leaves_out_an_edge_to_a_missing_vertex() {
    let mut canvas = Canvas::new();
    canvas.verticies = vec![(0, 0).into(), (1, 0).into(), (1, 1).into(), (0, 1).into()];
    canvas.indicies = vec![(0, 5).into()];
    assert!(canvas.draw().is_empty());
    canvas.indicies = vec![(0, 1).into(), (0, 5).into(), (5, 0).into(), (4, 4).into(), (2, 3).into()];
    let lines = canvas.draw();
    assert_eq!(lines.len(), 2);
    assert_eq!(lines[0], vec![Vector2::new(0, 0), Vector2::new(1, 0)]);
    assert_eq!(lines[1], vec![Vector2::new(1, 1), Vector2::new(0, 1)]);
}

#[test]
fn draw_without_vertices_draws_nothing() {
    let mut canvas = Canvas::new();
    canvas.indicies = vec![(0, 0).into(), (0, 1).into()];
    assert!(canvas.draw().is_empty());
}
