use termrender::frame::{ProjectedObject, Terminal, NO_FRAME};
use termrender::style::{Color, Decor, Style};

const A: Style = ('a', Color::Red, Decor::Plain);
const B: Style = ('b', Color::Green, Decor::Bold);
const C: Style = ('c', Color::Blue, Decor::Underline);

fn sized(cols: u16, rows: u16) -> Terminal {
    let mut t = Terminal::new(cols, rows);
    t.pre_render(cols, rows);
    t
}

#[test]
fn nearer_write_wins_and_ties_keep_the_first() {
    let mut t = sized(4, 3);
    t.plot_character(2, 3, 5, A, 1);
    t.plot_character(2, 3, 3, B, 1);
    let cell = t.cell_at(2, 3).unwrap();
    assert_eq!(cell.style, B);
    assert_eq!(cell.depth, 3);
    t.plot_character(2, 3, 3, C, 1);
    let cell = t.cell_at(2, 3).unwrap();
    assert_eq!(cell.style, B);
    assert_eq!(cell.depth, 3);
    assert_eq!(cell.frame, 1);
}

#[test]
fn farther_write_in_same_frame_is_dropped() {
    let mut t = sized(4, 3);
    t.plot_character(0, 0, 3, A, 1);
    t.plot_character(0, 0, 7, B, 1);
    assert_eq!(t.cell_at(0, 0).unwrap().style, A);
}

#[test]
fn stale_cell_is_empty_for_a_new_frame() {
    let mut t = sized(4, 3);
    t.plot_character(1, 1, 2, A, 1);
    t.plot_character(1, 1, 9, B, 2);
    let cell = t.cell_at(1, 1).unwrap();
    assert_eq!(cell.style, B);
    assert_eq!(cell.depth, 9);
    assert_eq!(cell.frame, 2);
}

#[test]
fn two_vertical_units_share_a_row() {
    let mut t = sized(3, 2);
    t.plot_character(1, 2, 4, A, 1);
    // y = 2 and y = 3 both land in row 1
    assert_eq!(t.cell_at(1, 3).unwrap().style, A);
    assert_eq!(t.cell_at(1, 1).unwrap().frame, NO_FRAME);
}

#[test]
fn bounds_cover_doubled_height() {
    let t = sized(5, 2);
    assert!(t.is_in_bounds(0, 0));
    assert!(t.is_in_bounds(4, 3));
    assert!(!t.is_in_bounds(5, 0));
    assert!(!t.is_in_bounds(0, 4));
    assert!(!t.is_in_bounds(-1, 0));
    assert!(!t.is_in_bounds(0, -1));
    assert!(!t.is_in_bounds(65536, 0));
    assert!(t.cell_at(5, 0).is_none());
}

#[test]
fn term_size_reports_doubled_height() {
    let t = Terminal::new(80, 24);
    assert_eq!(t.get_term_size(), (80, 48));
}

#[test]
fn new_terminal_is_unsized_until_pre_render() {
    let mut t = Terminal::new(2, 2);
    assert!(!t.is_sized());
    assert!(t.cell_at(0, 0).is_none());
    t.pre_render(2, 2);
    assert!(t.is_sized());
    let cell = t.cell_at(0, 0).unwrap();
    assert_eq!(cell.frame, NO_FRAME);
    assert_eq!(cell.style, (' ', Color::Reset, Decor::Plain));
    assert_eq!(cell.depth, 0);
}

#[test]
fn pre_render_keeps_buffer_of_same_size() {
    let mut t = sized(3, 3);
    t.plot_character(0, 0, 1, A, 1);
    t.pre_render(3, 3);
    assert_eq!(t.cell_at(0, 0).unwrap().style, A);
}

#[test]
fn pre_render_reallocates_on_resize() {
    let mut t = sized(3, 3);
    t.plot_character(0, 0, 1, A, 1);
    t.pre_render(4, 2);
    assert_eq!(t.get_term_size(), (4, 4));
    let cell = t.cell_at(0, 0).unwrap();
    assert_eq!(cell.frame, NO_FRAME);
    assert_eq!(cell.style.0, ' ');
    assert!(t.cell_at(3, 3).is_some());
    assert!(t.cell_at(0, 4).is_none());
}

#[test]
fn buffer_writes_vertices_then_edges_and_drops_off_grid_samples() {
    let mut t = sized(4, 2);
    let obj = ProjectedObject {
        vertices: vec![(0, 0, 5), (9, 0, 1), (3, 3, 2)],
        edges: vec![vec![(0, 0, 5), (1, 0, 4), (-1, 0, 0)], vec![(3, 3, 1)]],
        vertex_style: A,
        edge_style: B,
    };
    t.buffer_world_object(&obj, 1);
    // tie at (0,0): the vertex came first and keeps the cell
    assert_eq!(t.cell_at(0, 0).unwrap().style, A);
    assert_eq!(t.cell_at(1, 0).unwrap().style, B);
    // the edge sample at (3,3) is nearer than the vertex
    let cell = t.cell_at(3, 3).unwrap();
    assert_eq!(cell.style, B);
    assert_eq!(cell.depth, 1);
    assert_eq!(t.cell_at(2, 0).unwrap().frame, NO_FRAME);
}

#[test]
fn render_blank_grid() {
    let t = sized(2, 2);
    assert_eq!(t.render(), "\x1b[H\x1b[0m  \n  ");
}

#[test]
fn render_emits_escape_only_when_look_changes() {
    let mut t = sized(3, 2);
    t.plot_character(0, 0, 0, ('x', Color::Red, Decor::Bold), 1);
    t.plot_character(1, 0, 0, ('y', Color::Red, Decor::Bold), 1);
    t.plot_character(0, 2, 0, ('z', Color::Red, Decor::Bold), 1);
    assert_eq!(
        t.render(),
        "\x1b[H\x1b[0m\x1b[1;31mxy\x1b[0m \x1b[1;31m\nz\x1b[0m  "
    );
}

#[test]
fn render_of_unsized_terminal_is_header_only() {
    let t = Terminal::new(3, 3);
    assert_eq!(t.render(), "\x1b[H\x1b[0m");
}
