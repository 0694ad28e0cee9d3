use unicode_diagram::canvas::Canvas;

#[test]
fn empty_canvas() {
    let canvas = Canvas::new(5, 3);
    assert_eq!(canvas.render(), "");
}

#[test]
fn put_ascii_char() {
    let mut canvas = Canvas::new(5, 3);
    canvas.put_char(0, 0, 'A', false, 0).unwrap();
    assert_eq!(canvas.render(), "A");
}

#[test]
fn put_cjk_char() {
    let mut canvas = Canvas::new(5, 3);
    canvas.put_char(0, 0, '한', false, 0).unwrap();
    assert_eq!(canvas.render(), "한");
}

#[test]
fn put_str_ascii() {
    let mut canvas = Canvas::new(10, 1);
    canvas.put_str(0, 0, "Hello", false, 0).unwrap();
    assert_eq!(canvas.render(), "Hello");
}

#[test]
fn put_str_cjk() {
    let mut canvas = Canvas::new(10, 1);
    canvas.put_str(0, 0, "한글", false, 0).unwrap();
    assert_eq!(canvas.render(), "한글");
}

#[test]
fn put_str_mixed() {
    let mut canvas = Canvas::new(10, 1);
    canvas.put_str(0, 0, "A한B", false, 0).unwrap();
    assert_eq!(canvas.render(), "A한B");
}

#[test]
fn cjk_continuation_cell() {
    let mut canvas = Canvas::new(4, 1);
    canvas.put_char(0, 0, '한', false, 0).unwrap();
    assert!(canvas.cell_at(1, 0).unwrap().is_continuation);
    canvas.put_char(2, 0, 'A', false, 0).unwrap();
    assert_eq!(canvas.render(), "한A");
}

#[test]
fn out_of_bounds() {
    let mut canvas = Canvas::new(3, 1);
    let result = canvas.put_char(3, 0, 'A', false, 0);
    assert!(result.is_err());
}

#[test]
fn cjk_out_of_bounds() {
    let mut canvas = Canvas::new(3, 1);
    let result = canvas.put_char(2, 0, '한', false, 0);
    assert!(result.is_err());
}

#[test]
fn collision_detected() {
    let mut canvas = Canvas::new(5, 1);
    canvas.put_char(0, 0, 'A', true, 0).unwrap();
    let result = canvas.put_char(0, 0, 'B', true, 1);
    assert!(result.is_err());
}

#[test]
fn collision_off_overwrites() {
    let mut canvas = Canvas::new(5, 1);
    canvas.put_char(0, 0, 'A', false, 0).unwrap();
    canvas.put_char(0, 0, 'B', false, 1).unwrap();
    assert_eq!(canvas.render(), "B");
}

#[test]
fn multiline_render() {
    let mut canvas = Canvas::new(5, 3);
    canvas.put_str(0, 0, "Hello", false, 0).unwrap();
    canvas.put_str(0, 2, "World", false, 1).unwrap();
    assert_eq!(canvas.render(), "Hello\n\nWorld");
}

#[test]
fn owner_tracking() {
    let mut canvas = Canvas::new(5, 1);
    canvas.put_char(0, 0, 'A', false, 42).unwrap();
    assert_eq!(canvas.owner_at(0, 0), Some(42));
    assert_eq!(canvas.owner_at(1, 0), None);
}

#[test]
fn put_reads_back_char_and_owner() {
    let mut canvas = Canvas::new(4, 2);
    canvas.put_char(1, 1, 'Z', false, 7).unwrap();
    let cell = canvas.cell_at(1, 1).unwrap();
    assert_eq!(cell.ch, 'Z');
    assert!(!cell.is_continuation);
    assert_eq!(canvas.owner_at(1, 1), Some(7));
    assert_eq!(canvas.cell_at(0, 1).unwrap().ch, ' ');
    assert_eq!(canvas.owner_at(0, 1), None);
}

#[test]
fn out_of_bounds_error_reports_position() {
    let mut canvas = Canvas::new(3, 2);
    let err = canvas.put_char(1, 2, 'A', false, 0).unwrap_err();
    assert_eq!(err.to_string(), "position (1, 2) is out of canvas bounds (3x2)");
}

#[test]
fn collision_error_names_owner() {
    let mut canvas = Canvas::new(5, 1);
    canvas.put_char(2, 0, 'A', true, 3).unwrap();
    let err = canvas.put_char(2, 0, 'B', true, 4).unwrap_err();
    assert_eq!(
        err.to_string(),
        "collision: object #4 () overlaps object #3 () at (2,0)-(2,0) size 1x1"
    );
}

#[test]
fn collision_on_continuation_cell_allowed() {
    let mut canvas = Canvas::new(4, 1);
    canvas.put_char(0, 0, '한', true, 0).unwrap();
    canvas.put_char(1, 0, 'x', true, 1).unwrap();
    assert_eq!(canvas.owner_at(1, 0), Some(1));
}

#[test]
fn render_trims_trailing_spaces_and_rows() {
    let mut canvas = Canvas::new(6, 4);
    canvas.put_str(0, 1, "ab", false, 0).unwrap();
    assert_eq!(canvas.render(), "\nab");
}

#[test]
fn canvas_dimensions() {
    let canvas = Canvas::new(7, 2);
    assert_eq!(canvas.width(), 7);
    assert_eq!(canvas.height(), 2);
}

#[test]
fn put_str_is_put_char_in_turn() {
    let mut a = Canvas::new(10, 1);
    a.put_str(0, 0, "A한B", false, 0).unwrap();
    let mut b = Canvas::new(10, 1);
    b.put_char(0, 0, 'A', false, 0).unwrap();
    b.put_char(1, 0, '한', false, 0).unwrap();
    b.put_char(3, 0, 'B', false, 0).unwrap();
    assert_eq!(a.render(), "A한B");
    assert_eq!(a.render(), b.render());
}

#[test]
fn put_str_keeps_what_was_placed_before_a_failure() {
    let mut c = Canvas::new(3, 1);
    assert!(c.put_str(1, 0, "ab한", false, 0).is_err());
    assert_eq!(c.render(), " ab");
}
