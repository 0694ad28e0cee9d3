use unicode_diagram::error::UnidError;

#[test]
fn error_messages_read_as_documented() {
    assert_eq!(UnidError::NoCanvas.to_string(), "canvas not defined");
    assert_eq!(UnidError::NoCollision.to_string(), "collision not defined");
    assert_eq!(
        UnidError::OutOfBounds { col: 4, row: 1, canvas_width: 3, canvas_height: 2 }.to_string(),
        "position (4, 1) is out of canvas bounds (3x2)"
    );
    assert_eq!(
        UnidError::LabelOverflow { label: "abc".to_string(), label_width: 3, inner_width: 2 }.to_string(),
        "content overflow: 'abc' (3 cols) exceeds rect inner width (2 cols)"
    );
    assert_eq!(
        UnidError::Parse { line: 12, message: "bad".to_string() }.to_string(),
        "parse error at line 12: bad"
    );
    assert_eq!(UnidError::Io("broken pipe".to_string()).to_string(), "io error: broken pipe");
    assert_eq!(
        UnidError::Collision {
            incoming_idx: 2,
            incoming_desc: "a".to_string(),
            existing_idx: 1,
            existing_desc: "b".to_string(),
            overlap_col: 3,
            overlap_row: 0,
            overlap_end_col: 6,
            overlap_end_row: 2,
            overlap_w: 4,
            overlap_h: 3,
        }
        .to_string(),
        "collision: object #2 (a) overlaps object #1 (b) at (3,0)-(6,2) size 4x3"
    );
}
