use unicode_diagram::canvas::Canvas;
use unicode_diagram::object::arrow::ResolvedArrow;
use unicode_diagram::object::line::{HLine, LineStyle, VLine};
use unicode_diagram::object::rect::{BorderStyle, ContentAlign, ContentOverflow, Rect};
use unicode_diagram::object::text::Text;
use unicode_diagram::object::{DrawObject, Legend, LegendPos};
use unicode_diagram::renderer::truncate::{ellipsis_truncate, hidden_truncate};
use unicode_diagram::renderer::Renderer;
use unicode_diagram::width::str_width;

fn render_objects(width: usize, height: usize, objects: &[DrawObject], collision: bool) -> String {
    let canvas = Canvas::new(width, height);
    let mut renderer = Renderer::new(canvas, collision);
    renderer.draw_all(objects).unwrap();
    renderer.render()
}

fn arrow(points: Vec<(usize, usize)>) -> DrawObject {
    DrawObject::Arrow(ResolvedArrow { waypoints: points, head: None, both: false, legend: None })
}

#[test]
fn engine_render_simple_rect() {
    let rect = Rect::new(0, 0, 4, 1);
    let result = render_objects(6, 3, &[DrawObject::Rect(rect)], false);
    assert_eq!(result, "┌────┐\n│    │\n└────┘");
}

#[test]
fn engine_render_rect_with_content() {
    let mut rect = Rect::new(0, 0, 8, 1);
    rect.content = Some("Hello".to_string());
    let result = render_objects(10, 3, &[DrawObject::Rect(rect)], false);
    assert_eq!(result, "┌────────┐\n│Hello   │\n└────────┘");
}

#[test]
fn render_rect_with_center_aligned_content() {
    let mut rect = Rect::new(0, 0, 8, 1);
    rect.content = Some("Hello".to_string());
    rect.content_align = ContentAlign::Center;
    let result = render_objects(10, 3, &[DrawObject::Rect(rect)], false);
    assert_eq!(result, "┌────────┐\n│ Hello  │\n└────────┘");
}

#[test]
fn render_rect_with_cjk_content() {
    let mut rect = Rect::new(0, 0, 10, 1);
    rect.content = Some("한글".to_string());
    rect.content_align = ContentAlign::Center;
    let result = render_objects(12, 3, &[DrawObject::Rect(rect)], false);
    assert_eq!(result, "┌──────────┐\n│   한글   │\n└──────────┘");
}

#[test]
fn render_heavy_rect() {
    let mut rect = Rect::new(0, 0, 4, 1);
    rect.style = BorderStyle::Heavy;
    let result = render_objects(6, 3, &[DrawObject::Rect(rect)], false);
    assert_eq!(result, "┏━━━━┓\n┃    ┃\n┗━━━━┛");
}

#[test]
fn render_double_rect() {
    let mut rect = Rect::new(0, 0, 4, 1);
    rect.style = BorderStyle::Double;
    let result = render_objects(6, 3, &[DrawObject::Rect(rect)], false);
    assert_eq!(result, "╔════╗\n║    ║\n╚════╝");
}

#[test]
fn render_rounded_rect() {
    let mut rect = Rect::new(0, 0, 4, 1);
    rect.style = BorderStyle::Rounded;
    let result = render_objects(6, 3, &[DrawObject::Rect(rect)], false);
    assert_eq!(result, "╭────╮\n│    │\n╰────╯");
}

#[test]
fn render_text() {
    let text = Text::new(2, 1, "Hello");
    let result = render_objects(10, 3, &[DrawObject::Text(text)], false);
    assert_eq!(result, "\n  Hello");
}

#[test]
fn render_text_cjk() {
    let text = Text::new(0, 0, "한글ABC");
    let result = render_objects(10, 1, &[DrawObject::Text(text)], false);
    assert_eq!(result, "한글ABC");
}

#[test]
fn render_hline() {
    let hline = HLine::new(1, 0, 5);
    let result = render_objects(7, 1, &[DrawObject::HLine(hline)], false);
    assert_eq!(result, " ─────");
}

#[test]
fn render_hline_heavy() {
    let mut hline = HLine::new(0, 0, 3);
    hline.style = LineStyle::Heavy;
    let result = render_objects(3, 1, &[DrawObject::HLine(hline)], false);
    assert_eq!(result, "━━━");
}

#[test]
fn render_vline() {
    let vline = VLine::new(0, 0, 3);
    let result = render_objects(1, 3, &[DrawObject::VLine(vline)], false);
    assert_eq!(result, "│\n│\n│");
}

#[test]
fn render_horizontal_arrow_right() {
    let result = render_objects(5, 1, &[arrow(vec![(0, 0), (4, 0)])], false);
    assert_eq!(result, "────→");
}

#[test]
fn render_horizontal_arrow_left() {
    let result = render_objects(5, 1, &[arrow(vec![(4, 0), (0, 0)])], false);
    assert_eq!(result, "←────");
}

#[test]
fn render_vertical_arrow_down() {
    let result = render_objects(1, 3, &[arrow(vec![(0, 0), (0, 2)])], false);
    assert_eq!(result, "│\n│\n↓");
}

#[test]
fn render_vertical_arrow_up() {
    let result = render_objects(1, 3, &[arrow(vec![(0, 2), (0, 0)])], false);
    assert_eq!(result, "↑\n│\n│");
}

#[test]
fn collision_detected_between_objects() {
    let canvas = Canvas::new(10, 3);
    let mut renderer = Renderer::new(canvas, true);
    let rect = Rect::new(0, 0, 4, 1);
    let text = Text::new(0, 0, "X");
    renderer.draw(&DrawObject::Rect(rect)).unwrap();
    let result = renderer.draw(&DrawObject::Text(text));
    assert!(result.is_err());
}

#[test]
fn engine_collision_off_allows_overlap() {
    let canvas = Canvas::new(10, 3);
    let mut renderer = Renderer::new(canvas, false);
    let rect = Rect::new(0, 0, 4, 1);
    let text = Text::new(0, 0, "X");
    renderer.draw(&DrawObject::Rect(rect)).unwrap();
    renderer.draw(&DrawObject::Text(text)).unwrap();
    let output = renderer.render();
    assert!(output.starts_with('X'));
}

#[test]
fn render_multiple_objects() {
    let objects = vec![
        DrawObject::Rect(Rect::new(0, 0, 8, 1)),
        DrawObject::Text(Text::new(15, 1, "World")),
    ];
    let result = render_objects(20, 3, &objects, false);
    assert!(result.contains("┌────────┐"));
    assert!(result.contains("World"));
}

#[test]
fn render_rect_multiline_inner() {
    let mut rect = Rect::new(0, 0, 6, 3);
    rect.content = Some("Hi".to_string());
    rect.content_align = ContentAlign::Center;
    let result = render_objects(8, 5, &[DrawObject::Rect(rect)], false);
    assert_eq!(result, "┌──────┐\n│      │\n│  Hi  │\n│      │\n└──────┘");
}

#[test]
fn ellipsis_truncate_basic() {
    let result = ellipsis_truncate("HelloWorld", 10, 7, ContentAlign::Left);
    assert_eq!(result, "Hell..6");
    let chars: Vec<char> = result.chars().collect();
    assert!(str_width(&chars) <= 7);
}

#[test]
fn ellipsis_truncate_right() {
    let result = ellipsis_truncate("HelloWorld", 10, 7, ContentAlign::Right);
    assert_eq!(result, "6..orld");
}

#[test]
fn ellipsis_truncate_very_small() {
    let result = ellipsis_truncate("Hello", 5, 2, ContentAlign::Left);
    assert_eq!(result, "..");
}

#[test]
fn hidden_truncate_left() {
    let result = hidden_truncate("HelloWorld", 5, ContentAlign::Left);
    assert_eq!(result, "Hello");
}

#[test]
fn hidden_truncate_right() {
    let result = hidden_truncate("HelloWorld", 5, ContentAlign::Right);
    assert_eq!(result, "World");
}

#[test]
fn render_rect_ellipsis_overflow() {
    let mut rect = Rect::new(0, 0, 7, 1);
    rect.content = Some("HelloWorld".to_string());
    rect.content_overflow = ContentOverflow::Ellipsis;
    let result = render_objects(9, 3, &[DrawObject::Rect(rect)], false);
    assert!(result.contains("Hell..6"));
}

#[test]
fn render_rect_hidden_overflow() {
    let mut rect = Rect::new(0, 0, 5, 1);
    rect.content = Some("HelloWorld".to_string());
    rect.content_overflow = ContentOverflow::Hidden;
    let result = render_objects(7, 3, &[DrawObject::Rect(rect)], false);
    assert!(result.contains("Hello"));
    assert!(!result.contains("World"));
}

#[test]
fn render_l_shaped_arrow() {
    let result = render_objects(4, 3, &[arrow(vec![(0, 0), (3, 0), (3, 2)])], false);
    assert_eq!(result, "───┐\n   │\n   ↓");
}

#[test]
fn render_z_shaped_arrow() {
    let result = render_objects(5, 5, &[arrow(vec![(0, 0), (0, 2), (4, 2), (4, 4)])], false);
    assert!(result.contains('│'));
    assert!(result.contains('└'));
    assert!(result.contains('┐'));
    assert!(result.contains('↓'));
}

#[test]
fn render_u_shaped_arrow() {
    let result = render_objects(5, 4, &[arrow(vec![(0, 0), (0, 3), (4, 3), (4, 0)])], false);
    assert!(result.contains('└'));
    assert!(result.contains('┘'));
    assert!(result.contains('↑'));
}

#[test]
fn render_rect_multiline_content() {
    let mut rect = Rect::new(0, 0, 6, 3);
    rect.content = Some("AA\nBB".to_string());
    rect.content_align = ContentAlign::Center;
    let result = render_objects(8, 5, &[DrawObject::Rect(rect)], false);
    assert_eq!(result, "┌──────┐\n│  AA  │\n│  BB  │\n│      │\n└──────┘");
}

#[test]
fn render_text_multiline() {
    let text = Text::new(0, 0, "Hello\nWorld");
    let result = render_objects(5, 2, &[DrawObject::Text(text)], false);
    assert_eq!(result, "Hello\nWorld");
}

#[test]
fn render_rect_error_overflow() {
    let mut rect = Rect::new(0, 0, 3, 1);
    rect.content = Some("VeryLong".to_string());
    rect.content_overflow = ContentOverflow::Error;
    let canvas = Canvas::new(5, 3);
    let mut renderer = Renderer::new(canvas, false);
    let result = renderer.draw(&DrawObject::Rect(rect));
    assert!(result.is_err());
    let err = result.unwrap_err().to_string();
    assert!(err.contains("overflow"));
}

#[test]
fn label_overflow_message() {
    let mut rect = Rect::new(0, 0, 3, 1);
    rect.content = Some("VeryLong".to_string());
    rect.content_overflow = ContentOverflow::Error;
    let mut renderer = Renderer::new(Canvas::new(5, 3), false);
    let err = renderer.draw(&DrawObject::Rect(rect)).unwrap_err();
    assert_eq!(
        err.to_string(),
        "content overflow: 'VeryLong' (8 cols) exceeds rect inner width (3 cols)"
    );
}

#[test]
fn collision_error_describes_both_objects() {
    let mut renderer = Renderer::new(Canvas::new(20, 5), true);
    renderer.draw(&DrawObject::Rect(Rect::new(0, 0, 5, 1))).unwrap();
    let err = renderer.draw(&DrawObject::Rect(Rect::new(3, 0, 5, 1))).unwrap_err();
    assert_eq!(
        err.to_string(),
        "collision: object #2 (rect at (3,0) 7x3) overlaps object #1 (rect at (0,0) 7x3) at (3,0)-(6,2) size 4x3"
    );
}

#[test]
fn text_drawn_over_structure_in_second_pass() {
    let objects = vec![
        DrawObject::Text(Text::new(0, 0, "X")),
        DrawObject::Rect(Rect::new(0, 0, 3, 1)),
    ];
    let result = render_objects(5, 3, &objects, false);
    assert_eq!(result, "X───┐\n│   │\n└───┘");
}

#[test]
fn draw_all_reports_structure_collision() {
    let objects = vec![
        DrawObject::HLine(HLine::new(0, 1, 5)),
        DrawObject::VLine(VLine::new(2, 0, 3)),
    ];
    let mut renderer = Renderer::new(Canvas::new(5, 3), true);
    let err = renderer.draw_all(&objects).unwrap_err();
    assert!(err.to_string().starts_with("collision: object #2 (vline at (2,0) len=3) overlaps object #1"));
}

#[test]
fn draw_border_frames_canvas() {
    let mut renderer = Renderer::new(Canvas::new(4, 3), false);
    renderer.draw_border(BorderStyle::Double).unwrap();
    assert_eq!(renderer.render(), "╔══╗\n║  ║\n╚══╝");
}

#[test]
fn hline_legend_above() {
    let mut hline = HLine::new(0, 1, 4);
    hline.legend = Some(Legend {
        text: "ab".to_string(),
        pos: LegendPos::Auto,
        overflow: ContentOverflow::Ellipsis,
        align: ContentAlign::Left,
    });
    let result = render_objects(4, 2, &[DrawObject::HLine(hline)], false);
    assert_eq!(result, "ab\n────");
}

#[test]
fn two_way_arrow_has_both_heads() {
    let a = DrawObject::Arrow(ResolvedArrow {
        waypoints: vec![(0, 0), (4, 0)],
        head: Some('▶'),
        both: true,
        legend: None,
    });
    let result = render_objects(5, 1, &[a], false);
    assert_eq!(result, "◀───▶");
}

#[test]
fn right_aligned_overflow_reaches_out_on_the_left() {
    let mut rect = Rect::new(2, 0, 3, 1);
    rect.content = Some("ABCDE".to_string());
    rect.content_overflow = ContentOverflow::Overflow;
    rect.content_align = ContentAlign::Right;
    let result = render_objects(8, 3, &[DrawObject::Rect(rect)], false);
    assert_eq!(result, "  ┌───┐\n ABCDE│\n  └───┘");
}

#[test]
fn centred_overflow_reaches_out_on_both_sides() {
    let mut rect = Rect::new(2, 0, 3, 1);
    rect.content = Some("ABCDEFG".to_string());
    rect.content_overflow = ContentOverflow::Overflow;
    rect.content_align = ContentAlign::Center;
    let result = render_objects(9, 3, &[DrawObject::Rect(rect)], false);
    assert_eq!(result, "  ┌───┐\n ABCDEFG\n  └───┘");
}

#[test]
fn right_aligned_overflow_stops_at_the_canvas_edge() {
    let mut rect = Rect::new(0, 0, 2, 1);
    rect.content = Some("ABCDE".to_string());
    rect.content_overflow = ContentOverflow::Overflow;
    rect.content_align = ContentAlign::Right;
    let result = render_objects(6, 3, &[DrawObject::Rect(rect)], false);
    assert_eq!(result, "┌──┐\nABCDE\n└──┘");
}

#[test]
fn hidden_truncate_center_cuts_both_sides() {
    assert_eq!(hidden_truncate("HelloWorld", 5, ContentAlign::Center), "lloWo");
    assert_eq!(hidden_truncate("HelloWorld", 4, ContentAlign::Center), "loWo");
}

#[test]
fn render_rect_hidden_center() {
    let mut rect = Rect::new(0, 0, 5, 1);
    rect.content = Some("HelloWorld".to_string());
    rect.content_overflow = ContentOverflow::Hidden;
    rect.content_align = ContentAlign::Center;
    let result = render_objects(7, 3, &[DrawObject::Rect(rect)], false);
    assert_eq!(result, "┌─────┐\n│lloWo│\n└─────┘");
}

#[test]
fn text_pass_overwrites_structure_with_collision_on() {
    let objects = [
        DrawObject::Rect(Rect::new(0, 0, 4, 1)),
        DrawObject::Text(Text::new(0, 0, "X")),
    ];
    let mut renderer = Renderer::new(Canvas::new(10, 3), true);
    assert!(renderer.draw_all(&objects).is_ok());
    assert!(renderer.render().starts_with('X'));
}

#[test]
fn single_draw_of_text_checks_collision() {
    let mut renderer = Renderer::new(Canvas::new(10, 3), true);
    renderer.draw(&DrawObject::Rect(Rect::new(0, 0, 4, 1))).unwrap();
    assert!(renderer.draw(&DrawObject::Text(Text::new(0, 0, "X"))).is_err());
}

#[test]
fn border_on_empty_canvas_is_out_of_bounds() {
    for (w, h) in [(0, 3), (3, 0), (0, 0)] {
        let mut renderer = Renderer::new(Canvas::new(w, h), false);
        let e = renderer.draw_border(BorderStyle::Rounded).unwrap_err();
        assert_eq!(
            e.to_string(),
            format!("position (0, 0) is out of canvas bounds ({}x{})", w, h)
        );
    }
}

#[test]
fn border_on_single_cell_canvas() {
    let mut renderer = Renderer::new(Canvas::new(1, 1), false);
    renderer.draw_border(BorderStyle::Light).unwrap();
    assert_eq!(renderer.render(), "┘");
}

#[test]
fn object_kind_names() {
    assert_eq!(DrawObject::Rect(Rect::new(0, 0, 1, 1)).kind_name(), "rect");
    assert_eq!(DrawObject::Text(Text::new(0, 0, "a")).kind_name(), "text");
}
