use unicode_diagram::cli::CollisionMode;
use unicode_diagram::dsl::command::{CanvasSize, DslCommand};
use unicode_diagram::object::line::HLine;
use unicode_diagram::object::rect::{Rect, Side};
use unicode_diagram::object::text::Text;
use unicode_diagram::dsl::parse;
use unicode_diagram::object::DrawObject;
use unicode_diagram::pipeline::{
    compute_canvas_size, lint_report, list_lines, process_commands, render_document, CanvasConfig,
};

fn config(input: &str, over: Option<CollisionMode>) -> Result<CanvasConfig, String> {
    let cmds = parse(input).map_err(|e| e.to_string())?;
    process_commands(&cmds, over).map_err(|e| e.to_string())
}

fn render_with(input: &str, over: Option<CollisionMode>) -> Result<String, String> {
    let cfg = config(input, over)?;
    render_document(&cfg).map_err(|e| e.to_string())
}

fn render(input: &str) -> Result<String, String> {
    render_with(input, None)
}

fn listing(input: &str) -> Vec<String> {
    list_lines(&config(input, None).unwrap())
}

fn lint(input: &str) -> (Vec<String>, bool) {
    lint_report(&config(input, None).unwrap())
}

#[test]
fn integration_render_simple_rect() {
    let out = render("canvas 6 3\ncollision off\nrect 0 0 4 1").unwrap();
    assert_eq!(out.trim(), "┌────┐\n│    │\n└────┘");
}

#[test]
fn integration_render_rect_with_content() {
    let out = render("canvas 12 3\ncollision off\nrect 0 0 10 1 c=Hello").unwrap();
    assert!(out.contains("Hello"));
    assert!(out.contains("┌"));
    assert!(out.contains("└"));
}

#[test]
fn render_cjk_content() {
    let out = render("canvas 14 3\ncollision off\nrect 0 0 12 1 c=한글 테스트").unwrap();
    assert!(out.contains("한글 테스트"));
}

#[test]
fn render_auto_canvas() {
    let out = render("canvas auto\ncollision off\nrect 0 0 4 1").unwrap();
    assert_eq!(out.trim(), "┌────┐\n│    │\n└────┘");
}

#[test]
fn render_multiple_styles() {
    let out = render(
        "canvas 30 12\ncollision off\nrect 0 0 6 1 s=l\nrect 0 3 6 1 s=h\nrect 0 6 6 1 s=d\nrect 0 9 6 1 s=r",
    )
    .unwrap();
    assert!(out.contains('┌'));
    assert!(out.contains('┏'));
    assert!(out.contains('╔'));
    assert!(out.contains('╭'));
}

#[test]
fn render_anchor_arrow_horizontal() {
    let out = render(
        "canvas 30 5\ncollision off\nrect 0 0 6 1 id=a c=A\nrect 18 0 6 1 id=b c=B\narrow a.r b.l",
    )
    .unwrap();
    assert!(out.contains('→'));
    assert!(out.contains('─'));
}

#[test]
fn render_anchor_arrow_vertical() {
    let out = render(
        "canvas 10 10\ncollision off\nrect 0 0 6 1 id=a c=A\nrect 0 6 6 1 id=b c=B\narrow a.b b.t",
    )
    .unwrap();
    assert!(out.contains('↓'));
    assert!(out.contains('│'));
}

#[test]
fn render_anchor_arrow_l_shape() {
    let out = render(
        "canvas 30 10\ncollision off\nrect 0 0 6 1 id=a c=A\nrect 18 6 6 1 id=b c=B\narrow a.r b.t",
    )
    .unwrap();
    assert!(out.contains('→') || out.contains('↓'));
    assert!(out.contains('─') || out.contains('│'));
}

#[test]
fn render_anchor_arrow_u_shape() {
    let out = render(
        "canvas 20 10\ncollision off\nrect 0 0 6 1 id=a c=A\nrect 0 6 6 1 id=b c=B\narrow a.r b.r",
    )
    .unwrap();
    assert!(out.contains('┐') || out.contains('┘'));
}

#[test]
fn render_lines() {
    let out = render("canvas 10 5\ncollision off\nhline 0 0 5\nvline 0 1 4").unwrap();
    assert!(out.contains('─'));
    assert!(out.contains('│'));
}

#[test]
fn render_cjk_mixed_diagram() {
    let out = render(
        "canvas 30 10\ncollision off\nrect 0 0 12 1 id=srv c=서버\nrect 18 0 8 1 id=db c=DB\narrow srv.r db.l",
    )
    .unwrap();
    assert!(out.contains("서버"));
    assert!(out.contains("DB"));
    assert!(out.contains('→'));
}

#[test]
fn collision_on_error() {
    let err = render("canvas 20 5\ncollision on\nrect 0 0 5 1\nrect 3 0 5 1").unwrap_err();
    assert!(err.contains("collision"));
}

#[test]
fn integration_collision_off_allows_overlap() {
    assert!(render("canvas 20 5\ncollision off\nrect 0 0 5 1\nrect 3 0 5 1").is_ok());
}

#[test]
fn collision_cli_override() {
    let input = "canvas 20 5\ncollision on\nrect 0 0 5 1\nrect 3 0 5 1";
    assert!(render_with(input, Some(CollisionMode::Off)).is_ok());
}

#[test]
fn collision_error_format() {
    let err = render("canvas 20 5\ncollision on\nrect 0 0 5 1\nrect 3 0 5 1").unwrap_err();
    assert!(err.contains("object #2"));
    assert!(err.contains("object #1"));
    assert!(err.contains("overlaps"));
    assert!(err.contains("size"));
}

#[test]
fn overflow_ellipsis() {
    let out = render("canvas 10 3\ncollision off\nrect 0 0 4 1 c=VeryLongText").unwrap();
    assert!(out.contains("..12"));
}

#[test]
fn overflow_hidden() {
    let out = render("canvas 10 3\ncollision off\nrect 0 0 5 1 overflow=hidden c=HelloWorld").unwrap();
    assert!(out.contains("Hello"));
    assert!(!out.contains("World"));
}

#[test]
fn overflow_error() {
    let err = render("canvas 10 3\ncollision off\nrect 0 0 3 1 overflow=error c=VeryLong").unwrap_err();
    assert!(err.contains("overflow"));
}

#[test]
fn align_center() {
    let out = render("canvas 12 3\ncollision off\nrect 0 0 10 1 align=c c=Hi").unwrap();
    assert!(out.contains("│    Hi    │"));
}

#[test]
fn align_right() {
    let out = render("canvas 12 3\ncollision off\nrect 0 0 10 1 align=r c=Hi").unwrap();
    assert!(out.contains("│        Hi│"));
}

#[test]
fn canvas_border_rounded() {
    let out = render("canvas 10 3 border=r\ncollision off").unwrap();
    assert!(out.contains('╭'));
    assert!(out.contains('╯'));
}

#[test]
fn list_subcommand() {
    let out = listing("canvas 30 5\ncollision on\nrect 0 0 8 1 c=Box\ntext 15 1 c=Hi").join("\n");
    assert!(out.contains("Canvas: 30x5"));
    assert!(out.contains("Collision: on"));
    assert!(out.contains("Objects: 2"));
    assert!(out.contains("rect"));
    assert!(out.contains("text"));
}

#[test]
fn list_auto_canvas() {
    let out = listing("canvas auto\ncollision off\nrect 0 0 4 1").join("\n");
    assert!(out.contains("(auto)"));
}

#[test]
fn lint_ok() {
    let (lines, failed) = lint("canvas 10 3\ncollision off\nrect 0 0 4 1");
    assert!(!failed);
    assert!(lines.join("\n").contains("OK"));
}

#[test]
fn lint_collision_error() {
    let (lines, failed) = lint("canvas 10 5\ncollision on\nrect 0 0 5 1\nrect 3 0 5 1");
    assert!(failed);
    let out = lines.join("\n");
    assert!(out.contains("Errors:"));
    assert!(out.contains("collision"));
}

#[test]
fn error_missing_canvas() {
    let err = render("collision on\nrect 0 0 4 1").unwrap_err();
    assert!(err.contains("canvas"));
}

#[test]
fn error_missing_collision() {
    let err = render("canvas 10 5\nrect 0 0 4 1").unwrap_err();
    assert!(err.contains("collision"));
}

#[test]
fn error_parse_error() {
    let err = render("canvas 10 5\ncollision on\nbadcmd 1 2").unwrap_err();
    assert!(err.contains("unknown command"));
}

#[test]
fn error_unknown_arrow_id() {
    let err = render("canvas 20 5\ncollision off\nrect 0 0 4 1 id=a\narrow a.r nonexistent.l").unwrap_err();
    assert!(err.contains("unknown object id"));
}

#[test]
fn error_invalid_arrow_anchor() {
    let err = render("canvas 20 5\ncollision off\narrow noid db.top").unwrap_err();
    assert!(err.contains("invalid anchor"));
}

#[test]
fn comments_and_blank_lines() {
    let out = render("# This is a comment\ncanvas 6 3\n\ncollision off\n# Another comment\nrect 0 0 4 1").unwrap();
    assert_eq!(out.trim(), "┌────┐\n│    │\n└────┘");
}

#[test]
fn render_text_object() {
    let out = render("canvas 20 3\ncollision off\ntext 0 0 c=Hello World").unwrap();
    assert!(out.contains("Hello World"));
}

#[test]
fn shorthand_style() {
    let out = render("canvas 8 3\ncollision off\nrect 0 0 6 1 style=rounded").unwrap();
    assert!(out.contains('╭'));
}

#[test]
fn content_with_newline_escape() {
    let out = render("canvas 12 5\ncollision off\nrect 0 0 10 3 c=Line1\\nLine2").unwrap();
    assert!(out.contains("Line1"));
    assert!(out.contains("Line2"));
}

#[test]
fn multiline_rect_vertical_center() {
    let out = render("canvas 10 5\ncollision off\nrect 0 0 8 3 align=c c=AA\\nBB").unwrap();
    assert!(out.contains("AA"));
    assert!(out.contains("BB"));
}

#[test]
fn multiline_text_object() {
    let out = render("canvas 10 3\ncollision off\ntext 0 0 c=Hello\\nWorld").unwrap();
    assert!(out.contains("Hello"));
    assert!(out.contains("World"));
}

#[test]
fn rect_with_id() {
    let out = render("canvas 30 5\ncollision off\nrect 0 0 8 1 id=mybox c=Hello").unwrap();
    assert!(out.contains("Hello"));
}

#[test]
fn duplicate_id_error() {
    let err = render("canvas 20 5\ncollision off\nrect 0 0 4 1 id=a\nrect 10 0 4 1 id=a").unwrap_err();
    assert!(err.contains("duplicate"));
}

#[test]
fn duplicate_id_message_exact() {
    let err = render("canvas 20 5\ncollision off\ntext 0 0 c=x\nrect 10 0 4 1 id=a\nhline 0 4 3\nrect 2 2 1 1 id=a")
        .unwrap_err();
    assert_eq!(err, "parse error at line 0: duplicate object id 'a'");
}

#[test]
fn missing_canvas_and_collision_messages() {
    assert_eq!(render("collision on").unwrap_err(), "canvas not defined");
    assert_eq!(render("canvas 3 3").unwrap_err(), "collision not defined");
}

#[test]
fn unknown_destination_message() {
    let err = render("canvas 20 5\ncollision off\nrect 0 0 4 1 id=a\n\narrow a.r zz.l").unwrap_err();
    assert_eq!(err, "parse error at line 5: unknown object id 'zz' in arrow destination");
    let err = render("canvas 20 5\ncollision off\nrect 0 0 4 1 id=a\narrow q.r a.l").unwrap_err();
    assert_eq!(err, "parse error at line 4: unknown object id 'q' in arrow source");
}

#[test]
fn arrow_resolves_between_rect_anchors() {
    let cfg = config("canvas 30 5\ncollision off\nrect 0 0 6 1 id=a\narrow a.r b.l\nrect 18 0 6 1 id=b", None).unwrap();
    assert_eq!(cfg.objects.len(), 3);
    match &cfg.objects[1] {
        DrawObject::Arrow(a) => {
            assert_eq!(a.waypoints, vec![(8, 1), (17, 1)]);
            assert_eq!(a.head, None);
        }
        _ => panic!("expected the arrow in its place"),
    }
}

#[test]
fn self_loop_arrow_resolution() {
    let cfg = config("canvas 30 10\ncollision off\nrect 2 2 6 1 id=db\narrow db.r db.b", None).unwrap();
    match &cfg.objects[1] {
        DrawObject::Arrow(a) => {
            assert_eq!(a.waypoints, vec![(10, 3), (12, 3), (12, 7), (6, 7), (6, 5)]);
        }
        _ => panic!("expected arrow"),
    }
}

fn arrow_cmd(src: &str, src_side: Side, dst: &str, dst_side: Side, head: Option<char>, line: usize) -> DslCommand {
    DslCommand::Arrow {
        src_id: src.to_string(),
        src_side,
        dst_id: dst.to_string(),
        dst_side,
        head,
        both: false,
        legend: None,
        line,
    }
}

fn header() -> Vec<DslCommand> {
    vec![
        DslCommand::Canvas {
            width: CanvasSize::Fixed(20),
            height: CanvasSize::Fixed(12),
            border: None,
            content_overflow: None,
            content_align: None,
        },
        DslCommand::Collision(false),
    ]
}

#[test]
fn arrow_anchors_on_text_and_lines() {
    let mut t = Text::new(4, 2, "hi");
    t.id = Some("t".to_string());
    let mut h = HLine::new(0, 8, 6);
    h.id = Some("h".to_string());
    let mut cmds = header();
    cmds.push(DslCommand::Object(DrawObject::Text(t)));
    cmds.push(DslCommand::Object(DrawObject::HLine(h)));
    cmds.push(arrow_cmd("t", Side::Bottom, "h", Side::Top, Some('▶'), 9));
    let cfg = process_commands(&cmds, None).unwrap();
    match &cfg.objects[2] {
        DrawObject::Arrow(a) => {
            assert_eq!(a.waypoints, vec![(5, 3), (5, 5), (3, 5), (3, 7)]);
            assert_eq!(a.head, Some('▶'));
        }
        _ => panic!("expected arrow"),
    }
    let out = render_document(&cfg).unwrap();
    assert!(out.contains('▼'));
}

#[test]
fn arrowhead_priority_arrow_then_global_then_default() {
    let mut a = Rect::new(0, 0, 2, 1);
    a.id = Some("a".to_string());
    let mut b = Rect::new(10, 0, 2, 1);
    b.id = Some("b".to_string());
    let mut cmds = header();
    cmds.push(DslCommand::Object(DrawObject::Rect(a)));
    cmds.push(DslCommand::Object(DrawObject::Rect(b)));
    cmds.push(arrow_cmd("a", Side::Right, "b", Side::Left, None, 5));
    cmds.push(arrow_cmd("a", Side::Right, "b", Side::Left, Some('▷'), 6));
    let cfg = process_commands(&cmds, None).unwrap();
    let heads: Vec<Option<char>> = cfg
        .objects
        .iter()
        .filter_map(|o| match o {
            DrawObject::Arrow(x) => Some(x.head),
            _ => None,
        })
        .collect();
    assert_eq!(heads, vec![None, Some('▷')]);
    cmds.push(DslCommand::Arrowhead('⇒'));
    let cfg = process_commands(&cmds, None).unwrap();
    let heads: Vec<Option<char>> = cfg
        .objects
        .iter()
        .filter_map(|o| match o {
            DrawObject::Arrow(x) => Some(x.head),
            _ => None,
        })
        .collect();
    assert_eq!(heads, vec![Some('⇒'), Some('▷')]);
    let out = render_document(&cfg).unwrap();
    assert!(out.contains('▷'));
    assert!(!out.contains('→'));
}

#[test]
fn collision_override_on_forces_checks() {
    let input = "canvas 20 5\ncollision off\nrect 0 0 5 1\nrect 3 0 5 1";
    let err = render_with(input, Some(CollisionMode::On)).unwrap_err();
    assert!(err.starts_with("collision: object #2 (rect at (3,0) 7x3) overlaps object #1"));
}

#[test]
fn canvas_size_auto_and_border() {
    let cfg = config("canvas auto\ncollision off\nrect 2 1 3 1\ntext 0 5 c=hello\\nab", None).unwrap();
    assert_eq!(compute_canvas_size(cfg.width, cfg.height, &cfg.objects, cfg.border), (7, 7));
    let cfg = config("canvas auto border=l\ncollision off\nhline 0 0 1", None).unwrap();
    assert_eq!(compute_canvas_size(cfg.width, cfg.height, &cfg.objects, cfg.border), (3, 3));
    let cfg = config("canvas 2 9 border=l\ncollision off", None).unwrap();
    assert_eq!(compute_canvas_size(cfg.width, cfg.height, &cfg.objects, cfg.border), (3, 9));
    let cfg = config("canvas 2 9\ncollision off", None).unwrap();
    assert_eq!(cfg.width, CanvasSize::Fixed(2));
    assert_eq!(compute_canvas_size(cfg.width, cfg.height, &cfg.objects, cfg.border), (2, 9));
}

#[test]
fn canvas_defaults_apply_to_plain_rects() {
    let out = render("canvas 12 3 align=r\ncollision off\nrect 0 0 10 1 c=Hi").unwrap();
    assert!(out.contains("│        Hi│"));
    let out = render("canvas 12 3 align=r\ncollision off\nrect 0 0 10 1 align=c c=Hi").unwrap();
    assert!(out.contains("│    Hi    │"));
    let out = render("canvas 12 3 overflow=hidden\ncollision off\nrect 0 0 5 1 c=HelloWorld").unwrap();
    assert!(out.contains("│Hello│"));
}

#[test]
fn render_with_border_and_content() {
    let out = render("canvas 8 4 border=d\ncollision off\ntext 1 1 c=hey").unwrap();
    assert_eq!(out, "╔══════╗\n║hey   ║\n║      ║\n╚══════╝");
}

#[test]
fn list_sorted_by_row_then_column() {
    let lines = listing("canvas 30 9 border=h\ncollision off\ntext 9 4 c=b\nrect 5 1 2 1 c=Box\nhline 1 4 3\nvline 3 1 2 s=d");
    assert_eq!(
        lines,
        vec![
            "Canvas: 30x9".to_string(),
            "Collision: off".to_string(),
            "Border: Heavy".to_string(),
            "Objects: 4".to_string(),
            "  1. vline (3,1) len=2 Double".to_string(),
            "  2. rect (5,1) 2x1 Light \"Box\"".to_string(),
            "  3. hline (1,4) len=3 Light".to_string(),
            "  4. text (9,4) \"b\"".to_string(),
        ]
    );
}

#[test]
fn list_auto_line_exact() {
    let lines = listing("canvas auto\ncollision on\nrect 0 0 4 1");
    assert_eq!(lines[0], "Canvas: 6x3 (auto)");
    assert_eq!(lines[1], "Collision: on");
    assert_eq!(lines[2], "Objects: 1");
    assert_eq!(lines[3], "  1. rect (0,0) 4x1 Light");
}

#[test]
fn lint_warns_out_of_canvas_when_collision_off() {
    let (lines, failed) = lint("canvas 5 3\ncollision off\nrect 0 0 4 1");
    assert!(!failed);
    assert_eq!(
        lines,
        vec![
            "Canvas: 5x3".to_string(),
            "Collision: off".to_string(),
            "Objects: 1".to_string(),
            "Warnings:".to_string(),
            "  - object #1 (rect at (0,0) 6x3): bounds (6x3) exceed canvas (5x3)".to_string(),
        ]
    );
}

#[test]
fn lint_errors_list_bounds_then_collisions() {
    let (lines, failed) = lint("canvas 9 3\ncollision on\nrect 0 0 5 1\nrect 3 0 5 1");
    assert!(failed);
    assert_eq!(lines[3], "Errors:");
    assert_eq!(lines[4], "  - object #2 (rect at (3,0) 7x3): bounds (10x3) exceed canvas (9x3)");
    assert!(lines[5].starts_with("  - collision: object #2 (rect at (3,0) 7x3) overlaps object #1 (rect at (0,0) 7x3)"));
    assert_eq!(lines.len(), 6);
}

#[test]
fn option_keys_are_case_sensitive() {
    let err = render("canvas 9 3\ncollision off\nrect 0 0 4 1 S=h").unwrap_err();
    assert_eq!(err, "parse error at line 3: unknown rect option 'S=h'");
}

#[test]
fn guide_example_renders_as_documented() {
    let input = "canvas 52 27 border=r\ncollision off\n# Boxes with legend and arrow labels\nrect 2 2 16 1 id=api s=d align=c lg=Server c=API Gateway\nrect 28 2 12 1 id=web align=c c=Web Client\nrect 2 10 16 1 id=auth s=r c=Auth 인증\nrect 28 10 12 1 id=db s=h align=r c=Data Store\n# Arrows with legend labels and custom head\narrow api.r web.l both head=▶ lg=HTTP\narrow api.b auth.t lg=verify\narrow web.b db.t lg=query\narrow auth.r db.l lg=sync\n# Self-loop on db\narrow db.r db.b pos=r lg=backup\n# Separator + overflow demos\nhline 2 18 48 s=dash lg=Features\ntext 2 20 c=ellipsis:\nrect 12 20 10 1 c=LongServiceName\ntext 26 20 c=overflow:\nrect 36 20 10 1 overflow=overflow c=LongServiceName\ntext 2 23 c=hidden:\nrect 12 23 10 1 overflow=hidden c=LongServiceName";
    let expected = "╭──────────────────────────────────────────────────╮\n│ Server                                           │\n│ ╔════════════════╗ HTTP   ┌────────────┐         │\n│ ║  API Gateway   ║◀──────▶│ Web Client │         │\n│ ╚════════════════╝        └────────────┘         │\n│          │                       │               │\n│          │                       │               │\n│          │verify                 │query          │\n│          │                       │               │\n│          ↓                       ↓               │\n│ ╭────────────────╮ sync   ┏━━━━━━━━━━━━┓         │\n│ │Auth 인증       │───────→┃  Data Store┃──┐      │\n│ ╰────────────────╯        ┗━━━━━━━━━━━━┛  │      │\n│                                  ↑        │      │\n│                                  │        │      │\n│                                  └────backup     │\n│                                                  │\n│ Features                                         │\n│ ╌╌╌╌╌╌╌╌╌╌╌╌╌╌╌╌╌╌╌╌╌╌╌╌╌╌╌╌╌╌╌╌╌╌╌╌╌╌╌╌╌╌╌╌╌╌╌╌ │\n│                                                  │\n│ ellipsis: ┌──────────┐  overflow: ┌──────────┐   │\n│           │LongSer..8│            │LongServiceName\n│           └──────────┘            └──────────┘   │\n│ hidden:   ┌──────────┐                           │\n│           │LongServic│                           │\n│           └──────────┘                           │\n╰──────────────────────────────────────────────────╯";
    let out = render(input).unwrap();
    assert_eq!(out, expected);
}
