use unicode_diagram::dsl::command::{CanvasSize, DslCommand};
use unicode_diagram::dsl::parse;
use unicode_diagram::object::line::LineStyle;
use unicode_diagram::object::rect::{BorderStyle, ContentAlign, ContentOverflow, Side};
use unicode_diagram::object::{DrawObject, LegendPos};

#[test]
fn parse_canvas_fixed() {
    let cmds = parse("canvas 40 10").unwrap();
    assert_eq!(cmds.len(), 1);
    match &cmds[0] {
        DslCommand::Canvas { width, height, .. } => {
            assert_eq!(*width, CanvasSize::Fixed(40));
            assert_eq!(*height, CanvasSize::Fixed(10));
        }
        _ => panic!("expected Canvas"),
    }
}

#[test]
fn parse_canvas_auto() {
    let cmds = parse("canvas auto").unwrap();
    match &cmds[0] {
        DslCommand::Canvas { width, height, .. } => {
            assert_eq!(*width, CanvasSize::Auto);
            assert_eq!(*height, CanvasSize::Auto);
        }
        _ => panic!("expected Canvas"),
    }
}

#[test]
fn parse_canvas_with_border() {
    let cmds = parse("canvas 20 5 border=r").unwrap();
    match &cmds[0] {
        DslCommand::Canvas { border, .. } => {
            assert_eq!(*border, Some(BorderStyle::Rounded));
        }
        _ => panic!("expected Canvas"),
    }
}

#[test]
fn parse_canvas_with_global_defaults() {
    let cmds = parse("canvas 20 5 overflow=hidden align=r").unwrap();
    match &cmds[0] {
        DslCommand::Canvas { content_overflow, content_align, .. } => {
            assert_eq!(*content_overflow, Some(ContentOverflow::Hidden));
            assert_eq!(*content_align, Some(ContentAlign::Right));
        }
        _ => panic!("expected Canvas"),
    }
}

#[test]
fn parse_collision_on_off() {
    let on = parse("collision on").unwrap();
    let off = parse("collision off").unwrap();
    match &on[0] {
        DslCommand::Collision(v) => assert!(*v),
        _ => panic!("expected Collision"),
    }
    match &off[0] {
        DslCommand::Collision(v) => assert!(!(*v)),
        _ => panic!("expected Collision"),
    }
}

#[test]
fn parse_rect_basic() {
    let cmds = parse("rect 0 0 10 3").unwrap();
    match &cmds[0] {
        DslCommand::Object(DrawObject::Rect(r)) => {
            assert_eq!((r.col, r.row, r.width, r.height), (0, 0, 10, 3));
            assert!(r.content.is_none());
            assert_eq!(r.style, BorderStyle::Light);
        }
        _ => panic!("expected Rect"),
    }
}

#[test]
fn parse_rect_with_content_and_style() {
    let cmds = parse("rect 0 0 10 3 s=r c=Hello World").unwrap();
    match &cmds[0] {
        DslCommand::Object(DrawObject::Rect(r)) => {
            assert_eq!(r.content.as_deref(), Some("Hello World"));
            assert_eq!(r.style, BorderStyle::Rounded);
        }
        _ => panic!("expected Rect"),
    }
}

#[test]
fn parse_rect_shorthand() {
    let cmds = parse("rect 0 0 10 3 s=h c=Test").unwrap();
    match &cmds[0] {
        DslCommand::Object(DrawObject::Rect(r)) => {
            assert_eq!(r.style, BorderStyle::Heavy);
            assert_eq!(r.content.as_deref(), Some("Test"));
        }
        _ => panic!("expected Rect"),
    }
}

#[test]
fn parse_rect_with_overflow_options() {
    let cmds = parse("rect 0 0 10 3 overflow=hidden align=r c=Text").unwrap();
    match &cmds[0] {
        DslCommand::Object(DrawObject::Rect(r)) => {
            assert_eq!(r.content_overflow, ContentOverflow::Hidden);
            assert_eq!(r.content_align, ContentAlign::Right);
            assert_eq!(r.content.as_deref(), Some("Text"));
        }
        _ => panic!("expected Rect"),
    }
}

#[test]
fn parse_text_with_content() {
    let cmds = parse("text 5 3 c=Hello 한글").unwrap();
    match &cmds[0] {
        DslCommand::Object(DrawObject::Text(t)) => {
            assert_eq!(t.col, 5);
            assert_eq!(t.row, 3);
            assert_eq!(t.content, "Hello 한글");
        }
        _ => panic!("expected Text"),
    }
}

#[test]
fn parse_text_with_comma_in_content() {
    let cmds = parse("text 0 0 c=Hello, World").unwrap();
    match &cmds[0] {
        DslCommand::Object(DrawObject::Text(t)) => {
            assert_eq!(t.content, "Hello, World");
        }
        _ => panic!("expected Text"),
    }
}

#[test]
fn parse_text_content_with_newline_escape() {
    let cmds = parse(r"text 0 0 c=Line1\nLine2").unwrap();
    match &cmds[0] {
        DslCommand::Object(DrawObject::Text(t)) => {
            assert_eq!(t.content, "Line1\nLine2");
        }
        _ => panic!("expected Text"),
    }
}

#[test]
fn parse_hline() {
    let cmds = parse("hline 0 5 20 s=h").unwrap();
    match &cmds[0] {
        DslCommand::Object(DrawObject::HLine(h)) => {
            assert_eq!((h.col, h.row, h.length), (0, 5, 20));
            assert_eq!(h.style, LineStyle::Heavy);
        }
        _ => panic!("expected HLine"),
    }
}

#[test]
fn parse_vline() {
    let cmds = parse("vline 10 0 5").unwrap();
    match &cmds[0] {
        DslCommand::Object(DrawObject::VLine(v)) => {
            assert_eq!((v.col, v.row, v.length), (10, 0, 5));
            assert_eq!(v.style, LineStyle::Light);
        }
        _ => panic!("expected VLine"),
    }
}

#[test]
fn parse_arrow_anchor() {
    let cmds = parse("arrow api.right db.top").unwrap();
    match &cmds[0] {
        DslCommand::Arrow { src_id, src_side, dst_id, dst_side, .. } => {
            assert_eq!(src_id, "api");
            assert_eq!(*src_side, Side::Right);
            assert_eq!(dst_id, "db");
            assert_eq!(*dst_side, Side::Top);
        }
        _ => panic!("expected Arrow"),
    }
}

#[test]
fn parse_arrow_shorthand_sides() {
    let cmds = parse("arrow a.r b.l").unwrap();
    match &cmds[0] {
        DslCommand::Arrow { src_side, dst_side, .. } => {
            assert_eq!(*src_side, Side::Right);
            assert_eq!(*dst_side, Side::Left);
        }
        _ => panic!("expected Arrow"),
    }
}

#[test]
fn parse_arrow_invalid_anchor() {
    let result = parse("arrow api db.top");
    assert!(result.is_err());
    let err = result.unwrap_err().to_string();
    assert!(err.contains("invalid anchor"));
}

#[test]
fn parse_arrow_invalid_side() {
    let result = parse("arrow api.up db.top");
    assert!(result.is_err());
    let err = result.unwrap_err().to_string();
    assert!(err.contains("unknown side"));
}

#[test]
fn parse_rect_with_id() {
    let cmds = parse("rect 0 0 10 3 id=api c=API").unwrap();
    match &cmds[0] {
        DslCommand::Object(DrawObject::Rect(r)) => {
            assert_eq!(r.id.as_deref(), Some("api"));
            assert_eq!(r.content.as_deref(), Some("API"));
        }
        _ => panic!("expected Rect"),
    }
}

#[test]
fn parse_rect_invalid_id() {
    let result = parse("rect 0 0 10 3 id=a@b");
    assert!(result.is_err());
    let err = result.unwrap_err().to_string();
    assert!(err.contains("invalid id"));
}

#[test]
fn parse_comments_and_blank_lines() {
    let input = "\
# This is a comment
canvas 20 5

collision on

# Another comment
rect 0 0 5 2
";
    let cmds = parse(input).unwrap();
    assert_eq!(cmds.len(), 3);
}

#[test]
fn parse_case_insensitive() {
    let cmds = parse("CANVAS 20 5").unwrap();
    assert!(matches!(cmds[0], DslCommand::Canvas { .. }));

    let cmds = parse("Rect 0 0 5 2").unwrap();
    assert!(matches!(cmds[0], DslCommand::Object(DrawObject::Rect(_))));
}

#[test]
fn parse_error_unknown_command() {
    let result = parse("unknown 1 2 3");
    assert!(result.is_err());
    let err = result.unwrap_err().to_string();
    assert!(err.contains("unknown command"));
    assert!(err.contains("line 1"));
}

#[test]
fn parse_error_invalid_number() {
    let result = parse("rect abc 0 5 2");
    assert!(result.is_err());
    let err = result.unwrap_err().to_string();
    assert!(err.contains("invalid col"));
}

#[test]
fn parse_error_missing_args() {
    let result = parse("rect 0 0");
    assert!(result.is_err());
}

#[test]
fn parse_error_messages_exact() {
    assert_eq!(
        parse("rect 0 0").unwrap_err().to_string(),
        "parse error at line 1: rect requires col, row, width, height"
    );
    assert_eq!(
        parse("canvas 1 x").unwrap_err().to_string(),
        "parse error at line 1: invalid canvas height 'x' (expected a non-negative integer)"
    );
    assert_eq!(
        parse("canvas 4").unwrap_err().to_string(),
        "parse error at line 1: canvas requires width and height (e.g., 'canvas 40 10')"
    );
    assert_eq!(
        parse("canvas").unwrap_err().to_string(),
        "parse error at line 1: canvas requires size arguments (e.g., 'canvas 40 10' or 'canvas auto')"
    );
    assert_eq!(
        parse("canvas 4 4 color=red").unwrap_err().to_string(),
        "parse error at line 1: unknown canvas option 'color=red'"
    );
    assert_eq!(
        parse("collision maybe").unwrap_err().to_string(),
        "parse error at line 1: collision must be 'on' or 'off', got 'maybe'"
    );
    assert_eq!(
        parse("collision").unwrap_err().to_string(),
        "parse error at line 1: collision requires 'on' or 'off'"
    );
    assert_eq!(
        parse("rect 0 0 4 1 s=wavy").unwrap_err().to_string(),
        "parse error at line 1: unknown border style 'wavy' (expected light/l, heavy/h, double/d, rounded/r)"
    );
    assert_eq!(
        parse("rect 0 0 4 1 overflow=wrap").unwrap_err().to_string(),
        "parse error at line 1: unknown overflow mode 'wrap' (expected ellipsis, overflow, hidden, error)"
    );
    assert_eq!(
        parse("rect 0 0 4 1 align=top").unwrap_err().to_string(),
        "parse error at line 1: unknown align 'top' (expected left/l, center/c, right/r)"
    );
    assert_eq!(
        parse("rect 0 0 4 1 bold").unwrap_err().to_string(),
        "parse error at line 1: unknown rect option 'bold'"
    );
    assert_eq!(
        parse("hline 0 0 4 s=dotted").unwrap_err().to_string(),
        "parse error at line 1: unknown line style 'dotted' (expected light/l, heavy/h, double/d, dash)"
    );
    assert_eq!(
        parse("vline 0 0 4 thick").unwrap_err().to_string(),
        "parse error at line 1: unknown vline option 'thick'"
    );
    assert_eq!(
        parse("hline 0 0").unwrap_err().to_string(),
        "parse error at line 1: hline requires col, row, length"
    );
    assert_eq!(
        parse("text 0 0 hello").unwrap_err().to_string(),
        "parse error at line 1: missing content= (or c=)"
    );
    assert_eq!(
        parse("text 0 0 c=").unwrap_err().to_string(),
        "parse error at line 1: content= requires a value"
    );
    assert_eq!(
        parse("arrow a.r").unwrap_err().to_string(),
        "parse error at line 1: arrow requires <src_id>.<side> <dst_id>.<side> (e.g., 'arrow api.right db.top')"
    );
    assert_eq!(
        parse("arrow .r b.l").unwrap_err().to_string(),
        "parse error at line 1: anchor '.r' has empty id"
    );
    assert_eq!(
        parse("arrow a.up b.l").unwrap_err().to_string(),
        "parse error at line 1: unknown side 'up' in anchor 'a.up' (expected top/t, right/r, bottom/b, left/l)"
    );
    assert_eq!(
        parse("rect 0 0 4 1 id=").unwrap_err().to_string(),
        "parse error at line 1: id cannot be empty"
    );
    assert_eq!(
        parse("rect 0 0 4 1 id=a@b").unwrap_err().to_string(),
        "parse error at line 1: invalid id 'a@b' (only alphanumeric, '_', '-' allowed)"
    );
}

#[test]
fn parse_reports_first_failing_line() {
    let err = parse("canvas 4 4\n# note\nbogus\nrect x 0 1 1").unwrap_err();
    assert_eq!(err.to_string(), "parse error at line 3: unknown command 'bogus'");
}

#[test]
fn parse_content_keeps_later_tokens_and_trims_lines() {
    let cmds = parse(r"rect 0 0 9 3 c=  A \n  B   c=x").unwrap();
    match &cmds[0] {
        DslCommand::Object(DrawObject::Rect(r)) => {
            assert_eq!(r.content.as_deref(), Some("A\nB c=x"));
        }
        _ => panic!("expected Rect"),
    }
}

#[test]
fn parse_text_skips_tokens_before_content() {
    let cmds = parse("text 1 2 extra content=hi there").unwrap();
    match &cmds[0] {
        DslCommand::Object(DrawObject::Text(t)) => {
            assert_eq!(t.content, "hi there");
            assert!(t.id.is_none());
        }
        _ => panic!("expected Text"),
    }
}

#[test]
fn parse_keywords_any_case_and_plus_sign() {
    let cmds = parse("COLLISION OFF\nHLine +3 0 2 style=DASH\narrow My-Box.RIGHT x_1.B").unwrap();
    assert!(matches!(cmds[0], DslCommand::Collision(false)));
    match &cmds[1] {
        DslCommand::Object(DrawObject::HLine(h)) => {
            assert_eq!(h.col, 3);
            assert_eq!(h.style, LineStyle::Dash);
        }
        _ => panic!("expected HLine"),
    }
    match &cmds[2] {
        DslCommand::Arrow { src_id, src_side, dst_id, dst_side, line, head, both, .. } => {
            assert_eq!(src_id, "My-Box");
            assert_eq!(*src_side, Side::Right);
            assert_eq!(dst_id, "x_1");
            assert_eq!(*dst_side, Side::Bottom);
            assert_eq!(*line, 3);
            assert_eq!(*head, None);
            assert!(!*both);
        }
        _ => panic!("expected Arrow"),
    }
}

#[test]
fn parse_anchor_splits_at_last_dot() {
    let cmds = parse("arrow a.b.top c.l").unwrap_err();
    assert!(cmds.to_string().contains("invalid id 'a.b'"));
}

#[test]
fn parse_canvas_options_last_wins_and_none_style() {
    let cmds = parse("canvas auto border=d border=none align=c").unwrap();
    match &cmds[0] {
        DslCommand::Canvas { width, border, content_align, content_overflow, .. } => {
            assert_eq!(*width, CanvasSize::Auto);
            assert_eq!(*border, Some(BorderStyle::Light));
            assert_eq!(*content_align, Some(ContentAlign::Center));
            assert_eq!(*content_overflow, None);
        }
        _ => panic!("expected Canvas"),
    }
}

#[test]
fn parse_number_too_large() {
    let err = parse("rect 0 0 99999999999999999999999 1").unwrap_err();
    assert!(err.to_string().contains("invalid width"));
}

#[test]
fn parse_crlf_lines() {
    let cmds = parse("canvas 3 3\r\ncollision on\r\n").unwrap();
    assert_eq!(cmds.len(), 2);
}

#[test]
fn parse_only_comments_gives_nothing() {
    let cmds = parse("# one\n\n   # two\n\t\n").unwrap();
    assert!(cmds.is_empty());
}

#[test]
fn parse_ids_accept_unicode_letters_and_digits() {
    let cmds = parse("rect 0 0 4 1 id=서버_٣-x").unwrap();
    match &cmds[0] {
        DslCommand::Object(DrawObject::Rect(r)) => assert_eq!(r.id.as_deref(), Some("서버_٣-x")),
        _ => panic!("expected Rect"),
    }
    let err = parse("rect 0 0 4 1 id=a·b").unwrap_err();
    assert!(err.to_string().contains("invalid id 'a·b'"));
}

#[test]
fn parse_rect_legend_then_content() {
    let cmds = parse("rect 2 2 16 1 id=api lg-pos=b lg=Main \\n server c=API Gateway").unwrap();
    match &cmds[0] {
        DslCommand::Object(DrawObject::Rect(r)) => {
            let lg = r.legend.as_ref().unwrap();
            assert_eq!(lg.text, "Main\nserver");
            assert_eq!(lg.pos, LegendPos::Bottom);
            assert_eq!(r.content.as_deref(), Some("API Gateway"));
            assert_eq!(r.id.as_deref(), Some("api"));
        }
        _ => panic!("expected Rect"),
    }
}

#[test]
fn parse_content_swallows_later_legend() {
    let cmds = parse("rect 0 0 9 1 c=Body lg=Title").unwrap();
    match &cmds[0] {
        DslCommand::Object(DrawObject::Rect(r)) => {
            assert_eq!(r.content.as_deref(), Some("Body lg=Title"));
            assert!(r.legend.is_none());
        }
        _ => panic!("expected Rect"),
    }
}

#[test]
fn parse_line_options_and_legend() {
    let cmds = parse("vline 3 1 6 id=sep s=d pos=l legend=left side").unwrap();
    match &cmds[0] {
        DslCommand::Object(DrawObject::VLine(v)) => {
            assert_eq!(v.id.as_deref(), Some("sep"));
            assert_eq!(v.style, LineStyle::Double);
            let lg = v.legend.as_ref().unwrap();
            assert_eq!(lg.text, "left side");
            assert_eq!(lg.pos, LegendPos::Left);
        }
        _ => panic!("expected VLine"),
    }
    assert_eq!(
        parse("hline 0 0 3 lg=x c=y").unwrap_err().to_string(),
        "parse error at line 1: unknown hline option 'c=y'"
    );
    assert_eq!(
        parse("hline 0 0 3 pos=middle").unwrap_err().to_string(),
        "parse error at line 1: unknown position 'middle' (expected top/t, right/r, bottom/b, left/l, auto/a)"
    );
    assert_eq!(
        parse("hline 0 0 3 lg=").unwrap_err().to_string(),
        "parse error at line 1: legend= requires a value"
    );
}

#[test]
fn parse_arrow_options() {
    let cmds = parse("arrow a.r b.l both head=▶ pos=b note lg=HTTP call").unwrap();
    match &cmds[0] {
        DslCommand::Arrow { head, both, legend, .. } => {
            assert_eq!(*head, Some('▶'));
            assert!(*both);
            let lg = legend.as_ref().unwrap();
            assert_eq!(lg.text, "HTTP call");
            assert_eq!(lg.pos, LegendPos::Bottom);
        }
        _ => panic!("expected Arrow"),
    }
    assert_eq!(
        parse("arrow a.r b.l head=>>").unwrap_err().to_string(),
        "parse error at line 1: invalid arrowhead '>>' (expected a single character)"
    );
}

#[test]
fn parse_arrowhead_command() {
    let cmds = parse("ArrowHead ⇒").unwrap();
    assert!(matches!(cmds[0], DslCommand::Arrowhead('⇒')));
    assert_eq!(
        parse("arrowhead").unwrap_err().to_string(),
        "parse error at line 1: arrowhead requires a character (e.g., 'arrowhead ▶')"
    );
}

#[test]
fn parse_text_with_id() {
    let cmds = parse("text 1 1 id=note c=hello").unwrap();
    match &cmds[0] {
        DslCommand::Object(DrawObject::Text(t)) => {
            assert_eq!(t.id.as_deref(), Some("note"));
            assert_eq!(t.content, "hello");
        }
        _ => panic!("expected Text"),
    }
    assert!(parse("text 1 1 id=a/b c=x").unwrap_err().to_string().contains("invalid id 'a/b'"));
}

#[test]
fn parse_rect_legend_position_values() {
    assert_eq!(
        parse("rect 0 0 4 1 lg-pos=left lg=x").unwrap_err().to_string(),
        "parse error at line 1: unknown legend position 'left' (expected top/t, bottom/b)"
    );
}

#[test]
fn parse_whole_description_ignores_command_case() {
    let lower = parse("canvas 20 5\ncollision on\nrect 0 0 5 2 c=Hi\narrow a.r b.l");
    let mixed = parse("CANVAS 20 5\nCollision on\nRect 0 0 5 2 c=Hi\nARROW a.r b.l");
    assert_eq!(format!("{:?}", lower), format!("{:?}", mixed));
    assert!(lower.is_ok());
}
