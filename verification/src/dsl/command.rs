//! Commands of the diagram description language.
use vstd::prelude::*;

use crate::object::rect::{BorderStyle, ContentAlign, ContentOverflow, Side};
use crate::object::{opt_legend_view, DrawObject, DrawObjectView, Legend, LegendView};

verus! {

/// A canvas dimension: a fixed number of cells, or computed from the objects.
#[derive(Debug, Clone, Copy, PartialEq, Eq, Structural)]
pub enum CanvasSize {
    Fixed(usize),
    Auto,
}

/// One command of a diagram description.
#[derive(Debug, Clone)]
pub enum DslCommand {
    /// Canvas size and canvas-wide options.
    Canvas {
        width: CanvasSize,
        height: CanvasSize,
        border: Option<BorderStyle>,
        content_overflow: Option<ContentOverflow>,
        content_align: Option<ContentAlign>,
    },
    /// Whether overlapping objects are an error.
    Collision(bool),
    /// An object to draw.
    Object(DrawObject),
    /// An arrow between two objects named by id, resolved once all objects are known.
    Arrow {
        src_id: String,
        src_side: Side,
        dst_id: String,
        dst_side: Side,
        head: Option<char>,
        both: bool,
        legend: Option<Legend>,
        line: usize,
    },
    /// The arrowhead family used by arrows that name none.
    Arrowhead(char),
}

/// The value of a [`DslCommand`].
pub enum CommandView {
    Canvas {
        width: CanvasSize,
        height: CanvasSize,
        border: Option<BorderStyle>,
        content_overflow: Option<ContentOverflow>,
        content_align: Option<ContentAlign>,
    },
    Collision(bool),
    Object(DrawObjectView),
    Arrow {
        src_id: Seq<char>,
        src_side: Side,
        dst_id: Seq<char>,
        dst_side: Side,
        head: Option<char>,
        both: bool,
        legend: Option<LegendView>,
        line: usize,
    },
    Arrowhead(char),
}

impl View for DslCommand {
    type V = CommandView;

    open spec fn view(&self) -> CommandView {
        match self {
            DslCommand::Canvas { width, height, border, content_overflow, content_align } => {
                CommandView::Canvas {
                    width: *width,
                    height: *height,
                    border: *border,
                    content_overflow: *content_overflow,
                    content_align: *content_align,
                }
            },
            DslCommand::Collision(b) => CommandView::Collision(*b),
            DslCommand::Object(o) => CommandView::Object(o@),
            DslCommand::Arrow { src_id, src_side, dst_id, dst_side, head, both, legend, line } => {
                CommandView::Arrow {
                    src_id: src_id@,
                    src_side: *src_side,
                    dst_id: dst_id@,
                    dst_side: *dst_side,
                    head: *head,
                    both: *both,
                    legend: opt_legend_view(*legend),
                    line: *line,
                }
            },
            DslCommand::Arrowhead(c) => CommandView::Arrowhead(*c),
        }
    }
}

/// The values of a list of commands.
pub open spec fn commands_view(v: Seq<DslCommand>) -> Seq<CommandView> {
    v.map_values(|c: DslCommand| c@)
}

} // verus!
