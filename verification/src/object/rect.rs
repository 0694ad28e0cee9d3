//! Rectangles and their styles.
use vstd::prelude::*;

use crate::object::{opt_legend_view, opt_str_view, Legend, LegendView};

verus! {

/// Border style for rectangles.
#[derive(Debug, Clone, Copy, PartialEq, Eq, Structural)]
pub enum BorderStyle {
    Light,
    Heavy,
    Double,
    Rounded,
}

impl Default for BorderStyle {
    fn default() -> (r: Self)
        ensures
            r == BorderStyle::Light,
    {
        BorderStyle::Light
    }
}

/// Content overflow mode.
#[derive(Debug, Clone, Copy, PartialEq, Eq, Structural)]
pub enum ContentOverflow {
    Ellipsis,
    Overflow,
    Hidden,
    Error,
}

impl Default for ContentOverflow {
    fn default() -> (r: Self)
        ensures
            r == ContentOverflow::Ellipsis,
    {
        ContentOverflow::Ellipsis
    }
}

/// Content alignment within rect.
#[derive(Debug, Clone, Copy, PartialEq, Eq, Structural)]
pub enum ContentAlign {
    Left,
    Center,
    Right,
}

impl Default for ContentAlign {
    fn default() -> (r: Self)
        ensures
            r == ContentAlign::Left,
    {
        ContentAlign::Left
    }
}

/// A side of an object, where arrows attach.
#[derive(Debug, Clone, Copy, PartialEq, Eq, Structural)]
pub enum Side {
    Top,
    Right,
    Bottom,
    Left,
}

/// A rectangle with optional content.
#[derive(Debug, Clone)]
pub struct Rect {
    pub col: usize,
    pub row: usize,
    /// Inner width (excluding borders).
    pub width: usize,
    /// Inner height (excluding borders).
    pub height: usize,
    pub content: Option<String>,
    pub style: BorderStyle,
    pub content_overflow: ContentOverflow,
    pub content_align: ContentAlign,
    pub id: Option<String>,
    pub legend: Option<Legend>,
}

/// The value of a [`Rect`].
pub struct RectView {
    pub col: usize,
    pub row: usize,
    pub width: usize,
    pub height: usize,
    pub content: Option<Seq<char>>,
    pub style: BorderStyle,
    pub content_overflow: ContentOverflow,
    pub content_align: ContentAlign,
    pub id: Option<Seq<char>>,
    pub legend: Option<LegendView>,
}

impl View for Rect {
    type V = RectView;

    open spec fn view(&self) -> RectView {
        RectView {
            col: self.col,
            row: self.row,
            width: self.width,
            height: self.height,
            content: opt_str_view(self.content),
            style: self.style,
            content_overflow: self.content_overflow,
            content_align: self.content_align,
            id: opt_str_view(self.id),
            legend: opt_legend_view(self.legend),
        }
    }
}

impl Rect {
    /// A rectangle at (`col`, `row`) with the given inner size, light border,
    /// no content, default overflow and alignment, no id and no legend.
    pub fn new(col: usize, row: usize, width: usize, height: usize) -> (r: Self)
        ensures
            r@ == (RectView {
                col,
                row,
                width,
                height,
                content: None,
                style: BorderStyle::Light,
                content_overflow: ContentOverflow::Ellipsis,
                content_align: ContentAlign::Left,
                id: None,
                legend: None,
            }),
    {
        Rect {
            col,
            row,
            width,
            height,
            content: None,
            style: BorderStyle::Light,
            content_overflow: ContentOverflow::Ellipsis,
            content_align: ContentAlign::Left,
            id: None,
            legend: None,
        }
    }

    /// Total width including borders.
    pub fn outer_width(&self) -> (w: usize)
        requires
            self.width + 2 <= usize::MAX,
        ensures
            w == self.width + 2,
    {
        self.width + 2
    }

    /// Total height including borders.
    pub fn outer_height(&self) -> (h: usize)
        requires
            self.height + 2 <= usize::MAX,
        ensures
            h == self.height + 2,
    {
        self.height + 2
    }
}

} // verus!
