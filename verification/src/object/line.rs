//! Horizontal and vertical lines.
use vstd::prelude::*;

use crate::object::{opt_legend_view, opt_str_view, Legend, LegendView};

verus! {

/// Stroke style for lines.
#[derive(Debug, Clone, Copy, PartialEq, Eq, Structural)]
pub enum LineStyle {
    Light,
    Heavy,
    Double,
    Dash,
}

/// A horizontal line of `length` cells starting at (`col`, `row`).
#[derive(Debug, Clone)]
pub struct HLine {
    pub col: usize,
    pub row: usize,
    pub length: usize,
    pub style: LineStyle,
    pub id: Option<String>,
    pub legend: Option<Legend>,
}

/// A vertical line of `length` cells starting at (`col`, `row`).
#[derive(Debug, Clone)]
pub struct VLine {
    pub col: usize,
    pub row: usize,
    pub length: usize,
    pub style: LineStyle,
    pub id: Option<String>,
    pub legend: Option<Legend>,
}

/// The value of a line, horizontal or vertical.
pub struct LineView {
    pub col: usize,
    pub row: usize,
    pub length: usize,
    pub style: LineStyle,
    pub id: Option<Seq<char>>,
    pub legend: Option<LegendView>,
}

impl View for HLine {
    type V = LineView;

    open spec fn view(&self) -> LineView {
        LineView {
            col: self.col,
            row: self.row,
            length: self.length,
            style: self.style,
            id: opt_str_view(self.id),
            legend: opt_legend_view(self.legend),
        }
    }
}

impl View for VLine {
    type V = LineView;

    open spec fn view(&self) -> LineView {
        LineView {
            col: self.col,
            row: self.row,
            length: self.length,
            style: self.style,
            id: opt_str_view(self.id),
            legend: opt_legend_view(self.legend),
        }
    }
}

impl HLine {
    /// A light horizontal line without id or legend.
    pub fn new(col: usize, row: usize, length: usize) -> (h: Self)
        ensures
            h@ == (LineView { col, row, length, style: LineStyle::Light, id: None, legend: None }),
    {
        HLine { col, row, length, style: LineStyle::Light, id: None, legend: None }
    }
}

impl VLine {
    /// A light vertical line without id or legend.
    pub fn new(col: usize, row: usize, length: usize) -> (v: Self)
        ensures
            v@ == (LineView { col, row, length, style: LineStyle::Light, id: None, legend: None }),
    {
        VLine { col, row, length, style: LineStyle::Light, id: None, legend: None }
    }
}

} // verus!
