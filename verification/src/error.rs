//! The library's error type.
use vstd::prelude::*;

use crate::textops::{decimal, push_decimal, push_str, string_from_chars};

verus! {

/// Errors of parsing, layout and rendering.
#[derive(Debug)]
pub enum UnidError {
    NoCanvas,
    NoCollision,
    OutOfBounds { col: usize, row: usize, canvas_width: usize, canvas_height: usize },
    Collision {
        incoming_idx: usize,
        incoming_desc: String,
        existing_idx: usize,
        existing_desc: String,
        overlap_col: usize,
        overlap_row: usize,
        overlap_end_col: usize,
        overlap_end_row: usize,
        overlap_w: usize,
        overlap_h: usize,
    },
    LabelOverflow { label: String, label_width: usize, inner_width: usize },
    Parse { line: usize, message: String },
    /// Reading the input failed; the payload is the reason.
    Io(String),
}

/// The value of a [`UnidError`], its texts as character sequences.
pub enum ErrorView {
    NoCanvas,
    NoCollision,
    OutOfBounds { col: usize, row: usize, canvas_width: usize, canvas_height: usize },
    Collision {
        incoming_idx: usize,
        incoming_desc: Seq<char>,
        existing_idx: usize,
        existing_desc: Seq<char>,
        overlap_col: usize,
        overlap_row: usize,
        overlap_end_col: usize,
        overlap_end_row: usize,
        overlap_w: usize,
        overlap_h: usize,
    },
    LabelOverflow { label: Seq<char>, label_width: usize, inner_width: usize },
    Parse { line: usize, message: Seq<char> },
    Io(Seq<char>),
}

impl View for UnidError {
    type V = ErrorView;

    open spec fn view(&self) -> ErrorView {
        match self {
            UnidError::NoCanvas => ErrorView::NoCanvas,
            UnidError::NoCollision => ErrorView::NoCollision,
            UnidError::OutOfBounds { col, row, canvas_width, canvas_height } => ErrorView::OutOfBounds {
                col: *col,
                row: *row,
                canvas_width: *canvas_width,
                canvas_height: *canvas_height,
            },
            UnidError::Collision {
                incoming_idx,
                incoming_desc,
                existing_idx,
                existing_desc,
                overlap_col,
                overlap_row,
                overlap_end_col,
                overlap_end_row,
                overlap_w,
                overlap_h,
            } => ErrorView::Collision {
                incoming_idx: *incoming_idx,
                incoming_desc: incoming_desc@,
                existing_idx: *existing_idx,
                existing_desc: existing_desc@,
                overlap_col: *overlap_col,
                overlap_row: *overlap_row,
                overlap_end_col: *overlap_end_col,
                overlap_end_row: *overlap_end_row,
                overlap_w: *overlap_w,
                overlap_h: *overlap_h,
            },
            UnidError::LabelOverflow { label, label_width, inner_width } => ErrorView::LabelOverflow {
                label: label@,
                label_width: *label_width,
                inner_width: *inner_width,
            },
            UnidError::Parse { line, message } => ErrorView::Parse { line: *line, message: message@ },
            UnidError::Io(m) => ErrorView::Io(m@),
        }
    }
}

/// The text that describes an error to the user.
pub open spec fn message_spec(e: ErrorView) -> Seq<char> {
    match e {
        ErrorView::NoCanvas => "canvas not defined"@,
        ErrorView::NoCollision => "collision not defined"@,
        ErrorView::OutOfBounds { col, row, canvas_width, canvas_height } => "position ("@ + decimal(
            col as nat,
        ) + ", "@ + decimal(row as nat) + ") is out of canvas bounds ("@ + decimal(
            canvas_width as nat,
        ) + "x"@ + decimal(canvas_height as nat) + ")"@,
        ErrorView::Collision {
            incoming_idx,
            incoming_desc,
            existing_idx,
            existing_desc,
            overlap_col,
            overlap_row,
            overlap_end_col,
            overlap_end_row,
            overlap_w,
            overlap_h,
        } => "collision: object #"@ + decimal(incoming_idx as nat) + " ("@ + incoming_desc
            + ") overlaps object #"@ + decimal(existing_idx as nat) + " ("@ + existing_desc
            + ") at ("@ + decimal(overlap_col as nat) + ","@ + decimal(overlap_row as nat) + ")-("@
            + decimal(overlap_end_col as nat) + ","@ + decimal(overlap_end_row as nat) + ") size "@
            + decimal(overlap_w as nat) + "x"@ + decimal(overlap_h as nat),
        ErrorView::LabelOverflow { label, label_width, inner_width } => "content overflow: '"@
            + label + "' ("@ + decimal(label_width as nat) + " cols) exceeds rect inner width ("@
            + decimal(inner_width as nat) + " cols)"@,
        ErrorView::Parse { line, message } => "parse error at line "@ + decimal(line as nat)
            + ": "@ + message,
        ErrorView::Io(m) => "io error: "@ + m,
    }
}

impl UnidError {
    /// The text that describes this error to the user.
    pub fn to_string(&self) -> (s: String)
        ensures
            s@ == message_spec(self@),
    {
        let mut v: Vec<char> = Vec::new();
        match self {
            UnidError::NoCanvas => {
                push_str(&mut v, "canvas not defined");
            },
            UnidError::NoCollision => {
                push_str(&mut v, "collision not defined");
            },
            UnidError::OutOfBounds { col, row, canvas_width, canvas_height } => {
                push_str(&mut v, "position (");
                push_decimal(&mut v, *col);
                push_str(&mut v, ", ");
                push_decimal(&mut v, *row);
                push_str(&mut v, ") is out of canvas bounds (");
                push_decimal(&mut v, *canvas_width);
                push_str(&mut v, "x");
                push_decimal(&mut v, *canvas_height);
                push_str(&mut v, ")");
            },
            UnidError::Collision {
                incoming_idx,
                incoming_desc,
                existing_idx,
                existing_desc,
                overlap_col,
                overlap_row,
                overlap_end_col,
                overlap_end_row,
                overlap_w,
                overlap_h,
            } => {
                push_str(&mut v, "collision: object #");
                push_decimal(&mut v, *incoming_idx);
                push_str(&mut v, " (");
                push_str(&mut v, incoming_desc.as_str());
                push_str(&mut v, ") overlaps object #");
                push_decimal(&mut v, *existing_idx);
                push_str(&mut v, " (");
                push_str(&mut v, existing_desc.as_str());
                push_str(&mut v, ") at (");
                push_decimal(&mut v, *overlap_col);
                push_str(&mut v, ",");
                push_decimal(&mut v, *overlap_row);
                push_str(&mut v, ")-(");
                push_decimal(&mut v, *overlap_end_col);
                push_str(&mut v, ",");
                push_decimal(&mut v, *overlap_end_row);
                push_str(&mut v, ") size ");
                push_decimal(&mut v, *overlap_w);
                push_str(&mut v, "x");
                push_decimal(&mut v, *overlap_h);
            },
            UnidError::LabelOverflow { label, label_width, inner_width } => {
                push_str(&mut v, "content overflow: '");
                push_str(&mut v, label.as_str());
                push_str(&mut v, "' (");
                push_decimal(&mut v, *label_width);
                push_str(&mut v, " cols) exceeds rect inner width (");
                push_decimal(&mut v, *inner_width);
                push_str(&mut v, " cols)");
            },
            UnidError::Parse { line, message } => {
                push_str(&mut v, "parse error at line ");
                push_decimal(&mut v, *line);
                push_str(&mut v, ": ");
                push_str(&mut v, message.as_str());
            },
            UnidError::Io(m) => {
                push_str(&mut v, "io error: ");
                push_str(&mut v, m.as_str());
            },
        }
        assert(v@ == Seq::<char>::empty() + message_spec(self@));
        string_from_chars(v.as_slice())
    }
}

} // verus!
