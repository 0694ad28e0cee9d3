//! Free text placed on the canvas.
use vstd::prelude::*;

use crate::object::opt_str_view;

verus! {

/// Text placed with its first character at (`col`, `row`); `\n` starts a new row.
#[derive(Debug, Clone)]
pub struct Text {
    pub col: usize,
    pub row: usize,
    pub content: String,
    pub id: Option<String>,
}

/// The value of a [`Text`].
pub struct TextView {
    pub col: usize,
    pub row: usize,
    pub content: Seq<char>,
    pub id: Option<Seq<char>>,
}

impl View for Text {
    type V = TextView;

    open spec fn view(&self) -> TextView {
        TextView { col: self.col, row: self.row, content: self.content@, id: opt_str_view(self.id) }
    }
}

impl Text {
    /// Text `content` at (`col`, `row`) without id.
    pub fn new(col: usize, row: usize, content: &str) -> (t: Self)
        ensures
            t@ == (TextView { col, row, content: content@, id: None }),
    {
        Text { col, row, content: String::from_str(content), id: None }
    }
}

} // verus!
