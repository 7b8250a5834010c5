//! A text as the rows of an editor.

use crate::text::{lines, lines_of, views};
use vstd::prelude::*;

verus! {

/// The part of `text` that shows between the columns `start` and `end`:
/// nothing past the text's end, and nothing at all where `start` is not
/// before `end`.
pub open spec fn rendered(text: Seq<char>, start: int, end: int) -> Seq<char> {
    let end = if end < text.len() {
        end
    } else {
        text.len() as int
    };
    let start = if start < end {
        start
    } else {
        end
    };
    text.subrange(start, end)
}

/// One line of a document.
#[derive(Clone, PartialEq, Eq, Debug)]
pub struct Row {
    string: String,
}

impl View for Row {
    type V = Seq<char>;

    closed spec fn view(&self) -> Seq<char> {
        self.string@
    }
}

impl Row {
    pub fn from(slice: &str) -> (out: Row)
        ensures
            out@ == slice@,
    {
        Row { string: slice.to_owned() }
    }

    /// How many characters the row holds.
    pub fn len(&self) -> (out: usize)
        ensures
            out == self@.len(),
    {
        self.string.as_str().unicode_len()
    }

    /// The part of the row that shows between the columns `start` and `end`.
    pub fn render(&self, start: usize, end: usize) -> (out: String)
        ensures
            out@ == rendered(self@, start as int, end as int),
    {
        let len = self.len();
        let end = if end < len {
            end
        } else {
            len
        };
        let start = if start < end {
            start
        } else {
            end
        };
        self.string.as_str().substring_char(start, end).to_owned()
    }
}

/// The texts of the rows, in order.
pub open spec fn texts(rows: Seq<Row>) -> Seq<Seq<char>> {
    Seq::new(rows.len(), |i: int| rows[i]@)
}

/// The rows of a text.
pub struct Document {
    rows: Vec<Row>,
}

impl View for Document {
    type V = Seq<Seq<char>>;

    closed spec fn view(&self) -> Seq<Seq<char>> {
        texts(self.rows@)
    }
}

impl Default for Document {
    /// A document of no rows.
    fn default() -> (out: Self)
        ensures
            out@ == Seq::<Seq<char>>::empty(),
    {
        let out = Document { rows: Vec::new() };
        assert(out@ =~= Seq::<Seq<char>>::empty());
        out
    }
}

impl Document {
    /// The document whose rows are the lines of `content`.
    pub fn from_text(content: &str) -> (out: Self)
        ensures
            out@ == lines_of(content@),
    {
        let all = lines(content);
        let mut rows: Vec<Row> = Vec::new();
        let mut at: usize = 0;
        while at < all.len()
            invariant
                at <= all.len(),
                rows.len() == at,
                forall|i: int| 0 <= i < at ==> rows[i]@ == all[i]@,
            decreases all.len() - at,
        {
            rows.push(Row::from(all[at].as_str()));
            at += 1;
        }
        let out = Document { rows };
        assert(out@ =~= views(all@));
        out
    }

    pub fn row(&self, index: usize) -> (out: Option<&Row>)
        ensures
            match out {
                Some(row) => index < self@.len() && row@ == self@[index as int],
                None => index >= self@.len(),
            },
    {
        if index < self.rows.len() {
            Some(&self.rows[index])
        } else {
            None
        }
    }

    pub fn is_empty(&self) -> (out: bool)
        ensures
            out == (self@.len() == 0),
    {
        self.rows.len() == 0
    }

    pub fn len(&self) -> (out: usize)
        ensures
            out == self@.len(),
    {
        self.rows.len()
    }
}

} // verus!
