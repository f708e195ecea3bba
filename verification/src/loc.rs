use vstd::prelude::*;

verus! {

/// A source position as contracts see it.
pub struct LocView {
    pub filename: Seq<char>,
    pub line: nat,
    pub col: nat,
}

/// A position in a named source text. Lines and columns count from 1.
#[derive(Debug)]
pub struct Loc {
    pub filename: String,
    pub line: usize,
    pub col: usize,
}

impl View for Loc {
    type V = LocView;

    open spec fn view(&self) -> LocView {
        LocView { filename: self.filename@, line: self.line as nat, col: self.col as nat }
    }
}

impl Clone for Loc {
    fn clone(&self) -> (r: Loc)
        ensures
            r == *self,
    {
        Loc { filename: self.filename.clone(), line: self.line, col: self.col }
    }
}

impl Loc {
    pub fn new(filename: &str, line: usize, col: usize) -> (r: Loc)
        ensures
            r@ == (LocView { filename: filename@, line: line as nat, col: col as nat }),
    {
        Loc { filename: filename.to_owned(), line: line, col: col }
    }
}

} // verus!
