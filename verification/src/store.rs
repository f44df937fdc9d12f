//! The line store: an immutable, ordered, 0-indexed collection of text
//! lines, built once at startup and shared read-only by every session.

use vstd::prelude::*;

verus! {

/// Immutable store of text lines. Once constructed it is never mutated:
/// every method takes `&self`, so all sessions may read it concurrently.
pub struct LineStore {
    lines: Vec<String>,
}

impl LineStore {
    /// The mathematical content of the store: the sequence of lines,
    /// each a sequence of characters.
    pub closed spec fn view(&self) -> Seq<Seq<char>> {
        self.lines@.map_values(|l: String| l@)
    }

    /// Builds the store from lines already read from the source file.
    pub fn new(lines: Vec<String>) -> (s: LineStore)
        ensures
            s@ == lines@.map_values(|l: String| l@),
            s@.len() == lines@.len(),
    {
        let s = LineStore { lines };
        proof {
            assert(s@.len() == s.lines@.len());
        }
        s
    }

    /// Number of lines in the store.
    pub fn len(&self) -> (n: usize)
        ensures
            n == self@.len(),
    {
        self.lines.len()
    }

    /// The `i`-th line, 0-based; `None` exactly when `i` is out of range.
    pub fn get(&self, i: usize) -> (r: Option<&String>)
        ensures
            i < self@.len() ==> (r matches Some(l) && l@ == self@[i as int]),
            i >= self@.len() ==> r is None,
    {
        if i < self.lines.len() {
            Some(&self.lines[i])
        } else {
            None
        }
    }
}

} // verus!
