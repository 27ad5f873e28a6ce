//! Positions in the text of a query.

use vstd::prelude::*;

verus! {

/// A position in the text of a query: a line and a column, both counted
/// from one. Line zero, column zero stands for no position.
#[derive(Debug, Clone, Copy, PartialEq, Eq, Structural)]
pub struct Pos {
    /// The line.
    pub line: usize,
    /// The column.
    pub column: usize,
}

impl Default for Pos {
    fn default() -> (r: Self)
        ensures
            r == (Pos { line: 0, column: 0 }),
    {
        Pos { line: 0, column: 0 }
    }
}

/// A node of the syntax tree with the position at which it stands.
#[derive(Debug, PartialEq, Eq)]
pub struct Positioned<T> {
    /// Where the node stands.
    pub pos: Pos,
    /// The node.
    pub node: T,
}

impl<T> Positioned<T> {
    /// The node `node` at the position `pos`.
    pub fn new(node: T, pos: Pos) -> (r: Self)
        ensures
            r.node == node,
            r.pos == pos,
    {
        Positioned { pos, node }
    }

    /// The node, without its position.
    pub fn into_inner(self) -> (r: T)
        ensures
            r == self.node,
    {
        self.node
    }
}

} // verus!
