//! A binary tree of boxed nodes: the recursive type lives behind `Box`, and
//! children may only be grafted onto a leaf.

use vstd::prelude::*;

verus! {

/// One node: its payload and, unless it is a leaf, its two children.
pub struct Node<T> {
    pub _data: T,
    pub child_nodes: Option<(Box<Node<T>>, Box<Node<T>>)>,
}

impl<T> Node<T> {
    /// A leaf carrying `data`.
    pub fn new(data: T) -> (r: Self)
        ensures
            r._data == data,
            r.child_nodes is None,
    {
        Node { _data: data, child_nodes: None }
    }

    /// Whether this node has no children.
    pub fn is_leaf(&self) -> (r: bool)
        ensures
            r == (self.child_nodes is None),
    {
        self.child_nodes.is_none()
    }

    /// Grafts `a` and `b` onto this node. Only a leaf can take children;
    /// grafting onto an inner node is a programming error, ruled out here.
    pub fn add_child_nodes(&mut self, a: Node<T>, b: Node<T>)
        requires
            old(self).child_nodes is None,
        ensures
            final(self)._data == old(self)._data,
            final(self).child_nodes matches Some(c) && *c.0 == a && *c.1 == b,
    {
        self.child_nodes = Some((Box::new(a), Box::new(b)));
    }
}

} // verus!
