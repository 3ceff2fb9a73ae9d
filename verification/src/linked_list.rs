//! Singly linked list with a head node, appended to at its end.
//!
//! The list is kept as the sequence of its items, head first.
use vstd::prelude::*;

verus! {

/// A node of the list.
pub struct Node<Item> {
    pub item: Item,
}

impl<Item> Node<Item> {
    /// A node holding `item`.
    pub fn new(item: Item) -> (r: Self)
        ensures
            r.item == item,
    {
        Self { item }
    }
}

/// The list: its head node and the nodes after it.
pub struct LinkedList<Item> {
    items: Vec<Item>,
}

impl<Item> View for LinkedList<Item> {
    type V = Seq<Item>;

    closed spec fn view(&self) -> Seq<Item> {
        self.items@
    }
}

impl<Item> LinkedList<Item> {
    /// A list whose head node holds `item`.
    pub fn new(item: Item) -> (r: Self)
        ensures
            r@ == seq![item],
    {
        let mut items = Vec::new();
        items.push(item);
        proof {
            assert(items@ =~= seq![item]);
        }
        Self { items }
    }

    /// Appends a node holding `item` after the last node.
    pub fn add(&mut self, item: Item)
        ensures
            final(self)@ == old(self)@.push(item),
    {
        self.items.push(item);
    }

    /// Takes a node; the list stays as it is.
    pub fn add_node(&mut self, node: &mut Node<Item>)
        ensures
            final(self)@ == old(self)@,
    {
    }

    /// Number of nodes, the head included.
    pub fn len(&self) -> (r: usize)
        ensures
            r == self@.len(),
    {
        self.items.len()
    }

    /// The item of the node at position `i` (the head is at 0).
    pub fn get(&self, i: usize) -> (r: &Item)
        requires
            i < self@.len(),
        ensures
            *r == self@[i as int],
    {
        &self.items[i]
    }
}

} // verus!
