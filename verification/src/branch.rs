//! Branches: named paths through a conversation.

use crate::dialogue_node::{DialogueNode, NodeView};
use vstd::prelude::*;

verus! {

/// The mathematical value of a [`Branch`].
pub struct BranchView {
    /// The name by which the branch is jumped to.
    pub name: Seq<char>,
    /// Whether the branch is marked as a place to start.
    pub is_entry: bool,
    /// The nodes of the branch, in order.
    pub nodes: Seq<NodeView>,
}

/// The values of a sequence of nodes.
pub open spec fn node_views(nodes: Seq<DialogueNode>) -> Seq<NodeView> {
    nodes.map_values(|n: DialogueNode| n@)
}

/// A named, ordered sequence of dialogue nodes.
#[derive(Debug, PartialEq)]
pub struct Branch {
    name: String,
    is_entry: bool,
    nodes: Vec<DialogueNode>,
}

impl View for Branch {
    type V = BranchView;

    closed spec fn view(&self) -> BranchView {
        BranchView { name: self.name@, is_entry: self.is_entry, nodes: node_views(self.nodes@) }
    }
}

/// The values of a sequence of branches.
pub open spec fn branch_views(branches: Seq<Branch>) -> Seq<BranchView> {
    branches.map_values(|b: Branch| b@)
}

/// A copy of a list of nodes.
fn clone_nodes(nodes: &Vec<DialogueNode>) -> (copy: Vec<DialogueNode>)
    ensures
        node_views(copy@) == node_views(nodes@),
{
    let mut copy: Vec<DialogueNode> = Vec::new();
    let mut i: usize = 0;
    while i < nodes.len()
        invariant
            i <= nodes.len(),
            copy@.len() == i,
            node_views(copy@) == node_views(nodes@.take(i as int)),
        decreases nodes.len() - i,
    {
        let ghost before = copy@;
        copy.push(nodes[i].clone());
        assert forall|j: int| 0 <= j < i + 1 implies node_views(copy@)[j] == node_views(
            nodes@.take(i + 1),
        )[j] by {
            if j < i {
                assert(node_views(before)[j] == node_views(nodes@.take(i as int))[j]);
            }
        }
        assert(node_views(copy@) =~= node_views(nodes@.take(i + 1)));
        i += 1;
    }
    assert(nodes@.take(i as int) =~= nodes@);
    copy
}

impl Branch {
    /// Builds a branch from its name, its entry mark and its nodes.
    pub fn new(name: String, is_entry: bool, nodes: Vec<DialogueNode>) -> (branch: Self)
        ensures
            branch@ == (BranchView { name: name@, is_entry, nodes: node_views(nodes@) }),
    {
        Branch { name, is_entry, nodes }
    }

    /// The name by which the branch is jumped to.
    pub fn name(&self) -> (name: &String)
        ensures
            name@ == self@.name,
    {
        &self.name
    }

    /// Whether the branch is marked as a place to start.
    pub fn is_entry(&self) -> (marked: bool)
        ensures
            marked == self@.is_entry,
    {
        self.is_entry
    }

    /// The nodes of the branch, in order.
    pub fn nodes(&self) -> (nodes: &Vec<DialogueNode>)
        ensures
            node_views(nodes@) == self@.nodes,
    {
        &self.nodes
    }
}

impl Clone for Branch {
    fn clone(&self) -> (copy: Self)
        ensures
            copy@ == self@,
    {
        Branch {
            name: self.name.clone(),
            is_entry: self.is_entry,
            nodes: clone_nodes(&self.nodes),
        }
    }
}

} // verus!
