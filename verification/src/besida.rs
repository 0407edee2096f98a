//! The playback cursor: a document and a position in it.

use crate::branch::{branch_views, node_views, Branch};
use crate::dialogue_node::{views_of, DialogueNode, NodeView};
use crate::document::{first_named, none_named, starts_at, Document, DocumentView};
use crate::error::{NavigationError, ParseError};
use crate::event::{ChoiceOption, Event, EventView};
use crate::grammar::script_of;
use crate::parser::parse;
use vstd::prelude::*;

verus! {

/// The mathematical value of a [`Besida`]: a document and the position of
/// the cursor in it.
pub struct CursorView {
    /// The document that is played.
    pub document: DocumentView,
    /// The index of the active branch.
    pub branch: nat,
    /// The index of the current node in the active branch.
    pub node: nat,
    /// The index of the current event in the current node.
    pub event: nat,
}

impl CursorView {
    /// The nodes of the active branch.
    pub open spec fn nodes(self) -> Seq<NodeView> {
        self.document.branches[self.branch as int].nodes
    }

    /// The node under the cursor, where the node index is within the active
    /// branch.
    pub open spec fn current_node(self) -> Option<NodeView> {
        if self.node < self.nodes().len() {
            Some(self.nodes()[self.node as int])
        } else {
            None
        }
    }

    /// The event under the cursor, where there is a current node and the
    /// event index is within it.
    pub open spec fn current_event(self) -> Option<EventView> {
        match self.current_node() {
            Some(node) => if self.event < node.events.len() {
                Some(node.events[self.event as int])
            } else {
                None
            },
            None => None,
        }
    }

    /// The cursor at the start of branch `branch` of the same document.
    pub open spec fn at_branch(self, branch: nat) -> CursorView {
        CursorView { document: self.document, branch, node: 0, event: 0 }
    }

    /// The cursor at the start of node `node` of the same branch.
    pub open spec fn at_node(self, node: nat) -> CursorView {
        CursorView { node, event: 0, ..self }
    }

    /// The cursor at event `event` of the same node.
    pub open spec fn at_event(self, event: nat) -> CursorView {
        CursorView { event, ..self }
    }

    /// The jump target of the node under the cursor, if there is such a node
    /// and it has one.
    pub open spec fn pending_jump(self) -> Option<Seq<char>> {
        match self.current_node() {
            Some(node) => node.jump_dest,
            None => None,
        }
    }

    /// Whether following the jump target `dest` leads from `self` to `after`
    /// with the outcome `outcome`: where there is a target, a transfer to the
    /// branch of that name, reported as `true`; where there is none, no move,
    /// reported as `false`.
    pub open spec fn follows(
        self,
        dest: Option<Seq<char>>,
        after: CursorView,
        outcome: Result<bool, NavigationError>,
    ) -> bool {
        match dest {
            Some(name) => match outcome {
                Ok(moved) => moved && self.transfers(name, after, Ok(())),
                Err(e) => self.transfers(name, after, Err(e)),
            },
            None => outcome == Ok::<bool, NavigationError>(false) && after == self,
        }
    }

    /// Whether a transfer to the branch named `name` leads from `self` to
    /// `after` with the outcome `outcome`: to the start of the first branch
    /// of that name, or nowhere where no branch has it.
    pub open spec fn transfers(
        self,
        name: Seq<char>,
        after: CursorView,
        outcome: Result<(), NavigationError>,
    ) -> bool {
        match outcome {
            Ok(()) => first_named(self.document.branches, name, after.branch as int) && after
                == self.at_branch(after.branch),
            Err(NavigationError::UnknownBranch) => none_named(self.document.branches, name)
                && after == self,
        }
    }
}

/// Past the last node of the active branch there is no current node and no
/// current event, whatever the event index.
pub proof fn lemma_branch_exhausted(cursor: CursorView)
    requires
        cursor.node >= cursor.nodes().len(),
    ensures
        cursor.current_node() is None,
        cursor.current_event() is None,
{
}

/// Stepping past the last event of a node leaves no current event, and
/// stepping past the last node of a branch leaves no current node and no
/// current event.
pub proof fn lemma_steps_exhaust(cursor: CursorView)
    ensures
        cursor.current_node() matches Some(node) && cursor.event + 1 == node.events.len()
            ==> cursor.at_event(cursor.event + 1).current_event() is None,
        cursor.node + 1 == cursor.nodes().len() ==> {
            &&& cursor.at_node(cursor.node + 1).current_node() is None
            &&& cursor.at_node(cursor.node + 1).current_event() is None
        },
{
}

/// A dialogue in playback: a document, and a cursor on the active branch,
/// the current node in it and the current event in that node. The cursor
/// moves; the document stays as it is.
#[derive(Debug)]
pub struct Besida {
    document: Document,
    active: usize,
    curr_node_idx: usize,
    curr_event_idx: usize,
}

impl View for Besida {
    type V = CursorView;

    closed spec fn view(&self) -> CursorView {
        CursorView {
            document: self.document@,
            branch: self.active as nat,
            node: self.curr_node_idx as nat,
            event: self.curr_event_idx as nat,
        }
    }
}

impl Besida {
    #[verifier::type_invariant]
    spec fn active_branch_exists(&self) -> bool {
        self.active < self.document@.branches.len()
    }

    /// Parses `script` and places the cursor at the first event of the first
    /// node of the entry branch.
    pub fn new(script: &str) -> (r: Result<Besida, ParseError>)
        ensures
            match r {
                Ok(besida) => {
                    &&& script_of(script@) matches Ok(found) && found == besida@.document.branches
                    &&& starts_at(besida@.document.branches, besida@.branch as int)
                    &&& besida@ == besida@.at_branch(besida@.document.entry)
                },
                Err(e) => script_of(script@) matches Err(fault) && fault == e@,
            },
    {
        match parse(script) {
            Ok(document) => Ok(Besida::from_document(document)),
            Err(e) => Err(e),
        }
    }

    /// Places the cursor at the first event of the first node of the entry
    /// branch of `document`.
    pub fn from_document(document: Document) -> (besida: Besida)
        ensures
            besida@ == (CursorView {
                document: document@,
                branch: document@.entry,
                node: 0,
                event: 0,
            }),
            starts_at(document@.branches, document@.entry as int),
    {
        let active = document.entry();
        Besida { document, active, curr_node_idx: 0, curr_event_idx: 0 }
    }

    /// The document that is played.
    pub fn document(&self) -> (document: &Document)
        ensures
            document@ == self@.document,
    {
        &self.document
    }

    /// The index of the active branch, which is a branch of the document.
    pub fn branch_index(&self) -> (index: usize)
        ensures
            index == self@.branch,
            index < self@.document.branches.len(),
    {
        proof {
            use_type_invariant(self);
        }
        self.active
    }

    /// The index of the current node in the active branch.
    pub fn node_index(&self) -> (index: usize)
        ensures
            index == self@.node,
    {
        self.curr_node_idx
    }

    /// The index of the current event in the current node.
    pub fn event_index(&self) -> (index: usize)
        ensures
            index == self@.event,
    {
        self.curr_event_idx
    }

    /// The active branch.
    pub fn branch(&self) -> (branch: &Branch)
        ensures
            branch@ == self@.document.branches[self@.branch as int],
    {
        proof {
            use_type_invariant(self);
        }
        &self.document.branches()[self.active]
    }

    /// Moves to the next node of the active branch, at its first event. There
    /// must be a current node to move past.
    pub fn next_node(&mut self)
        requires
            old(self)@.current_node() is Some,
        ensures
            final(self)@ == old(self)@.at_node(old(self)@.node + 1),
    {
        proof {
            use_type_invariant(&*self);
        }
        let count = self.branch().nodes().len();
        assert(self.curr_node_idx < count);
        self.curr_node_idx += 1;
        self.curr_event_idx = 0;
    }

    /// Moves back to the previous node of the active branch, at its first
    /// event. The cursor must not be at the first node.
    pub fn prev_node(&mut self)
        requires
            old(self)@.node > 0,
        ensures
            final(self)@ == old(self)@.at_node((old(self)@.node - 1) as nat),
    {
        proof {
            use_type_invariant(&*self);
        }
        self.curr_node_idx -= 1;
        self.curr_event_idx = 0;
    }

    /// Sets the node index and leaves the event index as it is. Any index is
    /// accepted: one past the branch shows when the current node is asked for.
    pub fn set_node_index(&mut self, index: usize)
        ensures
            final(self)@ == (CursorView { node: index as nat, ..old(self)@ }),
    {
        proof {
            use_type_invariant(&*self);
        }
        self.curr_node_idx = index;
    }

    /// The node under the cursor, or `None` where the node index is past the
    /// last node of the active branch.
    pub fn get_node(&self) -> (node: Option<&DialogueNode>)
        ensures
            match node {
                Some(n) => self@.current_node() == Some(n@),
                None => self@.current_node() is None,
            },
    {
        let nodes = self.branch().nodes();
        if self.curr_node_idx < nodes.len() {
            Some(&nodes[self.curr_node_idx])
        } else {
            None
        }
    }

    /// Moves to the next event of the current node. There must be a current
    /// event to move past.
    pub fn next_event(&mut self)
        requires
            old(self)@.current_event() is Some,
        ensures
            final(self)@ == old(self)@.at_event(old(self)@.event + 1),
    {
        proof {
            use_type_invariant(&*self);
        }
        match self.get_node() {
            Some(node) => {
                let count = node.events().len();
                assert(self.curr_event_idx < count);
            },
            None => {},
        }
        self.curr_event_idx += 1;
    }

    /// Moves back to the previous event of the current node. The cursor must
    /// not be at the first event.
    pub fn prev_event(&mut self)
        requires
            old(self)@.event > 0,
        ensures
            final(self)@ == old(self)@.at_event((old(self)@.event - 1) as nat),
    {
        proof {
            use_type_invariant(&*self);
        }
        self.curr_event_idx -= 1;
    }

    /// Sets the event index. Any index is accepted: one past the node shows
    /// when the current event is asked for.
    pub fn set_event_index(&mut self, index: usize)
        ensures
            final(self)@ == old(self)@.at_event(index as nat),
    {
        proof {
            use_type_invariant(&*self);
        }
        self.curr_event_idx = index;
    }

    /// The event under the cursor, or `None` where there is no current node
    /// or the event index is past its last event.
    pub fn get_event(&self) -> (event: Option<&Event>)
        ensures
            match event {
                Some(e) => self@.current_event() == Some(e@),
                None => self@.current_event() is None,
            },
    {
        match self.get_node() {
            Some(node) => {
                let events = node.events();
                if self.curr_event_idx < events.len() {
                    Some(&events[self.curr_event_idx])
                } else {
                    None
                }
            },
            None => None,
        }
    }

    /// Transfers to the branch named `name`: the first branch of that name
    /// becomes the active branch, and the cursor stands at its first node and
    /// first event. Where no branch has that name, the transfer fails and the
    /// cursor stays where it is.
    pub fn jump_to(&mut self, name: &str) -> (r: Result<(), NavigationError>)
        ensures
            old(self)@.transfers(name@, final(self)@, r),
    {
        proof {
            use_type_invariant(&*self);
        }
        match self.document.find_branch(name) {
            Some(target) => {
                self.active = target;
                self.curr_node_idx = 0;
                self.curr_event_idx = 0;
                Ok(())
            },
            None => Err(NavigationError::UnknownBranch),
        }
    }

    /// Follows the jump target of the current node: transfers to the branch
    /// that it names and returns `true`, or fails where no branch has that
    /// name. Where there is no current node, or it has no jump target, the
    /// cursor stays where it is and `false` is returned.
    pub fn follow_jump(&mut self) -> (r: Result<bool, NavigationError>)
        ensures
            old(self)@.follows(old(self)@.pending_jump(), final(self)@, r),
    {
        proof {
            use_type_invariant(&*self);
        }
        let target = match self.get_node() {
            Some(node) => match node.jump_dest() {
                Some(name) => self.document.find_branch(name.as_str()),
                None => {
                    return Ok(false);
                },
            },
            None => {
                return Ok(false);
            },
        };
        match target {
            Some(target) => {
                self.active = target;
                self.curr_node_idx = 0;
                self.curr_event_idx = 0;
                Ok(true)
            },
            None => Err(NavigationError::UnknownBranch),
        }
    }

    /// Follows the jump target of the option that the player selected:
    /// transfers to the branch that it names and returns `true`, or fails
    /// where no branch has that name. Where the option has no jump target,
    /// the cursor stays where it is and `false` is returned.
    pub fn select(&mut self, option: &ChoiceOption) -> (r: Result<bool, NavigationError>)
        ensures
            old(self)@.follows(option@.jump_dest, final(self)@, r),
    {
        match &option.jump_dest {
            Some(name) => match self.jump_to(name.as_str()) {
                Ok(()) => Ok(true),
                Err(e) => Err(e),
            },
            None => Ok(false),
        }
    }
}

} // verus!
