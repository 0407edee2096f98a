//! Dialogue nodes: one speaker's turn.

use crate::event::{clone_text, text_of, Event, EventView};
use crate::scan::push_char;
use vstd::prelude::*;

verus! {

/// The mathematical value of a [`DialogueNode`].
pub struct NodeView {
    /// Who speaks.
    pub speaker: Seq<char>,
    /// What is said, as plain text.
    pub speech: Seq<char>,
    /// The events of the turn, in order.
    pub events: Seq<EventView>,
    /// The branch to transfer to after the turn, if any.
    pub jump_dest: Option<Seq<char>>,
    /// The node's own reading position among its events.
    pub position: nat,
}

/// The values of a sequence of events.
pub open spec fn views_of(events: Seq<Event>) -> Seq<EventView> {
    events.map_values(|e: Event| e@)
}

/// The plain text that a sequence of events prints: the characters of its
/// `PrintChar` events, in order.
pub open spec fn printed_text(events: Seq<EventView>) -> Seq<char>
    decreases events.len(),
{
    if events.len() == 0 {
        Seq::empty()
    } else {
        let before = printed_text(events.drop_last());
        match events.last() {
            EventView::PrintChar(c) => before.push(c),
            _ => before,
        }
    }
}

/// One speaker's turn: who speaks, what is said, and the events that play it.
///
/// The speech is always the text that the events print. A node also keeps a
/// reading position of its own, with which it can be stepped through event by
/// event.
#[derive(Debug, PartialEq)]
pub struct DialogueNode {
    speaker: String,
    speech: String,
    events: Vec<Event>,
    curr_event_idx: usize,
    jump_dest: Option<String>,
}

impl View for DialogueNode {
    type V = NodeView;

    closed spec fn view(&self) -> NodeView {
        NodeView {
            speaker: self.speaker@,
            speech: self.speech@,
            events: views_of(self.events@),
            jump_dest: text_of(self.jump_dest),
            position: self.curr_event_idx as nat,
        }
    }
}

impl DialogueNode {
    #[verifier::type_invariant]
    spec fn speech_is_printed(&self) -> bool {
        self.speech@ == printed_text(views_of(self.events@))
    }

    /// Builds a node from its speaker, its events and its jump target. The
    /// speech is the text that the events print; the reading position is at
    /// the first event.
    pub fn new(speaker: String, events: Vec<Event>, jump_dest: Option<String>) -> (node: Self)
        ensures
            node@ == (NodeView {
                speaker: speaker@,
                speech: printed_text(views_of(events@)),
                events: views_of(events@),
                jump_dest: text_of(jump_dest),
                position: 0,
            }),
    {
        let mut speech = String::new();
        let mut i: usize = 0;
        while i < events.len()
            invariant
                i <= events.len(),
                speech@ == printed_text(views_of(events@.take(i as int))),
            decreases events.len() - i,
        {
            proof {
                let upto = views_of(events@.take(i + 1));
                assert(upto.drop_last() =~= views_of(events@.take(i as int)));
                assert(upto.last() == events@[i as int]@);
            }
            match &events[i] {
                Event::PrintChar(c) => {
                    push_char(&mut speech, *c);
                },
                _ => {},
            }
            i += 1;
        }
        proof {
            assert(events@.take(i as int) =~= events@);
        }
        DialogueNode { speaker, speech, events, curr_event_idx: 0, jump_dest }
    }

    /// Who speaks.
    pub fn speaker(&self) -> (speaker: &String)
        ensures
            speaker@ == self@.speaker,
    {
        &self.speaker
    }

    /// What is said, as plain text: the characters that the node's events
    /// print, in order.
    pub fn speech(&self) -> (speech: &String)
        ensures
            speech@ == self@.speech,
            speech@ == printed_text(self@.events),
    {
        proof {
            use_type_invariant(self);
        }
        &self.speech
    }

    /// The events of the turn, in order.
    pub fn events(&self) -> (events: &Vec<Event>)
        ensures
            views_of(events@) == self@.events,
    {
        &self.events
    }

    /// The branch to transfer to after the turn, if any.
    pub fn jump_dest(&self) -> (dest: &Option<String>)
        ensures
            text_of(*dest) == self@.jump_dest,
    {
        &self.jump_dest
    }

    /// The node's reading position: the index of its current event.
    pub fn event_index(&self) -> (index: usize)
        ensures
            index == self@.position,
    {
        self.curr_event_idx
    }

    /// Moves the reading position to the next event. There must be a current
    /// event to move past.
    pub fn next_event(&mut self)
        requires
            old(self)@.position < old(self)@.events.len(),
        ensures
            final(self)@ == (NodeView { position: old(self)@.position + 1, ..old(self)@ }),
    {
        proof {
            use_type_invariant(&*self);
            assert(self.curr_event_idx < self.events.len());
        }
        self.curr_event_idx += 1;
    }

    /// Moves the reading position back to the previous event. The position
    /// must not be at the first event.
    pub fn prev_event(&mut self)
        requires
            old(self)@.position > 0,
        ensures
            final(self)@ == (NodeView {
                position: (old(self)@.position - 1) as nat,
                ..old(self)@
            }),
    {
        proof {
            use_type_invariant(&*self);
        }
        self.curr_event_idx -= 1;
    }

    /// Sets the reading position. Any index is accepted: one past the events
    /// shows when the current event is asked for.
    pub fn set_event_index(&mut self, index: usize)
        ensures
            final(self)@ == (NodeView { position: index as nat, ..old(self)@ }),
    {
        proof {
            use_type_invariant(&*self);
        }
        self.curr_event_idx = index;
    }

    /// The event at the reading position, or `None` where the position is past
    /// the last event.
    pub fn get_event(&self) -> (event: Option<&Event>)
        ensures
            event is Some == (self@.position < self@.events.len()),
            event matches Some(e) ==> e@ == self@.events[self@.position as int],
    {
        if self.curr_event_idx < self.events.len() {
            Some(&self.events[self.curr_event_idx])
        } else {
            None
        }
    }
}

impl Default for DialogueNode {
    /// A sample node: "You" saying "Hello", one character at a time.
    fn default() -> (node: Self)
        ensures
            node@ == (NodeView {
                speaker: "You"@,
                speech: "Hello"@,
                events: seq![
                    EventView::PrintChar('H'),
                    EventView::PrintChar('e'),
                    EventView::PrintChar('l'),
                    EventView::PrintChar('l'),
                    EventView::PrintChar('o'),
                ],
                jump_dest: None,
                position: 0,
            }),
    {
        let events = vec![
            Event::PrintChar('H'),
            Event::PrintChar('e'),
            Event::PrintChar('l'),
            Event::PrintChar('l'),
            Event::PrintChar('o'),
        ];
        proof {
            reveal_strlit("Hello");
            let v = views_of(events@);
            assert(v =~= seq![
                EventView::PrintChar('H'),
                EventView::PrintChar('e'),
                EventView::PrintChar('l'),
                EventView::PrintChar('l'),
                EventView::PrintChar('o'),
            ]);
            assert(v.take(0) =~= Seq::<EventView>::empty());
            assert(v.take(1).drop_last() =~= v.take(0));
            assert(v.take(2).drop_last() =~= v.take(1));
            assert(v.take(3).drop_last() =~= v.take(2));
            assert(v.take(4).drop_last() =~= v.take(3));
            assert(v.take(5).drop_last() =~= v.take(4));
            assert(v.take(5) =~= v);
            assert(printed_text(v.take(0)) =~= Seq::<char>::empty());
            assert(printed_text(v.take(1)) =~= seq!['H']);
            assert(printed_text(v.take(2)) =~= seq!['H', 'e']);
            assert(printed_text(v.take(3)) =~= seq!['H', 'e', 'l']);
            assert(printed_text(v.take(4)) =~= seq!['H', 'e', 'l', 'l']);
            assert(printed_text(v.take(5)) =~= seq!['H', 'e', 'l', 'l', 'o']);
            assert(printed_text(v) =~= "Hello"@);
        }
        DialogueNode::new("You".to_owned(), events, None)
    }
}

/// A copy of a list of events.
fn clone_events(events: &Vec<Event>) -> (copy: Vec<Event>)
    ensures
        copy@ == events@,
{
    let mut copy: Vec<Event> = Vec::new();
    let mut i: usize = 0;
    while i < events.len()
        invariant
            i <= events.len(),
            copy@ == events@.take(i as int),
        decreases events.len() - i,
    {
        copy.push(events[i].clone());
        assert(copy@ =~= events@.take(i + 1));
        i += 1;
    }
    assert(events@.take(i as int) =~= events@);
    copy
}

impl Clone for DialogueNode {
    fn clone(&self) -> (copy: Self)
        ensures
            copy@ == self@,
    {
        proof {
            use_type_invariant(self);
        }
        DialogueNode {
            speaker: self.speaker.clone(),
            speech: self.speech.clone(),
            events: clone_events(&self.events),
            curr_event_idx: self.curr_event_idx,
            jump_dest: clone_text(&self.jump_dest),
        }
    }
}

} // verus!
