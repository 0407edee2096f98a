//! Events: the atomic units of playback.

use vstd::prelude::*;

verus! {

/// A selectable option offered to the player.
#[derive(Debug, PartialEq)]
pub struct ChoiceOption {
    /// Label shown to the player.
    pub text: String,
    /// Side effect to fire when the option is selected, if any.
    pub action: Option<String>,
    /// Branch to transfer to when the option is selected, if any.
    pub jump_dest: Option<String>,
}

/// The mathematical value of a [`ChoiceOption`].
pub struct ChoiceOptionView {
    pub text: Seq<char>,
    pub action: Option<Seq<char>>,
    pub jump_dest: Option<Seq<char>>,
}

/// One atomic unit of playback.
#[derive(Debug, PartialEq)]
pub enum Event {
    /// Reveal one character.
    PrintChar(char),
    /// Hold for the given number of ticks.
    Pause(usize),
    /// Fire a named side effect.
    Action(String),
    /// Offer an option to the player.
    Choice(ChoiceOption),
}

/// The mathematical value of an [`Event`].
pub enum EventView {
    PrintChar(char),
    Pause(nat),
    Action(Seq<char>),
    Choice(ChoiceOptionView),
}

/// The characters of an optional string.
pub open spec fn text_of(s: Option<String>) -> Option<Seq<char>> {
    match s {
        Some(t) => Some(t@),
        None => None,
    }
}

impl View for ChoiceOption {
    type V = ChoiceOptionView;

    open spec fn view(&self) -> ChoiceOptionView {
        ChoiceOptionView {
            text: self.text@,
            action: text_of(self.action),
            jump_dest: text_of(self.jump_dest),
        }
    }
}

impl View for Event {
    type V = EventView;

    open spec fn view(&self) -> EventView {
        match *self {
            Event::PrintChar(c) => EventView::PrintChar(c),
            Event::Pause(n) => EventView::Pause(n as nat),
            Event::Action(name) => EventView::Action(name@),
            Event::Choice(option) => EventView::Choice(option@),
        }
    }
}

impl ChoiceOption {
    /// Builds an option from its label, its action and its jump target.
    pub fn new(text: String, action: Option<String>, jump_dest: Option<String>) -> (option: Self)
        ensures
            option.text == text,
            option.action == action,
            option.jump_dest == jump_dest,
    {
        ChoiceOption { text, action, jump_dest }
    }
}

/// A copy of an optional string.
pub(crate) fn clone_text(s: &Option<String>) -> (copy: Option<String>)
    ensures
        copy == *s,
{
    match s {
        Some(t) => Some(t.clone()),
        None => None,
    }
}

impl Clone for ChoiceOption {
    fn clone(&self) -> (copy: Self)
        ensures
            copy == *self,
    {
        ChoiceOption {
            text: self.text.clone(),
            action: clone_text(&self.action),
            jump_dest: clone_text(&self.jump_dest),
        }
    }
}

impl Clone for Event {
    fn clone(&self) -> (copy: Self)
        ensures
            copy == *self,
    {
        match self {
            Event::PrintChar(c) => Event::PrintChar(*c),
            Event::Pause(n) => Event::Pause(*n),
            Event::Action(name) => Event::Action(name.clone()),
            Event::Choice(option) => Event::Choice(option.clone()),
        }
    }
}

} // verus!
