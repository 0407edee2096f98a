//! The parser: from script text to branches, nodes and events.
//!
//! Each function reads what stands at the start of its input and returns it
//! together with the input that is left. What each one accepts is laid down in
//! [`crate::grammar`].

use crate::branch::{branch_views, node_views, Branch, BranchView};
use crate::dialogue_node::{views_of, DialogueNode, NodeView};
use crate::document::{lemma_resolution_is_unique, many_entry_marks, starts_at, Document};
use crate::error::{ParseError, ResolveError, SyntaxError, SyntaxErrorKind};
use crate::event::Event;
use crate::grammar::{
    action_token, branch_at, branches_of, entry_mark, event_at, events_of, header_name,
    lemma_prefixed_twice, node_at, nodes_of, opens_header, pause_token, prefixed, print_token,
    script_of, title_mark,
};
use crate::scan::{
    anychar, lemma_blank_run_bound, lemma_first_occurrence_bound, lemma_pause_run_bound,
    lemma_single_prefix, multispace0, tag, take_pause_run, take_until,
};
use vstd::prelude::*;
use vstd::string::StrSliceExecFns;

verus! {

/// Reads the entry mark `!`, if there is one.
pub fn entry_branch_tag<'a>(input: &'a str) -> (r: (&'a str, bool))
    ensures
        (r.0@, r.1) == entry_mark(input@),
{
    proof {
        reveal_strlit("!");
        lemma_single_prefix("!"@, '!', input@);
    }
    match tag("!", input) {
        Some(rest) => (rest, true),
        None => (input, false),
    }
}

/// Whether a branch header opens `input`.
pub fn header_opens(input: &str) -> (opens: bool)
    ensures
        opens == opens_header(input@),
{
    let (rest, _) = entry_branch_tag(input);
    tag("--- ", rest).is_some()
}

/// Reads a header `--- NAME ---` and returns the name.
pub fn branch_name<'a>(input: &'a str) -> (r: Option<(&'a str, String)>)
    ensures
        match r {
            Some((rest, name)) => header_name(input@) == Some((rest@, name@)),
            None => header_name(input@) is None,
        },
        r matches Some((rest, _)) ==> rest@.len() < input@.len(),
{
    proof {
        reveal_strlit("--- ");
        reveal_strlit(" ---");
    }
    let after_open = match tag("--- ", input) {
        Some(rest) => rest,
        None => {
            return None;
        },
    };
    let (closing, name) = match take_until(" ---", after_open) {
        Some(found) => found,
        None => {
            return None;
        },
    };
    if take_until("\n", name).is_some() {
        return None;
    }
    proof {
        lemma_first_occurrence_bound(after_open@, " ---"@);
    }
    match tag(" ---", closing) {
        Some(rest) => {
            proof {
                let k = name@.len() as int;
                assert(after_open@.skip(k).skip(4) =~= after_open@.skip(k + 4));
            }
            Some((rest, name.to_owned()))
        },
        None => None,
    }
}

/// Reads one printed character: any character but `[`, `_` and the line
/// break.
pub fn print_char_event<'a>(input: &'a str) -> (r: Option<(&'a str, Event)>)
    ensures
        match r {
            Some((rest, event)) => print_token(input@) == Some((rest@, event@)),
            None => print_token(input@) is None,
        },
        r matches Some((rest, _)) ==> rest@.len() < input@.len(),
{
    match anychar(input) {
        Some((rest, c)) => {
            if c == '[' || c == '_' || c == '\n' {
                None
            } else {
                Some((rest, Event::PrintChar(c)))
            }
        },
        None => None,
    }
}

/// Reads one pause: a run of `_`, whose length is the pause's duration.
pub fn pause_event<'a>(input: &'a str) -> (r: Option<(&'a str, Event)>)
    ensures
        match r {
            Some((rest, event)) => pause_token(input@) == Some((rest@, event@)),
            None => pause_token(input@) is None,
        },
        r matches Some((rest, _)) ==> rest@.len() < input@.len(),
{
    let (rest, run) = take_pause_run(input);
    proof {
        lemma_pause_run_bound(input@);
    }
    let length = run.unicode_len();
    if length == 0 {
        None
    } else {
        Some((rest, Event::Pause(length)))
    }
}

/// Reads one action `[NAME]`: the name is what stands between the `[` and the
/// first `]` after it.
pub fn action_event<'a>(input: &'a str) -> (r: Option<(&'a str, Event)>)
    ensures
        match r {
            Some((rest, event)) => action_token(input@) == Some((rest@, event@)),
            None => action_token(input@) is None,
        },
        r matches Some((rest, _)) ==> rest@.len() < input@.len(),
{
    proof {
        reveal_strlit("[");
        reveal_strlit("]");
        lemma_single_prefix("["@, '[', input@);
    }
    let inside = match tag("[", input) {
        Some(rest) => rest,
        None => {
            return None;
        },
    };
    let (closing, name) = match take_until("]", inside) {
        Some(found) => found,
        None => {
            return None;
        },
    };
    proof {
        lemma_first_occurrence_bound(inside@, "]"@);
    }
    match tag("]", closing) {
        Some(rest) => {
            proof {
                let k = name@.len() as int;
                assert(input@.skip(1).skip(k).skip(1) =~= input@.skip(k + 2));
                assert(input@.skip(1).take(k) =~= input@.subrange(1, k + 1));
            }
            Some((rest, Event::Action(name.to_owned())))
        },
        None => None,
    }
}

/// Reads one event, after at most one line break. Returns `None` where the
/// body ends: at the end of the text, or at a line break that is the last
/// character or is followed by a second line break or by a branch header.
/// An action that is never closed is an error, located at its `[`.
pub fn event<'a>(input: &'a str) -> (r: Result<Option<(&'a str, Event)>, SyntaxError>)
    ensures
        match r {
            Ok(Some((rest, event))) => event_at(input@) matches Ok(Some(found)) && found == (
                rest@,
                event@,
            ),
            Ok(None) => event_at(input@) matches Ok(None),
            Err(err) => event_at(input@) matches Err(fault) && fault == err@,
        },
        r matches Ok(Some((rest, _))) ==> rest@.len() < input@.len(),
        r matches Err(err) ==> err.offset < input@.len(),
{
    let (after, first) = match anychar(input) {
        Some(found) => found,
        None => {
            return Ok(None);
        },
    };
    let mut text = input;
    let mut head = first;
    let mut skipped: usize = 0;
    if first == '\n' {
        match anychar(after) {
            None => {
                return Ok(None);
            },
            Some((_, second)) => {
                if second == '\n' || header_opens(after) {
                    return Ok(None);
                }
                text = after;
                head = second;
                skipped = 1;
            },
        }
    }
    if head == '[' {
        match action_event(text) {
            Some(found) => Ok(Some(found)),
            None => Err(SyntaxError { kind: SyntaxErrorKind::UnterminatedAction, offset: skipped }),
        }
    } else if head == '_' {
        match pause_event(text) {
            Some(found) => Ok(Some(found)),
            None => Ok(None),
        }
    } else {
        match print_char_event(text) {
            Some(found) => Ok(Some(found)),
            None => Ok(None),
        }
    }
}

/// Reads the events of a node's body, up to where the body ends.
pub fn events<'a>(input: &'a str) -> (r: Result<(&'a str, Vec<Event>), SyntaxError>)
    ensures
        match r {
            Ok((rest, list)) => events_of(input@) matches Ok(found) && found == (
                rest@,
                views_of(list@),
            ),
            Err(err) => events_of(input@) matches Err(fault) && fault == err@,
        },
        r matches Ok((rest, _)) ==> rest@.len() <= input@.len(),
        r matches Err(err) ==> err.offset < input@.len(),
{
    let mut list: Vec<Event> = Vec::new();
    let mut rest = input;
    loop
        invariant
            rest@.len() <= input@.len(),
            events_of(input@) == prefixed(
                views_of(list@),
                (input@.len() - rest@.len()) as nat,
                events_of(rest@),
            ),
        decreases rest@.len(),
    {
        match event(rest) {
            Err(err) => {
                let base = input.unicode_len() - rest.unicode_len();
                return Err(SyntaxError { kind: err.kind, offset: base + err.offset });
            },
            Ok(None) => {
                proof {
                    assert(views_of(list@) + Seq::<crate::event::EventView>::empty() =~= views_of(
                        list@,
                    ));
                }
                return Ok((rest, list));
            },
            Ok(Some((next, found))) => {
                proof {
                    lemma_prefixed_twice(
                        views_of(list@),
                        (input@.len() - rest@.len()) as nat,
                        seq![found@],
                        (rest@.len() - next@.len()) as nat,
                        events_of(next@),
                    );
                    assert(views_of(list@) + seq![found@] =~= views_of(list@.push(found)));
                }
                list.push(found);
                rest = next;
            },
        }
    }
}

/// Reads one node: blanks, the speaker up to the `:` on the same line,
/// blanks, the events of the body, and the blanks after it. Returns `None`
/// where, after the blanks, the text ends or a branch header stands. The
/// speech of the node is the text that its events print; it has no jump
/// target.
pub fn dialogue_node<'a>(input: &'a str) -> (r: Result<
    Option<(&'a str, DialogueNode)>,
    SyntaxError,
>)
    ensures
        match r {
            Ok(Some((rest, node))) => node_at(input@) matches Ok(Some(found)) && found == (
                rest@,
                node@,
            ),
            Ok(None) => node_at(input@) matches Ok(None),
            Err(err) => node_at(input@) matches Err(fault) && fault == err@,
        },
        r matches Ok(Some((rest, _))) ==> rest@.len() < input@.len(),
        r matches Err(err) ==> err.offset <= input@.len(),
{
    proof {
        reveal_strlit(":");
        lemma_blank_run_bound(input@);
    }
    let (start, _) = multispace0(input);
    if anychar(start).is_none() || header_opens(start) {
        return Ok(None);
    }
    let separator = match take_until(":", start) {
        Some((at_colon, speaker)) => {
            if take_until("\n", speaker).is_some() {
                None
            } else {
                Some((at_colon, speaker))
            }
        },
        None => None,
    };
    let (at_colon, speaker) = match separator {
        Some(found) => found,
        None => {
            let offset = input.unicode_len() - start.unicode_len();
            return Err(SyntaxError { kind: SyntaxErrorKind::MissingSeparator, offset });
        },
    };
    proof {
        lemma_first_occurrence_bound(start@, ":"@);
    }
    let after_colon = match tag(":", at_colon) {
        Some(rest) => rest,
        None => {
            // The separator was found just above, so it is there to be read.
            return Ok(None);
        },
    };
    proof {
        let k = speaker@.len() as int;
        assert(start@.skip(k).skip(1) =~= start@.skip(k + 1));
        lemma_blank_run_bound(after_colon@);
    }
    let (body, _) = multispace0(after_colon);
    match events(body) {
        Err(err) => {
            let base = input.unicode_len() - body.unicode_len();
            Err(SyntaxError { kind: err.kind, offset: base + err.offset })
        },
        Ok((rest, list)) => {
            proof {
                lemma_blank_run_bound(rest@);
            }
            let (rest, _) = multispace0(rest);
            Ok(Some((rest, DialogueNode::new(speaker.to_owned(), list, None))))
        },
    }
}

/// Reads the nodes of a branch, up to the end of the text or the next branch
/// header.
pub fn dialogue_nodes<'a>(input: &'a str) -> (r: Result<(&'a str, Vec<DialogueNode>), SyntaxError>)
    ensures
        match r {
            Ok((rest, list)) => nodes_of(input@) matches Ok(found) && found == (
                rest@,
                node_views(list@),
            ),
            Err(err) => nodes_of(input@) matches Err(fault) && fault == err@,
        },
        r matches Ok((rest, _)) ==> rest@.len() <= input@.len(),
        r matches Err(err) ==> err.offset <= input@.len(),
{
    let mut list: Vec<DialogueNode> = Vec::new();
    let mut rest = input;
    loop
        invariant
            rest@.len() <= input@.len(),
            nodes_of(input@) == prefixed(
                node_views(list@),
                (input@.len() - rest@.len()) as nat,
                nodes_of(rest@),
            ),
        decreases rest@.len(),
    {
        match dialogue_node(rest) {
            Err(err) => {
                let base = input.unicode_len() - rest.unicode_len();
                return Err(SyntaxError { kind: err.kind, offset: base + err.offset });
            },
            Ok(None) => {
                proof {
                    assert(node_views(list@) + Seq::<NodeView>::empty() =~= node_views(list@));
                }
                return Ok((rest, list));
            },
            Ok(Some((next, found))) => {
                proof {
                    lemma_prefixed_twice(
                        node_views(list@),
                        (input@.len() - rest@.len()) as nat,
                        seq![found@],
                        (rest@.len() - next@.len()) as nat,
                        nodes_of(next@),
                    );
                    assert(node_views(list@) + seq![found@] =~= node_views(list@.push(found)));
                }
                list.push(found);
                rest = next;
            },
        }
    }
}

/// Reads one branch: the entry mark if there is one, the header on a line of
/// its own, the nodes, and the blanks after them. Returns `None` where no
/// branch header opens the input. A header that is opened and not completed
/// is an error, located at the start of the branch.
pub fn branch<'a>(input: &'a str) -> (r: Result<Option<(&'a str, Branch)>, SyntaxError>)
    ensures
        match r {
            Ok(Some((rest, branch))) => branch_at(input@) matches Ok(Some(found)) && found == (
                rest@,
                branch@,
            ),
            Ok(None) => branch_at(input@) matches Ok(None),
            Err(err) => branch_at(input@) matches Err(fault) && fault == err@,
        },
        r matches Ok(Some((rest, _))) ==> rest@.len() < input@.len(),
        r matches Err(err) ==> err.offset <= input@.len(),
{
    let (marked, is_entry) = entry_branch_tag(input);
    if tag("--- ", marked).is_none() {
        return Ok(None);
    }
    let malformed = SyntaxError { kind: SyntaxErrorKind::MalformedHeader, offset: 0 };
    let (after_header, name) = match branch_name(marked) {
        Some(found) => found,
        None => {
            return Err(malformed);
        },
    };
    match anychar(after_header) {
        Some((_, c)) => {
            if c != '\n' {
                return Err(malformed);
            }
        },
        None => {},
    }
    match dialogue_nodes(after_header) {
        Err(err) => {
            let base = input.unicode_len() - after_header.unicode_len();
            Err(SyntaxError { kind: err.kind, offset: base + err.offset })
        },
        Ok((rest, nodes)) => {
            proof {
                lemma_blank_run_bound(rest@);
            }
            let (rest, _) = multispace0(rest);
            Ok(Some((rest, Branch::new(name, is_entry, nodes))))
        },
    }
}

/// Reads branches for as long as a branch header opens what is left.
pub fn branches<'a>(input: &'a str) -> (r: Result<(&'a str, Vec<Branch>), SyntaxError>)
    ensures
        match r {
            Ok((rest, list)) => branches_of(input@) matches Ok(found) && found == (
                rest@,
                branch_views(list@),
            ),
            Err(err) => branches_of(input@) matches Err(fault) && fault == err@,
        },
        r matches Ok((rest, _)) ==> rest@.len() <= input@.len(),
        r matches Err(err) ==> err.offset <= input@.len(),
{
    let mut list: Vec<Branch> = Vec::new();
    let mut rest = input;
    loop
        invariant
            rest@.len() <= input@.len(),
            branches_of(input@) == prefixed(
                branch_views(list@),
                (input@.len() - rest@.len()) as nat,
                branches_of(rest@),
            ),
        decreases rest@.len(),
    {
        match branch(rest) {
            Err(err) => {
                let base = input.unicode_len() - rest.unicode_len();
                return Err(SyntaxError { kind: err.kind, offset: base + err.offset });
            },
            Ok(None) => {
                proof {
                    assert(branch_views(list@) + Seq::<BranchView>::empty() =~= branch_views(
                        list@,
                    ));
                }
                return Ok((rest, list));
            },
            Ok(Some((next, found))) => {
                proof {
                    lemma_prefixed_twice(
                        branch_views(list@),
                        (input@.len() - rest@.len()) as nat,
                        seq![found@],
                        (rest@.len() - next@.len()) as nat,
                        branches_of(next@),
                    );
                    assert(branch_views(list@) + seq![found@] =~= branch_views(
                        list@.push(found),
                    ));
                }
                list.push(found);
                rest = next;
            },
        }
    }
}

/// Parses a script: its branches, from the first character to the last, and
/// the branch where playback starts. Fails where the text breaks the grammar,
/// where no branch header opens it, and where more than one branch is marked
/// as the entry.
pub fn parse(text: &str) -> (r: Result<Document, ParseError>)
    ensures
        match r {
            Ok(document) => {
                &&& script_of(text@) matches Ok(found) && found == document@.branches
                &&& starts_at(document@.branches, document@.entry as int)
            },
            Err(e) => script_of(text@) matches Err(fault) && fault == e@,
        },
{
    let list = match branches(text) {
        Ok((_, list)) => list,
        Err(e) => {
            return Err(ParseError::Syntax(e));
        },
    };
    let ghost read = branch_views(list@);
    match Document::new(list) {
        Ok(document) => {
            proof {
                if many_entry_marks(read) {
                    lemma_resolution_is_unique(
                        read,
                        Ok(document@.entry as int),
                        Err(ResolveError::MultipleEntries),
                    );
                }
            }
            Ok(document)
        },
        Err(ResolveError::NoBranches) => Err(ParseError::NoBranches),
        Err(ResolveError::MultipleEntries) => Err(ParseError::MultipleEntries),
    }
}

/// Reads a title mark: blanks, a `#` and the blanks after it. Returns the
/// title that follows, and the blanks between the `#` and the title; `None`
/// where no `#` stands after the leading blanks.
pub fn dialogue_name<'a>(input: &'a str) -> (r: Option<(&'a str, &'a str)>)
    ensures
        match r {
            Some((title, gap)) => title_mark(input@) == Some((title@, gap@)),
            None => title_mark(input@) is None,
        },
{
    proof {
        reveal_strlit("#");
    }
    let (start, _) = multispace0(input);
    proof {
        lemma_single_prefix("#"@, '#', start@);
    }
    match tag("#", start) {
        Some(after) => {
            let (title, gap) = multispace0(after);
            Some((title, gap))
        },
        None => None,
    }
}

} // verus!
