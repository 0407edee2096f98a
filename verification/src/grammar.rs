//! The grammar of scripts, as mathematical functions on character sequences.
//!
//! ```text
//! document := branch*
//! branch   := "!"? "--- " NAME " ---" (end of line) node* blanks
//! node     := blanks SPEAKER ":" blanks event* blanks
//! event    := "\n"? ( "[" ACTION "]" | "_"+ | any other character )
//! ```
//!
//! Every function takes the text that is left to read and says what stands at
//! its start, and what is left after it. A fault is located by the number of
//! characters between the start of the text and the faulty construct.

use crate::branch::BranchView;
use crate::dialogue_node::{printed_text, NodeView};
use crate::error::{Fault, SyntaxErrorKind};
use crate::event::EventView;
use crate::document::many_entry_marks;
use crate::error::ParseFault;
use crate::scan::{
    blank_run, first_occurrence, lemma_blank_run_bound, lemma_first_occurrence_bound,
    lemma_pause_run_bound, pause_run,
};
use vstd::prelude::*;

verus! {

/// The fault `f`, met in a text that stands `by` characters into a longer one,
/// as located in the longer one.
pub open spec fn shifted(f: Fault, by: nat) -> Fault {
    Fault { kind: f.kind, offset: f.offset + by }
}

/// What a repetition yields once `done` has been read from the first `by`
/// characters and the rest of the text yields `tail`.
pub open spec fn prefixed<T>(done: Seq<T>, by: nat, tail: Result<(Seq<char>, Seq<T>), Fault>)
    -> Result<(Seq<char>, Seq<T>), Fault> {
    match tail {
        Ok((rest, more)) => Ok((rest, done + more)),
        Err(f) => Err(shifted(f, by)),
    }
}

/// Reading `a`, then `b`, then the rest is reading `a` and `b` together, then
/// the rest.
pub proof fn lemma_prefixed_twice<T>(
    a: Seq<T>,
    m: nat,
    b: Seq<T>,
    n: nat,
    tail: Result<(Seq<char>, Seq<T>), Fault>,
)
    ensures
        prefixed(a, m, prefixed(b, n, tail)) == prefixed(a + b, m + n, tail),
{
    if let Ok((rest, more)) = tail {
        assert(a + (b + more) =~= (a + b) + more);
    }
}

/// `s` without its leading blanks.
pub open spec fn after_blanks(s: Seq<char>) -> Seq<char> {
    s.skip(blank_run(s) as int)
}

/// The title mark at the start of `s`: blanks, a `#` and the blanks after it.
/// Gives the title that follows the mark, and the blanks between the `#` and
/// the title.
pub open spec fn title_mark(s: Seq<char>) -> Option<(Seq<char>, Seq<char>)> {
    let t = after_blanks(s);
    if t.len() > 0 && t[0] == '#' {
        let u = t.skip(1);
        Some((after_blanks(u), u.take(blank_run(u) as int)))
    } else {
        None
    }
}

/// The entry mark: `s` without a leading `!`, and whether there was one.
pub open spec fn entry_mark(s: Seq<char>) -> (Seq<char>, bool) {
    if s.len() > 0 && s[0] == '!' {
        (s.skip(1), true)
    } else {
        (s, false)
    }
}

/// Whether a branch header opens `s`: `--- `, with or without the entry mark
/// before it.
pub open spec fn opens_header(s: Seq<char>) -> bool {
    "--- "@.is_prefix_of(entry_mark(s).0)
}

/// The name in the header `--- NAME ---` at the start of `s`, and what follows
/// the header. The name ends before the first ` ---` and holds no line break.
pub open spec fn header_name(s: Seq<char>) -> Option<(Seq<char>, Seq<char>)> {
    if "--- "@.is_prefix_of(s) {
        let t = s.skip(4);
        match first_occurrence(t, " ---"@) {
            Some(k) => if first_occurrence(t.take(k as int), "\n"@) is None {
                Some((t.skip(k as int + 4), t.take(k as int)))
            } else {
                None
            },
            None => None,
        }
    } else {
        None
    }
}

/// An action `[NAME]` at the start of `s`: the name runs up to the first `]`.
pub open spec fn action_token(s: Seq<char>) -> Option<(Seq<char>, EventView)> {
    if s.len() > 0 && s[0] == '[' {
        match first_occurrence(s.skip(1), "]"@) {
            Some(k) => Some((s.skip(k as int + 2), EventView::Action(s.subrange(1, k as int + 1)))),
            None => None,
        }
    } else {
        None
    }
}

/// A pause at the start of `s`: a run of `_`, as long as it goes.
pub open spec fn pause_token(s: Seq<char>) -> Option<(Seq<char>, EventView)> {
    if s.len() > 0 && s[0] == '_' {
        Some((s.skip(pause_run(s) as int), EventView::Pause(pause_run(s))))
    } else {
        None
    }
}

/// A printed character at the start of `s`: any character but `[`, `_` and
/// the line break.
pub open spec fn print_token(s: Seq<char>) -> Option<(Seq<char>, EventView)> {
    if s.len() > 0 && s[0] != '[' && s[0] != '_' && s[0] != '\n' {
        Some((s.skip(1), EventView::PrintChar(s[0])))
    } else {
        None
    }
}

/// Whether a node's body ends at the start of `s`: at the end of the text, or
/// at a line break that is the last character or is followed by a second line
/// break or by a branch header.
pub open spec fn body_ends(s: Seq<char>) -> bool {
    s.len() == 0 || (s[0] == '\n' && (s.len() == 1 || s[1] == '\n' || opens_header(s.skip(1))))
}

/// The event at the start of `s`, after at most one line break, and what
/// follows it; `None` where the body ends there.
pub open spec fn event_at(s: Seq<char>) -> Result<Option<(Seq<char>, EventView)>, Fault> {
    if body_ends(s) {
        Ok(None)
    } else {
        let t = if s[0] == '\n' {
            s.skip(1)
        } else {
            s
        };
        if t[0] == '[' {
            match action_token(t) {
                Some(found) => Ok(Some(found)),
                None => Err(
                    Fault {
                        kind: SyntaxErrorKind::UnterminatedAction,
                        offset: (s.len() - t.len()) as nat,
                    },
                ),
            }
        } else if t[0] == '_' {
            Ok(pause_token(t))
        } else {
            Ok(print_token(t))
        }
    }
}

/// The events of the body at the start of `s`, and what follows the body.
pub open spec fn events_of(s: Seq<char>) -> Result<(Seq<char>, Seq<EventView>), Fault>
    decreases s.len(),
{
    match event_at(s) {
        Err(f) => Err(f),
        Ok(None) => Ok((s, Seq::empty())),
        Ok(Some((rest, e))) => {
            proof {
                lemma_event_consumes(s);
            }
            prefixed(seq![e], (s.len() - rest.len()) as nat, events_of(rest))
        },
    }
}

/// The node at the start of `s`, after any blanks, and what follows it and the
/// blanks after it; `None` where the text ends or a branch header stands.
pub open spec fn node_at(s: Seq<char>) -> Result<Option<(Seq<char>, NodeView)>, Fault> {
    let t = after_blanks(s);
    if t.len() == 0 || opens_header(t) {
        Ok(None)
    } else {
        match first_occurrence(t, ":"@) {
            Some(k) if first_occurrence(t.take(k as int), "\n"@) is None => {
                let body = after_blanks(t.skip(k as int + 1));
                match events_of(body) {
                    Err(f) => Err(shifted(f, (s.len() - body.len()) as nat)),
                    Ok((rest, events)) => Ok(
                        Some(
                            (
                                after_blanks(rest),
                                NodeView {
                                    speaker: t.take(k as int),
                                    speech: printed_text(events),
                                    events,
                                    jump_dest: None,
                                    position: 0,
                                },
                            ),
                        ),
                    ),
                }
            },
            _ => Err(
                Fault {
                    kind: SyntaxErrorKind::MissingSeparator,
                    offset: (s.len() - t.len()) as nat,
                },
            ),
        }
    }
}

/// The nodes at the start of `s`, and what follows them.
pub open spec fn nodes_of(s: Seq<char>) -> Result<(Seq<char>, Seq<NodeView>), Fault>
    decreases s.len(),
{
    match node_at(s) {
        Err(f) => Err(f),
        Ok(None) => Ok((s, Seq::empty())),
        Ok(Some((rest, node))) => {
            proof {
                lemma_node_consumes(s);
            }
            prefixed(seq![node], (s.len() - rest.len()) as nat, nodes_of(rest))
        },
    }
}

/// The branch at the start of `s`, and what follows it and the blanks after
/// it; `None` where no branch header opens `s`. The header must end its line.
pub open spec fn branch_at(s: Seq<char>) -> Result<Option<(Seq<char>, BranchView)>, Fault> {
    let (t, is_entry) = entry_mark(s);
    if !"--- "@.is_prefix_of(t) {
        Ok(None)
    } else {
        match header_name(t) {
            Some((u, name)) if u.len() == 0 || u[0] == '\n' => {
                match nodes_of(u) {
                    Err(f) => Err(shifted(f, (s.len() - u.len()) as nat)),
                    Ok((rest, nodes)) => Ok(
                        Some((after_blanks(rest), BranchView { name, is_entry, nodes })),
                    ),
                }
            },
            _ => Err(Fault { kind: SyntaxErrorKind::MalformedHeader, offset: 0 }),
        }
    }
}

/// The branches at the start of `s`, and what follows them.
pub open spec fn branches_of(s: Seq<char>) -> Result<(Seq<char>, Seq<BranchView>), Fault>
    decreases s.len(),
{
    match branch_at(s) {
        Err(f) => Err(f),
        Ok(None) => Ok((s, Seq::empty())),
        Ok(Some((rest, branch))) => {
            proof {
                lemma_branch_consumes(s);
            }
            prefixed(seq![branch], (s.len() - rest.len()) as nat, branches_of(rest))
        },
    }
}

/// The branches of the script `s`, or why it is no script: a breach of the
/// grammar, no branch at its start, or more than one branch marked as the
/// entry.
pub open spec fn script_of(s: Seq<char>) -> Result<Seq<BranchView>, ParseFault> {
    match branches_of(s) {
        Err(f) => Err(ParseFault::Syntax(f)),
        Ok((_, branches)) => if branches.len() == 0 {
            Err(ParseFault::NoBranches)
        } else if many_entry_marks(branches) {
            Err(ParseFault::MultipleEntries)
        } else {
            Ok(branches)
        },
    }
}

/// An action that is opened and never closed fails the body, at its `[`:
/// nothing of the body is given back.
pub proof fn lemma_open_action_fails(s: Seq<char>)
    requires
        s.len() > 0,
        s[0] == '[',
        first_occurrence(s.skip(1), "]"@) is None,
    ensures
        events_of(s) == Err::<(Seq<char>, Seq<EventView>), Fault>(
            Fault { kind: SyntaxErrorKind::UnterminatedAction, offset: 0 },
        ),
{
}

/// An event takes at least one character.
pub proof fn lemma_event_consumes(s: Seq<char>)
    ensures
        event_at(s) matches Ok(Some((rest, _))) ==> rest.len() < s.len(),
        event_at(s) matches Err(f) ==> f.offset < s.len(),
{
    reveal_strlit("]");
    if !body_ends(s) {
        let t = if s[0] == '\n' {
            s.skip(1)
        } else {
            s
        };
        lemma_first_occurrence_bound(t.skip(1), "]"@);
        lemma_pause_run_bound(t);
    }
}

/// Reading events never yields more text than there was, and a fault lies
/// within the text.
pub proof fn lemma_events_within(s: Seq<char>)
    ensures
        events_of(s) matches Ok((rest, _)) ==> rest.len() <= s.len(),
        events_of(s) matches Err(f) ==> f.offset < s.len(),
    decreases s.len(),
{
    lemma_event_consumes(s);
    if let Ok(Some((rest, _))) = event_at(s) {
        lemma_events_within(rest);
    }
}

/// A node takes at least one character, and a fault in it lies within the
/// text.
pub proof fn lemma_node_consumes(s: Seq<char>)
    ensures
        node_at(s) matches Ok(Some((rest, _))) ==> rest.len() < s.len(),
        node_at(s) matches Err(f) ==> f.offset <= s.len(),
{
    reveal_strlit(":");
    let t = after_blanks(s);
    lemma_blank_run_bound(s);
    lemma_first_occurrence_bound(t, ":"@);
    if let Some(k) = first_occurrence(t, ":"@) {
        let after = t.skip(k as int + 1);
        lemma_blank_run_bound(after);
        let body = after_blanks(after);
        lemma_events_within(body);
        if let Ok((rest, _)) = events_of(body) {
            lemma_blank_run_bound(rest);
        }
    }
}

/// Reading nodes never yields more text than there was, and it stops only
/// where no node stands: at the end of the text or before a branch header,
/// blanks apart.
pub proof fn lemma_nodes_stop(s: Seq<char>)
    ensures
        nodes_of(s) matches Ok((rest, _)) ==> {
            &&& rest.len() <= s.len()
            &&& after_blanks(rest).len() == 0 || opens_header(after_blanks(rest))
        },
        nodes_of(s) matches Err(f) ==> f.offset <= s.len(),
    decreases s.len(),
{
    lemma_node_consumes(s);
    if let Ok(Some((rest, _))) = node_at(s) {
        lemma_nodes_stop(rest);
    }
}

/// A branch takes at least one character, and after it the text ends or
/// another branch header stands.
pub proof fn lemma_branch_consumes(s: Seq<char>)
    ensures
        branch_at(s) matches Ok(Some((rest, _))) ==> {
            &&& rest.len() < s.len()
            &&& rest.len() == 0 || opens_header(rest)
        },
        branch_at(s) matches Err(f) ==> f.offset <= s.len(),
{
    reveal_strlit("--- ");
    reveal_strlit(" ---");
    let (t, _) = entry_mark(s);
    if "--- "@.is_prefix_of(t) {
        lemma_first_occurrence_bound(t.skip(4), " ---"@);
        if let Some((u, _)) = header_name(t) {
            lemma_nodes_stop(u);
            if let Ok((rest, _)) = nodes_of(u) {
                lemma_blank_run_bound(rest);
            }
        }
    }
}

/// Once a branch header has opened the text, reading branches succeeds only
/// by reading all of it.
pub proof fn lemma_branches_read_all(s: Seq<char>)
    requires
        s.len() == 0 || opens_header(s),
    ensures
        branches_of(s) matches Ok((rest, _)) ==> rest.len() == 0,
        branches_of(s) matches Err(f) ==> f.offset <= s.len(),
    decreases s.len(),
{
    reveal_strlit("--- ");
    lemma_branch_consumes(s);
    if let Ok(Some((rest, _))) = branch_at(s) {
        lemma_branches_read_all(rest);
    }
}

/// Nothing of a script is left unread: where the text yields any branch, the
/// branches are read up to its end.
pub proof fn lemma_script_is_read_whole(s: Seq<char>)
    ensures
        branches_of(s) matches Ok((rest, branches)) ==> branches.len() == 0 || rest.len() == 0,
{
    if opens_header(s) {
        lemma_branches_read_all(s);
    }
}

} // verus!
