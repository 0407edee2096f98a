use besida::parser::{
    action_event, branch, branch_name, branches, dialogue_name, dialogue_node, dialogue_nodes,
    entry_branch_tag, event, events, pause_event, print_char_event,
};
use besida::{DialogueNode, Event, SyntaxError, SyntaxErrorKind};

fn printed(text: &str) -> Vec<Event> {
    text.chars().map(Event::PrintChar).collect()
}

#[test]
fn entry_branch_tag_parsing() {
    let input = "!";
    let expected = true;
    let (input, output) = entry_branch_tag(input);
    assert_eq!(input, "");
    assert_eq!(output, expected);
}

#[test]
fn entry_branch_tag_is_optional() {
    assert_eq!(entry_branch_tag("--- A ---"), ("--- A ---", false));
    assert_eq!(entry_branch_tag("!--- A ---"), ("--- A ---", true));
    assert_eq!(entry_branch_tag(""), ("", false));
}

#[test]
fn branch_name_parsing() {
    let input = "--- Name ---";
    let expected = "Name".to_string();
    let (input, output) = branch_name(input).unwrap();
    assert_eq!(input, "");
    assert_eq!(output, expected);
}

#[test]
fn branch_name_stops_at_first_closing() {
    assert_eq!(branch_name("--- A --- B ---\nrest"), Some((" B ---\nrest", "A".to_string())));
    assert_eq!(branch_name("---  ---"), Some(("", "".to_string())));
    assert_eq!(branch_name("--- Long name here ---\nYou: hi"), Some(("\nYou: hi", "Long name here".to_string())));
}

#[test]
fn branch_name_rejects_what_is_no_header() {
    assert_eq!(branch_name("-- Name ---"), None);
    assert_eq!(branch_name("--- Name"), None);
    assert_eq!(branch_name("--- Name --"), None);
    assert_eq!(branch_name("--- Name\n ---"), None);
    assert_eq!(branch_name(""), None);
}

#[test]
fn print_char_event_parsing() {
    let input = ".";
    let expected = Event::PrintChar('.');
    let (input, output) = print_char_event(input).unwrap();
    assert_eq!(input, "");
    assert_eq!(output, expected);
}

#[test]
fn print_char_event_takes_any_plain_character() {
    assert_eq!(print_char_event("ab"), Some(("b", Event::PrintChar('a'))));
    assert_eq!(print_char_event(" x"), Some(("x", Event::PrintChar(' '))));
    assert_eq!(print_char_event("]x"), Some(("x", Event::PrintChar(']'))));
    assert_eq!(print_char_event("-x"), Some(("x", Event::PrintChar('-'))));
    assert_eq!(print_char_event("\u{e9}t\u{e9}"), Some(("t\u{e9}", Event::PrintChar('\u{e9}'))));
    assert_eq!(print_char_event("[x]"), None);
    assert_eq!(print_char_event("_"), None);
    assert_eq!(print_char_event("\nx"), None);
    assert_eq!(print_char_event(""), None);
}

#[test]
fn pause_event_parsing() {
    let input = "___";
    let expected = Event::Pause(3);
    let (input, output) = pause_event(input).unwrap();
    assert_eq!(input, "");
    assert_eq!(output, expected);
}

#[test]
fn pause_event_counts_every_marker() {
    assert_eq!(pause_event("_"), Some(("", Event::Pause(1))));
    assert_eq!(pause_event("__a__"), Some(("a__", Event::Pause(2))));
    assert_eq!(pause_event("a_"), None);
    assert_eq!(pause_event(""), None);
}

#[test]
fn action_event_parsing() {
    let input = "[action_name]";
    let expected = Event::Action("action_name".to_string());
    let (input, output) = action_event(input).unwrap();
    assert_eq!(input, "");
    assert_eq!(output, expected);
}

#[test]
fn action_event_edge_cases() {
    assert_eq!(action_event("[]x"), Some(("x", Event::Action("".to_string()))));
    assert_eq!(action_event("[a[b]c]"), Some(("c]", Event::Action("a[b".to_string()))));
    assert_eq!(action_event("[two words]"), Some(("", Event::Action("two words".to_string()))));
    assert_eq!(action_event("[open"), None);
    assert_eq!(action_event("x[a]"), None);
    assert_eq!(action_event(""), None);
}

#[test]
fn event_skips_one_line_break() {
    assert_eq!(event("\nab"), Ok(Some(("b", Event::PrintChar('a')))));
    assert_eq!(event("\n__x"), Ok(Some(("x", Event::Pause(2)))));
    assert_eq!(event("\n[go]x"), Ok(Some(("x", Event::Action("go".to_string())))));
}

#[test]
fn event_ends_with_the_body() {
    assert_eq!(event(""), Ok(None));
    assert_eq!(event("\n"), Ok(None));
    assert_eq!(event("\n\nYou: hi"), Ok(None));
    assert_eq!(event("\n--- B ---"), Ok(None));
    assert_eq!(event("\n!--- B ---"), Ok(None));
    assert_eq!(event("\n-- B"), Ok(Some(("- B", Event::PrintChar('-')))));
    assert_eq!(event("\n!"), Ok(Some(("", Event::PrintChar('!')))));
}

#[test]
fn event_reports_open_action() {
    let at_start = SyntaxError { kind: SyntaxErrorKind::UnterminatedAction, offset: 0 };
    let after_break = SyntaxError { kind: SyntaxErrorKind::UnterminatedAction, offset: 1 };
    assert_eq!(event("[open"), Err(at_start));
    assert_eq!(event("\n[open"), Err(after_break));
}

#[test]
fn events_parsing() {
    let input = "Oh...___[surprised]";
    let expected = vec![
        Event::PrintChar('O'),
        Event::PrintChar('h'),
        Event::PrintChar('.'),
        Event::PrintChar('.'),
        Event::PrintChar('.'),
        Event::Pause(3),
        Event::Action("surprised".to_string()),
    ];
    let (input, output) = events(input).unwrap();
    assert_eq!(input, "");
    assert_eq!(output, expected);
}

#[test]
fn events_of_text_with_pause_and_action() {
    let expected = vec![
        Event::PrintChar('3'),
        Event::PrintChar(' '),
        Event::PrintChar('P'),
        Event::PrintChar('a'),
        Event::PrintChar('u'),
        Event::PrintChar('s'),
        Event::PrintChar('e'),
        Event::Pause(3),
        Event::Action("action".to_string()),
    ];
    assert_eq!(events("3 Pause___[action]"), Ok(("", expected)));
}

#[test]
fn events_pause_run_stops_at_first_other_character() {
    assert_eq!(events("___!"), Ok(("", vec![Event::Pause(3), Event::PrintChar('!')])));
}

#[test]
fn events_pause_runs_are_not_merged() {
    let expected = vec![Event::Pause(2), Event::PrintChar('a'), Event::Pause(1)];
    assert_eq!(events("__a_"), Ok(("", expected)));
}

#[test]
fn events_unterminated_action_fails() {
    let error = SyntaxError { kind: SyntaxErrorKind::UnterminatedAction, offset: 0 };
    assert_eq!(events("[open"), Err(error));
    let later = SyntaxError { kind: SyntaxErrorKind::UnterminatedAction, offset: 6 };
    assert_eq!(events("Hi[a]\n[open and no more"), Err(later));
}

#[test]
fn events_empty_and_nested_actions() {
    assert_eq!(events("[]"), Ok(("", vec![Event::Action("".to_string())])));
    let expected = vec![Event::Action("a[b".to_string()), Event::PrintChar('c'), Event::PrintChar(']')];
    assert_eq!(events("[a[b]c]"), Ok(("", expected)));
}

#[test]
fn events_keep_blanks_within_the_line() {
    assert_eq!(events(" a\tb "), Ok(("", printed(" a\tb "))));
    assert_eq!(events(""), Ok(("", vec![])));
}

#[test]
fn events_join_lines_and_stop_at_blank_line() {
    assert_eq!(events("ab\ncd\n\nMan: x"), Ok(("\n\nMan: x", printed("abcd"))));
    assert_eq!(events("ab\n--- B ---\n"), Ok(("\n--- B ---\n", printed("ab"))));
    assert_eq!(events("ab\n"), Ok(("\n", printed("ab"))));
}

#[test]
fn node_parsing_reads_speaker_and_body() {
    let (rest, node) = dialogue_node("  You:  Hi__[wave]\n\nMan: x").unwrap().unwrap();
    assert_eq!(rest, "Man: x");
    assert_eq!(node.speaker(), "You");
    assert_eq!(node.speech(), "Hi");
    let expected = vec![
        Event::PrintChar('H'),
        Event::PrintChar('i'),
        Event::Pause(2),
        Event::Action("wave".to_string()),
    ];
    assert_eq!(node.events(), &expected);
    assert_eq!(node.jump_dest(), &None);
    assert_eq!(node.event_index(), 0);
}

#[test]
fn node_parsing_stops_where_no_node_stands() {
    assert_eq!(dialogue_node(""), Ok(None));
    assert_eq!(dialogue_node(" \n\t "), Ok(None));
    assert_eq!(dialogue_node("\n\n--- B ---\nYou: x"), Ok(None));
    assert_eq!(dialogue_node("!--- B ---"), Ok(None));
}

#[test]
fn node_parsing_reports_missing_separator() {
    let at_start = SyntaxError { kind: SyntaxErrorKind::MissingSeparator, offset: 0 };
    assert_eq!(dialogue_node("no separator here"), Err(at_start));
    assert_eq!(dialogue_node("no separator\n\nYou: x"), Err(at_start));
    assert_eq!(dialogue_node("first line\nYou: x"), Err(at_start));
    let after_blanks = SyntaxError { kind: SyntaxErrorKind::MissingSeparator, offset: 3 };
    assert_eq!(dialogue_node("\n\n oops"), Err(after_blanks));
}

#[test]
fn node_parsing_locates_open_action() {
    let error = SyntaxError { kind: SyntaxErrorKind::UnterminatedAction, offset: 7 };
    assert_eq!(dialogue_node("You: Hi[open"), Err(error));
}

#[test]
fn nodes_parsing() {
    let input = "You:\nHey.\n\nMan:\nHey.";
    let expected = vec![
        DialogueNode::new(
            "You".to_string(),
            vec![
                Event::PrintChar('H'),
                Event::PrintChar('e'),
                Event::PrintChar('y'),
                Event::PrintChar('.'),
            ],
            None,
        ),
        DialogueNode::new(
            "Man".to_string(),
            vec![
                Event::PrintChar('H'),
                Event::PrintChar('e'),
                Event::PrintChar('y'),
                Event::PrintChar('.'),
            ],
            None,
        ),
    ];
    let (input, output) = dialogue_nodes(input).unwrap();
    assert_eq!(input, "");
    assert_eq!(output, expected);
    assert_eq!(output[0].speaker(), "You");
    assert_eq!(output[0].speech(), "Hey.");
    assert_eq!(output[1].speaker(), "Man");
    assert_eq!(output[1].speech(), "Hey.");
}

#[test]
fn nodes_parsing_stops_before_header() {
    let (rest, nodes) = dialogue_nodes("You: a\n\nMan: b\n--- B ---\nYou: c").unwrap();
    assert_eq!(rest, "--- B ---\nYou: c");
    assert_eq!(nodes.len(), 2);
    assert_eq!(nodes[1].speech(), "b");
}

#[test]
fn nodes_parsing_locates_fault_in_later_node() {
    let error = SyntaxError { kind: SyntaxErrorKind::MissingSeparator, offset: 8 };
    assert_eq!(dialogue_nodes("You: a\n\noops"), Err(error));
}

#[test]
fn branch_parsing() {
    let (rest, parsed) = branch("!--- Intro ---\nYou: Hi\n\nMan: Yo\n\n--- Next ---\n").unwrap().unwrap();
    assert_eq!(rest, "--- Next ---\n");
    assert_eq!(parsed.name(), "Intro");
    assert!(parsed.is_entry());
    assert_eq!(parsed.nodes().len(), 2);
    assert_eq!(parsed.nodes()[0].speaker(), "You");
    assert_eq!(parsed.nodes()[0].speech(), "Hi");
    assert_eq!(parsed.nodes()[1].speaker(), "Man");
    assert_eq!(parsed.nodes()[1].speech(), "Yo");
}

#[test]
fn branch_parsing_without_nodes() {
    let (rest, parsed) = branch("--- Empty ---").unwrap().unwrap();
    assert_eq!(rest, "");
    assert_eq!(parsed.name(), "Empty");
    assert!(!parsed.is_entry());
    assert!(parsed.nodes().is_empty());
}

#[test]
fn branch_parsing_needs_a_header() {
    assert_eq!(branch(""), Ok(None));
    assert_eq!(branch("You: hi"), Ok(None));
    assert_eq!(branch("!You: hi"), Ok(None));
    assert_eq!(branch("\n--- A ---"), Ok(None));
}

#[test]
fn branch_parsing_reports_malformed_header() {
    let error = SyntaxError { kind: SyntaxErrorKind::MalformedHeader, offset: 0 };
    assert_eq!(branch("--- A\nYou: hi"), Err(error));
    assert_eq!(branch("--- A --"), Err(error));
    assert_eq!(branch("!--- A --- trailing\nYou: hi"), Err(error));
    assert_eq!(branch("--- A\nB ---\n"), Err(error));
}

#[test]
fn branch_parsing_locates_fault_in_node() {
    let error = SyntaxError { kind: SyntaxErrorKind::UnterminatedAction, offset: 16 };
    assert_eq!(branch("!--- A ---\nYou: [open"), Err(error));
    let error = SyntaxError { kind: SyntaxErrorKind::MissingSeparator, offset: 10 };
    assert_eq!(branch("--- A ---\noops"), Err(error));
}

#[test]
fn branches_parsing_reads_to_the_end() {
    let (rest, list) = branches("--- A ---\nYou: a\n\n!--- B ---\n\n--- C ---\nMan: c\n").unwrap();
    assert_eq!(rest, "");
    assert_eq!(list.len(), 3);
    assert_eq!(list[0].name(), "A");
    assert_eq!(list[1].name(), "B");
    assert_eq!(list[2].name(), "C");
    assert!(list[1].is_entry());
    assert!(list[1].nodes().is_empty());
    assert_eq!(list[2].nodes()[0].speech(), "c");
}

#[test]
fn branches_parsing_without_header_reads_nothing() {
    assert_eq!(branches("You: hi\n"), Ok(("You: hi\n", vec![])));
    assert_eq!(branches(""), Ok(("", vec![])));
}

#[test]
fn branches_parsing_locates_fault_in_later_branch() {
    let error = SyntaxError { kind: SyntaxErrorKind::MalformedHeader, offset: 18 };
    assert_eq!(branches("--- A ---\nYou: a\n\n--- B\n"), Err(error));
}

#[test]
fn dialogue_name_parsing() {
    let name = dialogue_name("# Intro Dialogue     ")
        .unwrap()
        .0
        .trim_end()
        .to_lowercase()
        .replace(' ', "_");

    assert_eq!("intro_dialogue", name);
}

#[test]
fn dialogue_name_needs_the_mark() {
    assert_eq!(dialogue_name(" \n#\t Title"), Some(("Title", "\t ")));
    assert_eq!(dialogue_name("#Title"), Some(("Title", "")));
    assert_eq!(dialogue_name("Title"), None);
    assert_eq!(dialogue_name(""), None);
}
