use besida::{ChoiceOption, DialogueNode, Event};

#[test]
fn read_curr_and_next_nodes() {
    let mut dialogue_node = DialogueNode::default();

    assert_eq!(dialogue_node.event_index(), 0);
    if let Some(event) = dialogue_node.get_event() {
        let char = match event {
            Event::PrintChar(c) => *c,
            _ => panic!("the sample node prints characters only"),
        };
        assert_eq!(char, 'H');
    }
    dialogue_node.next_event();

    assert_eq!(dialogue_node.event_index(), 1);
    if let Some(event) = dialogue_node.get_event() {
        let char = match event {
            Event::PrintChar(c) => *c,
            _ => panic!("the sample node prints characters only"),
        };
        assert_eq!(char, 'e');
    }
}

#[test]
fn default_node_says_hello() {
    let node = DialogueNode::default();
    assert_eq!(node.speaker(), "You");
    assert_eq!(node.speech(), "Hello");
    let expected = vec![
        Event::PrintChar('H'),
        Event::PrintChar('e'),
        Event::PrintChar('l'),
        Event::PrintChar('l'),
        Event::PrintChar('o'),
    ];
    assert_eq!(node.events(), &expected);
    assert_eq!(node.jump_dest(), &None);
    assert_eq!(node.event_index(), 0);
}

#[test]
fn speech_is_what_the_events_print() {
    let option = ChoiceOption::new("Leave".to_string(), None, Some("Exit".to_string()));
    let events = vec![
        Event::PrintChar('O'),
        Event::Pause(2),
        Event::PrintChar('h'),
        Event::Action("gasp".to_string()),
        Event::PrintChar('!'),
        Event::Choice(option),
    ];
    let node = DialogueNode::new("Man".to_string(), events.clone(), Some("Exit".to_string()));
    assert_eq!(node.speech(), "Oh!");
    assert_eq!(node.speaker(), "Man");
    assert_eq!(node.events(), &events);
    assert_eq!(node.jump_dest(), &Some("Exit".to_string()));

    let printed: String = node
        .events()
        .iter()
        .filter_map(|event| match event {
            Event::PrintChar(c) => Some(*c),
            _ => None,
        })
        .collect();
    assert_eq!(node.speech(), &printed);
}

#[test]
fn speech_of_node_without_printed_characters_is_empty() {
    let node = DialogueNode::new("You".to_string(), vec![Event::Pause(1)], None);
    assert_eq!(node.speech(), "");
    let node = DialogueNode::new("You".to_string(), vec![], None);
    assert_eq!(node.speech(), "");
    assert_eq!(node.get_event(), None);
}

#[test]
fn node_position_moves_and_seeks() {
    let mut node = DialogueNode::default();
    node.set_event_index(4);
    assert_eq!(node.event_index(), 4);
    assert_eq!(node.get_event(), Some(&Event::PrintChar('o')));
    node.next_event();
    assert_eq!(node.event_index(), 5);
    assert_eq!(node.get_event(), None);
    node.prev_event();
    node.prev_event();
    assert_eq!(node.event_index(), 3);
    assert_eq!(node.get_event(), Some(&Event::PrintChar('l')));
    node.set_event_index(100);
    assert_eq!(node.get_event(), None);
    assert_eq!(node.speech(), "Hello");
}

#[test]
fn clones_are_equal() {
    let option = ChoiceOption::new("Stay".to_string(), Some("sit".to_string()), None);
    let event = Event::Choice(option.clone());
    assert_eq!(event.clone(), event);
    assert_eq!(option.text, "Stay");
    assert_eq!(option.action, Some("sit".to_string()));
    assert_eq!(option.jump_dest, None);
    let mut node = DialogueNode::new("You".to_string(), vec![event, Event::PrintChar('x')], None);
    node.next_event();
    let copy = node.clone();
    assert_eq!(copy, node);
    assert_eq!(copy.event_index(), 1);
}
