use imessage_export_core::multiplexer::{json_array, ConversationMultiplexer, Route};

fn s(x: &str) -> String {
    x.to_string()
}

#[test]
fn records_route_to_one_output_per_conversation() {
    let records = vec![
        (Some(1), s("a")),
        (None, s("o1")),
        (Some(2), s("b")),
        (Some(1), s("c")),
        (Some(3), s("d")),
        (None, s("o2")),
        (Some(2), s("e")),
    ];
    let m = ConversationMultiplexer::route_all(&records);
    assert_eq!(m.conversation_files() + 1, 4);
    assert_eq!(m.conversation(0), 1);
    assert_eq!(m.conversation(1), 2);
    assert_eq!(m.conversation(2), 3);
    assert_eq!(m.records(0), &vec![s("a"), s("c")]);
    assert_eq!(m.records(1), &vec![s("b"), s("e")]);
    assert_eq!(m.records(2), &vec![s("d")]);
    assert_eq!(m.orphaned(), &vec![s("o1"), s("o2")]);
}

#[test]
fn first_record_opens_output() {
    let mut m = ConversationMultiplexer::new();
    assert_eq!(m.route(Some(42), s("x")), Route::Conversation { index: 0, opened: true });
    assert_eq!(m.route(Some(42), s("y")), Route::Conversation { index: 0, opened: false });
    assert_eq!(m.route(Some(7), s("z")), Route::Conversation { index: 1, opened: true });
    assert_eq!(m.route(None, s("w")), Route::Orphaned);
    assert_eq!(m.conversation_files(), 2);
    assert_eq!(m.records(0), &vec![s("x"), s("y")]);
}

#[test]
fn only_orphans_keep_only_orphan_output() {
    let m = ConversationMultiplexer::route_all(&vec![(None, s("p")), (None, s("q"))]);
    assert_eq!(m.conversation_files(), 0);
    assert_eq!(m.orphaned(), &vec![s("p"), s("q")]);
}

#[test]
fn array_framing() {
    assert_eq!(json_array(&vec![]), "[]");
    assert_eq!(json_array(&vec![s("{\"a\":1}")]), "[{\"a\":1}]");
    assert_eq!(json_array(&vec![s("1"), s("2"), s("3")]), "[1,2,3]");
}
