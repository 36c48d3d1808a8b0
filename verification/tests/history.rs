use zex::history::History;

fn s(p: &str) -> String {
    p.to_string()
}

#[test]
fn starts_at_the_initial_path_with_no_back_or_forward() {
    let history = History::new(s("/home"));

    assert_eq!(history.current(), "/home");
    assert!(!history.can_go_back());
    assert!(!history.can_go_forward());
}

#[test]
fn navigate_to_the_same_path_is_a_no_op() {
    let mut history = History::new(s("/a"));

    assert!(!history.navigate(s("/a")));
    assert!(!history.can_go_back());
}

#[test]
fn back_and_forward_move_the_cursor() {
    let mut history = History::new(s("/a"));
    history.navigate(s("/b"));
    history.navigate(s("/c"));

    assert!(history.back());
    assert_eq!(history.current(), "/b");
    assert!(history.can_go_forward());

    assert!(history.back());
    assert_eq!(history.current(), "/a");
    assert!(!history.can_go_back());

    assert!(history.forward());
    assert_eq!(history.current(), "/b");

    assert!(history.forward());
    assert_eq!(history.current(), "/c");
    assert!(!history.can_go_forward());
}

#[test]
fn back_at_the_start_and_forward_at_the_end_are_no_ops() {
    let mut history = History::new(s("/a"));

    assert!(!history.back());
    assert_eq!(history.current(), "/a");
    assert!(!history.forward());
    assert_eq!(history.current(), "/a");
}

#[test]
fn navigating_from_a_rewound_cursor_discards_forward_history() {
    let mut history = History::new(s("/a"));
    history.navigate(s("/b"));
    history.navigate(s("/c"));
    history.back();
    history.back();
    assert_eq!(history.current(), "/a");

    history.navigate(s("/d"));

    assert_eq!(history.current(), "/d");
    assert!(!history.can_go_forward());
    assert!(history.back());
    assert_eq!(history.current(), "/a");
}

#[test]
fn back_and_forward_entries_list_the_rest_of_the_stack() {
    let mut history = History::new(s("/a"));
    history.navigate(s("/b"));
    history.navigate(s("/c"));
    history.back();

    let back = history.back_entries();
    assert_eq!(back, vec![(0, s("/a"))]);

    let forward = history.forward_entries();
    assert_eq!(forward, vec![(2, s("/c"))]);
}

#[test]
fn jump_to_moves_directly_to_an_index() {
    let mut history = History::new(s("/a"));
    history.navigate(s("/b"));
    history.navigate(s("/c"));

    assert!(history.jump_to(0));
    assert_eq!(history.current(), "/a");
    assert!(history.can_go_forward());

    assert!(!history.jump_to(0));
    assert!(!history.jump_to(10));
}

#[test]
fn back_then_forward_returns_to_the_same_place() {
    let mut history = History::new(s("/a"));
    history.navigate(s("/b"));
    assert!(history.back());
    assert!(history.forward());
    assert_eq!(history.current(), "/b");
    assert!(!history.can_go_forward());
}

#[test]
fn navigate_then_back_returns_to_the_previous_place() {
    let mut history = History::new(s("/x"));
    assert!(history.navigate(s("/y")));
    assert!(history.back());
    assert_eq!(history.current(), "/x");
}

#[test]
fn the_same_folder_written_differently_is_not_visited_again() {
    let mut history = History::new(s("/home/u/docs"));
    assert!(!history.navigate(s("/home/u/docs/")));
    assert!(!history.navigate(s("/home//u/docs")));
    assert!(!history.can_go_back());
    assert_eq!(history.current(), "/home/u/docs");
    assert!(history.navigate(s("/home/u")));
    assert!(history.can_go_back());
}
