use pairswitch::error::Error;
use pairswitch::interaction::{
    command_for, resolve, Action, Choice, Command, Event, InteractionState, Key, Session,
};
use pairswitch::stateful_table::Move;
use pairswitch::structs::{Commit, Contributor};

fn person(name: &str, email: &str) -> Contributor {
    Contributor { name: name.to_string(), email: email.to_string() }
}

fn choice(name: &str, email: &str) -> Choice {
    Choice { name: name.to_string(), email: email.to_string() }
}

fn commits(count: usize) -> Vec<Commit> {
    (0..count)
        .map(|i| Commit {
            full_sha: format!("{:040x}", i),
            short_sha: format!("{:07x}", i),
            subject: format!("Commit {}", i),
            author: person(&format!("Author {}", i % 2), &format!("a{}@x.com", i % 2)),
            committer: person("Al", "al@x.com"),
            co_authors: vec![person("Bo", "bo@x.com")],
        })
        .collect()
}

fn is_nothing(action: &Action) -> bool {
    matches!(action, Action::Nothing)
}

#[test]
fn session_starts_browsing() {
    let session = Session::new(commits(3));
    assert_eq!(session.state(), InteractionState::Browsing);
    assert_eq!(session.table().selected(), Some(0));
    let empty = Session::new(vec![]);
    assert_eq!(empty.state(), InteractionState::Browsing);
    assert_eq!(empty.table().selected(), None);
}

#[test]
fn keys_while_browsing() {
    let browsing = InteractionState::Browsing;
    assert_eq!(command_for(browsing, Key::Char('q')), Some(Command::Quit));
    assert_eq!(command_for(browsing, Key::Esc), Some(Command::Quit));
    assert_eq!(command_for(browsing, Key::Char('a')), Some(Command::Activate));
    assert_eq!(command_for(browsing, Key::Down), Some(Command::Go(Move::Next)));
    assert_eq!(command_for(browsing, Key::Up), Some(Command::Go(Move::Previous)));
    assert_eq!(command_for(browsing, Key::PageUp), Some(Command::Go(Move::First)));
    assert_eq!(command_for(browsing, Key::PageDown), Some(Command::Go(Move::Last)));
    assert_eq!(command_for(browsing, Key::Enter), None);
    assert_eq!(command_for(browsing, Key::Other), None);
    assert_eq!(command_for(browsing, Key::Char('Q')), None);
    assert_eq!(command_for(browsing, Key::Char('x')), None);
}

#[test]
fn keys_while_editing() {
    let editing = InteractionState::EditingCommit(1);
    assert_eq!(command_for(editing, Key::Esc), Some(Command::Cancel));
    assert_eq!(command_for(editing, Key::Enter), Some(Command::Confirm));
    for key in [
        Key::Char('q'),
        Key::Char('a'),
        Key::Up,
        Key::Down,
        Key::PageUp,
        Key::PageDown,
        Key::Other,
    ] {
        assert_eq!(command_for(editing, key), None);
    }
}

#[test]
fn quit_keys_end_the_program_while_browsing() {
    for key in [Key::Char('q'), Key::Esc] {
        let mut session = Session::new(commits(3));
        assert!(matches!(session.step(Event::Input(key)), Action::Quit));
        assert_eq!(session.state(), InteractionState::Browsing);
        assert_eq!(session.table().selected(), Some(0));
    }
}

#[test]
fn navigation_moves_the_cursor_and_stays_browsing() {
    let mut session = Session::new(commits(3));
    assert!(is_nothing(&session.step(Event::Input(Key::Down))));
    assert_eq!(session.table().selected(), Some(1));
    assert!(is_nothing(&session.step(Event::Input(Key::PageDown))));
    assert_eq!(session.table().selected(), Some(2));
    assert!(is_nothing(&session.step(Event::Input(Key::Down))));
    assert_eq!(session.table().selected(), Some(0));
    assert!(is_nothing(&session.step(Event::Input(Key::Up))));
    assert_eq!(session.table().selected(), Some(2));
    assert!(is_nothing(&session.step(Event::Input(Key::PageUp))));
    assert_eq!(session.table().selected(), Some(0));
    assert_eq!(session.state(), InteractionState::Browsing);
}

#[test]
fn activate_does_nothing_on_an_empty_table() {
    let mut session = Session::new(vec![]);
    assert!(is_nothing(&session.step(Event::Input(Key::Char('a')))));
    assert_eq!(session.state(), InteractionState::Browsing);
    assert_eq!(session.table().selected(), None);
}

#[test]
fn activate_opens_the_form_on_the_selected_commit() {
    let mut session = Session::new(commits(4));
    session.step(Event::Input(Key::Down));
    assert!(is_nothing(&session.step(Event::Input(Key::Char('a')))));
    assert_eq!(session.state(), InteractionState::EditingCommit(1));
    assert_eq!(session.table().selected(), Some(1));
}

#[test]
fn activate_on_the_third_commit_then_cancel() {
    let mut session = Session::new(commits(5));
    session.step(Event::Input(Key::Down));
    session.step(Event::Input(Key::Down));
    session.step(Event::Input(Key::Char('a')));
    assert_eq!(session.state(), InteractionState::EditingCommit(2));
    assert!(is_nothing(&session.step(Event::Input(Key::Esc))));
    assert_eq!(session.state(), InteractionState::Browsing);
    assert_eq!(session.table().selected(), Some(2));
}

#[test]
fn keys_of_the_table_mean_nothing_in_the_form() {
    let mut session = Session::new(commits(3));
    session.step(Event::Input(Key::Down));
    session.step(Event::Input(Key::Char('a')));
    for key in [Key::Down, Key::Up, Key::PageUp, Key::PageDown, Key::Char('q'), Key::Char('a'), Key::Other] {
        assert!(is_nothing(&session.step(Event::Input(key))));
        assert_eq!(session.state(), InteractionState::EditingCommit(1));
        assert_eq!(session.table().selected(), Some(1));
    }
}

#[test]
fn enter_in_the_form_asks_for_its_choice() {
    let mut session = Session::new(commits(3));
    session.step(Event::Input(Key::Down));
    session.step(Event::Input(Key::Char('a')));
    assert!(matches!(session.step(Event::Input(Key::Enter)), Action::Submit));
    assert_eq!(session.state(), InteractionState::EditingCommit(1));
    assert_eq!(session.table().selected(), Some(1));
}

#[test]
fn enter_means_nothing_while_browsing() {
    let mut session = Session::new(commits(3));
    assert!(is_nothing(&session.step(Event::Input(Key::Enter))));
    assert_eq!(session.state(), InteractionState::Browsing);
}

#[test]
fn tick_changes_nothing() {
    let mut session = Session::new(commits(3));
    assert!(is_nothing(&session.step(Event::Tick)));
    assert_eq!(session.state(), InteractionState::Browsing);
    assert_eq!(session.table().selected(), Some(0));
    session.step(Event::Input(Key::Char('a')));
    assert!(is_nothing(&session.step(Event::Tick)));
    assert_eq!(session.state(), InteractionState::EditingCommit(0));
}

#[test]
fn confirm_asks_to_write_the_person_from_the_index() {
    let mut session = Session::new(commits(3));
    session.step(Event::Input(Key::Char('a')));
    match session.step(Event::Confirm(choice("Bo", "ignored@x.com"))) {
        Action::Write(who) => assert_eq!(who, person("Bo", "bo@x.com")),
        other => panic!("{:?}", other),
    }
    assert_eq!(session.state(), InteractionState::EditingCommit(0));
}

#[test]
fn confirm_falls_back_to_what_was_typed() {
    let mut session = Session::new(commits(3));
    session.step(Event::Input(Key::Char('a')));
    match session.step(Event::Confirm(choice("Zed", "zed@x.com"))) {
        Action::Write(who) => assert_eq!(who, person("Zed", "zed@x.com")),
        other => panic!("{:?}", other),
    }
}

#[test]
fn committers_cannot_be_chosen_from_the_index() {
    let mut session = Session::new(commits(3));
    session.step(Event::Input(Key::Char('a')));
    match session.step(Event::Confirm(choice("Al", "other@x.com"))) {
        Action::Write(who) => assert_eq!(who, person("Al", "other@x.com")),
        other => panic!("{:?}", other),
    }
}

#[test]
fn confirm_means_nothing_while_browsing() {
    let mut session = Session::new(commits(3));
    assert!(is_nothing(&session.step(Event::Confirm(choice("Bo", "")))));
    assert_eq!(session.state(), InteractionState::Browsing);
}

#[test]
fn written_configuration_closes_the_form() {
    let mut session = Session::new(commits(3));
    session.step(Event::Input(Key::PageDown));
    session.step(Event::Input(Key::Char('a')));
    session.step(Event::Confirm(choice("Bo", "")));
    assert!(is_nothing(&session.step(Event::Written(Ok(())))));
    assert_eq!(session.state(), InteractionState::Browsing);
    assert_eq!(session.table().selected(), Some(2));
}

#[test]
fn existing_configuration_is_reported_and_the_form_stays() {
    let mut session = Session::new(commits(3));
    session.step(Event::Input(Key::Down));
    session.step(Event::Input(Key::Char('a')));
    session.step(Event::Confirm(choice("Bo", "")));
    match session.step(Event::Written(Err(Error::ConfigAlreadyExists))) {
        Action::Report(error) => assert_eq!(error, Error::ConfigAlreadyExists),
        other => panic!("{:?}", other),
    }
    assert_eq!(session.state(), InteractionState::EditingCommit(1));
    assert_eq!(session.table().selected(), Some(1));
    assert!(is_nothing(&session.step(Event::Input(Key::Esc))));
    assert_eq!(session.state(), InteractionState::Browsing);
}

#[test]
fn failed_write_is_reported_and_can_be_tried_again() {
    let mut session = Session::new(commits(3));
    session.step(Event::Input(Key::Char('a')));
    session.step(Event::Confirm(choice("Bo", "")));
    match session.step(Event::Written(Err(Error::ConfigWriteFailure))) {
        Action::Report(error) => assert_eq!(error, Error::ConfigWriteFailure),
        other => panic!("{:?}", other),
    }
    assert_eq!(session.state(), InteractionState::EditingCommit(0));
    assert!(matches!(session.step(Event::Confirm(choice("Bo", ""))), Action::Write(_)));
    session.step(Event::Written(Ok(())));
    assert_eq!(session.state(), InteractionState::Browsing);
}

#[test]
fn failure_is_reported_while_browsing_too() {
    let mut session = Session::new(commits(1));
    assert!(matches!(
        session.step(Event::Written(Err(Error::ConfigWriteFailure))),
        Action::Report(Error::ConfigWriteFailure)
    ));
    assert_eq!(session.state(), InteractionState::Browsing);
}

#[test]
fn resolve_takes_the_first_with_the_name() {
    let people = vec![person("Al", "al@x.com"), person("Bo", "bo@x.com"), person("Al", "al@y.com")];
    assert_eq!(resolve(&people, &choice("Al", "")), person("Al", "al@x.com"));
    assert_eq!(resolve(&people, &choice("Bo", "new@x.com")), person("Bo", "bo@x.com"));
    assert_eq!(resolve(&people, &choice("bo", "new@x.com")), person("bo", "new@x.com"));
    assert_eq!(resolve(&vec![], &choice("Al", "al@z.com")), person("Al", "al@z.com"));
}

#[test]
fn screen_while_browsing() {
    let mut session = Session::new(commits(2));
    session.step(Event::Input(Key::Down));
    let screen = session.render(120);
    assert_eq!(screen.header, vec!["SHA", "Subject", "Author and co-authors"]);
    assert_eq!(
        screen.rows,
        vec![
            vec!["0000000".to_string(), "Commit 0".to_string(), "Author 0, Bo".to_string()],
            vec!["0000001".to_string(), "Commit 1".to_string(), "Author 1, Bo".to_string()],
        ]
    );
    assert_eq!(screen.selected, Some(1));
    assert_eq!(screen.menu.len(), 3);
    assert!(screen.overlay.is_none());
    assert_eq!(screen.margin, 5);
}

#[test]
fn screen_while_editing() {
    let mut session = Session::new(commits(3));
    session.step(Event::Input(Key::Down));
    session.step(Event::Input(Key::Char('a')));
    let screen = session.render(80);
    assert_eq!(screen.rows.len(), 3);
    assert_eq!(screen.selected, Some(1));
    assert_eq!(screen.margin, 0);
    let overlay = screen.overlay.unwrap();
    assert_eq!(overlay.title, "Commit 1");
    assert_eq!(overlay.author, "Author 1");
    assert_eq!(overlay.co_authors, vec!["Bo"]);
    assert_eq!(overlay.choices, vec!["Author 0", "Bo", "Author 1"]);
}

#[test]
fn drawing_twice_shows_the_same() {
    let mut session = Session::new(commits(3));
    session.step(Event::Input(Key::Char('a')));
    let first = format!("{:?}", session.render(100));
    let second = format!("{:?}", session.render(100));
    assert_eq!(first, second);
    assert_eq!(session.state(), InteractionState::EditingCommit(0));
}

#[test]
fn screen_of_an_empty_table() {
    let session = Session::new(vec![]);
    let screen = session.render(200);
    assert!(screen.rows.is_empty());
    assert_eq!(screen.selected, None);
    assert!(screen.overlay.is_none());
    assert_eq!(screen.header.len(), 3);
}
