use pairswitch::screen::{
    draw_commit_list, draw_header, draw_manage_commit, draw_menu, modal_margin, MODAL_MARGIN,
    WIDE_TERMINAL,
};
use pairswitch::structs::{Commit, Contributor};

fn person(name: &str, email: &str) -> Contributor {
    Contributor { name: name.to_string(), email: email.to_string() }
}

fn sample() -> Vec<Commit> {
    vec![
        Commit {
            full_sha: "aaa111".to_string(),
            short_sha: "a111".to_string(),
            subject: "Fix bug".to_string(),
            author: person("Al", "al@x.com"),
            committer: person("Al", "al@x.com"),
            co_authors: vec![person("Bo", "bo@x.com"), person("Cy", "cy@x.com")],
        },
        Commit {
            full_sha: "bbb222".to_string(),
            short_sha: "b222".to_string(),
            subject: "Add feature".to_string(),
            author: person("Di", "di@x.com"),
            committer: person("Al", "al@x.com"),
            co_authors: vec![],
        },
    ]
}

#[test]
fn header_titles() {
    assert_eq!(draw_header(), vec!["SHA", "Subject", "Author and co-authors"]);
}

#[test]
fn rows_hold_hash_subject_and_people() {
    assert_eq!(
        draw_commit_list(&sample()),
        vec![vec!["a111", "Fix bug", "Al, Bo, Cy"], vec!["b222", "Add feature", "Di"]]
    );
    assert!(draw_commit_list(&vec![]).is_empty());
}

#[test]
fn menu_sets_the_first_letters_apart() {
    let menu = draw_menu();
    let parts: Vec<(String, String)> = menu.into_iter().map(|item| (item.first, item.rest)).collect();
    assert_eq!(
        parts,
        vec![
            ("C".to_string(), "hange author".to_string()),
            ("A".to_string(), "dd pair".to_string()),
            ("Q".to_string(), "uit".to_string()),
        ]
    );
}

#[test]
fn form_is_filled_from_the_commit() {
    let commits = sample();
    let form = draw_manage_commit(0, &commits);
    assert_eq!(form.title, "Fix bug");
    assert_eq!(form.author, "Al");
    assert_eq!(form.co_authors, vec!["Bo", "Cy"]);
    assert_eq!(form.choices, vec!["Al", "Bo", "Cy", "Di"]);
    let form = draw_manage_commit(1, &commits);
    assert_eq!(form.title, "Add feature");
    assert_eq!(form.author, "Di");
    assert!(form.co_authors.is_empty());
    assert_eq!(form.choices, vec!["Al", "Bo", "Cy", "Di"]);
}

#[test]
fn margin_only_on_a_wide_terminal() {
    assert_eq!(WIDE_TERMINAL, 80);
    assert_eq!(MODAL_MARGIN, 5);
    assert_eq!(modal_margin(0), 0);
    assert_eq!(modal_margin(80), 0);
    assert_eq!(modal_margin(81), 5);
    assert_eq!(modal_margin(u16::MAX), 5);
}
