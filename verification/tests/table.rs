use std::cmp::Ordering;
use pairswitch::select_pairs;
use pairswitch::sorting::compare_text;
use pairswitch::structs::{Commit, Contributor};
use pairswitch::table::{
    authors_and_contributors, authors_and_contributors_names, co_author_names, contributors,
    contributors_of, first_of_each, BasicColumn,
};

fn person(name: &str, email: &str) -> Contributor {
    Contributor { name: name.to_string(), email: email.to_string() }
}

fn commit(sha: &str, subject: &str, author: Contributor, co_authors: Vec<Contributor>) -> Commit {
    Commit {
        full_sha: format!("{}{}", sha, sha),
        short_sha: sha.to_string(),
        subject: subject.to_string(),
        author: author.clone(),
        committer: author,
        co_authors,
    }
}

#[test]
fn two_commits_of_one_author_and_one_co_author() {
    let al = person("Al", "al@x.com");
    let bo = person("Bo", "bo@x.com");
    let commits = vec![
        commit("a1", "One", al.clone(), vec![bo.clone()]),
        commit("b2", "Two", al.clone(), vec![]),
    ];
    assert_eq!(contributors(commits), vec![al, bo]);
}

#[test]
fn nobody_is_listed_twice_and_nobody_is_missing() {
    let al = person("Al", "al@x.com");
    let bo = person("Bo", "bo@x.com");
    let cy = person("Cy", "cy@x.com");
    let commits = vec![
        commit("a1", "One", bo.clone(), vec![cy.clone(), bo.clone()]),
        commit("b2", "Two", al.clone(), vec![cy.clone(), cy.clone()]),
        commit("c3", "Three", cy.clone(), vec![al.clone(), bo.clone()]),
    ];
    let people = contributors(commits);
    assert_eq!(people, vec![bo, cy, al]);
    for (i, p) in people.iter().enumerate() {
        for q in &people[i + 1..] {
            assert_ne!(p, q);
        }
    }
}

#[test]
fn committers_are_not_listed() {
    let al = person("Al", "al@x.com");
    let di = person("Di", "di@x.com");
    let mut only = commit("a1", "One", al.clone(), vec![]);
    only.committer = di;
    assert_eq!(contributors(vec![only]), vec![al]);
}

#[test]
fn same_name_with_another_address_is_another_person() {
    let one = person("Al", "al@x.com");
    let two = person("Al", "al@y.com");
    let three = person("al", "al@x.com");
    let commits = vec![commit("a1", "One", one.clone(), vec![two.clone(), three.clone(), one.clone()])];
    assert_eq!(contributors_of(&commits), vec![one, two, three]);
}

#[test]
fn name_and_address_are_not_run_together() {
    let one = person("a-b", "c");
    let two = person("a", "b-c");
    assert_eq!(first_of_each(&vec![one.clone(), two.clone(), one.clone()]), vec![one, two]);
}

#[test]
fn no_commits_name_nobody() {
    assert_eq!(contributors(vec![]), vec![]);
    assert_eq!(first_of_each(&vec![]), vec![]);
}

#[test]
fn people_of_a_commit_are_author_then_co_authors() {
    let al = person("Al", "al@x.com");
    let bo = person("Bo", "bo@x.com");
    let c = commit("a1", "One", al.clone(), vec![bo.clone(), al.clone()]);
    assert_eq!(authors_and_contributors(&c), vec![al.clone(), bo, al.clone()]);
    let alone = commit("b2", "Two", al.clone(), vec![]);
    assert_eq!(authors_and_contributors(&alone), vec![al]);
}

#[test]
fn names_are_joined_with_comma_and_space() {
    let al = person("Al", "al@x.com");
    let bo = person("Bo", "bo@x.com");
    let cy = person("Cy", "cy@x.com");
    assert_eq!(authors_and_contributors_names(&commit("a1", "One", al.clone(), vec![])), "Al");
    assert_eq!(
        authors_and_contributors_names(&commit("a1", "One", al.clone(), vec![bo.clone()])),
        "Al, Bo"
    );
    assert_eq!(
        authors_and_contributors_names(&commit("a1", "One", al, vec![bo, cy])),
        "Al, Bo, Cy"
    );
}

#[test]
fn co_author_names_in_order() {
    let al = person("Al", "al@x.com");
    let bo = person("Bo", "bo@x.com");
    let cy = person("Cy", "cy@x.com");
    let c = commit("a1", "One", al.clone(), vec![cy, bo]);
    assert_eq!(co_author_names(&c), vec!["Cy".to_string(), "Bo".to_string()]);
    assert!(co_author_names(&commit("a1", "One", al, vec![])).is_empty());
}

#[test]
fn commit_columns() {
    let al = person("Al", "al@x.com");
    let bo = person("Bo", "bo@x.com");
    let c = commit("a1", "One", al, vec![bo]);
    assert_eq!(c.to_column(BasicColumn::ShortSha), "a1");
    assert_eq!(c.to_column(BasicColumn::Subject), "One");
    assert_eq!(c.to_column(BasicColumn::Authors), "Al, Bo");
}

#[test]
fn person_columns() {
    let al = person("Al", "al@x.com");
    assert_eq!(al.to_column(select_pairs::BasicColumn::Name), "Al");
    assert_eq!(al.to_column(select_pairs::BasicColumn::Email), "al@x.com");
}

#[test]
fn texts_are_ordered_as_strings_are() {
    let samples = ["", "a", "ab", "abc", "abd", "b", "B", "é", "z", "‖", "」", "a‖", "aé", "😀", "a😀"];
    for left in samples {
        for right in samples {
            assert_eq!(compare_text(left, right), left.cmp(right), "{:?} {:?}", left, right);
        }
    }
    assert_eq!(compare_text("abc", "abd"), Ordering::Less);
    assert_eq!(compare_text("b", "abc"), Ordering::Greater);
    assert_eq!(compare_text("ab", "ab"), Ordering::Equal);
    assert_eq!(compare_text("ab", "abc"), Ordering::Less);
}

#[test]
fn commits_are_ordered_by_the_column() {
    let al = person("Al", "al@x.com");
    let bo = person("Bo", "bo@x.com");
    let one = commit("b1", "Alpha", al.clone(), vec![bo.clone()]);
    let two = commit("a2", "Beta", al.clone(), vec![]);
    assert_eq!(one.cmp(&two, BasicColumn::ShortSha), Ordering::Greater);
    assert_eq!(one.cmp(&two, BasicColumn::Subject), Ordering::Less);
    assert_eq!(one.cmp(&two, BasicColumn::Authors), Ordering::Greater);
    assert_eq!(one.cmp(&one, BasicColumn::Authors), Ordering::Equal);
}

#[test]
fn people_are_ordered_by_the_column() {
    let al = person("Al", "zed@x.com");
    let bo = person("Bo", "bo@x.com");
    assert_eq!(al.cmp(&bo, select_pairs::BasicColumn::Name), Ordering::Less);
    assert_eq!(al.cmp(&bo, select_pairs::BasicColumn::Email), Ordering::Greater);
    assert_eq!(al.cmp(&al, select_pairs::BasicColumn::Email), Ordering::Equal);
}
