//! What the terminal shows, as plain values: the table of commits, its
//! header, the line of commands, and the form that edits a commit.

use vstd::prelude::*;
use vstd::slice::slice_subrange;
use crate::structs::{Commit, CommitView};
use crate::table::{
    author_list, authors_and_contributors_names, co_author_names, contributor_index,
    contributors_of, names, names_of,
};
use crate::text::{from_chars, to_chars};

verus! {

/// The width of the terminal above which the form keeps a margin.
pub const WIDE_TERMINAL: u16 = 80;

/// The margin that the form keeps on a wide terminal.
pub const MODAL_MARGIN: u16 = 5;

/// The titles of the columns.
pub open spec fn header_titles() -> Seq<Seq<char>> {
    seq!["SHA"@, "Subject"@, "Author and co-authors"@]
}

/// The titles of the columns of the table of commits.
pub fn draw_header() -> (titles: Vec<String>)
    ensures
        titles.deep_view() == header_titles(),
{
    let mut titles: Vec<String> = Vec::new();
    titles.push("SHA".to_owned());
    titles.push("Subject".to_owned());
    titles.push("Author and co-authors".to_owned());
    titles
}

/// The row of `commit`: its short hash, its subject, its people.
pub open spec fn row_of(commit: CommitView) -> Seq<Seq<char>> {
    seq![commit.short_sha, commit.subject, author_list(commit)]
}

/// The rows of the table, one for each commit, in order.
pub open spec fn rows_of(commits: Seq<CommitView>) -> Seq<Seq<Seq<char>>> {
    commits.map_values(|commit: CommitView| row_of(commit))
}

/// The rows of the table of commits.
pub fn draw_commit_list(commit_rows: &Vec<Commit>) -> (rows: Vec<Vec<String>>)
    ensures
        rows.deep_view() == rows_of(commit_rows.deep_view()),
{
    let mut rows: Vec<Vec<String>> = Vec::new();
    let mut i: usize = 0;
    while i < commit_rows.len()
        invariant
            i <= commit_rows.len(),
            rows.len() == i,
            forall|k: int| 0 <= k < i ==> (#[trigger] rows[k]).deep_view() == row_of(commit_rows[k]@),
        decreases commit_rows.len() - i,
    {
        let commit = &commit_rows[i];
        let mut row: Vec<String> = Vec::new();
        row.push(commit.short_sha.clone());
        row.push(commit.subject.clone());
        row.push(authors_and_contributors_names(commit));
        rows.push(row);
        i += 1;
    }
    rows
}

/// One command of the line of commands: the letter that stands out, and the
/// rest of its title.
#[derive(Debug)]
pub struct MenuItem {
    pub first: String,
    pub rest: String,
}

impl View for MenuItem {
    type V = (Seq<char>, Seq<char>);

    open spec fn view(&self) -> (Seq<char>, Seq<char>) {
        (self.first@, self.rest@)
    }
}

impl DeepView for MenuItem {
    type V = (Seq<char>, Seq<char>);

    open spec fn deep_view(&self) -> (Seq<char>, Seq<char>) {
        self@
    }
}

/// The titles of the commands.
pub open spec fn menu_titles() -> Seq<Seq<char>> {
    seq!["Change author"@, "Add pair"@, "Quit"@]
}

/// A title cut after its first letter. An empty title has no first letter.
pub open spec fn menu_item(title: Seq<char>) -> (Seq<char>, Seq<char>) {
    if title.len() == 0 {
        (title, title)
    } else {
        (title.take(1), title.skip(1))
    }
}

/// Cuts `title` after its first letter.
fn cut_title(title: &str) -> (item: MenuItem)
    ensures
        item@ == menu_item(title@),
{
    let chars = to_chars(title);
    if chars.len() == 0 {
        MenuItem { first: String::new(), rest: String::new() }
    } else {
        MenuItem {
            first: from_chars(slice_subrange(chars.as_slice(), 0, 1)),
            rest: from_chars(slice_subrange(chars.as_slice(), 1, chars.len())),
        }
    }
}

/// The line of commands, each with its first letter apart.
pub fn draw_menu() -> (menu: Vec<MenuItem>)
    ensures
        menu.deep_view() == menu_titles().map_values(|title: Seq<char>| menu_item(title)),
{
    let mut menu: Vec<MenuItem> = Vec::new();
    menu.push(cut_title("Change author"));
    menu.push(cut_title("Add pair"));
    menu.push(cut_title("Quit"));
    menu
}

/// The form that edits one commit, filled with what the commit says now.
#[derive(Debug)]
pub struct Overlay {
    /// The subject of the commit.
    pub title: String,
    /// The name of the author.
    pub author: String,
    /// The names of the co-authors.
    pub co_authors: Vec<String>,
    /// The names to choose from.
    pub choices: Vec<String>,
}

/// What an [`Overlay`] is in contracts.
pub struct OverlayView {
    pub title: Seq<char>,
    pub author: Seq<char>,
    pub co_authors: Seq<Seq<char>>,
    pub choices: Seq<Seq<char>>,
}

impl View for Overlay {
    type V = OverlayView;

    open spec fn view(&self) -> OverlayView {
        OverlayView {
            title: self.title@,
            author: self.author@,
            co_authors: self.co_authors.deep_view(),
            choices: self.choices.deep_view(),
        }
    }
}

impl DeepView for Overlay {
    type V = OverlayView;

    open spec fn deep_view(&self) -> OverlayView {
        self@
    }
}

/// The form for the commit at `index`: titled with its subject, filled with
/// the names of its author and co-authors, offering everyone whom the commits
/// name.
pub open spec fn overlay_of(commits: Seq<CommitView>, index: int) -> OverlayView {
    OverlayView {
        title: commits[index].subject,
        author: commits[index].author.name,
        co_authors: names_of(commits[index].co_authors),
        choices: names_of(contributor_index(commits)),
    }
}

/// The form that edits the commit at `selected_commit_index`.
pub fn draw_manage_commit(selected_commit_index: usize, commit_rows: &Vec<Commit>) -> (overlay:
    Overlay)
    requires
        selected_commit_index < commit_rows.len(),
    ensures
        overlay@ == overlay_of(commit_rows.deep_view(), selected_commit_index as int),
{
    let commit = &commit_rows[selected_commit_index];
    Overlay {
        title: commit.subject.clone(),
        author: commit.author.name.clone(),
        co_authors: co_author_names(commit),
        choices: names(&contributors_of(commit_rows)),
    }
}

/// The margin that the form keeps on a terminal of `width` columns.
pub open spec fn margin_for(width: u16) -> u16 {
    if width > WIDE_TERMINAL {
        MODAL_MARGIN
    } else {
        0
    }
}

/// The margin that the form keeps on a terminal of `width` columns: none on a
/// narrow one.
pub fn modal_margin(width: u16) -> (margin: u16)
    ensures
        margin == margin_for(width),
{
    if width > WIDE_TERMINAL {
        MODAL_MARGIN
    } else {
        0
    }
}

} // verus!
