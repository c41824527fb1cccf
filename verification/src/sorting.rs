//! Comparing texts, for the tables that can be sorted by a column.

use std::cmp::Ordering;
use vstd::prelude::*;
use crate::select_pairs;
use crate::structs::{Commit, CommitView, Contributor, ContributorView};
use crate::table;
use crate::text::{common_length, common_prefix, to_chars};

verus! {

/// How `left` stands to `right` in the order of texts. Where the two first
/// differ, the character with the smaller code point decides; where one ends
/// first, the shorter comes first.
pub open spec fn text_order(left: Seq<char>, right: Seq<char>) -> Ordering {
    let place = common_length(left, right);
    if 0 <= place < left.len() && place < right.len() {
        if left[place] < right[place] {
            Ordering::Less
        } else {
            Ordering::Greater
        }
    } else if left.len() < right.len() {
        Ordering::Less
    } else if left.len() > right.len() {
        Ordering::Greater
    } else {
        Ordering::Equal
    }
}

/// How `left` stands to `right` in the order of texts.
pub fn compare_text(left: &str, right: &str) -> (res: Ordering)
    ensures
        res == text_order(left@, right@),
{
    let left = to_chars(left);
    let right = to_chars(right);
    let place = common_prefix(left.as_slice(), right.as_slice());
    if place < left.len() && place < right.len() {
        if left[place] < right[place] {
            Ordering::Less
        } else {
            Ordering::Greater
        }
    } else if left.len() < right.len() {
        Ordering::Less
    } else if left.len() > right.len() {
        Ordering::Greater
    } else {
        Ordering::Equal
    }
}

/// How two commits stand to each other when the table is sorted by `column`:
/// as their texts in that column do.
pub open spec fn commit_order(left: CommitView, right: CommitView, column: table::BasicColumn) -> Ordering {
    text_order(table::column_text(left, column), table::column_text(right, column))
}

/// How two people stand to each other when the table is sorted by `column`:
/// as their texts in that column do.
pub open spec fn person_order(
    left: ContributorView,
    right: ContributorView,
    column: select_pairs::BasicColumn,
) -> Ordering {
    text_order(select_pairs::column_text(left, column), select_pairs::column_text(right, column))
}

impl Commit {
    /// How this commit stands to `other` when the table is sorted by `column`.
    pub fn cmp(&self, other: &Commit, column: table::BasicColumn) -> (res: Ordering)
        ensures
            res == commit_order(self@, other@, column),
    {
        match column {
            table::BasicColumn::ShortSha => compare_text(
                self.short_sha.as_str(),
                other.short_sha.as_str(),
            ),
            table::BasicColumn::Subject => compare_text(
                self.subject.as_str(),
                other.subject.as_str(),
            ),
            table::BasicColumn::Authors => compare_text(
                table::authors_and_contributors_names(self).as_str(),
                table::authors_and_contributors_names(other).as_str(),
            ),
        }
    }
}

impl Contributor {
    /// How this person stands to `other` when the table is sorted by `column`.
    pub fn cmp(&self, other: &Contributor, column: select_pairs::BasicColumn) -> (res: Ordering)
        ensures
            res == person_order(self@, other@, column),
    {
        match column {
            select_pairs::BasicColumn::Name => compare_text(
                self.name.as_str(),
                other.name.as_str(),
            ),
            select_pairs::BasicColumn::Email => compare_text(
                self.email.as_str(),
                other.email.as_str(),
            ),
        }
    }
}

} // verus!
