//! The harvested records, their mathematical views, and equality by content.

use vstd::prelude::*;

verus! {

/// A record that can be compared by content.
pub trait Record: View + Sized {
    /// Whether two records have the same content.
    fn same(&self, other: &Self) -> (b: bool)
        ensures
            b == (self@ == other@),
    ;
}

/// Content equality of two optional strings.
pub fn same_optional_text(a: &Option<String>, b: &Option<String>) -> (r: bool)
    ensures
        r == (optional_text_view(*a) == optional_text_view(*b)),
{
    match (a, b) {
        (None, None) => true,
        (Some(x), Some(y)) => {
            let r: bool = *x == *y;
            r
        },
        _ => false,
    }
}

/// Equality of two optional identifiers.
pub fn same_optional_id(a: &Option<i32>, b: &Option<i32>) -> (r: bool)
    ensures
        r == (optional_id_view(*a) == optional_id_view(*b)),
{
    match (a, b) {
        (None, None) => true,
        (Some(x), Some(y)) => *x == *y,
        _ => false,
    }
}

/// The characters of an optional string.
pub open spec fn optional_text_view(text: Option<String>) -> Option<Seq<char>> {
    match text {
        Some(s) => Some(s@),
        None => None,
    }
}

/// An optional identifier as a mathematical integer.
pub open spec fn optional_id_view(id: Option<i32>) -> Option<int> {
    match id {
        Some(i) => Some(i as int),
        None => None,
    }
}

/// A repository as the remote listing describes it.
#[derive(Debug, Clone, PartialEq, Eq, Hash)]
pub struct Repository {
    pub id: i32,
    pub name: String,
    pub forks_url: String,
    pub stargazers_url: String,
    pub commits_url: String,
    pub issues_url: String,
}

/// The content of a [`Repository`].
pub struct RepositoryView {
    pub id: int,
    pub name: Seq<char>,
    pub forks_url: Seq<char>,
    pub stargazers_url: Seq<char>,
    pub commits_url: Seq<char>,
    pub issues_url: Seq<char>,
}

impl View for Repository {
    type V = RepositoryView;

    open spec fn view(&self) -> RepositoryView {
        RepositoryView {
            id: self.id as int,
            name: self.name@,
            forks_url: self.forks_url@,
            stargazers_url: self.stargazers_url@,
            commits_url: self.commits_url@,
            issues_url: self.issues_url@,
        }
    }
}

impl Record for Repository {
    fn same(&self, other: &Self) -> (b: bool) {
        self.id == other.id && self.name == other.name && self.forks_url == other.forks_url
            && self.stargazers_url == other.stargazers_url && self.commits_url
            == other.commits_url && self.issues_url == other.issues_url
    }
}

/// An issue of a repository. The parent repository is unknown until the
/// issue is stamped with it.
#[derive(Debug, Clone, PartialEq, Eq, Hash)]
pub struct Issue {
    pub id: i32,
    pub title: String,
    pub created_at: String,
    pub repository_id: Option<i32>,
    pub comments_url: String,
    pub locked: bool,
    pub active_lock_reason: Option<String>,
    pub state: String,
}

/// The content of an [`Issue`].
pub struct IssueView {
    pub id: int,
    pub title: Seq<char>,
    pub created_at: Seq<char>,
    pub repository_id: Option<int>,
    pub comments_url: Seq<char>,
    pub locked: bool,
    pub active_lock_reason: Option<Seq<char>>,
    pub state: Seq<char>,
}

impl View for Issue {
    type V = IssueView;

    open spec fn view(&self) -> IssueView {
        IssueView {
            id: self.id as int,
            title: self.title@,
            created_at: self.created_at@,
            repository_id: optional_id_view(self.repository_id),
            comments_url: self.comments_url@,
            locked: self.locked,
            active_lock_reason: optional_text_view(self.active_lock_reason),
            state: self.state@,
        }
    }
}

impl Record for Issue {
    fn same(&self, other: &Self) -> (b: bool) {
        self.id == other.id && self.title == other.title && self.created_at == other.created_at
            && same_optional_id(&self.repository_id, &other.repository_id) && self.comments_url
            == other.comments_url && self.locked == other.locked && same_optional_text(
            &self.active_lock_reason,
            &other.active_lock_reason,
        ) && self.state == other.state
    }
}

/// A comment on an issue. The parent issue is unknown until the comment is
/// stamped with it.
#[derive(Debug, Clone, PartialEq, Eq, Hash)]
pub struct Comment {
    pub id: i32,
    pub body: String,
    pub created_at: String,
    pub issue_id: Option<i32>,
}

/// The content of a [`Comment`].
pub struct CommentView {
    pub id: int,
    pub body: Seq<char>,
    pub created_at: Seq<char>,
    pub issue_id: Option<int>,
}

impl View for Comment {
    type V = CommentView;

    open spec fn view(&self) -> CommentView {
        CommentView {
            id: self.id as int,
            body: self.body@,
            created_at: self.created_at@,
            issue_id: optional_id_view(self.issue_id),
        }
    }
}

impl Record for Comment {
    fn same(&self, other: &Self) -> (b: bool) {
        self.id == other.id && self.body == other.body && self.created_at == other.created_at
            && same_optional_id(&self.issue_id, &other.issue_id)
    }
}

/// A commit, of which only the address is kept.
#[derive(Debug, Clone, PartialEq, Eq, Hash)]
pub struct Commit {
    pub url: String,
}

/// The content of a [`Commit`].
pub struct CommitView {
    pub url: Seq<char>,
}

impl View for Commit {
    type V = CommitView;

    open spec fn view(&self) -> CommitView {
        CommitView { url: self.url@ }
    }
}

impl Record for Commit {
    fn same(&self, other: &Self) -> (b: bool) {
        self.url == other.url
    }
}

} // verus!
