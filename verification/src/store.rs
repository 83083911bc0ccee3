//! What is handed to the store: one row per record, holding the columns of
//! its table. Rows are only ever inserted, and only where the store holds no
//! row with the same key yet.

use crate::dedup::{content_of, ItemSet};
use crate::record::{
    optional_id_view, Comment, CommentView, Issue, IssueView, Repository, RepositoryView,
};
use crate::walker::{CommentSink, IssueSink, PageOutcome};
use vstd::prelude::*;

verus! {

/// A row of the table of repositories, keyed by `id_repo`.
#[derive(Debug, Clone, PartialEq, Eq)]
pub struct RepositoryRow {
    pub id_repo: i32,
    pub name: String,
    pub forks_url: String,
    pub stars_url: String,
    pub commits_url: String,
}

/// The content of a [`RepositoryRow`].
pub struct RepositoryRowView {
    pub id_repo: int,
    pub name: Seq<char>,
    pub forks_url: Seq<char>,
    pub stars_url: Seq<char>,
    pub commits_url: Seq<char>,
}

impl View for RepositoryRow {
    type V = RepositoryRowView;

    open spec fn view(&self) -> RepositoryRowView {
        RepositoryRowView {
            id_repo: self.id_repo as int,
            name: self.name@,
            forks_url: self.forks_url@,
            stars_url: self.stars_url@,
            commits_url: self.commits_url@,
        }
    }
}

/// A row of the table of issues, keyed by `id_issue`.
#[derive(Debug, Clone, PartialEq, Eq)]
pub struct IssueRow {
    pub id_issue: i32,
    pub id_repo: Option<i32>,
    pub created_at: String,
    pub title: String,
    pub comments_url: String,
}

/// The content of an [`IssueRow`].
pub struct IssueRowView {
    pub id_issue: int,
    pub id_repo: Option<int>,
    pub created_at: Seq<char>,
    pub title: Seq<char>,
    pub comments_url: Seq<char>,
}

impl View for IssueRow {
    type V = IssueRowView;

    open spec fn view(&self) -> IssueRowView {
        IssueRowView {
            id_issue: self.id_issue as int,
            id_repo: optional_id_view(self.id_repo),
            created_at: self.created_at@,
            title: self.title@,
            comments_url: self.comments_url@,
        }
    }
}

/// A row of the table of comments, keyed by `id_comment`.
#[derive(Debug, Clone, PartialEq, Eq)]
pub struct CommentRow {
    pub id_comment: i32,
    pub id_issue: Option<i32>,
    pub created_at: String,
    pub text: String,
    pub is_toxic: bool,
}

/// The content of a [`CommentRow`].
pub struct CommentRowView {
    pub id_comment: int,
    pub id_issue: Option<int>,
    pub created_at: Seq<char>,
    pub text: Seq<char>,
    pub is_toxic: bool,
}

impl View for CommentRow {
    type V = CommentRowView;

    open spec fn view(&self) -> CommentRowView {
        CommentRowView {
            id_comment: self.id_comment as int,
            id_issue: optional_id_view(self.id_issue),
            created_at: self.created_at@,
            text: self.text@,
            is_toxic: self.is_toxic,
        }
    }
}

/// The row of a repository. Its address of stargazers goes to the column of
/// stars; its address of issues has no column.
pub open spec fn repository_row_of(repository: RepositoryView) -> RepositoryRowView {
    RepositoryRowView {
        id_repo: repository.id,
        name: repository.name,
        forks_url: repository.forks_url,
        stars_url: repository.stargazers_url,
        commits_url: repository.commits_url,
    }
}

/// The row of an issue. Its lock and its state have no column.
pub open spec fn issue_row_of(issue: IssueView) -> IssueRowView {
    IssueRowView {
        id_issue: issue.id,
        id_repo: issue.repository_id,
        created_at: issue.created_at,
        title: issue.title,
        comments_url: issue.comments_url,
    }
}

/// The row of a comment. A comment enters the store as not toxic.
pub open spec fn comment_row_of(comment: CommentView) -> CommentRowView {
    CommentRowView {
        id_comment: comment.id,
        id_issue: comment.issue_id,
        created_at: comment.created_at,
        text: comment.body,
        is_toxic: false,
    }
}

/// The rows `rows` are the rows of the records `found`, one for each.
pub open spec fn rows_of_issues(found: Set<IssueView>, rows: Seq<IssueRowView>) -> bool {
    exists|order: Seq<IssueView>|
        order.no_duplicates() && #[trigger] order.to_set() == found && order.map_values(
            |v: IssueView| issue_row_of(v),
        ) == rows
}

/// The rows `rows` are the rows of the records `found`, one for each.
pub open spec fn rows_of_comments(found: Set<CommentView>, rows: Seq<CommentRowView>) -> bool {
    exists|order: Seq<CommentView>|
        order.no_duplicates() && #[trigger] order.to_set() == found && order.map_values(
            |v: CommentView| comment_row_of(v),
        ) == rows
}

/// The row of `repository`.
pub fn repository_row(repository: Repository) -> (row: RepositoryRow)
    ensures
        row@ == repository_row_of(repository@),
{
    RepositoryRow {
        id_repo: repository.id,
        name: repository.name,
        forks_url: repository.forks_url,
        stars_url: repository.stargazers_url,
        commits_url: repository.commits_url,
    }
}

/// The row of `issue`.
pub fn issue_row(issue: Issue) -> (row: IssueRow)
    ensures
        row@ == issue_row_of(issue@),
{
    IssueRow {
        id_issue: issue.id,
        id_repo: issue.repository_id,
        created_at: issue.created_at,
        title: issue.title,
        comments_url: issue.comments_url,
    }
}

/// The row of `comment`.
pub fn comment_row(comment: Comment) -> (row: CommentRow)
    ensures
        row@ == comment_row_of(comment@),
{
    CommentRow {
        id_comment: comment.id,
        id_issue: comment.issue_id,
        created_at: comment.created_at,
        text: comment.body,
        is_toxic: false,
    }
}

/// The rows of the issues in `found`, one for each, in no particular order.
pub fn issue_rows(found: ItemSet<Issue>) -> (rows: Vec<IssueRow>)
    ensures
        rows_of_issues(found@, content_of(rows@)),
        rows@.len() == found@.len(),
{
    let issues: Vec<Issue> = found.into_vec();
    let ghost order = content_of(issues@);
    let ghost items = issues@;
    let ghost to_row = |v: IssueView| issue_row_of(v);
    let mut rows: Vec<IssueRow> = Vec::new();
    for issue in it: issues
        invariant
            it.seq() == items,
            rows@.len() == it.index(),
            forall|k: int| 0 <= k < rows@.len() ==> (#[trigger] rows@[k])@ == issue_row_of(
                items[k]@,
            ),
    {
        rows.push(issue_row(issue));
    }
    proof {
        assert(order.map_values(to_row) =~= content_of(rows@));
        order.unique_seq_to_set();
    }
    rows
}

/// The rows of the comments in `found`, one for each, in no particular
/// order.
pub fn comment_rows(found: ItemSet<Comment>) -> (rows: Vec<CommentRow>)
    ensures
        rows_of_comments(found@, content_of(rows@)),
        rows@.len() == found@.len(),
{
    let comments: Vec<Comment> = found.into_vec();
    let ghost order = content_of(comments@);
    let ghost items = comments@;
    let ghost to_row = |v: CommentView| comment_row_of(v);
    let mut rows: Vec<CommentRow> = Vec::new();
    for comment in it: comments
        invariant
            it.seq() == items,
            rows@.len() == it.index(),
            forall|k: int| 0 <= k < rows@.len() ==> (#[trigger] rows@[k])@ == comment_row_of(
                items[k]@,
            ),
    {
        rows.push(comment_row(comment));
    }
    proof {
        assert(order.map_values(to_row) =~= content_of(rows@));
        order.unique_seq_to_set();
    }
    rows
}

/// The repositories of a listing. A listing that could not be fetched or
/// decoded counts as empty; it is not asked for again.
pub fn listing_or_empty(outcome: PageOutcome<Repository>) -> (repositories: Vec<Repository>)
    ensures
        match outcome {
            PageOutcome::Page(items) => repositories == items,
            _ => repositories@.len() == 0,
        },
{
    match outcome {
        PageOutcome::Page(items) => items,
        _ => Vec::new(),
    }
}

/// What the walk over the issues of one repository leaves to be stored.
pub struct StoreBatch {
    pub repository: RepositoryRow,
    pub issues: Vec<IssueRow>,
}

/// A repository is stored only together with too-heated issues of its own:
/// where the walk found any, the row of the repository and the rows of
/// those issues; where it found none, nothing.
pub fn discover_batch(repository: Repository, harvest: IssueSink) -> (r: Option<StoreBatch>)
    ensures
        match r {
            Some(batch) => harvest@.found.len() > 0 && batch.repository@ == repository_row_of(
                repository@,
            ) && rows_of_issues(harvest@.found, content_of(batch.issues@)) && batch.issues@.len()
                == harvest@.found.len(),
            None => harvest@.found == Set::<IssueView>::empty(),
        },
{
    if harvest.found.is_empty() {
        None
    } else {
        proof {
            harvest.found.lemma_finite();
            if harvest@.found.len() == 0 {
                assert(harvest@.found =~= Set::<IssueView>::empty());
            }
        }
        Some(
            StoreBatch {
                repository: repository_row(repository),
                issues: issue_rows(harvest.found),
            },
        )
    }
}

/// What the walk over the comments of one issue leaves to be stored: the
/// rows of the comments it found.
pub fn enrich_batch(harvest: CommentSink) -> (rows: Vec<CommentRow>)
    ensures
        rows_of_comments(harvest@.found, content_of(rows@)),
        rows@.len() == harvest@.found.len(),
{
    comment_rows(harvest.found)
}

} // verus!
