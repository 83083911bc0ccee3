//! The acceptance predicate for issues and the stamping of parent
//! identifiers onto child records.

use crate::record::{Comment, CommentView, Issue, IssueView};
use vstd::prelude::*;
use vstd::string::*;

verus! {

/// An issue is "too heated" when it is locked, the reason given for the lock
/// is `too heated`, and it is closed.
pub open spec fn too_heated(issue: IssueView) -> bool {
    &&& issue.locked
    &&& issue.active_lock_reason == Some("too heated"@)
    &&& issue.state == "closed"@
}

/// `issue` with `repository_id` as its parent; every other field is kept.
pub open spec fn stamp_issue(issue: IssueView, repository_id: int) -> IssueView {
    IssueView { repository_id: Some(repository_id), ..issue }
}

/// `comment` with `issue_id` as its parent; every other field is kept.
pub open spec fn stamp_comment(comment: CommentView, issue_id: int) -> CommentView {
    CommentView { issue_id: Some(issue_id), ..comment }
}

/// The stamped contents of the too-heated issues among the first `n` items
/// of `page`.
pub open spec fn heated_among(page: Seq<Issue>, repository_id: int, n: int) -> Set<IssueView> {
    Set::new(
        |v: IssueView|
            exists|i: int|
                0 <= i < n && i < page.len() && too_heated(#[trigger] page[i]@) && v
                    == stamp_issue(page[i]@, repository_id),
    )
}

/// The stamped contents of the first `n` items of `page`.
pub open spec fn stamped_among(page: Seq<Comment>, issue_id: int, n: int) -> Set<CommentView> {
    Set::new(
        |v: CommentView|
            exists|i: int|
                0 <= i < n && i < page.len() && v == stamp_comment(
                    #[trigger] page[i]@,
                    issue_id,
                ),
    )
}

impl Issue {
    /// Whether the issue is too heated.
    pub fn is_too_heated(&self) -> (b: bool)
        ensures
            b == too_heated(self@),
    {
        if !self.locked {
            return false;
        }
        let reason_matches: bool = match &self.active_lock_reason {
            Some(reason) => *reason == String::from_str("too heated"),
            None => false,
        };
        reason_matches && self.state == String::from_str("closed")
    }

    /// The issue with `repository_id` as its parent repository.
    pub fn stamped(self, repository_id: i32) -> (r: Issue)
        ensures
            r@ == stamp_issue(self@, repository_id as int),
    {
        Issue {
            id: self.id,
            title: self.title,
            created_at: self.created_at,
            repository_id: Some(repository_id),
            comments_url: self.comments_url,
            locked: self.locked,
            active_lock_reason: self.active_lock_reason,
            state: self.state,
        }
    }
}

impl Comment {
    /// The comment with `issue_id` as its parent issue.
    pub fn stamped(self, issue_id: i32) -> (r: Comment)
        ensures
            r@ == stamp_comment(self@, issue_id as int),
    {
        Comment {
            id: self.id,
            body: self.body,
            created_at: self.created_at,
            issue_id: Some(issue_id),
        }
    }
}

/// Stamping comes before deduplication: two issues that agree in every field
/// but the parent are one set entry after stamping exactly when they were
/// stamped with the same parent.
pub proof fn lemma_stamp_then_dedup(a: IssueView, b: IssueView, p: int, q: int)
    requires
        a == (IssueView { repository_id: a.repository_id, ..b }),
    ensures
        stamp_issue(a, p) == stamp_issue(b, q) <==> p == q,
        p == q ==> set![stamp_issue(a, p), stamp_issue(b, q)].len() == 1,
        p != q ==> set![stamp_issue(a, p), stamp_issue(b, q)].len() == 2,
{
    let x = stamp_issue(a, p);
    let y = stamp_issue(b, q);
    if p == q {
        assert(x == y);
        assert(set![x, y] =~= set![x]);
    } else {
        assert(x.repository_id != y.repository_id);
    }
}

/// The same for comments and their parent issue.
pub proof fn lemma_stamp_comment_then_dedup(a: CommentView, b: CommentView, p: int, q: int)
    requires
        a == (CommentView { issue_id: a.issue_id, ..b }),
    ensures
        stamp_comment(a, p) == stamp_comment(b, q) <==> p == q,
        p == q ==> set![stamp_comment(a, p), stamp_comment(b, q)].len() == 1,
        p != q ==> set![stamp_comment(a, p), stamp_comment(b, q)].len() == 2,
{
    let x = stamp_comment(a, p);
    let y = stamp_comment(b, q);
    if p == q {
        assert(x == y);
        assert(set![x, y] =~= set![x]);
    } else {
        assert(x.issue_id != y.issue_id);
    }
}

} // verus!
