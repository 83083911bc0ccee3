//! What holds of every page walk, whatever the pages are.

use crate::dedup::content_of;
use crate::filter::{heated_among, stamp_comment, stamp_issue, stamped_among, too_heated};
use crate::record::{Comment, CommentView, Commit, Issue, IssueView};
use crate::walker::{
    answered, gathered, page_outcomes, served, tally_after, walk_action, walk_begin,
    walk_in_bounds, walk_next, walk_run, CommentHarvest, CommentSink, CommitTally, IssueHarvest,
    IssueSink, PageOutcome, PageSink, WalkAction, WalkView, PAGE_DELAY,
};
use vstd::prelude::*;

verus! {

/// A failed request changes nothing and has the same page requested again,
/// without delay.
pub proof fn lemma_failure_repeats_page<S: PageSink>(
    w: WalkView<S::V>,
    outcome: PageOutcome<S::Item>,
)
    requires
        !(outcome is Page),
    ensures
        walk_next::<S>(w, outcome) == w,
        !w.finished ==> walk_action::<S>(w, outcome) == (WalkAction::Fetch {
            page: w.page as u32,
            delay: 0,
        }),
{
}

/// Every step keeps a walk within its bounds: the page moves by one at most,
/// the ceiling stays, and a page that is asked for lies below the ceiling.
pub proof fn lemma_step_in_bounds<S: PageSink>(w: WalkView<S::V>, outcome: PageOutcome<S::Item>)
    requires
        walk_in_bounds(w),
    ensures
        walk_in_bounds(walk_next::<S>(w, outcome)),
        walk_next::<S>(w, outcome).ceiling == w.ceiling,
        w.page <= walk_next::<S>(w, outcome).page <= w.page + 1,
        w.finished ==> walk_next::<S>(w, outcome) == w,
        walk_action::<S>(w, outcome) matches WalkAction::Fetch { page, delay } ==> 1 <= page
            < w.ceiling && page == walk_next::<S>(w, outcome).page && (delay == 0 || delay
            == PAGE_DELAY),
{
}

/// Once a walk is over, no outcome changes it.
pub proof fn lemma_finished_is_final<S: PageSink>(
    w: WalkView<S::V>,
    outcomes: Seq<PageOutcome<S::Item>>,
)
    requires
        w.finished,
    ensures
        walk_run::<S>(w, outcomes) == w,
        served::<S>(w, outcomes) == 0,
    decreases outcomes.len(),
{
    if outcomes.len() > 0 {
        lemma_finished_is_final::<S>(w, outcomes.drop_first());
    }
}

/// Failures leave no trace: a walk ends in the state in which it would have
/// ended had every request been answered at the first attempt.
pub proof fn lemma_run_ignores_failures<S: PageSink>(
    w: WalkView<S::V>,
    outcomes: Seq<PageOutcome<S::Item>>,
)
    ensures
        walk_run::<S>(w, outcomes) == walk_run::<S>(w, answered(outcomes)),
    decreases outcomes.len(),
{
    if outcomes.len() > 0 {
        let rest = outcomes.drop_first();
        let next = walk_next::<S>(w, outcomes[0]);
        lemma_run_ignores_failures::<S>(next, rest);
        if outcomes[0] is Page {
            let kept = seq![outcomes[0]] + answered(rest);
            assert(kept[0] == outcomes[0]);
            assert(kept.drop_first() =~= answered(rest));
        } else {
            assert(next == w);
        }
    }
}

/// On the success path a walk never makes more requests than its ceiling
/// allows: from page `p` on, fewer than `ceiling - p + 1` requests are
/// answered with a page, so fewer than `ceiling` from the start.
pub proof fn lemma_served_below_ceiling<S: PageSink>(
    w: WalkView<S::V>,
    outcomes: Seq<PageOutcome<S::Item>>,
)
    requires
        walk_in_bounds(w),
    ensures
        w.finished ==> served::<S>(w, outcomes) == 0,
        !w.finished ==> served::<S>(w, outcomes) <= w.ceiling - w.page,
        walk_in_bounds(walk_run::<S>(w, outcomes)),
        walk_run::<S>(w, outcomes).ceiling == w.ceiling,
    decreases outcomes.len(),
{
    if outcomes.len() > 0 {
        lemma_step_in_bounds::<S>(w, outcomes[0]);
        lemma_served_below_ceiling::<S>(walk_next::<S>(w, outcomes[0]), outcomes.drop_first());
    }
}

/// From its start a walk with ceiling `ceiling` is answered with a page
/// fewer than `ceiling` times, however many requests fail in between.
pub proof fn lemma_walk_respects_ceiling<S: PageSink>(
    harvest: S::V,
    ceiling: u32,
    outcomes: Seq<PageOutcome<S::Item>>,
)
    ensures
        served::<S>(walk_begin(harvest, ceiling as nat), outcomes) + 1 <= ceiling || served::<S>(
            walk_begin(harvest, ceiling as nat),
            outcomes,
        ) == 0,
{
    lemma_served_below_ceiling::<S>(walk_begin(harvest, ceiling as nat), outcomes);
}

/// A walk that is answered with the non-empty pages `pages` and then with an
/// empty page, all below the ceiling, ends with exactly what those pages
/// give, absorbed in order, after one request more than there are pages.
pub proof fn lemma_walk_to_empty_page<S: PageSink>(
    w: WalkView<S::V>,
    pages: Seq<Vec<S::Item>>,
    last: Vec<S::Item>,
)
    requires
        !w.finished,
        w.page + pages.len() < w.ceiling,
        forall|i: int| 0 <= i < pages.len() ==> (#[trigger] pages[i])@.len() > 0,
        last@.len() == 0,
    ensures
        walk_run::<S>(w, page_outcomes(pages).push(PageOutcome::Page(last))) == (WalkView {
            harvest: gathered::<S>(w.harvest, pages),
            page: w.page + pages.len(),
            ceiling: w.ceiling,
            finished: true,
        }),
        served::<S>(w, page_outcomes(pages).push(PageOutcome::Page(last))) == pages.len() + 1,
    decreases pages.len(),
{
    let outcomes = page_outcomes(pages).push(PageOutcome::Page(last));
    if pages.len() == 0 {
        assert(outcomes[0] == PageOutcome::Page(last));
        assert(outcomes.drop_first() =~= Seq::<PageOutcome<S::Item>>::empty());
        let end = walk_next::<S>(w, outcomes[0]);
        assert(walk_run::<S>(end, outcomes.drop_first()) == end);
        assert(served::<S>(end, outcomes.drop_first()) == 0);
    } else {
        let rest = pages.drop_first();
        assert(outcomes[0] == PageOutcome::Page(pages[0]));
        assert(outcomes.drop_first() =~= page_outcomes(rest).push(PageOutcome::Page(last)));
        assert forall|i: int| 0 <= i < rest.len() implies (#[trigger] rest[i])@.len() > 0 by {
            assert(rest[i] == pages[i + 1]);
        }
        lemma_walk_to_empty_page::<S>(walk_next::<S>(w, outcomes[0]), rest, last);
    }
}

/// A walk that is answered with non-empty pages up to its ceiling ends
/// there, with exactly what those pages give, absorbed in order.
pub proof fn lemma_walk_to_ceiling<S: PageSink>(w: WalkView<S::V>, pages: Seq<Vec<S::Item>>)
    requires
        !w.finished,
        pages.len() > 0,
        w.page + pages.len() == w.ceiling,
        forall|i: int| 0 <= i < pages.len() ==> (#[trigger] pages[i])@.len() > 0,
    ensures
        walk_run::<S>(w, page_outcomes(pages)) == (WalkView {
            harvest: gathered::<S>(w.harvest, pages),
            page: w.ceiling,
            ceiling: w.ceiling,
            finished: true,
        }),
        served::<S>(w, page_outcomes(pages)) == pages.len(),
    decreases pages.len(),
{
    let outcomes = page_outcomes(pages);
    let rest = pages.drop_first();
    let next = walk_next::<S>(w, outcomes[0]);
    assert(outcomes[0] == PageOutcome::Page(pages[0]));
    assert(outcomes.drop_first() =~= page_outcomes(rest));
    if rest.len() == 0 {
        assert(walk_run::<S>(next, outcomes.drop_first()) == next);
        assert(served::<S>(next, outcomes.drop_first()) == 0);
        assert(gathered::<S>(next.harvest, rest) == next.harvest);
    } else {
        assert forall|i: int| 0 <= i < rest.len() implies (#[trigger] rest[i])@.len() > 0 by {
            assert(rest[i] == pages[i + 1]);
        }
        lemma_walk_to_ceiling::<S>(next, rest);
    }
}

/// The order of the items within a page is of no account to an issue walk:
/// two pages with the same items give the same harvest.
pub proof fn lemma_issue_order_is_irrelevant(a: Seq<Issue>, b: Seq<Issue>, repository_id: int)
    requires
        content_of(a).to_set() == content_of(b).to_set(),
    ensures
        heated_among(a, repository_id, a.len() as int) == heated_among(
            b,
            repository_id,
            b.len() as int,
        ),
{
    let x = heated_among(a, repository_id, a.len() as int);
    let y = heated_among(b, repository_id, b.len() as int);
    assert forall|v: IssueView| x.contains(v) <==> y.contains(v) by {
        if x.contains(v) {
            let i = choose|i: int|
                0 <= i < a.len() && i < a.len() && too_heated(#[trigger] a[i]@) && v
                    == stamp_issue(a[i]@, repository_id);
            assert(content_of(a)[i] == a[i]@);
            assert(content_of(b).to_set().contains(a[i]@));
            let j = choose|j: int| 0 <= j < content_of(b).len() && content_of(b)[j] == a[i]@;
            assert(content_of(b)[j] == b[j]@);
            assert(too_heated(b[j]@));
        }
        if y.contains(v) {
            let j = choose|j: int|
                0 <= j < b.len() && j < b.len() && too_heated(#[trigger] b[j]@) && v
                    == stamp_issue(b[j]@, repository_id);
            assert(content_of(b)[j] == b[j]@);
            assert(content_of(a).to_set().contains(b[j]@));
            let i = choose|i: int| 0 <= i < content_of(a).len() && content_of(a)[i] == b[j]@;
            assert(content_of(a)[i] == a[i]@);
            assert(too_heated(a[i]@));
        }
    }
    assert(x =~= y);
}

/// The order of the items within a page is of no account to a comment walk.
pub proof fn lemma_comment_order_is_irrelevant(a: Seq<Comment>, b: Seq<Comment>, issue_id: int)
    requires
        content_of(a).to_set() == content_of(b).to_set(),
    ensures
        stamped_among(a, issue_id, a.len() as int) == stamped_among(b, issue_id, b.len() as int),
{
    let x = stamped_among(a, issue_id, a.len() as int);
    let y = stamped_among(b, issue_id, b.len() as int);
    assert forall|v: CommentView| x.contains(v) <==> y.contains(v) by {
        if x.contains(v) {
            let i = choose|i: int|
                0 <= i < a.len() && i < a.len() && v == stamp_comment(
                    #[trigger] a[i]@,
                    issue_id,
                );
            assert(content_of(a)[i] == a[i]@);
            assert(content_of(b).to_set().contains(a[i]@));
            let j = choose|j: int| 0 <= j < content_of(b).len() && content_of(b)[j] == a[i]@;
            assert(content_of(b)[j] == b[j]@);
            assert(v == stamp_comment(b[j]@, issue_id));
        }
        if y.contains(v) {
            let j = choose|j: int|
                0 <= j < b.len() && j < b.len() && v == stamp_comment(
                    #[trigger] b[j]@,
                    issue_id,
                );
            assert(content_of(b)[j] == b[j]@);
            assert(content_of(a).to_set().contains(b[j]@));
            let i = choose|i: int| 0 <= i < content_of(a).len() && content_of(a)[i] == b[j]@;
            assert(content_of(a)[i] == a[i]@);
            assert(v == stamp_comment(a[i]@, issue_id));
        }
    }
    assert(x =~= y);
}

/// Every issue of the harvest is too heated and bears the stamp of the
/// repository that the harvest belongs to.
pub open spec fn heated_and_stamped(harvest: IssueHarvest) -> bool {
    forall|v: IssueView| #[trigger]
        harvest.found.contains(v) ==> too_heated(v) && v.repository_id == Some(
            harvest.repository_id,
        )
}

/// Every comment of the harvest bears the stamp of the issue that the
/// harvest belongs to.
pub open spec fn stamped_with_issue(harvest: CommentHarvest) -> bool {
    forall|v: CommentView| #[trigger]
        harvest.found.contains(v) ==> v.issue_id == Some(harvest.issue_id)
}

/// A page adds to an issue harvest and takes nothing away, and what it adds
/// is too heated and stamped.
pub proof fn lemma_page_keeps_issues_heated(harvest: IssueHarvest, page: Seq<Issue>)
    requires
        heated_and_stamped(harvest),
    ensures
        heated_and_stamped(IssueSink::absorbed(harvest, page)),
        IssueSink::absorbed(harvest, page).repository_id == harvest.repository_id,
        harvest.found.subset_of(IssueSink::absorbed(harvest, page).found),
{
}

/// A page adds to a comment harvest and takes nothing away, and what it adds
/// is stamped.
pub proof fn lemma_page_keeps_comments_stamped(harvest: CommentHarvest, page: Seq<Comment>)
    requires
        stamped_with_issue(harvest),
    ensures
        stamped_with_issue(CommentSink::absorbed(harvest, page)),
        CommentSink::absorbed(harvest, page).issue_id == harvest.issue_id,
        harvest.found.subset_of(CommentSink::absorbed(harvest, page).found),
{
}

/// Whatever an issue walk is answered with, it never holds an issue that is
/// not too heated or not stamped with its repository, and it never loses an
/// issue that it held.
pub proof fn lemma_walk_keeps_issues_heated(
    w: WalkView<IssueHarvest>,
    outcomes: Seq<PageOutcome<Issue>>,
)
    requires
        heated_and_stamped(w.harvest),
    ensures
        heated_and_stamped(walk_run::<IssueSink>(w, outcomes).harvest),
        walk_run::<IssueSink>(w, outcomes).harvest.repository_id == w.harvest.repository_id,
        w.harvest.found.subset_of(walk_run::<IssueSink>(w, outcomes).harvest.found),
    decreases outcomes.len(),
{
    if outcomes.len() > 0 {
        let next = walk_next::<IssueSink>(w, outcomes[0]);
        if let PageOutcome::Page(items) = outcomes[0] {
            lemma_page_keeps_issues_heated(w.harvest, items@);
        }
        lemma_walk_keeps_issues_heated(next, outcomes.drop_first());
    }
}

/// Whatever a comment walk is answered with, it never holds a comment that
/// is not stamped with its issue, and it never loses a comment that it held.
pub proof fn lemma_walk_keeps_comments_stamped(
    w: WalkView<CommentHarvest>,
    outcomes: Seq<PageOutcome<Comment>>,
)
    requires
        stamped_with_issue(w.harvest),
    ensures
        stamped_with_issue(walk_run::<CommentSink>(w, outcomes).harvest),
        walk_run::<CommentSink>(w, outcomes).harvest.issue_id == w.harvest.issue_id,
        w.harvest.found.subset_of(walk_run::<CommentSink>(w, outcomes).harvest.found),
    decreases outcomes.len(),
{
    if outcomes.len() > 0 {
        let next = walk_next::<CommentSink>(w, outcomes[0]);
        if let PageOutcome::Page(items) = outcomes[0] {
            lemma_page_keeps_comments_stamped(w.harvest, items@);
        }
        lemma_walk_keeps_comments_stamped(next, outcomes.drop_first());
    }
}

/// The number of items on the pages `pages`, all together.
pub open spec fn total_items<T>(pages: Seq<Vec<T>>) -> nat
    decreases pages.len(),
{
    if pages.len() == 0 {
        0
    } else {
        pages[0]@.len() + total_items(pages.drop_first())
    }
}

/// A tally counts every item of every page: after the pages `pages` it
/// stands at what it stood at before plus the number of their items, as far
/// as a `u64` counts.
pub proof fn lemma_tally_counts_every_item(count: nat, pages: Seq<Vec<Commit>>)
    requires
        count <= u64::MAX,
    ensures
        gathered::<CommitTally>(count, pages) == tally_after(count, total_items(pages)),
    decreases pages.len(),
{
    if pages.len() > 0 {
        lemma_tally_counts_every_item(tally_after(count, pages[0]@.len()), pages.drop_first());
    }
}

} // verus!
