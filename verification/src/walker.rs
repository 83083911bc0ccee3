//! The page walk: which page to request next, when to stop, and what a page
//! adds to the harvest. The walk itself performs no request: it is told the
//! outcome of each one and answers with the next action.

use crate::dedup::ItemSet;
use crate::filter::{heated_among, stamp_comment, stamp_issue, stamped_among, too_heated};
use crate::record::{Comment, CommentView, Commit, Issue, IssueView};
use vstd::prelude::*;

verus! {

/// Items asked for with each page request.
pub const PER_PAGE: u32 = 100;

/// Seconds to wait before the request that follows an answered page.
pub const PAGE_DELAY: u64 = 5;

/// The customary ceiling of a walk: pages `1` to `49` are requested.
pub const DEFAULT_CEILING: u32 = 50;

/// What came back from one page request.
pub enum PageOutcome<T> {
    /// The request failed in transport.
    TransportFailure,
    /// An answer came, but it was no sequence of items.
    DecodeFailure,
    /// The decoded items of the page, possibly none.
    Page(Vec<T>),
}

/// What the driver of a walk does next.
#[derive(Debug, Clone, Copy, PartialEq, Eq, Structural)]
pub enum WalkAction {
    /// Wait `delay` seconds, then request page `page`.
    Fetch { page: u32, delay: u64 },
    /// The walk is over.
    Finish,
}

/// The part of a walk that receives the pages.
pub trait PageSink: View + Sized {
    /// The decoded item of a page.
    type Item;

    /// The harvest after a page, from the harvest before it.
    spec fn absorbed(before: Self::V, page: Seq<Self::Item>) -> Self::V;

    /// Takes in the items of one page.
    fn absorb(&mut self, page: Vec<Self::Item>)
        ensures
            final(self)@ == Self::absorbed(old(self)@, page@),
    ;
}

/// What an issue walk has gathered: the too-heated issues of one
/// repository, stamped with it.
pub struct IssueHarvest {
    pub repository_id: int,
    pub found: Set<IssueView>,
}

/// Gathers the too-heated issues of one repository.
pub struct IssueSink {
    pub repository_id: i32,
    pub found: ItemSet<Issue>,
}

impl View for IssueSink {
    type V = IssueHarvest;

    open spec fn view(&self) -> IssueHarvest {
        IssueHarvest { repository_id: self.repository_id as int, found: self.found@ }
    }
}

impl IssueSink {
    /// A sink for the issues of repository `repository_id`, still empty.
    pub fn new(repository_id: i32) -> (s: Self)
        ensures
            s@ == (IssueHarvest {
                repository_id: repository_id as int,
                found: Set::<IssueView>::empty(),
            }),
    {
        IssueSink { repository_id, found: ItemSet::new() }
    }
}

impl PageSink for IssueSink {
    type Item = Issue;

    open spec fn absorbed(before: IssueHarvest, page: Seq<Issue>) -> IssueHarvest {
        IssueHarvest {
            repository_id: before.repository_id,
            found: before.found.union(
                heated_among(page, before.repository_id, page.len() as int),
            ),
        }
    }

    fn absorb(&mut self, page: Vec<Issue>) {
        let ghost items = page@;
        let ghost before = self.found@;
        let repository_id: i32 = self.repository_id;
        let ghost id = repository_id as int;
        assert(before.union(heated_among(items, id, 0)) =~= before);
        for issue in it: page
            invariant
                it.seq() == items,
                id == repository_id,
                self.repository_id == repository_id,
                self.found@ == before.union(heated_among(items, id, it.index() as int)),
        {
            let ghost n = it.index() as int;
            assert(issue == items[n]);
            if issue.is_too_heated() {
                self.found.insert(issue.stamped(repository_id));
            }
            assert(self.found@ =~= before.union(heated_among(items, id, n + 1))) by {
                assert forall|v: IssueView|
                    heated_among(items, id, n + 1).contains(v) <==> (heated_among(
                        items,
                        id,
                        n,
                    ).contains(v) || (too_heated(items[n]@) && v == stamp_issue(
                        items[n]@,
                        id,
                    ))) by {
                    if heated_among(items, id, n + 1).contains(v) {
                        let i = choose|i: int|
                            0 <= i < n + 1 && i < items.len() && too_heated(
                                #[trigger] items[i]@,
                            ) && v == stamp_issue(items[i]@, id);
                        if i < n {
                            assert(heated_among(items, id, n).contains(v));
                        }
                    }
                }
            }
        }
    }
}

/// What a comment walk has gathered: the comments of one issue, stamped
/// with it.
pub struct CommentHarvest {
    pub issue_id: int,
    pub found: Set<CommentView>,
}

/// Gathers the comments of one issue.
pub struct CommentSink {
    pub issue_id: i32,
    pub found: ItemSet<Comment>,
}

impl View for CommentSink {
    type V = CommentHarvest;

    open spec fn view(&self) -> CommentHarvest {
        CommentHarvest { issue_id: self.issue_id as int, found: self.found@ }
    }
}

impl CommentSink {
    /// A sink for the comments of issue `issue_id`, still empty.
    pub fn new(issue_id: i32) -> (s: Self)
        ensures
            s@ == (CommentHarvest {
                issue_id: issue_id as int,
                found: Set::<CommentView>::empty(),
            }),
    {
        CommentSink { issue_id, found: ItemSet::new() }
    }
}

impl PageSink for CommentSink {
    type Item = Comment;

    open spec fn absorbed(before: CommentHarvest, page: Seq<Comment>) -> CommentHarvest {
        CommentHarvest {
            issue_id: before.issue_id,
            found: before.found.union(stamped_among(page, before.issue_id, page.len() as int)),
        }
    }

    fn absorb(&mut self, page: Vec<Comment>) {
        let ghost items = page@;
        let ghost before = self.found@;
        let issue_id: i32 = self.issue_id;
        let ghost id = issue_id as int;
        assert(before.union(stamped_among(items, id, 0)) =~= before);
        for comment in it: page
            invariant
                it.seq() == items,
                id == issue_id,
                self.issue_id == issue_id,
                self.found@ == before.union(stamped_among(items, id, it.index() as int)),
        {
            let ghost n = it.index() as int;
            assert(comment == items[n]);
            self.found.insert(comment.stamped(issue_id));
            assert(self.found@ =~= before.union(stamped_among(items, id, n + 1))) by {
                assert forall|v: CommentView|
                    stamped_among(items, id, n + 1).contains(v) <==> (stamped_among(
                        items,
                        id,
                        n,
                    ).contains(v) || v == stamp_comment(items[n]@, id)) by {
                    if stamped_among(items, id, n + 1).contains(v) {
                        let i = choose|i: int|
                            0 <= i < n + 1 && i < items.len() && v == stamp_comment(
                                #[trigger] items[i]@,
                                id,
                            );
                        if i < n {
                            assert(stamped_among(items, id, n).contains(v));
                        }
                    }
                }
            }
        }
    }
}

/// The count after `more` further items, held at the largest `u64` once it
/// is reached.
pub open spec fn tally_after(count: nat, more: nat) -> nat {
    if count + more <= u64::MAX {
        count + more
    } else {
        u64::MAX as nat
    }
}

/// Counts the commits of the pages it is given. Commits are counted, not
/// compared: the same commit on two pages counts twice.
pub struct CommitTally {
    pub count: u64,
}

impl View for CommitTally {
    type V = nat;

    open spec fn view(&self) -> nat {
        self.count as nat
    }
}

impl CommitTally {
    /// A tally at zero.
    pub fn new() -> (s: Self)
        ensures
            s@ == 0,
    {
        CommitTally { count: 0 }
    }
}

impl PageSink for CommitTally {
    type Item = Commit;

    open spec fn absorbed(before: nat, page: Seq<Commit>) -> nat {
        tally_after(before, page.len())
    }

    fn absorb(&mut self, page: Vec<Commit>) {
        let more: usize = page.len();
        let room: u64 = u64::MAX - self.count;
        if more as u64 <= room {
            self.count = self.count + more as u64;
        } else {
            self.count = u64::MAX;
        }
    }
}

/// The state of a walk: what has been gathered, the page that is requested
/// next, the ceiling, and whether the walk is over.
pub struct WalkView<H> {
    pub harvest: H,
    pub page: nat,
    pub ceiling: nat,
    pub finished: bool,
}

/// A running walk stands on a page from `1` up to, but not including, its
/// ceiling.
pub open spec fn walk_in_bounds<H>(w: WalkView<H>) -> bool {
    &&& 1 <= w.page
    &&& w.ceiling <= u32::MAX
    &&& !w.finished ==> w.page < w.ceiling
}

/// The state in which a walk starts.
pub open spec fn walk_begin<H>(harvest: H, ceiling: nat) -> WalkView<H> {
    WalkView { harvest, page: 1, ceiling, finished: ceiling <= 1 }
}

/// The action that follows from a state alone: request the page the walk
/// stands on, after `delay` seconds, unless the walk is over.
pub open spec fn action_at<H>(w: WalkView<H>, delay: u64) -> WalkAction {
    if w.finished {
        WalkAction::Finish
    } else {
        WalkAction::Fetch { page: w.page as u32, delay }
    }
}

/// The state after one outcome.
///
/// A failure, of either kind, leaves the state as it is. An empty page ends
/// the walk. Any other page is absorbed, and the walk moves to the next
/// page, or ends where that page is the ceiling.
pub open spec fn walk_next<S: PageSink>(w: WalkView<S::V>, outcome: PageOutcome<S::Item>)
    -> WalkView<S::V> {
    if w.finished {
        w
    } else {
        match outcome {
            PageOutcome::TransportFailure => w,
            PageOutcome::DecodeFailure => w,
            PageOutcome::Page(items) => if items@.len() == 0 {
                WalkView { finished: true, ..w }
            } else {
                WalkView {
                    harvest: S::absorbed(w.harvest, items@),
                    page: w.page + 1,
                    ceiling: w.ceiling,
                    finished: w.page + 1 >= w.ceiling,
                }
            },
        }
    }
}

/// The action that answers one outcome.
///
/// After a failure the same page is requested again, at once. After an
/// absorbed page the next page is requested once the page delay has passed.
pub open spec fn walk_action<S: PageSink>(w: WalkView<S::V>, outcome: PageOutcome<S::Item>)
    -> WalkAction {
    let delay = if outcome is Page {
        PAGE_DELAY
    } else {
        0
    };
    action_at(walk_next::<S>(w, outcome), delay)
}

/// The state after a sequence of outcomes, taken in order.
pub open spec fn walk_run<S: PageSink>(w: WalkView<S::V>, outcomes: Seq<PageOutcome<S::Item>>)
    -> WalkView<S::V>
    decreases outcomes.len(),
{
    if outcomes.len() == 0 {
        w
    } else {
        walk_run::<S>(walk_next::<S>(w, outcomes[0]), outcomes.drop_first())
    }
}

/// The outcomes that are pages, in order: the failures left out.
pub open spec fn answered<T>(outcomes: Seq<PageOutcome<T>>) -> Seq<PageOutcome<T>>
    decreases outcomes.len(),
{
    if outcomes.len() == 0 {
        outcomes
    } else if outcomes[0] is Page {
        seq![outcomes[0]] + answered(outcomes.drop_first())
    } else {
        answered(outcomes.drop_first())
    }
}

/// The harvest after the pages `pages`, absorbed in order.
pub open spec fn gathered<S: PageSink>(harvest: S::V, pages: Seq<Vec<S::Item>>) -> S::V
    decreases pages.len(),
{
    if pages.len() == 0 {
        harvest
    } else {
        gathered::<S>(S::absorbed(harvest, pages[0]@), pages.drop_first())
    }
}

/// The pages `pages` as the outcomes of successful requests.
pub open spec fn page_outcomes<T>(pages: Seq<Vec<T>>) -> Seq<PageOutcome<T>> {
    Seq::new(pages.len(), |i: int| PageOutcome::Page(pages[i]))
}

/// How many requests of `outcomes` were answered with a page while the walk
/// was still running.
pub open spec fn served<S: PageSink>(w: WalkView<S::V>, outcomes: Seq<PageOutcome<S::Item>>)
    -> nat
    decreases outcomes.len(),
{
    if outcomes.len() == 0 {
        0
    } else {
        let one: nat = if !w.finished && outcomes[0] is Page {
            1
        } else {
            0
        };
        one + served::<S>(walk_next::<S>(w, outcomes[0]), outcomes.drop_first())
    }
}

/// A walk over the pages of one resource.
pub struct Walk<S: PageSink> {
    sink: S,
    page: u32,
    ceiling: u32,
    finished: bool,
}

impl<S: PageSink> View for Walk<S> {
    type V = WalkView<S::V>;

    closed spec fn view(&self) -> WalkView<S::V> {
        WalkView {
            harvest: self.sink@,
            page: self.page as nat,
            ceiling: self.ceiling as nat,
            finished: self.finished,
        }
    }
}

impl<S: PageSink> Walk<S> {
    #[verifier::type_invariant]
    spec fn in_bounds(self) -> bool {
        walk_in_bounds(self@)
    }

    /// Starts a walk that requests pages `1` to `ceiling - 1` at most and
    /// gathers into `sink`. With a ceiling of `0` or `1` it is over at once.
    pub fn start(sink: S, ceiling: u32) -> (r: (Walk<S>, WalkAction))
        ensures
            r.0@ == walk_begin(sink@, ceiling as nat),
            r.1 == action_at(r.0@, 0),
            walk_in_bounds(r.0@),
    {
        let walk = Walk { sink, page: 1, ceiling, finished: ceiling <= 1 };
        let action = if ceiling <= 1 {
            WalkAction::Finish
        } else {
            WalkAction::Fetch { page: 1, delay: 0 }
        };
        (walk, action)
    }

    /// Takes the outcome of the request last asked for and says what to do
    /// next.
    pub fn step(self, outcome: PageOutcome<S::Item>) -> (r: (Walk<S>, WalkAction))
        ensures
            r.0@ == walk_next::<S>(self@, outcome),
            r.1 == walk_action::<S>(self@, outcome),
            walk_in_bounds(r.0@),
    {
        proof {
            use_type_invariant(&self);
        }
        if self.finished {
            return (self, WalkAction::Finish);
        }
        match outcome {
            PageOutcome::TransportFailure => {
                let page: u32 = self.page;
                (self, WalkAction::Fetch { page, delay: 0 })
            },
            PageOutcome::DecodeFailure => {
                let page: u32 = self.page;
                (self, WalkAction::Fetch { page, delay: 0 })
            },
            PageOutcome::Page(items) => {
                if items.len() == 0 {
                    let walk = Walk {
                        sink: self.sink,
                        page: self.page,
                        ceiling: self.ceiling,
                        finished: true,
                    };
                    (walk, WalkAction::Finish)
                } else {
                    let mut sink: S = self.sink;
                    sink.absorb(items);
                    let page: u32 = self.page + 1;
                    let finished: bool = page >= self.ceiling;
                    let walk = Walk { sink, page, ceiling: self.ceiling, finished };
                    let action = if finished {
                        WalkAction::Finish
                    } else {
                        WalkAction::Fetch { page, delay: PAGE_DELAY }
                    };
                    (walk, action)
                }
            },
        }
    }

    /// Whether the walk is over.
    pub fn is_finished(&self) -> (b: bool)
        ensures
            b == self@.finished,
    {
        self.finished
    }

    /// The page that is requested next, or would have been.
    pub fn page(&self) -> (p: u32)
        ensures
            p == self@.page,
    {
        self.page
    }

    /// What has been gathered so far.
    pub fn harvest(&self) -> (s: &S)
        ensures
            s@ == self@.harvest,
    {
        &self.sink
    }

    /// Ends the walk and hands out what it gathered.
    pub fn into_harvest(self) -> (s: S)
        ensures
            s@ == self@.harvest,
    {
        self.sink
    }
}

} // verus!
