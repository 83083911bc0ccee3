//! Commit activity around an anchor: the commits of the thirty days before
//! it and of the thirty days after it, counted by two page walks and written
//! as one line of the report.

use crate::endpoint::{commits_page, commits_page_url};
use crate::record::Commit;
use crate::text::{append_decimal, append_signed_decimal, decimal, signed_decimal};
use crate::walker::{
    action_at, walk_action, walk_begin, walk_next, walk_run, CommitTally, PageOutcome, Walk,
    WalkAction, WalkView,
};
use crate::window::{
    get_since_and_until, parsed_timestamp, rendered_timestamp, window_of, WindowError,
};
use vstd::prelude::*;
use vstd::string::*;

verus! {

/// The side of the anchor on which commits are counted.
#[derive(Debug, Clone, Copy, PartialEq, Eq, Structural)]
pub enum WindowSide {
    /// From the start of the window to the anchor.
    Before,
    /// From the anchor to the end of the window.
    After,
}

/// The window around an anchor, each moment as text.
pub struct CommitWindow {
    pub since: String,
    pub anchor: String,
    pub until: String,
}

/// The window around the moment written in `anchor`. The anchor is kept as
/// it was given.
pub fn commit_window(anchor: &str) -> (r: Result<CommitWindow, WindowError>)
    ensures
        match parsed_timestamp(anchor@) {
            None => r matches Err(e) && e == WindowError::Unparseable,
            Some(moment) => match window_of(moment) {
                None => r matches Err(e) && e == WindowError::OutOfRange,
                Some(ends) => r matches Ok(window) && window.anchor@ == anchor@ && window.since@
                    == rendered_timestamp(ends.0) && window.until@ == rendered_timestamp(ends.1),
            },
        },
{
    match get_since_and_until(anchor) {
        Ok(ends) => {
            let (since, until) = ends;
            Ok(CommitWindow { since, anchor: String::from_str(anchor), until })
        },
        Err(e) => Err(e),
    }
}

/// The address of page `page` of the commits on one side of the anchor.
pub open spec fn window_page(
    endpoint: Seq<char>,
    since: Seq<char>,
    anchor: Seq<char>,
    until: Seq<char>,
    side: WindowSide,
    page: nat,
) -> Seq<char> {
    match side {
        WindowSide::Before => commits_page(endpoint, page, since, anchor),
        WindowSide::After => commits_page(endpoint, page, anchor, until),
    }
}

/// The address of page `page` of the commits under `endpoint` on side `side`
/// of the anchor of `window`.
pub fn window_page_url(endpoint: &str, window: &CommitWindow, side: WindowSide, page: u32) -> (url:
    String)
    ensures
        url@ == window_page(
            endpoint@,
            window.since@,
            window.anchor@,
            window.until@,
            side,
            page as nat,
        ),
{
    match side {
        WindowSide::Before => commits_page_url(
            endpoint,
            page,
            window.since.as_str(),
            window.anchor.as_str(),
        ),
        WindowSide::After => commits_page_url(
            endpoint,
            page,
            window.anchor.as_str(),
            window.until.as_str(),
        ),
    }
}

/// What the driver of an aggregation does next.
#[derive(Debug, Clone, Copy, PartialEq, Eq, Structural)]
pub enum AggregateAction {
    /// Wait `delay` seconds, then request page `page` of the commits on
    /// side `side`.
    Fetch { side: WindowSide, page: u32, delay: u64 },
    /// Both sides are counted.
    Done { before: u64, after: u64 },
}

/// The state of an aggregation: the walk before the anchor and the walk
/// after it. The second waits until the first is over.
pub struct AggregateView {
    pub before: WalkView<nat>,
    pub after: WalkView<nat>,
}

/// The state in which an aggregation starts.
pub open spec fn aggregate_begin(ceiling: nat) -> AggregateView {
    AggregateView { before: walk_begin(0nat, ceiling), after: walk_begin(0nat, ceiling) }
}

/// The action that follows when a walk on `side` has answered `action`:
/// its requests are passed on; when the walk before the anchor is over, the
/// walk after it begins; when that is over too, the counts are given.
pub open spec fn aggregate_answer(
    v: AggregateView,
    side: WindowSide,
    action: WalkAction,
) -> AggregateAction {
    match action {
        WalkAction::Fetch { page, delay } => AggregateAction::Fetch { side, page, delay },
        WalkAction::Finish => if side == WindowSide::Before && !v.after.finished {
            AggregateAction::Fetch { side: WindowSide::After, page: v.after.page as u32, delay: 0 }
        } else {
            AggregateAction::Done { before: v.before.harvest as u64, after: v.after.harvest as u64 }
        },
    }
}

/// The state after one outcome: it goes to the walk before the anchor while
/// that is running, and to the walk after it from then on.
pub open spec fn aggregate_next(v: AggregateView, outcome: PageOutcome<Commit>) -> AggregateView {
    if !v.before.finished {
        AggregateView { before: walk_next::<CommitTally>(v.before, outcome), after: v.after }
    } else {
        AggregateView { before: v.before, after: walk_next::<CommitTally>(v.after, outcome) }
    }
}

/// The action that answers one outcome.
pub open spec fn aggregate_action(v: AggregateView, outcome: PageOutcome<Commit>)
    -> AggregateAction {
    let next = aggregate_next(v, outcome);
    if !v.before.finished {
        aggregate_answer(next, WindowSide::Before, walk_action::<CommitTally>(v.before, outcome))
    } else {
        aggregate_answer(next, WindowSide::After, walk_action::<CommitTally>(v.after, outcome))
    }
}

/// Counts the commits before and after an anchor by two page walks, one
/// after the other.
pub struct WindowAggregator {
    before: Walk<CommitTally>,
    after: Walk<CommitTally>,
}

impl View for WindowAggregator {
    type V = AggregateView;

    closed spec fn view(&self) -> AggregateView {
        AggregateView { before: self.before@, after: self.after@ }
    }
}

impl WindowAggregator {
    fn answer(&self, side: WindowSide, action: WalkAction) -> (r: AggregateAction)
        ensures
            r == aggregate_answer(self@, side, action),
    {
        match action {
            WalkAction::Fetch { page, delay } => AggregateAction::Fetch { side, page, delay },
            WalkAction::Finish => {
                let first_side: bool = match side {
                    WindowSide::Before => true,
                    WindowSide::After => false,
                };
                if first_side && !self.after.is_finished() {
                    AggregateAction::Fetch {
                        side: WindowSide::After,
                        page: self.after.page(),
                        delay: 0,
                    }
                } else {
                    AggregateAction::Done {
                        before: self.before.harvest().count,
                        after: self.after.harvest().count,
                    }
                }
            },
        }
    }

    /// Starts an aggregation in which each walk requests pages `1` to
    /// `ceiling - 1` at most.
    pub fn start(ceiling: u32) -> (r: (WindowAggregator, AggregateAction))
        ensures
            r.0@ == aggregate_begin(ceiling as nat),
            r.1 == aggregate_answer(r.0@, WindowSide::Before, action_at(r.0@.before, 0)),
    {
        let (before, action) = Walk::start(CommitTally::new(), ceiling);
        let (after, _) = Walk::start(CommitTally::new(), ceiling);
        let aggregator = WindowAggregator { before, after };
        let first = aggregator.answer(WindowSide::Before, action);
        (aggregator, first)
    }

    /// Takes the outcome of the request last asked for and says what to do
    /// next.
    pub fn step(self, outcome: PageOutcome<Commit>) -> (r: (WindowAggregator, AggregateAction))
        ensures
            r.0@ == aggregate_next(self@, outcome),
            r.1 == aggregate_action(self@, outcome),
    {
        if !self.before.is_finished() {
            let (before, action) = self.before.step(outcome);
            let next = WindowAggregator { before, after: self.after };
            let answer = next.answer(WindowSide::Before, action);
            (next, answer)
        } else {
            let (after, action) = self.after.step(outcome);
            let next = WindowAggregator { before: self.before, after };
            let answer = next.answer(WindowSide::After, action);
            (next, answer)
        }
    }
}

/// The first line of the report.
pub open spec fn csv_header() -> Seq<char> {
    "id_comment,id_issue,commits_before,commits_after\n"@
}

/// The line of the report for one comment.
pub open spec fn csv_line(comment_id: int, issue_id: int, before: nat, after: nat) -> Seq<char> {
    signed_decimal(comment_id) + ","@ + signed_decimal(issue_id) + ","@ + decimal(before) + ","@
        + decimal(after) + "\n"@
}

/// The first line of the report, with its line end.
pub fn csv_header_line() -> (line: String)
    ensures
        line@ == csv_header(),
{
    String::from_str("id_comment,id_issue,commits_before,commits_after\n")
}

/// The line of the report for comment `comment_id` of issue `issue_id`, with
/// its line end.
pub fn csv_row(comment_id: i32, issue_id: i32, before: u64, after: u64) -> (line: String)
    ensures
        line@ == csv_line(comment_id as int, issue_id as int, before as nat, after as nat),
{
    let mut line: String = String::new();
    append_signed_decimal(&mut line, comment_id as i64);
    line.append(",");
    append_signed_decimal(&mut line, issue_id as i64);
    line.append(",");
    append_decimal(&mut line, before);
    line.append(",");
    append_decimal(&mut line, after);
    line.append("\n");
    assert(line@ =~= csv_line(comment_id as int, issue_id as int, before as nat, after as nat));
    line
}

/// The state of an aggregation after a sequence of outcomes, taken in
/// order.
pub open spec fn aggregate_run(v: AggregateView, outcomes: Seq<PageOutcome<Commit>>)
    -> AggregateView
    decreases outcomes.len(),
{
    if outcomes.len() == 0 {
        v
    } else {
        aggregate_run(aggregate_next(v, outcomes[0]), outcomes.drop_first())
    }
}

/// Once the walk before the anchor is over, every outcome goes to the walk
/// after it.
pub proof fn lemma_second_walk_takes_the_rest(v: AggregateView, outcomes: Seq<PageOutcome<Commit>>)
    requires
        v.before.finished,
    ensures
        aggregate_run(v, outcomes) == (AggregateView {
            before: v.before,
            after: walk_run::<CommitTally>(v.after, outcomes),
        }),
    decreases outcomes.len(),
{
    if outcomes.len() > 0 {
        lemma_second_walk_takes_the_rest(aggregate_next(v, outcomes[0]), outcomes.drop_first());
    }
}

/// An aggregation is two walks, one after the other: where the outcomes
/// `first` end the walk before the anchor, and no fewer of them do, the
/// aggregation that is answered with `first` and then with `second` stands
/// where the walk before the anchor stands after `first` and the walk after
/// it stands after `second`.
pub proof fn lemma_aggregation_is_two_walks(
    v: AggregateView,
    first: Seq<PageOutcome<Commit>>,
    second: Seq<PageOutcome<Commit>>,
)
    requires
        walk_run::<CommitTally>(v.before, first).finished,
        forall|k: int|
            0 <= k < first.len() ==> !(#[trigger] walk_run::<CommitTally>(
                v.before,
                first.take(k),
            )).finished,
    ensures
        aggregate_run(v, first + second) == (AggregateView {
            before: walk_run::<CommitTally>(v.before, first),
            after: walk_run::<CommitTally>(v.after, second),
        }),
    decreases first.len(),
{
    if first.len() == 0 {
        assert(first + second =~= second);
        lemma_second_walk_takes_the_rest(v, second);
    } else {
        let all = first + second;
        let rest = first.drop_first();
        assert(first.take(0) =~= Seq::<PageOutcome<Commit>>::empty());
        assert(!walk_run::<CommitTally>(v.before, first.take(0)).finished);
        assert(!v.before.finished);
        assert(all[0] == first[0]);
        assert(all.drop_first() =~= rest + second);
        let next = aggregate_next(v, first[0]);
        assert forall|k: int| 0 <= k < rest.len() implies !(#[trigger] walk_run::<CommitTally>(
            next.before,
            rest.take(k),
        )).finished by {
            let longer = first.take(k + 1);
            assert(longer[0] == first[0]);
            assert(longer.drop_first() =~= rest.take(k));
            assert(!walk_run::<CommitTally>(v.before, longer).finished);
        }
        lemma_aggregation_is_two_walks(next, rest, second);
    }
}

} // verus!
