use issue_harvest::record::{Comment, Commit, Issue};
use issue_harvest::walker::{
    CommentSink, CommitTally, IssueSink, PageOutcome, PageSink, Walk, WalkAction,
    DEFAULT_CEILING, PAGE_DELAY, PER_PAGE,
};
use std::collections::HashSet;

fn heated(id: i32) -> Issue {
    Issue {
        id,
        title: format!("issue {}", id),
        created_at: "2023-05-15T00:00:00Z".to_string(),
        repository_id: None,
        comments_url: format!("https://api.example/issues/{}/comments", id),
        locked: true,
        active_lock_reason: Some("too heated".to_string()),
        state: "closed".to_string(),
    }
}

fn calm(id: i32) -> Issue {
    Issue { locked: false, active_lock_reason: None, ..heated(id) }
}

fn comment(id: i32) -> Comment {
    Comment {
        id,
        body: format!("comment {}", id),
        created_at: "2023-05-16T10:00:00Z".to_string(),
        issue_id: None,
    }
}

fn commits(n: usize) -> Vec<Commit> {
    (0..n).map(|i| Commit { url: format!("https://api.example/commits/{}", i) }).collect()
}

/// Runs a walk against a scripted resource and returns what it gathered
/// together with the requests it made, each as page and delay.
fn run_walk<S: PageSink>(
    sink: S,
    ceiling: u32,
    script: Vec<PageOutcome<S::Item>>,
) -> (S, Vec<(u32, u64)>) {
    let mut answers = script.into_iter();
    let mut requests: Vec<(u32, u64)> = Vec::new();
    let (mut walk, mut action) = Walk::start(sink, ceiling);
    loop {
        match action {
            WalkAction::Finish => break,
            WalkAction::Fetch { page, delay } => {
                requests.push((page, delay));
                let outcome = answers.next().expect("the resource was asked once too often");
                let next = walk.step(outcome);
                walk = next.0;
                action = next.1;
            }
        }
    }
    assert!(walk.is_finished());
    assert!(answers.next().is_none(), "the walk ended before the resource was used up");
    (walk.into_harvest(), requests)
}

fn found_issues(sink: IssueSink) -> HashSet<Issue> {
    sink.found.into_vec().into_iter().collect()
}

#[test]
fn the_constants_of_a_walk() {
    assert_eq!(PER_PAGE, 100);
    assert_eq!(PAGE_DELAY, 5);
    assert_eq!(DEFAULT_CEILING, 50);
}

#[test]
fn pages_are_gathered_until_the_empty_page() {
    let script = vec![
        PageOutcome::Page(vec![heated(1), heated(2)]),
        PageOutcome::Page(vec![heated(3)]),
        PageOutcome::Page(vec![]),
    ];
    let (sink, requests) = run_walk(IssueSink::new(7), DEFAULT_CEILING, script);
    let expected: HashSet<Issue> =
        vec![heated(1).stamped(7), heated(2).stamped(7), heated(3).stamped(7)]
            .into_iter()
            .collect();
    assert_eq!(found_issues(sink), expected);
    assert_eq!(requests, vec![(1, 0), (2, 5), (3, 5)]);
}

#[test]
fn the_order_within_a_page_is_of_no_account() {
    let script = vec![
        PageOutcome::Page(vec![heated(2), heated(1)]),
        PageOutcome::Page(vec![heated(3)]),
        PageOutcome::Page(vec![]),
    ];
    let (sink, requests) = run_walk(IssueSink::new(7), DEFAULT_CEILING, script);
    let expected: HashSet<Issue> =
        vec![heated(1).stamped(7), heated(2).stamped(7), heated(3).stamped(7)]
            .into_iter()
            .collect();
    assert_eq!(found_issues(sink), expected);
    assert_eq!(requests.len(), 3);
}

#[test]
fn an_empty_first_page_ends_the_walk_after_one_request() {
    let (sink, requests) =
        run_walk(IssueSink::new(7), DEFAULT_CEILING, vec![PageOutcome::Page(vec![])]);
    assert!(sink.found.is_empty());
    assert_eq!(sink.found.len(), 0);
    assert_eq!(requests, vec![(1, 0)]);
}

#[test]
fn only_too_heated_issues_are_kept_and_each_is_stamped() {
    let script = vec![
        PageOutcome::Page(vec![calm(1), heated(2), calm(3)]),
        PageOutcome::Page(vec![calm(4)]),
        PageOutcome::Page(vec![]),
    ];
    let (sink, requests) = run_walk(IssueSink::new(9), DEFAULT_CEILING, script);
    assert_eq!(sink.repository_id, 9);
    assert_eq!(sink.found.into_vec(), vec![heated(2).stamped(9)]);
    assert_eq!(requests, vec![(1, 0), (2, 5), (3, 5)]);
}

#[test]
fn a_page_without_accepted_items_does_not_end_the_walk() {
    let script = vec![
        PageOutcome::Page(vec![calm(1)]),
        PageOutcome::Page(vec![heated(2)]),
        PageOutcome::Page(vec![]),
    ];
    let (sink, requests) = run_walk(IssueSink::new(9), DEFAULT_CEILING, script);
    assert_eq!(sink.found.len(), 1);
    assert_eq!(requests.len(), 3);
}

#[test]
fn duplicates_across_pages_collapse() {
    let script = vec![
        PageOutcome::Page(vec![heated(1), heated(2), heated(1)]),
        PageOutcome::Page(vec![heated(2), heated(3)]),
        PageOutcome::Page(vec![]),
    ];
    let (sink, _) = run_walk(IssueSink::new(7), DEFAULT_CEILING, script);
    assert_eq!(sink.found.len(), 3);
}

#[test]
fn a_failed_request_is_repeated_at_once_on_the_same_page() {
    let script = vec![
        PageOutcome::TransportFailure,
        PageOutcome::Page(vec![heated(1)]),
        PageOutcome::DecodeFailure,
        PageOutcome::TransportFailure,
        PageOutcome::Page(vec![heated(2)]),
        PageOutcome::DecodeFailure,
        PageOutcome::Page(vec![]),
    ];
    let (sink, requests) = run_walk(IssueSink::new(7), DEFAULT_CEILING, script);
    assert_eq!(
        requests,
        vec![(1, 0), (1, 0), (2, 5), (2, 0), (2, 0), (3, 5), (3, 0)]
    );
    let expected: HashSet<Issue> =
        vec![heated(1).stamped(7), heated(2).stamped(7)].into_iter().collect();
    assert_eq!(found_issues(sink), expected);
}

#[test]
fn failures_do_not_change_what_is_gathered() {
    let with_failures = vec![
        PageOutcome::DecodeFailure,
        PageOutcome::Page(vec![heated(1), calm(5)]),
        PageOutcome::TransportFailure,
        PageOutcome::Page(vec![heated(2)]),
        PageOutcome::Page(vec![]),
    ];
    let without = vec![
        PageOutcome::Page(vec![heated(1), calm(5)]),
        PageOutcome::Page(vec![heated(2)]),
        PageOutcome::Page(vec![]),
    ];
    let (a, _) = run_walk(IssueSink::new(7), DEFAULT_CEILING, with_failures);
    let (b, _) = run_walk(IssueSink::new(7), DEFAULT_CEILING, without);
    assert_eq!(found_issues(a), found_issues(b));
}

#[test]
fn the_ceiling_ends_the_walk() {
    let script = vec![
        PageOutcome::Page(vec![comment(1)]),
        PageOutcome::Page(vec![comment(2)]),
        PageOutcome::Page(vec![comment(3)]),
    ];
    let (sink, requests) = run_walk(CommentSink::new(11), 4, script);
    assert_eq!(requests, vec![(1, 0), (2, 5), (3, 5)]);
    assert_eq!(sink.found.len(), 3);
}

#[test]
fn the_customary_ceiling_allows_forty_nine_pages() {
    let script: Vec<PageOutcome<Commit>> =
        (0..49).map(|_| PageOutcome::Page(commits(100))).collect();
    let (tally, requests) = run_walk(CommitTally::new(), DEFAULT_CEILING, script);
    assert_eq!(requests.len(), 49);
    assert_eq!(requests.last(), Some(&(49, 5)));
    assert_eq!(tally.count, 4900);
}

#[test]
fn a_ceiling_of_one_or_less_asks_for_nothing() {
    let (walk, action) = Walk::start(CommitTally::new(), 0);
    assert_eq!(action, WalkAction::Finish);
    assert!(walk.is_finished());
    let (walk, action) = Walk::start(CommitTally::new(), 1);
    assert_eq!(action, WalkAction::Finish);
    assert!(walk.is_finished());
    assert_eq!(walk.into_harvest().count, 0);
}

#[test]
fn a_ceiling_of_two_asks_for_one_page() {
    let (tally, requests) =
        run_walk(CommitTally::new(), 2, vec![PageOutcome::Page(commits(3))]);
    assert_eq!(requests, vec![(1, 0)]);
    assert_eq!(tally.count, 3);
}

#[test]
fn a_finished_walk_takes_nothing_more() {
    let (walk, _) = Walk::start(CommitTally::new(), DEFAULT_CEILING);
    let (walk, action) = walk.step(PageOutcome::Page(commits(2)));
    assert_eq!(action, WalkAction::Fetch { page: 2, delay: 5 });
    assert_eq!(walk.page(), 2);
    let (walk, action) = walk.step(PageOutcome::Page(vec![]));
    assert_eq!(action, WalkAction::Finish);
    let (walk, action) = walk.step(PageOutcome::Page(commits(5)));
    assert_eq!(action, WalkAction::Finish);
    let (walk, action) = walk.step(PageOutcome::TransportFailure);
    assert_eq!(action, WalkAction::Finish);
    assert!(walk.is_finished());
    assert_eq!(walk.page(), 2);
    assert_eq!(walk.harvest().count, 2);
}

#[test]
fn comments_are_all_kept_and_stamped() {
    let script = vec![
        PageOutcome::Page(vec![comment(1), comment(2)]),
        PageOutcome::Page(vec![comment(2), comment(3)]),
        PageOutcome::Page(vec![]),
    ];
    let (sink, requests) = run_walk(CommentSink::new(11), DEFAULT_CEILING, script);
    assert_eq!(sink.issue_id, 11);
    let found: HashSet<Comment> = sink.found.into_vec().into_iter().collect();
    let expected: HashSet<Comment> =
        vec![comment(1).stamped(11), comment(2).stamped(11), comment(3).stamped(11)]
            .into_iter()
            .collect();
    assert_eq!(found, expected);
    assert_eq!(requests.len(), 3);
}

#[test]
fn commits_are_counted_not_compared() {
    let script = vec![
        PageOutcome::Page(commits(3)),
        PageOutcome::Page(commits(3)),
        PageOutcome::Page(commits(1)),
        PageOutcome::Page(vec![]),
    ];
    let (tally, _) = run_walk(CommitTally::new(), DEFAULT_CEILING, script);
    assert_eq!(tally.count, 7);
}

#[test]
fn a_tally_stays_at_the_largest_count() {
    let mut tally = CommitTally { count: u64::MAX - 2 };
    tally.absorb(commits(2));
    assert_eq!(tally.count, u64::MAX);
    tally.absorb(commits(5));
    assert_eq!(tally.count, u64::MAX);
    let mut tally = CommitTally { count: u64::MAX - 2 };
    tally.absorb(commits(3));
    assert_eq!(tally.count, u64::MAX);
}

#[test]
fn a_sink_absorbs_a_page_on_its_own() {
    let mut sink = IssueSink::new(3);
    sink.absorb(vec![heated(1), calm(2)]);
    sink.absorb(vec![]);
    sink.absorb(vec![heated(1)]);
    assert_eq!(sink.found.into_vec(), vec![heated(1).stamped(3)]);
}
