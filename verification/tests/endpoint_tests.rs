use issue_harvest::endpoint::{
    comments_page_url, commits_endpoint, commits_page_url, issues_endpoint, issues_page_url,
};
use issue_harvest::record::Repository;

fn repository_with_issues_url(issues_url: &str) -> Repository {
    Repository {
        id: 7,
        name: "engine".to_string(),
        forks_url: "https://api.example/repos/o/engine/forks".to_string(),
        stargazers_url: "https://api.example/repos/o/engine/stargazers".to_string(),
        commits_url: "https://api.example/repos/o/engine/commits{/sha}".to_string(),
        issues_url: issues_url.to_string(),
    }
}

#[test]
fn the_issue_listing_is_the_address_without_its_placeholder() {
    let repository =
        repository_with_issues_url("https://api.example/repos/o/engine/issues{/number}");
    assert_eq!(
        issues_endpoint(&repository),
        Some("https://api.example/repos/o/engine/issues".to_string())
    );
}

#[test]
fn an_issue_address_without_placeholder_has_no_listing() {
    assert_eq!(
        issues_endpoint(&repository_with_issues_url("https://api.example/repos/o/engine/issues")),
        None
    );
    assert_eq!(
        issues_endpoint(&repository_with_issues_url(
            "https://api.example/repos/o/engine/issues{/sha}"
        )),
        None
    );
    assert_eq!(issues_endpoint(&repository_with_issues_url("")), None);
}

#[test]
fn the_commit_listing_is_the_address_without_its_placeholder() {
    assert_eq!(
        commits_endpoint("https://api.example/repos/o/engine/commits{/sha}"),
        Some("https://api.example/repos/o/engine/commits".to_string())
    );
    assert_eq!(commits_endpoint("https://api.example/repos/o/engine/commits"), None);
    assert_eq!(commits_endpoint("https://api.example/repos/o/engine/commits{/number}"), None);
}

#[test]
fn a_page_of_closed_issues() {
    assert_eq!(
        issues_page_url("https://api.example/repos/o/engine/issues", 1),
        "https://api.example/repos/o/engine/issues?page=1&per_page=100&state=closed"
    );
    assert_eq!(
        issues_page_url("https://api.example/repos/o/engine/issues", 49),
        "https://api.example/repos/o/engine/issues?page=49&per_page=100&state=closed"
    );
}

#[test]
fn a_page_of_comments() {
    assert_eq!(
        comments_page_url("https://api.example/repos/o/engine/issues/11/comments", 3),
        "https://api.example/repos/o/engine/issues/11/comments?page=3&per_page=100"
    );
    assert_eq!(comments_page_url("", u32::MAX), "?page=4294967295&per_page=100");
}

#[test]
fn a_page_of_commits_within_a_range() {
    assert_eq!(
        commits_page_url(
            "https://api.example/repos/o/engine/commits",
            2,
            "2023-04-15T00:00:00Z",
            "2023-05-15T00:00:00Z"
        ),
        "https://api.example/repos/o/engine/commits?page=2&per_page=100&since=2023-04-15T00:00:00Z&until=2023-05-15T00:00:00Z"
    );
}
