//! The addresses that are requested: endpoints cut from the templates a
//! repository carries, and the address of each page of a listing.

use crate::record::Repository;
use crate::text::{append_decimal, decimal, ends_with, strip_suffix};
use crate::walker::PER_PAGE;
use vstd::prelude::*;
use vstd::string::*;

verus! {

/// The placeholder that ends the issue address of a repository.
pub open spec fn issue_placeholder() -> Seq<char> {
    "{/number}"@
}

/// The placeholder that ends the commit address of a repository.
pub open spec fn commit_placeholder() -> Seq<char> {
    "{/sha}"@
}

/// The part of a page address that names the page and the page size.
pub open spec fn page_query(page: nat) -> Seq<char> {
    "?page="@ + decimal(page) + "&per_page="@ + decimal(PER_PAGE as nat)
}

/// The address of page `page` of the closed issues under `endpoint`.
pub open spec fn issues_page(endpoint: Seq<char>, page: nat) -> Seq<char> {
    endpoint + page_query(page) + "&state=closed"@
}

/// The address of page `page` of the comments under `endpoint`.
pub open spec fn comments_page(endpoint: Seq<char>, page: nat) -> Seq<char> {
    endpoint + page_query(page)
}

/// The address of page `page` of the commits under `endpoint` that were made
/// from `since` to `until`.
pub open spec fn commits_page(
    endpoint: Seq<char>,
    page: nat,
    since: Seq<char>,
    until: Seq<char>,
) -> Seq<char> {
    endpoint + page_query(page) + "&since="@ + since + "&until="@ + until
}

/// The issue listing of `repository`: its issue address without the
/// placeholder. `None` exactly when the address does not end with it.
pub fn issues_endpoint(repository: &Repository) -> (r: Option<String>)
    ensures
        match r {
            Some(endpoint) => endpoint@ + issue_placeholder() == repository.issues_url@,
            None => !ends_with(repository.issues_url@, issue_placeholder()),
        },
{
    strip_suffix(repository.issues_url.as_str(), "{/number}")
}

/// The commit listing behind the commit address `commits_url`: the address
/// without the placeholder. `None` exactly when it does not end with it.
pub fn commits_endpoint(commits_url: &str) -> (r: Option<String>)
    ensures
        match r {
            Some(endpoint) => endpoint@ + commit_placeholder() == commits_url@,
            None => !ends_with(commits_url@, commit_placeholder()),
        },
{
    strip_suffix(commits_url, "{/sha}")
}

fn append_page_query(url: &mut String, page: u32)
    ensures
        final(url)@ == old(url)@ + page_query(page as nat),
{
    url.append("?page=");
    append_decimal(url, page as u64);
    url.append("&per_page=");
    append_decimal(url, PER_PAGE as u64);
    assert(url@ =~= old(url)@ + page_query(page as nat));
}

/// The address of page `page` of the closed issues under `endpoint`.
pub fn issues_page_url(endpoint: &str, page: u32) -> (url: String)
    ensures
        url@ == issues_page(endpoint@, page as nat),
{
    let mut url: String = String::from_str(endpoint);
    append_page_query(&mut url, page);
    url.append("&state=closed");
    url
}

/// The address of page `page` of the comments under `endpoint`.
pub fn comments_page_url(endpoint: &str, page: u32) -> (url: String)
    ensures
        url@ == comments_page(endpoint@, page as nat),
{
    let mut url: String = String::from_str(endpoint);
    append_page_query(&mut url, page);
    url
}

/// The address of page `page` of the commits under `endpoint` that were made
/// from `since` to `until`.
pub fn commits_page_url(endpoint: &str, page: u32, since: &str, until: &str) -> (url: String)
    ensures
        url@ == commits_page(endpoint@, page as nat, since@, until@),
{
    let mut url: String = String::from_str(endpoint);
    append_page_query(&mut url, page);
    url.append("&since=");
    url.append(since);
    url.append("&until=");
    url.append(until);
    url
}

} // verus!
