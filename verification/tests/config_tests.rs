use issue_harvest::config::{request_headers, select_mode, ConfigError, Mode, Options};

fn options(iterations: Option<u32>, populate_comments: bool, generate_csv: bool) -> Options {
    Options {
        database_url: "sqlite://harvest.db".to_string(),
        iterations,
        populate_comments,
        generate_csv,
    }
}

#[test]
fn a_number_of_listings_selects_discovery() {
    assert_eq!(
        select_mode(&options(Some(25), false, false)),
        Ok(Mode::Discover { iterations: 25 })
    );
    assert_eq!(select_mode(&options(Some(0), false, false)), Ok(Mode::Discover { iterations: 0 }));
}

#[test]
fn the_switch_for_comments_comes_first() {
    assert_eq!(select_mode(&options(None, true, false)), Ok(Mode::EnrichComments));
    assert_eq!(select_mode(&options(Some(3), true, false)), Ok(Mode::EnrichComments));
    assert_eq!(select_mode(&options(Some(3), true, true)), Ok(Mode::EnrichComments));
}

#[test]
fn the_switch_for_the_report_comes_second() {
    assert_eq!(select_mode(&options(None, false, true)), Ok(Mode::ExportCsv));
    assert_eq!(select_mode(&options(Some(3), false, true)), Ok(Mode::ExportCsv));
}

#[test]
fn without_switch_and_number_there_is_no_mode() {
    assert_eq!(select_mode(&options(None, false, false)), Err(ConfigError::MissingIterations));
}

#[test]
fn the_headers_of_a_request() {
    let headers = request_headers("s3cr3t");
    assert_eq!(headers.accept, "application/vnd.github+json");
    assert_eq!(headers.user_agent, "toxicity-metodologia");
    assert_eq!(headers.authorization, "Bearer s3cr3t");
    assert_eq!(request_headers("").authorization, "Bearer ");
}
