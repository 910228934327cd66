use std::str::FromStr;

use grove::db::{like_pattern, RepoFilter, RepoStatus};

#[test]
fn statuses_read_back() {
    assert_eq!(RepoStatus::Active.as_str(), "active");
    assert_eq!(RepoStatus::Archived.as_str(), "archived");
    assert_eq!(RepoStatus::from_str("archived").unwrap(), RepoStatus::Archived);
    let err = RepoStatus::parse("Active").unwrap_err();
    assert_eq!(err.message(), "Unknown repo status: Active");
    assert_eq!(RepoStatus::parse_or_active("bogus"), RepoStatus::Active);
    assert_eq!(RepoStatus::parse_or_active("archived"), RepoStatus::Archived);
}

#[test]
fn listing_queries() {
    let q = RepoFilter::default().list_query();
    assert_eq!(q.sql, "SELECT * FROM repos WHERE 1=1 ORDER BY frecency DESC, name ASC");
    assert!(q.params.is_empty());
    let q = RepoFilter { status: Some(RepoStatus::Active), directory: Some("work".to_string()) }.list_query();
    assert_eq!(
        q.sql,
        "SELECT * FROM repos WHERE 1=1 AND status = ? AND directory = ? ORDER BY frecency DESC, name ASC"
    );
    assert_eq!(q.params, vec!["active", "work"]);
    let q = RepoFilter { status: None, directory: Some("oss".to_string()) }.list_query();
    assert_eq!(q.sql, "SELECT * FROM repos WHERE 1=1 AND directory = ? ORDER BY frecency DESC, name ASC");
    assert_eq!(q.params, vec!["oss"]);
    assert_eq!(like_pattern("gro"), "%gro%");
}
