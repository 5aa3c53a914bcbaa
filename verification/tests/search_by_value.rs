use cx_cli::search_by_value::{check_query, gather_matches, SearchError};

#[test]
fn a_blank_query_is_refused() {
    assert_eq!(check_query("  "), Err(SearchError::EmptyQuery));
    assert_eq!(SearchError::EmptyQuery.message(), "query text cannot be empty");
    assert_eq!(check_query(" 500 "), Ok(()));
}

#[test]
fn a_search_is_refused_only_when_every_profile_failed() {
    let (g, refusal) = gather_matches(vec![
        ("eu".to_string(), Ok(vec![1u32, 2])),
        ("us".to_string(), Err("boom".to_string())),
    ]);
    assert_eq!(g.items, vec![("eu".to_string(), 1), ("eu".to_string(), 2)]);
    assert_eq!(g.errors, vec!["error from profile 'us': boom".to_string()]);
    assert_eq!(refusal, None);
    let (g, refusal) = gather_matches::<u32>(vec![("us".to_string(), Err("boom".to_string()))]);
    assert!(g.items.is_empty());
    assert_eq!(refusal, Some(SearchError::AllProfilesFailed));
    assert_eq!(
        SearchError::AllProfilesFailed.message(),
        "all profiles returned errors; see above for details"
    );
}
