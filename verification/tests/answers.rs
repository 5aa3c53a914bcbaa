use cx_cli::answers::gather;

#[test]
fn gathering_keeps_profile_order_and_reports_failures() {
    let per_profile = vec![
        ("eu".to_string(), Ok(vec!["a".to_string(), "b".to_string()])),
        ("us".to_string(), Err("timeout".to_string())),
        ("ap".to_string(), Ok(vec!["c".to_string()])),
    ];
    let g = gather(per_profile);
    assert_eq!(
        g.items,
        vec![
            ("eu".to_string(), "a".to_string()),
            ("eu".to_string(), "b".to_string()),
            ("ap".to_string(), "c".to_string()),
        ]
    );
    assert_eq!(g.errors, vec!["error from profile 'us': timeout".to_string()]);
}

#[test]
fn gathering_nothing_gives_nothing() {
    let g = gather::<u32>(vec![]);
    assert!(g.items.is_empty());
    assert!(g.errors.is_empty());
    let g = gather::<u32>(vec![("solo".to_string(), Ok(vec![]))]);
    assert!(g.items.is_empty());
    assert!(g.errors.is_empty());
}

#[test]
fn all_failed_needs_every_profile_to_fail() {
    let failing: Vec<(String, Result<Vec<u8>, String>)> =
        vec![("a".to_string(), Err("x".to_string())), ("b".to_string(), Err("y".to_string()))];
    assert!(cx_cli::answers::all_failed(&failing));
    let mixed: Vec<(String, Result<Vec<u8>, String>)> =
        vec![("a".to_string(), Err("x".to_string())), ("b".to_string(), Ok(vec![]))];
    assert!(!cx_cli::answers::all_failed(&mixed));
    let none: Vec<(String, Result<Vec<u8>, String>)> = vec![];
    assert!(!cx_cli::answers::all_failed(&none));
}
