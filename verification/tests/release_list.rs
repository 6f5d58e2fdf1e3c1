use caustic::app::{
    format_created, is_release_tag, release_sort_key, releases_newest_first, should_fetch,
    FetchStatus,
};
use caustic::i18n::Lang;
use caustic::installer::Installer;

fn installer_with_tags(n: usize) -> Installer {
    let (mut inst, _action) = Installer::init(true, false, Lang::En, true);
    inst.tags = (0..n).map(|i| format!("v{i}")).collect();
    inst.current_page = 0;
    inst
}

#[test]
fn total_pages_empty_is_one() {
    let inst = installer_with_tags(0);
    assert_eq!(inst.total_pages(), 1);
}

#[test]
fn total_pages_exact_multiple() {
    let inst = installer_with_tags(20);
    assert_eq!(inst.total_pages(), 2);
}

#[test]
fn total_pages_partial_page() {
    let inst = installer_with_tags(23);
    assert_eq!(inst.total_pages(), 3);
}

#[test]
fn goto_page_clamps_high() {
    let mut inst = installer_with_tags(15);
    let _ = inst.goto_page(100);
    assert_eq!(inst.current_page, 1);
}

#[test]
fn goto_page_clamps_to_last() {
    let mut inst = installer_with_tags(25);
    let _ = inst.goto_page(usize::MAX);
    assert_eq!(inst.current_page, 2);
}

#[test]
fn goto_page_no_op_when_same() {
    let mut inst = installer_with_tags(25);
    inst.current_page = 1;
    let _ = inst.goto_page(1);
    assert_eq!(inst.current_page, 1);
}

#[test]
fn should_fetch_retries_failed_and_idle() {
    assert!(should_fetch(FetchStatus::Idle));
    assert!(should_fetch(FetchStatus::Failed));
    assert!(!should_fetch(FetchStatus::Loading));
    assert!(!should_fetch(FetchStatus::Done));
}

#[test]
fn format_created_strips_time_portion() {
    assert_eq!(format_created("2024-01-02T03:04:05Z"), "2024-01-02");
}

#[test]
fn format_created_returns_date_only() {
    assert_eq!(format_created("2026-08-11"), "2026-08-11");
}

#[test]
fn format_created_keeps_non_date_unchanged() {
    assert_eq!(format_created("not-a-date"), "not-a-date");
    assert_eq!(format_created("v1.0.0"), "v1.0.0");
}

#[test]
fn format_created_short_input_unchanged() {
    assert_eq!(format_created("2024"), "2024");
}

#[test]
fn format_created_of_its_own_output_is_unchanged() {
    let once = format_created("2024-01-02T03:04:05Z");
    assert_eq!(format_created(&once), once);
}

#[test]
fn accepts_calver_tags() {
    assert!(is_release_tag("2026.08.11"));
    assert!(is_release_tag("2026.8.11"));
    assert!(is_release_tag("2026.12.0"));
    assert!(is_release_tag("1999.1.100"));
    assert!(is_release_tag("0000.00.00"));
}

#[test]
fn rejects_non_release_tags() {
    assert!(!is_release_tag("sha256-deadbeef.sig"));
    assert!(!is_release_tag("sha256-deadbeef"));
    assert!(!is_release_tag("main"));
    assert!(!is_release_tag("latest"));
    assert!(!is_release_tag("v1.0.0"));
    assert!(!is_release_tag("abc1234"));
    assert!(!is_release_tag("2026.08"));
    assert!(!is_release_tag("2026.08.11.1"));
    assert!(!is_release_tag("2026.08.11-rc1"));
    assert!(!is_release_tag(""));
    assert!(!is_release_tag("2026.08.11 "));
}

#[test]
fn sort_key_is_leading_zero_invariant() {
    assert_eq!(release_sort_key("2026.08.11"), (2026, 8, 11));
    assert_eq!(release_sort_key("2026.08.11"), release_sort_key("2026.8.11"));
}

#[test]
fn sort_key_orders_newest_first() {
    let mut tags = vec![
        "2026.07.28".to_string(),
        "2026.08.11".to_string(),
        "2026.08.04".to_string(),
        "2025.12.31".to_string(),
    ];
    tags.sort_by_key(|a| std::cmp::Reverse(release_sort_key(a)));
    assert_eq!(tags, vec!["2026.08.11", "2026.08.04", "2026.07.28", "2025.12.31"]);
}

#[test]
fn sort_key_of_malformed_parts_is_zero() {
    assert_eq!(release_sort_key("latest"), (0, 0, 0));
    assert_eq!(release_sort_key("2026.x.3"), (2026, 0, 3));
    assert_eq!(release_sort_key("2026.99999999999.3"), (2026, 0, 3));
}

#[test]
fn releases_newest_first_filters_and_orders() {
    let tags = vec![
        "2026.07.28".to_string(),
        "latest".to_string(),
        "2026.08.11".to_string(),
        "sha256-abc.sig".to_string(),
        "2026.08.04".to_string(),
        "2025.12.31".to_string(),
    ];
    assert_eq!(
        releases_newest_first(&tags),
        vec!["2026.08.11", "2026.08.04", "2026.07.28", "2025.12.31"]
    );
}

#[test]
fn releases_newest_first_keeps_order_of_equal_keys() {
    let tags = vec![
        "2026.8.11".to_string(),
        "2025.1.1".to_string(),
        "2026.08.11".to_string(),
    ];
    assert_eq!(
        releases_newest_first(&tags),
        vec!["2026.8.11", "2026.08.11", "2025.1.1"]
    );
}

#[test]
fn releases_newest_first_of_nothing_is_empty() {
    assert!(releases_newest_first(&Vec::new()).is_empty());
}

#[test]
fn ordering_an_ordered_list_changes_nothing() {
    let tags = vec![
        "2025.1.1".to_string(),
        "main".to_string(),
        "2026.8.11".to_string(),
        "2026.08.11".to_string(),
        "2026.1.2".to_string(),
    ];
    let once = releases_newest_first(&tags);
    assert_eq!(releases_newest_first(&once), once);
}
