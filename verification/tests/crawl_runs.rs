use scrapwal::crawl::{
    concurrency_limit, header_record, make_page_url, pages_to_schedule, run_crawl_model, sink_rows,
};
use scrapwal::decode::{ItemGroup, ItemListing, PageModule, PageTree};
use scrapwal::errors::ScraperError;
use scrapwal::product::Product;
use scrapwal::retry::{fetch_trace, make_policy, retry_step, AttemptOutcome, RetryDecision};

fn product(name: &str) -> Product {
    Product {
        name: String::from(name),
        display_price: String::from("$1.00"),
        thumbnail_url: String::new(),
        review_count: 0,
        availability: String::from("IN_STOCK"),
        badge_groups: vec![],
    }
}

fn listing_page(names: &[&str], max_page: u64) -> PageTree {
    PageTree {
        modules: vec![
            PageModule { module_type: String::from("Banner"), listing: None },
            PageModule {
                module_type: String::from("ItemStack"),
                listing: Some(ItemListing {
                    max_page,
                    groups: vec![ItemGroup { items: names.iter().map(|n| product(n)).collect() }],
                }),
            },
        ],
    }
}

fn empty_page() -> PageTree {
    PageTree {
        modules: vec![PageModule { module_type: String::from("Banner"), listing: None }],
    }
}

#[test]
fn three_pages_all_succeed() {
    // 3 pages: 5, 4 and 6 items; 1 header + 15 data rows, page 1 first.
    let first = listing_page(&["a1", "a2", "a3", "a4", "a5"], 3);
    let later = vec![
        Some(listing_page(&["b1", "b2", "b3", "b4"], 3)),
        Some(listing_page(&["c1", "c2", "c3", "c4", "c5", "c6"], 3)),
    ];
    let (total, rows) = run_crawl_model(first, later).unwrap();
    assert_eq!(total, 3);
    assert_eq!(rows.len(), 16);
    assert_eq!(
        rows[0],
        vec!["Product Name", "Price", "Image URL", "Reviews Count", "Stock Status"]
    );
    let first_five: Vec<&str> = rows[1..6].iter().map(|r| r[0].as_str()).collect();
    assert_eq!(first_five, vec!["a1", "a2", "a3", "a4", "a5"]);
    assert_eq!(rows[6][0], "b1");
    assert_eq!(rows[10][0], "c1");
}

#[test]
fn failed_page_is_skipped_and_the_run_succeeds() {
    let first = listing_page(&["a1", "a2", "a3", "a4", "a5"], 3);
    let all_later = vec![
        Some(listing_page(&["b1", "b2", "b3", "b4"], 3)),
        Some(listing_page(&["c1", "c2", "c3", "c4", "c5", "c6"], 3)),
    ];
    let first_again = listing_page(&["a1", "a2", "a3", "a4", "a5"], 3);
    let page2_failed = vec![
        None,
        Some(listing_page(&["c1", "c2", "c3", "c4", "c5", "c6"], 3)),
    ];
    let (_, all_rows) = run_crawl_model(first, all_later).unwrap();
    let (total, rows) = run_crawl_model(first_again, page2_failed).unwrap();
    assert_eq!(total, 3);
    // The skipped page takes exactly its 4 items out of the output.
    assert_eq!(rows.len(), all_rows.len() - 4);
    assert_eq!(rows.len(), 12);
    assert_eq!(rows[6][0], "c1");
}

#[test]
fn discovery_failure_is_fatal_before_any_later_page() {
    let later = vec![Some(listing_page(&["b1"], 3))];
    match run_crawl_model(empty_page(), later) {
        Err(ScraperError::DataNotFound(context)) => {
            assert_eq!(context, "ItemStack module on page 1");
        },
        _ => panic!("expected a fatal DataNotFound"),
    }
}

#[test]
fn later_page_without_listing_is_skipped() {
    let first = listing_page(&["a1"], 2);
    let later = vec![Some(empty_page())];
    let (_, rows) = run_crawl_model(first, later).unwrap();
    assert_eq!(rows.len(), 2);
}

#[test]
fn outcomes_beyond_the_total_are_not_scheduled() {
    let first = listing_page(&["a1"], 2);
    let later = vec![
        Some(listing_page(&["b1"], 2)),
        Some(listing_page(&["z1"], 2)),
    ];
    let (_, rows) = run_crawl_model(first, later).unwrap();
    assert_eq!(rows.len(), 3);
    assert_eq!(rows[2][0], "b1");
}

#[test]
fn sink_writes_header_then_batches_in_order() {
    let batches = vec![
        vec![product("x")],
        vec![],
        vec![product("y"), product("z")],
    ];
    let rows = sink_rows(&batches);
    assert_eq!(rows.len(), 4);
    assert_eq!(rows[0], header_record());
    assert_eq!(rows[1][0], "x");
    assert_eq!(rows[2][0], "y");
    assert_eq!(rows[3][0], "z");
}

#[test]
fn schedule_covers_pages_two_through_total() {
    assert_eq!(pages_to_schedule(3), vec![2, 3]);
    assert_eq!(pages_to_schedule(1), Vec::<u64>::new());
    assert_eq!(pages_to_schedule(0), Vec::<u64>::new());
    assert_eq!(pages_to_schedule(2), vec![2]);
}

#[test]
fn page_url_appends_the_page_parameter() {
    assert_eq!(
        make_page_url("https://example.com/shopall?povid=x", 7),
        "https://example.com/shopall?povid=x&page=7"
    );
    assert_eq!(make_page_url("https://example.com/s?a=1", 1), "https://example.com/s?a=1&page=1");
}

#[test]
fn concurrency_clamps_to_page_count() {
    assert_eq!(concurrency_limit(3, 100), 3);
    assert_eq!(concurrency_limit(250, 100), 100);
}

#[test]
fn exhausted_retries_follow_exponential_backoff() {
    let policy = make_policy(3, 500).unwrap();
    let outcomes = vec![
        AttemptOutcome::TransportError,
        AttemptOutcome::HttpFailure,
        AttemptOutcome::TransportError,
        AttemptOutcome::HttpFailure,
    ];
    let (accepted, delays) = fetch_trace(&policy, &outcomes);
    assert_eq!(accepted, None);
    // Retries equal the configured maximum, delays strictly increasing.
    assert_eq!(delays, vec![500, 1000, 2000]);
    for w in delays.windows(2) {
        assert!(w[0] < w[1]);
    }
}

#[test]
fn success_stops_the_retrying() {
    let policy = make_policy(3, 500).unwrap();
    let outcomes = vec![
        AttemptOutcome::HttpFailure,
        AttemptOutcome::HttpFailure,
        AttemptOutcome::Delivered,
    ];
    let (accepted, delays) = fetch_trace(&policy, &outcomes);
    assert_eq!(accepted, Some(2));
    assert_eq!(delays, vec![500, 1000]);
}

#[test]
fn retry_decisions_per_attempt() {
    let policy = make_policy(3, 500).unwrap();
    assert!(matches!(
        retry_step(&policy, 0, &AttemptOutcome::Delivered),
        RetryDecision::Accept
    ));
    assert!(matches!(
        retry_step(&policy, 0, &AttemptOutcome::TransportError),
        RetryDecision::RetryAfter(500)
    ));
    assert!(matches!(
        retry_step(&policy, 2, &AttemptOutcome::HttpFailure),
        RetryDecision::RetryAfter(2000)
    ));
    assert!(matches!(
        retry_step(&policy, 3, &AttemptOutcome::HttpFailure),
        RetryDecision::GiveUp
    ));
}

#[test]
fn unusable_policies_are_refused() {
    assert!(make_policy(64, u64::MAX).is_none());
    assert!(make_policy(0, u64::MAX).is_some());
    assert!(make_policy(63, 1).is_some());
    assert!(make_policy(64, 1).is_none());
    assert!(make_policy(3, 500).is_some());
}
