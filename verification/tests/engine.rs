use price_compare::compare::{
    discount_bp, CompareError, PriceComparisonRequest, Recommendation, SearchFailure,
    SearchListing,
};
use price_compare::filter::{DedupFilter, FilterError};
use price_compare::index::ProductIndex;
use price_compare::service::{BulkItem, PriceComparisonService};
use price_compare::text::{dedup_key, normalize};

fn request(name: &[u8], price_cents: u64, platform: &[u8]) -> PriceComparisonRequest {
    PriceComparisonRequest {
        product_name: name.to_vec(),
        current_price_cents: price_cents,
        current_platform: platform.to_vec(),
        product_category: None,
        user_id: None,
    }
}

fn listing(platform: &[u8], price_cents: u64, rating_tenths: Option<u8>) -> SearchListing {
    SearchListing {
        platform: platform.to_vec(),
        price_cents,
        url: b"https://example.test/item".to_vec(),
        in_stock: true,
        rating_tenths,
        estimated_delivery: None,
    }
}

#[test]
fn scenario_laptop_best_deal() {
    let mut svc = PriceComparisonService::new();
    let req = request(b"Laptop", 109999, b"Best Buy");
    let outcome = Ok(vec![listing(b"Amazon", 99999, Some(45))]);
    let resp = svc.compare_prices(&req, &outcome).unwrap();
    assert_eq!(resp.best_deal.platform, b"Amazon".to_vec());
    assert_eq!(resp.best_deal.price_cents, 99999);
    assert_eq!(resp.potential_savings_cents, 10000);
    assert_eq!(resp.alternatives.len(), 1);
    match &resp.recommendations[0] {
        Recommendation::Savings { platform, amount_cents } => {
            assert_eq!(platform, &b"Amazon".to_vec());
            assert_eq!(*amount_cents, 10000);
        }
        _ => panic!("expected a savings recommendation first"),
    }
}

#[test]
fn scenario_savings_before_rating() {
    let mut svc = PriceComparisonService::new();
    let req = request(b"Laptop", 109999, b"Best Buy");
    let outcome = Ok(vec![listing(b"Amazon", 99999, Some(45))]);
    let resp = svc.compare_prices(&req, &outcome).unwrap();
    assert_eq!(resp.recommendations.len(), 2);
    assert!(matches!(
        resp.recommendations[0],
        Recommendation::Savings { .. }
    ));
    match &resp.recommendations[1] {
        Recommendation::HighRating { platform, rating_tenths } => {
            assert_eq!(platform, &b"Amazon".to_vec());
            assert_eq!(*rating_tenths, 45);
        }
        _ => panic!("expected a rating recommendation second"),
    }
}

#[test]
fn scenario_no_alternatives() {
    let mut svc = PriceComparisonService::new();
    let req = request(b"Laptop", 109999, b"Best Buy");
    let outcome = Ok(Vec::new());
    let resp = svc.compare_prices(&req, &outcome).unwrap();
    assert_eq!(resp.best_deal.platform, b"Best Buy".to_vec());
    assert_eq!(resp.best_deal.price_cents, 109999);
    assert_eq!(resp.potential_savings_cents, 0);
    assert!(resp.recommendations.is_empty());
    assert!(resp.alternatives.is_empty());
}

#[test]
fn scenario_repeat_request_is_flagged() {
    let mut svc = PriceComparisonService::new();
    let req = request(b"Laptop", 109999, b"Best Buy");
    assert!(!svc.seen_before(&b"Laptop".to_vec(), &b"Best Buy".to_vec()));
    let outcome = Ok(vec![listing(b"Amazon", 99999, Some(45))]);
    svc.compare_prices(&req, &outcome).unwrap();
    assert!(svc.seen_before(&b"Laptop".to_vec(), &b"Best Buy".to_vec()));
    let req2 = request(b"Laptop", 109999, b"Best Buy");
    let outcome2 = Ok(vec![listing(b"Amazon", 99999, Some(45))]);
    let resp2 = svc.compare_prices(&req2, &outcome2).unwrap();
    assert_eq!(resp2.best_deal.platform, b"Amazon".to_vec());
}

#[test]
fn invalid_request_empty_name() {
    let mut svc = PriceComparisonService::new();
    let req = request(b"", 1000, b"Best Buy");
    let outcome = Ok(Vec::new());
    assert_eq!(
        svc.compare_prices(&req, &outcome).unwrap_err(),
        CompareError::InvalidRequest
    );
    assert_eq!(
        PriceComparisonService::validate(&req),
        Err(CompareError::InvalidRequest)
    );
}

#[test]
fn invalid_request_zero_price() {
    let mut svc = PriceComparisonService::new();
    let req = request(b"Laptop", 0, b"Best Buy");
    let outcome = Ok(Vec::new());
    assert_eq!(
        svc.compare_prices(&req, &outcome).unwrap_err(),
        CompareError::InvalidRequest
    );
    assert!(PriceComparisonService::validate(&request(b"Laptop", 1, b"X")).is_ok());
}

#[test]
fn search_failure_is_unavailable() {
    let mut svc = PriceComparisonService::new();
    let req = request(b"Laptop", 109999, b"Best Buy");
    let outcome: Result<Vec<SearchListing>, SearchFailure> = Err(SearchFailure);
    assert_eq!(
        svc.compare_prices(&req, &outcome).unwrap_err(),
        CompareError::SearchUnavailable
    );
    assert!(svc.seen_before(&b"Laptop".to_vec(), &b"Best Buy".to_vec()));
}

#[test]
fn bulk_drops_failing_items() {
    let mut svc = PriceComparisonService::new();
    let items = vec![
        BulkItem {
            request: request(b"Laptop", 109999, b"Best Buy"),
            outcome: Ok(vec![listing(b"Amazon", 99999, Some(45))]),
        },
        BulkItem {
            request: request(b"", 5000, b"Best Buy"),
            outcome: Ok(Vec::new()),
        },
        BulkItem {
            request: request(b"Phone", 0, b"Best Buy"),
            outcome: Ok(Vec::new()),
        },
        BulkItem {
            request: request(b"Monitor", 30000, b"Best Buy"),
            outcome: Ok(vec![listing(b"Newegg", 25000, None)]),
        },
    ];
    let results = svc.compare_bulk(&items);
    assert_eq!(results.len(), 2);
    assert_eq!(results[0].best_deal.platform, b"Amazon".to_vec());
    assert_eq!(results[1].best_deal.platform, b"Newegg".to_vec());
    for r in &results {
        assert!(r.best_deal.price_cents <= r.current_platform.price_cents);
        for alt in &r.alternatives {
            assert!(r.best_deal.price_cents <= alt.price_cents);
        }
    }
}

#[test]
fn bulk_item_search_failure_is_dropped() {
    let mut svc = PriceComparisonService::new();
    let items = vec![
        BulkItem {
            request: request(b"Laptop", 109999, b"Best Buy"),
            outcome: Err(SearchFailure),
        },
        BulkItem {
            request: request(b"Monitor", 30000, b"Best Buy"),
            outcome: Ok(Vec::new()),
        },
    ];
    let results = svc.compare_bulk(&items);
    assert_eq!(results.len(), 1);
    assert_eq!(results[0].current_platform.price_cents, 30000);
}

#[test]
fn filter_has_no_false_negatives() {
    let mut f = DedupFilter::configure(1000, 10000).unwrap();
    let keys: Vec<Vec<u8>> = vec![
        b"laptop-Best Buy".to_vec(),
        b"phone-Amazon".to_vec(),
        b"monitor-Newegg".to_vec(),
    ];
    for k in &keys {
        f.insert(k);
    }
    for k in &keys {
        assert!(f.might_contain(k));
    }
}

#[test]
fn fresh_filter_reports_nothing() {
    let f = DedupFilter::configure(1000, 10000).unwrap();
    assert!(!f.might_contain(&b"anything".to_vec()));
}

#[test]
fn filter_rejects_bad_parameters() {
    assert!(matches!(
        DedupFilter::configure(0, 10000),
        Err(FilterError::InvalidParameter)
    ));
    assert!(matches!(
        DedupFilter::configure(1000, 0),
        Err(FilterError::InvalidParameter)
    ));
    assert!(matches!(
        DedupFilter::configure(1000, 1000000),
        Err(FilterError::InvalidParameter)
    ));
    assert!(DedupFilter::configure(1000, 999999).is_ok());
}

#[test]
fn filter_load_and_reset() {
    let mut f = DedupFilter::configure(100, 10000).unwrap();
    assert_eq!(f.load_permille(), 0);
    f.insert(&b"some key".to_vec());
    assert!(f.load_permille() > 0);
    assert!(f.might_contain(&b"some key".to_vec()));
    f.reset();
    assert_eq!(f.load_permille(), 0);
    assert!(!f.might_contain(&b"some key".to_vec()));
}

#[test]
fn index_contains_after_insert() {
    let mut idx = ProductIndex::new();
    idx.insert(&b"  LapTop   Pro ".to_vec());
    assert!(idx.contains(&b"laptop pro".to_vec()));
    assert!(idx.contains(&b"LAPTOP PRO".to_vec()));
    assert!(!idx.contains(&b"laptop".to_vec()));
    idx.insert(&b"Phone".to_vec());
    idx.insert(&b"laptop pro".to_vec());
    assert!(idx.contains(&b"Laptop Pro".to_vec()));
    assert!(idx.contains(&b"phone".to_vec()));
}

#[test]
fn index_prefix_matches_in_order() {
    let mut idx = ProductIndex::new();
    idx.insert(&b"Laptop Pro".to_vec());
    idx.insert(&b"Phone".to_vec());
    idx.insert(&b"Laptop Air".to_vec());
    idx.insert(&b"Laptop".to_vec());
    let m = idx.prefix_matches(&b"LAP".to_vec(), 10);
    assert_eq!(
        m,
        vec![
            b"laptop pro".to_vec(),
            b"laptop air".to_vec(),
            b"laptop".to_vec()
        ]
    );
    let limited = idx.prefix_matches(&b"lap".to_vec(), 2);
    assert_eq!(
        limited,
        vec![b"laptop pro".to_vec(), b"laptop air".to_vec()]
    );
    assert!(idx.prefix_matches(&b"tablet".to_vec(), 10).is_empty());
}

#[test]
fn normalization_folds_and_collapses() {
    assert_eq!(normalize(&b"  FOO \t  Bar ".to_vec()), b"foo bar".to_vec());
    assert_eq!(normalize(&b"ABC".to_vec()), b"abc".to_vec());
    assert_eq!(normalize(&b"".to_vec()), b"".to_vec());
    assert_eq!(normalize(&b"   ".to_vec()), b"".to_vec());
    assert_eq!(
        dedup_key(&b" LapTop ".to_vec(), &b"Best Buy".to_vec()),
        b"laptop-Best Buy".to_vec()
    );
}

#[test]
fn discount_formula_exact() {
    assert_eq!(discount_bp(10000, 7500), 2500);
    assert_eq!(discount_bp(109999, 99999), 909);
    assert_eq!(discount_bp(100, 200), 0);
    assert_eq!(discount_bp(100, 100), 0);
    assert_eq!(discount_bp(3, 1), 6666);
    assert_eq!(discount_bp(1, 0), 10000);
}

#[test]
fn best_deal_tie_breaks_on_rating_then_order() {
    let mut svc = PriceComparisonService::new();
    let req = request(b"Camera", 50000, b"Best Buy");
    let outcome = Ok(vec![
        listing(b"ShopA", 40000, Some(30)),
        listing(b"ShopB", 40000, Some(47)),
        listing(b"ShopC", 40000, Some(47)),
    ]);
    let resp = svc.compare_prices(&req, &outcome).unwrap();
    assert_eq!(resp.best_deal.platform, b"ShopB".to_vec());
}

#[test]
fn alternative_matching_current_price_wins_by_order() {
    let mut svc = PriceComparisonService::new();
    let req = request(b"Camera", 40000, b"Best Buy");
    let outcome = Ok(vec![listing(b"ShopA", 40000, None)]);
    let resp = svc.compare_prices(&req, &outcome).unwrap();
    assert_eq!(resp.best_deal.platform, b"ShopA".to_vec());
    assert_eq!(resp.potential_savings_cents, 0);
    assert!(resp.recommendations.is_empty());
}

#[test]
fn service_records_known_products() {
    let mut svc = PriceComparisonService::new();
    assert!(!svc.known_product(&b"Laptop".to_vec()));
    let req = request(b"  Laptop  ", 109999, b"Best Buy");
    svc.compare_prices(&req, &Ok(Vec::new())).unwrap();
    assert!(svc.known_product(&b"laptop".to_vec()));
    let sugg = svc.suggestions(&b"lap".to_vec(), 5);
    assert_eq!(sugg, vec![b"laptop".to_vec()]);
}

#[test]
fn failed_search_does_not_record_name() {
    let mut svc = PriceComparisonService::new();
    let req = request(b"Laptop", 109999, b"Best Buy");
    let outcome: Result<Vec<SearchListing>, SearchFailure> = Err(SearchFailure);
    assert!(svc.compare_prices(&req, &outcome).is_err());
    assert!(!svc.known_product(&b"Laptop".to_vec()));
}

#[test]
fn alternative_discounts_are_clamped() {
    let mut svc = PriceComparisonService::new();
    let req = request(b"Camera", 10000, b"Best Buy");
    let outcome = Ok(vec![
        listing(b"Cheap", 7500, None),
        listing(b"Expensive", 20000, None),
    ]);
    let resp = svc.compare_prices(&req, &outcome).unwrap();
    assert_eq!(resp.alternatives[0].discount_bp, 2500);
    assert_eq!(resp.alternatives[1].discount_bp, 0);
    assert_eq!(resp.best_deal.platform, b"Cheap".to_vec());
    assert_eq!(resp.potential_savings_cents, 2500);
}

#[test]
fn discount_at_extremes() {
    assert_eq!(discount_bp(u64::MAX, 0), 10000);
    assert_eq!(discount_bp(u64::MAX, u64::MAX), 0);
    assert_eq!(discount_bp(1, 1), 0);
}

#[test]
fn prefix_matches_limit_zero() {
    let mut idx = ProductIndex::new();
    idx.insert(&b"laptop".to_vec());
    assert!(idx.prefix_matches(&b"lap".to_vec(), 0).is_empty());
    let all = idx.prefix_matches(&b"".to_vec(), 10);
    assert_eq!(all, vec![b"laptop".to_vec()]);
}

#[test]
fn normalization_handles_all_whitespace_kinds() {
    assert_eq!(
        normalize(&b"A\tB\nC\rD".to_vec()),
        b"a b c d".to_vec()
    );
    assert_eq!(normalize(&b"\t\n\r ".to_vec()), b"".to_vec());
}

#[test]
fn savings_with_maximal_price() {
    let mut svc = PriceComparisonService::new();
    let req = request(b"Gold Bar", u64::MAX, b"Best Buy");
    let outcome = Ok(vec![listing(b"Mint", 0, None)]);
    let resp = svc.compare_prices(&req, &outcome).unwrap();
    assert_eq!(resp.potential_savings_cents, u64::MAX);
    assert_eq!(resp.best_deal.price_cents, 0);
    assert_eq!(resp.alternatives[0].discount_bp, 10000);
}

#[test]
fn bulk_duplicate_request_is_idempotent() {
    let mut svc = PriceComparisonService::new();
    let items = vec![
        BulkItem {
            request: request(b"Laptop", 109999, b"Best Buy"),
            outcome: Ok(vec![listing(b"Amazon", 99999, Some(45))]),
        },
        BulkItem {
            request: request(b"Laptop", 109999, b"Best Buy"),
            outcome: Ok(vec![listing(b"Amazon", 99999, Some(45))]),
        },
    ];
    let results = svc.compare_bulk(&items);
    assert_eq!(results.len(), 2);
    assert_eq!(results[0].best_deal.platform, results[1].best_deal.platform);
    assert_eq!(
        results[0].potential_savings_cents,
        results[1].potential_savings_cents
    );
    // The name was recorded once, the state as a single occurrence leaves it.
    assert_eq!(svc.suggestions(&b"lap".to_vec(), 10), vec![b"laptop".to_vec()]);
    assert!(svc.seen_before(&b"Laptop".to_vec(), &b"Best Buy".to_vec()));
}

#[test]
fn repeat_insert_leaves_filter_unchanged() {
    let mut f = DedupFilter::configure(100, 10000).unwrap();
    f.insert(&b"laptop-Best Buy".to_vec());
    let load_once = f.load_permille();
    f.insert(&b"laptop-Best Buy".to_vec());
    assert_eq!(f.load_permille(), load_once);
    assert!(f.might_contain(&b"laptop-Best Buy".to_vec()));
}

#[test]
fn service_reset_clears_filter() {
    let mut svc = PriceComparisonService::new();
    assert_eq!(svc.filter_load_permille(), 0);
    let req = request(b"Laptop", 109999, b"Best Buy");
    svc.compare_prices(&req, &Ok(Vec::new())).unwrap();
    assert!(svc.seen_before(&b"Laptop".to_vec(), &b"Best Buy".to_vec()));
    svc.reset_filter();
    assert_eq!(svc.filter_load_permille(), 0);
    assert!(!svc.seen_before(&b"Laptop".to_vec(), &b"Best Buy".to_vec()));
    // The index is untouched by a filter reset.
    assert!(svc.known_product(&b"laptop".to_vec()));
}
