use scrapwal::errors::ScraperError;
use scrapwal::extract::{discover_total_pages, extract_page};

fn product_json(name: &str, price: &str, reviews: &str, availability: &str, urgency: &str) -> String {
    format!(
        "{{\"name\":\"{}\",\"priceInfo\":{{\"linePriceDisplay\":\"{}\"}},\"imageInfo\":{{\"thumbnailUrl\":\"https://img/{}.jpg\"}},\"numberOfReviews\":{},\"availabilityStatusV2\":{{\"value\":\"{}\"}},\"badges\":{{\"groups\":[{{\"name\":\"urgency\",\"members\":[{{\"text\":\"{}\"}}]}}]}}}}",
        name, price, name, reviews, availability, urgency
    )
}

fn island_json(items: &[String], max_page: u64) -> String {
    format!(
        "{{\"props\":{{\"pageProps\":{{\"initialData\":{{\"contentLayout\":{{\"modules\":[{{\"type\":\"Banner\",\"configs\":null}},{{\"type\":\"ItemStack\",\"configs\":{{\"itemStacks\":{{\"paginationV2\":{{\"maxPage\":{}}},\"itemStacks\":[{{\"items\":[{}]}}]}}}}}}]}}}}}}}}}}",
        max_page,
        items.join(",")
    )
}

fn page_body(inner_json: &str) -> String {
    format!(
        "<html><head></head><body><script id=\"__NEXT_DATA__\">{}</script><p>x</p></body></html>",
        inner_json
    )
}

#[test]
fn extracts_items_and_total_on_first_page() {
    let items = vec![
        product_json("a", "$1", "3", "IN_STOCK", "Only 4 left!"),
        product_json("b", "$2", "null", "OUT_OF_STOCK", "gone"),
    ];
    let body = page_body(&island_json(&items, 17));
    let (products, total) = extract_page(&body, 1).unwrap();
    assert_eq!(total, Some(17));
    assert_eq!(products.len(), 2);
    assert_eq!(products[0].name, "a");
    assert_eq!(products[0].display_price, "$1");
    assert_eq!(products[0].thumbnail_url, "https://img/a.jpg");
    assert_eq!(products[0].review_count, 3);
    assert_eq!(products[0].get_stock_status(), "4");
    assert_eq!(products[1].review_count, 0);
    assert_eq!(products[1].get_stock_status(), "0");
}

#[test]
fn later_pages_carry_no_total() {
    let items = vec![product_json("a", "$1", "3", "IN_STOCK", "x")];
    let body = page_body(&island_json(&items, 17));
    let (products, total) = extract_page(&body, 2).unwrap();
    assert_eq!(total, None);
    assert_eq!(products.len(), 1);
}

#[test]
fn missing_data_island_is_data_not_found() {
    let body = "<html><body><p>nothing here</p></body></html>";
    match extract_page(body, 7) {
        Err(ScraperError::DataNotFound(context)) => {
            assert_eq!(context, "__NEXT_DATA__ script tag on page 7");
        },
        other => panic!("expected DataNotFound, got an Ok: {}", other.is_ok()),
    }
}

#[test]
fn malformed_json_is_a_json_error() {
    let body = page_body("{\"props\": oops");
    assert!(matches!(extract_page(&body, 1), Err(ScraperError::Json(_))));
}

#[test]
fn schema_violation_is_a_json_error() {
    // `name` is required on every product.
    let body = page_body(&island_json(&[String::from("{\"priceInfo\":{}}")], 2));
    match extract_page(&body, 1) {
        Err(ScraperError::Json(context)) => {
            assert_eq!(context, "string field `name` of a product");
        },
        _ => panic!("expected a Json error"),
    }
    // `maxPage` is required in the pagination.
    let inner = "{\"props\":{\"pageProps\":{\"initialData\":{\"contentLayout\":{\"modules\":[{\"type\":\"ItemStack\",\"configs\":{\"itemStacks\":{\"paginationV2\":{},\"itemStacks\":[]}}}]}}}}}";
    match extract_page(&page_body(inner), 1) {
        Err(ScraperError::Json(context)) => {
            assert_eq!(context, "numeric field `maxPage` of the pagination");
        },
        _ => panic!("expected a Json error"),
    }
}

#[test]
fn page_without_listing_module_is_data_not_found() {
    let inner = "{\"props\":{\"pageProps\":{\"initialData\":{\"contentLayout\":{\"modules\":[{\"type\":\"Banner\"}]}}}}}";
    match extract_page(&page_body(inner), 3) {
        Err(ScraperError::DataNotFound(context)) => {
            assert_eq!(context, "ItemStack module on page 3");
        },
        _ => panic!("expected DataNotFound"),
    }
}

#[test]
fn optional_fields_default() {
    let body = page_body(&island_json(&[String::from("{\"name\":\"bare\"}")], 2));
    let (products, _) = extract_page(&body, 1).unwrap();
    assert_eq!(products.len(), 1);
    assert_eq!(products[0].name, "bare");
    assert_eq!(products[0].display_price, "");
    assert_eq!(products[0].thumbnail_url, "");
    assert_eq!(products[0].review_count, 0);
    assert_eq!(products[0].availability, "");
    assert_eq!(products[0].get_stock_status(), "Available (quantity not specified)");
}

#[test]
fn item_groups_flatten_in_order() {
    let inner = format!(
        "{{\"props\":{{\"pageProps\":{{\"initialData\":{{\"contentLayout\":{{\"modules\":[{{\"type\":\"ItemStack\",\"configs\":{{\"itemStacks\":{{\"paginationV2\":{{\"maxPage\":1}},\"itemStacks\":[{{\"items\":[{},{}]}},{{\"items\":[{}]}}]}}}}}}]}}}}}}}}}}",
        product_json("a", "$1", "0", "IN_STOCK", "x"),
        product_json("b", "$2", "0", "IN_STOCK", "x"),
        product_json("c", "$3", "0", "IN_STOCK", "x"),
    );
    let (products, _) = extract_page(&page_body(&inner), 1).unwrap();
    let names: Vec<&str> = products.iter().map(|p| p.name.as_str()).collect();
    assert_eq!(names, vec!["a", "b", "c"]);
}

#[test]
fn first_listing_module_wins() {
    let second = format!(
        "{{\"type\":\"ItemStack\",\"configs\":{{\"itemStacks\":{{\"paginationV2\":{{\"maxPage\":9}},\"itemStacks\":[{{\"items\":[{}]}}]}}}}}}",
        product_json("second", "$2", "0", "IN_STOCK", "x")
    );
    let inner = format!(
        "{{\"props\":{{\"pageProps\":{{\"initialData\":{{\"contentLayout\":{{\"modules\":[{{\"type\":\"ItemStack\",\"configs\":{{\"itemStacks\":{{\"paginationV2\":{{\"maxPage\":4}},\"itemStacks\":[{{\"items\":[{}]}}]}}}}}},{}]}}}}}}}}}}",
        product_json("first", "$1", "0", "IN_STOCK", "x"),
        second
    );
    let (products, total) = extract_page(&page_body(&inner), 1).unwrap();
    assert_eq!(total, Some(4));
    assert_eq!(products.len(), 1);
    assert_eq!(products[0].name, "first");
}

#[test]
fn discovery_yields_the_total_page_count() {
    let items = vec![product_json("a", "$1", "0", "IN_STOCK", "x")];
    let body = page_body(&island_json(&items, 23));
    let (products, total) = discover_total_pages(&body).unwrap();
    assert_eq!(total, 23);
    assert_eq!(products.len(), 1);
}

#[test]
fn discovery_fails_fatally_without_the_total_page_field() {
    // The pagination block, which carries the total, is absent.
    let inner = "{\"props\":{\"pageProps\":{\"initialData\":{\"contentLayout\":{\"modules\":[{\"type\":\"ItemStack\",\"configs\":{\"itemStacks\":{\"itemStacks\":[]}}}]}}}}}";
    assert!(discover_total_pages(&page_body(inner)).is_err());
}

#[test]
fn wrong_field_shapes_fail_the_decode() {
    // A numeric review count must be a non-negative integer.
    let body = page_body(&island_json(
        &[String::from("{\"name\":\"n\",\"numberOfReviews\":\"many\"}")],
        2,
    ));
    assert!(matches!(extract_page(&body, 1), Err(ScraperError::Json(_))));
    // `badges` must be an object when present.
    let body2 = page_body(&island_json(&[String::from("{\"name\":\"n\",\"badges\":3}")], 2));
    assert!(matches!(extract_page(&body2, 1), Err(ScraperError::Json(_))));
}
