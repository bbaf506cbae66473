use scrapwal::product::{BadgeGroup, BadgeMember, Product};
use scrapwal::errors::ScraperError;
use scrapwal::seller::extract_seller_id;
use scrapwal::text::{i32_to_string, parse_i32_token, split_tokens, u64_to_string};

fn product(availability: &str, badge_groups: Vec<BadgeGroup>) -> Product {
    Product {
        name: String::from("Widget"),
        display_price: String::from("$9.99"),
        thumbnail_url: String::from("https://example.com/w.jpg"),
        review_count: 12,
        availability: String::from(availability),
        badge_groups,
    }
}

fn group(name: &str, texts: &[&str]) -> BadgeGroup {
    BadgeGroup {
        name: String::from(name),
        members: texts.iter().map(|t| BadgeMember { text: String::from(*t) }).collect(),
    }
}

#[test]
fn out_of_stock_wins_over_any_badges() {
    let p = product(
        "OUT_OF_STOCK",
        vec![group("urgency", &["Only 3 left!"]), group("other", &["x"])],
    );
    assert_eq!(p.get_stock_status(), "0");
    let q = product("OUT_OF_STOCK", vec![]);
    assert_eq!(q.get_stock_status(), "0");
}

#[test]
fn urgency_badge_quantity() {
    let p = product("IN_STOCK", vec![group("urgency", &["Only 3 left!"])]);
    assert_eq!(p.get_stock_status(), "3");
}

#[test]
fn no_urgency_group_falls_back() {
    let p = product("IN_STOCK", vec![group("promo", &["Only 3 left!"])]);
    assert_eq!(p.get_stock_status(), "Available (quantity not specified)");
    let q = product("IN_STOCK", vec![]);
    assert_eq!(q.get_stock_status(), "Available (quantity not specified)");
}

#[test]
fn first_matching_group_and_first_member_win() {
    let p = product(
        "IN_STOCK",
        vec![
            group("promo", &["Only 9 left!"]),
            group("urgency", &["Hurry, 5 remain", "Only 2 left!"]),
            group("urgency", &["Only 8 left!"]),
        ],
    );
    assert_eq!(p.get_stock_status(), "5");
}

#[test]
fn first_parseable_token_wins() {
    let p = product("IN_STOCK", vec![group("urgency", &["Only three 4 5 left"])]);
    assert_eq!(p.get_stock_status(), "4");
}

#[test]
fn urgency_without_members_falls_back() {
    let p = product("IN_STOCK", vec![group("urgency", &[])]);
    assert_eq!(p.get_stock_status(), "Available (quantity not specified)");
}

#[test]
fn urgency_without_integer_token_falls_back() {
    let p = product("IN_STOCK", vec![group("urgency", &["Selling fast!"])]);
    assert_eq!(p.get_stock_status(), "Available (quantity not specified)");
}

#[test]
fn negative_and_signed_tokens_parse() {
    let p = product("IN_STOCK", vec![group("urgency", &["at -3 now"])]);
    assert_eq!(p.get_stock_status(), "-3");
    let q = product("IN_STOCK", vec![group("urgency", &["at +7 now"])]);
    assert_eq!(q.get_stock_status(), "7");
}

#[test]
fn out_of_range_token_is_no_integer() {
    let p = product("IN_STOCK", vec![group("urgency", &["99999999999 items"])]);
    assert_eq!(p.get_stock_status(), "Available (quantity not specified)");
}

#[test]
fn csv_record_columns() {
    let p = product("IN_STOCK", vec![group("urgency", &["Only 2 left!"])]);
    let record = p.to_csv_record();
    assert_eq!(
        record,
        vec![
            String::from("Widget"),
            String::from("$9.99"),
            String::from("https://example.com/w.jpg"),
            String::from("12"),
            String::from("2"),
        ]
    );
}

#[test]
fn decimal_rendering() {
    assert_eq!(u64_to_string(0), "0");
    assert_eq!(u64_to_string(7), "7");
    assert_eq!(u64_to_string(1234567890123), "1234567890123");
    assert_eq!(i32_to_string(-2147483648), "-2147483648");
    assert_eq!(i32_to_string(2147483647), "2147483647");
    assert_eq!(i32_to_string(0), "0");
}

#[test]
fn token_splitting() {
    assert_eq!(split_tokens("Only 3 left!"), vec!["Only", "3", "left!"]);
    assert_eq!(split_tokens("   "), Vec::<String>::new());
    assert_eq!(split_tokens("\tone\n two "), vec!["one", "two"]);
}

#[test]
fn unicode_whitespace_splits_tokens() {
    // No-break space, narrow no-break space and ideographic space are
    // all token separators, as in Rust's own whitespace splitting.
    assert_eq!(split_tokens("Only\u{a0}3\u{202f}left\u{3000}!"), vec!["Only", "3", "left", "!"]);
    let p = product("IN_STOCK", vec![group("urgency", &["Only\u{a0}3 left!"])]);
    assert_eq!(p.get_stock_status(), "3");
}

#[test]
fn integer_token_parsing() {
    assert_eq!(parse_i32_token("3"), Some(3));
    assert_eq!(parse_i32_token("003"), Some(3));
    assert_eq!(parse_i32_token("-2147483648"), Some(-2147483648));
    assert_eq!(parse_i32_token("2147483648"), None);
    assert_eq!(parse_i32_token("-2147483649"), None);
    assert_eq!(parse_i32_token("3!"), None);
    assert_eq!(parse_i32_token(""), None);
    assert_eq!(parse_i32_token("-"), None);
    assert_eq!(parse_i32_token("+"), None);
}

#[test]
fn error_messages() {
    assert_eq!(
        ScraperError::DataNotFound(String::from("x")).message(),
        "Data not found: x"
    );
    assert_eq!(
        ScraperError::MaxRetriesExceeded(String::from("http://u")).message(),
        "Max retries exceeded for URL: http://u"
    );
    assert_eq!(ScraperError::Request(String::from("boom")).message(), "Request error: boom");
    assert_eq!(ScraperError::Csv(String::from("boom")).message(), "CSV error: boom");
    assert_eq!(ScraperError::Json(String::from("boom")).message(), "JSON parsing error: boom");
    assert_eq!(ScraperError::Io(String::from("boom")).message(), "IO error: boom");
}

#[test]
fn seller_id_extraction() {
    assert_eq!(
        extract_seller_id("https://www.walmart.com/global/seller/102616245/cp/shopall?povid=x"),
        "102616245"
    );
    assert_eq!(extract_seller_id("https://example.com/listing"), "unknown_seller");
    assert_eq!(extract_seller_id("/seller/x/seller/42"), "42");
    assert_eq!(extract_seller_id("/seller/"), "unknown_seller");
}
