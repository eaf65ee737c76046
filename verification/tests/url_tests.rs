use alx::allegro_lokalnie_client;
use alx::olx_client;
use alx::strutil::parse_u32_digits;
use alx::strutil::u32_to_string;
use alx::SearchQuery;

fn query(q: &str, min: Option<&str>, max: Option<&str>) -> SearchQuery {
    SearchQuery {
        query: q.to_owned(),
        min_price: min.map(|s| s.to_owned()),
        max_price: max.map(|s| s.to_owned()),
    }
}

#[test]
fn olx_url_plain_query() {
    let url = olx_client::build_url(&query("playstation 4", None, None));
    assert_eq!(url, "https://www.olx.pl/oferty/q-playstation-4");
}

#[test]
fn olx_url_with_max_price_only() {
    let url = olx_client::build_url(&query("playstation 4", None, Some("600")));
    assert_eq!(
        url,
        "https://www.olx.pl/oferty/q-playstation-4?search[filter_float_price:to]=600"
    );
}

#[test]
fn olx_url_with_both_bounds() {
    let url = olx_client::build_url(&query("gpu", Some("300"), Some("600")));
    assert_eq!(
        url,
        "https://www.olx.pl/oferty/q-gpu?search[filter_float_price:from]=300&search[filter_float_price:to]=600"
    );
}

#[test]
fn olx_format_query_trims_and_dashes() {
    assert_eq!(olx_client::format_query("  macbook pro  "), "macbook-pro");
}

#[test]
fn olx_format_query_all_spaces_is_empty() {
    assert_eq!(olx_client::format_query("   "), "");
}

#[test]
fn add_filter_opens_then_extends_query_string() {
    let mut url = String::from("http://x");
    olx_client::add_filter("a=1", &mut url);
    assert_eq!(url, "http://x?a=1");
    olx_client::add_filter("b=2", &mut url);
    assert_eq!(url, "http://x?a=1&b=2");
}

#[test]
fn olx_page_urls_cover_one_through_n() {
    let urls = olx_client::page_urls("B", 3);
    assert_eq!(urls, vec!["B/?page=1", "B/?page=2", "B/?page=3"]);
}

#[test]
fn olx_single_page_plan_is_one_fetch() {
    let urls = olx_client::page_urls("B", 1);
    assert_eq!(urls, vec!["B/?page=1"]);
}

#[test]
fn olx_total_pages_fallbacks() {
    assert_eq!(olx_client::total_pages(None), 1);
    assert_eq!(olx_client::total_pages(Some("7")), 7);
    assert_eq!(olx_client::total_pages(Some("garbage")), 1);
    assert_eq!(olx_client::total_pages(Some("0")), 1);
    assert_eq!(olx_client::total_pages(Some("")), 1);
}

#[test]
fn lokalnie_url_carries_both_bounds() {
    let url = allegro_lokalnie_client::build_url(&query("ps4", Some("100"), Some("200")));
    assert_eq!(
        url,
        "https://allegrolokalnie.pl/oferty/q/ps4?price_from=100&price_to=200"
    );
}

#[test]
fn lokalnie_url_slugifies_the_query() {
    let url = allegro_lokalnie_client::build_url(&query(" playstation 4 ", None, None));
    assert_eq!(url, "https://allegrolokalnie.pl/oferty/q/playstation-4");
}

#[test]
fn lokalnie_add_filter_matches_dialect() {
    let mut url = String::from("https://allegrolokalnie.pl/oferty/q/ps4");
    allegro_lokalnie_client::add_filter("price_from=100", &mut url);
    assert_eq!(url, "https://allegrolokalnie.pl/oferty/q/ps4?price_from=100");
}

#[test]
fn lokalnie_page_urls_start_bare() {
    let urls = allegro_lokalnie_client::page_urls("B", 3);
    assert_eq!(urls, vec!["B", "B/?page=2", "B/?page=3"]);
}

#[test]
fn lokalnie_total_pages_fallbacks() {
    assert_eq!(allegro_lokalnie_client::total_pages(None), 1);
    assert_eq!(allegro_lokalnie_client::total_pages(Some("4")), 4);
    assert_eq!(allegro_lokalnie_client::total_pages(Some("1st")), 1);
}

#[test]
fn numbers_print_in_decimal() {
    assert_eq!(u32_to_string(0), "0");
    assert_eq!(u32_to_string(10), "10");
    assert_eq!(u32_to_string(907), "907");
    assert_eq!(u32_to_string(u32::MAX), "4294967295");
}

#[test]
fn digit_strings_parse() {
    assert_eq!(parse_u32_digits("25"), Some(25));
    assert_eq!(parse_u32_digits("02"), Some(2));
    assert_eq!(parse_u32_digits(""), None);
    assert_eq!(parse_u32_digits("2x"), None);
    assert_eq!(parse_u32_digits("4294967296"), None);
}
