use alx::aggregate;
use alx::min_offer;
use alx::parse_price;
use alx::Offer;

fn offer(title: &str, price: u64, url: &str) -> Offer {
    Offer { title: title.to_owned(), price, url: url.to_owned() }
}

#[test]
fn aggregate_sorts_ascending_by_price() {
    let a = vec![offer("c", 300, "u3"), offer("a", 100, "u1")];
    let b = vec![offer("b", 200, "u2")];
    let merged = aggregate(vec![a, b]);
    let prices: Vec<u64> = merged.iter().map(|o| o.price).collect();
    assert_eq!(prices, vec![100, 200, 300]);
}

#[test]
fn aggregate_is_stable_for_equal_prices() {
    let a = vec![offer("first", 500, "u1"), offer("second", 500, "u2")];
    let b = vec![offer("third", 500, "u3"), offer("cheap", 100, "u4")];
    let merged = aggregate(vec![a, b]);
    let titles: Vec<&str> = merged.iter().map(|o| o.title.as_str()).collect();
    assert_eq!(titles, vec!["cheap", "first", "second", "third"]);
}

#[test]
fn aggregate_keeps_source_order_between_sources() {
    let a = vec![offer("olx", 250, "u1")];
    let b = vec![offer("lokalnie", 250, "u2")];
    let merged = aggregate(vec![a, b]);
    let titles: Vec<&str> = merged.iter().map(|o| o.title.as_str()).collect();
    assert_eq!(titles, vec!["olx", "lokalnie"]);
}

#[test]
fn aggregate_of_nothing_is_empty() {
    let merged = aggregate(vec![Vec::new(), Vec::new()]);
    assert!(merged.is_empty());
}

#[test]
fn min_offer_is_first_of_sorted() {
    let merged = aggregate(vec![vec![offer("dear", 900, "u1"), offer("cheap", 10, "u2")]]);
    let lowest = min_offer(&merged).expect("offers present");
    assert_eq!(lowest.title, "cheap");
    assert_eq!(lowest.price, 10);
}

#[test]
fn min_offer_of_empty_is_none() {
    let merged: Vec<Offer> = Vec::new();
    assert!(min_offer(&merged).is_none());
}

#[test]
fn two_sources_one_parsable_one_not() {
    // Query "playstation 4", max price "600": each source found one listing,
    // priced "450,00" and "invalid".
    let parsed = parse_price("450,00").unwrap();
    let unparsable = parse_price("invalid").unwrap();
    let first = vec![offer("playstation 4 pro", parsed, "u1")];
    let second = vec![offer("playstation 4 slim", unparsable, "u2")];
    let merged = aggregate(vec![first, second]);
    assert_eq!(merged.len(), 2);
    let prices: Vec<f64> = merged.iter().map(|o| o.price as f64 / 100.0).collect();
    assert_eq!(prices, vec![450.0, 9_999_999.0]);
    assert_eq!(merged[0].title, "playstation 4 pro");
}
