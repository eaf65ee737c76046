use alx::allegro_client::build_offer;
use alx::allegro_client::offer_url;
use alx::allegro_client::parse_response;
use alx::allegro_client::search_params;
use alx::allegro_client::ApiError;
use alx::SearchQuery;

#[test]
fn response_items_become_offers() {
    let body = r#"{
        "items": {
            "regular": [
                {
                    "id": "123",
                    "name": "PlayStation 4",
                    "sellingMode": {
                        "format": "BUY_NOW",
                        "price": { "amount": "450,00", "currency": "PLN" }
                    }
                },
                {
                    "id": "9",
                    "name": "Pad",
                    "sellingMode": {
                        "format": "BUY_NOW",
                        "price": { "amount": "bad", "currency": "PLN" }
                    }
                }
            ]
        }
    }"#;
    let offers = parse_response(body).expect("well-formed body");
    assert_eq!(offers.len(), 2);
    assert_eq!(offers[0].title, "PlayStation 4");
    assert_eq!(offers[0].price, 45_000);
    assert_eq!(offers[0].url, "https://allegro.pl/oferta/playstation-4-123");
    assert_eq!(offers[1].price, 999_999_900);
}

#[test]
fn non_json_body_is_fatal() {
    assert_eq!(parse_response("<html>").unwrap_err(), ApiError::MalformedResponse);
}

#[test]
fn missing_items_field_is_fatal() {
    assert_eq!(parse_response("{}").unwrap_err(), ApiError::MalformedResponse);
}

#[test]
fn item_without_name_is_fatal() {
    let body = r#"{"items":{"regular":[{"id":"1","sellingMode":{"price":{"amount":"1"}}}]}}"#;
    assert_eq!(parse_response(body).unwrap_err(), ApiError::MalformedResponse);
}

#[test]
fn non_array_result_list_is_fatal() {
    let body = r#"{"items":{"regular":42}}"#;
    assert_eq!(parse_response(body).unwrap_err(), ApiError::MalformedResponse);
}

#[test]
fn empty_result_list_is_no_offers() {
    let offers = parse_response(r#"{"items":{"regular":[]}}"#).expect("well-formed body");
    assert!(offers.is_empty());
}

#[test]
fn offer_url_slugifies_the_name() {
    assert_eq!(
        offer_url("My Test String!!!1!1", "9"),
        "https://allegro.pl/oferta/my-test-string-1-1-9"
    );
}

#[test]
fn build_offer_combines_name_id_and_amount() {
    let o = build_offer("Gran Turismo 7", "55", "199,99");
    assert_eq!(o.title, "Gran Turismo 7");
    assert_eq!(o.price, 19_999);
    assert_eq!(o.url, "https://allegro.pl/oferta/gran-turismo-7-55");
}

#[test]
fn search_params_carry_only_supplied_bounds() {
    let q = SearchQuery {
        query: "ps4".to_owned(),
        min_price: None,
        max_price: Some("600".to_owned()),
    };
    let params = search_params(&q);
    assert_eq!(
        params,
        vec![
            ("phrase".to_owned(), "ps4".to_owned()),
            ("price.to".to_owned(), "600".to_owned()),
        ]
    );
}

#[test]
fn search_params_always_carry_the_phrase() {
    let q = SearchQuery { query: "ps4".to_owned(), min_price: None, max_price: None };
    let params = search_params(&q);
    assert_eq!(params, vec![("phrase".to_owned(), "ps4".to_owned())]);
}
