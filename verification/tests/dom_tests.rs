use alx::allegro_lokalnie_client;
use alx::dom::parse_document;
use alx::offer::Offer;
use alx::offer::ScrapeError;
use alx::olx_client;

const SENTINEL: u64 = 999_999_900;

#[test]
fn olx_page_yields_one_offer_per_card() {
    let html = r#"<html><body>
        <div class="offer-wrapper">
          <a href="https://www.olx.pl/d/oferta/one"><strong>Console one</strong></a>
          <p class="price"><strong>1 200,50 zł</strong></p>
        </div>
        <div class="offer-wrapper">
          <a href="https://www.olx.pl/d/oferta/two"><strong>Console two</strong></a>
          <p class="price"><strong>450,00 zł</strong></p>
        </div>
    </body></html>"#;
    let doc = parse_document(html);
    let mut offers: Vec<Offer> = Vec::new();
    olx_client::parse_page(&doc, &mut offers).expect("page parses");
    assert_eq!(offers.len(), 2);
    assert_eq!(offers[0].title, "Console one");
    assert_eq!(offers[0].url, "https://www.olx.pl/d/oferta/one");
    assert_eq!(offers[0].price, 120_050);
    assert_eq!(offers[1].title, "Console two");
    assert_eq!(offers[1].price, 45_000);
}

#[test]
fn olx_card_without_price_gets_sentinel() {
    let html = r#"<div class="offer-wrapper">
        <a href="u"><strong>No price shown</strong></a>
    </div>"#;
    let doc = parse_document(html);
    let mut offers: Vec<Offer> = Vec::new();
    olx_client::parse_page(&doc, &mut offers).expect("page parses");
    assert_eq!(offers.len(), 1);
    assert_eq!(offers[0].price, SENTINEL);
}

#[test]
fn olx_card_without_title_is_fatal() {
    let html = r#"<div class="offer-wrapper"><a href="u">untitled</a></div>"#;
    let doc = parse_document(html);
    let mut offers: Vec<Offer> = Vec::new();
    let err = olx_client::parse_page(&doc, &mut offers).unwrap_err();
    assert_eq!(err, ScrapeError::MissingTitle);
    assert!(offers.is_empty());
}

#[test]
fn olx_card_without_href_is_fatal() {
    let html = r#"<div class="offer-wrapper"><a><strong>t</strong></a></div>"#;
    let doc = parse_document(html);
    let mut offers: Vec<Offer> = Vec::new();
    let err = olx_client::parse_page(&doc, &mut offers).unwrap_err();
    assert_eq!(err, ScrapeError::MissingUrl);
}

#[test]
fn olx_page_without_cards_is_empty() {
    let doc = parse_document("<html><body><p>nothing here</p></body></html>");
    let mut offers: Vec<Offer> = Vec::new();
    olx_client::parse_page(&doc, &mut offers).expect("page parses");
    assert!(offers.is_empty());
}

#[test]
fn olx_no_pagination_control_means_one_page() {
    let doc = parse_document("<html><body><div class=\"offer-wrapper\"></div></body></html>");
    assert_eq!(olx_client::pages_on_first(&doc), 1);
}

#[test]
fn olx_pagination_reports_last_page() {
    let html = r#"<div class="pager">
        <a data-cy="page-link-last" href="x"><span>7</span></a>
    </div>"#;
    let doc = parse_document(html);
    assert_eq!(olx_client::pages_on_first(&doc), 7);
}

#[test]
fn olx_unparsable_last_page_means_one_page() {
    let html = r#"<div class="pager">
        <a data-cy="page-link-last" href="x"><span>last</span></a>
    </div>"#;
    let doc = parse_document(html);
    assert_eq!(olx_client::pages_on_first(&doc), 1);
}

#[test]
fn lokalnie_page_yields_offers_with_site_prefix() {
    let html = r#"<html><body>
        <a class="offer-card" href="/oferta/abc">
          <h3 class="offer-card__title">Pad</h3>
          <span itemprop="price">99,99</span>
        </a>
    </body></html>"#;
    let doc = parse_document(html);
    let mut offers: Vec<Offer> = Vec::new();
    allegro_lokalnie_client::parse_page(&doc, &mut offers).expect("page parses");
    assert_eq!(offers.len(), 1);
    assert_eq!(offers[0].title, "Pad");
    assert_eq!(offers[0].url, "https://allegrolokalnie.pl/oferta/abc");
    assert_eq!(offers[0].price, 9_999);
}

#[test]
fn lokalnie_card_without_price_gets_sentinel() {
    let html = r#"<a class="offer-card" href="/oferta/abc">
        <h3 class="offer-card__title">Pad</h3>
    </a>"#;
    let doc = parse_document(html);
    let mut offers: Vec<Offer> = Vec::new();
    allegro_lokalnie_client::parse_page(&doc, &mut offers).expect("page parses");
    assert_eq!(offers[0].price, SENTINEL);
}

#[test]
fn lokalnie_card_without_title_is_fatal() {
    let html = r#"<a class="offer-card" href="/oferta/abc"><h3>Pad</h3></a>"#;
    let doc = parse_document(html);
    let mut offers: Vec<Offer> = Vec::new();
    let err = allegro_lokalnie_client::parse_page(&doc, &mut offers).unwrap_err();
    assert_eq!(err, ScrapeError::MissingTitle);
}

#[test]
fn lokalnie_no_pagination_control_means_one_page() {
    let doc = parse_document("<html><body></body></html>");
    assert_eq!(allegro_lokalnie_client::pages_on_first(&doc), 1);
}

#[test]
fn lokalnie_pagination_reads_visible_span() {
    let html = r#"<div class="pagination">
        <label><span class="sr-only">Strona</span><span>4</span></label>
    </div>"#;
    let doc = parse_document(html);
    assert_eq!(allegro_lokalnie_client::pages_on_first(&doc), 4);
}

#[test]
fn lokalnie_pagination_without_label_means_one_page() {
    let html = r#"<div class="pagination"><span>4</span></div>"#;
    let doc = parse_document(html);
    assert_eq!(allegro_lokalnie_client::pages_on_first(&doc), 1);
}
