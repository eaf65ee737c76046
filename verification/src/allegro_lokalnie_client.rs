//! Source adapter for the local-listings site: URL building, pagination
//! planning, and turning offer cards into offers.

use crate::dom::attr_of;
use crate::dom::class_nodes;
use crate::dom::find_by_class;
use crate::dom::find_first_attr;
use crate::dom::find_first_name;
use crate::dom::find_first_name_class;
use crate::dom::find_first_name_not_class;
use crate::dom::first_attr_in;
use crate::dom::first_name_class_in;
use crate::dom::first_name_in;
use crate::dom::first_name_not_class_in;
use crate::dom::node_attr;
use crate::dom::node_text;
use crate::dom::text_of;
use crate::offer::Offer;
use crate::offer::ScrapeError;
use crate::offer::SearchQuery;
use crate::olx_client::add_filter_spec;
use crate::olx_client::dashified;
use crate::olx_client::format_query;
use crate::olx_client::page_count_of;
use crate::olx_client::trimmed;
use crate::price::parse_price;
use crate::price::price_cents_spec;
use crate::price::SENTINEL_CENTS;
use crate::strutil::contains_question;
use crate::strutil::dec_str;
use crate::strutil::u32_to_string;
use select::document::Document;
use vstd::prelude::*;

verus! {

/// The listing URL for a query in this source's dialect: slugified query
/// segment (trimmed, spaces replaced by dashes), plain price_from /
/// price_to filter parameters.
pub open spec fn url_spec(q: SearchQuery) -> Seq<char> {
    let base = "https://allegrolokalnie.pl/oferty/q/"@ + dashified(trimmed(q.query@));
    let with_min = match q.min_price {
        Some(m) => add_filter_spec(base, "price_from="@ + m@),
        None => base,
    };
    match q.max_price {
        Some(m) => add_filter_spec(with_min, "price_to="@ + m@),
        None => with_min,
    }
}

/// Appends a filter parameter, opening the query string with '?' or
/// extending it with '&'.
pub fn add_filter(filter: &str, url: &mut String)
    ensures
        final(url)@ == add_filter_spec(old(url)@, filter@),
{
    if contains_question(url.as_str()) {
        url.push('&');
    } else {
        url.push('?');
    }
    url.push_str(filter);
    proof {
        assert(final(url)@ =~= add_filter_spec(old(url)@, filter@));
    }
}

/// Builds the first-page listing URL for a query: the slugified query text
/// as a path segment plus the optional price-range filters in this source's
/// dialect.
pub fn build_url(q: &SearchQuery) -> (r: String)
    ensures
        r@ == url_spec(*q),
{
    let mut url = String::new();
    url.push_str("https://allegrolokalnie.pl/oferty/q/");
    let fq = format_query(q.query.as_str());
    url.push_str(fq.as_str());
    match &q.min_price {
        Some(m) => {
            let mut filter = String::new();
            filter.push_str("price_from=");
            filter.push_str(m.as_str());
            add_filter(filter.as_str(), &mut url);
        },
        None => {},
    }
    match &q.max_price {
        Some(m) => {
            let mut filter = String::new();
            filter.push_str("price_to=");
            filter.push_str(m.as_str());
            add_filter(filter.as_str(), &mut url);
        },
        None => {},
    }
    url
}

/// The URL of page n of a listing, for the pages after the first.
pub open spec fn page_url_spec(base: Seq<char>, n: nat) -> Seq<char> {
    base + "/?page="@ + dec_str(n)
}

/// The page fetch plan for this source: the bare listing URL serves as page
/// one, pages 2 through `total` carry an explicit page parameter.
pub fn page_urls(base: &str, total: u32) -> (r: Vec<String>)
    requires
        total >= 1,
    ensures
        r@.len() == total as int,
        r@[0]@ == base@,
        forall|i: int|
            1 <= i < total as int ==> #[trigger] r@[i]@ == page_url_spec(base@, (i + 1) as nat),
{
    let mut urls: Vec<String> = Vec::new();
    let mut first = String::new();
    first.push_str(base);
    urls.push(first);
    let mut n: u32 = 1;
    while n < total
        invariant
            1 <= n <= total,
            urls@.len() == n as int,
            urls@[0]@ == base@,
            forall|i: int|
                1 <= i < n as int ==> #[trigger] urls@[i]@ == page_url_spec(base@, (i + 1) as nat),
        decreases total - n,
    {
        let mut url = String::new();
        url.push_str(base);
        url.push_str("/?page=");
        let num = u32_to_string(n + 1);
        url.push_str(num.as_str());
        urls.push(url);
        n = n + 1;
    }
    urls
}

/// The title an offer card shows: the text of its h3 title node.
pub open spec fn card_title(d: Document, card: usize) -> Option<Seq<char>> {
    match first_name_class_in(d, card, "h3"@, "offer-card__title"@) {
        Some(t) => node_text(d, t),
        None => None,
    }
}

/// The link segment an offer card carries: its own href attribute.
pub open spec fn card_href(d: Document, card: usize) -> Option<Seq<char>> {
    node_attr(d, card, "href"@)
}

/// The raw price text of an offer card, when it shows one.
pub open spec fn card_price_text(d: Document, card: usize) -> Option<Seq<char>> {
    match first_attr_in(d, card, "itemprop"@, "price"@) {
        Some(p) => node_text(d, p),
        None => None,
    }
}

/// The price a card yields: its price text normalized, or the sentinel when
/// the card shows no price node.
pub open spec fn card_price(d: Document, card: usize) -> u64 {
    match card_price_text(d, card) {
        Some(t) => price_cents_spec(t),
        None => SENTINEL_CENTS,
    }
}

/// A card can become an offer exactly when it has a title and a link.
pub open spec fn card_ok(d: Document, card: usize) -> bool {
    card_title(d, card) is Some && card_href(d, card) is Some
}

/// o is the offer this card describes; the card's href is relative, so the
/// site root prefixes it.
pub open spec fn card_offer(d: Document, card: usize, o: Offer) -> bool {
    &&& card_title(d, card) matches Some(t) && o.title@ == t
    &&& card_href(d, card) matches Some(h) && o.url@ == "https://allegrolokalnie.pl"@ + h
    &&& o.price == card_price(d, card)
}

/// Builds one offer from one offer card: title and link are mandatory, a
/// missing price node falls back to the sentinel.
pub fn offer_from_card(d: &Document, card: usize) -> (r: Result<Offer, ScrapeError>)
    ensures
        r is Ok <==> card_ok(*d, card),
        r matches Ok(o) ==> card_offer(*d, card, o),
        r == Err::<Offer, ScrapeError>(ScrapeError::MissingTitle) <==> card_title(*d, card)
            is None,
        r == Err::<Offer, ScrapeError>(ScrapeError::MissingUrl) <==> (card_title(*d, card) is Some
            && card_href(*d, card) is None),
{
    let title: String = match find_first_name_class(d, card, "h3", "offer-card__title") {
        Some(t) => {
            match text_of(d, t) {
                Some(s) => s,
                None => {
                    return Err(ScrapeError::MissingTitle);
                },
            }
        },
        None => {
            return Err(ScrapeError::MissingTitle);
        },
    };
    let url: String = match attr_of(d, card, "href") {
        Some(h) => {
            let mut u = String::new();
            u.push_str("https://allegrolokalnie.pl");
            u.push_str(h.as_str());
            u
        },
        None => {
            return Err(ScrapeError::MissingUrl);
        },
    };
    let price: u64 = match find_first_attr(d, card, "itemprop", "price") {
        Some(p) => {
            match text_of(d, p) {
                Some(txt) => parse_price(txt.as_str()).unwrap(),
                None => SENTINEL_CENTS,
            }
        },
        None => SENTINEL_CENTS,
    };
    Ok(Offer { title, price, url })
}

/// Extracts every offer card of a fetched page and appends one offer per
/// card, in document order; a card without title or link aborts the page
/// and leaves the collection untouched.
pub fn parse_page(d: &Document, result: &mut Vec<Offer>) -> (r: Result<(), ScrapeError>)
    ensures
        r is Ok <==> (forall|i: int|
            0 <= i < class_nodes(*d, "offer-card"@).len() ==> card_ok(
                *d,
                #[trigger] class_nodes(*d, "offer-card"@)[i],
            )),
        r is Ok ==> {
            &&& final(result)@.len() == old(result)@.len() + class_nodes(*d, "offer-card"@).len()
            &&& forall|i: int|
                0 <= i < old(result)@.len() ==> final(result)@[i] == old(result)@[i]
            &&& forall|i: int|
                0 <= i < class_nodes(*d, "offer-card"@).len() ==> card_offer(
                    *d,
                    #[trigger] class_nodes(*d, "offer-card"@)[i],
                    final(result)@[old(result)@.len() + i],
                )
        },
        r is Err ==> final(result)@ == old(result)@,
{
    let cards = find_by_class(d, "offer-card");
    let mut out: Vec<Offer> = Vec::new();
    let mut i: usize = 0;
    while i < cards.len()
        invariant
            cards@ == class_nodes(*d, "offer-card"@),
            i <= cards@.len(),
            out@.len() == i as int,
            forall|k: int| 0 <= k < i as int ==> card_ok(*d, #[trigger] cards@[k]),
            forall|k: int| 0 <= k < i as int ==> card_offer(*d, #[trigger] cards@[k], out@[k]),
        decreases cards@.len() - i,
    {
        match offer_from_card(d, cards[i]) {
            Ok(o) => {
                out.push(o);
            },
            Err(e) => {
                return Err(e);
            },
        }
        i = i + 1;
    }
    result.append(&mut out);
    Ok(())
}

/// The text of the pagination label on the first page, when a pagination
/// control, its label, and the label's visible span are all present.
pub open spec fn pager_label(d: Document) -> Option<Seq<char>> {
    if class_nodes(d, "pagination"@).len() == 0 {
        None
    } else {
        match first_name_in(d, class_nodes(d, "pagination"@)[0], "label"@) {
            Some(lb) => {
                match first_name_not_class_in(d, lb, "span"@, "sr-only"@) {
                    Some(sp) => node_text(d, sp),
                    None => None,
                }
            },
            None => None,
        }
    }
}

/// Reads the pagination control of the first page: no control, label or
/// parsable positive count means a single page.
pub fn pages_on_first(d: &Document) -> (n: u32)
    ensures
        n == match pager_label(*d) {
            None => 1u32,
            Some(t) => page_count_of(t),
        },
        class_nodes(*d, "pagination"@).len() == 0 ==> n == 1,
        n >= 1,
{
    let pagers = find_by_class(d, "pagination");
    if pagers.len() == 0 {
        return 1;
    }
    match find_first_name(d, pagers[0], "label") {
        None => 1,
        Some(lb) => {
            match find_first_name_not_class(d, lb, "span", "sr-only") {
                None => 1,
                Some(sp) => {
                    match text_of(d, sp) {
                        None => 1,
                        Some(t) => total_pages(Some(t.as_str())),
                    }
                },
            }
        },
    }
}

/// Decides the number of pages to fetch from the text of the pagination
/// label on the first page: absent or unparsable labels mean a single page.
pub fn total_pages(pager_label: Option<&str>) -> (n: u32)
    ensures
        pager_label is None ==> n == 1,
        pager_label matches Some(s) ==> n == page_count_of(s@),
        n >= 1,
{
    match pager_label {
        None => 1,
        Some(s) => {
            match crate::strutil::parse_u32_digits(s) {
                Some(v) => {
                    if v >= 1 {
                        v
                    } else {
                        1
                    }
                },
                None => 1,
            }
        },
    }
}

} // verus!
