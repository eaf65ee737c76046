//! Source adapter for the classifieds site: URL building, pagination
//! planning, and turning listing cards into offers.

use crate::dom::class_nodes;
use crate::dom::find_by_class;
use crate::dom::find_first_attr_name;
use crate::dom::find_first_class_name;
use crate::dom::find_first_name;
use crate::dom::find_first_name_name;
use crate::dom::first_attr_name_in;
use crate::dom::first_class_name_in;
use crate::dom::first_name_in;
use crate::dom::first_name_name_in;
use crate::dom::node_attr;
use crate::dom::node_text;
use crate::dom::attr_of;
use crate::dom::text_of;
use crate::offer::Offer;
use crate::offer::ScrapeError;
use crate::offer::SearchQuery;
use crate::price::all_digits;
use crate::price::digits_value;
use crate::price::is_ascii_space;
use crate::price::parse_price;
use crate::price::price_cents_spec;
use crate::price::SENTINEL_CENTS;
use crate::strutil::contains_question;
use crate::strutil::dec_str;
use crate::strutil::has_question;
use crate::strutil::u32_to_string;
use select::document::Document;
use vstd::prelude::*;

verus! {

pub open spec fn first_nonspace_from(s: Seq<char>, i: int) -> int
    decreases s.len() - i,
{
    if i < 0 || i >= s.len() {
        s.len() as int
    } else if !is_ascii_space(s[i]) {
        i
    } else {
        first_nonspace_from(s, i + 1)
    }
}

pub open spec fn last_nonspace_before(s: Seq<char>, i: int) -> int
    decreases i + 1,
{
    if i < 0 {
        -1
    } else if i >= s.len() {
        s.len() as int - 1
    } else if !is_ascii_space(s[i]) {
        i
    } else {
        last_nonspace_before(s, i - 1)
    }
}

/// s without its leading and trailing whitespace.
pub open spec fn trimmed(s: Seq<char>) -> Seq<char> {
    let f = first_nonspace_from(s, 0);
    if f >= s.len() {
        Seq::empty()
    } else {
        s.subrange(f, last_nonspace_before(s, s.len() - 1) + 1)
    }
}

/// s with every space turned into a dash.
pub open spec fn dashified(s: Seq<char>) -> Seq<char> {
    s.map_values(
        |c: char|
            if c == ' ' {
                '-'
            } else {
                c
            },
    )
}

/// What a filter appended to a URL looks like: '?' opens the query string,
/// '&' extends it.
pub open spec fn add_filter_spec(url: Seq<char>, filter: Seq<char>) -> Seq<char> {
    url + (if has_question(url) {
        seq!['&']
    } else {
        seq!['?']
    }) + filter
}

/// The listing URL for a query in this source's dialect: slug-like query
/// segment, bracketed price filter parameters.
pub open spec fn url_spec(q: SearchQuery) -> Seq<char> {
    let base = "https://www.olx.pl/oferty/q-"@ + dashified(trimmed(q.query@));
    let with_min = match q.min_price {
        Some(m) => add_filter_spec(base, "search[filter_float_price:from]="@ + m@),
        None => base,
    };
    match q.max_price {
        Some(m) => add_filter_spec(with_min, "search[filter_float_price:to]="@ + m@),
        None => with_min,
    }
}

/// The URL of page n of a listing.
pub open spec fn page_url_spec(base: Seq<char>, n: nat) -> Seq<char> {
    base + "/?page="@ + dec_str(n)
}

/// Trims the query and replaces its spaces with dashes, making the query
/// segment of a listing URL.
pub fn format_query(query: &str) -> (r: String)
    ensures
        r@ == dashified(trimmed(query@)),
{
    let len: usize = query.unicode_len();
    let mut f: usize = 0;
    while f < len && is_space_exec(query.get_char(f))
        invariant
            len == query@.len(),
            f <= len,
            first_nonspace_from(query@, 0) == first_nonspace_from(query@, f as int),
        decreases len - f,
    {
        f = f + 1;
    }
    assert(first_nonspace_from(query@, 0) == f as int);
    if f == len {
        proof {
            assert(trimmed(query@) =~= Seq::<char>::empty());
            assert(dashified(trimmed(query@)) =~= Seq::<char>::empty());
        }
        return String::new();
    }
    let mut l: usize = len - 1;
    while l > f && is_space_exec(query.get_char(l))
        invariant
            len == query@.len(),
            f <= l < len,
            last_nonspace_before(query@, len - 1) == last_nonspace_before(query@, l as int),
        decreases l,
    {
        l = l - 1;
    }
    assert(!is_ascii_space(query@[f as int]));
    assert(last_nonspace_before(query@, l as int) == l as int);
    assert(trimmed(query@) == query@.subrange(f as int, l as int + 1));

    let mut out = String::new();
    let mut k: usize = f;
    while k <= l
        invariant
            len == query@.len(),
            f <= k <= l + 1,
            l < len,
            out@ == dashified(query@.subrange(f as int, k as int)),
        decreases l + 1 - k,
    {
        let c = query.get_char(k);
        if c == ' ' {
            out.push('-');
        } else {
            out.push(c);
        }
        proof {
            assert(query@.subrange(f as int, k as int + 1) =~= query@.subrange(
                f as int,
                k as int,
            ).push(query@[k as int]));
            assert(dashified(query@.subrange(f as int, k as int + 1)) =~= dashified(
                query@.subrange(f as int, k as int),
            ).push(
                if query@[k as int] == ' ' {
                    '-'
                } else {
                    query@[k as int]
                },
            ));
        }
        k = k + 1;
    }
    out
}

fn is_space_exec(c: char) -> (r: bool)
    ensures
        r == is_ascii_space(c),
{
    let u: u32 = c as u32;
    u == 32 || u == 9 || u == 10 || u == 12 || u == 13
}

/// Appends a filter parameter, opening the query string with '?' or
/// extending it with '&'.
pub fn add_filter(filter: &str, url: &mut String)
    ensures
        final(url)@ == add_filter_spec(old(url)@, filter@),
{
    if contains_question(url.as_str()) {
        url.push('&');
    } else {
        url.push('?');
    }
    url.push_str(filter);
    proof {
        assert(final(url)@ =~= add_filter_spec(old(url)@, filter@));
    }
}

/// Builds the first-page listing URL for a query: slugified query segment
/// plus the optional price-range filters in this source's dialect.
pub fn build_url(q: &SearchQuery) -> (r: String)
    ensures
        r@ == url_spec(*q),
{
    let mut url = String::new();
    url.push_str("https://www.olx.pl/oferty/q-");
    let fq = format_query(q.query.as_str());
    url.push_str(fq.as_str());
    match &q.min_price {
        Some(m) => {
            let mut filter = String::new();
            filter.push_str("search[filter_float_price:from]=");
            filter.push_str(m.as_str());
            add_filter(filter.as_str(), &mut url);
        },
        None => {},
    }
    match &q.max_price {
        Some(m) => {
            let mut filter = String::new();
            filter.push_str("search[filter_float_price:to]=");
            filter.push_str(m.as_str());
            add_filter(filter.as_str(), &mut url);
        },
        None => {},
    }
    url
}

/// The URL that fetches page n of the listing.
pub fn page_url(base: &str, n: u32) -> (r: String)
    ensures
        r@ == page_url_spec(base@, n as nat),
{
    let mut url = String::new();
    url.push_str(base);
    url.push_str("/?page=");
    let num = u32_to_string(n);
    url.push_str(num.as_str());
    url
}

/// The page fetch plan for a listing whose pagination control reports
/// `total` pages: exactly `total` URLs, with page parameters 1 through
/// `total`, in order.
pub fn page_urls(base: &str, total: u32) -> (r: Vec<String>)
    ensures
        r@.len() == total as int,
        forall|i: int| 0 <= i < total as int ==> #[trigger] r@[i]@ == page_url_spec(base@, (i + 1) as nat),
{
    let mut urls: Vec<String> = Vec::new();
    let mut n: u32 = 0;
    while n < total
        invariant
            n <= total,
            urls@.len() == n as int,
            forall|i: int|
                0 <= i < n as int ==> #[trigger] urls@[i]@ == page_url_spec(base@, (i + 1) as nat),
        decreases total - n,
    {
        let u = page_url(base, n + 1);
        urls.push(u);
        n = n + 1;
    }
    urls
}

/// How many pages a pagination label announces: its digits, when they spell
/// a positive number that fits; one page otherwise, and one page when the
/// control or its label is absent.
pub open spec fn page_count_of(label: Seq<char>) -> u32 {
    if all_digits(label) && label.len() >= 1 && digits_value(label) <= u32::MAX && digits_value(
        label,
    ) >= 1 {
        digits_value(label) as u32
    } else {
        1
    }
}

/// The title a listing card shows: the text of the first strong node inside
/// its first anchor.
pub open spec fn card_title(d: Document, card: usize) -> Option<Seq<char>> {
    match first_name_name_in(d, card, "a"@, "strong"@) {
        Some(t) => node_text(d, t),
        None => None,
    }
}

/// The detail link a listing card carries: the href of its first anchor.
pub open spec fn card_href(d: Document, card: usize) -> Option<Seq<char>> {
    match first_name_in(d, card, "a"@) {
        Some(a) => node_attr(d, a, "href"@),
        None => None,
    }
}

/// The raw price text of a listing card, when it shows one.
pub open spec fn card_price_text(d: Document, card: usize) -> Option<Seq<char>> {
    match first_class_name_in(d, card, "price"@, "strong"@) {
        Some(p) => node_text(d, p),
        None => None,
    }
}

/// The price a card yields: its price text normalized, or the sentinel when
/// the card shows no price node.
pub open spec fn card_price(d: Document, card: usize) -> u64 {
    match card_price_text(d, card) {
        Some(t) => price_cents_spec(t),
        None => SENTINEL_CENTS,
    }
}

/// A card can become an offer exactly when it has a title and a link.
pub open spec fn card_ok(d: Document, card: usize) -> bool {
    card_title(d, card) is Some && card_href(d, card) is Some
}

/// o is the offer this card describes.
pub open spec fn card_offer(d: Document, card: usize, o: Offer) -> bool {
    &&& card_title(d, card) matches Some(t) && o.title@ == t
    &&& card_href(d, card) matches Some(h) && o.url@ == h
    &&& o.price == card_price(d, card)
}

/// Builds one offer from one listing card: title and link are mandatory, a
/// missing price node falls back to the sentinel.
pub fn offer_from_card(d: &Document, card: usize) -> (r: Result<Offer, ScrapeError>)
    ensures
        r is Ok <==> card_ok(*d, card),
        r matches Ok(o) ==> card_offer(*d, card, o),
        r == Err::<Offer, ScrapeError>(ScrapeError::MissingTitle) <==> card_title(*d, card)
            is None,
        r == Err::<Offer, ScrapeError>(ScrapeError::MissingUrl) <==> (card_title(*d, card) is Some
            && card_href(*d, card) is None),
{
    let title: String = match find_first_name_name(d, card, "a", "strong") {
        Some(t) => {
            match text_of(d, t) {
                Some(s) => s,
                None => {
                    return Err(ScrapeError::MissingTitle);
                },
            }
        },
        None => {
            return Err(ScrapeError::MissingTitle);
        },
    };
    let url: String = match find_first_name(d, card, "a") {
        Some(a) => {
            match attr_of(d, a, "href") {
                Some(h) => h,
                None => {
                    return Err(ScrapeError::MissingUrl);
                },
            }
        },
        None => {
            return Err(ScrapeError::MissingUrl);
        },
    };
    let price: u64 = match find_first_class_name(d, card, "price", "strong") {
        Some(p) => {
            match text_of(d, p) {
                Some(txt) => parse_price(txt.as_str()).unwrap(),
                None => SENTINEL_CENTS,
            }
        },
        None => SENTINEL_CENTS,
    };
    Ok(Offer { title, price, url })
}

/// Extracts every listing card of a fetched page and appends one offer per
/// card, in document order; a card without title or link aborts the page
/// and leaves the collection untouched.
pub fn parse_page(d: &Document, result: &mut Vec<Offer>) -> (r: Result<(), ScrapeError>)
    ensures
        r is Ok <==> (forall|i: int|
            0 <= i < class_nodes(*d, "offer-wrapper"@).len() ==> card_ok(
                *d,
                #[trigger] class_nodes(*d, "offer-wrapper"@)[i],
            )),
        r is Ok ==> {
            &&& final(result)@.len() == old(result)@.len() + class_nodes(
                *d,
                "offer-wrapper"@,
            ).len()
            &&& forall|i: int|
                0 <= i < old(result)@.len() ==> final(result)@[i] == old(result)@[i]
            &&& forall|i: int|
                0 <= i < class_nodes(*d, "offer-wrapper"@).len() ==> card_offer(
                    *d,
                    #[trigger] class_nodes(*d, "offer-wrapper"@)[i],
                    final(result)@[old(result)@.len() + i],
                )
        },
        r is Err ==> final(result)@ == old(result)@,
{
    let cards = find_by_class(d, "offer-wrapper");
    let mut out: Vec<Offer> = Vec::new();
    let mut i: usize = 0;
    while i < cards.len()
        invariant
            cards@ == class_nodes(*d, "offer-wrapper"@),
            i <= cards@.len(),
            out@.len() == i as int,
            forall|k: int| 0 <= k < i as int ==> card_ok(*d, #[trigger] cards@[k]),
            forall|k: int| 0 <= k < i as int ==> card_offer(*d, #[trigger] cards@[k], out@[k]),
        decreases cards@.len() - i,
    {
        match offer_from_card(d, cards[i]) {
            Ok(o) => {
                out.push(o);
            },
            Err(e) => {
                return Err(e);
            },
        }
        i = i + 1;
    }
    result.append(&mut out);
    Ok(())
}

/// The text of the last-page indicator on the first page, when a pagination
/// control and its label are present.
pub open spec fn pager_label(d: Document) -> Option<Seq<char>> {
    if class_nodes(d, "pager"@).len() == 0 {
        None
    } else {
        match first_attr_name_in(d, class_nodes(d, "pager"@)[0], "data-cy"@, "page-link-last"@, "span"@) {
            Some(n) => node_text(d, n),
            None => None,
        }
    }
}

/// Reads the pagination control of the first page: no control means a
/// single page; a control announcing a parsable positive count means that
/// many pages; anything else falls back to one page.
pub fn pages_on_first(d: &Document) -> (n: u32)
    ensures
        n == match pager_label(*d) {
            None => 1u32,
            Some(t) => page_count_of(t),
        },
        class_nodes(*d, "pager"@).len() == 0 ==> n == 1,
        n >= 1,
{
    let pagers = find_by_class(d, "pager");
    if pagers.len() == 0 {
        return 1;
    }
    match find_first_attr_name(d, pagers[0], "data-cy", "page-link-last", "span") {
        None => 1,
        Some(nd) => {
            match text_of(d, nd) {
                None => 1,
                Some(t) => total_pages(Some(t.as_str())),
            }
        },
    }
}

/// Decides the number of pages to fetch from the text of the last-page
/// indicator, when the first page showed one.
pub fn total_pages(pager_label: Option<&str>) -> (n: u32)
    ensures
        pager_label is None ==> n == 1,
        pager_label matches Some(s) ==> n == page_count_of(s@),
        n >= 1,
{
    match pager_label {
        None => 1,
        Some(s) => {
            match crate::strutil::parse_u32_digits(s) {
                Some(v) => {
                    if v >= 1 {
                        v
                    } else {
                        1
                    }
                },
                None => 1,
            }
        },
    }
}

} // verus!
