//! Source adapter for the marketplace API: search parameters, offer
//! construction from the JSON result items, and the one-time setup record.

use crate::auth::Credential;
use crate::json::json_array;
use crate::json::json_as_array;
use crate::json::json_as_str;
use crate::json::json_field;
use crate::json::json_get;
use crate::json::json_parse;
use crate::json::json_str;
use crate::json::parsed_json;
use crate::offer::Offer;
use crate::offer::SearchQuery;
use crate::price::price_cents_spec;
use crate::price::parse_price;
use serde_json::Value;
use vstd::prelude::*;

verus! {

/// The body of the search request was not the expected JSON document:
/// fatal for this source.
#[derive(Clone, Copy, Debug, PartialEq, Eq, Structural)]
pub enum ApiError {
    MalformedResponse,
}

/// The canonical listing URL the API source constructs: slugified display
/// name plus the item identifier.
pub uninterp spec fn slug_of(s: Seq<char>) -> Seq<char>;

/// Relies on slug::slugify: an ASCII slug of the name, a function of its
/// characters alone.
#[verifier::external_body]
fn slugify_str(s: &str) -> (r: String)
    ensures
        r@ == slug_of(s@),
{
    slug::slugify(s)
}

pub open spec fn offer_url_spec(name: Seq<char>, id: Seq<char>) -> Seq<char> {
    "https://allegro.pl/oferta/"@ + slug_of(name) + "-"@ + id
}

/// Builds the canonical listing URL from a result item's display name and
/// identifier.
pub fn offer_url(name: &str, id: &str) -> (r: String)
    ensures
        r@ == offer_url_spec(name@, id@),
{
    let mut url = String::new();
    url.push_str("https://allegro.pl/oferta/");
    let slug = slugify_str(name);
    url.push_str(slug.as_str());
    url.push_str("-");
    url.push_str(id);
    proof {
        assert(url@ =~= offer_url_spec(name@, id@));
    }
    url
}

/// o is the offer an API result item with these fields describes.
pub open spec fn api_offer(name: Seq<char>, id: Seq<char>, amount: Seq<char>, o: Offer) -> bool {
    &&& o.title@ == name
    &&& o.price == price_cents_spec(amount)
    &&& o.url@ == offer_url_spec(name, id)
}

/// Builds one offer from one result item's display name, identifier, and
/// price amount string.
pub fn build_offer(name: &str, id: &str, amount: &str) -> (o: Offer)
    ensures
        api_offer(name@, id@, amount@, o),
{
    let title = name.to_owned();
    let price = parse_price(amount).unwrap();
    let url = offer_url(name, id);
    Offer { title, price, url }
}

/// The query parameters of one search request: the phrase always, the
/// price bounds only when the caller supplied them.
pub open spec fn search_params_spec(q: SearchQuery) -> Seq<(Seq<char>, Seq<char>)> {
    let base = seq![("phrase"@, q.query@)];
    let with_min = match q.min_price {
        Some(m) => base.push(("price.from"@, m@)),
        None => base,
    };
    match q.max_price {
        Some(m) => with_min.push(("price.to"@, m@)),
        None => with_min,
    }
}

/// Translates the caller's filter set into this source's query-parameter
/// dialect.
pub fn search_params(q: &SearchQuery) -> (r: Vec<(String, String)>)
    ensures
        r@.len() == search_params_spec(*q).len(),
        forall|i: int|
            0 <= i < r@.len() ==> (#[trigger] r@[i]).0@ == search_params_spec(*q)[i].0 && r@[i].1@
                == search_params_spec(*q)[i].1,
{
    let mut params: Vec<(String, String)> = Vec::new();
    let mut phrase = String::new();
    phrase.push_str("phrase");
    params.push((phrase, q.query.clone()));
    match &q.min_price {
        Some(m) => {
            let mut key = String::new();
            key.push_str("price.from");
            params.push((key, m.clone()));
        },
        None => {},
    }
    match &q.max_price {
        Some(m) => {
            let mut key = String::new();
            key.push_str("price.to");
            params.push((key, m.clone()));
        },
        None => {},
    }
    params
}

/// The result list of a search response body: the elements of
/// items.regular, when the body is JSON and that path leads to an array.
pub open spec fn response_items(body: Seq<char>) -> Option<Seq<Value>> {
    match parsed_json(body) {
        Some(root) => match json_field(root, "items"@) {
            Some(items) => match json_field(items, "regular"@) {
                Some(regular) => json_array(regular),
                None => None,
            },
            None => None,
        },
        None => None,
    }
}

/// The display name a result item carries, when it is a string.
pub open spec fn item_name(item: Value) -> Option<Seq<char>> {
    match json_field(item, "name"@) {
        Some(v) => json_str(v),
        None => None,
    }
}

/// The identifier a result item carries, when it is a string.
pub open spec fn item_id(item: Value) -> Option<Seq<char>> {
    match json_field(item, "id"@) {
        Some(v) => json_str(v),
        None => None,
    }
}

/// The price amount string under the item's sellingMode.price.
pub open spec fn item_amount(item: Value) -> Option<Seq<char>> {
    match json_field(item, "sellingMode"@) {
        Some(sm) => match json_field(sm, "price"@) {
            Some(p) => match json_field(p, "amount"@) {
                Some(a) => json_str(a),
                None => None,
            },
            None => None,
        },
        None => None,
    }
}

/// A result item can become an offer exactly when its name, identifier and
/// price amount are all present as strings.
pub open spec fn item_ok(item: Value) -> bool {
    item_name(item) is Some && item_id(item) is Some && item_amount(item) is Some
}

/// o is the offer this result item describes.
pub open spec fn item_offer(item: Value, o: Offer) -> bool {
    &&& item_name(item) matches Some(n) && item_id(item) matches Some(d) && item_amount(item)
        matches Some(a) && api_offer(n, d, a, o)
}

proof fn lemma_item_not_ok(body: Seq<char>, arr: Seq<Value>, i: int)
    requires
        response_items(body) == Some(arr),
        0 <= i < arr.len(),
        !item_ok(arr[i]),
    ensures
        response_items(body) matches Some(items) ==> !(forall|k: int|
            0 <= k < items.len() ==> item_ok(#[trigger] items[k])),
{
    match response_items(body) {
        Some(items) => {
            assert(items == arr);
            assert(!item_ok(items[i]));
        },
        None => {},
    }
}

/// Reads the search response body: one offer per element of items.regular,
/// in response order, each built from that item's name, identifier and
/// price amount. A body that is not JSON, or whose expected fields are
/// missing or of the wrong shape, is fatal for this source.
pub fn parse_response(body: &str) -> (r: Result<Vec<Offer>, ApiError>)
    ensures
        r is Ok <==> (response_items(body@) matches Some(items) && forall|i: int|
            0 <= i < items.len() ==> item_ok(#[trigger] items[i])),
        r matches Ok(v) ==> (response_items(body@) matches Some(items) && v@.len() == items.len()
            && forall|i: int| 0 <= i < items.len() ==> item_offer(#[trigger] items[i], v@[i])),
{
    let root = match json_parse(body) {
        Some(v) => v,
        None => {
            return Err(ApiError::MalformedResponse);
        },
    };
    let items_val = match json_get(&root, "items") {
        Some(v) => v,
        None => {
            return Err(ApiError::MalformedResponse);
        },
    };
    let regular = match json_get(items_val, "regular") {
        Some(v) => v,
        None => {
            return Err(ApiError::MalformedResponse);
        },
    };
    let arr: &Vec<Value> = match json_as_array(regular) {
        Some(a) => a,
        None => {
            return Err(ApiError::MalformedResponse);
        },
    };
    assert(response_items(body@) == Some(arr@));
    let mut out: Vec<Offer> = Vec::new();
    let mut i: usize = 0;
    while i < arr.len()
        invariant
            response_items(body@) == Some(arr@),
            i <= arr@.len(),
            out@.len() == i as int,
            forall|k: int| 0 <= k < i as int ==> item_ok(#[trigger] arr@[k]),
            forall|k: int| 0 <= k < i as int ==> item_offer(#[trigger] arr@[k], out@[k]),
        decreases arr@.len() - i,
    {
        let item = &arr[i];
        let name = match json_get(item, "name") {
            Some(v) => {
                match json_as_str(v) {
                    Some(s) => s,
                    None => {
                        proof {
                            lemma_item_not_ok(body@, arr@, i as int);
                        }
                        return Err(ApiError::MalformedResponse);
                    },
                }
            },
            None => {
                proof {
                    lemma_item_not_ok(body@, arr@, i as int);
                }
                return Err(ApiError::MalformedResponse);
            },
        };
        assert(item_name(arr@[i as int]) == Some(name@));
        let id = match json_get(item, "id") {
            Some(v) => {
                match json_as_str(v) {
                    Some(s) => s,
                    None => {
                        proof {
                            lemma_item_not_ok(body@, arr@, i as int);
                        }
                        return Err(ApiError::MalformedResponse);
                    },
                }
            },
            None => {
                proof {
                    lemma_item_not_ok(body@, arr@, i as int);
                }
                return Err(ApiError::MalformedResponse);
            },
        };
        assert(item_id(arr@[i as int]) == Some(id@));
        let selling_mode = match json_get(item, "sellingMode") {
            Some(v) => v,
            None => {
                proof {
                    lemma_item_not_ok(body@, arr@, i as int);
                }
                return Err(ApiError::MalformedResponse);
            },
        };
        let price_obj = match json_get(selling_mode, "price") {
            Some(v) => v,
            None => {
                proof {
                    lemma_item_not_ok(body@, arr@, i as int);
                }
                return Err(ApiError::MalformedResponse);
            },
        };
        let amount = match json_get(price_obj, "amount") {
            Some(v) => {
                match json_as_str(v) {
                    Some(s) => s,
                    None => {
                        proof {
                            lemma_item_not_ok(body@, arr@, i as int);
                        }
                        return Err(ApiError::MalformedResponse);
                    },
                }
            },
            None => {
                proof {
                    lemma_item_not_ok(body@, arr@, i as int);
                }
                return Err(ApiError::MalformedResponse);
            },
        };
        assert(item_amount(arr@[i as int]) == Some(amount@));
        let o = build_offer(name.as_str(), id.as_str(), amount.as_str());
        let ghost prev = out@;
        out.push(o);
        proof {
            assert(item_offer(arr@[i as int], out@[i as int]));
            assert(forall|k: int| 0 <= k < i as int ==> #[trigger] out@[k] == prev[k]);
        }
        i = i + 1;
    }
    Ok(out)
}

/// The credential record the one-time setup persists before the first
/// handshake: the caller's application identity with an empty token that
/// needs refreshing right away, at any clock reading from now on.
pub fn setup(client_id: &str, client_secret: &str, now: i64) -> (c: Credential)
    ensures
        c.access_token@ == Seq::<char>::empty(),
        c.refresh_token@ == Seq::<char>::empty(),
        c.expires_in == -100,
        c.expires_at == now,
        c.client_id@ == client_id@,
        c.client_secret@ == client_secret@,
        forall|t: i64| t >= now ==> !crate::auth::credential_valid(c, t),
{
    Credential {
        access_token: String::new(),
        refresh_token: String::new(),
        expires_in: -100,
        expires_at: now,
        client_id: client_id.to_owned(),
        client_secret: client_secret.to_owned(),
    }
}

} // verus!
