pub mod aggregate;
pub mod allegro_client;
pub mod allegro_lokalnie_client;
pub mod auth;
pub mod dom;
pub mod json;
pub mod offer;
pub mod olx_client;
pub mod price;
pub mod strutil;

pub use aggregate::aggregate;
pub use aggregate::min_offer;
pub use offer::Offer;
pub use offer::SearchQuery;
pub use price::parse_price;
