//! Protocol-side helpers that compute on plain text: AT-URI parsing and link facets.
pub mod at_uri;
pub mod links;
