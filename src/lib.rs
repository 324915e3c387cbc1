//! A blogging-platform backend core: users, articles, comments, favorites and
//! follows held in one well-formed store, with the listing, feed and mutation
//! operations stated and proved over that store.
//!
//! Choices the contracts fix:
//! - Favorites and follows are strict: a repeated favorite or follow fails
//!   with `Conflict`, removing one that does not exist fails with `NotFound`.
//! - A favorite edge and its article's counter change in one step, so every
//!   counter always equals the number of edges naming its article.
//! - Slugs are a title's slug, a hyphen and random characters; a slug already
//!   in use is drawn again a bounded number of times, so slugs stay unique.
//! - Tags match by exact text (case-sensitive); tags left without articles stay.
//! - Listings, feeds and comment lists are newest first. Time stamps come from
//!   the caller and never run backwards: a stamp earlier than the latest one
//!   is raised to it, so store order is creation order.
//! - Deleting an article deletes its favorites, tag associations and comments.

pub mod authentication;
pub mod config;
pub mod db;
pub mod errors;
pub mod models;
pub mod routes;
pub mod sanitize;
