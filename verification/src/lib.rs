//! Verified core of a website-hosting backend.
//!
//! A user owns websites; each website has pages, custom domains and a visual
//! customization record.  The two central mechanisms are
//!
//! * the composite wire codec ([`wire`]): the relational engine returns each
//!   one-to-many child collection pre-aggregated into a single array-of-record
//!   column, and this crate decodes that binary encoding back into typed child
//!   records (and can encode records for round-trip checking), and
//! * the domain-ownership verification engine ([`domains`]): user-supplied
//!   domains move `Pending -> Active` once DNS evidence shows they point at
//!   the platform, at which point a custom-hostname provisioning action is
//!   emitted.
//!
//! Storage semantics (ownership scoping, uniqueness, pagination, the home-page
//! invariant) are specified and verified against an in-memory relational
//! [`store::Store`]; the SQL statements sent to the real engine are built by
//! the verified [`sql`] module.  All network and database I/O lives outside
//! this crate and exchanges plain values with it.

pub mod cloudflare;
pub mod domains;
pub mod customizations;
pub mod errors;
pub mod images;
pub mod wire;
pub mod model;
pub mod pages;
pub mod pagination;
pub mod schedule;
pub mod sql;
pub mod static_pages;
pub mod store;
pub mod websites;
