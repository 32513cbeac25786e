//! Extraction of structured records (titles, people, ratings, links) from
//! the HTML of a media-catalog site's search pages.
//!
//! The heart of the crate is verified logic over plain values: the
//! role-keyed people parser, the row filters of the two result-page
//! extractors, and the request-URL builders.  The DOM itself is reached
//! through a thin trusted layer over the `scraper` crate (see `dom`); the
//! fetch that produces the HTML lives outside this crate.

pub mod by_title;
pub mod by_title_find;
pub mod dom;
pub mod helper_tags;
pub mod people;
pub mod text;

pub use by_title::{ByTitle, TitleSearch, TitleSearchItem};
pub use by_title_find::{ByTitleFind, ByTitleFound, ByTitleFoundItem};
pub use helper_tags::ATag;
pub use people::{PeopleInfo, RoleGroup};
