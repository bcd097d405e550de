pub mod collections;
pub mod crs;
pub mod features;
pub mod links;
pub mod listing;
pub mod pagination;
pub mod query;
pub mod stac;
pub mod store;
pub mod styles;

pub use crs::{format_crs, parse_srid, resolve_srid, DEFAULT_SRID};
pub use features::{Asset, AssetRole, Assets, Feature, FeatureCollection, FeatureType};
pub use links::{insert_or_update, resolve_relative_links, Link};
pub use pagination::{paginate, PageLinks};
pub use query::{translate, CollectionInfo, Envelope, Query, QueryError, QueryPlan};
pub use stac::{catalog, stac_version};
pub use store::StoreError;
pub use styles::{Style, Styles, Stylesheet};
