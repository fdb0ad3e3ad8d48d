//! An image cache: stable on-disk keys derived from image URLs, atomic
//! staging-then-publish of fetched content, validation of origin responses,
//! and coordination of concurrent cache fills so that each key is fetched
//! from its origin at most once per burst of misses.

pub mod error;
pub mod url_parts;
pub mod key;
pub mod staging;
pub mod fetch;
pub mod store;
pub mod coordinator;
pub mod request;

pub use error::CacheError;
pub use url_parts::{UrlParts, parse_url_parts};
pub use key::{get_cache_dir, cache_key, derive_key, join_path, get_image_cache_path};
pub use staging::{push_decimal, staging_payload, staging_path, tempfile_path_at, get_tempfile_path};
pub use fetch::{STATUS_OK, is_image_type, check_response, accept_response};
pub use store::{is_image_cache_hit, parent_dir, PublishPlan, publish_plan, publish_plan_at, PublishStage, PublishAction, next_stage, publish_action};
pub use coordinator::{Role, InFlight};
pub use request::{PrepareJson, PicQuery};
