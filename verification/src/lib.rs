//! In-memory key/value configuration store with CRUD operations,
//! substring search, and API-key gating for mutating requests.

mod auth;
mod config;
mod error;
mod handlers;
mod store;
mod text;

pub use auth::GateOutcome;
pub use auth::gate_api_key;
pub use handlers::handle_delete;

pub use store::ConfigStore;
pub use store::views_of;
pub use store::has_id;
pub use store::unique_ids;
pub use store::keeps;
pub use store::matches_pred;
pub use store::apply_patch;
pub use store::lemma_store_uniqueness;
pub use store::lemma_patch_semantics;
pub use text::contains_seq;
pub use text::lower_of;
pub use text::value_matches;
pub use text::matches_query;

pub use error::ErrorResponse;
pub use error::dec_of;
pub use error::id_detail;
pub use error::i32_string;
pub use error::id_detail_string;
pub use config::Config;
pub use config::ConfigView;
pub use config::ConfigUpdateRequest;
pub use config::UpdateView;
