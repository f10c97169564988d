//! Text normalisation, search-query planning and address formatting for the
//! RÚIAN address search.

pub mod chars;
pub mod text;
pub mod normalize;
pub mod normal_form;
pub mod numbers;
pub mod address;
pub mod display;
pub mod display_laws;
pub mod search;
pub mod search_laws;
pub mod plan;
pub mod plan_laws;
pub mod query;
pub mod query_laws;
pub mod matching;
pub mod index_columns;
pub mod requests;
pub mod batch;
pub mod sql;

pub use address::Adresa;
pub use batch::{should_flush, BATCH_ROWS};
pub use index_columns::{index_columns, IndexColumns};
pub use display::{address_card, format_search_result, AddressCard};
pub use normalize::{normalize, pad_token};
pub use plan::{plan_search, SearchPlan};
pub use query::{search_query, QueryPiece};
pub use requests::{InputAction, SearchRequests};
pub use search::search_text;
pub use sql::build_search_query;
