//! An embedded vector store: fixed-dimension embeddings kept beside opaque
//! metadata, encoded for durable storage and ranked by similarity score.
//!
//! The library holds the store's decisions: the embedding type, its byte
//! codec, the dimension state machine, the reading of stored rows and the
//! ranking of scored results. Storage and floating-point scoring are driven
//! by the caller around it.

mod codec;
mod config;
mod error;
mod rank;
mod store;
mod sync;
mod vector;

pub use codec::{
    components_of, decode, decode_outcome, encode, encode_outcome, lemma_round_trip, msgpack_of,
};
pub use config::{pragma_plan, Config, Pragma};
pub use error::VectorDBError;
pub use rank::{
    is_top_order, keys_of, lemma_search_ranked, lemma_top_first, order_key, rank, score_key, scored, select_top, top_k,
    SearchResult,
};
pub use store::{
    after_clear, after_delete, after_upsert, candidate_view, count_of, decode_rows, decoded_rows,
    found_view, get_outcome, insert_outcome, lemma_clear_empties, lemma_delete_one,
    lemma_insert_then_get, next_dimension, read_row, rejects, stored, Candidate, Dimension, Row,
    StoreState, Table,
};
pub use sync::SyncMessage;
pub use vector::Vector;
