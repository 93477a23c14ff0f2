//! The far side of every handle: the object table, its retain counts and the
//! ledger of owned references.
pub mod heap;
pub mod payload;
pub mod runtime;

pub use heap::Heap;
pub use payload::Payload;
pub use payload::State;
pub use payload::ARRAY_TYPE_ID;
pub use payload::BLOCK_BUF_TYPE_ID;
pub use payload::NULL_TYPE_ID;
pub use payload::NUMBER_TYPE_ID;
pub use payload::SAMPLE_BUF_TYPE_ID;
pub use payload::STRING_TYPE_ID;
pub use payload::TAP_DESC_TYPE_ID;
pub use runtime::Runtime;
