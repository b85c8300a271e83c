//! Core of a columnar query engine, in two parts.
//!
//! The first part is the type duality model and the materializer: a column's
//! logical type (`dtype::DataType`) is stored in a flat physical layout
//! (`dtype::DataType::to_physical`), and a chunked column (`series::Series`)
//! is re-expressed, chunk by chunk, as a canonical interchange array
//! (`series::Series::to_arrow`).
//!
//! The second part is the semantic contract of relational joins: the join
//! kind taxonomy, the argument bundle, column coalescing, row-order
//! preservation, and the key-cardinality validation engine (`join`).

pub mod array;
pub mod dtype;
pub mod join;
pub mod series;
