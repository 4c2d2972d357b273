//! A verified core for a drink-catalog service.
//!
//! The catalog manages one entity, the drink, in a flat store: creation,
//! lookup, partial update, deletion, filtered search, and a per-brand
//! aggregate summary. The store semantics, the merge rule for partial
//! updates, and the dynamic predicate builder that turns optional filter
//! criteria into an ordered clause list with positionally bound values are
//! all specified and proved here; transport and persistence wiring live
//! outside the library.

pub mod aggregate;
pub mod models;
pub mod predicate;
pub mod store;
