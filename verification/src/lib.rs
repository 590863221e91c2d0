//! Random selection of person names from a dataset of name records, narrowed
//! by first letter, origin, kind and gender.

mod entries;
pub mod filter;
pub mod generator;
mod inline;
pub mod laws;
pub mod name;
pub mod origin;
mod sampling;

pub use filter::Filter;
pub use generator::{first_letter, record_at, Generator};
pub use name::{Gender, Name, NameKind, NameView};
pub use origin::Origin;
