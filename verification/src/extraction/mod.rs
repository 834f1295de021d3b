pub mod types;
pub mod rust_types;
pub mod python_types;
pub mod typed_types;
pub mod ts_types;
pub mod haskell_types;
pub mod collect;
pub mod type_laws;
