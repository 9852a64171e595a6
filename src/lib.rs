//! An encrypted local password vault: key custody, authenticated encryption of
//! the serialized vault, the decisions of the read and write paths, and a CSV
//! import pipeline that merges outside records under uniqueness rules.
pub mod codec;
pub mod key;
pub mod records;
pub mod store;
pub mod text;
pub mod csv_import;
pub mod csv_path;
