//! Month identifiers, editable month documents and their calculation.
pub mod calculation;
pub mod document;
pub mod entries;
pub mod id;
pub mod projection;
