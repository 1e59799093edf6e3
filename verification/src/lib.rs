//! Verified core of a terminal e-mail client: configuration lookup, password
//! retrieval decisions, mail header handling and the navigation logic of the
//! terminal views.

pub mod text;
pub mod cfg;
pub mod structs;
pub mod ui;
pub mod opt;
