//! A provenance versioned model: audit records become a typed, versioned
//! graph whose every change is handed on, in commit order, to the views.
pub mod data;
pub mod text;
pub mod id_counter;
pub mod overlay;
pub mod db;
pub mod pvm;
pub mod laws;
pub mod cadets;
pub mod ingest;
pub mod proc_tree;
pub mod views;
pub mod cfg;
pub mod errors;
pub mod iostream;
