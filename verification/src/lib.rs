//! Verified core of a Nix substituter proxy.
use vstd::prelude::*;

pub mod text;
pub mod url;
pub mod nar_file_name;
pub mod store_path_hash;
pub mod nar_info_data;
pub mod availability;
pub mod substituter;
pub mod availability_index;
pub mod nar;
pub mod download;
pub mod reorder;
pub mod usecase;
pub mod http_api;
pub mod config;
pub mod resolution;
pub mod load_tracker;
pub mod status;
pub mod nar_file_index;
pub mod upstream;

verus! {

} // verus!
