use vstd::prelude::*;

pub mod audit;
pub mod bytes;
pub mod dat_descriptor;
pub mod dat_files;
pub mod dat_path;
pub mod error;
pub mod exports;
pub mod format_detect;
pub mod text;
pub mod xbox;
pub mod xbox_accounting;
pub mod yaml_paths;
pub mod formats;
pub mod id_mapping;
pub mod logical_paths;
pub mod messages;
pub mod order;
pub mod rom_tables;

verus! {

} // verus!

