pub mod item_info;
pub mod item_strings;
pub mod item_export;
pub mod entity_names;
pub mod xistring_table;
pub mod dialog;
pub mod status_info;
