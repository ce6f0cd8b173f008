pub mod client_globals;
pub mod client_resources;
pub mod items;
pub mod key_items;
pub mod zone_text;
pub mod ximesh;
