pub mod bundle;
pub mod catalog;
pub mod client;
pub mod input;
pub mod json;
pub mod messages;
pub mod pager;
pub mod text;
pub mod wire;
