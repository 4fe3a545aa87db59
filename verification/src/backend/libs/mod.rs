pub mod error;
pub mod fields;
pub mod json_text;
pub mod message;
pub mod usergroup;
