//! What holds of the library as a whole.

pub mod conversation;
pub mod items;
pub mod json;
pub mod lines;
pub mod models;
pub mod progress;
pub mod request;
pub mod response;
pub mod stream;
pub mod told;
