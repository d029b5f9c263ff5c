//! A small HTTP request tool's core: how a request is put together from the
//! command line's values, how a response is shown, and how JSON is brought
//! into canonical form (object keys sorted at every depth) for display.

pub mod address;
pub mod canonical;
pub mod codec;
pub mod error;
pub mod laws;
pub mod order;
pub mod request;
pub mod response;
pub mod text;
pub mod value;
