//! Base64 encode, decode, escape and unescape for URL applications.
//!
//! The escape and unescape operations convert between standard Base64 text
//! and URL-safe Base64 text by character substitution and padding handling
//! alone; the encode and decode operations go through a numeric Base64
//! codec configured with the URL-safe, no-padding alphabet.

pub mod decode;
pub mod encode;
pub mod engine;
pub mod escape;
pub mod laws;
pub mod model;
pub mod text;
pub mod unescape;

pub use decode::decode;
pub use decode::decode_to_slice;
pub use decode::decode_to_vec;
pub use encode::encode;
pub use encode::encode_to_slice;
pub use encode::encode_to_string;
pub use encode::encode_to_vec;
pub use engine::decoded;
pub use engine::encoded;
pub use escape::escape;
pub use escape::escape_in_place;
pub use escape::escape_u8_slice;
pub use escape::escape_u8_slice_in_place;
pub use escape::escape_vec_in_place;
pub use escape::unsafe_escape;
pub use escape::unsafe_escape_string;
pub use escape::unsafe_escape_u8_slice;
pub use escape::unsafe_escape_vec;
pub use model::escaped;
pub use model::first_pad;
pub use model::unescaped;
pub use unescape::unescape;
pub use unescape::unescape_in_place;
pub use unescape::unescape_u8_slice;
pub use unescape::unescape_u8_slice_try_in_place;
pub use unescape::unescape_vec_in_place;
pub use unescape::unsafe_unescape;
pub use unescape::unsafe_unescape_string;
pub use unescape::unsafe_unescape_u8_slice;
pub use unescape::unsafe_unescape_vec;
