//! Header lookup and body compression shared by the routes.
pub use crate::gzip::compress_data;
pub use crate::libx::get_header;
