pub mod assoc;
pub mod config;
pub mod gzip;
pub mod headers;
pub mod libx;
pub mod pages;
pub mod rapid;
pub mod text;
pub mod utils;
pub mod xom_http;
