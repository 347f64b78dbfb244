//! Gzip compression of response bodies, done by `flate2`.
use vstd::prelude::*;
use std::io::Write;

verus! {

/// The gzip stream that `flate2` produces for `data` with its default
/// encoder settings (compression level 6, no file name, no time stamp).
pub uninterp spec fn gzip(data: Seq<u8>) -> Seq<u8>;

/// The ten-byte gzip header that `flate2::write::GzEncoder::new` writes for the
/// default compression level: magic bytes, deflate method, no flags, time
/// stamp 0, no extra flags, operating system 255 ("unknown").
pub open spec fn gzip_header() -> Seq<u8> {
    seq![0x1fu8, 0x8bu8, 8u8, 0u8, 0u8, 0u8, 0u8, 0u8, 0u8, 255u8]
}

/// `n` modulo 2^32 as four little-endian bytes.
pub open spec fn le32(n: nat) -> Seq<u8> {
    seq![
        (n % 256) as u8,
        (n / 256 % 256) as u8,
        (n / 65536 % 256) as u8,
        (n / 16777216 % 256) as u8,
    ]
}

/// `compress_data`: writes `data` into a `flate2::write::GzEncoder` over a
/// `Vec` with `Compression::default()` and finishes it. The result is named
/// by `gzip`; as flate2's encoder shows, it starts with the fixed header
/// above and ends with the input's length modulo 2^32 (the gzip trailer,
/// after the CRC-32). The deflate stream in between is left unsaid. Writing
/// into a `Vec` cannot fail, so neither `unwrap` panics.
#[verifier::external_body]
pub fn compress_data(data: &[u8]) -> (r: Vec<u8>)
    ensures
        r@ == gzip(data@),
        r@.len() >= 18,
        r@.take(10) == gzip_header(),
        r@.skip(r@.len() - 4) == le32(data@.len() % 4294967296),
{
    let mut encoder = flate2::write::GzEncoder::new(Vec::new(), flate2::Compression::default());
    encoder.write_all(data).unwrap();
    encoder.finish().unwrap()
}

} // verus!
