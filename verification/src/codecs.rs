//! Trusted bindings to outside decoders.
//!
//! Each wrapper makes exactly one outside call. What a decoder returns is a
//! function of its input alone, so each result is given a name (an
//! uninterpreted spec function) that contracts elsewhere in the library can
//! refer to; nothing more is assumed of the decoded bytes.

use vstd::prelude::*;

verus! {

/// Whether `pattern` is a valid regular expression that matches the text
/// whose UTF-8 bytes are `window`; `None` when the pattern does not compile
/// or the window is not valid UTF-8.
pub uninterp spec fn regex_eval_of(pattern: Seq<char>, window: Seq<u8>) -> Option<bool>;

/// The gzip-decoded payload of `input`, or `None` when decoding fails.
pub uninterp spec fn gzip_decoded(input: Seq<u8>) -> Option<Seq<u8>>;

/// The bzip2-decoded payload of `input`, or `None` when decoding fails.
pub uninterp spec fn bzip2_decoded(input: Seq<u8>) -> Option<Seq<u8>>;

/// The xz-decoded payload of `input`, or `None` when decoding fails.
pub uninterp spec fn xz_decoded(input: Seq<u8>) -> Option<Seq<u8>>;

/// The raw-LZMA-decoded payload of `input`, or `None` when decoding fails.
pub uninterp spec fn lzma_decoded(input: Seq<u8>) -> Option<Seq<u8>>;

/// The LZ4-frame-decoded payload of `input`, or `None` when decoding fails.
pub uninterp spec fn lz4_decoded(input: Seq<u8>) -> Option<Seq<u8>>;

/// The zstd-decoded payload of `input`, or `None` when decoding fails.
pub uninterp spec fn zstd_decoded(input: Seq<u8>) -> Option<Seq<u8>>;

/// The LSB-first LZW-decoded payload of `input` under the given code width,
/// or `None` when decoding fails.
pub uninterp spec fn lzw_decoded(max_bits: u8, input: Seq<u8>) -> Option<Seq<u8>>;

/// The first `out_len` bytes of the raw-deflate-decoded payload of `input`,
/// or `None` when decoding fails or yields fewer bytes.
pub uninterp spec fn inflate_raw_exact(input: Seq<u8>, out_len: usize) -> Option<Seq<u8>>;

/// Relies on regex::Regex::new and regex::Regex::is_match: whether a valid
/// pattern matches a text is a function of the pattern and the text alone.
#[verifier::external_body]
pub(crate) fn regex_eval(pattern: &str, window: &[u8]) -> (r: Option<bool>)
    ensures
        r == regex_eval_of(pattern@, window@),
{
    let text = match std::str::from_utf8(window) {
        Ok(t) => t,
        Err(_) => return None,
    };
    match regex::Regex::new(pattern) {
        Ok(re) => Some(re.is_match(text)),
        Err(_) => None,
    }
}

/// Relies on flate2::read::GzDecoder: the decoded stream is a function of
/// the compressed bytes alone.
#[verifier::external_body]
pub(crate) fn gzip_decode(input: &[u8]) -> (r: Option<Vec<u8>>)
    ensures
        match r {
            Some(v) => gzip_decoded(input@) == Some(v@),
            None => gzip_decoded(input@) is None,
        },
{
    let mut decoder = flate2::read::GzDecoder::new(input);
    let mut out: Vec<u8> = Vec::new();
    match std::io::Read::read_to_end(&mut decoder, &mut out) {
        Ok(_) => Some(out),
        Err(_) => None,
    }
}

/// Relies on bzip2::read::BzDecoder: the decoded stream is a function of the
/// compressed bytes alone.
#[verifier::external_body]
pub(crate) fn bzip2_decode(input: &[u8]) -> (r: Option<Vec<u8>>)
    ensures
        match r {
            Some(v) => bzip2_decoded(input@) == Some(v@),
            None => bzip2_decoded(input@) is None,
        },
{
    let mut decoder = bzip2::read::BzDecoder::new(input);
    let mut out: Vec<u8> = Vec::new();
    match std::io::Read::read_to_end(&mut decoder, &mut out) {
        Ok(_) => Some(out),
        Err(_) => None,
    }
}

/// Relies on xz2::read::XzDecoder: the decoded stream is a function of the
/// compressed bytes alone.
#[verifier::external_body]
pub(crate) fn xz_decode(input: &[u8]) -> (r: Option<Vec<u8>>)
    ensures
        match r {
            Some(v) => xz_decoded(input@) == Some(v@),
            None => xz_decoded(input@) is None,
        },
{
    let mut decoder = xz2::read::XzDecoder::new(input);
    let mut out: Vec<u8> = Vec::new();
    match std::io::Read::read_to_end(&mut decoder, &mut out) {
        Ok(_) => Some(out),
        Err(_) => None,
    }
}

/// Relies on lzma_rs::lzma_decompress: the decoded stream is a function of
/// the compressed bytes alone.
#[verifier::external_body]
pub(crate) fn lzma_decode(input: &[u8]) -> (r: Option<Vec<u8>>)
    ensures
        match r {
            Some(v) => lzma_decoded(input@) == Some(v@),
            None => lzma_decoded(input@) is None,
        },
{
    let mut out: Vec<u8> = Vec::new();
    match lzma_rs::lzma_decompress(&mut &input[..], &mut out) {
        Ok(()) => Some(out),
        Err(_) => None,
    }
}

/// Relies on lz4_flex::frame::FrameDecoder: the decoded stream is a function
/// of the compressed bytes alone.
#[verifier::external_body]
pub(crate) fn lz4_decode(input: &[u8]) -> (r: Option<Vec<u8>>)
    ensures
        match r {
            Some(v) => lz4_decoded(input@) == Some(v@),
            None => lz4_decoded(input@) is None,
        },
{
    let mut decoder = lz4_flex::frame::FrameDecoder::new(input);
    let mut out: Vec<u8> = Vec::new();
    match std::io::Read::read_to_end(&mut decoder, &mut out) {
        Ok(_) => Some(out),
        Err(_) => None,
    }
}

/// Relies on zstd::stream::read::Decoder: the decoded stream is a function
/// of the compressed bytes alone.
#[verifier::external_body]
pub(crate) fn zstd_decode(input: &[u8]) -> (r: Option<Vec<u8>>)
    ensures
        match r {
            Some(v) => zstd_decoded(input@) == Some(v@),
            None => zstd_decoded(input@) is None,
        },
{
    let mut decoder = match zstd::stream::read::Decoder::new(input) {
        Ok(d) => d,
        Err(_) => return None,
    };
    let mut out: Vec<u8> = Vec::new();
    match std::io::Read::read_to_end(&mut decoder, &mut out) {
        Ok(_) => Some(out),
        Err(_) => None,
    }
}

/// Relies on weezl::decode::Decoder: the LSB-first LZW decoding of a stream
/// is a function of the code width and the compressed bytes alone. The
/// decoder asserts that the code width is at most 12, so wider widths are
/// refused here rather than handed to it.
#[verifier::external_body]
pub(crate) fn lzw_decode(max_bits: u8, input: &[u8]) -> (r: Option<Vec<u8>>)
    requires
        max_bits <= 12,
    ensures
        match r {
            Some(v) => lzw_decoded(max_bits, input@) == Some(v@),
            None => lzw_decoded(max_bits, input@) is None,
        },
{
    let mut decoder = weezl::decode::Decoder::new(weezl::BitOrder::Lsb, max_bits);
    let mut out: Vec<u8> = Vec::new();
    match decoder.into_stream(&mut out).decode_all(input).status {
        Ok(_) => Some(out),
        Err(_) => None,
    }
}

/// The first `out_len` bytes of the zlib-decoded payload of `input`, or
/// `None` when decoding fails or yields fewer bytes.
pub uninterp spec fn zlib_inflate_exact(input: Seq<u8>, out_len: usize) -> Option<Seq<u8>>;

/// Relies on flate2::read::ZlibDecoder and std::io::Read::read_exact: the
/// first `out_len` decoded bytes are a function of the compressed bytes
/// alone, and `read_exact` fills the buffer completely or fails.
#[verifier::external_body]
pub(crate) fn zlib_inflate(input: &[u8], out_len: usize) -> (r: Option<Vec<u8>>)
    ensures
        match r {
            Some(v) => zlib_inflate_exact(input@, out_len) == Some(v@) && v@.len() == out_len,
            None => zlib_inflate_exact(input@, out_len) is None,
        },
{
    let mut decoder = flate2::read::ZlibDecoder::new(input);
    let mut out: Vec<u8> = vec![0u8; out_len];
    match std::io::Read::read_exact(&mut decoder, &mut out) {
        Ok(()) => Some(out),
        Err(_) => None,
    }
}

/// Relies on flate2::read::DeflateDecoder and std::io::Read::read_exact: the
/// first `out_len` decoded bytes are a function of the compressed bytes
/// alone, and `read_exact` fills the buffer completely or fails.
#[verifier::external_body]
pub(crate) fn inflate_raw(input: &[u8], out_len: usize) -> (r: Option<Vec<u8>>)
    ensures
        match r {
            Some(v) => inflate_raw_exact(input@, out_len) == Some(v@) && v@.len() == out_len,
            None => inflate_raw_exact(input@, out_len) is None,
        },
{
    let mut decoder = flate2::read::DeflateDecoder::new(input);
    let mut out: Vec<u8> = vec![0u8; out_len];
    match std::io::Read::read_exact(&mut decoder, &mut out) {
        Ok(()) => Some(out),
        Err(_) => None,
    }
}

/// The LZFSE-decoded payload of `input` when it is exactly `out_len` bytes
/// long; `None` when decoding fails or the payload is not exactly `out_len`
/// bytes.
pub uninterp spec fn lzfse_decoded_exact(input: Seq<u8>, out_len: usize) -> Option<Seq<u8>>;

/// Relies on lzfse::decode_buffer: the decoded bytes are a function of the
/// compressed bytes alone, and the call reports how many bytes it wrote.
/// The buffer is one byte larger than asked so that a payload of exactly
/// the asked size is not mistaken for an overflowing one.
#[verifier::external_body]
pub(crate) fn lzfse_decode(input: &[u8], out_len: usize) -> (r: Option<Vec<u8>>)
    ensures
        match r {
            Some(v) => lzfse_decoded_exact(input@, out_len) == Some(v@) && v@.len() == out_len,
            None => lzfse_decoded_exact(input@, out_len) is None,
        },
{
    let mut out: Vec<u8> = vec![0u8; out_len + 1];
    match lzfse::decode_buffer(input, &mut out) {
        Ok(n) if n >= out_len => {
            out.truncate(out_len);
            Some(out)
        },
        _ => None,
    }
}

} // verus!
