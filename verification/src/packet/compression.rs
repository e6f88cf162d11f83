//! Compression of packet bodies: zlib through `flate2`, brotli through
//! `brotli`.
//!
//! What the two crates compute is not proved here. Each call stands in a
//! small function whose contract names the result, and the verified code
//! around it reasons over those names.

use std::io::Read;
use std::io::Write;

use vstd::prelude::*;

use crate::errors::ParseError;
use crate::packet::types::Protocol;

verus! {

/// The error type of the standard I/O traits, opaque to the verifier.
#[verifier::external_type_specification]
#[verifier::external_body]
pub struct ExIoError(std::io::Error);

/// What a zlib decoder reads out of `data`: `Some` of the inflated bytes where
/// `data` starts with a complete and intact zlib stream, `None` otherwise.
pub uninterp spec fn zlib_inflated(data: Seq<u8>) -> Option<Seq<u8>>;

/// What a brotli decoder reads out of `data`: `Some` of the inflated bytes
/// where `data` is a complete and intact brotli stream, `None` otherwise.
pub uninterp spec fn brotli_inflated(data: Seq<u8>) -> Option<Seq<u8>>;

/// The zlib stream that the encoder writes for `data` at its default level.
pub uninterp spec fn zlib_deflated(data: Seq<u8>) -> Seq<u8>;

/// What the body of a compressed packet inflates to; `None` where the body
/// is corrupt, and for a protocol that is not compressed.
pub open spec fn inflated(protocol: Protocol, body: Seq<u8>) -> Option<Seq<u8>> {
    match protocol {
        Protocol::Zlib => zlib_inflated(body),
        Protocol::Brotli => brotli_inflated(body),
        _ => None,
    }
}

/// Runs `flate2::read::ZlibDecoder` over `data` to its end.
///
/// Trusted: the bytes read are `zlib_inflated(data)`, and the decoder reports
/// an error exactly where that is `None`.
#[verifier::external_body]
fn zlib_inflate(data: &[u8]) -> (r: Result<Vec<u8>, std::io::Error>)
    ensures
        match r {
            Ok(out) => zlib_inflated(data@) == Some(out@),
            Err(_) => zlib_inflated(data@) is None,
        },
{
    let mut out = Vec::new();
    match flate2::read::ZlibDecoder::new(data).read_to_end(&mut out) {
        Ok(_) => Ok(out),
        Err(e) => Err(e),
    }
}

/// Runs `brotli::BrotliDecompress` from `data` into a fresh buffer.
///
/// Trusted: the bytes written are `brotli_inflated(data)`, and the decoder
/// reports an error exactly where that is `None`.
#[verifier::external_body]
fn brotli_inflate(data: &[u8]) -> (r: Result<Vec<u8>, std::io::Error>)
    ensures
        match r {
            Ok(out) => brotli_inflated(data@) == Some(out@),
            Err(_) => brotli_inflated(data@) is None,
        },
{
    let mut input = data;
    let mut out = Vec::new();
    match brotli::BrotliDecompress(&mut input, &mut out) {
        Ok(()) => Ok(out),
        Err(e) => Err(e),
    }
}

/// Writes `data` through `flate2::write::ZlibEncoder` at the default level
/// and finishes the stream.
///
/// Trusted: the encoder writes into a vector, which takes every byte, and so
/// reports no error; the stream written is `zlib_deflated(data)`, and a zlib
/// decoder reads `data` back out of it.
#[verifier::external_body]
fn zlib_deflate(data: &[u8]) -> (r: Result<Vec<u8>, std::io::Error>)
    ensures
        r is Ok,
        r matches Ok(out) ==> out@ == zlib_deflated(data@) && zlib_inflated(out@) == Some(data@),
{
    let mut z = flate2::write::ZlibEncoder::new(Vec::new(), flate2::Compression::default());
    match z.write_all(data) {
        Ok(()) => z.finish(),
        Err(e) => Err(e),
    }
}

/// Inflate the body of a compressed packet.
///
/// A corrupt stream gives the error of its protocol; a protocol that is not
/// compressed has nothing to inflate, which is a malformed request.
pub fn inflate(protocol: Protocol, body: &[u8]) -> (r: Result<Vec<u8>, ParseError>)
    ensures
        match r {
            Ok(out) => inflated(protocol, body@) == Some(out@),
            Err(e) => inflated(protocol, body@) is None && e == inflate_error(protocol),
        },
{
    match protocol {
        Protocol::Zlib => match zlib_inflate(body) {
            Ok(out) => Ok(out),
            Err(_) => Err(ParseError::Zlib),
        },
        Protocol::Brotli => match brotli_inflate(body) {
            Ok(out) => Ok(out),
            Err(_) => Err(ParseError::Brotli),
        },
        _ => Err(ParseError::PacketFormat),
    }
}

/// The error that a body of `protocol` gives when it does not inflate.
pub open spec fn inflate_error(protocol: Protocol) -> ParseError {
    match protocol {
        Protocol::Zlib => ParseError::Zlib,
        Protocol::Brotli => ParseError::Brotli,
        _ => ParseError::PacketFormat,
    }
}

/// Deflate `data` into a zlib stream. This always succeeds: the stream is
/// the one named by `zlib_deflated`, and it inflates to `data` again.
pub fn deflate(data: &[u8]) -> (r: Result<Vec<u8>, ParseError>)
    ensures
        r is Ok,
        r matches Ok(out) ==> out@ == zlib_deflated(data@) && zlib_inflated(out@) == Some(data@),
{
    match zlib_deflate(data) {
        Ok(out) => Ok(out),
        Err(_) => Err(ParseError::Zlib),
    }
}

} // verus!
