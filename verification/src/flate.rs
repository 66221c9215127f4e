//! Raw DEFLATE streams, as the `flate2` crate packs and unpacks them.
//!
//! Nothing here is proved: the contracts name what the crate returns.
use std::io::Read;
use vstd::prelude::*;

verus! {

/// `std::io::Error`, which the `flate2` crate reports, carried as it comes.
#[verifier::external_type_specification]
#[verifier::external_body]
pub struct ExIoError(std::io::Error);

/// The strongest compression level.
pub const BEST: u32 = 9;

/// The raw DEFLATE stream of `data` at a compression level, if the
/// compressor returns one.
pub uninterp spec fn deflated(data: Seq<u8>, level: u32) -> Option<Seq<u8>>;

/// The bytes that a raw DEFLATE stream unpacks to, if it is a whole and
/// sound one.
pub uninterp spec fn inflated(stream: Seq<u8>) -> Option<Seq<u8>>;

/// `bufread::DeflateEncoder` of the `flate2` crate, read to its end, at
/// `Compression::new(level)`. The contract names the stream and claims one
/// thing of it: `bufread::DeflateDecoder` unpacks it to `data` again.
#[verifier::external_body]
pub(crate) fn deflate(data: &[u8], level: u32) -> (r: Result<Vec<u8>, std::io::Error>)
    requires
        level <= BEST,
    ensures
        match r {
            Ok(stream) => deflated(data@, level) == Some(stream@) && inflated(stream@) == Some(
                data@,
            ),
            Err(_) => deflated(data@, level) is None,
        },
{
    let mut out = Vec::new();
    flate2::bufread::DeflateEncoder::new(data, flate2::Compression::new(level)).read_to_end(
        &mut out,
    )?;
    Ok(out)
}

/// `bufread::DeflateDecoder` of the `flate2` crate, read to its end. The
/// contract names the unpacked bytes and says nothing of the error.
#[verifier::external_body]
pub(crate) fn inflate(stream: &[u8]) -> (r: Result<Vec<u8>, std::io::Error>)
    ensures
        match r {
            Ok(data) => inflated(stream@) == Some(data@),
            Err(_) => inflated(stream@) is None,
        },
{
    let mut out = Vec::new();
    flate2::bufread::DeflateDecoder::new(stream).read_to_end(&mut out)?;
    Ok(out)
}

} // verus!
