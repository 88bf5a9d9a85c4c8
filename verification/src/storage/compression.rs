//! The compression format: gzip applied to the bytes of an inner format.

use std::io::Read;

use flate2::read::{GzDecoder, GzEncoder};
use flate2::Compression;
use vstd::prelude::*;

use crate::storage::format::{extension_with_suffix, DataFormat};

verus! {

/// `std::io::Error`, carried through from the gzip streams.
#[verifier::external_type_specification]
#[verifier::external_body]
pub struct ExIoError(std::io::Error);

/// The gzip stream that flate2 writes for `bytes` at compression `level`.
pub uninterp spec fn gzip_encoded(level: u32, bytes: Seq<u8>) -> Seq<u8>;

/// The bytes that flate2 reads back from the gzip stream `bytes`, or `None` when the stream is
/// invalid.
pub uninterp spec fn gzip_decoded(bytes: Seq<u8>) -> Option<Seq<u8>>;

/// Compresses `bytes` with `flate2::read::GzEncoder` at the given level, reading the whole
/// stream. The encoder reads from an in-memory slice and miniz_oxide compresses at levels up to 10
/// without failing, so the stream is always read; it is the encoder's output, which flate2's
/// decoder reads back as the bytes it was given. Levels above 10 are left out: the miniz_oxide
/// backend asserts against them in debug builds.
#[verifier::external_body]
fn gzip_encode(level: u32, bytes: &[u8]) -> (r: Result<Vec<u8>, std::io::Error>)
    requires
        level <= 10,
    ensures
        r is Ok,
        r matches Ok(out) ==> out@ == gzip_encoded(level, bytes@),
        r matches Ok(out) ==> gzip_decoded(out@) == Some(bytes@),
{
    let mut encoder = GzEncoder::new(bytes, Compression::new(level));
    let mut buffer = Vec::with_capacity(bytes.len());
    encoder.read_to_end(&mut buffer).map(|_| buffer)
}

/// Decompresses the gzip stream `bytes` with `flate2::read::GzDecoder`, reading the whole
/// stream. Success gives the decoded bytes; failure means the stream is invalid.
#[verifier::external_body]
fn gzip_decode(bytes: &[u8]) -> (r: Result<Vec<u8>, std::io::Error>)
    ensures
        r matches Ok(out) ==> gzip_decoded(bytes@) == Some(out@),
        r is Err ==> gzip_decoded(bytes@) is None,
{
    let mut decoder = GzDecoder::new(bytes);
    let mut buffer = Vec::new();
    decoder.read_to_end(&mut buffer).map(|_| buffer)
}

/// A compression format error.
#[derive(Debug)]
pub enum CompressError {
    /// The gzip stream could not be written or read.
    Io(std::io::Error),
}

/// The level at which a format of the given level compresses: flate2's miniz backend works at
/// levels up to 10 and takes any higher level as 10, so the format compresses at 10 for them.
pub open spec fn spec_effective_level(level: u32) -> u32 {
    if level > 10 {
        10
    } else {
        level
    }
}

/// Compresses the wrapped format.
#[derive(Clone, Copy, Debug, Default, PartialEq, Eq)]
pub struct Compress<F> {
    /// The inner format.
    inner: F,
    /// The compression level, from 0 to 9.
    level: u32,
}

/// What decompressing `bytes` gives.
pub open spec fn spec_decompress(bytes: Seq<u8>) -> Option<Seq<u8>> {
    gzip_decoded(bytes)
}

impl<F> Compress<F> {
    /// The inner format.
    pub closed spec fn spec_inner(&self) -> F {
        self.inner
    }

    /// The compression level.
    pub closed spec fn spec_level(&self) -> u32 {
        self.level
    }

    /// Creates a new [`Compress<F>`] format.
    ///
    /// The given level should be within the range `0..=9`; any level is accepted, and one above
    /// 10 compresses as 10 does.
    pub fn new(inner: F, level: u8) -> (r: Compress<F>)
        ensures
            r.spec_inner() == inner,
            r.spec_level() == level as u32,
    {
        Compress { inner, level: level as u32 }
    }

    /// Creates a new [`Compress<F>`] format with no compression.
    pub fn new_none(inner: F) -> (r: Compress<F>)
        ensures
            r.spec_inner() == inner,
            r.spec_level() == 0,
    {
        Compress::new(inner, 0)
    }

    /// Creates a new [`Compress<F>`] format using a fast level of compression.
    pub fn new_fast(inner: F) -> (r: Compress<F>)
        ensures
            r.spec_inner() == inner,
            r.spec_level() == 1,
    {
        Compress::new(inner, 1)
    }

    /// Creates a new [`Compress<F>`] format using the default level of compression.
    pub fn new_default(inner: F) -> (r: Compress<F>)
        ensures
            r.spec_inner() == inner,
            r.spec_level() == 5,
    {
        Compress::new(inner, 5)
    }

    /// Creates a new [`Compress<F>`] format using the best level of compression.
    pub fn new_best(inner: F) -> (r: Compress<F>)
        ensures
            r.spec_inner() == inner,
            r.spec_level() == 9,
    {
        Compress::new(inner, 9)
    }

    /// Returns the inner format.
    pub fn inner(&self) -> (r: &F)
        ensures
            *r == self.spec_inner(),
    {
        &self.inner
    }

    /// Returns the compression level.
    pub fn level(&self) -> (r: u32)
        ensures
            r == self.spec_level(),
    {
        self.level
    }

    /// Compresses the bytes an inner format encoded, at the format's level. This always succeeds;
    /// the `Result` is kept for the stream's error type.
    pub fn compress(&self, bytes: &[u8]) -> (r: Result<Vec<u8>, CompressError>)
        ensures
            r is Ok,
            r matches Ok(out) ==> out@ == gzip_encoded(spec_effective_level(self.spec_level()), bytes@),
            r matches Ok(out) ==> spec_decompress(out@) == Some(bytes@),
    {
        let level = if self.level > 10 {
            10
        } else {
            self.level
        };
        match gzip_encode(level, bytes) {
            Ok(out) => Ok(out),
            Err(e) => Err(CompressError::Io(e)),
        }
    }

    /// Decompresses stored bytes into the bytes the inner format decodes.
    ///
    /// # Errors
    ///
    /// This function will return an error if the bytes are not a valid gzip stream.
    pub fn decompress(&self, bytes: &[u8]) -> (r: Result<Vec<u8>, CompressError>)
        ensures
            match spec_decompress(bytes@) {
                Some(v) => r matches Ok(out) && out@ == v,
                None => r is Err,
            },
    {
        match gzip_decode(bytes) {
            Ok(out) => Ok(out),
            Err(e) => Err(CompressError::Io(e)),
        }
    }
}

impl<F: DataFormat> DataFormat for Compress<F> {
    open spec fn spec_extension(&self) -> Seq<char> {
        self.spec_inner().spec_extension() + ".gz"@
    }

    fn extension(&self) -> (r: String) {
        let inner = self.inner.extension();
        proof {
            reveal_strlit(".gz");
        }
        extension_with_suffix(inner.as_str(), ".gz")
    }
}

} // verus!
