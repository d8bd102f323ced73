//! Gzip compression of output files: the bytes of a file and the name and
//! bytes of its compressed form.

use std::io::Write;
use flate2::write::GzEncoder;
use flate2::Compression;
use vstd::prelude::*;
use vstd::string::*;
use crate::Error;

verus! {

/// The gzip encoding of `data` that flate2's `GzEncoder` writes at the
/// default compression level with its default header (no name, no comment,
/// modification time 0), so that it depends on the bytes alone.
pub uninterp spec fn gzip_encoding(data: Seq<u8>) -> Seq<u8>;

/// Compresses `data` with flate2's `GzEncoder::new(Vec::new(),
/// Compression::default())`, `write_all` and `finish`.
///
/// The contract claims that a completed encoding is the gzip encoding of the
/// bytes. The encoder reports a failure of its compressor as an error, which
/// comes back as `None`; when that can happen is left unsaid.
#[verifier::external_body]
fn gzip_encode(data: &[u8]) -> (r: Option<Vec<u8>>)
    ensures
        r matches Some(v) ==> v@ == gzip_encoding(data@),
{
    let mut encoder = GzEncoder::new(Vec::new(), Compression::default());
    encoder.write_all(data).ok()?;
    encoder.finish().ok()
}

/// The text of the error for an encoding that did not complete.
pub open spec fn compression_failed_text() -> Seq<char> {
    "gzip compression failed"@
}

/// The compressed form of the file at `path` whose bytes are `contents`: the
/// path with `.gz` appended and the gzip encoding of the bytes; an I/O error
/// where the encoder fails.
pub fn compressed_file(path: &str, contents: &[u8]) -> (r: Result<(String, Vec<u8>), Error>)
    ensures
        r matches Ok((p, v)) ==> p@ == path@ + ".gz"@ && v@ == gzip_encoding(contents@),
        r matches Err(e) ==> (e matches Error::Io(s) && s@ == compression_failed_text()),
{
    match gzip_encode(contents) {
        Some(bytes) => {
            let mut gz_path = String::from_str(path);
            gz_path.append(".gz");
            Ok((gz_path, bytes))
        },
        None => Err(Error::Io(String::from_str("gzip compression failed"))),
    }
}

} // verus!
