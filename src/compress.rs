use vstd::prelude::*;

verus! {

/// The zstd frame that compressing `data` at `level` produces.
pub uninterp spec fn zstd_frame_of(data: Seq<u8>, level: i32) -> Seq<u8>;

/// The bytes that decompressing `frame` produces, `None` when it is not
/// valid zstd data.
pub uninterp spec fn zstd_decoded(frame: Seq<u8>) -> Option<Seq<u8>>;

/// Relies on `zstd::stream::encode_all`: compresses `data` into one zstd frame
/// at `level`; `None` when the compressor reports an error. Compression is
/// lossless: the frame decodes to `data`.
#[verifier::external_body]
pub(crate) fn zstd_encode(data: &[u8], level: i32) -> (r: Option<Vec<u8>>)
    requires
        1 <= level <= 22,
    ensures
        r matches Some(v) ==> v@ == zstd_frame_of(data@, level),
        r matches Some(v) ==> zstd_decoded(v@) == Some(data@),
{
    match zstd::stream::encode_all(data, level) {
        Ok(v) => Some(v),
        Err(_) => None,
    }
}

/// Relies on `zstd::stream::decode_all`: decompresses a zstd frame; `None`
/// when `frame` is not valid zstd data.
#[verifier::external_body]
pub(crate) fn zstd_decode(frame: &[u8]) -> (r: Option<Vec<u8>>)
    ensures
        r is Some <==> zstd_decoded(frame@) is Some,
        r matches Some(v) ==> zstd_decoded(frame@) == Some(v@),
{
    match zstd::stream::decode_all(frame) {
        Ok(v) => Some(v),
        Err(_) => None,
    }
}

} // verus!
