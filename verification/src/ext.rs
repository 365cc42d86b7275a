//! Compressing a built artifact.

use vstd::prelude::*;

verus! {

/// What the Brotli encoder makes of `data` at quality 11, all other
/// parameters at their defaults: the stream that it writes, or `None`
/// where it reports an error.
pub uninterp spec fn brotli_stream(data: Seq<u8>) -> Option<Seq<u8>>;

/// Calls `brotli::BrotliCompress` from a slice into a vector, at quality
/// 11 with the other encoder parameters at their defaults. Taken on
/// trust: whether the encoder reports an error, and the bytes that it
/// writes, depend on the input alone, so that `brotli_stream` names the
/// outcome. That holds of an encoder built with its table-driven
/// logarithms, which is how this crate asks for it. `None` stands for the
/// encoder's error; nothing is claimed of the inputs on which it comes.
#[verifier::external_body]
fn brotli_compress(data: &[u8]) -> (res: Option<Vec<u8>>)
    ensures
        res matches Some(out) ==> brotli_stream(data@) == Some(out@),
        res is None ==> brotli_stream(data@) is None,
{
    let mut input = data;
    let mut out = Vec::<u8>::new();
    let params = brotli::enc::BrotliEncoderParams { quality: 11, ..Default::default() };
    match brotli::BrotliCompress(&mut input, &mut out, &params) {
        Ok(_) => Some(out),
        Err(_) => None,
    }
}

/// The encoder gave up on its input.
#[derive(Clone, Copy, Debug, PartialEq, Eq)]
pub struct CompressError;

/// What compressing returns for an outcome of the encoder: the stream
/// where there is one, and the error where there is none.
pub open spec fn compressed(outcome: Option<Seq<u8>>) -> Result<Seq<u8>, CompressError> {
    match outcome {
        Some(stream) => Ok(stream),
        None => Err(CompressError),
    }
}

/// Turns the outcome of the encoder into the result of compressing.
pub fn stream_or_error(outcome: Option<Vec<u8>>) -> (res: Result<Vec<u8>, CompressError>)
    ensures
        match outcome {
            Some(stream) => res == Ok::<_, CompressError>(stream),
            None => res == Err::<Vec<u8>, _>(CompressError),
        },
{
    match outcome {
        Some(stream) => Ok(stream),
        None => Err(CompressError),
    }
}

/// Compresses the contents of an artifact at the highest quality. The
/// result is the encoder's: its stream where it writes one, and the error
/// where it reports one.
pub fn compress_file(contents: &[u8]) -> (res: Result<Vec<u8>, CompressError>)
    ensures
        match compressed(brotli_stream(contents@)) {
            Ok(stream) => res matches Ok(out) && out@ == stream,
            Err(error) => res == Err::<Vec<u8>, _>(error),
        },
{
    stream_or_error(brotli_compress(contents))
}

} // verus!
