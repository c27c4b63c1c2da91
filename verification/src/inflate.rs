//! Bounded inflation of zlib-wrapped payloads.

use vstd::prelude::*;
use miniz_oxide::inflate::{decompress_to_vec_zlib_with_limit, TINFLStatus};
use crate::error::{DecompressionError, PackageError};

verus! {

/// The state in which the inflater stopped short of a complete stream.
#[derive(Debug, Clone, Copy, PartialEq, Eq)]
pub enum InflateStatus {
    /// The input ended before the stream did.
    FailedCannotMakeProgress,
    /// The inflater was handed an unusable output buffer.
    BadParam,
    /// The stream decoded, but its Adler-32 checksum does not match.
    Adler32Mismatch,
    /// The input is not a valid stream.
    Failed,
    /// The stream ended.
    Done,
    /// The inflater waits for input that the caller announced.
    NeedsMoreInput,
    /// The stream holds more output than the limit allows.
    HasMoreOutput,
    /// A status that this library does not know by name.
    Unrecognized,
}

/// What inflating the zlib stream `input` yields when at most `limit` bytes
/// of output are allowed: the inflated bytes, or the status at which the
/// inflater gave up.
pub uninterp spec fn zlib_inflate(input: Seq<u8>, limit: usize) -> Result<Seq<u8>, InflateStatus>;

/// The mathematical content of a result that carries bytes.
pub open spec fn result_view<E>(result: Result<Vec<u8>, E>) -> Result<Seq<u8>, E> {
    match result {
        Ok(bytes) => Ok(bytes@),
        Err(e) => Err(e),
    }
}

/// `miniz_oxide::inflate::decompress_to_vec_zlib_with_limit`: inflates a
/// zlib stream into a vector that is never grown past `limit` bytes. The
/// outcome depends on the two arguments alone and is named `zlib_inflate`;
/// nothing more is claimed of it. On failure the partial output is dropped
/// and the inflater's status is handed on, variant by variant.
#[verifier::external_body]
pub(crate) fn inflate_with_limit(input: &[u8], limit: usize) -> (outcome: Result<
    Vec<u8>,
    InflateStatus,
>)
    ensures
        result_view(outcome) == zlib_inflate(input@, limit),
{
    match decompress_to_vec_zlib_with_limit(input, limit) {
        Ok(bytes) => Ok(bytes),
        Err(e) => Err(match e.status {
            TINFLStatus::FailedCannotMakeProgress => InflateStatus::FailedCannotMakeProgress,
            TINFLStatus::BadParam => InflateStatus::BadParam,
            TINFLStatus::Adler32Mismatch => InflateStatus::Adler32Mismatch,
            TINFLStatus::Failed => InflateStatus::Failed,
            TINFLStatus::Done => InflateStatus::Done,
            TINFLStatus::NeedsMoreInput => InflateStatus::NeedsMoreInput,
            TINFLStatus::HasMoreOutput => InflateStatus::HasMoreOutput,
            _ => InflateStatus::Unrecognized,
        }),
    }
}

/// What an entry read returns for a given outcome of the inflater, when the
/// entry's record declares `expected` bytes: the bytes when there are
/// exactly that many, `SizeMismatch` when there are not, `LimitExceeded`
/// when the inflater ran into its limit, `Corrupt` for every other status.
pub open spec fn checked_payload(outcome: Result<Seq<u8>, InflateStatus>, expected: usize) -> Result<
    Seq<u8>,
    PackageError,
> {
    match outcome {
        Ok(bytes) => if bytes.len() == expected {
            Ok(bytes)
        } else {
            Err(
                PackageError::Decompression(
                    DecompressionError::SizeMismatch { expected, actual: bytes.len() as usize },
                ),
            )
        },
        Err(InflateStatus::HasMoreOutput) => Err(
            PackageError::Decompression(DecompressionError::LimitExceeded),
        ),
        Err(_) => Err(PackageError::Decompression(DecompressionError::Corrupt)),
    }
}

/// Judges the outcome of inflating a payload against the size that its
/// record declares.
pub fn check_payload(outcome: Result<Vec<u8>, InflateStatus>, expected: usize) -> (result: Result<
    Vec<u8>,
    PackageError,
>)
    ensures
        result_view(result) == checked_payload(result_view(outcome), expected),
{
    match outcome {
        Ok(bytes) => {
            let actual = bytes.len();
            if actual == expected {
                Ok(bytes)
            } else {
                Err(
                    PackageError::Decompression(
                        DecompressionError::SizeMismatch { expected, actual },
                    ),
                )
            }
        },
        Err(InflateStatus::HasMoreOutput) => Err(
            PackageError::Decompression(DecompressionError::LimitExceeded),
        ),
        Err(_) => Err(PackageError::Decompression(DecompressionError::Corrupt)),
    }
}

/// What inflating `stored` under the limit `expected` and judging the
/// outcome yields.
pub open spec fn inflated(stored: Seq<u8>, expected: usize) -> Result<Seq<u8>, PackageError> {
    checked_payload(zlib_inflate(stored, expected), expected)
}

/// Inflates a stored payload to exactly `expected` bytes.
pub fn inflate_exact(stored: &[u8], expected: usize) -> (result: Result<Vec<u8>, PackageError>)
    ensures
        result_view(result) == inflated(stored@, expected),
        result matches Ok(bytes) ==> bytes@.len() == expected,
{
    check_payload(inflate_with_limit(stored, expected), expected)
}

} // verus!
