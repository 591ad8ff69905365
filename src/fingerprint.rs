//! Content fingerprints: a 128-bit hash over the byte representation of a
//! load's outcome, error or not.
use vstd::prelude::*;

use crate::error::{FileError, FileErrorView, PackageError, PackageErrorView};
use crate::package::version_text;
use crate::text::{append_bytes, decimal, push_decimal};

verus! {

/// The 128-bit hash of a byte sequence.
pub uninterp spec fn hash128_of(b: Seq<u8>) -> u128;

/// Relies on `typst_utils::hash128` of a byte slice: a 128-bit SipHash that
/// depends on the bytes alone (lengths are hashed as `u64` on every
/// platform).
#[verifier::external_body]
pub(crate) fn hash128(b: &[u8]) -> (r: u128)
    ensures
        r == hash128_of(b@),
{
    typst_utils::hash128(b)
}

/// A text as a field: the decimal length of its UTF-8 bytes, `:`, then
/// the bytes, so that consecutive fields cannot run into each other.
pub open spec fn field_bytes(s: Seq<char>) -> Seq<u8> {
    vstd::utf8::encode_utf8(decimal(vstd::utf8::encode_utf8(s).len())) + seq![58u8]
        + vstd::utf8::encode_utf8(s)
}

/// An optional message: `0`, or `1` and the message as a field.
pub open spec fn message_bytes(m: Option<Seq<char>>) -> Seq<u8> {
    match m {
        Some(s) => seq![1u8] + field_bytes(s),
        None => seq![0u8],
    }
}

/// The byte representation of a load error: a tag, then its texts as fields.
pub open spec fn error_bytes(e: FileErrorView) -> Seq<u8> {
    match e {
        FileErrorView::NotFound(p) => seq![1u8] + field_bytes(p),
        FileErrorView::AccessDenied => seq![2u8],
        FileErrorView::IsDirectory => seq![3u8],
        FileErrorView::NotSource => seq![4u8],
        FileErrorView::InvalidUtf8 => seq![5u8],
        FileErrorView::Package(PackageErrorView::NotFound(s)) => seq![6u8, 0u8] + field_bytes(
            s.namespace,
        ) + field_bytes(s.name) + field_bytes(version_text(s)),
        FileErrorView::Package(PackageErrorView::NetworkFailed(m)) => seq![6u8, 1u8]
            + message_bytes(m),
        FileErrorView::Package(PackageErrorView::MalformedArchive(m)) => seq![6u8, 2u8]
            + message_bytes(m),
        FileErrorView::Io(p, m) => seq![7u8] + field_bytes(p) + field_bytes(m),
    }
}

/// The byte representation of a load's outcome: `0` then the bytes, or the
/// error's representation.
pub open spec fn outcome_bytes(raw: Result<Seq<u8>, FileErrorView>) -> Seq<u8> {
    match raw {
        Ok(b) => seq![0u8] + b,
        Err(e) => error_bytes(e),
    }
}

/// The fingerprint of a load's outcome.
pub open spec fn fingerprint_of(raw: Result<Seq<u8>, FileErrorView>) -> u128 {
    hash128_of(outcome_bytes(raw))
}

/// The view of a load's outcome.
pub open spec fn raw_view(raw: &Result<Vec<u8>, FileError>) -> Result<Seq<u8>, FileErrorView> {
    match raw {
        Ok(b) => Ok(b@),
        Err(e) => Err(e@),
    }
}

fn push_text(out: &mut Vec<u8>, s: &str)
    ensures
        final(out)@ == old(out)@ + vstd::utf8::encode_utf8(s@),
{
    append_bytes(out, s.as_bytes());
}

fn push_field(out: &mut Vec<u8>, s: &str)
    ensures
        final(out)@ == old(out)@ + field_bytes(s@),
{
    let b = s.as_bytes();
    let n = b.len();
    let mut digits = String::new();
    push_decimal(&mut digits, n as u64);
    assert(digits@ =~= decimal(n as nat));
    push_text(out, digits.as_str());
    out.push(58u8);
    append_bytes(out, b);
    assert(final(out)@ =~= old(out)@ + field_bytes(s@));
}

fn push_message(out: &mut Vec<u8>, m: &Option<String>)
    ensures
        final(out)@ == old(out)@ + message_bytes(crate::text::opt_view(m)),
{
    match m {
        Some(s) => {
            out.push(1u8);
            push_field(out, s.as_str());
        },
        None => out.push(0u8),
    }
    assert(final(out)@ =~= old(out)@ + message_bytes(crate::text::opt_view(m)));
}

/// The byte representation of a load error.
pub fn encode_error(e: &FileError) -> (r: Vec<u8>)
    ensures
        r@ == error_bytes(e@),
{
    let mut out: Vec<u8> = Vec::new();
    match e {
        FileError::NotFound(p) => {
            out.push(1u8);
            push_field(&mut out, p.as_str());
        },
        FileError::AccessDenied => out.push(2u8),
        FileError::IsDirectory => out.push(3u8),
        FileError::NotSource => out.push(4u8),
        FileError::InvalidUtf8 => out.push(5u8),
        FileError::Package(PackageError::NotFound(s)) => {
            out.push(6u8);
            out.push(0u8);
            push_field(&mut out, s.namespace.as_str());
            push_field(&mut out, s.name.as_str());
            let version = s.version_string();
            push_field(&mut out, version.as_str());
        },
        FileError::Package(PackageError::NetworkFailed(m)) => {
            out.push(6u8);
            out.push(1u8);
            push_message(&mut out, m);
        },
        FileError::Package(PackageError::MalformedArchive(m)) => {
            out.push(6u8);
            out.push(2u8);
            push_message(&mut out, m);
        },
        FileError::Io(p, m) => {
            out.push(7u8);
            push_field(&mut out, p.as_str());
            push_field(&mut out, m.as_str());
        },
    }
    assert(out@ =~= error_bytes(e@));
    out
}

/// The byte representation of a load's outcome.
pub fn encode_outcome(raw: &Result<Vec<u8>, FileError>) -> (r: Vec<u8>)
    ensures
        r@ == outcome_bytes(raw_view(raw)),
{
    match raw {
        Ok(b) => {
            let mut out: Vec<u8> = Vec::new();
            out.push(0u8);
            append_bytes(&mut out, b.as_slice());
            assert(out@ =~= seq![0u8] + b@);
            out
        },
        Err(e) => encode_error(e),
    }
}

/// The fingerprint of a load's outcome.
pub fn fingerprint(raw: &Result<Vec<u8>, FileError>) -> (r: u128)
    ensures
        r == fingerprint_of(raw_view(raw)),
{
    let bytes = encode_outcome(raw);
    hash128(bytes.as_slice())
}

} // verus!
