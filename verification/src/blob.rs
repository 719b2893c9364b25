//! Blobs, the shares they are cut into, and the Keccak-256 digest of their
//! bytes.
//!
//! The share format belongs to the `celestia-types` crate and the digest to
//! the `sha3` crate; the library calls both and names what they return.

use vstd::prelude::*;
use crate::bytes::vec_views;

verus! {

/// Length in bytes of a namespace: one version byte and an identifier.
pub const NS_SIZE: usize = 29;

/// The tag that says to which application a share belongs.
#[derive(Clone, Copy, Debug)]
pub struct Namespace {
    /// The version byte followed by the 28 bytes of the identifier.
    pub bytes: [u8; 29],
}

/// A payload published under a namespace.
#[derive(Clone, Debug)]
pub struct Blob {
    /// The namespace the blob was published under.
    pub namespace: Namespace,
    /// The payload.
    pub data: Vec<u8>,
    /// The share format the blob asks for.
    pub share_version: u8,
    /// The digest that identifies the blob within its block and namespace.
    pub commitment: [u8; 32],
    /// Offset of the first share of the blob in the extended data square;
    /// absent on a blob that was not read back from a block.
    pub index: Option<u64>,
}

/// The shares that `Blob::to_shares` cuts a payload into, or the message of
/// the error it gives.
pub uninterp spec fn blob_shares(namespace: Seq<u8>, share_version: u8, data: Seq<u8>) -> Result<
    Seq<Seq<u8>>,
    Seq<char>,
>;

/// The commitment that `Blob::new` computes for a payload at application
/// version 3, or the message of the error it gives.
pub uninterp spec fn blob_commitment(namespace: Seq<u8>, data: Seq<u8>) -> Result<
    Seq<u8>,
    Seq<char>,
>;

/// The digest that `Keccak256` gives to a byte string.
pub uninterp spec fn keccak256(data: Seq<u8>) -> Seq<u8>;

/// Whether the bytes are a namespace: 29 bytes, of which the first is the
/// version 0 followed by 18 zero bytes, or the version 255 followed by 27
/// bytes `0xff`.
pub open spec fn namespace_valid(bytes: Seq<u8>) -> bool {
    &&& bytes.len() == 29
    &&& {
        ||| bytes[0] == 0 && forall|i: int| 1 <= i < 19 ==> bytes[i] == 0
        ||| bytes[0] == 255 && forall|i: int| 1 <= i < 28 ==> bytes[i] == 255
    }
}

/// The character of a decimal digit.
pub open spec fn digit_char(digit: nat) -> char {
    if digit == 0 {
        '0'
    } else if digit == 1 {
        '1'
    } else if digit == 2 {
        '2'
    } else if digit == 3 {
        '3'
    } else if digit == 4 {
        '4'
    } else if digit == 5 {
        '5'
    } else if digit == 6 {
        '6'
    } else if digit == 7 {
        '7'
    } else if digit == 8 {
        '8'
    } else {
        '9'
    }
}

/// A number written in decimal digits, without leading zeros.
pub open spec fn decimal_text(n: nat) -> Seq<char>
    decreases n,
{
    if n < 10 {
        seq![digit_char(n)]
    } else {
        decimal_text(n / 10).push(digit_char(n % 10))
    }
}

/// The text of the error for bytes that are no namespace: a wrong number of
/// bytes, a version other than 0 and 255, or a version whose leading bytes
/// are not the ones it asks for.
pub open spec fn namespace_error_text(bytes: Seq<u8>) -> Seq<char> {
    if bytes.len() != 29 {
        "Invalid namespace size"@
    } else if bytes[0] == 0 {
        "Invalid namespace v0"@
    } else if bytes[0] == 255 {
        "Invalid namespace v255"@
    } else {
        "Unsupported namespace version: "@ + decimal_text(bytes[0] as nat)
    }
}

/// `Namespace::from_raw` of `celestia-types`: the namespace with the given
/// bytes, or the text of the crate's error. The crate accepts 29 bytes that
/// start with version 0 and 18 zero bytes, or with version 255 and 27 bytes
/// `0xff`, and nothing else. Its error says which of these failed: the
/// size, the version (with its number in decimal), or the leading bytes of
/// version 0 or of version 255.
#[verifier::external_body]
pub(crate) fn namespace_from_raw(bytes: &[u8]) -> (parsed: Result<Namespace, String>)
    ensures
        parsed is Ok <==> namespace_valid(bytes@),
        parsed is Ok ==> parsed->Ok_0.bytes@ == bytes@,
        parsed is Err ==> parsed->Err_0@ == namespace_error_text(bytes@),
{
    match celestia_types::nmt::Namespace::from_raw(bytes) {
        Ok(namespace) => Ok(Namespace { bytes: namespace.as_bytes().try_into().unwrap() }),
        Err(e) => Err(e.to_string()),
    }
}

/// `Blob::to_shares` of `celestia-types` on a blob with the given namespace,
/// share version and payload: the raw bytes of each share, in order, or the
/// text of the crate's error. A namespace that the crate does not accept
/// gives its error too. The crate knows share version 0 only.
#[verifier::external_body]
pub(crate) fn blob_to_shares(blob: &Blob) -> (shares: Result<Vec<Vec<u8>>, String>)
    ensures
        match shares {
            Ok(s) => blob_shares(blob.namespace.bytes@, blob.share_version, blob.data@) == Ok::<
                Seq<Seq<u8>>,
                Seq<char>,
            >(vec_views(s@)),
            Err(e) => blob_shares(blob.namespace.bytes@, blob.share_version, blob.data@) == Err::<
                Seq<Seq<u8>>,
                Seq<char>,
            >(e@),
        },
        blob.share_version != 0 ==> shares is Err,
{
    let namespace = celestia_types::nmt::Namespace::from_raw(&blob.namespace.bytes).map_err(
        |e| e.to_string(),
    )?;
    let outside = celestia_types::Blob {
        namespace,
        data: blob.data.clone(),
        share_version: blob.share_version,
        commitment: celestia_types::Commitment::new(blob.commitment),
        index: blob.index,
    };
    let shares = outside.to_shares().map_err(|e| e.to_string())?;
    Ok(shares.iter().map(|share| share.to_vec()).collect())
}

/// `Blob::new` of `celestia-types` at application version 3: the commitment of
/// the blob it builds, or the text of the crate's error. A namespace that the
/// crate does not accept gives its error too.
#[verifier::external_body]
pub(crate) fn blob_new(namespace: &Namespace, data: &Vec<u8>) -> (commitment: Result<
    [u8; 32],
    String,
>)
    ensures
        match commitment {
            Ok(c) => blob_commitment(namespace.bytes@, data@) == Ok::<Seq<u8>, Seq<char>>(c@),
            Err(e) => blob_commitment(namespace.bytes@, data@) == Err::<Seq<u8>, Seq<char>>(e@),
        },
{
    let namespace = celestia_types::nmt::Namespace::from_raw(&namespace.bytes).map_err(
        |e| e.to_string(),
    )?;
    let blob = celestia_types::Blob::new(
        namespace,
        data.clone(),
        celestia_types::consts::appconsts::AppVersion::V3,
    ).map_err(|e| e.to_string())?;
    Ok(*blob.commitment.hash())
}

/// `Keccak256` of `sha3`, fed the whole byte string at once: its digest.
#[verifier::external_body]
pub(crate) fn keccak256_digest(data: &[u8]) -> (digest: [u8; 32])
    ensures
        digest@ == keccak256(data@),
{
    let mut hasher = <sha3::Keccak256 as sha3::Digest>::new();
    sha3::Digest::update(&mut hasher, data);
    sha3::Digest::finalize(hasher).into()
}

} // verus!
