//! Digests and ABI words from outside crates, with the byte helpers that the
//! rest of the library builds on.

use vstd::prelude::*;

verus! {

/// The Keccak-256 digest of a byte string.
pub uninterp spec fn keccak_of(data: Seq<u8>) -> Seq<u8>;

/// The Blake2b-256 digest of a byte string.
pub uninterp spec fn blake2_of(data: Seq<u8>) -> Seq<u8>;

/// The UTF-8 bytes of the SS58 text form of a 32-byte account under a prefix.
pub uninterp spec fn ss58_of(account: Seq<u8>, prefix: u16) -> Seq<u8>;

/// Relies on sp_crypto_hashing::keccak_256: a 32-byte digest that depends on
/// the input bytes alone.
#[verifier::external_body]
pub(crate) fn keccak_256(data: &[u8]) -> (r: Vec<u8>)
    ensures
        r@ == keccak_of(data@),
        r@.len() == 32,
{
    sp_crypto_hashing::keccak_256(data).to_vec()
}

/// Relies on sp_crypto_hashing::blake2_256: a 32-byte digest that depends on
/// the input bytes alone.
#[verifier::external_body]
pub(crate) fn blake2_256(data: &[u8]) -> (r: Vec<u8>)
    ensures
        r@ == blake2_of(data@),
        r@.len() == 32,
{
    sp_crypto_hashing::blake2_256(data).to_vec()
}

/// Relies on sp_core's `Ss58Codec::to_ss58check_with_version` for a 32-byte
/// account: the text depends on the account bytes and the prefix alone.
#[verifier::external_body]
pub(crate) fn ss58_text(account: &[u8], prefix: u16) -> (r: Vec<u8>)
    requires
        account@.len() == 32,
    ensures
        r@ == ss58_of(account@, prefix),
{
    let bytes: [u8; 32] = account.try_into().unwrap();
    let id = sp_core::crypto::AccountId32::new(bytes);
    let format = sp_core::crypto::Ss58AddressFormat::custom(prefix);
    sp_core::crypto::Ss58Codec::to_ss58check_with_version(&id, format).into_bytes()
}

/// One static ABI argument, as the typed-data encoding uses them.
pub enum AbiToken {
    /// A 32-byte value taken as it is (`bytes32`).
    Word(Vec<u8>),
    /// A 256-bit unsigned integer, given as 32 big-endian bytes.
    Uint(Vec<u8>),
    /// A 20-byte address.
    Address(Vec<u8>),
}

impl AbiToken {
    pub open spec fn well_formed(&self) -> bool {
        match self {
            AbiToken::Word(b) => b@.len() == 32,
            AbiToken::Uint(b) => b@.len() == 32,
            AbiToken::Address(a) => a@.len() == 20,
        }
    }

    /// The 32-byte head word that the ABI encoding gives this token.
    pub open spec fn word(&self) -> Seq<u8> {
        match self {
            AbiToken::Word(b) => b@,
            AbiToken::Uint(b) => b@,
            AbiToken::Address(a) => Seq::new(12, |i: int| 0u8) + a@,
        }
    }
}

/// The ABI encoding of a list of static tokens: their words one after another.
pub open spec fn abi_words(tokens: Seq<AbiToken>) -> Seq<u8>
    decreases tokens.len(),
{
    if tokens.len() == 0 {
        Seq::empty()
    } else {
        abi_words(tokens.drop_last()) + tokens.last().word()
    }
}

/// Relies on ethabi::encode: static tokens are encoded as one 32-byte word
/// each, in order; fixed bytes of length 32 as they are, an unsigned integer
/// big-endian, an address left-padded with zeros.
#[verifier::external_body]
pub(crate) fn abi_encode(tokens: &Vec<AbiToken>) -> (r: Vec<u8>)
    requires
        forall|i: int| 0 <= i < tokens@.len() ==> (#[trigger] tokens@[i]).well_formed(),
    ensures
        r@ == abi_words(tokens@),
{
    let converted: Vec<ethabi::Token> = tokens
        .iter()
        .map(|t| match t {
            AbiToken::Word(b) => ethabi::Token::FixedBytes(b.clone()),
            AbiToken::Uint(b) => ethabi::Token::Uint(ethabi::Uint::from_big_endian(b)),
            AbiToken::Address(a) => ethabi::Token::Address(ethabi::Address::from_slice(a)),
        })
        .collect();
    ethabi::encode(&converted)
}

/// Appends `data` to `out`.
pub fn append_bytes(out: &mut Vec<u8>, data: &[u8])
    ensures
        final(out)@ == old(out)@ + data@,
{
    let mut i: usize = 0;
    while i < data.len()
        invariant
            0 <= i <= data@.len(),
            out@ == old(out)@ + data@.subrange(0, i as int),
        decreases data@.len() - i,
    {
        out.push(data[i]);
        i = i + 1;
        assert(data@.subrange(0, i as int) =~= data@.subrange(0, i - 1) + seq![data@[i - 1]]);
    }
    assert(data@.subrange(0, data@.len() as int) =~= data@);
}

/// Whether two byte strings are equal.
pub fn bytes_eq(a: &[u8], b: &[u8]) -> (r: bool)
    ensures
        r == (a@ == b@),
{
    if a.len() != b.len() {
        return false;
    }
    let mut i: usize = 0;
    while i < a.len()
        invariant
            a@.len() == b@.len(),
            0 <= i <= a@.len(),
            forall|j: int| 0 <= j < i ==> a@[j] == b@[j],
        decreases a@.len() - i,
    {
        if a[i] != b[i] {
            return false;
        }
        i = i + 1;
    }
    assert(a@ =~= b@);
    true
}

} // verus!
