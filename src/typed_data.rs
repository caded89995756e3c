//! Typed-data hashing: the domain separator, the struct hash of a remote call
//! and the digest that the signer signs.

use vstd::prelude::*;
use vstd::string::StringSliceAdditionalSpecFns;
use crate::hashing::{
    abi_encode, abi_words, append_bytes, keccak_256, keccak_of, ss58_of, ss58_text, AbiToken,
};

verus! {

/// The type declaration of the signing domain.
pub const DOMAIN_TYPE: &'static str =
    "EIP712Domain(string name,string version,uint256 chainId,address verifyingContract)";

/// The type declaration of a remote call.
pub const CALL_TYPE: &'static str = "SubstrateCall(string who,bytes callData,uint64 nonce)";

/// The signing domain; it has no salt.
pub struct TypedDataDomain {
    pub name: Vec<u8>,
    pub version: Vec<u8>,
    /// The chain identifier as 32 big-endian bytes.
    pub chain_id: Vec<u8>,
    /// The 20-byte address of the verifying contract.
    pub verifying_contract: Vec<u8>,
}

impl TypedDataDomain {
    pub open spec fn well_formed(&self) -> bool {
        &&& self.chain_id@.len() == 32
        &&& self.verifying_contract@.len() == 20
    }
}

/// `n` as a 256-bit big-endian word.
pub open spec fn uint_word(n: u64) -> Seq<u8> {
    Seq::new(24, |i: int| 0u8) + seq![
        ((n >> 56u64) & 0xffu64) as u8,
        ((n >> 48u64) & 0xffu64) as u8,
        ((n >> 40u64) & 0xffu64) as u8,
        ((n >> 32u64) & 0xffu64) as u8,
        ((n >> 24u64) & 0xffu64) as u8,
        ((n >> 16u64) & 0xffu64) as u8,
        ((n >> 8u64) & 0xffu64) as u8,
        (n & 0xffu64) as u8,
    ]
}

/// The domain separator: the digest of the domain's type hash, the digests of
/// its name and version, its chain identifier and its zero-padded contract address.
pub open spec fn domain_separator_of(d: TypedDataDomain) -> Seq<u8> {
    keccak_of(
        keccak_of(DOMAIN_TYPE.spec_bytes()) + keccak_of(d.name@) + keccak_of(d.version@)
            + d.chain_id@ + Seq::new(12, |i: int| 0u8) + d.verifying_contract@,
    )
}

/// The encoded struct of a remote call by the account whose text form is
/// `who_text`: the type hash, the digests of the text and of the call bytes,
/// and the nonce as a word.
pub open spec fn call_struct_preimage(who_text: Seq<u8>, call_data: Seq<u8>, nonce: u64) -> Seq<u8> {
    keccak_of(CALL_TYPE.spec_bytes()) + keccak_of(who_text) + keccak_of(call_data) + uint_word(nonce)
}

/// The struct hash of a remote call by the account whose text form is `who_text`.
pub open spec fn call_struct_hash(who_text: Seq<u8>, call_data: Seq<u8>, nonce: u64) -> Seq<u8> {
    keccak_of(call_struct_preimage(who_text, call_data, nonce))
}

/// The signed digest: the packed prefix 0x19 0x01, the separator and the struct hash.
pub open spec fn signing_digest(separator: Seq<u8>, struct_hash: Seq<u8>) -> Seq<u8> {
    keccak_of(seq![0x19u8, 0x01u8] + separator + struct_hash)
}

/// The digest that the owner of `who` signs to authorise `call_data` at `nonce`.
pub open spec fn message_hash_of(
    d: TypedDataDomain,
    ss58_prefix: u16,
    who: Seq<u8>,
    call_data: Seq<u8>,
    nonce: u64,
) -> Seq<u8> {
    signing_digest(
        domain_separator_of(d),
        call_struct_hash(ss58_of(who, ss58_prefix), call_data, nonce),
    )
}

/// `n` as a 256-bit big-endian word.
pub fn uint_word_of(n: u64) -> (r: Vec<u8>)
    ensures
        r@ == uint_word(n),
{
    let mut r: Vec<u8> = Vec::new();
    let mut i: usize = 0;
    while i < 24
        invariant
            i <= 24,
            r@ == Seq::new(i as nat, |j: int| 0u8),
        decreases 24 - i,
    {
        r.push(0u8);
        i = i + 1;
        assert(r@ =~= Seq::new(i as nat, |j: int| 0u8));
    }
    r.push(((n >> 56u64) & 0xffu64) as u8);
    r.push(((n >> 48u64) & 0xffu64) as u8);
    r.push(((n >> 40u64) & 0xffu64) as u8);
    r.push(((n >> 32u64) & 0xffu64) as u8);
    r.push(((n >> 24u64) & 0xffu64) as u8);
    r.push(((n >> 16u64) & 0xffu64) as u8);
    r.push(((n >> 8u64) & 0xffu64) as u8);
    r.push((n & 0xffu64) as u8);
    assert(r@ =~= uint_word(n));
    r
}

proof fn lemma_uint_word_injective(a: u64, b: u64)
    requires
        uint_word(a) == uint_word(b),
    ensures
        a == b,
{
    let wa = uint_word(a);
    let wb = uint_word(b);
    assert(wa[24] == wb[24] && wa[25] == wb[25] && wa[26] == wb[26] && wa[27] == wb[27]);
    assert(wa[28] == wb[28] && wa[29] == wb[29] && wa[30] == wb[30] && wa[31] == wb[31]);
    assert(a == b) by (bit_vector)
        requires
            ((a >> 56u64) & 0xffu64) as u8 == ((b >> 56u64) & 0xffu64) as u8,
            ((a >> 48u64) & 0xffu64) as u8 == ((b >> 48u64) & 0xffu64) as u8,
            ((a >> 40u64) & 0xffu64) as u8 == ((b >> 40u64) & 0xffu64) as u8,
            ((a >> 32u64) & 0xffu64) as u8 == ((b >> 32u64) & 0xffu64) as u8,
            ((a >> 24u64) & 0xffu64) as u8 == ((b >> 24u64) & 0xffu64) as u8,
            ((a >> 16u64) & 0xffu64) as u8 == ((b >> 16u64) & 0xffu64) as u8,
            ((a >> 8u64) & 0xffu64) as u8 == ((b >> 8u64) & 0xffu64) as u8,
            (a & 0xffu64) as u8 == (b & 0xffu64) as u8,
    ;
}

/// The message hash is a function of its inputs alone, and the encoded
/// struct that it hashes tells apart two calls that differ in the nonce, in the
/// digest of the caller's text form or in the digest of the call bytes.
pub proof fn lemma_message_hash_inputs(
    who_text1: Seq<u8>,
    call_data1: Seq<u8>,
    nonce1: u64,
    who_text2: Seq<u8>,
    call_data2: Seq<u8>,
    nonce2: u64,
)
    requires
        keccak_of(who_text1).len() == 32,
        keccak_of(who_text2).len() == 32,
        keccak_of(call_data1).len() == 32,
        keccak_of(call_data2).len() == 32,
    ensures
        (who_text1 == who_text2 && call_data1 == call_data2 && nonce1 == nonce2) ==> call_struct_hash(
            who_text1,
            call_data1,
            nonce1,
        ) == call_struct_hash(who_text2, call_data2, nonce2),
        (nonce1 != nonce2 || keccak_of(who_text1) != keccak_of(who_text2) || keccak_of(call_data1)
            != keccak_of(call_data2)) ==> call_struct_preimage(who_text1, call_data1, nonce1)
            != call_struct_preimage(who_text2, call_data2, nonce2),
{
    let p1 = call_struct_preimage(who_text1, call_data1, nonce1);
    let p2 = call_struct_preimage(who_text2, call_data2, nonce2);
    if p1 == p2 {
        let n: int = keccak_of(CALL_TYPE.spec_bytes()).len() as int;
        assert(keccak_of(who_text1) =~= p1.subrange(n, n + 32));
        assert(keccak_of(who_text2) =~= p2.subrange(n, n + 32));
        assert(keccak_of(call_data1) =~= p1.subrange(n + 32, n + 64));
        assert(keccak_of(call_data2) =~= p2.subrange(n + 32, n + 64));
        assert(uint_word(nonce1) =~= p1.subrange(n + 64, p1.len() as int));
        assert(uint_word(nonce2) =~= p2.subrange(n + 64, p2.len() as int));
        lemma_uint_word_injective(nonce1, nonce2);
    }
}

/// The domain separator of `d`.
pub fn domain_separator(d: &TypedDataDomain) -> (r: Vec<u8>)
    requires
        d.well_formed(),
    ensures
        r@ == domain_separator_of(*d),
        r@.len() == 32,
{
    let tokens: Vec<AbiToken> = vec![
        AbiToken::Word(keccak_256(DOMAIN_TYPE.as_bytes())),
        AbiToken::Word(keccak_256(d.name.as_slice())),
        AbiToken::Word(keccak_256(d.version.as_slice())),
        AbiToken::Uint(d.chain_id.clone()),
        AbiToken::Address(d.verifying_contract.clone()),
    ];
    proof {
        reveal_with_fuel(abi_words, 6);
        assert(tokens@.drop_last().drop_last().drop_last().drop_last().drop_last() =~= Seq::<
            AbiToken,
        >::empty());
    }
    let encoded = abi_encode(&tokens);
    proof {
        assert(encoded@ =~= keccak_of(DOMAIN_TYPE.spec_bytes()) + keccak_of(d.name@) + keccak_of(
            d.version@,
        ) + d.chain_id@ + Seq::new(12, |i: int| 0u8) + d.verifying_contract@);
    }
    keccak_256(encoded.as_slice())
}

/// The struct hash of a remote call by `who`, written in its SS58 text form
/// under `ss58_prefix`.
pub fn call_struct_hash_for(who: &Vec<u8>, ss58_prefix: u16, call_data: &Vec<u8>, nonce: u64) -> (r:
    Vec<u8>)
    requires
        who@.len() == 32,
    ensures
        r@ == call_struct_hash(ss58_of(who@, ss58_prefix), call_data@, nonce),
        r@.len() == 32,
{
    let who_text = ss58_text(who.as_slice(), ss58_prefix);
    let tokens: Vec<AbiToken> = vec![
        AbiToken::Word(keccak_256(CALL_TYPE.as_bytes())),
        AbiToken::Word(keccak_256(who_text.as_slice())),
        AbiToken::Word(keccak_256(call_data.as_slice())),
        AbiToken::Uint(uint_word_of(nonce)),
    ];
    proof {
        reveal_with_fuel(abi_words, 5);
        assert(tokens@.drop_last().drop_last().drop_last().drop_last() =~= Seq::<
            AbiToken,
        >::empty());
    }
    let encoded = abi_encode(&tokens);
    proof {
        assert(encoded@ =~= keccak_of(CALL_TYPE.spec_bytes()) + keccak_of(who_text@) + keccak_of(
            call_data@,
        ) + uint_word(nonce));
    }
    keccak_256(encoded.as_slice())
}

/// The digest that the owner of `who` signs to authorise `call_data` at `nonce`.
pub fn message_hash(
    d: &TypedDataDomain,
    ss58_prefix: u16,
    who: &Vec<u8>,
    call_data: &Vec<u8>,
    nonce: u64,
) -> (r: Vec<u8>)
    requires
        d.well_formed(),
        who@.len() == 32,
    ensures
        r@ == message_hash_of(*d, ss58_prefix, who@, call_data@, nonce),
        r@.len() == 32,
{
    let separator = domain_separator(d);
    let struct_hash = call_struct_hash_for(who, ss58_prefix, call_data, nonce);
    let mut packed: Vec<u8> = vec![0x19u8, 0x01u8];
    append_bytes(&mut packed, separator.as_slice());
    append_bytes(&mut packed, struct_hash.as_slice());
    assert(packed@ =~= seq![0x19u8, 0x01u8] + separator@ + struct_hash@);
    keccak_256(packed.as_slice())
}

} // verus!
