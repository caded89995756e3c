//! The admission check and the execution bookkeeping of a remote call.
//!
//! Admission runs in two steps around the host: `validate_unsigned` checks
//! the signature, the signer and the nonce; the host then decodes the call,
//! withdraws the service fee and estimates the transaction fee, and
//! `finish_validation` checks the budget and scores the call. Execution is
//! alike: `remote_call_from_evm_chain` re-checks the signer, the host
//! dispatches and settles the fee, and `record_dispatch` records the outcome.

use vstd::prelude::*;
use crate::hashing::append_bytes;
use crate::identity::{account_of, bind};
use crate::nonce::{NonceBook, NonceFault};
use crate::priority::{priority, priority_of, BlockLimits, Weight};
use crate::recovery::{recover, recover_spec};
use crate::typed_data::{message_hash, message_hash_of, TypedDataDomain};

verus! {

/// The largest length of a call's encoded bytes.
pub const MAX_CALL_DATA: usize = 2048;

/// How many blocks an admitted call stays eligible.
pub const LONGEVITY: u64 = 5;

/// Why a remote call is refused.
#[derive(Debug, Clone, Copy, PartialEq, Eq)]
pub enum Error {
    Unexpected,
    /// The signature is malformed or no key recovers from it.
    InvalidSignature,
    /// The recovered key does not control the claimed account.
    AccountMismatch,
    /// The call bytes do not decode to a known call.
    DecodeError,
    NonceError(NonceFault),
    /// The balance does not cover the fees, or a withdrawal failed.
    PaymentError,
}

/// What the gateway reports.
#[derive(Debug, Clone, PartialEq, Eq)]
pub enum Event {
    ServiceFeePaid { who: Vec<u8>, fee: u128 },
    TransactionFeePaid { who: Vec<u8>, actual_fee: u128, tip: u128 },
    CallDone { who: Vec<u8>, succeeded: bool },
}

pub open spec fn is_service_fee_paid(e: Event, who: Seq<u8>, fee: u128) -> bool {
    match e {
        Event::ServiceFeePaid { who: w, fee: f } => w@ == who && f == fee,
        _ => false,
    }
}

pub open spec fn is_transaction_fee_paid(e: Event, who: Seq<u8>, actual_fee: u128, tip: u128) -> bool {
    match e {
        Event::TransactionFeePaid { who: w, actual_fee: a, tip: t } => w@ == who && a == actual_fee
            && t == tip,
        _ => false,
    }
}

pub open spec fn is_call_done(e: Event, who: Seq<u8>, succeeded: bool) -> bool {
    match e {
        Event::CallDone { who: w, succeeded: s } => w@ == who && s == succeeded,
        _ => false,
    }
}

/// The constants the gateway runs with.
pub struct Config {
    pub domain: TypedDataDomain,
    /// The SS58 prefix under which a caller's account is written when hashed.
    pub ss58_prefix: u16,
    pub service_fee: u128,
    pub limits: BlockLimits,
}

impl Config {
    pub open spec fn well_formed(&self) -> bool {
        self.domain.well_formed() && self.limits.well_formed()
    }
}

/// A signed meta-transaction.
pub struct RemoteCall {
    /// The 32-byte account that claims to have signed.
    pub who: Vec<u8>,
    pub call_data: Vec<u8>,
    pub nonce: u64,
    /// `r || s || v`, 65 bytes.
    pub signature: Vec<u8>,
    pub tip: Option<u128>,
}

impl RemoteCall {
    pub open spec fn well_formed(&self) -> bool {
        &&& self.who@.len() == 32
        &&& self.call_data@.len() <= MAX_CALL_DATA
        &&& self.signature@.len() == 65
    }
}

/// What an admitted call provides, and the tag it waits for, if any.
#[derive(Debug, Clone, PartialEq, Eq)]
pub struct Admission {
    pub provides: Vec<u8>,
    pub depends_on: Option<Vec<u8>>,
}

/// The verdict handed to the scheduler.
#[derive(Debug, Clone, PartialEq, Eq)]
pub struct ValidTransaction {
    pub priority: u64,
    pub provides: Vec<u8>,
    pub depends_on: Option<Vec<u8>>,
    pub longevity: u64,
    pub propagate: bool,
}

/// `n` as 8 little-endian bytes.
pub open spec fn le_bytes(n: u64) -> Seq<u8> {
    seq![
        (n & 0xffu64) as u8,
        ((n >> 8u64) & 0xffu64) as u8,
        ((n >> 16u64) & 0xffu64) as u8,
        ((n >> 24u64) & 0xffu64) as u8,
        ((n >> 32u64) & 0xffu64) as u8,
        ((n >> 40u64) & 0xffu64) as u8,
        ((n >> 48u64) & 0xffu64) as u8,
        ((n >> 56u64) & 0xffu64) as u8,
    ]
}

/// The tag of `(who, nonce)`: the account bytes, then the nonce little-endian.
pub open spec fn tag_of(who: Seq<u8>, nonce: u64) -> Seq<u8> {
    who + le_bytes(nonce)
}

/// The tag of `(who, nonce)`.
pub fn tag(who: &Vec<u8>, nonce: u64) -> (r: Vec<u8>)
    ensures
        r@ == tag_of(who@, nonce),
{
    let mut r: Vec<u8> = Vec::new();
    append_bytes(&mut r, who.as_slice());
    r.push((nonce & 0xffu64) as u8);
    r.push(((nonce >> 8u64) & 0xffu64) as u8);
    r.push(((nonce >> 16u64) & 0xffu64) as u8);
    r.push(((nonce >> 24u64) & 0xffu64) as u8);
    r.push(((nonce >> 32u64) & 0xffu64) as u8);
    r.push(((nonce >> 40u64) & 0xffu64) as u8);
    r.push(((nonce >> 48u64) & 0xffu64) as u8);
    r.push(((nonce >> 56u64) & 0xffu64) as u8);
    assert(r@ =~= tag_of(who@, nonce));
    r
}

/// The account that signed `req`, if a key recovers from its signature.
pub open spec fn signer_of(config: Config, req: RemoteCall) -> Option<Seq<u8>> {
    match recover_spec(
        req.signature@,
        message_hash_of(config.domain, config.ss58_prefix, req.who@, req.call_data@, req.nonce),
    ) {
        Some(k) => Some(account_of(k)),
        None => None,
    }
}

/// What checking the signature of `req` gives.
pub open spec fn authorisation(config: Config, req: RemoteCall) -> Result<(), Error> {
    match signer_of(config, req) {
        None => Err(Error::InvalidSignature),
        Some(a) => if a == req.who@ {
            Ok(())
        } else {
            Err(Error::AccountMismatch)
        },
    }
}

/// The gateway: its constants, the nonce counters and the events reported.
pub struct Pallet {
    pub config: Config,
    pub nonces: NonceBook,
    pub events: Vec<Event>,
}

impl Pallet {
    pub open spec fn well_formed(&self) -> bool {
        self.config.well_formed()
    }

    pub fn new(config: Config) -> (r: Pallet)
        ensures
            r.config == config,
            forall|who: Seq<u8>| r.nonces.counter(who) == 0,
            r.events@.len() == 0,
    {
        Pallet { config, nonces: NonceBook::new(), events: Vec::new() }
    }

    /// The digest that the owner of `who` signs to authorise `call_data` at
    /// `nonce`, under this gateway's domain and SS58 prefix.
    pub fn eip712_message_hash(&self, who: &Vec<u8>, call_data: &Vec<u8>, nonce: u64) -> (r: Vec<u8>)
        requires
            self.well_formed(),
            who@.len() == 32,
        ensures
            r@ == message_hash_of(self.config.domain, self.config.ss58_prefix, who@, call_data@, nonce),
            r@.len() == 32,
    {
        message_hash(&self.config.domain, self.config.ss58_prefix, who, call_data, nonce)
    }

    /// Checks that the signature of `req` recovers a key that controls `req.who`.
    pub fn authorise(&self, req: &RemoteCall) -> (r: Result<(), Error>)
        requires
            self.well_formed(),
            req.well_formed(),
        ensures
            r == authorisation(self.config, *req),
    {
        let digest = self.eip712_message_hash(&req.who, &req.call_data, req.nonce);
        match recover(req.signature.as_slice(), digest.as_slice()) {
            None => Err(Error::InvalidSignature),
            Some(key) => {
                let account = bind(key.as_slice());
                if crate::hashing::bytes_eq(account.as_slice(), req.who.as_slice()) {
                    Ok(())
                } else {
                    Err(Error::AccountMismatch)
                }
            },
        }
    }

    /// The first step of admission: the signer must control `req.who` and the
    /// nonce must not be stale. The expected nonce advances the counter; a later
    /// one is admitted ahead, requiring the tag of the nonce before it.
    pub fn validate_unsigned(&mut self, req: &RemoteCall) -> (r: Result<Admission, Error>)
        requires
            old(self).well_formed(),
            req.well_formed(),
        ensures
            final(self).config == old(self).config,
            final(self).events@ == old(self).events@,
            authorisation(old(self).config, *req) matches Err(e) ==> r == Err::<Admission, Error>(e)
                && final(self).nonces == old(self).nonces,
            authorisation(old(self).config, *req) is Ok ==> {
                let counter = old(self).nonces.counter(req.who@);
                &&& req.nonce < counter ==> r == Err::<Admission, Error>(
                    Error::NonceError(NonceFault::Stale),
                )
                &&& req.nonce == counter && counter == u64::MAX ==> r == Err::<Admission, Error>(
                    Error::NonceError(NonceFault::Exhausted),
                )
                &&& r is Ok ==> counter <= req.nonce && r->Ok_0.provides@ == tag_of(
                    req.who@,
                    req.nonce,
                )
                &&& req.nonce == counter && counter < u64::MAX ==> r is Ok
                    && r->Ok_0.depends_on is None
                &&& req.nonce > counter ==> r is Ok && (r->Ok_0.depends_on matches Some(t) && t@
                    == tag_of(req.who@, (req.nonce - 1) as u64))
                &&& forall|w: Seq<u8>| #[trigger]
                    final(self).nonces.counter(w) == if w == req.who@ && req.nonce == counter
                        && counter < u64::MAX {
                        (counter + 1) as u64
                    } else {
                        old(self).nonces.counter(w)
                    }
            },
    {
        match self.authorise(req) {
            Err(e) => Err(e),
            Ok(()) => match self.nonces.check(req.who.as_slice(), req.nonce) {
                Err(f) => Err(Error::NonceError(f)),
                Ok(d) => {
                    let provides = tag(&req.who, req.nonce);
                    let depends_on = match d.depends_on {
                        Some(n) => Some(tag(&req.who, n)),
                        None => None,
                    };
                    Ok(Admission { provides, depends_on })
                },
            },
        }
    }
    /// The second step of admission, once the host has decoded the call and
    /// tried to withdraw the service fee. `estimated_fee` and `spendable` are
    /// `None` where the host's amounts do not fit in `u128`. A withdrawn service
    /// fee is reported; the call is admitted where the spendable balance covers
    /// the estimated fee, with the priority of its weight, length and tip.
    pub fn finish_validation(
        &mut self,
        who: &Vec<u8>,
        admission: Admission,
        service_fee_withdrawn: bool,
        estimated_fee: Option<u128>,
        spendable: Option<u128>,
        weight: &Weight,
        len: u64,
        tip: Option<u128>,
    ) -> (r: Result<ValidTransaction, Error>)
        requires
            old(self).well_formed(),
        ensures
            final(self).config == old(self).config,
            final(self).nonces == old(self).nonces,
            !service_fee_withdrawn ==> r == Err::<ValidTransaction, Error>(Error::PaymentError)
                && final(self).events@ == old(self).events@,
            service_fee_withdrawn ==> final(self).events@.len() == old(self).events@.len() + 1
                && final(self).events@.drop_last() == old(self).events@
                && is_service_fee_paid(
                final(self).events@.last(),
                who@,
                old(self).config.service_fee,
            ),
            service_fee_withdrawn ==> (r is Ok <==> (estimated_fee matches Some(f)
                && spendable matches Some(s) && f <= s)),
            r is Err ==> r == Err::<ValidTransaction, Error>(Error::PaymentError),
            r matches Ok(v) ==> v.priority == priority_of(
                old(self).config.limits,
                *weight,
                len,
                match tip {
                    Some(t) => t,
                    None => 0,
                },
            ) && v.provides@ == admission.provides@ && v.depends_on == admission.depends_on
                && v.longevity == LONGEVITY && v.propagate,
    {
        if !service_fee_withdrawn {
            return Err(Error::PaymentError);
        }
        self.events.push(Event::ServiceFeePaid { who: who.clone(), fee: self.config.service_fee });
        let (fee, balance) = match (estimated_fee, spendable) {
            (Some(f), Some(s)) => (f, s),
            _ => return Err(Error::PaymentError),
        };
        if balance < fee {
            return Err(Error::PaymentError);
        }
        let tip_amount: u128 = match tip {
            Some(t) => t,
            None => 0,
        };
        let score = priority(&self.config.limits, weight, len, tip_amount);
        Ok(
            ValidTransaction {
                priority: score,
                provides: admission.provides,
                depends_on: admission.depends_on,
                longevity: LONGEVITY,
                propagate: true,
            },
        )
    }

    /// The check before a remote call is executed: the signer must control
    /// `req.who`. The nonce is not checked again; admission consumed it.
    pub fn remote_call_from_evm_chain(&self, req: &RemoteCall) -> (r: Result<(), Error>)
        requires
            self.well_formed(),
            req.well_formed(),
        ensures
            r == authorisation(self.config, *req),
    {
        self.authorise(req)
    }

    /// Records an executed call: its outcome, then, where the host settled the
    /// fee, the actual fee and the tip paid.
    pub fn record_dispatch(
        &mut self,
        who: &Vec<u8>,
        succeeded: bool,
        fee_settled: bool,
        actual_fee: u128,
        tip: Option<u128>,
    ) -> (r: Result<(), Error>)
        ensures
            final(self).config == old(self).config,
            final(self).nonces == old(self).nonces,
            fee_settled <==> r is Ok,
            !fee_settled ==> r == Err::<(), Error>(Error::PaymentError),
            final(self).events@.len() == old(self).events@.len() + if fee_settled {
                2int
            } else {
                1int
            },
            final(self).events@.subrange(0, old(self).events@.len() as int) == old(self).events@,
            is_call_done(final(self).events@[old(self).events@.len() as int], who@, succeeded),
            fee_settled ==> is_transaction_fee_paid(
                final(self).events@.last(),
                who@,
                actual_fee,
                match tip {
                    Some(t) => t,
                    None => 0,
                },
            ),
    {
        let ghost before = self.events@;
        self.events.push(Event::CallDone { who: who.clone(), succeeded });
        if !fee_settled {
            assert(self.events@.subrange(0, before.len() as int) =~= before);
            return Err(Error::PaymentError);
        }
        let tip_amount: u128 = match tip {
            Some(t) => t,
            None => 0,
        };
        self.events.push(Event::TransactionFeePaid { who: who.clone(), actual_fee, tip: tip_amount });
        assert(self.events@.subrange(0, before.len() as int) =~= before);
        Ok(())
    }
}

} // verus!
