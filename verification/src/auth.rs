use vstd::prelude::*;
use crate::addr::{Addr, addr_eq};
use crate::engine::{AddressLogger, is_first_match, roster_contains};
use crate::errors::EngineError;
use crate::hashing::{keccak_of, keccak256};
use crate::token::TokenPort;

verus! {

/// A 64-bit value laid out as a 32-byte big-endian word: 24 zero bytes, then
/// the value's own bytes from most to least significant.
pub open spec fn be32_of_u64(n: u64) -> Seq<u8> {
    Seq::new(32, |i: int| {
        if i < 24 {
            0u8
        } else {
            (n >> (((31 - i) * 8) as u64)) as u8
        }
    })
}

/// The canonical authorization message: every field in fixed order and fixed
/// width, with no delimiters, so the encoding is injective over the value
/// ranges used.
pub open spec fn auth_message(
    bettor: Addr,
    selected_address: Addr,
    position: bool,
    amount: u64,
    nonce: u64,
    deadline: u64,
) -> Seq<u8> {
    bettor@ + selected_address@ + seq![
        if position {
            1u8
        } else {
            0u8
        },
    ] + be32_of_u64(amount) + be32_of_u64(nonce) + be32_of_u64(deadline)
}

/// The fixed domain-separation prefix of the "personal message" signing
/// convention, for a 32-byte payload.
pub open spec fn eth_prefix() -> Seq<u8> {
    seq![
        0x19u8, 0x45u8, 0x74u8, 0x68u8, 0x65u8, 0x72u8, 0x65u8, 0x75u8, 0x6du8, 0x20u8, 0x53u8,
        0x69u8, 0x67u8, 0x6eu8, 0x65u8, 0x64u8, 0x20u8, 0x4du8, 0x65u8, 0x73u8, 0x73u8, 0x61u8,
        0x67u8, 0x65u8, 0x3au8, 0x0au8, 0x33u8, 0x32u8,
    ]
}

/// The digest that was actually signed: the message hash, hashed again under
/// the domain-separation prefix.
pub open spec fn auth_digest(
    bettor: Addr,
    selected_address: Addr,
    position: bool,
    amount: u64,
    nonce: u64,
    deadline: u64,
) -> Seq<u8> {
    keccak_of(
        eth_prefix() + keccak_of(
            auth_message(bettor, selected_address, position, amount, nonce, deadline),
        ),
    )
}

/// The principal recovered from a digest and the split signature components,
/// if recovery succeeds. Left abstract: public-key recovery is a fixed
/// function of its arguments and nothing here depends on its structure.
pub uninterp spec fn recovered_signer(digest: Seq<u8>, r: Seq<u8>, s: Seq<u8>, v: u8) -> Option<
    Seq<u8>,
>;

/// The recovery outcome for a whole 65-byte signature: `None` on malformed
/// lengths, else whatever recovery yields on the split components.
pub open spec fn recover_decision(digest: Seq<u8>, sig: Seq<u8>) -> Option<Seq<u8>> {
    if sig.len() != 65 {
        Option::None
    } else {
        recovered_signer(digest, sig.subrange(0, 32), sig.subrange(32, 64), sig[64])
    }
}

/// An `Option` of addresses, seen as byte strings.
pub open spec fn recovered_view(o: Option<Addr>) -> Option<Seq<u8>> {
    match o {
        Option::Some(a) => Option::Some(a@),
        Option::None => Option::None,
    }
}

/// Appends all 20 bytes of an address.
fn push_addr(out: &mut Vec<u8>, a: &Addr)
    ensures
        final(out)@ =~= old(out)@ + a@,
{
    let mut i: usize = 0;
    while i < 20
        invariant
            0 <= i <= 20,
            out@ =~= old(out)@ + a@.take(i as int),
        decreases 20 - i,
    {
        out.push(a[i]);
        proof {
            assert(out@ =~= old(out)@ + a@.take(i + 1));
        }
        i += 1;
    }
    proof {
        assert(a@.take(20) =~= a@);
    }
}

/// The byte at position `k` of a 32-byte big-endian word.
fn be_byte64(n: u64, k: usize) -> (r: u8)
    requires
        k < 32,
    ensures
        r == be32_of_u64(n)[k as int],
{
    if k < 24 {
        0
    } else {
        let sh: u64 = ((31 - k) * 8) as u64;
        (n >> sh) as u8
    }
}

/// Appends a 64-bit value as a 32-byte big-endian word.
fn push_be32_u64(out: &mut Vec<u8>, n: u64)
    ensures
        final(out)@ =~= old(out)@ + be32_of_u64(n),
{
    let mut k: usize = 0;
    while k < 32
        invariant
            0 <= k <= 32,
            out@ =~= old(out)@ + be32_of_u64(n).take(k as int),
        decreases 32 - k,
    {
        let b = be_byte64(n, k);
        out.push(b);
        proof {
            assert(out@ =~= old(out)@ + be32_of_u64(n).take(k + 1));
        }
        k += 1;
    }
    proof {
        assert(be32_of_u64(n).take(32) =~= be32_of_u64(n));
    }
}

/// Builds the canonical authorization message for the given wager tuple.
pub fn encode_authorization(
    bettor: &Addr,
    selected_address: &Addr,
    position: bool,
    amount: u64,
    nonce: u64,
    deadline: u64,
) -> (r: Vec<u8>)
    ensures
        r@ =~= auth_message(*bettor, *selected_address, position, amount, nonce, deadline),
{
    let mut out: Vec<u8> = Vec::new();
    push_addr(&mut out, bettor);
    push_addr(&mut out, selected_address);
    if position {
        out.push(1);
    } else {
        out.push(0);
    }
    push_be32_u64(&mut out, amount);
    push_be32_u64(&mut out, nonce);
    push_be32_u64(&mut out, deadline);
    out
}

/// The domain-separation prefix as bytes.
fn eth_prefix_bytes() -> (r: Vec<u8>)
    ensures
        r@ =~= eth_prefix(),
{
    let mut v: Vec<u8> = Vec::new();
    v.push(0x19);
    v.push(0x45);
    v.push(0x74);
    v.push(0x68);
    v.push(0x65);
    v.push(0x72);
    v.push(0x65);
    v.push(0x75);
    v.push(0x6d);
    v.push(0x20);
    v.push(0x53);
    v.push(0x69);
    v.push(0x67);
    v.push(0x6e);
    v.push(0x65);
    v.push(0x64);
    v.push(0x20);
    v.push(0x4d);
    v.push(0x65);
    v.push(0x73);
    v.push(0x73);
    v.push(0x61);
    v.push(0x67);
    v.push(0x65);
    v.push(0x3a);
    v.push(0x0a);
    v.push(0x33);
    v.push(0x32);
    v
}

/// Computes the digest a signer must have signed to authorize this wager.
pub fn compute_auth_digest(
    bettor: &Addr,
    selected_address: &Addr,
    position: bool,
    amount: u64,
    nonce: u64,
    deadline: u64,
) -> (r: Vec<u8>)
    ensures
        r@ == auth_digest(*bettor, *selected_address, position, amount, nonce, deadline),
        r@.len() == 32,
{
    let msg = encode_authorization(bettor, selected_address, position, amount, nonce, deadline);
    let mut inner = keccak256(&msg);
    let mut prefixed = eth_prefix_bytes();
    prefixed.append(&mut inner);
    keccak256(&prefixed)
}

/// Copies 32 bytes out of a byte vector, starting at `start`.
fn copy32(v: &Vec<u8>, start: usize) -> (r: [u8; 32])
    requires
        start + 32 <= v@.len(),
    ensures
        r@ =~= v@.subrange(start as int, start as int + 32),
{
    let n = v.len();
    let mut out = [0u8; 32];
    let mut i: usize = 0;
    while i < 32
        invariant
            0 <= i <= 32,
            n == v@.len(),
            start + 32 <= n,
            forall|j: int| 0 <= j < i ==> out@[j] == v@[start + j],
        decreases 32 - i,
    {
        out[i] = v[start + i];
        i += 1;
    }
    out
}

impl AddressLogger {
    /// Splits a 65-byte signature into its `r`, `s` and recovery-id parts.
    fn split_signature(&self, signature: &Vec<u8>) -> (r: ([u8; 32], [u8; 32], u8))
        requires
            signature@.len() == 65,
        ensures
            r.0@ =~= signature@.subrange(0, 32),
            r.1@ =~= signature@.subrange(32, 64),
            r.2 == signature@[64],
    {
        let rb = copy32(signature, 0);
        let sb = copy32(signature, 32);
        let v = signature[64];
        (rb, sb, v)
    }

    /// Relies on ethers_core::types::Signature::recover with a precomputed
    /// hash: ECDSA public-key recovery over the 32-byte digest, deterministic
    /// in its arguments, yielding `None` whenever the components do not form
    /// a recoverable signature.
    #[verifier::external_body]
    pub fn ecrecover_call(&self, hash: &[u8; 32], v: u8, r: &[u8; 32], s: &[u8; 32]) -> (out:
        Option<Addr>)
        ensures
            recovered_view(out) == recovered_signer(hash@, r@, s@, v),
    {
        let sig = ethers_core::types::Signature {
            r: ethers_core::types::U256::from_big_endian(r),
            s: ethers_core::types::U256::from_big_endian(s),
            v: v as u64,
        };
        let msg = ethers_core::types::RecoveryMessage::Hash(ethers_core::types::H256(*hash));
        match sig.recover(msg) {
            Ok(a) => Some(a.0),
            Err(_) => None,
        }
    }

    /// Recovers the signing principal of a digest from a 65-byte signature;
    /// malformed lengths and failed recovery both yield `InvalidSignature`.
    pub fn recover_signer(&self, hash: &[u8; 32], signature: &Vec<u8>) -> (out: Result<
        Addr,
        EngineError,
    >)
        ensures
            match out {
                Ok(a) => recover_decision(hash@, signature@) == Option::Some(a@),
                Err(e) => recover_decision(hash@, signature@) is None && e
                    == EngineError::InvalidSignature,
            },
    {
        if signature.len() != 65 {
            return Err(EngineError::InvalidSignature);
        }
        let (rb, sb, v) = self.split_signature(signature);
        match self.ecrecover_call(hash, v, &rb, &sb) {
            Some(a) => Ok(a),
            None => Err(EngineError::InvalidSignature),
        }
    }

    /// The complete authorization verdict for a signed wager, in the order
    /// the checks are made: expiry, then nonce, then signature recovery,
    /// then signer identity.
    pub open spec fn auth_decision(
        self,
        bettor: Addr,
        selected_address: Addr,
        position: bool,
        amount: u64,
        nonce: u64,
        deadline: u64,
        sig: Seq<u8>,
        now: u64,
    ) -> Result<(), EngineError> {
        if now > deadline {
            Err(EngineError::SignatureExpired)
        } else if nonce != self.nonce_of(bettor@) {
            Err(EngineError::InvalidNonce)
        } else {
            match recover_decision(
                auth_digest(bettor, selected_address, position, amount, nonce, deadline),
                sig,
            ) {
                Option::None => Err(EngineError::InvalidSignature),
                Option::Some(signer) => if signer != bettor@ {
                    Err(EngineError::SignerMismatch)
                } else {
                    Ok(())
                },
            }
        }
    }

    /// Checks that `signature` authorizes this exact wager tuple: not yet
    /// expired, carrying the bettor's current nonce, and signed by the
    /// bettor over the canonical digest.
    fn verify_signature(
        &self,
        bettor: Addr,
        selected_address: Addr,
        position: bool,
        amount: u64,
        nonce: u64,
        deadline: u64,
        signature: &Vec<u8>,
        now: u64,
    ) -> (r: Result<(), EngineError>)
        ensures
            r == self.auth_decision(
                bettor,
                selected_address,
                position,
                amount,
                nonce,
                deadline,
                signature@,
                now,
            ),
    {
        if now > deadline {
            return Err(EngineError::SignatureExpired);
        }
        let stored = self.get_nonce(&bettor);
        if stored != nonce {
            return Err(EngineError::InvalidNonce);
        }
        let digest_vec = compute_auth_digest(
            &bettor,
            &selected_address,
            position,
            amount,
            nonce,
            deadline,
        );
        let digest = copy32(&digest_vec, 0);
        proof {
            assert(digest@ =~= digest_vec@);
        }
        match self.recover_signer(&digest, signature) {
            Err(e) => Err(e),
            Ok(signer) => {
                if !addr_eq(&signer, &bettor) {
                    Err(EngineError::SignerMismatch)
                } else {
                    Ok(())
                }
            },
        }
    }

    /// Places a wager on behalf of `bettor`, authorized by an off-chain
    /// signature instead of the caller's identity. Any authorization failure
    /// aborts the whole call with nothing changed, the nonce included; on
    /// success the stored nonce advances by one, so the same signature can
    /// never be used again.
    pub fn place_bet_with_signature<T: TokenPort>(
        &mut self,
        token: &mut T,
        bettor: Addr,
        selected_address: Addr,
        position: bool,
        amount: u64,
        nonce: u64,
        deadline: u64,
        signature: &Vec<u8>,
        now: u64,
    ) -> (r: Result<(), EngineError>)
        requires
            old(self).wf(),
            nonce < u64::MAX || old(self).nonce_of(bettor@) < u64::MAX,
            old(self).window_active && nonce == old(self).nonce_of(bettor@) ==> forall|i: int|
                is_first_match(old(self).valid_addresses@, selected_address@, i) ==> (if position {
                    old(self).address_up_amounts@[i]
                } else {
                    old(self).address_down_amounts@[i]
                }) + amount <= u128::MAX,
        ensures
            final(self).wf(),
            old(self).pools_consistent() ==> final(self).pools_consistent(),
            old(self).auth_decision(
                bettor,
                selected_address,
                position,
                amount,
                nonce,
                deadline,
                signature@,
                now,
            ) matches Err(e) ==> r == Err::<(), EngineError>(e) && final(self).unchanged(
                *old(self),
            ),
            old(self).auth_decision(
                bettor,
                selected_address,
                position,
                amount,
                nonce,
                deadline,
                signature@,
                now,
            ) is Ok ==> {
                &&& (r == Err::<(), EngineError>(EngineError::NoActiveWindow) <==> !old(self).window_active)
                &&& (r == Err::<(), EngineError>(EngineError::InvalidCandidate) <==> old(self).window_active && !roster_contains(
                    old(self).valid_addresses@,
                    selected_address@,
                ))
                &&& r == Err::<(), EngineError>(EngineError::InsufficientAllowance) ==> old(self).window_active && roster_contains(old(self).valid_addresses@, selected_address@)
                &&& r == Err::<(), EngineError>(EngineError::TransferFailed) ==> old(self).window_active && roster_contains(old(self).valid_addresses@, selected_address@)
                &&& r is Err ==> final(self).unchanged(*old(self))
                &&& r is Ok ==> old(self).window_active && roster_contains(
                    old(self).valid_addresses@,
                    selected_address@,
                ) && Self::places_signed_bet(
                    *old(self),
                    *final(self),
                    bettor,
                    selected_address,
                    position,
                    amount,
                    nonce,
                )
                &&& r is Ok || r == Err::<(), EngineError>(EngineError::NoActiveWindow) || r
                    == Err::<(), EngineError>(EngineError::InvalidCandidate) || r == Err::<
                    (),
                    EngineError,
                >(EngineError::InsufficientAllowance) || r == Err::<(), EngineError>(
                    EngineError::TransferFailed,
                )
            },
    {
        match self.verify_signature(
            bettor,
            selected_address,
            position,
            amount,
            nonce,
            deadline,
            signature,
            now,
        ) {
            Err(e) => {
                return Err(e);
            },
            Ok(()) => {},
        }
        match self.place_bet(token, bettor, selected_address, position, amount) {
            Err(e) => Err(e),
            Ok(()) => {
                self.set_nonce(&bettor, nonce + 1);
                Ok(())
            },
        }
    }
}

} // verus!
