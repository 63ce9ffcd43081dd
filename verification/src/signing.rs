//! Canonical signing payloads and signed transfers.
//!
//! The canonical payload of a transfer is the JSON array text
//! `["<sender public key>","<recipient address>",<amount>,<timestamp>]`,
//! with the two strings escaped as in `jsonfmt` and the two numbers in
//! plain decimal.  That exact text is hashed with SHA-256 and the digest
//! signed with ECDSA over secp256k1; a verifier that rebuilds the payload
//! from the carried fields obtains the identical digest.

use vstd::prelude::*;

use crate::crypto::{
    ecdsa_verifies, is_valid_seckey, pubkey_of, sha256_of, sha256_text, sign_digest,
    verify_digest_signature,
};
use crate::errors::WalletError;
use crate::hexfmt::{hex_decode, hex_decode_ok, hex_decode_spec, lemma_hex_roundtrip};
use crate::jsonfmt::{append_escaped, append_u64, dec_spec, json_escape};
use crate::models::{has_name, keypair_wf, lookup, KeyPairView, Wallets};
use crate::store::resolve_spec;
use crate::strutil::push_char;

verus! {

/// The canonical payload text of one transfer.
pub open spec fn payload_spec(sender: Seq<char>, to: Seq<char>, amount: nat, ts: nat) -> Seq<
    char,
> {
    seq!['[', '"'] + json_escape(sender) + seq!['"', ',', '"'] + json_escape(to)
        + seq!['"', ','] + dec_spec(amount) + seq![','] + dec_spec(ts) + seq![']']
}

/// Builds the canonical payload text.
pub fn build_payload(sender: &str, to: &str, amount: u64, timestamp: u64) -> (r: String)
    ensures
        r@ == payload_spec(sender@, to@, amount as nat, timestamp as nat),
{
    let mut out = String::new();
    push_char(&mut out, '[');
    push_char(&mut out, '"');
    append_escaped(&mut out, sender);
    push_char(&mut out, '"');
    push_char(&mut out, ',');
    push_char(&mut out, '"');
    append_escaped(&mut out, to);
    push_char(&mut out, '"');
    push_char(&mut out, ',');
    append_u64(&mut out, amount);
    push_char(&mut out, ',');
    append_u64(&mut out, timestamp);
    push_char(&mut out, ']');
    proof {
        assert(out@ =~= payload_spec(sender@, to@, amount as nat, timestamp as nat));
    }
    out
}

/// The mathematical value of a signed transfer.
pub ghost struct SignedTransactionView {
    pub from: Seq<char>,
    pub to: Seq<char>,
    pub amount: u64,
    pub timestamp: u64,
    pub signature: Seq<u8>,
}

/// A transfer ready for submission: the four payload fields and the
/// compact signature over their canonical text.
#[derive(Debug)]
pub struct SignedTransaction {
    /// The sender's public key, hex-encoded.
    pub from: String,
    /// The recipient's resolved address.
    pub to: String,
    /// Whole coin units.
    pub amount: u64,
    /// Seconds since the epoch.
    pub timestamp: u64,
    /// The 64-byte compact ECDSA signature.
    pub signature: Vec<u8>,
}

impl View for SignedTransaction {
    type V = SignedTransactionView;

    open spec fn view(&self) -> SignedTransactionView {
        SignedTransactionView {
            from: self.from@,
            to: self.to@,
            amount: self.amount,
            timestamp: self.timestamp,
            signature: self.signature@,
        }
    }
}

/// Whether a transfer's signature verifies against the public key it
/// carries, over the canonical payload of its own fields.
pub open spec fn transfer_verifies(t: SignedTransactionView) -> bool {
    &&& hex_decode_ok(t.from)
    &&& ecdsa_verifies(
        t.signature,
        sha256_of(payload_spec(t.from, t.to, t.amount as nat, t.timestamp as nat)),
        hex_decode_spec(t.from),
    )
}

/// Recomputes a transfer's canonical digest and checks its signature
/// against the sender public key it carries.
pub fn verify_transfer(tx: &SignedTransaction) -> (r: bool)
    ensures
        r == transfer_verifies(tx@),
{
    let pk_bytes = match hex_decode(tx.from.as_str()) {
        None => {
            return false;
        },
        Some(b) => b,
    };
    let payload = build_payload(
        tx.from.as_str(),
        tx.to.as_str(),
        tx.amount,
        tx.timestamp,
    );
    let digest = sha256_text(payload.as_str());
    verify_digest_signature(&tx.signature, &digest, &pk_bytes)
}

impl Wallets {
    /// Builds and signs a transfer from a stored wallet to a resolvable
    /// recipient, at the given time.  Exactly these failures can occur, in
    /// this order: an unknown sender, an unresolvable recipient, a sender
    /// key that is not hex text, a sender key that is no valid scalar.  On
    /// success the transaction carries the sender's public key, the
    /// resolved address, the amount and timestamp, and a 64-byte signature
    /// that verifies under the key derived from the sender's private key.
    pub fn sign_transfer(
        &self,
        from_wallet: &str,
        to_name_or_key: &str,
        amount: u64,
        timestamp: u64,
    ) -> (r: Result<SignedTransaction, WalletError>)
        requires
            self.wf(),
        ensures
            !has_name(self@, from_wallet@) ==> (r matches Err(WalletError::WalletNotFound(n))
                && n@ == from_wallet@),
            has_name(self@, from_wallet@) && resolve_spec(self@, to_name_or_key@) is None
                ==> (r matches Err(WalletError::AddressInvalid(a)) && a@ == to_name_or_key@),
            ({
                let kp = lookup(self@, from_wallet@);
                has_name(self@, from_wallet@) && resolve_spec(self@, to_name_or_key@) is Some
                    && !hex_decode_ok(kp.private_key) ==> r matches Err(
                    WalletError::KeyDecodingFailed { message: _ },
                )
            }),
            ({
                let kp = lookup(self@, from_wallet@);
                has_name(self@, from_wallet@) && resolve_spec(self@, to_name_or_key@) is Some
                    && hex_decode_ok(kp.private_key) && !is_valid_seckey(
                    hex_decode_spec(kp.private_key),
                ) ==> r matches Err(WalletError::InvalidPrivateKey { message: _ })
            }),
            ({
                let kp = lookup(self@, from_wallet@);
                let to_addr = resolve_spec(self@, to_name_or_key@)->0;
                has_name(self@, from_wallet@) && resolve_spec(self@, to_name_or_key@) is Some
                    && hex_decode_ok(kp.private_key) && is_valid_seckey(
                    hex_decode_spec(kp.private_key),
                ) ==> (r matches Ok(tx) && {
                    &&& tx.from@ == kp.public_key
                    &&& tx.to@ == to_addr
                    &&& tx.amount == amount
                    &&& tx.timestamp == timestamp
                    &&& tx.signature@.len() == 64
                    &&& ecdsa_verifies(
                        tx.signature@,
                        sha256_of(
                            payload_spec(kp.public_key, to_addr, amount as nat, timestamp as nat),
                        ),
                        pubkey_of(hex_decode_spec(kp.private_key)),
                    )
                })
            }),
    {
        let keypair = match self.get_wallet(from_wallet) {
            None => {
                return Err(WalletError::WalletNotFound(from_wallet.to_owned()));
            },
            Some(kp) => kp,
        };
        let to_address = match self.resolve_address(to_name_or_key) {
            None => {
                return Err(WalletError::AddressInvalid(to_name_or_key.to_owned()));
            },
            Some(a) => a,
        };
        let sk_bytes = match hex_decode(keypair.private_key.as_str()) {
            None => {
                return Err(
                    WalletError::KeyDecodingFailed {
                        message: "the stored private key is not hex text".to_owned(),
                    },
                );
            },
            Some(b) => b,
        };
        let payload = build_payload(
            keypair.public_key.as_str(),
            to_address.as_str(),
            amount,
            timestamp,
        );
        let digest = sha256_text(payload.as_str());
        let signature = match sign_digest(&digest, &sk_bytes) {
            None => {
                return Err(
                    WalletError::InvalidPrivateKey {
                        message: "the stored private key is no valid curve scalar".to_owned(),
                    },
                );
            },
            Some(s) => s,
        };
        Ok(
            SignedTransaction {
                from: keypair.public_key.clone(),
                to: to_address,
                amount,
                timestamp,
                signature,
            },
        )
    }
}

/// A transfer signed with a well-formed key pair verifies against the
/// public key the transfer itself carries: what `sign_transfer` promises
/// of its signature is enough for `verify_transfer` to accept it.
pub proof fn lemma_signed_transfer_verifies(kp: KeyPairView, t: SignedTransactionView)
    requires
        keypair_wf(kp),
        t.from == kp.public_key,
        ecdsa_verifies(
            t.signature,
            sha256_of(payload_spec(kp.public_key, t.to, t.amount as nat, t.timestamp as nat)),
            pubkey_of(hex_decode_spec(kp.private_key)),
        ),
    ensures
        transfer_verifies(t),
{
    lemma_hex_roundtrip(pubkey_of(hex_decode_spec(kp.private_key)));
}

} // verus!
