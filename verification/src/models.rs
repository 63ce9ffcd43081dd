//! The wallet data model: key pairs and the named store.
//!
//! A key pair holds its keys as lowercase hex text.  The store is a list of
//! name/key-pair entries whose names are unique; its view is the sequence of
//! entries, in insertion order, over which every contract speaks.

use vstd::prelude::*;

use crate::crypto::{is_valid_seckey, pubkey_of};
use crate::hexfmt::{hex_decode_ok, hex_decode_spec, hex_encode_spec};

verus! {

/// The mathematical value of a key pair: its two hex texts.
pub ghost struct KeyPairView {
    pub private_key: Seq<char>,
    pub public_key: Seq<char>,
}

/// A cryptographic key pair for a wallet, hex-encoded.
#[derive(Debug)]
pub struct KeyPair {
    /// The private key used for signing transactions (hex-encoded).
    pub private_key: String,
    /// The public key used as the wallet address (hex-encoded).
    pub public_key: String,
}

impl View for KeyPair {
    type V = KeyPairView;

    open spec fn view(&self) -> KeyPairView {
        KeyPairView { private_key: self.private_key@, public_key: self.public_key@ }
    }
}

impl Clone for KeyPair {
    fn clone(&self) -> (r: Self)
        ensures
            r@ == self@,
    {
        KeyPair { private_key: self.private_key.clone(), public_key: self.public_key.clone() }
    }
}

/// A well-formed key pair: the private key is the lowercase hex text of a
/// valid 32-byte curve scalar, and the public key is the lowercase hex
/// text of the compressed public key derived from it.
pub open spec fn keypair_wf(kp: KeyPairView) -> bool {
    &&& hex_decode_ok(kp.private_key)
    &&& kp.private_key == hex_encode_spec(hex_decode_spec(kp.private_key))
    &&& hex_decode_spec(kp.private_key).len() == 32
    &&& is_valid_seckey(hex_decode_spec(kp.private_key))
    &&& kp.public_key == hex_encode_spec(pubkey_of(hex_decode_spec(kp.private_key)))
}

/// The store's value: its entries, in insertion order.
pub type StoreView = Seq<(Seq<char>, KeyPairView)>;

/// Names are non-empty and unique within a store.
pub open spec fn store_wf(w: StoreView) -> bool {
    &&& forall|i: int, j: int| 0 <= i < j < w.len() ==> (#[trigger] w[i]).0 != (
    #[trigger] w[j]).0
    &&& forall|i: int| 0 <= i < w.len() ==> (#[trigger] w[i]).0.len() > 0
}

/// Whether some entry carries the name `n`.
pub open spec fn has_name(w: StoreView, n: Seq<char>) -> bool {
    exists|i: int| 0 <= i < w.len() && (#[trigger] w[i]).0 == n
}

/// The key pair of the entry named `n` (unique when the store is
/// well-formed).
pub open spec fn lookup(w: StoreView, n: Seq<char>) -> KeyPairView {
    w[choose|i: int| 0 <= i < w.len() && (#[trigger] w[i]).0 == n].1
}

/// Whether some entry's public key is exactly the text `k`.
pub open spec fn has_pubkey(w: StoreView, k: Seq<char>) -> bool {
    exists|i: int| 0 <= i < w.len() && (#[trigger] w[i]).1.public_key == k
}

/// Collection of wallets stored by name, names unique.
#[derive(Debug)]
pub struct Wallets {
    /// The stored entries, in insertion order; kept with unique names by
    /// every operation (see `Wallets::wf`).
    pub wallets: Vec<(String, KeyPair)>,
}

/// The value of a sequence of owned entries.
pub open spec fn entries_view(es: Seq<(String, KeyPair)>) -> StoreView {
    Seq::new(es.len(), |i: int| (es[i].0@, es[i].1@))
}

impl View for Wallets {
    type V = StoreView;

    open spec fn view(&self) -> StoreView {
        entries_view(self.wallets@)
    }
}

impl Wallets {
    /// The store's invariant: no two entries share a name.
    pub open spec fn wf(&self) -> bool {
        store_wf(self@)
    }

    /// An empty store.
    pub fn new() -> (r: Self)
        ensures
            r@ == Seq::<(Seq<char>, KeyPairView)>::empty(),
            r.wf(),
    {
        let r = Wallets { wallets: Vec::new() };
        proof {
            assert(r@ =~= Seq::<(Seq<char>, KeyPairView)>::empty());
        }
        r
    }
}

impl Default for Wallets {
    /// An empty store, as `load` yields when no file exists yet.
    fn default() -> (r: Self)
        ensures
            r@ == Seq::<(Seq<char>, KeyPairView)>::empty(),
            r.wf(),
    {
        Wallets::new()
    }
}

} // verus!
