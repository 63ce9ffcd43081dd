//! Store operations: insertion, exact lookup, listing, key generation and
//! three-tier address resolution.

use vstd::prelude::*;
use vstd::string::StringExecFns;

use crate::crypto::{generate_keypair_bytes, is_valid_pubkey, pubkey_bytes_valid};
use crate::errors::WalletError;
use crate::hexfmt::{
    hex_decode, hex_decode_ok, hex_decode_spec, hex_encode, lemma_hex_encode_len,
    lemma_hex_roundtrip,
};
use crate::models::{
    has_name, has_pubkey, keypair_wf, lookup, store_wf, KeyPair, KeyPairView, StoreView, Wallets,
};

verus! {

/// Whether the text `s` is the hex encoding of a structurally valid
/// public key, known locally or not.
pub open spec fn is_pubkey_hex(s: Seq<char>) -> bool {
    hex_decode_ok(s) && is_valid_pubkey(hex_decode_spec(s))
}

/// Three-tier resolution of a user-supplied string to an address, first
/// match wins: a wallet name known to the store; the exact public key of a
/// stored wallet; any hex text that parses as a valid public key.
pub open spec fn resolve_spec(w: StoreView, q: Seq<char>) -> Option<Seq<char>> {
    if has_name(w, q) {
        Some(lookup(w, q).public_key)
    } else if has_pubkey(w, q) {
        Some(q)
    } else if is_pubkey_hex(q) {
        Some(q)
    } else {
        None
    }
}

/// In a well-formed store the entry at `i` is what lookup by its name
/// finds.
pub proof fn lemma_lookup_at(w: StoreView, i: int)
    requires
        store_wf(w),
        0 <= i < w.len(),
    ensures
        has_name(w, w[i].0),
        lookup(w, w[i].0) == w[i].1,
{
    assert(has_name(w, w[i].0)) by {
        assert(0 <= i < w.len() && w[i].0 == w[i].0);
    }
    let j = choose|j: int| 0 <= j < w.len() && (#[trigger] w[j]).0 == w[i].0;
    if i < j {
        assert(w[i].0 != w[j].0);
    } else if j < i {
        assert(w[j].0 != w[i].0);
    }
}

impl Wallets {
    /// The position of the entry named `name`, if any.
    fn index_of_name(&self, name: &String) -> (r: Option<usize>)
        ensures
            r is Some <==> has_name(self@, name@),
            r is Some ==> 0 <= r->0 < self@.len() && self@[r->0 as int].0 == name@,
    {
        let n = self.wallets.len();
        let mut i: usize = 0;
        while i < n
            invariant
                n == self.wallets.len(),
                i <= n,
                forall|k: int| 0 <= k < i ==> (#[trigger] self@[k]).0 != name@,
            decreases n - i,
        {
            if self.wallets[i].0 == *name {
                proof {
                    assert(0 <= i < self@.len() && self@[i as int].0 == name@);
                }
                return Some(i);
            }
            proof {
                assert(self@[i as int].0 != name@);
            }
            i += 1;
        }
        None
    }

    /// Exact lookup by wallet name; no resolution.
    pub fn get_wallet(&self, name: &str) -> (r: Option<&KeyPair>)
        requires
            self.wf(),
        ensures
            r is Some <==> has_name(self@, name@),
            r is Some ==> r->0@ == lookup(self@, name@),
    {
        let owned: String = name.to_owned();
        match self.index_of_name(&owned) {
            Some(i) => {
                proof {
                    lemma_lookup_at(self@, i as int);
                }
                Some(&self.wallets[i].1)
            }
            None => None,
        }
    }

    /// Inserts a new wallet under `name`.  Fails, and leaves the store
    /// unchanged, when the name is empty or already taken.
    pub fn add_wallet(&mut self, name: &str, keypair: KeyPair) -> (r: Result<(), WalletError>)
        requires
            old(self).wf(),
        ensures
            final(self).wf(),
            name@.len() == 0 ==> {
                &&& r matches Err(WalletError::NameInvalid(n)) && n@ == name@
                &&& final(self)@ == old(self)@
            },
            name@.len() > 0 && has_name(old(self)@, name@) ==> {
                &&& r matches Err(WalletError::WalletExists(n)) && n@ == name@
                &&& final(self)@ == old(self)@
            },
            name@.len() > 0 && !has_name(old(self)@, name@) ==> {
                &&& r is Ok
                &&& final(self)@ == old(self)@.push((name@, keypair@))
            },
    {
        let owned: String = name.to_owned();
        if name.is_empty() {
            return Err(WalletError::NameInvalid(owned));
        }
        if self.index_of_name(&owned).is_some() {
            return Err(WalletError::WalletExists(owned));
        }
        let ghost pre = self@;
        self.wallets.push((owned, keypair));
        proof {
            assert(self@ =~= pre.push((name@, keypair@)));
            assert forall|i: int, j: int| 0 <= i < j < self@.len() implies (#[trigger] self@[i]).0
                != (#[trigger] self@[j]).0 by {
                if j == self@.len() - 1 {
                    assert(self@[i].0 == pre[i].0);
                }
            }
            assert forall|i: int| 0 <= i < self@.len() implies (#[trigger] self@[i]).0.len()
                > 0 by {
                if i < self@.len() - 1 {
                    assert(self@[i].0 == pre[i].0);
                }
            }
        }
        Ok(())
    }

    /// Generates a fresh key pair and stores it under `name`.  Fails, and
    /// leaves the store unchanged, when the name is empty or already
    /// taken; the new entry otherwise carries a well-formed key pair: a
    /// 64-digit lowercase private key and the 66-digit compressed public
    /// key derived from it.
    pub fn create_wallet(&mut self, name: &str) -> (r: Result<(), WalletError>)
        requires
            old(self).wf(),
        ensures
            final(self).wf(),
            name@.len() == 0 ==> {
                &&& r matches Err(WalletError::NameInvalid(n)) && n@ == name@
                &&& final(self)@ == old(self)@
            },
            name@.len() > 0 && has_name(old(self)@, name@) ==> {
                &&& r matches Err(WalletError::WalletExists(n)) && n@ == name@
                &&& final(self)@ == old(self)@
            },
            name@.len() > 0 && !has_name(old(self)@, name@) ==> {
                &&& r is Ok
                &&& final(self)@.len() == old(self)@.len() + 1
                &&& final(self)@.subrange(0, old(self)@.len() as int) == old(self)@
                &&& final(self)@.last().0 == name@
                &&& keypair_wf(final(self)@.last().1)
                &&& final(self)@.last().1.private_key.len() == 64
                &&& final(self)@.last().1.public_key.len() == 66
            },
    {
        let owned: String = name.to_owned();
        if name.is_empty() {
            return Err(WalletError::NameInvalid(owned));
        }
        if self.index_of_name(&owned).is_some() {
            return Err(WalletError::WalletExists(owned));
        }
        let (sk_bytes, pk_bytes) = generate_keypair_bytes();
        let keypair = KeyPair {
            private_key: hex_encode(&sk_bytes),
            public_key: hex_encode(&pk_bytes),
        };
        proof {
            lemma_hex_roundtrip(sk_bytes@);
            lemma_hex_encode_len(sk_bytes@);
            lemma_hex_encode_len(pk_bytes@);
        }
        let ghost pre = self@;
        self.wallets.push((owned, keypair));
        proof {
            assert(self@ =~= pre.push((name@, keypair@)));
            assert(self@.subrange(0, pre.len() as int) =~= pre);
            assert forall|i: int, j: int| 0 <= i < j < self@.len() implies (#[trigger] self@[i]).0
                != (#[trigger] self@[j]).0 by {
                if j == self@.len() - 1 {
                    assert(self@[i].0 == pre[i].0);
                }
            }
            assert forall|i: int| 0 <= i < self@.len() implies (#[trigger] self@[i]).0.len()
                > 0 by {
                if i < self@.len() - 1 {
                    assert(self@[i].0 == pre[i].0);
                }
            }
        }
        Ok(())
    }

    /// Resolves a wallet name or public key to an address, by the three
    /// tiers of `resolve_spec` in order.  The order matters: a wallet named
    /// like some foreign public key resolves to the local wallet's key.
    pub fn resolve_address(&self, name_or_key: &str) -> (r: Option<String>)
        requires
            self.wf(),
        ensures
            r is Some <==> resolve_spec(self@, name_or_key@) is Some,
            r is Some ==> r->0@ == resolve_spec(self@, name_or_key@)->0,
    {
        let owned: String = name_or_key.to_owned();
        // Tier 1: a wallet name we know.
        if let Some(i) = self.index_of_name(&owned) {
            proof {
                lemma_lookup_at(self@, i as int);
            }
            return Some(self.wallets[i].1.public_key.clone());
        }
        // Tier 2: the public key of a wallet stored with us.
        let n = self.wallets.len();
        let mut i: usize = 0;
        while i < n
            invariant
                self.wf(),
                n == self.wallets.len(),
                i <= n,
                owned@ == name_or_key@,
                !has_name(self@, name_or_key@),
                forall|k: int| 0 <= k < i ==> (#[trigger] self@[k]).1.public_key
                    != name_or_key@,
            decreases n - i,
        {
            if self.wallets[i].1.public_key == owned {
                proof {
                    assert(0 <= i < self@.len() && self@[i as int].1.public_key
                        == name_or_key@);
                }
                return Some(owned);
            }
            proof {
                assert(self@[i as int].1.public_key != name_or_key@);
            }
            i += 1;
        }
        // Tier 3: any structurally valid public key.
        match hex_decode(name_or_key) {
            Some(bytes) => {
                if pubkey_bytes_valid(&bytes) {
                    Some(owned)
                } else {
                    None
                }
            }
            None => None,
        }
    }

    /// Every stored wallet, as owned name/key-pair copies, in store order.
    pub fn list_wallets(&self) -> (r: Vec<(String, KeyPair)>)
        ensures
            r@.len() == self@.len(),
            forall|i: int| 0 <= i < r@.len() ==> ((#[trigger] r@[i]).0@, r@[i].1@) == self@[i],
    {
        let n = self.wallets.len();
        let mut out: Vec<(String, KeyPair)> = Vec::new();
        let mut i: usize = 0;
        while i < n
            invariant
                n == self.wallets.len(),
                i <= n,
                out@.len() == i,
                forall|k: int| 0 <= k < i ==> ((#[trigger] out@[k]).0@, out@[k].1@) == self@[k],
            decreases n - i,
        {
            out.push((self.wallets[i].0.clone(), self.wallets[i].1.clone()));
            i += 1;
        }
        out
    }
}

/// For every stored wallet whose public key is not itself in use as a
/// wallet name, resolving the wallet's name and resolving its public key
/// yield the same address.
pub proof fn lemma_resolve_name_and_key_agree(w: StoreView, i: int)
    requires
        store_wf(w),
        0 <= i < w.len(),
        has_name(w, w[i].1.public_key) ==> lookup(w, w[i].1.public_key).public_key == w[
            i].1.public_key,
    ensures
        resolve_spec(w, w[i].0) == Some(w[i].1.public_key),
        resolve_spec(w, w[i].1.public_key) == Some(w[i].1.public_key),
{
    lemma_lookup_at(w, i);
    if !has_name(w, w[i].1.public_key) {
        assert(has_pubkey(w, w[i].1.public_key)) by {
            assert(0 <= i < w.len() && w[i].1.public_key == w[i].1.public_key);
        }
    }
}

} // verus!
