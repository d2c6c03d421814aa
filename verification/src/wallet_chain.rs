//! The wallets a node holds, by address.

use crate::error::LedgerError;
use crate::wallet::{address_of, Wallet, WalletView};
use vstd::prelude::*;
use vstd::string::StringExecFns;

verus! {

/// Wallets by address. An address is held at most once.
pub struct WalletChain {
    addresses: Vec<String>,
    wallets: Vec<Wallet>,
}

impl WalletChain {
    /// The addresses held, in the order they were first put in.
    pub closed spec fn addresses(&self) -> Seq<Seq<char>> {
        self.addresses@.map_values(|a: String| a@)
    }

    /// The wallets held, each at the place of its address.
    pub closed spec fn wallets(&self) -> Seq<WalletView> {
        self.wallets@.map_values(|w: Wallet| w@)
    }

    /// No address is held twice, and every address has its wallet.
    pub closed spec fn wf(&self) -> bool {
        &&& self.addresses@.len() == self.wallets@.len()
        &&& forall|i: int, j: int|
            0 <= i < j < self.addresses@.len() ==> self.addresses@[i]@ != self.addresses@[j]@
    }

    /// The wallet held for `address`.
    pub open spec fn wallet_at(&self, address: Seq<char>) -> Option<WalletView> {
        if self.addresses().contains(address) {
            Some(self.wallets()[self.addresses().index_of(address)])
        } else {
            None
        }
    }

    /// A chain that holds no wallet.
    pub fn new() -> (chain: WalletChain)
        ensures
            chain.wf(),
            chain.addresses().len() == 0,
    {
        WalletChain { addresses: Vec::new(), wallets: Vec::new() }
    }

    /// Place of `address` among the addresses held.
    fn position(&self, address: &String) -> (place: Option<usize>)
        requires
            self.wf(),
        ensures
            match place {
                Some(i) => i < self.addresses().len() && self.addresses()[i as int] == address@
                    && self.addresses().index_of(address@) == i,
                None => !self.addresses().contains(address@),
            },
    {
        let mut i: usize = 0;
        while i < self.addresses.len()
            invariant
                self.wf(),
                i <= self.addresses@.len(),
                forall|k: int| 0 <= k < i ==> self.addresses@[k]@ != address@,
            decreases self.addresses@.len() - i,
        {
            if self.addresses[i] == *address {
                proof {
                    let all = self.addresses();
                    assert(all[i as int] == address@);
                    assert(all.contains(address@));
                    let at = all.index_of(address@);
                    assert(all[at] == address@);
                    assert(self.addresses@[at]@ == address@);
                    assert(self.addresses@[i as int]@ == address@);
                    assert(at == i);
                }
                return Some(i);
            }
            i = i + 1;
        }
        proof {
            let all = self.addresses();
            if all.contains(address@) {
                let k = choose|k: int| 0 <= k < all.len() && all[k] == address@;
                assert(self.addresses@[k]@ == address@);
            }
        }
        None
    }

    /// Puts `wallet` in under `address`, in place of the wallet that was held
    /// for that address if there was one.
    pub fn insert(&mut self, address: String, wallet: Wallet)
        requires
            old(self).wf(),
        ensures
            final(self).wf(),
            final(self).wallet_at(address@) == Some(wallet@),
            forall|other: Seq<char>|
                other != address@ ==> final(self).wallet_at(other) == old(self).wallet_at(other),
            final(self).addresses() == if old(self).addresses().contains(address@) {
                old(self).addresses()
            } else {
                old(self).addresses().push(address@)
            },
    {
        match self.position(&address) {
            Some(i) => {
                let ghost before = self.wallets();
                self.wallets.set(i, wallet);
                proof {
                    assert(self.wallets() =~= before.update(i as int, wallet@));
                    assert forall|other: Seq<char>| other != address@ implies final(self).wallet_at(other) == old(self).wallet_at(other) by {
                        if old(self).addresses().contains(other) {
                            let at = old(self).addresses().index_of(other);
                            assert(at != i);
                        }
                    }
                }
            },
            None => {
                let ghost before_w = self.wallets();
                let ghost before_a = self.addresses();
                self.addresses.push(address);
                self.wallets.push(wallet);
                proof {
                    let all = self.addresses();
                    assert(all =~= before_a.push(address@));
                    assert(self.wallets() =~= before_w.push(wallet@));
                    assert forall|i: int, j: int|
                        0 <= i < j < self.addresses@.len() implies self.addresses@[i]@
                        != self.addresses@[j]@ by {
                        if j == self.addresses@.len() - 1 {
                            if self.addresses@[i]@ == address@ {
                                assert(before_a[i] == address@);
                                assert(before_a.contains(address@));
                            }
                        } else {
                            assert(old(self).addresses@[i]@ != old(self).addresses@[j]@);
                        }
                    }
                    assert(all[all.len() - 1] == address@);
                    assert(all.contains(address@));
                    let at = all.index_of(address@);
                    assert(all[at] == address@);
                    if at < all.len() - 1 {
                        assert(before_a[at] == address@);
                        assert(before_a.contains(address@));
                    }
                    assert forall|other: Seq<char>| other != address@ implies final(self).wallet_at(other) == old(self).wallet_at(other) by {
                        if before_a.contains(other) {
                            let k = before_a.index_of(other);
                            assert(all[k] == other);
                            assert(all.contains(other));
                            let k2 = all.index_of(other);
                            assert(all[k2] == other);
                            assert(k2 < all.len() - 1);
                            assert(before_a[k2] == other);
                            assert(self.addresses@[k]@ == self.addresses@[k2]@);
                            assert(k == k2);
                        } else {
                            if all.contains(other) {
                                let k2 = all.index_of(other);
                                assert(all[k2] == other);
                                assert(k2 < all.len() - 1);
                                assert(before_a[k2] == other);
                            }
                        }
                    }
                }
            },
        }
    }

    /// Makes a wallet with a fresh key pair, holds it under its address and
    /// gives the address. Fails, with `Randomness`, where the system gives no
    /// random bytes; the chain is then as it was.
    pub fn create_wallet(&mut self) -> (made: Result<String, LedgerError>)
        requires
            old(self).wf(),
        ensures
            final(self).wf(),
            match made {
                Ok(address) => {
                    &&& final(self).wallet_at(address@) is Some
                    &&& address@ == address_of(final(self).wallet_at(address@).unwrap().public_key)
                    &&& forall|other: Seq<char>|
                        other != address@ ==> final(self).wallet_at(other) == old(self).wallet_at(
                            other,
                        )
                },
                Err(e) => e == LedgerError::Randomness && final(self).addresses() == old(self).addresses() && final(self).wallets() == old(self).wallets(),
            },
    {
        match Wallet::new() {
            Err(e) => Err(e),
            Ok(wallet) => {
                let address = wallet.get_address();
                self.insert(address.clone(), wallet);
                Ok(address)
            },
        }
    }

    /// The addresses held.
    pub fn get_all_address(&self) -> (addresses: Vec<String>)
        ensures
            addresses@.map_values(|a: String| a@) == self.addresses(),
    {
        let mut addresses: Vec<String> = Vec::new();
        let mut i: usize = 0;
        while i < self.addresses.len()
            invariant
                i <= self.addresses@.len(),
                addresses@.len() == i,
                forall|k: int| 0 <= k < i ==> addresses@[k]@ == self.addresses@[k]@,
            decreases self.addresses@.len() - i,
        {
            addresses.push(self.addresses[i].clone());
            i = i + 1;
        }
        assert(addresses@.map_values(|a: String| a@) =~= self.addresses());
        addresses
    }

    /// The wallet held for `address`, if there is one.
    pub fn get_wallet(&self, address: &str) -> (wallet: Option<&Wallet>)
        requires
            self.wf(),
        ensures
            match wallet {
                Some(w) => self.wallet_at(address@) == Some(w@),
                None => self.wallet_at(address@) is None,
            },
    {
        let wanted = String::from_str(address);
        match self.position(&wanted) {
            Some(i) => Some(&self.wallets[i]),
            None => None,
        }
    }
}

} // verus!
