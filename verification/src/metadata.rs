//! The metadata store: the immutable collection name and symbol, and the
//! per-token URI strings written at mint time.
use vstd::prelude::*;

use crate::contract::NonFungibleToken;
use crate::storage_types::{Error, TokenId};

verus! {

broadcast use vstd::std_specs::hash::group_hash_axioms;

/// A fresh vector with the same bytes.
fn copy_bytes(v: &Vec<u8>) -> (r: Vec<u8>)
    ensures
        r@ == v@,
{
    let mut r: Vec<u8> = Vec::new();
    let mut i: usize = 0;
    while i < v.len()
        invariant
            i <= v.len(),
            r@ == v@.subrange(0, i as int),
        decreases v.len() - i,
    {
        r.push(v[i]);
        proof {
            assert(v@.subrange(0, i + 1 as int) =~= v@.subrange(0, i as int).push(v@[i as int]));
        }
        i = i + 1;
    }
    proof {
        assert(r@ =~= v@);
    }
    r
}

impl NonFungibleToken {
    /// The collection name; fails before `initialize`.
    pub fn read_name(&self) -> (r: Result<Vec<u8>, Error>)
        ensures
            match r {
                Ok(n) => self.name_of() == Some(n@),
                Err(e) => self.name_of() is None && e == Error::NotInitialized,
            },
    {
        match &self.name {
            Some(n) => Ok(copy_bytes(n)),
            None => Err(Error::NotInitialized),
        }
    }

    /// Record the collection name.
    pub fn write_name(&mut self, name: Vec<u8>)
        ensures
            final(self).name_of() == Some(name@),
            *final(self) == (NonFungibleToken { name: final(self).name, ..*old(self) }),
    {
        self.name = Some(name);
    }

    /// The collection symbol; fails before `initialize`.
    pub fn read_symbol(&self) -> (r: Result<Vec<u8>, Error>)
        ensures
            match r {
                Ok(s) => self.symbol_of() == Some(s@),
                Err(e) => self.symbol_of() is None && e == Error::NotInitialized,
            },
    {
        match &self.symbol {
            Some(s) => Ok(copy_bytes(s)),
            None => Err(Error::NotInitialized),
        }
    }

    /// Record the collection symbol.
    pub fn write_symbol(&mut self, symbol: Vec<u8>)
        ensures
            final(self).symbol_of() == Some(symbol@),
            *final(self) == (NonFungibleToken { symbol: final(self).symbol, ..*old(self) }),
    {
        self.symbol = Some(symbol);
    }

    /// The URI of token `id`; fails if none was ever recorded.
    pub fn read_token_uri(&self, id: TokenId) -> (r: Result<Vec<u8>, Error>)
        ensures
            match r {
                Ok(u) => self.uri_of(id) == Some(u@),
                Err(e) => self.uri_of(id) is None && e == Error::NoSuchToken,
            },
    {
        match self.uris.get(&id) {
            Some(u) => Ok(copy_bytes(u)),
            None => Err(Error::NoSuchToken),
        }
    }

    /// Record the URI of token `id`.
    pub fn write_token_uri(&mut self, id: TokenId, uri: Vec<u8>)
        ensures
            final(self).uri_of(id) == Some(uri@),
            forall|t: TokenId| t != id ==> final(self).uri_of(t) == old(self).uri_of(t),
            *final(self) == (NonFungibleToken { uris: final(self).uris, ..*old(self) }),
    {
        self.uris.insert(id, uri);
    }
}

} // verus!
