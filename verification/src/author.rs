//! Authors of entries: a remote author is known by its public key, a local
//! author holds its whole key pair.
use vstd::prelude::*;
use crate::keys::{Keypair, PublicKey};

verus! {

/// An author known by its public key.
#[derive(Debug, Clone, Copy)]
pub struct RemoteAuthor {
    public_key: PublicKey,
}

impl View for RemoteAuthor {
    /// The bytes of the author's public key.
    type V = Seq<u8>;

    closed spec fn view(&self) -> Seq<u8> {
        self.public_key@
    }
}

impl RemoteAuthor {
    pub fn new(public_key: PublicKey) -> (r: RemoteAuthor)
        ensures
            r@ == public_key@,
    {
        RemoteAuthor { public_key }
    }

    pub fn public_key(&self) -> (r: &PublicKey)
        ensures
            r@ == self@,
    {
        &self.public_key
    }
}

/// The author on this node, which can sign.
#[derive(Debug, Clone, Copy)]
pub struct LocalAuthor {
    keypair: Keypair,
}

impl View for LocalAuthor {
    /// The author's secret and public key.
    type V = (Seq<u8>, Seq<u8>);

    closed spec fn view(&self) -> (Seq<u8>, Seq<u8>) {
        self.keypair@
    }
}

impl LocalAuthor {
    pub fn new(keypair: Keypair) -> (r: LocalAuthor)
        ensures
            r@ == keypair@,
    {
        LocalAuthor { keypair }
    }

    pub fn keypair(&self) -> (r: &Keypair)
        ensures
            r@ == self@,
    {
        &self.keypair
    }

    /// The same author as seen by others: by its public key.
    pub fn to_remote_author(&self) -> (r: RemoteAuthor)
        ensures
            r@ == self@.1,
    {
        RemoteAuthor::new(self.keypair.public_key())
    }
}

} // verus!
