//! The local client keypair cache: paths under the caller's home, the
//! regeneration decision, and the public-key line handed to the remote
//! bootstrap.

use crate::strutil::{trim_spec, trim_str};
use vstd::prelude::*;

verus! {

/// The client keypair: what the bootstrap needs from it is the public-key
/// line, trimmed.
pub struct LocalKey {
    pub public_key: String,
}

/// The cache directory under a home directory.
pub fn key_cache_dir(home: &str) -> (r: String)
    ensures
        r@ == home@ + ("/.cache/sshpod")@,
{
    let mut r = home.to_owned();
    r.append("/.cache/sshpod");
    r
}

/// The private key file under the cache directory.
pub fn private_key_path(cache_dir: &str) -> (r: String)
    ensures
        r@ == cache_dir@ + ("/id_ed25519")@,
{
    let mut r = cache_dir.to_owned();
    r.append("/id_ed25519");
    r
}

/// The public key file under the cache directory.
pub fn public_key_path(cache_dir: &str) -> (r: String)
    ensures
        r@ == cache_dir@ + ("/id_ed25519.pub")@,
{
    let mut r = cache_dir.to_owned();
    r.append("/id_ed25519.pub");
    r
}

/// The keypair is regenerated when either half is missing.
pub fn need_keygen(private_exists: bool, public_exists: bool) -> (r: bool)
    ensures
        r == !(private_exists && public_exists),
{
    !private_exists || !public_exists
}

/// Build the key from the public key file's contents, trimmed.
pub fn local_key_from_file(contents: &str) -> (r: LocalKey)
    ensures
        r.public_key@ == trim_spec(contents@),
{
    LocalKey { public_key: trim_str(contents) }
}

} // verus!
