//! Persistent iroh identities.
//!
//! A machine keeps two stable keys so that its server role and client role can be online at the same
//! time without two endpoints claiming one NODE_ID:
//!
//! - [`Role::Server`] (`server.key`) - used by the daemon; its NODE_ID is embedded in the tickets you
//!   hand out.
//! - [`Role::Client`] (`client.key`) - used when dialing, and printed by `git iroh show-id`. This is
//!   the NODE_ID that a repository owner grants.

use crate::error::Failure;
use crate::paths::{join, joined, PathStyle};
use crate::random::draw;
use vstd::prelude::*;
use zeroize::Zeroize;

verus! {

/// Which persistent identity to load.
#[derive(Clone, Copy, Debug, PartialEq, Eq, Structural)]
pub enum Role {
    /// The daemon's serving identity; appears in tickets.
    Server,
    /// The dialing identity; what `show-id` prints and an owner grants.
    Client,
}

impl Role {
    /// The name of the file that holds the key.
    pub open spec fn file(self) -> Seq<char> {
        match self {
            Role::Server => "server.key"@,
            Role::Client => "client.key"@,
        }
    }

    /// The name of the file that holds the key.
    pub fn filename(self) -> (r: &'static str)
        ensures
            r@ == self.file(),
    {
        match self {
            Role::Server => "server.key",
            Role::Client => "client.key",
        }
    }
}

/// The two roles keep their keys in different files.
pub proof fn roles_have_their_own_files()
    ensures
        Role::Server.file() != Role::Client.file(),
{
    reveal_strlit("server.key");
    reveal_strlit("client.key");
    assert("server.key"@[0] != "client.key"@[0]);
}

/// Path of the key file for `role` in the configuration directory.
pub fn key_path(style: PathStyle, config_dir: &str, role: Role) -> (r: String)
    ensures
        r@ == joined(style, config_dir@, role.file()),
{
    proof {
        reveal_strlit("server.key");
        reveal_strlit("client.key");
    }
    join(style, config_dir, role.filename())
}

/// `zeroize` of a `Vec<u8>`: overwrites its bytes and empties it.
#[verifier::external_body]
fn wipe_bytes(bytes: &mut Vec<u8>)
    ensures
        final(bytes)@ == Seq::<u8>::empty(),
{
    bytes.zeroize()
}

/// `zeroize` of a byte array: overwrites every byte with zero.
#[verifier::external_body]
fn wipe_array(bytes: &mut [u8; 32])
    ensures
        forall|i: int| 0 <= i < 32 ==> #[trigger] final(bytes)@[i] == 0,
{
    bytes.zeroize()
}

/// Overwrite a key's seed with zeros, once the live key holds it.
pub fn wipe_seed(seed: &mut [u8; 32])
    ensures
        forall|i: int| 0 <= i < 32 ==> #[trigger] final(seed)@[i] == 0,
{
    wipe_array(seed)
}

/// Take a key's seed out of the bytes of the key file at `path`. The bytes are wiped, also where
/// they are not a seed.
pub fn read_seed(path: &str, bytes: &mut Vec<u8>) -> (r: Result<[u8; 32], Failure>)
    ensures
        final(bytes)@ == Seq::<u8>::empty(),
        if old(bytes)@.len() == 32 {
            r matches Ok(seed) && seed@ == old(bytes)@
        } else {
            r matches Err(Failure::KeyLength { path: p }) && p@ == path@
        },
{
    if bytes.len() != 32 {
        wipe_bytes(bytes);
        return Err(Failure::KeyLength { path: path.to_owned() });
    }
    let mut seed = [0u8; 32];
    let mut i: usize = 0;
    while i < 32
        invariant
            i <= 32,
            bytes@ == old(bytes)@,
            bytes@.len() == 32,
            forall|j: int| 0 <= j < i ==> seed@[j] == bytes@[j],
        decreases 32 - i,
    {
        seed[i] = bytes[i];
        i = i + 1;
    }
    assert(seed@ =~= bytes@);
    wipe_bytes(bytes);
    Ok(seed)
}

/// A fresh seed for a new key. Nothing is promised of its bytes, which the system draws.
pub fn mint_seed() -> (r: Result<[u8; 32], Failure>)
    ensures
        r matches Err(e) ==> e is NoRandomKey,
{
    seed_of(draw::<32>())
}

/// The seed that the random bytes are which were drawn for it, or why there is none.
pub fn seed_of(drawn: Result<[u8; 32], String>) -> (r: Result<[u8; 32], Failure>)
    ensures
        r == match drawn {
            Ok(seed) => Ok(seed),
            Err(cause) => Err(Failure::NoRandomKey { cause }),
        },
{
    match drawn {
        Ok(seed) => Ok(seed),
        Err(cause) => Err(Failure::NoRandomKey { cause }),
    }
}

/// The daemon's key lies in `server.key` and the client's in `client.key`, in the configuration directory.
pub proof fn keys_lie_in_the_configuration_directory(dir: &str, server: String, client: String)
    requires
        call_ensures(key_path, (PathStyle::Unix, dir, Role::Server), server),
        call_ensures(key_path, (PathStyle::Unix, dir, Role::Client), client),
        dir@.len() > 0,
        dir@.last() != '/',
    ensures
        server@ == dir@ + "/server.key"@,
        client@ == dir@ + "/client.key"@,
{
    reveal_strlit("/");
    reveal_strlit("server.key");
    reveal_strlit("client.key");
    reveal_strlit("/server.key");
    reveal_strlit("/client.key");
    assert(dir@ + "/"@ + "server.key"@ =~= dir@ + "/server.key"@);
    assert(dir@ + "/"@ + "client.key"@ =~= dir@ + "/client.key"@);
}

/// A key is what its file holds, if that is 32 bytes, and the bytes that were read are gone either way.
pub proof fn keys_are_read_and_wiped(path: &str, bytes: &mut Vec<u8>, seed: Result<[u8; 32], Failure>)
    requires
        call_ensures(read_seed, (path, bytes), seed),
    ensures
        final(bytes)@.len() == 0,
        seed is Ok <==> old(bytes)@.len() == 32,
        seed matches Ok(s) ==> s@ == old(bytes)@,
{
}

} // verus!
