use iroh_git::error::Failure;
use iroh_git::identity::{key_path, mint_seed, read_seed, seed_of, wipe_seed, Role};
use iroh_git::node::NodeId;
use iroh_git::paths::PathStyle;

#[test]
fn each_role_has_its_own_key_file() {
    assert_eq!(Role::Server.filename(), "server.key");
    assert_eq!(Role::Client.filename(), "client.key");
    assert_eq!(key_path(PathStyle::Unix, "/c", Role::Client), "/c/client.key");
    assert_eq!(key_path(PathStyle::Windows, "C:\\c\\", Role::Server), "C:\\c\\server.key");
}

#[test]
fn a_seed_is_taken_out_of_its_file_and_the_bytes_are_wiped() {
    let mut bytes = (0u8..32).collect::<Vec<u8>>();
    let mut seed = read_seed("/c/client.key", &mut bytes).unwrap();
    assert!(bytes.is_empty());
    assert_eq!(seed[31], 31);
    wipe_seed(&mut seed);
    assert_eq!(seed, [0; 32]);

    let mut bytes = vec![1u8; 31];
    let e = read_seed("/c/client.key", &mut bytes).unwrap_err();
    assert_eq!(e, Failure::KeyLength { path: "/c/client.key".to_string() });
    assert_eq!(e.message(), "key /c/client.key is not 32 bytes");
    assert!(bytes.is_empty());
}

#[test]
fn minted_seeds_differ() {
    assert_ne!(mint_seed().unwrap(), mint_seed().unwrap());
}

#[test]
fn a_seed_is_what_was_drawn_for_it() {
    assert_eq!(seed_of(Ok([9; 32])), Ok([9; 32]));
    let e = seed_of(Err("out of luck".to_string())).unwrap_err();
    assert_eq!(e, Failure::NoRandomKey { cause: "out of luck".to_string() });
    assert_eq!(e.message(), "gathering randomness for a new key: out of luck");
}

#[test]
fn a_node_id_is_the_public_key_of_its_seed() {
    let id = NodeId::of_seed(&[7; 32]);
    let key = iroh::SecretKey::from_bytes(&[7; 32]).public();
    assert_eq!(id.as_bytes(), key.as_bytes());
    assert_eq!(id.to_text(), key.to_string());
    assert_eq!(id.short_text(), key.fmt_short().to_string());
    assert_eq!(NodeId::parse(&id.to_text()), Ok(id));
    assert_eq!(NodeId::from_bytes(key.as_bytes()), Ok(id));
    let mut junk = [0u8; 32];
    junk[0] = 2;
    assert_eq!(NodeId::from_bytes(&junk), Err("data is not a valid public key".to_string()));
    assert!(id.same(&NodeId::of_seed(&[7; 32])));
    assert!(!id.same(&NodeId::of_seed(&[8; 32])));
}
