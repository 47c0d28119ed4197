use heapswap::author::{LocalAuthor, RemoteAuthor};
use heapswap::keys::{KeyError, Keypair, PrivateKey, PublicKey};
use heapswap::u256::U256;

fn hex(s: &str) -> Vec<u8> {
    (0..s.len()).step_by(2).map(|i| u8::from_str_radix(&s[i..i + 2], 16).unwrap()).collect()
}

// The first test vector of RFC 8032 (Ed25519, empty message).
const SECRET: &str = "9d61b19deffd5a60ba844af492ec2cc44449c5697b326919703bac031cae7f60";
const PUBLIC: &str = "d75a980182b10ab7d54bfed3c964073a0ee172f3daa62325af021a68f707511a";
const SIGNATURE: &str = "e5564300c360ac729086e2cc806e828a84877f1eb8e5d974d873e065224901555fb8821590a33bacc61e39701cf9b46bd25bf5f0595bbe24655141438e7a100b";

#[test]
fn rfc8032_vector() {
    let private_key = PrivateKey::new(hex(SECRET)).unwrap();
    let public_key = private_key.public_key();
    assert_eq!(public_key.to_bytes(), hex(PUBLIC));
    let signature = private_key.sign(b"");
    assert_eq!(signature.to_vec(), hex(SIGNATURE));
    assert_eq!(public_key.verify(b"", &signature), Ok(true));
    assert_eq!(public_key.verify(b"x", &signature), Ok(false));
}

#[test]
fn keypair_signs_and_verifies() {
    let keypair = Keypair::random().unwrap();
    let message = b"a message";
    let signature = keypair.sign(message);
    assert_eq!(keypair.verify(message, &signature), Ok(true));
    assert_eq!(keypair.public_key().verify(message, &signature), Ok(true));
    let mut forged = signature;
    forged[0] ^= 1;
    assert_eq!(keypair.verify(message, &forged), Ok(false));
    assert_eq!(keypair.verify(message, &signature[..63]), Err(KeyError::InvalidSignature));
    assert_eq!(Keypair::random().unwrap().verify(message, &signature), Ok(false));
}

#[test]
fn shared_secret_agrees() {
    let alice = Keypair::random().unwrap();
    let bob = Keypair::random().unwrap();
    let a = alice.shared_secret(&bob.public_key());
    let b = bob.shared_secret(&alice.public_key());
    assert!(a == b);
    assert!(alice.private_key().shared_secret(&bob.public_key()) == a);
    assert!(a != alice.shared_secret(&Keypair::random().unwrap().public_key()));
}

#[test]
fn montgomery_forms_match_x25519() {
    let private_key = PrivateKey::new(hex(SECRET)).unwrap();
    let secret = x25519_dalek::StaticSecret::from(*private_key.montgomery().unpacked());
    let public = x25519_dalek::PublicKey::from(&secret);
    assert_eq!(private_key.public_key().montgomery().unpacked(), public.as_bytes());
    assert_eq!(private_key.edwards().to_bytes(), hex(SECRET));
    assert_eq!(private_key.public_key().edwards().to_bytes(), hex(PUBLIC));
}

#[test]
fn lengths_are_checked() {
    assert_eq!(PublicKey::new(vec![0u8; 31]).err(), Some(KeyError::InvalidPublicKey));
    assert_eq!(PublicKey::from_bytes(&[0u8; 33]).err(), Some(KeyError::InvalidPublicKey));
    assert_eq!(PrivateKey::new(vec![0u8; 33]).err(), Some(KeyError::InvalidPrivateKey));
    assert_eq!(PrivateKey::from_bytes(&[0u8; 3]).err(), Some(KeyError::InvalidPrivateKey));
    let k = PrivateKey::from_bytes(&[7u8; 32]).unwrap();
    assert_eq!(k.to_bytes(), vec![7u8; 32]);
    assert!(*k.u256() == U256::new([7u8; 32]));
}

#[test]
fn points_off_the_curve_are_refused() {
    // The first small y coordinate that is not that of a curve point.
    let mut bytes = [0u8; 32];
    for y in 2u8..=255 {
        bytes[0] = y;
        if ed25519_dalek::VerifyingKey::from_bytes(&bytes).is_err() {
            break;
        }
    }
    assert!(ed25519_dalek::VerifyingKey::from_bytes(&bytes).is_err());
    let not_a_point = PublicKey::from_bytes(&bytes).unwrap();
    assert!(!not_a_point.is_valid());
    assert_eq!(not_a_point.try_verify(b"m", &[0u8; 64]), Err(KeyError::FailedToDecompress));
    let me = PrivateKey::random().unwrap();
    assert_eq!(me.try_shared_secret(&not_a_point).err(), Some(KeyError::FailedToDecompress));
    let other = Keypair::random().unwrap().public_key();
    assert!(other.is_valid());
    assert!(me.try_shared_secret(&other).unwrap() == me.shared_secret(&other));
    assert_eq!(other.try_verify(b"m", &[0u8; 64]), Ok(false));
}

#[test]
fn keypair_bytes_round_trip() {
    let keypair = Keypair::random().unwrap();
    let bytes = keypair.to_bytes();
    assert_eq!(bytes.len(), 64);
    assert_eq!(&bytes[..32], &keypair.private_key().to_bytes()[..]);
    assert_eq!(&bytes[32..], &keypair.public_key().to_bytes()[..]);
    let back = Keypair::from_bytes(&bytes).unwrap();
    assert_eq!(back.to_bytes(), bytes);
    // The public half is not read: it is derived again.
    let mut altered = bytes.clone();
    altered[40] ^= 0xff;
    assert_eq!(Keypair::from_bytes(&altered).unwrap().to_bytes(), bytes);
    assert_eq!(Keypair::from_bytes(&bytes[..40]).err(), Some(KeyError::InvalidPublicKey));
}

#[test]
fn keypair_new_derives_the_public_key() {
    let private_key = PrivateKey::new(hex(SECRET)).unwrap();
    let keypair = Keypair::new(private_key).unwrap();
    assert_eq!(keypair.public_key().to_bytes(), hex(PUBLIC));
    assert_eq!(keypair.private_key().to_bytes(), hex(SECRET));
}

#[test]
fn authors() {
    let keypair = Keypair::new(PrivateKey::new(hex(SECRET)).unwrap()).unwrap();
    let local = LocalAuthor::new(keypair);
    assert_eq!(local.keypair().to_bytes(), keypair.to_bytes());
    let remote = local.to_remote_author();
    assert_eq!(remote.public_key().to_bytes(), hex(PUBLIC));
    let direct = RemoteAuthor::new(keypair.public_key());
    assert_eq!(direct.public_key().to_bytes(), remote.public_key().to_bytes());
}

#[test]
fn shared_secret_vector() {
    // RFC 8032 keys A and B, with their X25519 forms and shared secret.
    let a = PrivateKey::new(hex(SECRET)).unwrap();
    let b = PrivateKey::new(hex("4ccd089b28ff96da9db6c346ec114e0f5b8a319f35aba624da8cf6ed4fb8a6fb")).unwrap();
    assert_eq!(
        a.public_key().montgomery().to_bytes(),
        hex("d85e07ec22b0ad881537c2f44d662d1a143cf830c57aca4305d85c7a90f6b62e")
    );
    assert_eq!(
        b.public_key().montgomery().to_bytes(),
        hex("25c704c594b88afc00a76b69d1ed2b984d7e22550f3ed0802d04fbcd07d38d47")
    );
    let expected = hex("5166f24a6918368e2af831a4affadd97af0ac326bdf143596c045967cc00230e");
    assert_eq!(a.shared_secret(&b.public_key()).to_bytes(), expected);
    assert_eq!(b.shared_secret(&a.public_key()).to_bytes(), expected);
}
