use aes_gcm::aead::{Aead, KeyInit};
use hmac::{Hmac, Mac};
use rand::RngCore;

use bpl::auth::key_wire::{decode_session_keys, encode_session_keys};
use bpl::auth::{authenticate_data, decrypt_with_channel_keys, encrypt_with_channel_keys, verify_authentication, AuthManager};
use bpl::error::ProtocolError;
use bpl::pb::{AuthChallenge, AuthMethod, AuthResponse, DeviceId, PairingRecord};

fn authenticated_manager() -> AuthManager {
    let mut auth = AuthManager::new();
    let psk = [42u8; 32];
    auth.set_psk(psk);
    let challenge = auth.generate_challenge().unwrap();
    let mut client_nonce = [0u8; 32];
    rand::thread_rng().fill_bytes(&mut client_nonce);
    let response = AuthResponse {
        method: AuthMethod::Psk,
        response: auth.compute_client_hmac(&psk, &challenge, &client_nonce).unwrap(),
        client_public_key: vec![],
        client_nonce: client_nonce.to_vec(),
        proof: vec![],
    };
    auth.verify_response(&challenge, &response).unwrap();
    auth
}

#[test]
fn test_auth_manager() {
    let mut auth = AuthManager::new();

    let psk = [42u8; 32];
    auth.set_psk(psk);

    let challenge = auth.generate_challenge().unwrap();

    let mut client_nonce = [0u8; 32];
    rand::thread_rng().fill_bytes(&mut client_nonce);

    let response = AuthResponse {
        method: AuthMethod::Psk,
        response: auth.compute_client_hmac(&psk, &challenge, &client_nonce).unwrap(),
        client_public_key: vec![],
        client_nonce: client_nonce.to_vec(),
        proof: vec![],
    };

    let success = auth.verify_response(&challenge, &response).unwrap();
    assert!(!success.key_confirmation.is_empty());
    assert_eq!(success.key_confirmation.len(), 32);

    let keys = auth.session_keys().unwrap();
    assert_ne!(keys.master_key, [0u8; 32]);
    assert_ne!(keys.encryption_key, [0u8; 32]);
    assert!(keys.channel_keys.contains_key(&0));
}

#[test]
fn test_encrypt_decrypt() {
    let auth = authenticated_manager();

    let channel_keys = auth.channel_keys(1).unwrap();

    let plaintext = b"Hello, World!";
    let (ciphertext, tag) = encrypt_with_channel_keys(plaintext, &channel_keys, 1).unwrap();

    let decrypted = decrypt_with_channel_keys(&ciphertext, &tag, &channel_keys, 1).unwrap();
    assert_eq!(decrypted, plaintext);

    let result = decrypt_with_channel_keys(&ciphertext, &tag, &channel_keys, 2);
    assert!(result.is_err());
}

#[test]
fn test_authenticate_verify() {
    let auth = authenticated_manager();
    let channel_keys = auth.channel_keys(0).unwrap();

    let data = b"Test data";
    let tag = authenticate_data(data, &channel_keys);
    assert!(verify_authentication(data, &tag, &channel_keys));

    assert!(!verify_authentication(b"Wrong data", &tag, &channel_keys));
}

#[test]
fn wrong_proof_and_missing_key_are_refused() {
    let mut auth = AuthManager::new();
    let challenge = auth.generate_challenge().unwrap();
    let response = AuthResponse {
        method: AuthMethod::Psk,
        response: vec![0u8; 32],
        client_public_key: vec![],
        client_nonce: vec![1u8; 32],
        proof: vec![],
    };
    match auth.verify_response(&challenge, &response) {
        Err(ProtocolError::AuthenticationFailed(m)) => assert_eq!(m, "PSK not configured"),
        other => panic!("unexpected {:?}", other.is_ok()),
    }
    auth.set_psk([7u8; 32]);
    match auth.verify_response(&challenge, &response) {
        Err(ProtocolError::AuthenticationFailed(m)) => assert_eq!(m, "Invalid HMAC"),
        other => panic!("unexpected {:?}", other.is_ok()),
    }
    assert!(auth.session_keys().is_none());
}

#[test]
fn challenge_shape() {
    let auth = AuthManager::new();
    let c: AuthChallenge = auth.generate_challenge().unwrap();
    assert_eq!(c.challenge.len(), 32);
    assert_eq!(c.salt.len(), 32);
    assert_eq!(c.iterations, 100_000);
    assert!(c.server_public_key.is_empty());
    assert_eq!(c.method, AuthMethod::Psk);
}

#[test]
fn every_channel_below_sixteen_has_keys() {
    let auth = authenticated_manager();
    for id in 0..16 {
        assert!(auth.channel_keys(id).is_some());
    }
    assert!(auth.channel_keys(16).is_none());
    let a = auth.channel_keys(3).unwrap();
    let b = auth.channel_keys(4).unwrap();
    assert_ne!(a.encryption_key, b.encryption_key);
}

#[test]
fn sealed_session_keys_open_back() {
    let mut auth = AuthManager::new();
    auth.set_psk([9u8; 32]);
    let challenge = auth.generate_challenge().unwrap();
    let nonce = [3u8; 32];
    let response = AuthResponse {
        method: AuthMethod::Psk,
        response: auth.compute_client_hmac(&[9u8; 32], &challenge, &nonce).unwrap(),
        client_public_key: vec![],
        client_nonce: nonce.to_vec(),
        proof: vec![],
    };
    let success = auth.verify_response(&challenge, &response).unwrap();
    let keys = success.session_keys.unwrap();
    let opened = auth.decrypt_session_keys(&success.session_keys_encrypted, &keys.master_key, &keys.iv_salt).unwrap();
    assert_eq!(opened.master_key, keys.master_key);
    assert_eq!(opened.iv_salt, keys.iv_salt);
    assert_eq!(opened.channel_keys.len(), 16);
    assert_eq!(opened.channel_keys[&5].encryption_key, keys.channel_keys[&5].encryption_key);
    let wrong = auth.decrypt_session_keys(&success.session_keys_encrypted, &[0u8; 32], &keys.iv_salt);
    assert!(matches!(wrong, Err(ProtocolError::Decryption(_))));
}

#[test]
fn key_layout_roundtrip_and_refusals() {
    let auth = authenticated_manager();
    let keys = auth.session_keys().unwrap();
    let bytes = encode_session_keys(&keys);
    assert_eq!(bytes.len(), 120 + 84 * 16);
    let back = decode_session_keys(&bytes).unwrap();
    assert_eq!(back.encryption_key, keys.encryption_key);
    assert_eq!(back.channel_keys.len(), 16);
    assert!(matches!(decode_session_keys(&bytes[..100]), Err(ProtocolError::Deserialization(_))));
    assert!(matches!(decode_session_keys(&bytes[..bytes.len() - 1]), Err(ProtocolError::Deserialization(_))));
}

#[test]
fn rotation_replaces_keys() {
    let mut auth = authenticated_manager();
    let before = auth.session_keys().unwrap();
    let rotated = auth.rotate_keys([5u8; 32]).unwrap();
    assert_eq!(rotated.master_key, [5u8; 32]);
    assert_ne!(rotated.encryption_key, before.encryption_key);
    assert_eq!(auth.session_keys().unwrap().encryption_key, rotated.encryption_key);
    auth.clear_keys();
    assert!(auth.session_keys().is_none());
}

#[test]
fn pairings_are_filed_by_device() {
    let mut auth = AuthManager::new();
    let record = |id: u8, name: &str| PairingRecord { device_id: DeviceId { value: vec![id] }, device_name: name.to_string(), paired_at: None };
    auth.add_pairing(record(1, "one"));
    auth.add_pairing(record(2, "two"));
    auth.add_pairing(record(1, "uno"));
    assert_eq!(auth.list_pairings().len(), 2);
    assert_eq!(auth.get_pairing(&[1]).unwrap().device_name, "uno");
    assert!(auth.remove_pairing(&[1]));
    assert!(!auth.remove_pairing(&[1]));
    assert!(auth.get_pairing(&[1]).is_none());
    assert_eq!(auth.list_pairings().len(), 1);
}

#[test]
fn client_proof_is_hmac_sha256_of_challenge_nonce_and_role() {
    let auth = AuthManager::new();
    let psk = [11u8; 32];
    let challenge = auth.generate_challenge().unwrap();
    let nonce = [5u8; 32];
    let proof = auth.compute_client_hmac(&psk, &challenge, &nonce).unwrap();
    let mut mac = <Hmac<sha2::Sha256> as Mac>::new_from_slice(&psk).unwrap();
    mac.update(&challenge.challenge);
    mac.update(&nonce);
    mac.update(b"client");
    assert_eq!(proof, mac.finalize().into_bytes().to_vec());
}

#[test]
fn channel_keys_come_from_hkdf_of_the_master_key() {
    let auth = authenticated_manager();
    let keys = auth.session_keys().unwrap();
    let hk = hkdf::Hkdf::<sha2::Sha256>::new(None, &keys.master_key);
    let mut enc = [0u8; 32];
    hk.expand(b"bpl-channel-3", &mut enc).unwrap();
    let mut auth_key = [0u8; 32];
    hk.expand(b"bpl-channel-3-auth", &mut auth_key).unwrap();
    let mut iv = [0u8; 16];
    hk.expand(b"bpl-channel-3-iv", &mut iv).unwrap();
    let channel = auth.channel_keys(3).unwrap();
    assert_eq!(channel.encryption_key, enc);
    assert_eq!(channel.authentication_key, auth_key);
    assert_eq!(channel.iv_salt, iv);
}

#[test]
fn channel_sealing_is_aes_256_gcm() {
    let auth = authenticated_manager();
    let channel = auth.channel_keys(2).unwrap();
    let (ciphertext, tag) = encrypt_with_channel_keys(b"payload bytes", &channel, 9).unwrap();
    assert_eq!(tag.len(), 16);
    assert_ne!(ciphertext, b"payload bytes".to_vec());
    let mut nonce = [0u8; 12];
    nonce[..8].copy_from_slice(&9u64.to_le_bytes());
    nonce[8..].copy_from_slice(&channel.iv_salt[..4]);
    let cipher = aes_gcm::Aes256Gcm::new_from_slice(&channel.encryption_key).unwrap();
    let mut sealed = ciphertext.clone();
    sealed.extend_from_slice(&tag);
    let opened = cipher.decrypt(aes_gcm::Nonce::from_slice(&nonce), sealed.as_slice()).unwrap();
    assert_eq!(opened, b"payload bytes".to_vec());
}

#[test]
fn both_ends_derive_the_same_keys() {
    let psk = [21u8; 32];
    let mut server = AuthManager::new();
    server.set_psk(psk);
    let challenge = server.generate_challenge().unwrap();
    let nonce = [8u8; 32];
    let response = AuthResponse {
        method: AuthMethod::Psk,
        response: server.compute_client_hmac(&psk, &challenge, &nonce).unwrap(),
        client_public_key: vec![],
        client_nonce: nonce.to_vec(),
        proof: vec![],
    };
    let success = server.verify_response(&challenge, &response).unwrap();
    let mut client = AuthManager::new();
    client.set_psk(psk);
    let client_keys = client.verify_server_response(&challenge, &success).unwrap();
    let server_keys = success.session_keys.unwrap();
    assert_eq!(client_keys.master_key, server_keys.master_key);
    assert_eq!(client_keys.encryption_key, server_keys.encryption_key);
    assert_eq!(client_keys.authentication_key, server_keys.authentication_key);
    assert_eq!(client_keys.iv_salt, server_keys.iv_salt);
    for id in 0..16u32 {
        assert_eq!(client_keys.channel_keys[&id].encryption_key, server_keys.channel_keys[&id].encryption_key);
    }
    assert_eq!(
        success.key_confirmation,
        server.compute_server_hmac(&psk, &challenge, &nonce).unwrap()
    );
}
