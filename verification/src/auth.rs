//! Authentication and key derivation.
//!
//! Pre-shared-key mutual authentication: the peers prove knowledge of the key
//! with HMACs over the challenge, then derive the session keys, and a key per
//! channel, with HKDF. Channel payloads are sealed with AES-256-GCM under a
//! nonce made of the frame sequence number and the channel's IV salt.

pub mod key_wire;


use vstd::prelude::*;

use std::collections::HashMap;
use vstd::string::StringSliceAdditionalSpecFns;

use crate::crypto::{
    aes256_gcm_decrypt, aes256_gcm_encrypt, aes256_gcm_seal, ct_eq_bytes, fill_random, hkdf_sha256,
    hkdf_sha256_okm, hmac_sha256, hmac_sha256_tag, ok_bytes, AEAD_MAX_PLAINTEXT,
    AEAD_TAG_LEN,
};
use crate::error::ProtocolError;
use crate::frame::{append_bytes, copy_range};
use crate::le_bytes::{le_u64, put_u64_le};
use crate::pb::{clone_bytes, AuthChallenge, AuthMethod, AuthResponse, PairingRecord, PairingRecordView};
use crate::search::{first_where, lemma_first_where, lemma_first_where_congruent, lemma_first_where_extend, lemma_first_where_step};
use key_wire::{CHANNEL_ENTRY_LEN, KEYS_HEADER_LEN, decode_session_keys, encode_session_keys, enumerates, key_layout, lemma_key_layout_len, lemma_key_layout_roundtrip, session_keys_sized, spec_decode_keys};

verus! {

broadcast use {vstd::std_specs::hash::group_hash_axioms, vstd::string::group_string_axioms};

/// Number of channels that receive derived keys (channels 0 to 15).
pub const KEYED_CHANNELS: u32 = 16;

/// Keys of one channel.
#[derive(Debug, Clone, Copy)]
pub struct ChannelKeys {
    pub encryption_key: [u8; 32],
    pub authentication_key: [u8; 32],
    pub iv_salt: [u8; 16],
}

/// The mathematical value of a channel's keys.
pub struct ChannelKeysView {
    pub encryption_key: Seq<u8>,
    pub authentication_key: Seq<u8>,
    pub iv_salt: Seq<u8>,
}

impl View for ChannelKeys {
    type V = ChannelKeysView;

    open spec fn view(&self) -> ChannelKeysView {
        ChannelKeysView {
            encryption_key: self.encryption_key@,
            authentication_key: self.authentication_key@,
            iv_salt: self.iv_salt@,
        }
    }
}

impl Default for ChannelKeys {
    fn default() -> (r: Self)
        ensures
            r.encryption_key@ == Seq::new(32, |i: int| 0u8),
            r.authentication_key@ == Seq::new(32, |i: int| 0u8),
            r.iv_salt@ == Seq::new(16, |i: int| 0u8),
    {
        let r = ChannelKeys { encryption_key: [0u8; 32], authentication_key: [0u8; 32], iv_salt: [0u8; 16] };
        assert(r.encryption_key@ =~= Seq::new(32, |i: int| 0u8));
        assert(r.authentication_key@ =~= Seq::new(32, |i: int| 0u8));
        assert(r.iv_salt@ =~= Seq::new(16, |i: int| 0u8));
        r
    }
}

/// Key material of a session.
#[derive(Debug)]
pub struct SessionKeys {
    pub master_key: [u8; 32],
    pub encryption_key: [u8; 32],
    pub authentication_key: [u8; 32],
    pub iv_salt: [u8; 16],
    pub channel_keys: HashMap<u32, ChannelKeys>,
}

/// The mathematical value of session key material.
pub struct SessionKeysView {
    pub master_key: Seq<u8>,
    pub encryption_key: Seq<u8>,
    pub authentication_key: Seq<u8>,
    pub iv_salt: Seq<u8>,
    pub channel_keys: Map<u32, ChannelKeysView>,
}

impl View for SessionKeys {
    type V = SessionKeysView;

    open spec fn view(&self) -> SessionKeysView {
        SessionKeysView {
            master_key: self.master_key@,
            encryption_key: self.encryption_key@,
            authentication_key: self.authentication_key@,
            iv_salt: self.iv_salt@,
            channel_keys: self.channel_keys@.map_values(|c: ChannelKeys| c@),
        }
    }
}

impl Clone for SessionKeys {
    fn clone(&self) -> (r: Self)
        ensures
            r@ == self@,
    {
        SessionKeys {
            master_key: self.master_key,
            encryption_key: self.encryption_key,
            authentication_key: self.authentication_key,
            iv_salt: self.iv_salt,
            channel_keys: self.channel_keys.clone(),
        }
    }
}

impl Default for SessionKeys {
    fn default() -> (r: Self)
        ensures
            r.master_key@ == Seq::new(32, |i: int| 0u8),
            r.encryption_key@ == Seq::new(32, |i: int| 0u8),
            r.authentication_key@ == Seq::new(32, |i: int| 0u8),
            r.iv_salt@ == Seq::new(16, |i: int| 0u8),
            r.channel_keys@ == Map::<u32, ChannelKeys>::empty(),
            r@.channel_keys == Map::<u32, ChannelKeysView>::empty(),
    {
        let r = SessionKeys {
            master_key: [0u8; 32],
            encryption_key: [0u8; 32],
            authentication_key: [0u8; 32],
            iv_salt: [0u8; 16],
            channel_keys: HashMap::new(),
        };
        assert(r.master_key@ =~= Seq::new(32, |i: int| 0u8));
        assert(r.encryption_key@ =~= Seq::new(32, |i: int| 0u8));
        assert(r.authentication_key@ =~= Seq::new(32, |i: int| 0u8));
        assert(r.iv_salt@ =~= Seq::new(16, |i: int| 0u8));
        assert(r@.channel_keys =~= Map::<u32, ChannelKeysView>::empty());
        r
    }
}

/// ASCII decimal digits of `n`, most significant first, without leading zeros.
pub open spec fn decimal_digits(n: nat) -> Seq<u8>
    decreases n,
{
    if n < 10 {
        seq![(48 + n) as u8]
    } else {
        decimal_digits(n / 10).push((48 + n % 10) as u8)
    }
}

/// Appends the decimal digits of `n` to `out`.
pub fn push_decimal(out: &mut Vec<u8>, n: u32)
    ensures
        final(out)@ == old(out)@ + decimal_digits(n as nat),
    decreases n,
{
    if n >= 10 {
        push_decimal(out, n / 10);
    }
    let d: u8 = (n % 10) as u8;
    out.push(48 + d);
    proof {
        if n >= 10 {
            assert(old(out)@ + decimal_digits(n as nat) =~= old(out)@ + decimal_digits((n / 10) as nat) + seq![(48 + n % 10) as u8]);
        }
    }
}

/// HKDF info of the master key.
pub open spec fn master_info() -> Seq<u8> {
    "bpl-master".spec_bytes()
}

/// HKDF info of a session's encryption key.
pub open spec fn encryption_info() -> Seq<u8> {
    "bpl-enc".spec_bytes()
}

/// HKDF info of a session's authentication key.
pub open spec fn authentication_info() -> Seq<u8> {
    "bpl-auth".spec_bytes()
}

/// HKDF info of a session's IV salt.
pub open spec fn iv_info() -> Seq<u8> {
    "bpl-iv".spec_bytes()
}

/// HKDF info of a channel's encryption key: `bpl-channel-` and the channel number in decimal.
pub open spec fn channel_info(channel_id: u32) -> Seq<u8> {
    "bpl-channel-".spec_bytes() + decimal_digits(channel_id as nat)
}

/// HKDF info of a channel's authentication key.
pub open spec fn channel_auth_info(channel_id: u32) -> Seq<u8> {
    channel_info(channel_id) + "-auth".spec_bytes()
}

/// HKDF info of a channel's IV salt.
pub open spec fn channel_iv_info(channel_id: u32) -> Seq<u8> {
    channel_info(channel_id) + "-iv".spec_bytes()
}

/// The keys of channel `channel_id` under `master`.
pub open spec fn channel_keys_derived(c: ChannelKeysView, master: Seq<u8>, channel_id: u32) -> bool {
    &&& c.encryption_key == hkdf_sha256_okm(None, master, channel_info(channel_id), 32)
    &&& c.authentication_key == hkdf_sha256_okm(None, master, channel_auth_info(channel_id), 32)
    &&& c.iv_salt == hkdf_sha256_okm(None, master, channel_iv_info(channel_id), 16)
}

/// A channel table holding the derived keys of channels 0 to 15, and no others.
pub open spec fn channel_table_derived(m: Map<u32, ChannelKeysView>, master: Seq<u8>) -> bool {
    &&& m.dom().len() == KEYED_CHANNELS
    &&& forall|id: u32| #[trigger] m.contains_key(id) <==> id < KEYED_CHANNELS
    &&& forall|id: u32| id < KEYED_CHANNELS ==> channel_keys_derived(#[trigger] m[id], master, id)
}

/// The master key a session derives from the pre-shared key and the challenge salt.
pub open spec fn session_master_key(psk: Seq<u8>, salt: Seq<u8>) -> Seq<u8> {
    hkdf_sha256_okm(Some(salt), psk, master_info(), 32)
}

/// Session keys derived at authentication: the master key from the pre-shared
/// key and the challenge salt, each other key with the master key as salt.
pub open spec fn session_keys_derived(k: SessionKeysView, psk: Seq<u8>, salt: Seq<u8>) -> bool {
    let master = session_master_key(psk, salt);
    &&& k.master_key == master
    &&& k.encryption_key == hkdf_sha256_okm(Some(master), seq![], encryption_info(), 32)
    &&& k.authentication_key == hkdf_sha256_okm(Some(master), seq![], authentication_info(), 32)
    &&& k.iv_salt == hkdf_sha256_okm(Some(master), seq![], iv_info(), 16)
    &&& channel_table_derived(k.channel_keys, master)
}

/// Session keys derived on rotation: each key with the new master key as input key material.
pub open spec fn rotated_keys_derived(k: SessionKeysView, master: Seq<u8>) -> bool {
    &&& k.master_key == master
    &&& k.encryption_key == hkdf_sha256_okm(None, master, encryption_info(), 32)
    &&& k.authentication_key == hkdf_sha256_okm(None, master, authentication_info(), 32)
    &&& k.iv_salt == hkdf_sha256_okm(None, master, iv_info(), 16)
    &&& channel_table_derived(k.channel_keys, master)
}

/// The HKDF info of channel `channel_id`, followed by `suffix`.
fn channel_label(channel_id: u32, suffix: &str) -> (r: Vec<u8>)
    ensures
        r@ == channel_info(channel_id) + suffix.spec_bytes(),
{
    let mut r: Vec<u8> = Vec::new();
    append_bytes(&mut r, "bpl-channel-".as_bytes());
    push_decimal(&mut r, channel_id);
    append_bytes(&mut r, suffix.as_bytes());
    r
}

/// Derives the keys of channel `channel_id` from `master_key`.
fn derive_channel_keys(master_key: &[u8; 32], channel_id: u32) -> (r: ChannelKeys)
    ensures
        channel_keys_derived(r@, master_key@, channel_id),
{
    let info = channel_label(channel_id, "");
    let auth_info = channel_label(channel_id, "-auth");
    let iv_info = channel_label(channel_id, "-iv");
    assert(info@ =~= channel_info(channel_id)) by {
        reveal_strlit("");
    }
    let encryption_key: [u8; 32] = hkdf_sha256(None, master_key, info.as_slice());
    let authentication_key: [u8; 32] = hkdf_sha256(None, master_key, auth_info.as_slice());
    let iv_salt: [u8; 16] = hkdf_sha256(None, master_key, iv_info.as_slice());
    ChannelKeys { encryption_key, authentication_key, iv_salt }
}

/// Fills the channel table with the keys of channels 0 to 15 under `master_key`.
fn derive_channel_table(master_key: &[u8; 32]) -> (r: HashMap<u32, ChannelKeys>)
    ensures
        channel_table_derived(r@.map_values(|c: ChannelKeys| c@), master_key@),
{
    let mut table: HashMap<u32, ChannelKeys> = HashMap::new();
    let mut id: u32 = 0;
    while id < KEYED_CHANNELS
        invariant
            id <= KEYED_CHANNELS,
            forall|c: u32| #[trigger] table@.contains_key(c) <==> c < id,
            forall|c: u32| c < id ==> channel_keys_derived((#[trigger] table@[c])@, master_key@, c),
            table@.dom().finite(),
            table@.dom().len() == id,
        decreases KEYED_CHANNELS - id,
    {
        let keys = derive_channel_keys(master_key, id);
        let ghost d0 = table@.dom();
        assert(!d0.contains(id));
        table.insert(id, keys);
        assert(table@.dom() =~= d0.insert(id));
        id = id + 1;
    }
    assert(table@.map_values(|c: ChannelKeys| c@).dom() =~= table@.dom());
    assert(channel_table_derived(table@.map_values(|c: ChannelKeys| c@), master_key@));
    table
}

/// The bytes the client's proof covers: the challenge, the client nonce, then `client`.
pub open spec fn client_proof_message(challenge: Seq<u8>, client_nonce: Seq<u8>) -> Seq<u8> {
    challenge + client_nonce + "client".spec_bytes()
}

/// The bytes the server's key confirmation covers: the challenge, the client nonce, then `server`.
pub open spec fn server_proof_message(challenge: Seq<u8>, client_nonce: Seq<u8>) -> Seq<u8> {
    challenge + client_nonce + "server".spec_bytes()
}

/// The nonce under which session key material travels: the first twelve bytes of the IV salt.
pub open spec fn key_transport_nonce(iv_salt: Seq<u8>) -> Seq<u8> {
    iv_salt.take(12)
}

/// `sealed` carries the key material `keys`, sealed under `master_key` and the
/// transport nonce of `iv_salt`.
pub open spec fn sealed_session_keys(sealed: Seq<u8>, master_key: Seq<u8>, iv_salt: Seq<u8>, keys: SessionKeysView) -> bool {
    exists|p: Seq<u8>|
        p.len() <= AEAD_MAX_PLAINTEXT && #[trigger] aes256_gcm_seal(master_key, key_transport_nonce(iv_salt), p) == sealed
            && spec_decode_keys(p) == Some(keys)
}

/// Sealing the layout of key material under its own master key and IV salt
/// carries that key material: `decrypt_session_keys` gives it back.
pub proof fn lemma_session_keys_transport(k: SessionKeysView, es: Seq<(u32, ChannelKeysView)>)
    requires
        session_keys_sized(k),
        enumerates(es, k.channel_keys),
        es.len() <= u64::MAX,
        key_layout(k, es).len() <= AEAD_MAX_PLAINTEXT,
    ensures
        sealed_session_keys(aes256_gcm_seal(k.master_key, key_transport_nonce(k.iv_salt), key_layout(k, es)), k.master_key, k.iv_salt, k),
{
    lemma_key_layout_roundtrip(k, es);
    let p = key_layout(k, es);
    assert(aes256_gcm_seal(k.master_key, key_transport_nonce(k.iv_salt), p) == aes256_gcm_seal(k.master_key, key_transport_nonce(k.iv_salt), key_layout(k, es)));
}

/// Both ends agree on the keys: session keys derived from the same
/// pre-shared key and challenge salt are the same keys, whichever side
/// derived them.
pub proof fn lemma_both_ends_derive_same_keys(a: SessionKeysView, b: SessionKeysView, psk: Seq<u8>, salt: Seq<u8>)
    requires
        session_keys_derived(a, psk, salt),
        session_keys_derived(b, psk, salt),
    ensures
        a == b,
{
    assert(a.channel_keys =~= b.channel_keys) by {
        assert forall|id: u32| #[trigger] a.channel_keys.contains_key(id) implies a.channel_keys[id] == b.channel_keys[id] by {
            assert(id < KEYED_CHANNELS);
            assert(channel_keys_derived(a.channel_keys[id], a.master_key, id));
            assert(channel_keys_derived(b.channel_keys[id], b.master_key, id));
        }
    }
}

/// A pairing record is filed under its device identifier.
pub open spec fn pairing_pred(s: Seq<PairingRecordView>, device_id: Seq<u8>) -> spec_fn(int) -> bool {
    |i: int| s[i].device_id == device_id
}

/// Index of the record of `device_id`, or -1.
pub open spec fn find_pairing(s: Seq<PairingRecordView>, device_id: Seq<u8>) -> int {
    first_where(pairing_pred(s, device_id), s.len() as int)
}

/// One record per device.
pub open spec fn pairings_wf(s: Seq<PairingRecordView>) -> bool {
    forall|i: int, j: int| 0 <= i < j < s.len() ==> (#[trigger] s[i]).device_id != (#[trigger] s[j]).device_id
}

/// The records after filing `record`: it replaces the record of the same device, or is appended.
pub open spec fn spec_add_pairing(s: Seq<PairingRecordView>, record: PairingRecordView) -> Seq<PairingRecordView> {
    let i = find_pairing(s, record.device_id);
    if i >= 0 {
        s.update(i, record)
    } else {
        s.push(record)
    }
}

/// The records after removing that of `device_id`, if any.
pub open spec fn spec_remove_pairing(s: Seq<PairingRecordView>, device_id: Seq<u8>) -> Seq<PairingRecordView> {
    let i = find_pairing(s, device_id);
    if i >= 0 {
        s.remove(i)
    } else {
        s
    }
}

/// Result of a successful authentication.
#[derive(Debug)]
pub struct AuthSuccess {
    pub key_confirmation: Vec<u8>,
    pub session_keys_encrypted: Vec<u8>,
    pub session_keys: Option<SessionKeys>,
}

/// The session keys a store holds, as values.
pub open spec fn keys_view(k: Option<SessionKeys>) -> Option<SessionKeysView> {
    match k {
        Some(k) => Some(k@),
        None => None,
    }
}

/// Authentication state: the pre-shared key, the method, the current session
/// keys and the paired devices.
pub struct AuthManager {
    psk: Option<[u8; 32]>,
    method: AuthMethod,
    session_keys: Option<SessionKeys>,
    pairings: Vec<PairingRecord>,
}

impl AuthManager {
    /// The pre-shared key, if one is set.
    pub closed spec fn psk_value(&self) -> Option<[u8; 32]> {
        self.psk
    }

    /// The authentication method.
    pub closed spec fn method_value(&self) -> AuthMethod {
        self.method
    }

    /// The current session keys.
    pub closed spec fn keys(&self) -> Option<SessionKeysView> {
        keys_view(self.session_keys)
    }

    /// The pairing records, in filing order.
    pub closed spec fn pairings(&self) -> Seq<PairingRecordView> {
        self.pairings@.map_values(|p: PairingRecord| p@)
    }

    /// The manager's invariant: one pairing record per device.
    pub open spec fn wf(&self) -> bool {
        pairings_wf(self.pairings())
    }

    /// A manager with no key, the PSK method, no session and no pairings.
    pub fn new() -> (r: Self)
        ensures
            r.wf(),
            r.psk_value() is None,
            r.method_value() == AuthMethod::Psk,
            r.keys() is None,
            r.pairings() == Seq::<PairingRecordView>::empty(),
    {
        let r = AuthManager { psk: None, method: AuthMethod::Psk, session_keys: None, pairings: Vec::new() };
        assert(r.pairings() =~= Seq::<PairingRecordView>::empty());
        r
    }

    /// Sets the pre-shared key.
    pub fn set_psk(&mut self, psk: [u8; 32])
        ensures
            final(self).psk_value() == Some(psk),
            final(self).method_value() == old(self).method_value(),
            final(self).keys() == old(self).keys(),
            final(self).pairings() == old(self).pairings(),
    {
        self.psk = Some(psk);
    }

    /// The pre-shared key, if one is set.
    pub fn get_psk(&self) -> (r: Option<[u8; 32]>)
        ensures
            r == self.psk_value(),
    {
        self.psk
    }

    /// Sets the authentication method.
    pub fn set_method(&mut self, method: AuthMethod)
        ensures
            final(self).method_value() == method,
            final(self).psk_value() == old(self).psk_value(),
            final(self).keys() == old(self).keys(),
            final(self).pairings() == old(self).pairings(),
    {
        self.method = method;
    }

    /// The authentication method.
    pub fn method(&self) -> (r: AuthMethod)
        ensures
            r == self.method_value(),
    {
        self.method
    }

    /// A fresh challenge: 32 random challenge bytes, 32 random salt bytes and 100000 iterations.
    pub fn generate_challenge(&self) -> (r: Result<AuthChallenge, ProtocolError>)
        ensures
            (r matches Ok(c) && c.method == self.method_value() && c.challenge@.len() == 32 && c.salt@.len() == 32
                && c.iterations == 100_000 && c.server_public_key@.len() == 0 && c.parameters@.len() == 0),
    {
        let mut challenge = [0u8; 32];
        let mut salt = [0u8; 32];
        fill_random(&mut challenge);
        fill_random(&mut salt);
        Ok(AuthChallenge {
            method: self.method,
            challenge: clone_bytes(challenge.as_slice()),
            salt: clone_bytes(salt.as_slice()),
            iterations: 100_000,
            server_public_key: Vec::new(),
            parameters: Vec::new(),
        })
    }

    /// The client's proof of the pre-shared key: HMAC-SHA256 under `psk` of the
    /// challenge, the client nonce and `client`.
    pub fn compute_client_hmac(&self, psk: &[u8; 32], challenge: &AuthChallenge, client_nonce: &[u8]) -> (r: Result<Vec<u8>, ProtocolError>)
        ensures
            r matches Ok(h) && h@ == hmac_sha256_tag(psk@, client_proof_message(challenge.challenge@, client_nonce@)) && h@.len() == 32,
    {
        let mut message: Vec<u8> = Vec::new();
        append_bytes(&mut message, challenge.challenge.as_slice());
        append_bytes(&mut message, client_nonce);
        append_bytes(&mut message, "client".as_bytes());
        let tag = hmac_sha256(psk.as_slice(), message.as_slice());
        Ok(clone_bytes(tag.as_slice()))
    }

    /// The server's key confirmation: HMAC-SHA256 under `psk` of the challenge,
    /// the client nonce and `server`.
    pub fn compute_server_hmac(&self, psk: &[u8; 32], challenge: &AuthChallenge, client_nonce: &[u8]) -> (r: Result<Vec<u8>, ProtocolError>)
        ensures
            r matches Ok(h) && h@ == hmac_sha256_tag(psk@, server_proof_message(challenge.challenge@, client_nonce@)) && h@.len() == 32,
    {
        let mut message: Vec<u8> = Vec::new();
        append_bytes(&mut message, challenge.challenge.as_slice());
        append_bytes(&mut message, client_nonce);
        append_bytes(&mut message, "server".as_bytes());
        let tag = hmac_sha256(psk.as_slice(), message.as_slice());
        Ok(clone_bytes(tag.as_slice()))
    }

    /// Derives the session keys from the pre-shared key and the challenge salt.
    /// The client nonce takes no part in the derivation.
    fn derive_session_keys(&self, psk: &[u8; 32], challenge: &AuthChallenge, client_nonce: &[u8]) -> (r: Result<SessionKeys, ProtocolError>)
        ensures
            r matches Ok(k) && session_keys_derived(k@, psk@, challenge.salt@),
    {
        let master_key: [u8; 32] = hkdf_sha256(Some(challenge.salt.as_slice()), psk.as_slice(), "bpl-master".as_bytes());
        let encryption_key: [u8; 32] = hkdf_sha256(Some(master_key.as_slice()), "".as_bytes(), "bpl-enc".as_bytes());
        let authentication_key: [u8; 32] = hkdf_sha256(Some(master_key.as_slice()), "".as_bytes(), "bpl-auth".as_bytes());
        let iv_salt: [u8; 16] = hkdf_sha256(Some(master_key.as_slice()), "".as_bytes(), "bpl-iv".as_bytes());
        let channel_keys = derive_channel_table(&master_key);
        proof {
            reveal_strlit("");
            assert("".spec_bytes() =~= Seq::<u8>::empty());
        }
        Ok(SessionKeys { master_key, encryption_key, authentication_key, iv_salt, channel_keys })
    }

    /// Checks the client's proof against the pre-shared key, then derives and
    /// keeps the session keys and answers with the key confirmation and the
    /// sealed key material.
    pub fn verify_response(&mut self, challenge: &AuthChallenge, response: &AuthResponse) -> (r: Result<AuthSuccess, ProtocolError>)
        ensures
            final(self).psk_value() == old(self).psk_value(),
            final(self).method_value() == old(self).method_value(),
            final(self).pairings() == old(self).pairings(),
            old(self).psk_value() is None ==> (r matches Err(ProtocolError::AuthenticationFailed(m)) && m@ == "PSK not configured"@ && final(self).keys() == old(self).keys()),
            old(self).psk_value() matches Some(psk) ==> {
                if response.response@ != hmac_sha256_tag(psk@, client_proof_message(challenge.challenge@, response.client_nonce@)) {
                    (r matches Err(ProtocolError::AuthenticationFailed(m)) && m@ == "Invalid HMAC"@ && final(self).keys() == old(self).keys())
                } else {
                    (r matches Ok(success) && success.session_keys matches Some(k) && {
                        &&& session_keys_derived(k@, psk@, challenge.salt@)
                        &&& final(self).keys() == Some(k@)
                        &&& success.key_confirmation@ == hmac_sha256_tag(psk@, server_proof_message(challenge.challenge@, response.client_nonce@))
                        &&& success.key_confirmation@.len() == 32
                        &&& sealed_session_keys(success.session_keys_encrypted@, k@.master_key, k@.iv_salt, k@)
                    })
                }
            },
    {
        let psk = match self.psk {
            Some(p) => p,
            None => {
                return Err(ProtocolError::AuthenticationFailed("PSK not configured".to_string()));
            },
        };
        let expected_hmac = match self.compute_client_hmac(&psk, challenge, response.client_nonce.as_slice()) {
            Ok(h) => h,
            Err(e) => {
                return Err(e);
            },
        };
        if !bytes_equal(expected_hmac.as_slice(), response.response.as_slice()) {
            return Err(ProtocolError::AuthenticationFailed("Invalid HMAC".to_string()));
        }
        let session_keys = match self.derive_session_keys(&psk, challenge, response.client_nonce.as_slice()) {
            Ok(k) => k,
            Err(e) => {
                return Err(e);
            },
        };
        self.session_keys = Some(session_keys.clone());
        let server_hmac = match self.compute_server_hmac(&psk, challenge, response.client_nonce.as_slice()) {
            Ok(h) => h,
            Err(e) => {
                return Err(e);
            },
        };
        proof {
            lemma_derived_keys_fit(session_keys@, psk@, challenge.salt@);
        }
        let encrypted_keys = match self.encrypt_session_keys(&session_keys) {
            Ok(b) => b,
            Err(e) => {
                return Err(e);
            },
        };
        Ok(AuthSuccess { key_confirmation: server_hmac, session_keys_encrypted: encrypted_keys, session_keys: Some(session_keys) })
    }

    /// Client side: derives and keeps the session keys for `challenge`. The
    /// server's key confirmation is not checked.
    pub fn verify_server_response(&mut self, challenge: &AuthChallenge, response: &AuthSuccess) -> (r: Result<SessionKeys, ProtocolError>)
        ensures
            final(self).psk_value() == old(self).psk_value(),
            final(self).method_value() == old(self).method_value(),
            final(self).pairings() == old(self).pairings(),
            old(self).psk_value() is None ==> (r matches Err(ProtocolError::AuthenticationFailed(m)) && m@ == "PSK not configured"@ && final(self).keys() == old(self).keys()),
            old(self).psk_value() matches Some(psk) ==> (r matches Ok(k) && session_keys_derived(k@, psk@, challenge.salt@) && final(self).keys() == Some(k@)),
    {
        let psk = match self.psk {
            Some(p) => p,
            None => {
                return Err(ProtocolError::AuthenticationFailed("PSK not configured".to_string()));
            },
        };
        let client_nonce = [0u8; 32];
        let session_keys = match self.derive_session_keys(&psk, challenge, client_nonce.as_slice()) {
            Ok(k) => k,
            Err(e) => {
                return Err(e);
            },
        };
        self.session_keys = Some(session_keys.clone());
        Ok(session_keys)
    }

    /// Seals the layout of `keys` under their master key and the first twelve bytes of their IV salt.
    pub fn encrypt_session_keys(&self, keys: &SessionKeys) -> (r: Result<Vec<u8>, ProtocolError>)
        ensures
            r is Ok <==> KEYS_HEADER_LEN + CHANNEL_ENTRY_LEN * keys@.channel_keys.dom().len() <= AEAD_MAX_PLAINTEXT,
            r matches Ok(b) ==> sealed_session_keys(b@, keys@.master_key, keys@.iv_salt, keys@),
            r matches Err(e) ==> e matches ProtocolError::Encryption(_),
    {
        let plaintext = encode_session_keys(keys);
        let ghost es = choose|es: Seq<(u32, ChannelKeysView)>|
            enumerates(es, keys@.channel_keys) && es.len() == keys@.channel_keys.dom().len() && plaintext@ == key_layout(keys@, es);
        proof {
            lemma_keys_sized(keys);
            lemma_key_layout_len(keys@, es);
        }
        let nonce = transport_nonce(&keys.iv_salt);
        match aes256_gcm_encrypt(&keys.master_key, &nonce, plaintext.as_slice()) {
            Ok(b) => {
                proof {
                    lemma_session_keys_transport(keys@, es);
                }
                Ok(b)
            },
            Err(_) => Err(ProtocolError::Encryption("aead::Error".to_string())),
        }
    }

    /// Opens sealed key material with `master_key` and the first twelve bytes of `iv_salt`.
    pub fn decrypt_session_keys(&self, encrypted: &[u8], master_key: &[u8; 32], iv_salt: &[u8; 16]) -> (r: Result<SessionKeys, ProtocolError>)
        ensures
            forall|v: SessionKeysView| #[trigger] sealed_session_keys(encrypted@, master_key@, iv_salt@, v) ==> (r matches Ok(k) && k@ == v),
            r matches Ok(k) ==> exists|p: Seq<u8>| #[trigger] aes256_gcm_seal(master_key@, key_transport_nonce(iv_salt@), p) == encrypted@ && spec_decode_keys(p) == Some(k@),
            r matches Err(e) ==> e matches ProtocolError::Decryption(_) || e matches ProtocolError::Deserialization(_),
    {
        let nonce = transport_nonce(iv_salt);
        let opened = aes256_gcm_decrypt(master_key, &nonce, encrypted);
        match opened {
            Ok(plaintext) => {
                let r = decode_session_keys(plaintext.as_slice());
                proof {
                    assert forall|v: SessionKeysView| #[trigger] sealed_session_keys(encrypted@, master_key@, iv_salt@, v) implies (r matches Ok(k) && k@ == v) by {
                        let p = choose|p: Seq<u8>|
                            p.len() <= AEAD_MAX_PLAINTEXT && #[trigger] aes256_gcm_seal(master_key@, key_transport_nonce(iv_salt@), p) == encrypted@
                                && spec_decode_keys(p) == Some(v);
                        assert(aes256_gcm_seal(master_key@, nonce@, p) == encrypted@);
                    }
                }
                r
            },
            Err(_) => {
                proof {
                    assert forall|v: SessionKeysView| #[trigger] sealed_session_keys(encrypted@, master_key@, iv_salt@, v) implies false by {
                        let p = choose|p: Seq<u8>|
                            p.len() <= AEAD_MAX_PLAINTEXT && #[trigger] aes256_gcm_seal(master_key@, key_transport_nonce(iv_salt@), p) == encrypted@
                                && spec_decode_keys(p) == Some(v);
                        assert(aes256_gcm_seal(master_key@, nonce@, p) == encrypted@);
                    }
                }
                Err(ProtocolError::Decryption("aead::Error".to_string()))
            },
        }
    }

    /// A copy of the current session keys.
    pub fn session_keys(&self) -> (r: Option<SessionKeys>)
        ensures
            keys_view(r) == self.keys(),
    {
        match &self.session_keys {
            Some(k) => Some(k.clone()),
            None => None,
        }
    }

    /// The keys of channel `channel_id` in the current session.
    pub fn channel_keys(&self, channel_id: u32) -> (r: Option<ChannelKeys>)
        ensures
            match self.keys() {
                Some(k) => if k.channel_keys.contains_key(channel_id) {
                    r matches Some(c) && c@ == k.channel_keys[channel_id]
                } else {
                    r is None
                },
                None => r is None,
            },
    {
        match &self.session_keys {
            Some(k) => match k.channel_keys.get(&channel_id) {
                Some(c) => Some(*c),
                None => None,
            },
            None => None,
        }
    }

    /// Replaces the session keys with keys derived from `new_master_key`.
    pub fn rotate_keys(&mut self, new_master_key: [u8; 32]) -> (r: Result<SessionKeys, ProtocolError>)
        ensures
            r matches Ok(k) && rotated_keys_derived(k@, new_master_key@) && final(self).keys() == Some(k@),
            final(self).psk_value() == old(self).psk_value(),
            final(self).method_value() == old(self).method_value(),
            final(self).pairings() == old(self).pairings(),
    {
        let master_key = new_master_key;
        let encryption_key: [u8; 32] = hkdf_sha256(None, master_key.as_slice(), "bpl-enc".as_bytes());
        let authentication_key: [u8; 32] = hkdf_sha256(None, master_key.as_slice(), "bpl-auth".as_bytes());
        let iv_salt: [u8; 16] = hkdf_sha256(None, master_key.as_slice(), "bpl-iv".as_bytes());
        let channel_keys = derive_channel_table(&master_key);
        let keys = SessionKeys { master_key, encryption_key, authentication_key, iv_salt, channel_keys };
        self.session_keys = Some(keys.clone());
        Ok(keys)
    }

    /// Files a pairing record, replacing the record of the same device.
    pub fn add_pairing(&mut self, record: PairingRecord)
        requires
            old(self).wf(),
        ensures
            final(self).wf(),
            final(self).pairings() == spec_add_pairing(old(self).pairings(), record@),
            final(self).psk_value() == old(self).psk_value(),
            final(self).method_value() == old(self).method_value(),
            final(self).keys() == old(self).keys(),
    {
        let ghost s = self.pairings();
        let idx = self.position(record.device_id.value.as_slice());
        proof {
            lemma_first_where(pairing_pred(s, record@.device_id), s.len() as int);
        }
        match idx {
            Some(i) => {
                let ghost rv = record@;
                assert(s[i as int].device_id == rv.device_id);
                self.pairings.set(i, record);
                proof {
                    assert(self.pairings() =~= s.update(i as int, rv));
                    assert forall|a: int, b: int| 0 <= a < b < self.pairings().len() implies (#[trigger] self.pairings()[a]).device_id != (#[trigger] self.pairings()[b]).device_id by {
                        assert(s[a].device_id != s[b].device_id);
                        assert(self.pairings()[a].device_id == s[a].device_id);
                        assert(self.pairings()[b].device_id == s[b].device_id);
                    }
                    assert(pairings_wf(self.pairings()));
                }
            },
            None => {
                let ghost rv = record@;
                self.pairings.push(record);
                proof {
                    let t = self.pairings();
                    assert(t =~= s.push(rv));
                    assert forall|a: int, b: int| 0 <= a < b < t.len() implies (#[trigger] t[a]).device_id != (#[trigger] t[b]).device_id by {
                        if b < s.len() {
                            assert(s[a].device_id != s[b].device_id);
                        } else {
                            assert(!pairing_pred(s, rv.device_id)(a));
                        }
                    }
                }
            },
        }
    }

    /// Index of the record of `device_id`.
    fn position(&self, device_id: &[u8]) -> (r: Option<usize>)
        ensures
            match r {
                Some(i) => i == find_pairing(self.pairings(), device_id@) && i < self.pairings().len(),
                None => find_pairing(self.pairings(), device_id@) == -1,
            },
    {
        let ghost s = self.pairings();
        let ghost pred = pairing_pred(s, device_id@);
        let mut i: usize = 0;
        while i < self.pairings.len()
            invariant
                i <= self.pairings@.len(),
                s == self.pairings(),
                pred == pairing_pred(s, device_id@),
                first_where(pred, i as int) == -1,
            decreases self.pairings@.len() - i,
        {
            proof {
                lemma_first_where_step(pred, i as int);
            }
            if bytes_equal(self.pairings[i].device_id.value.as_slice(), device_id) {
                proof {
                    assert(pred(i as int));
                    lemma_first_where_extend(pred, i as int + 1, s.len() as int);
                }
                return Some(i);
            }
            i = i + 1;
        }
        None
    }

    /// A copy of the record of `device_id`.
    pub fn get_pairing(&self, device_id: &[u8]) -> (r: Option<PairingRecord>)
        ensures
            ({
                let i = find_pairing(self.pairings(), device_id@);
                if i >= 0 {
                    r matches Some(p) && p@ == self.pairings()[i]
                } else {
                    r is None
                }
            }),
    {
        match self.position(device_id) {
            Some(i) => Some(self.pairings[i].clone()),
            None => None,
        }
    }

    /// Copies of all pairing records.
    pub fn list_pairings(&self) -> (r: Vec<PairingRecord>)
        ensures
            r@.map_values(|p: PairingRecord| p@) == self.pairings(),
    {
        let mut r: Vec<PairingRecord> = Vec::new();
        let mut i: usize = 0;
        while i < self.pairings.len()
            invariant
                i <= self.pairings@.len(),
                r@.map_values(|p: PairingRecord| p@) == self.pairings().take(i as int),
            decreases self.pairings@.len() - i,
        {
            let p = self.pairings[i].clone();
            assert(p@ == self.pairings()[i as int]);
            let ghost r0 = r@;
            r.push(p);
            assert(r@ == r0.push(p));
            assert(r@.map_values(|p: PairingRecord| p@) =~= r0.map_values(|p: PairingRecord| p@).push(p@));
            assert(self.pairings().take(i + 1) =~= self.pairings().take(i as int).push(self.pairings()[i as int]));
            i = i + 1;
            assert(r@.map_values(|p: PairingRecord| p@) =~= self.pairings().take(i as int));
        }
        assert(self.pairings().take(i as int) =~= self.pairings());
        r
    }

    /// Removes the record of `device_id`; whether there was one.
    pub fn remove_pairing(&mut self, device_id: &[u8]) -> (r: bool)
        requires
            old(self).wf(),
        ensures
            final(self).wf(),
            r == (find_pairing(old(self).pairings(), device_id@) >= 0),
            final(self).pairings() == spec_remove_pairing(old(self).pairings(), device_id@),
            final(self).psk_value() == old(self).psk_value(),
            final(self).method_value() == old(self).method_value(),
            final(self).keys() == old(self).keys(),
    {
        let ghost s = self.pairings();
        match self.position(device_id) {
            Some(i) => {
                let _ = self.pairings.remove(i);
                proof {
                    assert(self.pairings() =~= s.remove(i as int));
                    assert forall|a: int, b: int| 0 <= a < b < self.pairings().len() implies (#[trigger] self.pairings()[a]).device_id != (#[trigger] self.pairings()[b]).device_id by {
                        let a0 = if a < i { a } else { a + 1 };
                        let b0 = if b < i { b } else { b + 1 };
                        assert(s[a0].device_id != s[b0].device_id);
                    }
                }
                true
            },
            None => false,
        }
    }

    /// Forgets the session keys.
    pub fn clear_keys(&mut self)
        ensures
            final(self).keys() is None,
            final(self).psk_value() == old(self).psk_value(),
            final(self).method_value() == old(self).method_value(),
            final(self).pairings() == old(self).pairings(),
    {
        self.session_keys = None;
    }
}

impl Default for AuthManager {
    fn default() -> (r: Self)
        ensures
            r.wf(),
            r.psk_value() is None,
            r.method_value() == AuthMethod::Psk,
            r.keys() is None,
            r.pairings() == Seq::<PairingRecordView>::empty(),
    {
        Self::new()
    }
}

/// Filing a record makes it the record of its device.
pub proof fn lemma_add_then_find(s: Seq<PairingRecordView>, record: PairingRecordView)
    requires
        pairings_wf(s),
    ensures
        ({
            let t = spec_add_pairing(s, record);
            let i = find_pairing(t, record.device_id);
            &&& pairings_wf(t)
            &&& i >= 0
            &&& t[i] == record
        }),
{
    let i0 = find_pairing(s, record.device_id);
    lemma_first_where(pairing_pred(s, record.device_id), s.len() as int);
    let t = spec_add_pairing(s, record);
    let ps = pairing_pred(s, record.device_id);
    let pt = pairing_pred(t, record.device_id);
    lemma_first_where(pt, t.len() as int);
    lemma_first_where_congruent(ps, pt, s.len() as int);
    if i0 >= 0 {
        assert(t.len() == s.len());
        assert forall|a: int, b: int| 0 <= a < b < t.len() implies (#[trigger] t[a]).device_id != (#[trigger] t[b]).device_id by {
            assert(s[a].device_id != s[b].device_id);
            assert(t[a].device_id == s[a].device_id);
            assert(t[b].device_id == s[b].device_id);
        }
    } else {
        lemma_first_where_step(pt, s.len() as int);
        assert(pt(s.len() as int));
        assert forall|a: int, b: int| 0 <= a < b < t.len() implies (#[trigger] t[a]).device_id != (#[trigger] t[b]).device_id by {
            if b < s.len() {
                assert(s[a].device_id != s[b].device_id);
            } else {
                assert(!ps(a));
            }
        }
    }
}

/// Filing a record keeps the records of every other device: afterwards the
/// records are the new one and those of the other devices, and there is one
/// more exactly when the device was not paired before.
pub proof fn lemma_add_keeps_others(s: Seq<PairingRecordView>, record: PairingRecordView)
    requires
        pairings_wf(s),
    ensures
        forall|p: PairingRecordView|
            #[trigger] spec_add_pairing(s, record).contains(p) <==> (p == record || (s.contains(p) && p.device_id
                != record.device_id)),
        spec_add_pairing(s, record).len() == (if exists|i: int|
            0 <= i < s.len() && (#[trigger] s[i]).device_id == record.device_id {
            s.len()
        } else {
            s.len() + 1
        }),
{
    let d = record.device_id;
    let i0 = find_pairing(s, d);
    lemma_first_where(pairing_pred(s, d), s.len() as int);
    let t = spec_add_pairing(s, record);
    if i0 >= 0 {
        assert(s[i0].device_id == d);
        assert forall|p: PairingRecordView| #[trigger] t.contains(p) <==> (p == record || (s.contains(p)
            && p.device_id != d)) by {
            if t.contains(p) && p != record {
                let k = choose|k: int| 0 <= k < t.len() && t[k] == p;
                assert(k != i0);
                assert(t[k] == s[k]);
                assert(s[k].device_id != s[i0].device_id);
            }
            if p == record {
                assert(t[i0] == record);
            }
            if s.contains(p) && p.device_id != d {
                let k = choose|k: int| 0 <= k < s.len() && s[k] == p;
                assert(k != i0);
                assert(t[k] == s[k]);
            }
        }
    } else {
        assert forall|p: PairingRecordView| #[trigger] t.contains(p) <==> (p == record || (s.contains(p)
            && p.device_id != d)) by {
            if t.contains(p) && p != record {
                let k = choose|k: int| 0 <= k < t.len() && t[k] == p;
                assert(k < s.len());
                assert(t[k] == s[k]);
                assert(!pairing_pred(s, d)(k));
            }
            if p == record {
                assert(t[s.len() as int] == record);
            }
            if s.contains(p) && p.device_id != d {
                let k = choose|k: int| 0 <= k < s.len() && s[k] == p;
                assert(t[k] == s[k]);
            }
        }
        if exists|i: int| 0 <= i < s.len() && (#[trigger] s[i]).device_id == d {
            let i = choose|i: int| 0 <= i < s.len() && (#[trigger] s[i]).device_id == d;
            assert(pairing_pred(s, d)(i));
        }
    }
}

/// After removing the record of a device, the device has none.
pub proof fn lemma_remove_then_missing(s: Seq<PairingRecordView>, device_id: Seq<u8>)
    requires
        pairings_wf(s),
    ensures
        pairings_wf(spec_remove_pairing(s, device_id)),
        find_pairing(spec_remove_pairing(s, device_id), device_id) == -1,
{
    let i0 = find_pairing(s, device_id);
    lemma_first_where(pairing_pred(s, device_id), s.len() as int);
    let t = spec_remove_pairing(s, device_id);
    let pt = pairing_pred(t, device_id);
    lemma_first_where(pt, t.len() as int);
    if i0 >= 0 {
        assert forall|a: int, b: int| 0 <= a < b < t.len() implies (#[trigger] t[a]).device_id != (#[trigger] t[b]).device_id by {
            let a0 = if a < i0 { a } else { a + 1 };
            let b0 = if b < i0 { b } else { b + 1 };
            assert(s[a0].device_id != s[b0].device_id);
        }
        if find_pairing(t, device_id) >= 0 {
            let j = find_pairing(t, device_id);
            let j0 = if j < i0 { j } else { j + 1 };
            assert(s[j0].device_id == device_id);
            assert(s[i0].device_id == device_id);
        }
    }
}

/// Removing the record of a device drops that record and no other: the records
/// kept are exactly those of the other devices, and there is one fewer exactly
/// when the device was paired.
pub proof fn lemma_remove_keeps_others(s: Seq<PairingRecordView>, device_id: Seq<u8>)
    requires
        pairings_wf(s),
    ensures
        forall|p: PairingRecordView|
            #[trigger] spec_remove_pairing(s, device_id).contains(p) <==> (s.contains(p) && p.device_id != device_id),
        (exists|i: int| 0 <= i < s.len() && (#[trigger] s[i]).device_id == device_id) ==> spec_remove_pairing(
            s,
            device_id,
        ).len() == s.len() - 1,
        (forall|i: int| 0 <= i < s.len() ==> (#[trigger] s[i]).device_id != device_id) ==> spec_remove_pairing(
            s,
            device_id,
        ) == s,
{
    let i0 = find_pairing(s, device_id);
    lemma_first_where(pairing_pred(s, device_id), s.len() as int);
    let t = spec_remove_pairing(s, device_id);
    if i0 >= 0 {
        assert(s[i0].device_id == device_id);
        assert forall|p: PairingRecordView| #[trigger] t.contains(p) <==> (s.contains(p) && p.device_id != device_id) by {
            if t.contains(p) {
                let k = choose|k: int| 0 <= k < t.len() && t[k] == p;
                let k0 = if k < i0 { k } else { k + 1 };
                assert(t[k] == s[k0]);
                assert(s[k0].device_id != s[i0].device_id);
            }
            if s.contains(p) && p.device_id != device_id {
                let k = choose|k: int| 0 <= k < s.len() && s[k] == p;
                assert(k != i0);
                let k1 = if k < i0 { k } else { k - 1 };
                assert(t[k1] == s[k]);
            }
        }
    } else {
        assert forall|p: PairingRecordView| #[trigger] t.contains(p) implies p.device_id != device_id by {
            let k = choose|k: int| 0 <= k < t.len() && t[k] == p;
            assert(!pairing_pred(s, device_id)(k));
        }
        if exists|i: int| 0 <= i < s.len() && (#[trigger] s[i]).device_id == device_id {
            let i = choose|i: int| 0 <= i < s.len() && (#[trigger] s[i]).device_id == device_id;
            assert(pairing_pred(s, device_id)(i));
        }
    }
}

/// Whether two byte strings are equal.
pub(crate) fn bytes_equal(a: &[u8], b: &[u8]) -> (r: bool)
    ensures
        r == (a@ == b@),
{
    if a.len() != b.len() {
        return false;
    }
    let mut i: usize = 0;
    while i < a.len()
        invariant
            i <= a@.len(),
            a@.len() == b@.len(),
            forall|j: int| 0 <= j < i ==> a@[j] == b@[j],
        decreases a@.len() - i,
    {
        if a[i] != b[i] {
            return false;
        }
        i = i + 1;
    }
    assert(a@ =~= b@);
    true
}

/// The twelve-byte transport nonce of an IV salt.
fn transport_nonce(iv_salt: &[u8; 16]) -> (r: [u8; 12])
    ensures
        r@ == key_transport_nonce(iv_salt@),
{
    let mut r = [0u8; 12];
    let mut i: usize = 0;
    while i < 12
        invariant
            i <= 12,
            forall|j: int| 0 <= j < i ==> r@[j] == iv_salt@[j],
        decreases 12 - i,
    {
        r[i] = iv_salt[i];
        i = i + 1;
    }
    assert(r@ =~= key_transport_nonce(iv_salt@));
    r
}

/// Key material held in arrays has the sizes the layout carries.
proof fn lemma_keys_sized(k: &SessionKeys)
    ensures
        session_keys_sized(k@),
{
}

/// Derived key material is small enough to be sealed.
proof fn lemma_derived_keys_fit(k: SessionKeysView, psk: Seq<u8>, salt: Seq<u8>)
    requires
        session_keys_derived(k, psk, salt),
    ensures
        KEYS_HEADER_LEN + CHANNEL_ENTRY_LEN * k.channel_keys.dom().len() <= AEAD_MAX_PLAINTEXT,
{
}

/// The nonce that protects frame `sequence` of a channel: the sequence number
/// in little-endian order, then the first four bytes of the channel's IV salt.
pub open spec fn channel_nonce(iv_salt: Seq<u8>, sequence: u64) -> Seq<u8> {
    le_u64(sequence) + iv_salt.take(4)
}

/// The sealing of `data` as frame `sequence` of the channel keyed by `keys`.
pub open spec fn channel_seal(keys: ChannelKeysView, sequence: u64, data: Seq<u8>) -> Seq<u8> {
    aes256_gcm_seal(keys.encryption_key, channel_nonce(keys.iv_salt, sequence), data)
}

/// `data` is a plaintext that frame `sequence` of the channel seals to `sealed`.
pub open spec fn channel_opens_to(keys: ChannelKeysView, sequence: u64, sealed: Seq<u8>, data: Seq<u8>) -> bool {
    data.len() <= AEAD_MAX_PLAINTEXT && channel_seal(keys, sequence, data) == sealed
}

/// Builds the nonce of frame `sequence` of a channel.
fn make_channel_nonce(iv_salt: &[u8; 16], sequence: u64) -> (r: [u8; 12])
    ensures
        r@ == channel_nonce(iv_salt@, sequence),
{
    let mut le: Vec<u8> = Vec::new();
    put_u64_le(&mut le, sequence);
    let mut r = [0u8; 12];
    let mut i: usize = 0;
    while i < 8
        invariant
            i <= 8,
            le@ == le_u64(sequence),
            forall|j: int| 0 <= j < i ==> r@[j] == le@[j],
        decreases 8 - i,
    {
        r[i] = le[i];
        i = i + 1;
    }
    while i < 12
        invariant
            8 <= i <= 12,
            le@ == le_u64(sequence),
            forall|j: int| 0 <= j < 8 ==> r@[j] == le@[j],
            forall|j: int| 8 <= j < i ==> r@[j] == iv_salt@[j - 8],
        decreases 12 - i,
    {
        r[i] = iv_salt[i - 8];
        i = i + 1;
    }
    assert(r@ =~= channel_nonce(iv_salt@, sequence));
    r
}

/// Seals `data` as frame `sequence` of a channel and returns the ciphertext and the tag apart.
pub fn encrypt_with_channel_keys(data: &[u8], keys: &ChannelKeys, sequence: u64) -> (r: Result<(Vec<u8>, Vec<u8>), ProtocolError>)
    ensures
        r is Ok <==> data@.len() <= AEAD_MAX_PLAINTEXT,
        r matches Ok((c, t)) ==> c@ + t@ == channel_seal(keys@, sequence, data@) && c@.len() == data@.len() && t@.len() == AEAD_TAG_LEN,
        r matches Err(e) ==> e matches ProtocolError::Encryption(_),
{
    let nonce = make_channel_nonce(&keys.iv_salt, sequence);
    match aes256_gcm_encrypt(&keys.encryption_key, &nonce, data) {
        Ok(sealed) => {
            let len: usize = sealed.len();
            let c = copy_range(sealed.as_slice(), 0, len - AEAD_TAG_LEN);
            let t = copy_range(sealed.as_slice(), len - AEAD_TAG_LEN, len);
            assert(c@ + t@ =~= sealed@);
            Ok((c, t))
        },
        Err(_) => Err(ProtocolError::Encryption("aead::Error".to_string())),
    }
}

/// Opens frame `sequence` of a channel from its ciphertext and tag.
pub fn decrypt_with_channel_keys(ciphertext: &[u8], tag: &[u8], keys: &ChannelKeys, sequence: u64) -> (r: Result<Vec<u8>, ProtocolError>)
    ensures
        r matches Ok(p) ==> channel_seal(keys@, sequence, p@) == ciphertext@ + tag@,
        forall|p: Seq<u8>| #[trigger] channel_opens_to(keys@, sequence, ciphertext@ + tag@, p) ==> (r matches Ok(q) && q@ == p),
        r matches Err(e) ==> e matches ProtocolError::Decryption(_),
{
    let nonce = make_channel_nonce(&keys.iv_salt, sequence);
    let mut combined: Vec<u8> = Vec::new();
    append_bytes(&mut combined, ciphertext);
    append_bytes(&mut combined, tag);
    let opened = aes256_gcm_decrypt(&keys.encryption_key, &nonce, combined.as_slice());
    proof {
        assert forall|p: Seq<u8>| #[trigger] channel_opens_to(keys@, sequence, ciphertext@ + tag@, p) implies ok_bytes(opened) == Some(p) by {
            assert(aes256_gcm_seal(keys@.encryption_key, nonce@, p) == combined@);
        }
    }
    match opened {
        Ok(p) => Ok(p),
        Err(_) => Err(ProtocolError::Decryption("aead::Error".to_string())),
    }
}

/// The tag that authenticates `data` under a channel's keys.
pub open spec fn channel_tag(data: Seq<u8>, keys: ChannelKeysView) -> Seq<u8> {
    hmac_sha256_tag(keys.authentication_key, data)
}

/// HMAC-SHA256 of `data` under the channel's authentication key.
pub fn authenticate_data(data: &[u8], keys: &ChannelKeys) -> (r: [u8; 32])
    ensures
        r@ == channel_tag(data@, keys@),
{
    hmac_sha256(keys.authentication_key.as_slice(), data)
}

/// `tag` authenticates `data` under a channel's keys.
pub open spec fn tag_verifies(data: Seq<u8>, tag: Seq<u8>, keys: ChannelKeysView) -> bool {
    tag == channel_tag(data, keys)
}

/// Whether `tag` authenticates `data` under the channel's keys, compared in constant time.
pub fn verify_authentication(data: &[u8], tag: &[u8], keys: &ChannelKeys) -> (r: bool)
    ensures
        r == tag_verifies(data@, tag@, keys@),
{
    let expected = authenticate_data(data, keys);
    ct_eq_bytes(expected.as_slice(), tag)
}

/// A tag made by `authenticate_data` passes `verify_authentication` for the same data and keys.
pub proof fn lemma_authenticated_data_verifies(data: Seq<u8>, keys: ChannelKeysView)
    ensures
        tag_verifies(data, channel_tag(data, keys), keys),
{
}

/// The tag is HMAC-SHA256 keyed with the channel's authentication key: two
/// channels that share that key tag the same data alike, whatever their
/// encryption keys and nonce salts.
pub proof fn lemma_tag_keyed_by_authentication_key(data: Seq<u8>, a: ChannelKeysView, b: ChannelKeysView)
    requires
        a.authentication_key == b.authentication_key,
    ensures
        channel_tag(data, a) == hmac_sha256_tag(a.authentication_key, data),
        channel_tag(data, a) == channel_tag(data, b),
        tag_verifies(data, channel_tag(data, a), b),
{
}

/// What `encrypt_with_channel_keys` produces, `decrypt_with_channel_keys` opens
/// back to the plaintext, for the same keys and sequence number.
pub proof fn lemma_channel_seal_opens(keys: ChannelKeysView, sequence: u64, data: Seq<u8>, ciphertext: Seq<u8>, tag: Seq<u8>)
    requires
        data.len() <= AEAD_MAX_PLAINTEXT,
        ciphertext + tag == channel_seal(keys, sequence, data),
    ensures
        channel_opens_to(keys, sequence, ciphertext + tag, data),
{
}

} // verus!
