//! Byte layout of session key material, the plaintext that is sealed when
//! the keys travel.
//!
//! The four session keys (32, 32, 32 and 16 bytes), the number of channel
//! entries as a little-endian `u64`, then, per channel, its number as a
//! little-endian `u32` and its three keys (32, 32 and 16 bytes). Channel
//! numbers are distinct and nothing follows the last entry.

use vstd::prelude::*;

use std::collections::HashMap;

use crate::auth::{ChannelKeys, ChannelKeysView, SessionKeys, SessionKeysView};
use crate::error::ProtocolError;
use crate::frame::append_bytes;
use vstd::std_specs::hash::spec_hash_map_iter;
use vstd::std_specs::iter::IteratorSpec;
use crate::le_bytes::{get_u32_le, get_u64_le, le_u32, le_u64, lemma_read_le_u32_at, lemma_read_le_u64_at, put_u32_le, put_u64_le, read_le_u32, read_le_u64};

verus! {

broadcast use {vstd::std_specs::hash::group_hash_axioms, vstd::string::group_string_axioms};

/// Length of the fixed part: the four session keys and the entry count.
pub const KEYS_HEADER_LEN: usize = 120;

/// Length of one channel entry.
pub const CHANNEL_ENTRY_LEN: usize = 84;

/// Offset of channel entry `i`.
pub open spec fn entry_offset(i: int) -> int {
    KEYS_HEADER_LEN + CHANNEL_ENTRY_LEN * i
}

/// Channel number of entry `i` of `b`.
pub open spec fn entry_id(b: Seq<u8>, i: int) -> u32 {
    read_le_u32(b, entry_offset(i))
}

/// Keys of entry `i` of `b`.
pub open spec fn entry_keys(b: Seq<u8>, i: int) -> ChannelKeysView {
    let o = entry_offset(i);
    ChannelKeysView {
        encryption_key: b.subrange(o + 4, o + 36),
        authentication_key: b.subrange(o + 36, o + 68),
        iv_salt: b.subrange(o + 68, o + 84),
    }
}

/// The channel table made of the first `n` entries of `b`.
pub open spec fn entries_map(b: Seq<u8>, n: nat) -> Map<u32, ChannelKeysView>
    decreases n,
{
    if n == 0 {
        Map::empty()
    } else {
        entries_map(b, (n - 1) as nat).insert(entry_id(b, n - 1), entry_keys(b, n - 1))
    }
}

/// The first `n` entries of `b` name distinct channels.
pub open spec fn entry_ids_distinct(b: Seq<u8>, n: nat) -> bool {
    forall|i: int, j: int| 0 <= i < j < n ==> entry_id(b, i) != entry_id(b, j)
}

/// The key material that `b` lays out, if it is a well-formed layout.
pub open spec fn spec_decode_keys(b: Seq<u8>) -> Option<SessionKeysView> {
    if b.len() < KEYS_HEADER_LEN {
        None
    } else {
        let n = read_le_u64(b, 112);
        if b.len() != KEYS_HEADER_LEN + CHANNEL_ENTRY_LEN * n || !entry_ids_distinct(b, n as nat) {
            None
        } else {
            Some(
                SessionKeysView {
                    master_key: b.subrange(0, 32),
                    encryption_key: b.subrange(32, 64),
                    authentication_key: b.subrange(64, 96),
                    iv_salt: b.subrange(96, 112),
                    channel_keys: entries_map(b, n as nat),
                },
            )
        }
    }
}

/// The bytes of one channel entry.
pub open spec fn channel_entry_bytes(id: u32, c: ChannelKeysView) -> Seq<u8> {
    le_u32(id) + c.encryption_key + c.authentication_key + c.iv_salt
}

/// The bytes of a list of channel entries.
pub open spec fn entries_bytes(es: Seq<(u32, ChannelKeysView)>) -> Seq<u8>
    decreases es.len(),
{
    if es.len() == 0 {
        seq![]
    } else {
        entries_bytes(es.drop_last()) + channel_entry_bytes(es.last().0, es.last().1)
    }
}

/// The layout of `k` with its channel entries listed as `es`.
pub open spec fn key_layout(k: SessionKeysView, es: Seq<(u32, ChannelKeysView)>) -> Seq<u8> {
    k.master_key + k.encryption_key + k.authentication_key + k.iv_salt + le_u64(es.len() as u64) + entries_bytes(es)
}

/// Channel keys of the sizes the layout carries.
pub open spec fn channel_keys_sized(c: ChannelKeysView) -> bool {
    c.encryption_key.len() == 32 && c.authentication_key.len() == 32 && c.iv_salt.len() == 16
}

/// Key material of the sizes the layout carries.
pub open spec fn session_keys_sized(k: SessionKeysView) -> bool {
    &&& k.master_key.len() == 32
    &&& k.encryption_key.len() == 32
    &&& k.authentication_key.len() == 32
    &&& k.iv_salt.len() == 16
    &&& forall|id: u32| #[trigger] k.channel_keys.contains_key(id) ==> channel_keys_sized(k.channel_keys[id])
}

/// `es` lists every entry of `m` once.
pub open spec fn enumerates(es: Seq<(u32, ChannelKeysView)>, m: Map<u32, ChannelKeysView>) -> bool {
    &&& forall|i: int, j: int| 0 <= i < j < es.len() ==> (#[trigger] es[i]).0 != (#[trigger] es[j]).0
    &&& forall|i: int| 0 <= i < es.len() ==> m.contains_key((#[trigger] es[i]).0) && m[es[i].0] == es[i].1
    &&& forall|id: u32| #[trigger] m.contains_key(id) ==> exists|i: int| 0 <= i < es.len() && (#[trigger] es[i]).0 == id
}

proof fn lemma_entries_bytes_len(es: Seq<(u32, ChannelKeysView)>)
    requires
        forall|i: int| 0 <= i < es.len() ==> channel_keys_sized((#[trigger] es[i]).1),
    ensures
        entries_bytes(es).len() == CHANNEL_ENTRY_LEN * es.len(),
    decreases es.len(),
{
    if es.len() > 0 {
        assert forall|i: int| 0 <= i < es.drop_last().len() implies channel_keys_sized((#[trigger] es.drop_last()[i]).1) by {
            assert(es.drop_last()[i] == es[i]);
        }
        lemma_entries_bytes_len(es.drop_last());
        assert(channel_keys_sized(es[es.len() - 1].1));
    }
}

proof fn lemma_entries_bytes_at(es: Seq<(u32, ChannelKeysView)>, i: int)
    requires
        0 <= i < es.len(),
        forall|j: int| 0 <= j < es.len() ==> channel_keys_sized((#[trigger] es[j]).1),
    ensures
        entries_bytes(es).subrange(CHANNEL_ENTRY_LEN * i, CHANNEL_ENTRY_LEN * i + CHANNEL_ENTRY_LEN)
            == channel_entry_bytes(es[i].0, es[i].1),
    decreases es.len(),
{
    let init = es.drop_last();
    assert forall|j: int| 0 <= j < init.len() implies channel_keys_sized((#[trigger] init[j]).1) by {
        assert(init[j] == es[j]);
    }
    lemma_entries_bytes_len(init);
    let last = es.last();
    assert(channel_keys_sized(es[es.len() - 1].1));
    assert(entries_bytes(es) == entries_bytes(init) + channel_entry_bytes(last.0, last.1));
    if i < es.len() - 1 {
        lemma_entries_bytes_at(init, i);
        assert(init[i] == es[i]);
        assert(entries_bytes(es).subrange(CHANNEL_ENTRY_LEN * i, CHANNEL_ENTRY_LEN * i + CHANNEL_ENTRY_LEN)
            =~= entries_bytes(init).subrange(CHANNEL_ENTRY_LEN * i, CHANNEL_ENTRY_LEN * i + CHANNEL_ENTRY_LEN));
    } else {
        assert(entries_bytes(es).subrange(CHANNEL_ENTRY_LEN * i, CHANNEL_ENTRY_LEN * i + CHANNEL_ENTRY_LEN)
            =~= channel_entry_bytes(last.0, last.1));
    }
}

/// Entry `i` of a layout reads back as the `i`-th listed channel.
proof fn lemma_layout_entry(k: SessionKeysView, es: Seq<(u32, ChannelKeysView)>, i: int)
    requires
        0 <= i < es.len(),
        k.master_key.len() == 32,
        k.encryption_key.len() == 32,
        k.authentication_key.len() == 32,
        k.iv_salt.len() == 16,
        forall|j: int| 0 <= j < es.len() ==> channel_keys_sized((#[trigger] es[j]).1),
    ensures
        entry_id(key_layout(k, es), i) == es[i].0,
        entry_keys(key_layout(k, es), i) == es[i].1,
{
    let b = key_layout(k, es);
    let head = k.master_key + k.encryption_key + k.authentication_key + k.iv_salt + le_u64(es.len() as u64);
    assert(b == head + entries_bytes(es));
    lemma_entries_bytes_len(es);
    lemma_entries_bytes_at(es, i);
    let o = entry_offset(i);
    assert(head.len() == KEYS_HEADER_LEN);
    let eb = channel_entry_bytes(es[i].0, es[i].1);
    assert(b.subrange(o, o + CHANNEL_ENTRY_LEN) =~= eb) by {
        assert(b.subrange(o, o + CHANNEL_ENTRY_LEN) =~= entries_bytes(es).subrange(CHANNEL_ENTRY_LEN * i, CHANNEL_ENTRY_LEN * i + CHANNEL_ENTRY_LEN));
    }
    assert(channel_keys_sized(es[i].1));
    assert(b.subrange(o, o + 4) =~= le_u32(es[i].0)) by {
        assert(b.subrange(o, o + 4) =~= eb.subrange(0, 4));
    }
    lemma_read_le_u32_at(b, o, es[i].0);
    assert(b.subrange(o + 4, o + 36) =~= es[i].1.encryption_key) by {
        assert(b.subrange(o + 4, o + 36) =~= eb.subrange(4, 36));
    }
    assert(b.subrange(o + 36, o + 68) =~= es[i].1.authentication_key) by {
        assert(b.subrange(o + 36, o + 68) =~= eb.subrange(36, 68));
    }
    assert(b.subrange(o + 68, o + 84) =~= es[i].1.iv_salt) by {
        assert(b.subrange(o + 68, o + 84) =~= eb.subrange(68, 84));
    }
}

/// A layout is the fixed part and one entry per listed channel.
pub proof fn lemma_key_layout_len(k: SessionKeysView, es: Seq<(u32, ChannelKeysView)>)
    requires
        session_keys_sized(k),
        enumerates(es, k.channel_keys),
    ensures
        key_layout(k, es).len() == KEYS_HEADER_LEN + CHANNEL_ENTRY_LEN * es.len(),
{
    assert forall|j: int| 0 <= j < es.len() implies channel_keys_sized((#[trigger] es[j]).1) by {
        assert(k.channel_keys.contains_key(es[j].0));
    }
    lemma_entries_bytes_len(es);
}

/// The table made of the first `n` entries of `b` holds exactly those entries.
proof fn lemma_entries_map(b: Seq<u8>, es: Seq<(u32, ChannelKeysView)>, n: nat)
    requires
        n <= es.len(),
        forall|i: int| 0 <= i < es.len() ==> entry_id(b, i) == (#[trigger] es[i]).0 && entry_keys(b, i) == es[i].1,
        forall|i: int, j: int| 0 <= i < j < es.len() ==> (#[trigger] es[i]).0 != (#[trigger] es[j]).0,
    ensures
        forall|id: u32| #[trigger] entries_map(b, n).contains_key(id) <==> exists|i: int| 0 <= i < n && (#[trigger] es[i]).0 == id,
        forall|i: int| 0 <= i < n ==> entries_map(b, n)[(#[trigger] es[i]).0] == es[i].1,
    decreases n,
{
    if n > 0 {
        lemma_entries_map(b, es, (n - 1) as nat);
        let m = entries_map(b, n);
        assert(entry_id(b, n - 1) == es[n - 1].0);
        assert forall|id: u32| #[trigger] m.contains_key(id) <==> exists|i: int| 0 <= i < n && (#[trigger] es[i]).0 == id by {
            if m.contains_key(id) && id != es[n - 1].0 {
                assert(entries_map(b, (n - 1) as nat).contains_key(id));
                let i = choose|i: int| 0 <= i < n - 1 && (#[trigger] es[i]).0 == id;
                assert(0 <= i < n && es[i].0 == id);
            }
            if exists|i: int| 0 <= i < n && (#[trigger] es[i]).0 == id {
                let i = choose|i: int| 0 <= i < n && (#[trigger] es[i]).0 == id;
                if i < n - 1 {
                    assert(entries_map(b, (n - 1) as nat).contains_key(id));
                }
            }
        }
        assert forall|i: int| 0 <= i < n implies m[(#[trigger] es[i]).0] == es[i].1 by {
            if i < n - 1 {
                assert(es[i].0 != es[n - 1].0);
            }
        }
    }
}

/// Decoding a layout gives back the key material it lays out.
pub proof fn lemma_key_layout_roundtrip(k: SessionKeysView, es: Seq<(u32, ChannelKeysView)>)
    requires
        session_keys_sized(k),
        enumerates(es, k.channel_keys),
        es.len() <= u64::MAX,
    ensures
        spec_decode_keys(key_layout(k, es)) == Some(k),
{
    let b = key_layout(k, es);
    let n = es.len();
    assert forall|j: int| 0 <= j < es.len() implies channel_keys_sized((#[trigger] es[j]).1) by {
        assert(k.channel_keys.contains_key(es[j].0));
    }
    lemma_entries_bytes_len(es);
    let head = k.master_key + k.encryption_key + k.authentication_key + k.iv_salt;
    assert(b == head + le_u64(n as u64) + entries_bytes(es));
    assert(b.subrange(112, 120) =~= le_u64(n as u64));
    lemma_read_le_u64_at(b, 112, n as u64);
    assert(b.len() == KEYS_HEADER_LEN + CHANNEL_ENTRY_LEN * n);
    assert forall|i: int| 0 <= i < es.len() implies entry_id(b, i) == (#[trigger] es[i]).0 && entry_keys(b, i) == es[i].1 by {
        lemma_layout_entry(k, es, i);
    }
    assert(entry_ids_distinct(b, n)) by {
        assert forall|i: int, j: int| 0 <= i < j < n implies entry_id(b, i) != entry_id(b, j) by {
            assert(es[i].0 != es[j].0);
        }
    }
    lemma_entries_map(b, es, n);
    let m = entries_map(b, n);
    assert(m =~= k.channel_keys) by {
        assert forall|id: u32| #[trigger] m.contains_key(id) <==> k.channel_keys.contains_key(id) by {
            if k.channel_keys.contains_key(id) {
                let i = choose|i: int| 0 <= i < es.len() && (#[trigger] es[i]).0 == id;
                assert(m.contains_key(es[i].0));
            }
            if m.contains_key(id) {
                let i = choose|i: int| 0 <= i < n && (#[trigger] es[i]).0 == id;
                assert(k.channel_keys.contains_key(es[i].0));
            }
        }
        assert forall|id: u32| #[trigger] m.contains_key(id) implies m[id] == k.channel_keys[id] by {
            let i = choose|i: int| 0 <= i < n && (#[trigger] es[i]).0 == id;
            assert(m[es[i].0] == es[i].1);
        }
    }
    assert(b.subrange(0, 32) =~= k.master_key);
    assert(b.subrange(32, 64) =~= k.encryption_key);
    assert(b.subrange(64, 96) =~= k.authentication_key);
    assert(b.subrange(96, 112) =~= k.iv_salt);
}

/// Which channels the first `n` entries of `b` name.
proof fn lemma_entries_map_dom(b: Seq<u8>, n: nat)
    ensures
        forall|id: u32| #[trigger] entries_map(b, n).contains_key(id) <==> exists|j: int| 0 <= j < n && entry_id(b, j) == id,
    decreases n,
{
    if n > 0 {
        lemma_entries_map_dom(b, (n - 1) as nat);
        assert forall|id: u32| #[trigger] entries_map(b, n).contains_key(id) <==> exists|j: int| 0 <= j < n && entry_id(b, j) == id by {
            if entries_map(b, n).contains_key(id) && id != entry_id(b, n - 1) {
                assert(entries_map(b, (n - 1) as nat).contains_key(id));
            }
            if exists|j: int| 0 <= j < n && entry_id(b, j) == id {
                let j = choose|j: int| 0 <= j < n && entry_id(b, j) == id;
                if j < n - 1 {
                    assert(entries_map(b, (n - 1) as nat).contains_key(id));
                }
            }
        }
    }
}

/// Copies `N` bytes of `b` from `at`.
fn read_array<const N: usize>(b: &[u8], at: usize) -> (r: [u8; N])
    requires
        at + N <= b@.len(),
    ensures
        r@ == b@.subrange(at as int, at + N),
{
    let mut r = [0u8; N];
    let mut i: usize = 0;
    while i < N
        invariant
            i <= N,
            at + N <= b.len(),
            r@.len() == N,
            forall|j: int| 0 <= j < i ==> r@[j] == b@[at + j],
        decreases N - i,
    {
        r[i] = b[at + i];
        i = i + 1;
    }
    assert(r@ =~= b@.subrange(at as int, at + N));
    r
}

/// Lays out `k`: the session keys, the entry count, then the channel entries in the
/// order the table yields them.
pub fn encode_session_keys(k: &SessionKeys) -> (r: Vec<u8>)
    ensures
        exists|es: Seq<(u32, ChannelKeysView)>|
            enumerates(es, k@.channel_keys) && es.len() == k@.channel_keys.dom().len() && r@ == key_layout(k@, es),
{
    let mut out: Vec<u8> = Vec::new();
    append_bytes(&mut out, k.master_key.as_slice());
    append_bytes(&mut out, k.encryption_key.as_slice());
    append_bytes(&mut out, k.authentication_key.as_slice());
    append_bytes(&mut out, k.iv_salt.as_slice());
    let count: usize = k.channel_keys.len();
    put_u64_le(&mut out, count as u64);
    let ghost head = out@;
    let ghost mut es: Seq<(u32, ChannelKeysView)> = Seq::empty();
    let ghost all = spec_hash_map_iter(&k.channel_keys).remaining();
    for entry in it: k.channel_keys.iter()
        invariant
            it.seq() == all,
            out@ == head + entries_bytes(es),
            es.len() == it.index(),
            forall|i: int| 0 <= i < it.index() ==> #[trigger] es[i] == (*it.seq()[i].0, (*it.seq()[i].1)@),
    {
        let (id, c) = entry;
        put_u32_le(&mut out, *id);
        append_bytes(&mut out, c.encryption_key.as_slice());
        append_bytes(&mut out, c.authentication_key.as_slice());
        append_bytes(&mut out, c.iv_salt.as_slice());
        proof {
            let es0 = es;
            es = es.push((*id, c@));
            assert(es.drop_last() =~= es0);
            assert(out@ =~= head + entries_bytes(es));
        }
    }
    proof {
        let m = k.channel_keys@;
        let mv = k@.channel_keys;
        assert(es.len() == all.len());
        assert(all.no_duplicates());
        assert(count == m.len());
        assert forall|i: int, j: int| 0 <= i < j < es.len() implies (#[trigger] es[i]).0 != (#[trigger] es[j]).0 by {
            if es[i].0 == es[j].0 {
                assert(m.contains_key(*all[i].0) && m[*all[i].0] == *all[i].1);
                assert(m.contains_key(*all[j].0) && m[*all[j].0] == *all[j].1);
                assert(all[i] == all[j]);
            }
        }
        assert forall|i: int| 0 <= i < es.len() implies mv.contains_key((#[trigger] es[i]).0) && mv[es[i].0] == es[i].1 by {
            assert(m.contains_key(*all[i].0) && m[*all[i].0] == *all[i].1);
        }
        assert forall|id: u32| #[trigger] mv.contains_key(id) implies exists|i: int| 0 <= i < es.len() && (#[trigger] es[i]).0 == id by {
            assert(m.contains_key(id));
            assert(all.contains((&id, &m[id])));
            let i = choose|i: int| 0 <= i < all.len() && all[i] == (&id, &m[id]);
            assert(es[i].0 == id);
        }
        assert(enumerates(es, mv));
        assert(mv.dom() =~= m.dom());
        assert(out@ =~= key_layout(k@, es));
    }
    out
}

/// Reads key material back from its layout.
pub fn decode_session_keys(b: &[u8]) -> (r: Result<SessionKeys, ProtocolError>)
    ensures
        match spec_decode_keys(b@) {
            Some(v) => r matches Ok(k) && k@ == v,
            None => r matches Err(ProtocolError::Deserialization(_)),
        },
{
    if b.len() < KEYS_HEADER_LEN {
        return Err(ProtocolError::Deserialization("session key material is truncated".to_string()));
    }
    let n: u64 = get_u64_le(b, 112);
    let rest: usize = b.len() - KEYS_HEADER_LEN;
    let whole: bool = rest % CHANNEL_ENTRY_LEN == 0;
    let entries: usize = rest / CHANNEL_ENTRY_LEN;
    proof {
        assert(whole && entries == n <==> rest == CHANNEL_ENTRY_LEN * n) by (nonlinear_arith)
            requires
                whole == (rest % 84 == 0),
                entries == rest / 84,
                CHANNEL_ENTRY_LEN == 84,
        ;
    }
    if !whole || entries as u64 != n {
        return Err(ProtocolError::Deserialization("session key material has the wrong length".to_string()));
    }
    let mut table: HashMap<u32, ChannelKeys> = HashMap::new();
    let mut i: usize = 0;
    while i < entries
        invariant
            i <= entries,
            entries == n,
            b.len() == KEYS_HEADER_LEN + CHANNEL_ENTRY_LEN * entries,
            table@.map_values(|c: ChannelKeys| c@) == entries_map(b@, i as nat),
            entry_ids_distinct(b@, i as nat),
        decreases entries - i,
    {
        proof {
            assert(CHANNEL_ENTRY_LEN * i + CHANNEL_ENTRY_LEN <= CHANNEL_ENTRY_LEN * entries) by (nonlinear_arith)
                requires
                    i < entries,
            ;
        }
        let at: usize = KEYS_HEADER_LEN + CHANNEL_ENTRY_LEN * i;
        let id: u32 = get_u32_le(b, at);
        proof {
            lemma_entries_map_dom(b@, i as nat);
        }
        if table.contains_key(&id) {
            proof {
                assert(entries_map(b@, i as nat).contains_key(id));
                let j = choose|j: int| 0 <= j < i && entry_id(b@, j) == id;
                assert(entry_id(b@, j) == entry_id(b@, i as int));
                assert(!entry_ids_distinct(b@, n as nat));
            }
            return Err(ProtocolError::Deserialization("session key material repeats a channel".to_string()));
        }
        let encryption_key: [u8; 32] = read_array(b, at + 4);
        let authentication_key: [u8; 32] = read_array(b, at + 36);
        let iv_salt: [u8; 16] = read_array(b, at + 68);
        let keys = ChannelKeys { encryption_key, authentication_key, iv_salt };
        assert(keys@ == entry_keys(b@, i as int));
        table.insert(id, keys);
        proof {
            assert(!entries_map(b@, i as nat).contains_key(id));
            assert(table@.map_values(|c: ChannelKeys| c@) =~= entries_map(b@, (i + 1) as nat));
            assert forall|x: int, y: int| 0 <= x < y < i + 1 implies entry_id(b@, x) != entry_id(b@, y) by {
                if y == i {
                    assert(!entries_map(b@, i as nat).contains_key(id));
                    if entry_id(b@, x) == entry_id(b@, y) {
                        assert(exists|j: int| 0 <= j < i && entry_id(b@, j) == id);
                    }
                }
            }
        }
        i = i + 1;
    }
    let master_key: [u8; 32] = read_array(b, 0);
    let encryption_key: [u8; 32] = read_array(b, 32);
    let authentication_key: [u8; 32] = read_array(b, 64);
    let iv_salt: [u8; 16] = read_array(b, 96);
    Ok(SessionKeys { master_key, encryption_key, authentication_key, iv_salt, channel_keys: table })
}

} // verus!
