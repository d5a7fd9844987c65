//! Byte records kept as base64 text: the epoch's computor list, raw peer
//! responses and a tick's transaction digests. The statements that store
//! them, and the bytes read back from their rows.
use vstd::prelude::*;
use crate::base64_text::{
    b64_encoded, b64_no_pad_decoded, b64_padded_decoded, b64_reads_back, decode_no_pad, decode_padded,
    encode_no_pad, encode_padded,
};
use crate::session_store::{binds_of, columns_of, Statement};
use crate::text::{decimal, decimal_text, parse_u32, parsed_u32, u32_text_reads_back};

verus! {

/// Computors per epoch.
pub const NUM_COMPUTORS: usize = 676;
/// Bytes of the computors' public keys, 32 each.
pub const KEYS_LEN: usize = 21632;
/// Bytes of the list's signature.
pub const SIGNATURE_LEN: usize = 64;
/// Bytes of a computor list as the network sends it: epoch (2, little
/// endian), keys, signature.
pub const RECORD_LEN: usize = 21698;

pub const SQL_INSERT_COMPUTORS_FROM_PEER: &'static str = "INSERT INTO computors (peer, epoch, pub_keys, signature) VALUES(:peer, :epoch, :keys, :sig) ON CONFLICT(epoch) DO NOTHING;";
pub const SQL_INSERT_COMPUTORS: &'static str = "INSERT INTO computors (epoch, pub_keys, signature) VALUES(:epoch, :keys, :sig) ON CONFLICT(epoch) DO NOTHING;";
pub const SQL_COMPUTORS_BY_EPOCH: &'static str = "SELECT epoch, pub_keys, signature FROM computors WHERE epoch = :epoch ORDER BY epoch DESC LIMIT 1;";
pub const SQL_LATEST_COMPUTORS: &'static str = "SELECT epoch, pub_keys, signature FROM computors ORDER BY epoch DESC LIMIT 1;";
pub const SQL_INSERT_RESPONSE: &'static str = "INSERT INTO response (peer, header, type, data) VALUES (:peer, :header, :response_type, :data);";
pub const SQL_RESPONSES_BY_TYPE: &'static str = "SELECT * FROM response WHERE type = :response_type ORDER BY created DESC;";
pub const SQL_SET_TICK_DIGESTS: &'static str = "UPDATE tick SET transaction_digests = :digests WHERE tick = :tick;";

/// A copy of `bytes[from..to]`.
fn copy_range(bytes: &Vec<u8>, from: usize, to: usize) -> (out: Vec<u8>)
    requires
        from <= to <= bytes@.len(),
    ensures
        out@ == bytes@.subrange(from as int, to as int),
{
    let mut out: Vec<u8> = Vec::new();
    let mut i: usize = from;
    while i < to
        invariant
            from <= i <= to,
            to <= bytes@.len(),
            out@ == bytes@.subrange(from as int, i as int),
        decreases to - i,
    {
        out.push(bytes[i]);
        assert(out@ =~= bytes@.subrange(from as int, i + 1));
        i = i + 1;
    }
    out
}

/// The epoch of a computor list: its first two bytes, little endian.
pub open spec fn le_u16(b0: u8, b1: u8) -> nat {
    (b0 + 256 * b1) as nat
}

/// Stores a computor list received from `peer`, given as the network sends
/// it; an epoch already stored is kept.
pub fn insert_computors_from_bytes(peer: &str, bytes: &Vec<u8>) -> (st: Statement)
    requires
        bytes@.len() == RECORD_LEN,
    ensures
        st.sql == SQL_INSERT_COMPUTORS_FROM_PEER,
        binds_of(st) == seq![
            (":peer"@, peer@),
            (":epoch"@, decimal(le_u16(bytes@[0], bytes@[1]))),
            (":keys"@, b64_encoded(bytes@.subrange(2, 2 + KEYS_LEN), false)),
            (":sig"@, b64_encoded(bytes@.subrange(2 + KEYS_LEN, RECORD_LEN as int), false)),
        ],
        st.columns@.len() == 0,
{
    let epoch: u64 = bytes[0] as u64 + 256 * (bytes[1] as u64);
    let keys = copy_range(bytes, 2, 2 + KEYS_LEN);
    let sig = copy_range(bytes, 2 + KEYS_LEN, RECORD_LEN);
    let binds = vec![
        (":peer", String::from_str(peer)),
        (":epoch", decimal_text(epoch)),
        (":keys", encode_no_pad(keys.as_slice())),
        (":sig", encode_no_pad(sig.as_slice())),
    ];
    let st = Statement { sql: SQL_INSERT_COMPUTORS_FROM_PEER, binds, columns: Vec::new() };
    assert(binds_of(st) =~= seq![
        (":peer"@, peer@),
        (":epoch"@, decimal(le_u16(bytes@[0], bytes@[1]))),
        (":keys"@, b64_encoded(bytes@.subrange(2, 2 + KEYS_LEN), false)),
        (":sig"@, b64_encoded(bytes@.subrange(2 + KEYS_LEN, RECORD_LEN as int), false)),
    ]);
    st
}

/// The keys one after the other.
pub open spec fn joined(keys: Seq<Seq<u8>>) -> Seq<u8>
    decreases keys.len(),
{
    if keys.len() == 0 {
        Seq::empty()
    } else {
        joined(keys.drop_last()) + keys.last()
    }
}

/// The key block of a list of 32-byte keys: the keys in order, then zeros
/// for the computors not given.
pub open spec fn key_block(keys: Seq<Seq<u8>>) -> Seq<u8> {
    joined(keys) + Seq::new((KEYS_LEN - 32 * keys.len()) as nat, |i: int| 0u8)
}

proof fn joined_len(keys: Seq<Seq<u8>>)
    requires
        forall|k: int| 0 <= k < keys.len() ==> #[trigger] keys[k].len() == 32,
    ensures
        joined(keys).len() == 32 * keys.len(),
    decreases keys.len(),
{
    if keys.len() > 0 {
        joined_len(keys.drop_last());
    }
}

/// The views of a list of byte vectors.
pub open spec fn byte_views(v: Seq<Vec<u8>>) -> Seq<Seq<u8>> {
    v.map_values(|b: Vec<u8>| b@)
}

/// Stores a computor list given as its parts: at most 676 keys of 32 bytes
/// (the rest of the key block zero) and the signature.
pub fn insert_computors_from_parts(epoch: u16, pub_keys: &Vec<Vec<u8>>, signature: &Vec<u8>) -> (st: Statement)
    requires
        pub_keys@.len() <= NUM_COMPUTORS,
        forall|k: int| 0 <= k < pub_keys@.len() ==> #[trigger] pub_keys@[k]@.len() == 32,
    ensures
        st.sql == SQL_INSERT_COMPUTORS,
        binds_of(st) == seq![
            (":epoch"@, decimal(epoch as nat)),
            (":keys"@, b64_encoded(key_block(byte_views(pub_keys@)), false)),
            (":sig"@, b64_encoded(signature@, false)),
        ],
        st.columns@.len() == 0,
{
    let ghost keys = byte_views(pub_keys@);
    let mut block: Vec<u8> = Vec::new();
    let mut i: usize = 0;
    while i < pub_keys.len()
        invariant
            i <= pub_keys@.len(),
            pub_keys@.len() <= NUM_COMPUTORS,
            keys == byte_views(pub_keys@),
            forall|k: int| 0 <= k < pub_keys@.len() ==> #[trigger] pub_keys@[k]@.len() == 32,
            block@ == joined(keys.take(i as int)),
            block@.len() == 32 * i,
        decreases pub_keys.len() - i,
    {
        assert(keys.take(i + 1).drop_last() =~= keys.take(i as int));
        assert(keys.take(i + 1).last() == pub_keys@[i as int]@);
        let key = &pub_keys[i];
        let mut j: usize = 0;
        let ghost start = block@;
        while j < key.len()
            invariant
                j <= key@.len(),
                key@.len() == 32,
                block@ == start + key@.take(j as int),
                start.len() <= 32 * NUM_COMPUTORS,
            decreases key.len() - j,
        {
            block.push(key[j]);
            assert(block@ =~= start + key@.take(j + 1));
            j = j + 1;
        }
        assert(key@.take(32) =~= key@);
        i = i + 1;
    }
    assert(keys.take(pub_keys@.len() as int) =~= keys);
    proof {
        joined_len(keys);
    }
    let ghost filled = block@;
    while block.len() < KEYS_LEN
        invariant
            filled.len() <= block@.len() <= KEYS_LEN,
            block@ == filled + Seq::new((block@.len() - filled.len()) as nat, |k: int| 0u8),
        decreases KEYS_LEN - block.len(),
    {
        let ghost before = block@;
        block.push(0u8);
        assert(block@ =~= filled + Seq::new((block@.len() - filled.len()) as nat, |k: int| 0u8));
    }
    assert(block@ =~= key_block(keys));
    let binds = vec![
        (":epoch", decimal_text(epoch as u64)),
        (":keys", encode_no_pad(block.as_slice())),
        (":sig", encode_no_pad(signature.as_slice())),
    ];
    let st = Statement { sql: SQL_INSERT_COMPUTORS, binds, columns: Vec::new() };
    assert(binds_of(st) =~= seq![
        (":epoch"@, decimal(epoch as nat)),
        (":keys"@, b64_encoded(key_block(byte_views(pub_keys@)), false)),
        (":sig"@, b64_encoded(signature@, false)),
    ]);
    st
}

/// The columns a computor row is read from.
pub open spec fn computor_columns() -> Seq<Seq<char>> {
    seq!["epoch"@, "pub_keys"@, "signature"@]
}

/// The computor list stored for an epoch.
pub fn fetch_computors_by_epoch(epoch: u16) -> (st: Statement)
    ensures
        st.sql == SQL_COMPUTORS_BY_EPOCH,
        binds_of(st) == seq![(":epoch"@, decimal(epoch as nat))],
        columns_of(st) == computor_columns(),
{
    let binds = vec![(":epoch", decimal_text(epoch as u64))];
    let st = Statement { sql: SQL_COMPUTORS_BY_EPOCH, binds, columns: vec!["epoch", "pub_keys", "signature"] };
    assert(binds_of(st) =~= seq![(":epoch"@, decimal(epoch as nat))]);
    assert(columns_of(st) =~= computor_columns());
    st
}

/// The computor list of the latest epoch stored.
pub fn fetch_latest_computors() -> (st: Statement)
    ensures
        st.sql == SQL_LATEST_COMPUTORS,
        binds_of(st) == Seq::<(Seq<char>, Seq<char>)>::empty(),
        columns_of(st) == computor_columns(),
{
    let st = Statement { sql: SQL_LATEST_COMPUTORS, binds: Vec::new(), columns: vec!["epoch", "pub_keys", "signature"] };
    assert(binds_of(st) =~= Seq::<(Seq<char>, Seq<char>)>::empty());
    assert(columns_of(st) =~= computor_columns());
    st
}

/// What `str::parse::<u16>` gives for a text.
pub open spec fn parsed_u16(s: Seq<char>) -> Option<u16> {
    match parsed_u32(s) {
        Some(v) => if v <= 65535 {
            Some(v as u16)
        } else {
            None
        },
        None => None,
    }
}

/// The bytes of a computor row: the epoch (little endian), then the keys and
/// the signature decoded. `None` where the epoch does not read as a `u16`,
/// a column is not unpadded base64, or the decoded parts are not
/// `keys_len` and `sig_len` bytes long.
pub open spec fn spec_computor_bytes(epoch: Seq<char>, keys: Seq<char>, sig: Seq<char>, keys_len: nat, sig_len: nat) -> Option<Seq<u8>> {
    match (parsed_u16(epoch), b64_no_pad_decoded(keys), b64_no_pad_decoded(sig)) {
        (Some(e), Some(k), Some(s)) => if k.len() == keys_len && s.len() == sig_len {
            Some(seq![(e % 256) as u8, (e / 256) as u8] + k + s)
        } else {
            None
        },
        _ => None,
    }
}

fn computor_bytes(epoch: &str, keys: &str, sig: &str, keys_len: usize, sig_len: usize) -> (r: Option<Vec<u8>>)
    ensures
        match spec_computor_bytes(epoch@, keys@, sig@, keys_len as nat, sig_len as nat) {
            Some(b) => r is Some && r->0@ == b,
            None => r is None,
        },
{
    let e = match parse_u32(epoch) {
        Some(v) => if v <= 65535 {
            v
        } else {
            return None;
        },
        None => return None,
    };
    let k = match decode_no_pad(keys) {
        Some(k) => k,
        None => return None,
    };
    let s = match decode_no_pad(sig) {
        Some(s) => s,
        None => return None,
    };
    if k.len() != keys_len || s.len() != sig_len {
        return None;
    }
    let mut out: Vec<u8> = Vec::new();
    out.push((e % 256) as u8);
    out.push((e / 256) as u8);
    let ghost head = out@;
    let mut i: usize = 0;
    while i < k.len()
        invariant
            i <= k@.len(),
            out@ == head + k@.take(i as int),
        decreases k.len() - i,
    {
        out.push(k[i]);
        assert(out@ =~= head + k@.take(i + 1));
        i = i + 1;
    }
    assert(k@.take(k@.len() as int) =~= k@);
    let ghost mid = out@;
    let mut j: usize = 0;
    while j < s.len()
        invariant
            j <= s@.len(),
            out@ == mid + s@.take(j as int),
        decreases s.len() - j,
    {
        out.push(s[j]);
        assert(out@ =~= mid + s@.take(j + 1));
        j = j + 1;
    }
    assert(s@.take(s@.len() as int) =~= s@);
    proof {
        let ev = parsed_u16(epoch@)->0;
        assert(ev == e);
        assert(out@ =~= seq![(ev % 256) as u8, (ev / 256) as u8] + k@ + s@);
    }
    Some(out)
}

/// The computor list read back from a row fetched by epoch: epoch, keys
/// (21632 bytes) and signature (64 bytes).
pub fn computors_record(epoch: &str, keys: &str, sig: &str) -> (r: Option<Vec<u8>>)
    ensures
        match spec_computor_bytes(epoch@, keys@, sig@, KEYS_LEN as nat, SIGNATURE_LEN as nat) {
            Some(b) => r is Some && r->0@ == b,
            None => r is None,
        },
{
    computor_bytes(epoch, keys, sig, KEYS_LEN, SIGNATURE_LEN)
}

/// The computor list read back from the latest row: the epoch's two bytes,
/// then the keys over bytes 2 to 21632 (21630 bytes), then the signature
/// over the remaining 66.
pub fn latest_computors_record(epoch: &str, keys: &str, sig: &str) -> (r: Option<Vec<u8>>)
    ensures
        match spec_computor_bytes(epoch@, keys@, sig@, (KEYS_LEN - 2) as nat, (SIGNATURE_LEN + 2) as nat) {
            Some(b) => r is Some && r->0@ == b,
            None => r is None,
        },
{
    computor_bytes(epoch, keys, sig, KEYS_LEN - 2, SIGNATURE_LEN + 2)
}

/// Stores a peer's raw response: its 8-byte header and the rest as padded
/// base64, and its type (the header's last byte).
pub fn create_peer_response(peer: &str, data: &Vec<u8>) -> (st: Statement)
    requires
        data@.len() >= 8,
    ensures
        st.sql == SQL_INSERT_RESPONSE,
        binds_of(st) == seq![
            (":peer"@, peer@),
            (":header"@, b64_encoded(data@.subrange(0, 8), true)),
            (":response_type"@, decimal(data@[7] as nat)),
            (":data"@, b64_encoded(data@.subrange(8, data@.len() as int), true)),
        ],
        st.columns@.len() == 0,
{
    let header = copy_range(data, 0, 8);
    let rest = copy_range(data, 8, data.len());
    let binds = vec![
        (":peer", String::from_str(peer)),
        (":header", encode_padded(header.as_slice())),
        (":response_type", decimal_text(data[7] as u64)),
        (":data", encode_padded(rest.as_slice())),
    ];
    let st = Statement { sql: SQL_INSERT_RESPONSE, binds, columns: Vec::new() };
    assert(binds_of(st) =~= seq![
        (":peer"@, peer@),
        (":header"@, b64_encoded(data@.subrange(0, 8), true)),
        (":response_type"@, decimal(data@[7] as nat)),
        (":data"@, b64_encoded(data@.subrange(8, data@.len() as int), true)),
    ]);
    st
}

/// The stored responses of a type, newest first.
pub fn fetch_peer_response_by_type(response_type: u8) -> (st: Statement)
    ensures
        st.sql == SQL_RESPONSES_BY_TYPE,
        binds_of(st) == seq![(":response_type"@, decimal(response_type as nat))],
        columns_of(st) == seq!["header"@, "data"@],
{
    let binds = vec![(":response_type", decimal_text(response_type as u64))];
    let st = Statement { sql: SQL_RESPONSES_BY_TYPE, binds, columns: vec!["header", "data"] };
    assert(binds_of(st) =~= seq![(":response_type"@, decimal(response_type as nat))]);
    assert(columns_of(st) =~= seq!["header"@, "data"@]);
    st
}

/// A stored response read back: header then data, decoded; `None` where
/// either column is not padded base64.
pub fn response_bytes(header: &str, data: &str) -> (r: Option<Vec<u8>>)
    ensures
        match (b64_padded_decoded(header@), b64_padded_decoded(data@)) {
            (Some(h), Some(d)) => r is Some && r->0@ == h + d,
            _ => r is None,
        },
{
    let mut h = match decode_padded(header) {
        Some(h) => h,
        None => return None,
    };
    let d = match decode_padded(data) {
        Some(d) => d,
        None => return None,
    };
    let ghost head = h@;
    let mut i: usize = 0;
    while i < d.len()
        invariant
            i <= d@.len(),
            h@ == head + d@.take(i as int),
        decreases d.len() - i,
    {
        h.push(d[i]);
        assert(h@ =~= head + d@.take(i + 1));
        i = i + 1;
    }
    assert(d@.take(d@.len() as int) =~= d@);
    Some(h)
}

/// Stores a tick's transaction digests as unpadded base64.
pub fn set_tick_transaction_digests(tick: u32, digests: &Vec<u8>) -> (st: Statement)
    ensures
        st.sql == SQL_SET_TICK_DIGESTS,
        binds_of(st) == seq![(":digests"@, b64_encoded(digests@, false)), (":tick"@, decimal(tick as nat))],
        st.columns@.len() == 0,
{
    let binds = vec![(":digests", encode_no_pad(digests.as_slice())), (":tick", decimal_text(tick as u64))];
    let st = Statement { sql: SQL_SET_TICK_DIGESTS, binds, columns: Vec::new() };
    assert(binds_of(st) =~= seq![(":digests"@, b64_encoded(digests@, false)), (":tick"@, decimal(tick as nat))]);
    st
}

/// A stored peer response reads back as the bytes stored: the header and
/// data texts that `create_peer_response` binds decode, one after the other,
/// to the response it was given.
pub proof fn peer_response_reads_back(data: Seq<u8>)
    requires
        data.len() >= 8,
    ensures
        ({
            let header = b64_encoded(data.subrange(0, 8), true);
            let rest = b64_encoded(data.subrange(8, data.len() as int), true);
            match (b64_padded_decoded(header), b64_padded_decoded(rest)) {
                (Some(h), Some(d)) => h + d == data,
                _ => false,
            }
        }),
{
    b64_reads_back(data.subrange(0, 8), true);
    b64_reads_back(data.subrange(8, data.len() as int), true);
    assert(data.subrange(0, 8) + data.subrange(8, data.len() as int) =~= data);
}

/// A stored computor list reads back as the bytes stored: the epoch, keys
/// and signature texts that `insert_computors_from_bytes` binds give back,
/// through `computors_record`, the list it was given.
pub proof fn computor_list_reads_back(bytes: Seq<u8>)
    requires
        bytes.len() == RECORD_LEN,
    ensures
        spec_computor_bytes(
            decimal(le_u16(bytes[0], bytes[1])),
            b64_encoded(bytes.subrange(2, 2 + KEYS_LEN), false),
            b64_encoded(bytes.subrange(2 + KEYS_LEN, RECORD_LEN as int), false),
            KEYS_LEN as nat,
            SIGNATURE_LEN as nat,
        ) == Some(bytes),
{
    let e = le_u16(bytes[0], bytes[1]);
    u32_text_reads_back(e as u32);
    b64_reads_back(bytes.subrange(2, 2 + KEYS_LEN), false);
    b64_reads_back(bytes.subrange(2 + KEYS_LEN, RECORD_LEN as int), false);
    let ev = parsed_u16(decimal(e))->0;
    assert(ev == e);
    assert((ev % 256) as u8 == bytes[0]);
    assert((ev / 256) as u8 == bytes[1]);
    assert(seq![(ev % 256) as u8, (ev / 256) as u8] + bytes.subrange(2, 2 + KEYS_LEN) + bytes.subrange(
        2 + KEYS_LEN,
        RECORD_LEN as int,
    ) =~= bytes);
}

} // verus!
