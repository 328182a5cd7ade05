//! NFS file handles: opaque bearer tokens, each with a keyed-BLAKE3 tag that stops local forgery.
//!
//! Layout, big-endian: `"MST1"` | share (2) | flags (2) | inode (8) | generation (4) | tag (8).
//! Twenty-eight bytes, within the sixty-four that NFSv3 allows.
use crate::bytes::{be16, de16};
use crate::digest::{blake3_hash, blake3_keyed, hash, keyed_hash};
use crate::types::NodeKey;
use crate::xdr::{be32_len, de32, de64, u32_round_trip, u64_round_trip, Wire, XdrReader, XdrWriter};
use vstd::prelude::*;
use vstd::slice::slice_subrange;

verus! {

pub const HANDLE_LEN: usize = 28;

/// The first four bytes of every handle: `MST1`.
pub open spec fn magic() -> Seq<u8> {
    seq![77u8, 83, 84, 49]
}

/// What a handle says before its tag; this is what the tag covers.
pub open spec fn handle_head(share: u16, flags: u16, node: NodeKey) -> Seq<u8> {
    (magic() + be16(share) + be16(flags)).put_u64(node.ino).put_u32(node.generation)
}

/// The tag of a handle: the first eight bytes of the keyed digest of its head.
pub open spec fn tag_of(key: Seq<u8>, share: u16, flags: u16, node: NodeKey) -> u64 {
    de64(blake3_keyed(key, handle_head(share, flags, node)))
}

/// A whole handle.
pub open spec fn handle_bytes(share: u16, flags: u16, node: NodeKey, tag: u64) -> Seq<u8> {
    handle_head(share, flags, node).put_u64(tag)
}

/// What the bytes of a handle name, before anything is asked of the tag. `None` where the length
/// or the first four bytes are wrong.
pub open spec fn handle_fields(fh: Seq<u8>) -> Option<(u16, u16, NodeKey, u64)> {
    if fh.len() != HANDLE_LEN || fh.take(4) != magic() {
        None
    } else {
        Some((
            de16(fh.skip(4)),
            de16(fh.skip(6)),
            NodeKey { ino: de64(fh.skip(8)), generation: de32(fh.skip(16)) },
            de64(fh.skip(20)),
        ))
    }
}

/// The share and node that a handle gives access to under `key`: those it names, if its tag is
/// the right one.
pub open spec fn handle_target(key: Seq<u8>, fh: Seq<u8>) -> Option<(u16, NodeKey)> {
    match handle_fields(fh) {
        None => None,
        Some((share, flags, node, tag)) => if tag == tag_of(key, share, flags, node) {
            Some((share, node))
        } else {
            None
        },
    }
}

/// Mints and checks the handles of one server.
#[derive(Debug, Clone)]
pub struct HandleCodec {
    key: [u8; 32],
}

/// The fields of a handle, its tag not yet checked.
pub fn parse_handle(fh: &[u8]) -> (res: Option<(u16, u16, NodeKey, u64)>)
    ensures
        res == handle_fields(fh@),
{
    if fh.len() != HANDLE_LEN {
        return None;
    }
    if fh[0] != 77 || fh[1] != 83 || fh[2] != 84 || fh[3] != 49 {
        proof {
            assert(fh@.take(4)[0] == fh@[0] && fh@.take(4)[1] == fh@[1] && fh@.take(4)[2] == fh@[2]
                && fh@.take(4)[3] == fh@[3]);
        }
        return None;
    }
    let share: u16 = fh[4] as u16 * 0x100 + fh[5] as u16;
    let flags: u16 = fh[6] as u16 * 0x100 + fh[7] as u16;
    let mut r = XdrReader::new(slice_subrange(fh, 8, HANDLE_LEN));
    let (ino, generation, tag): (u64, u32, u64) = match (r.u64(), r.u32(), r.u64()) {
        (Ok(a), Ok(b), Ok(c)) => (a, b, c),
        _ => {
            return None;
        },
    };
    proof {
        assert(fh@.take(4) =~= magic());
        let t = fh@.subrange(8, 28);
        assert(t =~= fh@.skip(8));
        assert(t.skip(8) =~= fh@.skip(16));
        assert(t.skip(8).skip(4) =~= fh@.skip(20));
    }
    Some((share, flags, NodeKey { ino, generation }, tag))
}

impl HandleCodec {
    /// The key that tags handles.
    pub closed spec fn key(&self) -> Seq<u8> {
        self.key@
    }

    pub fn new(secret: &[u8]) -> (c: Self)
        ensures
            c.key() == blake3_hash(secret@),
    {
        HandleCodec { key: hash(secret) }
    }

    fn mac(&self, share: u16, flags: u16, node: NodeKey) -> (tag: u64)
        ensures
            tag == tag_of(self.key(), share, flags, node),
    {
        let head = head_bytes(share, flags, node);
        let digest = keyed_hash(&self.key, head.as_slice());
        let mut r = XdrReader::new(digest.as_slice());
        match r.u64() {
            Ok(v) => v,
            Err(_) => 0,
        }
    }

    /// The handle of a node.
    pub fn encode(&self, share: u16, node: NodeKey) -> (fh: Vec<u8>)
        ensures
            fh@ == handle_bytes(share, 0, node, tag_of(self.key(), share, 0, node)),
            fh@.len() == HANDLE_LEN,
    {
        broadcast use be32_len;

        let tag: u64 = self.mac(share, 0, node);
        let mut w = XdrWriter::new();
        let head = head_bytes(share, 0, node);
        let buf = w.buf_mut();
        *buf = head;
        w.u64(tag);
        w.into_bytes()
    }

    /// Decode and verify: the share and node, or nothing on a bad length, magic or tag.
    pub fn decode(&self, fh: &[u8]) -> (res: Option<(u16, NodeKey)>)
        ensures
            res == handle_target(self.key(), fh@),
    {
        let (share, flags, node, tag) = match parse_handle(fh) {
            Some(fields) => fields,
            None => {
                return None;
            },
        };
        if tag != self.mac(share, flags, node) {
            return None;
        }
        Some((share, node))
    }
}

fn head_bytes(share: u16, flags: u16, node: NodeKey) -> (head: Vec<u8>)
    ensures
        head@ == handle_head(share, flags, node),
{
    let mut w = XdrWriter::new();
    let buf = w.buf_mut();
    buf.push(77);
    buf.push(83);
    buf.push(84);
    buf.push(49);
    buf.push((share / 0x100) as u8);
    buf.push((share % 0x100) as u8);
    buf.push((flags / 0x100) as u8);
    buf.push((flags % 0x100) as u8);
    proof {
        assert(w@ =~= magic() + be16(share) + be16(flags));
    }
    w.u64(node.ino);
    w.u32(node.generation);
    w.into_bytes()
}

/// The fields that go into a handle are the fields that come out of it.
pub proof fn handle_fields_round_trip(share: u16, flags: u16, node: NodeKey, tag: u64)
    ensures
        handle_fields(handle_bytes(share, flags, node, tag)) == Some((share, flags, node, tag)),
{
    broadcast use be32_len;

    let fh = handle_bytes(share, flags, node, tag);
    let e = Seq::<u8>::empty();
    assert(fh.take(4) =~= magic());
    assert(fh.skip(4)[0] == be16(share)[0] && fh.skip(4)[1] == be16(share)[1]);
    assert(fh.skip(6)[0] == be16(flags)[0] && fh.skip(6)[1] == be16(flags)[1]);
    let t3 = e.put_u64(tag) + e;
    let t2 = e.put_u32(node.generation) + t3;
    assert(fh.skip(8) =~= e.put_u64(node.ino) + t2);
    assert(fh.skip(16) =~= t2);
    assert(fh.skip(20) =~= t3);
    u64_round_trip(node.ino, t2);
    u32_round_trip(node.generation, t3);
    u64_round_trip(tag, e);
}

/// A minted handle gives access, under the same key, to exactly the share and node it was minted
/// for.
pub proof fn minted_handle_accepted(key: Seq<u8>, share: u16, node: NodeKey)
    ensures
        handle_target(key, handle_bytes(share, 0, node, tag_of(key, share, 0, node))) == Some(
            (share, node),
        ),
{
    handle_fields_round_trip(share, 0, node, tag_of(key, share, 0, node));
}

/// A handle is accepted only with the tag that the key gives to what it names: whoever alters a
/// field has to know the tag of the altered handle.
pub proof fn forged_handle_refused(key: Seq<u8>, share: u16, flags: u16, node: NodeKey, tag: u64)
    requires
        tag != tag_of(key, share, flags, node),
    ensures
        handle_target(key, handle_bytes(share, flags, node, tag)) is None,
{
    handle_fields_round_trip(share, flags, node, tag);
}

/// Handles of different nodes or shares are different, whatever the keys.
pub proof fn handles_are_distinct(
    key1: Seq<u8>,
    share1: u16,
    node1: NodeKey,
    key2: Seq<u8>,
    share2: u16,
    node2: NodeKey,
)
    requires
        (share1, node1) != (share2, node2),
    ensures
        handle_bytes(share1, 0, node1, tag_of(key1, share1, 0, node1)) != handle_bytes(
            share2,
            0,
            node2,
            tag_of(key2, share2, 0, node2),
        ),
{
    handle_fields_round_trip(share1, 0, node1, tag_of(key1, share1, 0, node1));
    handle_fields_round_trip(share2, 0, node2, tag_of(key2, share2, 0, node2));
}

} // verus!
