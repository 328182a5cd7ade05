use mist::bufpool::{give, Pool, MIN_KEEP};
use mist::handle::{HandleCodec, HANDLE_LEN};
use mist::rpc::{
    mismatch_pooled, parse_call, reply_accepted, reply_pooled, reply_prog_mismatch,
    RpcDecodeError, ACCEPT_SUCCESS, AUTH_NONE, AUTH_SYS, MSG_TYPE_CALL, MSG_TYPE_REPLY, RPC_VERSION,
};
use mist::server::{record_marker, reply_marker, RecordReader, Reply};
use mist::surface::SendRange;
use mist::types::NodeKey;
use mist::xdr::{XdrError, XdrReader, XdrWriter};

#[test]
fn roundtrip_primitives() {
    let mut w = XdrWriter::new();
    w.u32(0xDEAD_BEEF);
    w.u64(0x0102_0304_0506_0708);
    w.bool(true);
    w.opaque(b"hello");
    w.fixed(&[1, 2, 3, 4]);
    let bytes = w.into_bytes();

    let mut r = XdrReader::new(&bytes);
    assert_eq!(r.u32().unwrap(), 0xDEAD_BEEF);
    assert_eq!(r.u64().unwrap(), 0x0102_0304_0506_0708);
    assert!(r.bool().unwrap());
    assert_eq!(r.opaque(16).unwrap(), b"hello");
    assert_eq!(r.fixed(4).unwrap(), &[1, 2, 3, 4]);
    assert_eq!(r.remaining(), 0);
}

#[test]
fn opaque_padding_is_4_byte_aligned() {
    let mut w = XdrWriter::new();
    w.opaque(b"abc");
    let b = w.into_bytes();
    assert_eq!(b.len(), 4 + 4);
    assert_eq!(&b[4..7], b"abc");
    assert_eq!(b[7], 0);
}

#[test]
fn underflow_errors_not_panics() {
    let mut r = XdrReader::new(&[0, 0, 0]);
    assert_eq!(r.u32(), Err(XdrError));
}

#[test]
fn opaque_cap_enforced() {
    let mut w = XdrWriter::new();
    let big = [0u8; 100];
    w.opaque(&big);
    let b = w.into_bytes();
    let mut r = XdrReader::new(&b);
    assert_eq!(r.opaque(16), Err(XdrError));
}

#[test]
fn patched_word_is_big_endian() {
    let mut w = XdrWriter::new();
    w.u32(0);
    w.u32(7);
    w.patch_u32(0, 0x0102_0304);
    assert_eq!(w.into_bytes(), vec![1, 2, 3, 4, 0, 0, 0, 7]);
}

#[test]
fn parse_authsys_call() {
    let mut w = XdrWriter::new();
    w.u32(0x1234);
    w.u32(MSG_TYPE_CALL);
    w.u32(RPC_VERSION);
    w.u32(100003);
    w.u32(3);
    w.u32(1);
    w.u32(AUTH_SYS);
    let mut cred = XdrWriter::new();
    cred.u32(0);
    cred.opaque(b"mac");
    cred.u32(501);
    cred.u32(20);
    cred.u32(0);
    w.opaque(&cred.into_bytes());
    w.u32(AUTH_NONE);
    w.opaque(&[]);
    w.u32(0xCAFE);

    let bytes = w.into_bytes();
    let (call, mut args) = parse_call(&bytes).unwrap();
    assert_eq!(call.xid, 0x1234);
    assert_eq!(call.program, 100003);
    assert_eq!(call.procedure, 1);
    assert_eq!(call.uid, 501);
    assert_eq!(call.gid, 20);
    assert_eq!(args.u32().unwrap(), 0xCAFE);
}

#[test]
fn rejects_non_call() {
    let mut w = XdrWriter::new();
    w.u32(1);
    w.u32(MSG_TYPE_REPLY);
    let bytes = w.into_bytes();
    assert!(matches!(parse_call(&bytes), Err(RpcDecodeError::NotCall)));
}

#[test]
fn rejects_other_rpc_version_and_short_calls() {
    let mut w = XdrWriter::new();
    w.u32(1);
    w.u32(MSG_TYPE_CALL);
    w.u32(3);
    let bytes = w.into_bytes();
    assert!(matches!(parse_call(&bytes), Err(RpcDecodeError::BadVersion(3))));
    assert!(matches!(parse_call(&[0, 0]), Err(RpcDecodeError::Xdr(_))));
}

#[test]
fn reply_headers() {
    let w = reply_accepted(9, ACCEPT_SUCCESS);
    let b = w.into_bytes();
    assert_eq!(b.len(), 24);
    assert_eq!(&b[..8], &[0, 0, 0, 9, 0, 0, 0, 1]);
    let m = reply_prog_mismatch(9, 3, 4).into_bytes();
    assert_eq!(&m[20..], &[0, 0, 0, 2, 0, 0, 0, 3, 0, 0, 0, 4]);
}

#[test]
fn roundtrip() {
    let c = HandleCodec::new(b"secret");
    let node = NodeKey {
        ino: 0xABCD,
        generation: 9,
    };
    let fh = c.encode(3, node);
    assert_eq!(fh.len(), HANDLE_LEN);
    assert_eq!(c.decode(&fh), Some((3, node)));
}

#[test]
fn forgery_rejected() {
    let c = HandleCodec::new(b"secret");
    let node = NodeKey {
        ino: 1,
        generation: 1,
    };
    let mut fh = c.encode(0, node);
    fh[10] ^= 0xFF;
    assert_eq!(c.decode(&fh), None);
}

#[test]
fn wrong_key_rejected() {
    let a = HandleCodec::new(b"key-a");
    let b = HandleCodec::new(b"key-b");
    let fh = a.encode(
        0,
        NodeKey {
            ino: 5,
            generation: 0,
        },
    );
    assert_eq!(b.decode(&fh), None);
}

#[test]
fn bad_length_and_magic() {
    let c = HandleCodec::new(b"k");
    assert_eq!(c.decode(&[0u8; 10]), None);
    assert_eq!(c.decode(&[0u8; HANDLE_LEN]), None);
}

#[test]
fn handle_tag_is_the_keyed_digest() {
    let c = HandleCodec::new(b"secret");
    let node = NodeKey {
        ino: 7,
        generation: 2,
    };
    let fh = c.encode(1, node);
    let again = c.encode(1, node);
    assert_eq!(fh, again);
    assert_ne!(fh[20..], [0u8; 8]);
    assert_ne!(fh, c.encode(2, node));
}

#[test]
fn record_markers() {
    assert_eq!(record_marker(10), 0x8000_000A);
    assert_eq!(reply_marker(&Reply::Whole(Vec::new())), None);
    assert_eq!(reply_marker(&Reply::Whole(vec![1, 2, 3])), Some(0x8000_0003));
    let r = Reply::HeadAndFile {
        head: vec![0; 8],
        body: SendRange { len: 5, eof: true },
        pad: 3,
    };
    assert_eq!(reply_marker(&r), Some(0x8000_0010));
    let mut rd = RecordReader::new();
    assert!(rd.at_boundary(0));
    assert!(!rd.at_boundary(2));
    let mut empty = RecordReader::new();
    empty.push(&[]);
    assert!(!empty.at_boundary(0));
    assert_eq!(rd.expect(0x8000_0004).ok(), Some((true, 4)));
    assert!(rd.expect(0x7FFF_FFFF).is_err());
    rd.push(&[1, 2, 3, 4]);
    assert_eq!(rd.finish(), vec![1, 2, 3, 4]);
}

#[test]
fn replies_are_written_into_pooled_buffers() {
    let mut pool = Pool::new();
    give(&mut pool, Vec::with_capacity(2 * MIN_KEEP));
    let w = reply_pooled(&mut pool, 9, ACCEPT_SUCCESS);
    let bytes = w.into_bytes();
    assert!(bytes.capacity() >= 2 * MIN_KEEP, "the pooled buffer was taken");
    assert_eq!(bytes, reply_accepted(9, ACCEPT_SUCCESS).into_bytes());
    give(&mut pool, bytes);
    let m = mismatch_pooled(&mut pool, 9, 3, 4).into_bytes();
    assert!(m.capacity() >= 2 * MIN_KEEP, "and used again");
    assert_eq!(m, reply_prog_mismatch(9, 3, 4).into_bytes());
}
