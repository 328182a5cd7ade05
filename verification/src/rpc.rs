//! ONC-RPC message layer (RFC 5531): call headers in, reply headers out.
//!
//! AUTH_SYS and AUTH_NONE are accepted; the requester's uid and gid are reported and nothing
//! more is made of them.
use crate::bufpool::{drawn, take, Pool};
use crate::xdr::{get_opaque, get_u32, Wire, XdrError, XdrReader, XdrWriter};
use crate::xdr::{opaque_round_trip, u32_round_trip};
use vstd::prelude::*;

verus! {

pub const RPC_VERSION: u32 = 2;

pub const MSG_TYPE_CALL: u32 = 0;

pub const MSG_TYPE_REPLY: u32 = 1;

pub const REPLY_ACCEPTED: u32 = 0;

pub const ACCEPT_SUCCESS: u32 = 0;

pub const ACCEPT_PROG_UNAVAIL: u32 = 1;

pub const ACCEPT_PROG_MISMATCH: u32 = 2;

pub const ACCEPT_PROC_UNAVAIL: u32 = 3;

pub const AUTH_NONE: u32 = 0;

pub const AUTH_SYS: u32 = 1;

/// A decoded call header with the requester's Unix credentials (zero unless AUTH_SYS).
#[derive(Debug, Clone, Copy, PartialEq, Eq, Structural)]
pub struct RpcCall {
    pub xid: u32,
    pub program: u32,
    pub version: u32,
    pub procedure: u32,
    pub uid: u32,
    pub gid: u32,
}

#[derive(Debug, Clone, Copy, PartialEq, Eq, Structural)]
pub enum RpcDecodeError {
    Xdr(XdrError),
    NotCall,
    BadVersion(u32),
}

/// Credentials: a flavor and a body of at most 1024 bytes. An AUTH_SYS body starts with a
/// stamp, a machine name of at most 255 bytes, the uid and the gid; of any other flavor the body
/// is not looked at. `None` where the bytes run out.
pub open spec fn auth_of(s: Seq<u8>) -> Option<((u32, u32), Seq<u8>)> {
    let (flavor, s1) = get_u32(s);
    let (body, s2) = get_opaque(s1, 1024);
    if flavor is None || body is None {
        None
    } else if flavor == Some(AUTH_SYS) {
        let (stamp, b1) = get_u32(body->0);
        let (machine, b2) = get_opaque(b1, 255);
        let (uid, b3) = get_u32(b2);
        let (gid, b4) = get_u32(b3);
        if stamp is None || machine is None || uid is None || gid is None {
            None
        } else {
            Some(((uid->0, gid->0), s2))
        }
    } else {
        Some(((0, 0), s2))
    }
}

/// What the bytes of a record say as a call: its header and the procedure's arguments, or why
/// they are none. The message type is looked at before the RPC version, and both before
/// anything that follows them.
pub open spec fn call_of(s: Seq<u8>) -> Result<(RpcCall, Seq<u8>), RpcDecodeError> {
    let (xid, s1) = get_u32(s);
    let (msg_type, s2) = get_u32(s1);
    let (rpcvers, s3) = get_u32(s2);
    let (program, s4) = get_u32(s3);
    let (version, s5) = get_u32(s4);
    let (procedure, s6) = get_u32(s5);
    if xid is None || msg_type is None {
        Err(RpcDecodeError::Xdr(XdrError))
    } else if msg_type != Some(MSG_TYPE_CALL) {
        Err(RpcDecodeError::NotCall)
    } else if rpcvers is None {
        Err(RpcDecodeError::Xdr(XdrError))
    } else if rpcvers != Some(RPC_VERSION) {
        Err(RpcDecodeError::BadVersion(rpcvers->0))
    } else if program is None || version is None || procedure is None {
        Err(RpcDecodeError::Xdr(XdrError))
    } else {
        match auth_of(s6) {
            None => Err(RpcDecodeError::Xdr(XdrError)),
            Some(((uid, gid), s7)) => {
                let (vflavor, s8) = get_u32(s7);
                let (verf, s9) = get_opaque(s8, 1024);
                if vflavor is None || verf is None {
                    Err(RpcDecodeError::Xdr(XdrError))
                } else {
                    Ok((
                        RpcCall {
                            xid: xid->0,
                            program: program->0,
                            version: version->0,
                            procedure: procedure->0,
                            uid,
                            gid,
                        },
                        s9,
                    ))
                }
            },
        }
    }
}

fn word(r: &mut XdrReader<'_>) -> (res: Result<u32, RpcDecodeError>)
    ensures
        match res {
            Ok(v) => get_u32(old(r)@) == (Some(v), final(r)@),
            Err(e) => get_u32(old(r)@).0 is None && e == RpcDecodeError::Xdr(XdrError),
        },
{
    match r.u32() {
        Ok(v) => Ok(v),
        Err(e) => Err(RpcDecodeError::Xdr(e)),
    }
}

/// Parse an RPC call message: the header, and a reader positioned at the procedure's arguments.
pub fn parse_call(buf: &[u8]) -> (res: Result<(RpcCall, XdrReader<'_>), RpcDecodeError>)
    ensures
        match res {
            Ok((call, args)) => call_of(buf@) == Ok::<_, RpcDecodeError>((call, args@)),
            Err(e) => call_of(buf@) == Err::<(RpcCall, Seq<u8>), _>(e),
        },
{
    let mut r = XdrReader::new(buf);
    let xid: u32 = word(&mut r)?;
    let msg_type: u32 = word(&mut r)?;
    if msg_type != MSG_TYPE_CALL {
        return Err(RpcDecodeError::NotCall);
    }
    let rpcvers: u32 = word(&mut r)?;
    if rpcvers != RPC_VERSION {
        return Err(RpcDecodeError::BadVersion(rpcvers));
    }
    let program: u32 = word(&mut r)?;
    let version: u32 = word(&mut r)?;
    let procedure: u32 = word(&mut r)?;
    let (uid, gid) = match read_auth(&mut r) {
        Ok(ids) => ids,
        Err(e) => return Err(RpcDecodeError::Xdr(e)),
    };
    // The verifier is not looked at.
    let _vflavor: u32 = word(&mut r)?;
    match r.skip_opaque(1024) {
        Ok(()) => {},
        Err(e) => return Err(RpcDecodeError::Xdr(e)),
    }
    Ok((RpcCall { xid, program, version, procedure, uid, gid }, r))
}

fn read_auth(r: &mut XdrReader<'_>) -> (res: Result<(u32, u32), XdrError>)
    ensures
        match res {
            Ok(ids) => auth_of(old(r)@) == Some((ids, final(r)@)),
            Err(_) => auth_of(old(r)@) is None,
        },
{
    let flavor: u32 = r.u32()?;
    let body = r.opaque(1024)?;
    if flavor == AUTH_SYS {
        let mut b = XdrReader::new(body);
        let _stamp: u32 = b.u32()?;
        let _machine = b.opaque(255)?;
        let uid: u32 = b.u32()?;
        let gid: u32 = b.u32()?;
        Ok((uid, gid))
    } else {
        Ok((0, 0))
    }
}

/// The bytes of an accepted reply's header: the call's xid, an empty verifier, the status.
pub open spec fn accepted_header(xid: u32, accept_status: u32) -> Seq<u8> {
    Seq::<u8>::empty().put_u32(xid).put_u32(MSG_TYPE_REPLY).put_u32(REPLY_ACCEPTED).put_u32(
        AUTH_NONE,
    ).put_opaque(Seq::<u8>::empty()).put_u32(accept_status)
}

/// The bytes of a reply that names the supported version range.
pub open spec fn mismatch_header(xid: u32, low: u32, high: u32) -> Seq<u8> {
    accepted_header(xid, ACCEPT_PROG_MISMATCH).put_u32(low).put_u32(high)
}

/// Room for a reply: a mebibyte to read and what goes before it.
pub const REPLY_ROOM: usize = 0x10_1000;

/// Start an accepted reply (empty verifier); the caller appends the procedure's results.
/// It is written into a buffer of the pool that has room for a whole read.
pub fn reply_pooled(pool: &mut Pool, xid: u32, accept_status: u32) -> (w: XdrWriter)
    requires
        old(pool).wf(),
    ensures
        final(pool).wf(),
        drawn(*old(pool), *final(pool), REPLY_ROOM),
        w@ == accepted_header(xid, accept_status),
{
    let mut w = XdrWriter::from_vec(take(pool, REPLY_ROOM));
    w.u32(xid);
    w.u32(MSG_TYPE_REPLY);
    w.u32(REPLY_ACCEPTED);
    w.u32(AUTH_NONE);
    let empty: [u8; 0] = [];
    proof {
        assert(empty@ =~= Seq::<u8>::empty());
    }
    w.opaque(empty.as_slice());
    w.u32(accept_status);
    w
}

/// A program mismatch carries the supported version range.
pub fn mismatch_pooled(pool: &mut Pool, xid: u32, low: u32, high: u32) -> (w: XdrWriter)
    requires
        old(pool).wf(),
    ensures
        final(pool).wf(),
        drawn(*old(pool), *final(pool), REPLY_ROOM),
        w@ == mismatch_header(xid, low, high),
{
    let mut w = reply_pooled(pool, xid, ACCEPT_PROG_MISMATCH);
    w.u32(low);
    w.u32(high);
    w
}

/// Start an accepted reply in a buffer of its own.
pub fn reply_accepted(xid: u32, accept_status: u32) -> (w: XdrWriter)
    ensures
        w@ == accepted_header(xid, accept_status),
{
    let mut pool = Pool::new();
    reply_pooled(&mut pool, xid, accept_status)
}

/// A program mismatch in a buffer of its own.
pub fn reply_prog_mismatch(xid: u32, low: u32, high: u32) -> (w: XdrWriter)
    ensures
        w@ == mismatch_header(xid, low, high),
{
    let mut pool = Pool::new();
    mismatch_pooled(&mut pool, xid, low, high)
}

/// The bytes of a call: header, credentials, an empty verifier, the arguments.
pub open spec fn call_bytes(call: RpcCall, flavor: u32, cred: Seq<u8>, args: Seq<u8>) -> Seq<u8> {
    Seq::<u8>::empty().put_u32(call.xid) + (Seq::<u8>::empty().put_u32(MSG_TYPE_CALL) + (
    Seq::<u8>::empty().put_u32(RPC_VERSION) + (Seq::<u8>::empty().put_u32(call.program) + (
    Seq::<u8>::empty().put_u32(call.version) + (Seq::<u8>::empty().put_u32(call.procedure) + (
    Seq::<u8>::empty().put_u32(flavor) + (Seq::<u8>::empty().put_opaque(cred) + (
    Seq::<u8>::empty().put_u32(AUTH_NONE) + (Seq::<u8>::empty().put_opaque(Seq::<u8>::empty())
        + args)))))))))
}

/// The body of AUTH_SYS credentials; `more` is the list of further groups.
pub open spec fn authsys_body(
    stamp: u32,
    machine: Seq<u8>,
    uid: u32,
    gid: u32,
    more: Seq<u8>,
) -> Seq<u8> {
    Seq::<u8>::empty().put_u32(stamp) + (Seq::<u8>::empty().put_opaque(machine) + (
    Seq::<u8>::empty().put_u32(uid) + (Seq::<u8>::empty().put_u32(gid) + more)))
}

/// A call that was put on the wire with AUTH_SYS credentials parses back to its header, the
/// credentials' uid and gid, and its arguments.
pub proof fn authsys_call_round_trip(
    call: RpcCall,
    stamp: u32,
    machine: Seq<u8>,
    more: Seq<u8>,
    args: Seq<u8>,
)
    requires
        machine.len() <= 255,
        authsys_body(stamp, machine, call.uid, call.gid, more).len() <= 1024,
    ensures
        call_of(
            call_bytes(
                call,
                AUTH_SYS,
                authsys_body(stamp, machine, call.uid, call.gid, more),
                args,
            ),
        ) == Ok::<_, RpcDecodeError>((call, args)),
{
    let cred = authsys_body(stamp, machine, call.uid, call.gid, more);
    header_round_trip(call, AUTH_SYS, cred, args);
    let b3 = Seq::<u8>::empty().put_u32(call.gid) + more;
    let b2 = Seq::<u8>::empty().put_u32(call.uid) + b3;
    let b1 = Seq::<u8>::empty().put_opaque(machine) + b2;
    u32_round_trip(stamp, b1);
    opaque_round_trip(machine, 255, b2);
    u32_round_trip(call.uid, b3);
    u32_round_trip(call.gid, more);
}

/// A call that was put on the wire with credentials of another flavor parses back to its header,
/// with uid and gid zero, and its arguments.
pub proof fn plain_call_round_trip(call: RpcCall, flavor: u32, cred: Seq<u8>, args: Seq<u8>)
    requires
        flavor != AUTH_SYS,
        cred.len() <= 1024,
        call.uid == 0,
        call.gid == 0,
    ensures
        call_of(call_bytes(call, flavor, cred, args)) == Ok::<_, RpcDecodeError>((call, args)),
{
    header_round_trip(call, flavor, cred, args);
}

/// The reads of a call's header, up to the credentials' contents.
proof fn header_round_trip(call: RpcCall, flavor: u32, cred: Seq<u8>, args: Seq<u8>)
    requires
        cred.len() <= 1024,
    ensures
        ({
            let s = call_bytes(call, flavor, cred, args);
            let (xid, s1) = get_u32(s);
            let (msg_type, s2) = get_u32(s1);
            let (rpcvers, s3) = get_u32(s2);
            let (program, s4) = get_u32(s3);
            let (version, s5) = get_u32(s4);
            let (procedure, s6) = get_u32(s5);
            let (fl, s7) = get_u32(s6);
            let (body, s8) = get_opaque(s7, 1024);
            let (vflavor, s9) = get_u32(s8);
            let (verf, s10) = get_opaque(s9, 1024);
            &&& xid == Some(call.xid)
            &&& msg_type == Some(MSG_TYPE_CALL)
            &&& rpcvers == Some(RPC_VERSION)
            &&& program == Some(call.program)
            &&& version == Some(call.version)
            &&& procedure == Some(call.procedure)
            &&& fl == Some(flavor)
            &&& body == Some(cred)
            &&& vflavor == Some(AUTH_NONE)
            &&& verf is Some
            &&& s10 == args
        }),
{
    let e = Seq::<u8>::empty();
    let t10 = args;
    let t9 = e.put_opaque(e) + t10;
    let t8 = e.put_u32(AUTH_NONE) + t9;
    let t7 = e.put_opaque(cred) + t8;
    let t6 = e.put_u32(flavor) + t7;
    let t5 = e.put_u32(call.procedure) + t6;
    let t4 = e.put_u32(call.version) + t5;
    let t3 = e.put_u32(call.program) + t4;
    let t2 = e.put_u32(RPC_VERSION) + t3;
    let t1 = e.put_u32(MSG_TYPE_CALL) + t2;
    u32_round_trip(call.xid, t1);
    u32_round_trip(MSG_TYPE_CALL, t2);
    u32_round_trip(RPC_VERSION, t3);
    u32_round_trip(call.program, t4);
    u32_round_trip(call.version, t5);
    u32_round_trip(call.procedure, t6);
    u32_round_trip(flavor, t7);
    opaque_round_trip(cred, 1024, t8);
    u32_round_trip(AUTH_NONE, t9);
    opaque_round_trip(e, 1024, t10);
}

} // verus!
