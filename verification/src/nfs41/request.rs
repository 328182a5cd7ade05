//! The operations of a COMPOUND (RFC 5661 §16), decoded.
use crate::bytes::{to_array, to_vec};
use crate::nfs41::attrs::{bitmap_of, decode_settable, settable_of, Bitmap};
use crate::surface::{CreateKind, SetAttr};
use crate::types::Ts;
use crate::xdr::{
    get_bool, get_fixed, get_opaque, get_u32, get_u64, XdrError, XdrReader,
};
use vstd::prelude::*;

verus! {

pub const OP_ACCESS: u32 = 3;

pub const OP_CLOSE: u32 = 4;

pub const OP_COMMIT: u32 = 5;

pub const OP_CREATE: u32 = 6;

pub const OP_DELEGRETURN: u32 = 8;

pub const OP_GETATTR: u32 = 9;

pub const OP_GETFH: u32 = 10;

pub const OP_LINK: u32 = 11;

pub const OP_LOCK: u32 = 12;

pub const OP_LOCKT: u32 = 13;

pub const OP_LOCKU: u32 = 14;

pub const OP_LOOKUP: u32 = 15;

pub const OP_LOOKUPP: u32 = 16;

pub const OP_NVERIFY: u32 = 17;

pub const OP_OPEN: u32 = 18;

pub const OP_OPEN_DOWNGRADE: u32 = 21;

pub const OP_PUTFH: u32 = 22;

pub const OP_PUTPUBFH: u32 = 23;

pub const OP_PUTROOTFH: u32 = 24;

pub const OP_READ: u32 = 25;

pub const OP_READDIR: u32 = 26;

pub const OP_READLINK: u32 = 27;

pub const OP_REMOVE: u32 = 28;

pub const OP_RENAME: u32 = 29;

pub const OP_RESTOREFH: u32 = 31;

pub const OP_SAVEFH: u32 = 32;

pub const OP_SETATTR: u32 = 34;

pub const OP_VERIFY: u32 = 37;

pub const OP_WRITE: u32 = 38;

pub const OP_BIND_CONN_TO_SESSION: u32 = 41;

pub const OP_EXCHANGE_ID: u32 = 42;

pub const OP_CREATE_SESSION: u32 = 43;

pub const OP_DESTROY_SESSION: u32 = 44;

pub const OP_FREE_STATEID: u32 = 45;

pub const OP_SECINFO_NO_NAME: u32 = 52;

pub const OP_SEQUENCE: u32 = 53;

pub const OP_TEST_STATEID: u32 = 55;

pub const OP_DESTROY_CLIENTID: u32 = 57;

pub const OP_RECLAIM_COMPLETE: u32 = 58;

pub const OP_ILLEGAL: u32 = 10044;

pub const NFS4_OK: u32 = 0;

pub const ERR_NOENT: u32 = 2;

pub const ERR_IO: u32 = 5;

pub const ERR_ACCESS: u32 = 13;

pub const ERR_EXIST: u32 = 17;

pub const ERR_NOTDIR: u32 = 20;

pub const ERR_ISDIR: u32 = 21;

pub const ERR_INVAL: u32 = 22;

pub const ERR_NOSPC: u32 = 28;

pub const ERR_ROFS: u32 = 30;

pub const ERR_NAMETOOLONG: u32 = 63;

pub const ERR_NOTEMPTY: u32 = 66;

pub const ERR_STALE: u32 = 70;

pub const ERR_BADHANDLE: u32 = 10001;

pub const ERR_NOTSUPP: u32 = 10004;

pub const ERR_BADTYPE: u32 = 10007;

pub const ERR_DELAY: u32 = 10008;

pub const ERR_NOFILEHANDLE: u32 = 10020;

pub const ERR_MINOR_VERS_MISMATCH: u32 = 10021;

pub const ERR_STALE_CLIENTID: u32 = 10022;

pub const ERR_STALE_STATEID: u32 = 10023;

pub const ERR_BAD_STATEID: u32 = 10025;

pub const ERR_RESTOREFH: u32 = 10030;

pub const ERR_NO_GRACE: u32 = 10033;

pub const ERR_BADXDR: u32 = 10036;

pub const ERR_OP_ILLEGAL: u32 = 10044;

pub const ERR_BADSESSION: u32 = 10052;

pub const ERR_BADSLOT: u32 = 10053;

pub const ERR_SEQ_MISORDERED: u32 = 10063;

pub const ERR_SEQUENCE_POS: u32 = 10064;

pub const ERR_REQ_TOO_BIG: u32 = 10065;

pub const ERR_RETRY_UNCACHED_REP: u32 = 10068;

/// Largest payload of a WRITE.
pub const WRITE_CAP: usize = 0x10_0010;

pub const MAX_READ: u32 = 0x10_0000;

/// How an OPEN names its file.
#[derive(Debug)]
pub enum Claim<B = Vec<u8>> {
    /// A name under the current directory.
    Null { name: B },
    /// The current file: a plain claim, one under a held delegation, or a reclaim after a
    /// reboot, which is granted like the others.
    File,
    /// A name under the current directory, under a held delegation.
    DelegateCur { name: B },
}

impl Claim<Vec<u8>> {
    pub open spec fn view(&self) -> Claim<Seq<u8>> {
        match self {
            Claim::Null { name } => Claim::Null { name: name@ },
            Claim::File => Claim::File,
            Claim::DelegateCur { name } => Claim::DelegateCur { name: name@ },
        }
    }
}

/// Whether and how an OPEN creates its file.
#[derive(Debug, Clone, Copy, PartialEq, Eq, Structural)]
pub struct OpenHow {
    pub create: bool,
    pub guarded: bool,
    pub exclusive: bool,
    pub attrs: Option<SetAttr>,
}

/// The words of a bitmap.
pub type Words = (u32, u32, u32);

/// The words as a sequence.
pub open spec fn words_seq(w: Words) -> Seq<u32> {
    seq![w.0, w.1, w.2]
}

/// A decoded operation. The parameters are byte strings, verifiers, the `other` fields of
/// stateids, session identifiers, and lists of `other` fields.
#[allow(inconsistent_fields)]
#[derive(Debug)]
pub enum OpReq<B = Vec<u8>, V = [u8; 8], O = [u8; 12], I = [u8; 16], L = Vec<[u8; 12]>> {
    ExchangeId { verifier: V, owner: B },
    CreateSession { clientid: u64, csa_seq: u32, flags: u32, max_req: u32, cb_program: u32 },
    DestroySession { sid: I },
    DestroyClientid { clientid: u64 },
    BindConn { sid: I, dir: u32 },
    ReclaimComplete,
    SecinfoNoName,
    PutRootFh,
    PutFh { fh: B },
    GetFh,
    SaveFh,
    RestoreFh,
    Lookup { name: B },
    Lookupp,
    Getattr { want: Words },
    Access { want: u32 },
    Readlink,
    Readdir { cookie: u64, maxcount: u32, want: Words },
    Open { share_access: u32, owner: B, how: OpenHow, claim: Claim<B> },
    Close { seq: u32, other: O },
    OpenDowngrade { seq: u32, other: O, access: u32 },
    Read { seq: u32, other: O, offset: u64, count: u32 },
    Write { seq: u32, other: O, offset: u64, stable: u32, data: B },
    Commit { offset: u64, count: u32 },
    Create { kind: CreateKind<B>, name: B, mode: Option<u16> },
    Remove { name: B },
    Rename { from: B, to: B },
    Setattr { seq: u32, other: O, set: SetAttr, want: Words },
    DelegReturn { other: O },
    TestStateid { others: L },
    FreeStateid { other: O },
    LockNew { seq: u32, other: O },
    LockKnown { other: O },
    Lockt,
    Locku { seq: u32, other: O },
}

/// An operation over mathematical byte strings.
pub type OpSpec = OpReq<Seq<u8>, Seq<u8>, Seq<u8>, Seq<u8>, Seq<Seq<u8>>>;

/// The `other` fields of a list.
pub open spec fn others_view(l: Seq<[u8; 12]>) -> Seq<Seq<u8>> {
    Seq::new(l.len(), |i: int| l[i]@)
}

impl OpReq<Vec<u8>, [u8; 8], [u8; 12], [u8; 16], Vec<[u8; 12]>> {
    pub open spec fn view(&self) -> OpSpec {
        match self {
            OpReq::ExchangeId { verifier, owner } => OpReq::ExchangeId {
                verifier: verifier@,
                owner: owner@,
            },
            OpReq::CreateSession { clientid, csa_seq, flags, max_req, cb_program } => {
                OpReq::CreateSession {
                    clientid: *clientid,
                    csa_seq: *csa_seq,
                    flags: *flags,
                    max_req: *max_req,
                    cb_program: *cb_program,
                }
            },
            OpReq::DestroySession { sid } => OpReq::DestroySession { sid: sid@ },
            OpReq::DestroyClientid { clientid } => OpReq::DestroyClientid { clientid: *clientid },
            OpReq::BindConn { sid, dir } => OpReq::BindConn { sid: sid@, dir: *dir },
            OpReq::ReclaimComplete => OpReq::ReclaimComplete,
            OpReq::SecinfoNoName => OpReq::SecinfoNoName,
            OpReq::PutRootFh => OpReq::PutRootFh,
            OpReq::PutFh { fh } => OpReq::PutFh { fh: fh@ },
            OpReq::GetFh => OpReq::GetFh,
            OpReq::SaveFh => OpReq::SaveFh,
            OpReq::RestoreFh => OpReq::RestoreFh,
            OpReq::Lookup { name } => OpReq::Lookup { name: name@ },
            OpReq::Lookupp => OpReq::Lookupp,
            OpReq::Getattr { want } => OpReq::Getattr { want: *want },
            OpReq::Access { want } => OpReq::Access { want: *want },
            OpReq::Readlink => OpReq::Readlink,
            OpReq::Readdir { cookie, maxcount, want } => OpReq::Readdir {
                cookie: *cookie,
                maxcount: *maxcount,
                want: *want,
            },
            OpReq::Open { share_access, owner, how, claim } => OpReq::Open {
                share_access: *share_access,
                owner: owner@,
                how: *how,
                claim: claim@,
            },
            OpReq::Close { seq, other } => OpReq::Close { seq: *seq, other: other@ },
            OpReq::OpenDowngrade { seq, other, access } => OpReq::OpenDowngrade {
                seq: *seq,
                other: other@,
                access: *access,
            },
            OpReq::Read { seq, other, offset, count } => OpReq::Read {
                seq: *seq,
                other: other@,
                offset: *offset,
                count: *count,
            },
            OpReq::Write { seq, other, offset, stable, data } => OpReq::Write {
                seq: *seq,
                other: other@,
                offset: *offset,
                stable: *stable,
                data: data@,
            },
            OpReq::Commit { offset, count } => OpReq::Commit { offset: *offset, count: *count },
            OpReq::Create { kind, name, mode } => OpReq::Create {
                kind: kind@,
                name: name@,
                mode: *mode,
            },
            OpReq::Remove { name } => OpReq::Remove { name: name@ },
            OpReq::Rename { from, to } => OpReq::Rename { from: from@, to: to@ },
            OpReq::Setattr { seq, other, set, want } => OpReq::Setattr {
                seq: *seq,
                other: other@,
                set: *set,
                want: *want,
            },
            OpReq::DelegReturn { other } => OpReq::DelegReturn { other: other@ },
            OpReq::TestStateid { others } => OpReq::TestStateid { others: others_view(others@) },
            OpReq::FreeStateid { other } => OpReq::FreeStateid { other: other@ },
            OpReq::LockNew { seq, other } => OpReq::LockNew { seq: *seq, other: other@ },
            OpReq::LockKnown { other } => OpReq::LockKnown { other: other@ },
            OpReq::Lockt => OpReq::Lockt,
            OpReq::Locku { seq, other } => OpReq::Locku { seq: *seq, other: other@ },
        }
    }
}

/// What decoding an operation comes to: the operation and the bytes after it, or the status it
/// fails with.
pub type Decoded = Result<(OpSpec, Seq<u8>), u32>;

// ---- parts -------------------------------------------------------------------------------------

/// A stateid: sequence number and `other`.
pub open spec fn stateid_of(s: Seq<u8>) -> Option<((u32, Seq<u8>), Seq<u8>)> {
    let (seq, s1) = get_u32(s);
    let (other, s2) = get_fixed(s1, 12);
    if seq is None || other is None {
        None
    } else {
        Some(((seq->0, other->0), s2))
    }
}

pub fn read_stateid(r: &mut XdrReader<'_>) -> (res: Result<(u32, [u8; 12]), XdrError>)
    ensures
        match res {
            Ok((seq, other)) => stateid_of(old(r)@) == Some(((seq, other@), final(r)@)),
            Err(_) => stateid_of(old(r)@) is None,
        },
{
    let seq: u32 = r.u32()?;
    let other = r.fixed(12)?;
    Ok((seq, to_array(other)))
}

/// What is left after `n` words.
pub open spec fn after_words(s: Seq<u8>, n: nat) -> Option<Seq<u8>> {
    if 4 * n <= s.len() {
        Some(s.skip(4 * n as int))
    } else {
        None
    }
}

fn skip_words(r: &mut XdrReader<'_>, n: u32) -> (res: Result<(), XdrError>)
    ensures
        match res {
            Ok(_) => after_words(old(r)@, n as nat) == Some(final(r)@),
            Err(_) => after_words(old(r)@, n as nat) is None,
        },
{
    let mut i: u32 = 0;
    proof {
        assert(old(r)@.skip(0) =~= old(r)@);
    }
    while i < n
        invariant
            i <= n,
            4 * i <= old(r)@.len(),
            r@ == old(r)@.skip(4 * i),
        decreases n - i,
    {
        let _v: u32 = r.u32()?;
        proof {
            assert(old(r)@.skip(4 * i).skip(4) =~= old(r)@.skip(4 * (i + 1)));
        }
        i = i + 1;
    }
    Ok(())
}

/// Channel attributes: only the largest request is looked at.
pub open spec fn chan_of(s: Seq<u8>) -> Option<(u32, Seq<u8>)> {
    let (headerpad, s1) = get_u32(s);
    let (max_req, s2) = get_u32(s1);
    let (max_resp, s3) = get_u32(s2);
    let (max_cached, s4) = get_u32(s3);
    let (max_ops, s5) = get_u32(s4);
    let (max_reqs, s6) = get_u32(s5);
    let (n_rdma, s7) = get_u32(s6);
    if headerpad is None || max_req is None || max_resp is None || max_cached is None || max_ops
        is None || max_reqs is None || n_rdma is None {
        None
    } else {
        match after_words(s7, n_rdma->0 as nat) {
            Some(rest) => Some((max_req->0, rest)),
            None => None,
        }
    }
}

pub fn read_chan_attrs(r: &mut XdrReader<'_>) -> (res: Result<u32, XdrError>)
    ensures
        match res {
            Ok(max_req) => chan_of(old(r)@) == Some((max_req, final(r)@)),
            Err(_) => chan_of(old(r)@) is None,
        },
{
    let _headerpad: u32 = r.u32()?;
    let max_req: u32 = r.u32()?;
    let _max_resp: u32 = r.u32()?;
    let _max_cached: u32 = r.u32()?;
    let _max_ops: u32 = r.u32()?;
    let _max_reqs: u32 = r.u32()?;
    let n_rdma: u32 = r.u32()?;
    skip_words(r, n_rdma)?;
    Ok(max_req)
}

/// The callback security parameters of CREATE_SESSION: AUTH_NONE or AUTH_SYS, any number.
pub open spec fn sec_parms(s: Seq<u8>, n: nat) -> Result<Seq<u8>, u32>
    decreases n,
{
    if n == 0 {
        Ok(s)
    } else {
        let (flavor, s1) = get_u32(s);
        match flavor {
            None => Err(ERR_BADXDR),
            Some(f) => if f == 0 {
                sec_parms(s1, (n - 1) as nat)
            } else if f == 1 {
                let (stamp, s2) = get_u32(s1);
                let (machine, s3) = get_opaque(s2, 256);
                let (uid, s4) = get_u32(s3);
                let (gid, s5) = get_u32(s4);
                let (count, s6) = get_u32(s5);
                if stamp is None || machine is None || uid is None || gid is None || count is None {
                    Err(ERR_BADXDR)
                } else {
                    match after_words(s6, count->0 as nat) {
                        None => Err(ERR_BADXDR),
                        Some(s7) => sec_parms(s7, (n - 1) as nat),
                    }
                }
            } else {
                Err(ERR_NOTSUPP)
            },
        }
    }
}

/// An XDR failure as an operation's status.
fn bad<T>(res: Result<T, XdrError>) -> (out: Result<T, u32>)
    ensures
        match res {
            Ok(v) => out == Ok::<T, u32>(v),
            Err(_) => out == Err::<T, u32>(ERR_BADXDR),
        },
{
    match res {
        Ok(v) => Ok(v),
        Err(_) => Err(ERR_BADXDR),
    }
}

fn skip_authsys(r: &mut XdrReader<'_>) -> (res: Result<(), XdrError>)
    ensures
        ({
            let (stamp, s2) = get_u32(old(r)@);
            let (machine, s3) = get_opaque(s2, 256);
            let (uid, s4) = get_u32(s3);
            let (gid, s5) = get_u32(s4);
            let (count, s6) = get_u32(s5);
            let short = stamp is None || machine is None || uid is None || gid is None || count
                is None || after_words(s6, count->0 as nat) is None;
            match res {
                Ok(_) => !short && after_words(s6, count->0 as nat) == Some(final(r)@),
                Err(_) => short,
            }
        }),
{
    let _stamp: u32 = r.u32()?;
    let _machine = r.opaque(256)?;
    let _uid: u32 = r.u32()?;
    let _gid: u32 = r.u32()?;
    let count: u32 = r.u32()?;
    skip_words(r, count)
}

fn skip_sec_parms(r: &mut XdrReader<'_>, n: u32) -> (res: Result<(), u32>)
    ensures
        match res {
            Ok(_) => sec_parms(old(r)@, n as nat) == Ok::<_, u32>(final(r)@),
            Err(e) => sec_parms(old(r)@, n as nat) == Err::<Seq<u8>, _>(e),
        },
{
    let mut left: u32 = n;
    while left > 0
        invariant
            left <= n,
            sec_parms(old(r)@, n as nat) == sec_parms(r@, left as nat),
        decreases left,
    {
        let flavor: u32 = bad(r.u32())?;
        if flavor == 1 {
            bad(skip_authsys(r))?;
        } else if flavor != 0 {
            return Err(ERR_NOTSUPP);
        }
        left = left - 1;
    }
    Ok(())
}

/// Attributes to set, as far as an operation uses them.
pub open spec fn set_attrs_of(s: Seq<u8>, now: Ts) -> Option<(SetAttr, Words, Seq<u8>)> {
    match settable_of(s, now) {
        Some((set, words, rest)) => Some((set, (words[0], words[1], words[2]), rest)),
        None => None,
    }
}

fn read_set_attrs(r: &mut XdrReader<'_>, now: Ts) -> (res: Result<(SetAttr, Words), XdrError>)
    ensures
        match res {
            Ok((set, words)) => set_attrs_of(old(r)@, now) == Some((set, words, final(r)@)),
            Err(_) => set_attrs_of(old(r)@, now) is None,
        },
{
    let (set, bm) = decode_settable(r, now)?;
    Ok((set, (bm.words[0], bm.words[1], bm.words[2])))
}

pub open spec fn words_of(s: Seq<u8>) -> Option<(Words, Seq<u8>)> {
    match bitmap_of(s) {
        Some((words, rest)) => Some(((words[0], words[1], words[2]), rest)),
        None => None,
    }
}

fn read_words(r: &mut XdrReader<'_>) -> (res: Result<Words, XdrError>)
    ensures
        match res {
            Ok(words) => words_of(old(r)@) == Some((words, final(r)@)),
            Err(_) => words_of(old(r)@) is None,
        },
{
    let bm = Bitmap::decode(r)?;
    Ok((bm.words[0], bm.words[1], bm.words[2]))
}

fn read_opaque(r: &mut XdrReader<'_>, max: usize) -> (res: Result<Vec<u8>, XdrError>)
    ensures
        match res {
            Ok(d) => get_opaque(old(r)@, max as nat) == (Some(d@), final(r)@),
            Err(_) => get_opaque(old(r)@, max as nat).0 is None,
        },
{
    let d = r.opaque(max)?;
    Ok(to_vec(d))
}

fn read_sid(r: &mut XdrReader<'_>) -> (res: Result<[u8; 16], XdrError>)
    ensures
        match res {
            Ok(d) => get_fixed(old(r)@, 16) == (Some(d@), final(r)@),
            Err(_) => get_fixed(old(r)@, 16).0 is None,
        },
{
    let d = r.fixed(16)?;
    Ok(to_array(d))
}

// ---- operations --------------------------------------------------------------------------------

/// EXCHANGE_ID without state protection; the implementation id is skipped.
pub open spec fn exchange_id_of(s: Seq<u8>) -> Decoded {
    let (verifier, s1) = get_fixed(s, 8);
    let (owner, s2) = get_opaque(s1, 1024);
    let (flags, s3) = get_u32(s2);
    let (sp_how, s4) = get_u32(s3);
    let (n_impl, s5) = get_u32(s4);
    if verifier is None || owner is None || flags is None || sp_how is None {
        Err(ERR_BADXDR)
    } else if sp_how != Some(0u32) {
        Err(ERR_NOTSUPP)
    } else if n_impl is None {
        Err(ERR_BADXDR)
    } else {
        let op: OpSpec = OpReq::ExchangeId { verifier: verifier->0, owner: owner->0 };
        if n_impl->0 > 0 {
            let (domain, s6) = get_opaque(s5, 1024);
            let (name, s7) = get_opaque(s6, 1024);
            let (sec, s8) = get_u64(s7);
            let (nsec, s9) = get_u32(s8);
            if domain is None || name is None || sec is None || nsec is None {
                Err(ERR_BADXDR)
            } else {
                Ok((op, s9))
            }
        } else {
            Ok((op, s5))
        }
    }
}

fn decode_exchange_id(r: &mut XdrReader<'_>) -> (res: Result<OpReq, u32>)
    ensures
        match res {
            Ok(op) => exchange_id_of(old(r)@) == Ok::<_, u32>((op@, final(r)@)),
            Err(e) => exchange_id_of(old(r)@) == Err::<(OpSpec, Seq<u8>), _>(e),
        },
{
    let v = bad(r.fixed(8))?;
    let verifier: [u8; 8] = to_array(v);
    let owner = bad(read_opaque(r, 1024))?;
    let _flags: u32 = bad(r.u32())?;
    let sp_how: u32 = bad(r.u32())?;
    if sp_how != 0 {
        return Err(ERR_NOTSUPP);
    }
    let n_impl: u32 = bad(r.u32())?;
    if n_impl > 0 {
        let _domain = bad(r.opaque(1024))?;
        let _name = bad(r.opaque(1024))?;
        let _sec: u64 = bad(r.u64())?;
        let _nsec: u32 = bad(r.u32())?;
    }
    Ok(OpReq::ExchangeId { verifier, owner })
}

pub open spec fn create_session_of(s: Seq<u8>) -> Decoded {
    let (clientid, s1) = get_u64(s);
    let (csa_seq, s2) = get_u32(s1);
    let (flags, s3) = get_u32(s2);
    if clientid is None || csa_seq is None || flags is None {
        Err(ERR_BADXDR)
    } else {
        match chan_of(s3) {
            None => Err(ERR_BADXDR),
            Some((max_req, s4)) => match chan_of(s4) {
                None => Err(ERR_BADXDR),
                Some((back, s5)) => {
                    let (cb_program, s6) = get_u32(s5);
                    let (n_sec, s7) = get_u32(s6);
                    if cb_program is None || n_sec is None {
                        Err(ERR_BADXDR)
                    } else {
                        match sec_parms(s7, n_sec->0 as nat) {
                            Err(e) => Err(e),
                            Ok(rest) => Ok((
                                OpReq::CreateSession {
                                    clientid: clientid->0,
                                    csa_seq: csa_seq->0,
                                    flags: flags->0,
                                    max_req,
                                    cb_program: cb_program->0,
                                },
                                rest,
                            )),
                        }
                    }
                },
            },
        }
    }
}

fn decode_create_session(r: &mut XdrReader<'_>) -> (res: Result<OpReq, u32>)
    ensures
        match res {
            Ok(op) => create_session_of(old(r)@) == Ok::<_, u32>((op@, final(r)@)),
            Err(e) => create_session_of(old(r)@) == Err::<(OpSpec, Seq<u8>), _>(e),
        },
{
    let clientid: u64 = bad(r.u64())?;
    let csa_seq: u32 = bad(r.u32())?;
    let flags: u32 = bad(r.u32())?;
    let max_req: u32 = bad(read_chan_attrs(r))?;
    let _back: u32 = bad(read_chan_attrs(r))?;
    let cb_program: u32 = bad(r.u32())?;
    let n_sec: u32 = bad(r.u32())?;
    skip_sec_parms(r, n_sec)?;
    Ok(OpReq::CreateSession { clientid, csa_seq, flags, max_req, cb_program })
}

/// CREATE makes everything but regular files, which come by OPEN.
pub open spec fn create_kind_of(s: Seq<u8>) -> Result<(CreateKind<Seq<u8>>, Seq<u8>), u32> {
    let (objtype, s1) = get_u32(s);
    match objtype {
        None => Err(ERR_BADXDR),
        Some(t) => if t == 2 {
            Ok((CreateKind::Dir, s1))
        } else if t == 5 {
            match get_opaque(s1, 4096) {
                (Some(target), s2) => Ok((CreateKind::Symlink { target }, s2)),
                (None, _) => Err(ERR_BADXDR),
            }
        } else if t == 3 || t == 4 {
            let (major, s2) = get_u32(s1);
            let (minor, s3) = get_u32(s2);
            if major is None || minor is None {
                Err(ERR_BADXDR)
            } else {
                Ok((
                    CreateKind::Device { is_block: t == 3, major: major->0, minor: minor->0 },
                    s3,
                ))
            }
        } else if t == 6 {
            Ok((CreateKind::Socket, s1))
        } else if t == 7 {
            Ok((CreateKind::Fifo, s1))
        } else {
            Err(ERR_BADTYPE)
        },
    }
}

pub open spec fn create_op_of(s: Seq<u8>, now: Ts) -> Decoded {
    match create_kind_of(s) {
        Err(e) => Err(e),
        Ok((kind, s1)) => {
            let (name, s2) = get_opaque(s1, 4096);
            match name {
                None => Err(ERR_BADXDR),
                Some(name) => match set_attrs_of(s2, now) {
                    None => Err(ERR_BADXDR),
                    Some((set, words, rest)) => Ok((
                        OpReq::Create { kind, name, mode: set.mode },
                        rest,
                    )),
                },
            }
        },
    }
}

fn decode_create_kind(r: &mut XdrReader<'_>) -> (res: Result<CreateKind, u32>)
    ensures
        match res {
            Ok(k) => create_kind_of(old(r)@) == Ok::<_, u32>((k@, final(r)@)),
            Err(e) => create_kind_of(old(r)@) == Err::<(CreateKind<Seq<u8>>, Seq<u8>), _>(e),
        },
{
    let t: u32 = bad(r.u32())?;
    if t == 2 {
        Ok(CreateKind::Dir)
    } else if t == 5 {
        let target = bad(read_opaque(r, 4096))?;
        Ok(CreateKind::Symlink { target })
    } else if t == 3 || t == 4 {
        let major: u32 = bad(r.u32())?;
        let minor: u32 = bad(r.u32())?;
        Ok(CreateKind::Device { is_block: t == 3, major, minor })
    } else if t == 6 {
        Ok(CreateKind::Socket)
    } else if t == 7 {
        Ok(CreateKind::Fifo)
    } else {
        Err(ERR_BADTYPE)
    }
}

fn decode_create(r: &mut XdrReader<'_>, now: Ts) -> (res: Result<OpReq, u32>)
    ensures
        match res {
            Ok(op) => create_op_of(old(r)@, now) == Ok::<_, u32>((op@, final(r)@)),
            Err(e) => create_op_of(old(r)@, now) == Err::<(OpSpec, Seq<u8>), _>(e),
        },
{
    let kind = decode_create_kind(r)?;
    let name = bad(read_opaque(r, 4096))?;
    let (set, _words) = bad(read_set_attrs(r, now))?;
    Ok(OpReq::Create { kind, name, mode: set.mode })
}

/// How an OPEN creates: unchecked or guarded with attributes, exclusive with a verifier, or
/// exclusive with both.
pub open spec fn open_how_of(s: Seq<u8>, now: Ts) -> Option<(OpenHow, Seq<u8>)> {
    let (opentype, s1) = get_u32(s);
    match opentype {
        None => None,
        Some(t) => if t != 1 {
            Some((OpenHow { create: false, guarded: false, exclusive: false, attrs: None }, s1))
        } else {
            let (how, s2) = get_u32(s1);
            match how {
                None => None,
                Some(h) => if h == 0 || h == 1 {
                    match set_attrs_of(s2, now) {
                        None => None,
                        Some((set, words, rest)) => Some((
                            OpenHow {
                                create: true,
                                guarded: h == 1,
                                exclusive: false,
                                attrs: Some(set),
                            },
                            rest,
                        )),
                    }
                } else if h == 2 || h == 3 {
                    let (verf, s3) = get_fixed(s2, 8);
                    if verf is None {
                        None
                    } else if h == 2 {
                        Some((
                            OpenHow { create: true, guarded: false, exclusive: true, attrs: None },
                            s3,
                        ))
                    } else {
                        match set_attrs_of(s3, now) {
                            None => None,
                            Some((set, words, rest)) => Some((
                                OpenHow {
                                    create: true,
                                    guarded: false,
                                    exclusive: true,
                                    attrs: Some(set),
                                },
                                rest,
                            )),
                        }
                    }
                } else {
                    None
                },
            }
        },
    }
}

fn decode_open_how(r: &mut XdrReader<'_>, now: Ts) -> (res: Result<OpenHow, XdrError>)
    ensures
        match res {
            Ok(how) => open_how_of(old(r)@, now) == Some((how, final(r)@)),
            Err(_) => open_how_of(old(r)@, now) is None,
        },
{
    let opentype: u32 = r.u32()?;
    if opentype != 1 {
        return Ok(OpenHow { create: false, guarded: false, exclusive: false, attrs: None });
    }
    let h: u32 = r.u32()?;
    if h == 0 || h == 1 {
        let (set, _words) = read_set_attrs(r, now)?;
        Ok(OpenHow { create: true, guarded: h == 1, exclusive: false, attrs: Some(set) })
    } else if h == 2 {
        let _verf = r.fixed(8)?;
        Ok(OpenHow { create: true, guarded: false, exclusive: true, attrs: None })
    } else if h == 3 {
        let _verf = r.fixed(8)?;
        let (set, _words) = read_set_attrs(r, now)?;
        Ok(OpenHow { create: true, guarded: false, exclusive: true, attrs: Some(set) })
    } else {
        Err(XdrError)
    }
}

/// The claim of an OPEN, looked at only where there is a current file. A claim on a delegation
/// of an earlier run is refused, as none outlives a run.
pub open spec fn claim_of(s: Seq<u8>, has_cfh: bool) -> Result<(Claim<Seq<u8>>, Seq<u8>), u32> {
    let (claim, s1) = get_u32(s);
    match claim {
        None => Err(ERR_BADXDR),
        Some(c) => if !has_cfh {
            Err(ERR_NOFILEHANDLE)
        } else if c == 0 {
            match get_opaque(s1, 4096) {
                (Some(name), rest) => Ok((Claim::Null { name }, rest)),
                (None, _) => Err(ERR_BADXDR),
            }
        } else if c == 4 {
            Ok((Claim::File, s1))
        } else if c == 2 {
            match stateid_of(s1) {
                None => Err(ERR_BADXDR),
                Some((_, s2)) => match get_opaque(s2, 4096) {
                    (Some(name), rest) => Ok((Claim::DelegateCur { name }, rest)),
                    (None, _) => Err(ERR_BADXDR),
                },
            }
        } else if c == 5 {
            match stateid_of(s1) {
                None => Err(ERR_BADXDR),
                Some((_, rest)) => Ok((Claim::File, rest)),
            }
        } else if c == 1 {
            match get_u32(s1) {
                (Some(_), rest) => Ok((Claim::File, rest)),
                (None, _) => Err(ERR_BADXDR),
            }
        } else if c == 6 {
            Err(ERR_NO_GRACE)
        } else {
            Err(ERR_BADXDR)
        },
    }
}

fn decode_claim(r: &mut XdrReader<'_>, has_cfh: bool) -> (res: Result<Claim, u32>)
    ensures
        match res {
            Ok(c) => claim_of(old(r)@, has_cfh) == Ok::<_, u32>((c@, final(r)@)),
            Err(e) => claim_of(old(r)@, has_cfh) == Err::<(Claim<Seq<u8>>, Seq<u8>), _>(e),
        },
{
    let c: u32 = bad(r.u32())?;
    if !has_cfh {
        return Err(ERR_NOFILEHANDLE);
    }
    if c == 0 {
        let name = bad(read_opaque(r, 4096))?;
        Ok(Claim::Null { name })
    } else if c == 4 {
        Ok(Claim::File)
    } else if c == 2 {
        let _sid = bad(read_stateid(r))?;
        let name = bad(read_opaque(r, 4096))?;
        Ok(Claim::DelegateCur { name })
    } else if c == 5 {
        let _sid = bad(read_stateid(r))?;
        Ok(Claim::File)
    } else if c == 1 {
        let _prev: u32 = bad(r.u32())?;
        Ok(Claim::File)
    } else if c == 6 {
        Err(ERR_NO_GRACE)
    } else {
        Err(ERR_BADXDR)
    }
}

pub open spec fn open_of(s: Seq<u8>, now: Ts, has_cfh: bool) -> Decoded {
    let (owner_seqid, s1) = get_u32(s);
    let (share_access, s2) = get_u32(s1);
    let (share_deny, s3) = get_u32(s2);
    let (clientid, s4) = get_u64(s3);
    let (owner, s5) = get_opaque(s4, 1024);
    if owner_seqid is None || share_access is None || share_deny is None || clientid is None
        || owner is None {
        Err(ERR_BADXDR)
    } else {
        match open_how_of(s5, now) {
            None => Err(ERR_BADXDR),
            Some((how, s6)) => match claim_of(s6, has_cfh) {
                Err(e) => Err(e),
                Ok((claim, rest)) => Ok((
                    OpReq::Open { share_access: share_access->0, owner: owner->0, how, claim },
                    rest,
                )),
            },
        }
    }
}

fn decode_open(r: &mut XdrReader<'_>, now: Ts, has_cfh: bool) -> (res: Result<OpReq, u32>)
    ensures
        match res {
            Ok(op) => open_of(old(r)@, now, has_cfh) == Ok::<_, u32>((op@, final(r)@)),
            Err(e) => open_of(old(r)@, now, has_cfh) == Err::<(OpSpec, Seq<u8>), _>(e),
        },
{
    let _owner_seqid: u32 = bad(r.u32())?;
    let share_access: u32 = bad(r.u32())?;
    let _share_deny: u32 = bad(r.u32())?;
    let _clientid: u64 = bad(r.u64())?;
    let owner = bad(read_opaque(r, 1024))?;
    let how = bad(decode_open_how(r, now))?;
    let claim = decode_claim(r, has_cfh)?;
    Ok(OpReq::Open { share_access, owner, how, claim })
}

/// The `other` fields of the next `n` stateids.
pub open spec fn stateids_of(s: Seq<u8>, n: nat) -> Option<(Seq<Seq<u8>>, Seq<u8>)>
    decreases n,
{
    if n == 0 {
        Some((Seq::empty(), s))
    } else {
        match stateids_of(s, (n - 1) as nat) {
            None => None,
            Some((list, s1)) => match stateid_of(s1) {
                None => None,
                Some(((seq, other), s2)) => Some((list.push(other), s2)),
            },
        }
    }
}

pub open spec fn test_stateid_of(s: Seq<u8>) -> Decoded {
    let (n, s1) = get_u32(s);
    match n {
        None => Err(ERR_BADXDR),
        Some(n) => if n > 64 {
            Err(ERR_BADXDR)
        } else {
            match stateids_of(s1, n as nat) {
                None => Err(ERR_BADXDR),
                Some((others, rest)) => Ok((OpReq::TestStateid { others }, rest)),
            }
        },
    }
}

proof fn stateids_short(s: Seq<u8>, k: nat, n: nat)
    requires
        k <= n,
        stateids_of(s, k) is None,
    ensures
        stateids_of(s, n) is None,
    decreases n - k,
{
    if k < n {
        stateids_short(s, k, (n - 1) as nat);
    }
}

fn decode_test_stateid(r: &mut XdrReader<'_>) -> (res: Result<OpReq, u32>)
    ensures
        match res {
            Ok(op) => test_stateid_of(old(r)@) == Ok::<_, u32>((op@, final(r)@)),
            Err(e) => test_stateid_of(old(r)@) == Err::<(OpSpec, Seq<u8>), _>(e),
        },
{
    let n: u32 = bad(r.u32())?;
    if n > 64 {
        return Err(ERR_BADXDR);
    }
    let ghost s1 = r@;
    let mut others: Vec<[u8; 12]> = Vec::new();
    let mut i: u32 = 0;
    proof {
        assert(others_view(others@) =~= Seq::<Seq<u8>>::empty());
    }
    while i < n
        invariant
            i <= n <= 64,
            get_u32(old(r)@) == (Some(n), s1),
            stateids_of(s1, i as nat) == Some((others_view(others@), r@)),
        decreases n - i,
    {
        let ghost list = others_view(others@);
        let (_seq, other) = match read_stateid(r) {
            Ok(sid) => sid,
            Err(_) => {
                proof {
                    assert(stateids_of(s1, (i + 1) as nat) is None);
                    stateids_short(s1, (i + 1) as nat, n as nat);
                }
                return Err(ERR_BADXDR);
            },
        };
        others.push(other);
        proof {
            assert(others_view(others@) =~= list.push(other@));
        }
        i = i + 1;
    }
    Ok(OpReq::TestStateid { others })
}

/// LOCK: by a new lock owner, under an open stateid, or by a known one.
pub open spec fn lock_of(s: Seq<u8>) -> Decoded {
    let (locktype, s1) = get_u32(s);
    let (reclaim, s2) = get_bool(s1);
    let (offset, s3) = get_u64(s2);
    let (length, s4) = get_u64(s3);
    let (new_owner, s5) = get_bool(s4);
    if locktype is None || reclaim is None || offset is None || length is None || new_owner is None {
        Err(ERR_BADXDR)
    } else if new_owner->0 {
        let (open_seqid, s6) = get_u32(s5);
        if open_seqid is None {
            Err(ERR_BADXDR)
        } else {
            match stateid_of(s6) {
                None => Err(ERR_BADXDR),
                Some(((seq, other), s7)) => {
                    let (lock_seqid, s8) = get_u32(s7);
                    let (clientid, s9) = get_u64(s8);
                    let (owner, s10) = get_opaque(s9, 1024);
                    if lock_seqid is None || clientid is None || owner is None {
                        Err(ERR_BADXDR)
                    } else {
                        Ok((OpReq::LockNew { seq, other }, s10))
                    }
                },
            }
        }
    } else {
        match stateid_of(s5) {
            None => Err(ERR_BADXDR),
            Some(((seq, other), s6)) => match get_u32(s6) {
                (Some(_), rest) => Ok((OpReq::LockKnown { other }, rest)),
                (None, _) => Err(ERR_BADXDR),
            },
        }
    }
}

fn decode_lock(r: &mut XdrReader<'_>) -> (res: Result<OpReq, u32>)
    ensures
        match res {
            Ok(op) => lock_of(old(r)@) == Ok::<_, u32>((op@, final(r)@)),
            Err(e) => lock_of(old(r)@) == Err::<(OpSpec, Seq<u8>), _>(e),
        },
{
    let _locktype: u32 = bad(r.u32())?;
    let _reclaim = bad(r.bool())?;
    let _offset: u64 = bad(r.u64())?;
    let _length: u64 = bad(r.u64())?;
    let new_owner = bad(r.bool())?;
    if new_owner {
        let _open_seqid: u32 = bad(r.u32())?;
        let (seq, other) = bad(read_stateid(r))?;
        let _lock_seqid: u32 = bad(r.u32())?;
        let _clientid: u64 = bad(r.u64())?;
        let _owner = bad(r.opaque(1024))?;
        Ok(OpReq::LockNew { seq, other })
    } else {
        let (_seq, other) = bad(read_stateid(r))?;
        let _lock_seqid: u32 = bad(r.u32())?;
        Ok(OpReq::LockKnown { other })
    }
}

pub open spec fn lockt_of(s: Seq<u8>) -> Decoded {
    let (locktype, s1) = get_u32(s);
    let (offset, s2) = get_u64(s1);
    let (length, s3) = get_u64(s2);
    let (clientid, s4) = get_u64(s3);
    let (owner, s5) = get_opaque(s4, 1024);
    if locktype is None || offset is None || length is None || clientid is None || owner is None {
        Err(ERR_BADXDR)
    } else {
        Ok((OpReq::Lockt, s5))
    }
}

fn decode_lockt(r: &mut XdrReader<'_>) -> (res: Result<OpReq, u32>)
    ensures
        match res {
            Ok(op) => lockt_of(old(r)@) == Ok::<_, u32>((op@, final(r)@)),
            Err(e) => lockt_of(old(r)@) == Err::<(OpSpec, Seq<u8>), _>(e),
        },
{
    let _locktype: u32 = bad(r.u32())?;
    let _offset: u64 = bad(r.u64())?;
    let _length: u64 = bad(r.u64())?;
    let _clientid: u64 = bad(r.u64())?;
    let _owner = bad(r.opaque(1024))?;
    Ok(OpReq::Lockt)
}

pub open spec fn locku_of(s: Seq<u8>) -> Decoded {
    let (locktype, s1) = get_u32(s);
    let (seqid, s2) = get_u32(s1);
    if locktype is None || seqid is None {
        Err(ERR_BADXDR)
    } else {
        match stateid_of(s2) {
            None => Err(ERR_BADXDR),
            Some(((seq, other), s3)) => {
                let (offset, s4) = get_u64(s3);
                let (length, s5) = get_u64(s4);
                if offset is None || length is None {
                    Err(ERR_BADXDR)
                } else {
                    Ok((OpReq::Locku { seq, other }, s5))
                }
            },
        }
    }
}

fn decode_locku(r: &mut XdrReader<'_>) -> (res: Result<OpReq, u32>)
    ensures
        match res {
            Ok(op) => locku_of(old(r)@) == Ok::<_, u32>((op@, final(r)@)),
            Err(e) => locku_of(old(r)@) == Err::<(OpSpec, Seq<u8>), _>(e),
        },
{
    let _locktype: u32 = bad(r.u32())?;
    let _seqid: u32 = bad(r.u32())?;
    let (seq, other) = bad(read_stateid(r))?;
    let _offset: u64 = bad(r.u64())?;
    let _length: u64 = bad(r.u64())?;
    Ok(OpReq::Locku { seq, other })
}

/// CLOSE: the sequence number comes before the stateid.
pub open spec fn close_of(s: Seq<u8>) -> Decoded {
    match get_u32(s) {
        (None, _) => Err(ERR_BADXDR),
        (Some(_), s1) => match stateid_of(s1) {
            None => Err(ERR_BADXDR),
            Some(((seq, other), rest)) => Ok((OpReq::Close { seq, other }, rest)),
        },
    }
}

fn decode_close(r: &mut XdrReader<'_>) -> (res: Result<OpReq, u32>)
    ensures
        match res {
            Ok(op) => close_of(old(r)@) == Ok::<_, u32>((op@, final(r)@)),
            Err(e) => close_of(old(r)@) == Err::<(OpSpec, Seq<u8>), _>(e),
        },
{
    let _seqid: u32 = bad(r.u32())?;
    let (seq, other) = bad(read_stateid(r))?;
    Ok(OpReq::Close { seq, other })
}

/// OPEN_DOWNGRADE: the stateid comes first, unlike in CLOSE.
pub open spec fn downgrade_of(s: Seq<u8>) -> Decoded {
    match stateid_of(s) {
        None => Err(ERR_BADXDR),
        Some(((seq, other), s1)) => {
            let (seqid, s2) = get_u32(s1);
            let (access, s3) = get_u32(s2);
            let (deny, s4) = get_u32(s3);
            if seqid is None || access is None || deny is None {
                Err(ERR_BADXDR)
            } else {
                Ok((OpReq::OpenDowngrade { seq, other, access: access->0 }, s4))
            }
        },
    }
}

fn decode_downgrade(r: &mut XdrReader<'_>) -> (res: Result<OpReq, u32>)
    ensures
        match res {
            Ok(op) => downgrade_of(old(r)@) == Ok::<_, u32>((op@, final(r)@)),
            Err(e) => downgrade_of(old(r)@) == Err::<(OpSpec, Seq<u8>), _>(e),
        },
{
    let (seq, other) = bad(read_stateid(r))?;
    let _seqid: u32 = bad(r.u32())?;
    let access: u32 = bad(r.u32())?;
    let _deny: u32 = bad(r.u32())?;
    Ok(OpReq::OpenDowngrade { seq, other, access })
}

/// READ: the count is cut to [`MAX_READ`].
pub open spec fn read_op_of(s: Seq<u8>) -> Decoded {
    match stateid_of(s) {
        None => Err(ERR_BADXDR),
        Some(((seq, other), s1)) => {
            let (offset, s2) = get_u64(s1);
            let (count, s3) = get_u32(s2);
            if offset is None || count is None {
                Err(ERR_BADXDR)
            } else {
                Ok((
                    OpReq::Read {
                        seq,
                        other,
                        offset: offset->0,
                        count: if count->0 <= MAX_READ {
                            count->0
                        } else {
                            MAX_READ
                        },
                    },
                    s3,
                ))
            }
        },
    }
}

fn decode_read(r: &mut XdrReader<'_>) -> (res: Result<OpReq, u32>)
    ensures
        match res {
            Ok(op) => read_op_of(old(r)@) == Ok::<_, u32>((op@, final(r)@)),
            Err(e) => read_op_of(old(r)@) == Err::<(OpSpec, Seq<u8>), _>(e),
        },
{
    let (seq, other) = bad(read_stateid(r))?;
    let offset: u64 = bad(r.u64())?;
    let count: u32 = bad(r.u32())?;
    Ok(
        OpReq::Read {
            seq,
            other,
            offset,
            count: if count <= MAX_READ {
                count
            } else {
                MAX_READ
            },
        },
    )
}

pub open spec fn write_op_of(s: Seq<u8>) -> Decoded {
    match stateid_of(s) {
        None => Err(ERR_BADXDR),
        Some(((seq, other), s1)) => {
            let (offset, s2) = get_u64(s1);
            let (stable, s3) = get_u32(s2);
            let (data, s4) = get_opaque(s3, WRITE_CAP as nat);
            if offset is None || stable is None || data is None {
                Err(ERR_BADXDR)
            } else {
                Ok((
                    OpReq::Write {
                        seq,
                        other,
                        offset: offset->0,
                        stable: stable->0,
                        data: data->0,
                    },
                    s4,
                ))
            }
        },
    }
}

fn decode_write(r: &mut XdrReader<'_>) -> (res: Result<OpReq, u32>)
    ensures
        match res {
            Ok(op) => write_op_of(old(r)@) == Ok::<_, u32>((op@, final(r)@)),
            Err(e) => write_op_of(old(r)@) == Err::<(OpSpec, Seq<u8>), _>(e),
        },
{
    let (seq, other) = bad(read_stateid(r))?;
    let offset: u64 = bad(r.u64())?;
    let stable: u32 = bad(r.u32())?;
    let data = bad(read_opaque(r, WRITE_CAP))?;
    Ok(OpReq::Write { seq, other, offset, stable, data })
}

pub open spec fn setattr_op_of(s: Seq<u8>, now: Ts) -> Decoded {
    match stateid_of(s) {
        None => Err(ERR_BADXDR),
        Some(((seq, other), s1)) => match set_attrs_of(s1, now) {
            None => Err(ERR_BADXDR),
            Some((set, want, rest)) => Ok((OpReq::Setattr { seq, other, set, want }, rest)),
        },
    }
}

fn decode_setattr(r: &mut XdrReader<'_>, now: Ts) -> (res: Result<OpReq, u32>)
    ensures
        match res {
            Ok(op) => setattr_op_of(old(r)@, now) == Ok::<_, u32>((op@, final(r)@)),
            Err(e) => setattr_op_of(old(r)@, now) == Err::<(OpSpec, Seq<u8>), _>(e),
        },
{
    let (seq, other) = bad(read_stateid(r))?;
    let (set, want) = bad(read_set_attrs(r, now))?;
    Ok(OpReq::Setattr { seq, other, set, want })
}

pub open spec fn readdir_op_of(s: Seq<u8>) -> Decoded {
    let (cookie, s1) = get_u64(s);
    let (verf, s2) = get_fixed(s1, 8);
    let (dircount, s3) = get_u32(s2);
    let (maxcount, s4) = get_u32(s3);
    if cookie is None || verf is None || dircount is None || maxcount is None {
        Err(ERR_BADXDR)
    } else {
        match words_of(s4) {
            None => Err(ERR_BADXDR),
            Some((want, rest)) => Ok((
                OpReq::Readdir { cookie: cookie->0, maxcount: maxcount->0, want },
                rest,
            )),
        }
    }
}

fn decode_readdir(r: &mut XdrReader<'_>) -> (res: Result<OpReq, u32>)
    ensures
        match res {
            Ok(op) => readdir_op_of(old(r)@) == Ok::<_, u32>((op@, final(r)@)),
            Err(e) => readdir_op_of(old(r)@) == Err::<(OpSpec, Seq<u8>), _>(e),
        },
{
    let cookie: u64 = bad(r.u64())?;
    let _verf = bad(r.fixed(8))?;
    let _dircount: u32 = bad(r.u32())?;
    let maxcount: u32 = bad(r.u32())?;
    let want = bad(read_words(r))?;
    Ok(OpReq::Readdir { cookie, maxcount, want })
}

pub open spec fn bind_of(s: Seq<u8>) -> Decoded {
    let (sid, s1) = get_fixed(s, 16);
    let (dir, s2) = get_u32(s1);
    let (rdma, s3) = get_bool(s2);
    if sid is None || dir is None || rdma is None {
        Err(ERR_BADXDR)
    } else {
        Ok((OpReq::BindConn { sid: sid->0, dir: dir->0 }, s3))
    }
}

fn decode_bind(r: &mut XdrReader<'_>) -> (res: Result<OpReq, u32>)
    ensures
        match res {
            Ok(op) => bind_of(old(r)@) == Ok::<_, u32>((op@, final(r)@)),
            Err(e) => bind_of(old(r)@) == Err::<(OpSpec, Seq<u8>), _>(e),
        },
{
    let sid = bad(read_sid(r))?;
    let dir: u32 = bad(r.u32())?;
    let _rdma = bad(r.bool())?;
    Ok(OpReq::BindConn { sid, dir })
}

pub open spec fn commit_of(s: Seq<u8>) -> Decoded {
    let (offset, s1) = get_u64(s);
    let (count, s2) = get_u32(s1);
    if offset is None || count is None {
        Err(ERR_BADXDR)
    } else {
        Ok((OpReq::Commit { offset: offset->0, count: count->0 }, s2))
    }
}

fn decode_commit(r: &mut XdrReader<'_>) -> (res: Result<OpReq, u32>)
    ensures
        match res {
            Ok(op) => commit_of(old(r)@) == Ok::<_, u32>((op@, final(r)@)),
            Err(e) => commit_of(old(r)@) == Err::<(OpSpec, Seq<u8>), _>(e),
        },
{
    let offset: u64 = bad(r.u64())?;
    let count: u32 = bad(r.u32())?;
    Ok(OpReq::Commit { offset, count })
}

pub open spec fn rename_op_of(s: Seq<u8>) -> Decoded {
    let (from, s1) = get_opaque(s, 4096);
    let (to, s2) = get_opaque(s1, 4096);
    if from is None || to is None {
        Err(ERR_BADXDR)
    } else {
        Ok((OpReq::Rename { from: from->0, to: to->0 }, s2))
    }
}

fn decode_rename(r: &mut XdrReader<'_>) -> (res: Result<OpReq, u32>)
    ensures
        match res {
            Ok(op) => rename_op_of(old(r)@) == Ok::<_, u32>((op@, final(r)@)),
            Err(e) => rename_op_of(old(r)@) == Err::<(OpSpec, Seq<u8>), _>(e),
        },
{
    let from = bad(read_opaque(r, 4096))?;
    let to = bad(read_opaque(r, 4096))?;
    Ok(OpReq::Rename { from, to })
}

/// LINK, VERIFY and NVERIFY are read and not supported.
pub open spec fn unsupported_of(op: u32, s: Seq<u8>) -> u32 {
    if op == OP_LINK {
        if get_opaque(s, 4096).0 is None {
            ERR_BADXDR
        } else {
            ERR_NOTSUPP
        }
    } else if op == OP_VERIFY || op == OP_NVERIFY {
        match words_of(s) {
            None => ERR_BADXDR,
            Some((_, s1)) => if get_opaque(s1, 65536).0 is None {
                ERR_BADXDR
            } else {
                ERR_NOTSUPP
            },
        }
    } else if op == OP_ILLEGAL {
        ERR_OP_ILLEGAL
    } else {
        ERR_NOTSUPP
    }
}

fn refuse_unsupported(op: u32, r: &mut XdrReader<'_>) -> (st: u32)
    ensures
        st == unsupported_of(op, old(r)@),
{
    if op == OP_LINK {
        match r.opaque(4096) {
            Ok(_) => ERR_NOTSUPP,
            Err(_) => ERR_BADXDR,
        }
    } else if op == OP_VERIFY || op == OP_NVERIFY {
        match read_words(r) {
            Ok(_) => match r.opaque(65536) {
                Ok(_) => ERR_NOTSUPP,
                Err(_) => ERR_BADXDR,
            },
            Err(_) => ERR_BADXDR,
        }
    } else if op == OP_ILLEGAL {
        ERR_OP_ILLEGAL
    } else {
        ERR_NOTSUPP
    }
}

/// Operations with no arguments or a single one.
pub open spec fn short_of(op: u32, s: Seq<u8>) -> Option<Decoded> {
    if op == OP_PUTROOTFH || op == OP_PUTPUBFH {
        Some(Ok((OpReq::PutRootFh, s)))
    } else if op == OP_GETFH {
        Some(Ok((OpReq::GetFh, s)))
    } else if op == OP_SAVEFH {
        Some(Ok((OpReq::SaveFh, s)))
    } else if op == OP_RESTOREFH {
        Some(Ok((OpReq::RestoreFh, s)))
    } else if op == OP_LOOKUPP {
        Some(Ok((OpReq::Lookupp, s)))
    } else if op == OP_READLINK {
        Some(Ok((OpReq::Readlink, s)))
    } else if op == OP_DESTROY_SESSION {
        Some(
            match get_fixed(s, 16) {
                (Some(sid), rest) => Ok((OpReq::DestroySession { sid }, rest)),
                (None, _) => Err(ERR_BADXDR),
            },
        )
    } else if op == OP_DESTROY_CLIENTID {
        Some(
            match get_u64(s) {
                (Some(clientid), rest) => Ok((OpReq::DestroyClientid { clientid }, rest)),
                (None, _) => Err(ERR_BADXDR),
            },
        )
    } else if op == OP_RECLAIM_COMPLETE {
        Some(
            match get_bool(s) {
                (Some(_), rest) => Ok((OpReq::ReclaimComplete, rest)),
                (None, _) => Err(ERR_BADXDR),
            },
        )
    } else if op == OP_SECINFO_NO_NAME {
        Some(
            match get_u32(s) {
                (Some(_), rest) => Ok((OpReq::SecinfoNoName, rest)),
                (None, _) => Err(ERR_BADXDR),
            },
        )
    } else if op == OP_PUTFH {
        Some(
            match get_opaque(s, 128) {
                (Some(fh), rest) => Ok((OpReq::PutFh { fh }, rest)),
                (None, _) => Err(ERR_BADXDR),
            },
        )
    } else if op == OP_LOOKUP {
        Some(
            match get_opaque(s, 4096) {
                (Some(name), rest) => Ok((OpReq::Lookup { name }, rest)),
                (None, _) => Err(ERR_BADXDR),
            },
        )
    } else if op == OP_REMOVE {
        Some(
            match get_opaque(s, 4096) {
                (Some(name), rest) => Ok((OpReq::Remove { name }, rest)),
                (None, _) => Err(ERR_BADXDR),
            },
        )
    } else if op == OP_GETATTR {
        Some(
            match words_of(s) {
                Some((want, rest)) => Ok((OpReq::Getattr { want }, rest)),
                None => Err(ERR_BADXDR),
            },
        )
    } else if op == OP_ACCESS {
        Some(
            match get_u32(s) {
                (Some(want), rest) => Ok((OpReq::Access { want }, rest)),
                (None, _) => Err(ERR_BADXDR),
            },
        )
    } else if op == OP_DELEGRETURN {
        Some(
            match stateid_of(s) {
                Some(((seq, other), rest)) => Ok((OpReq::DelegReturn { other }, rest)),
                None => Err(ERR_BADXDR),
            },
        )
    } else if op == OP_FREE_STATEID {
        Some(
            match stateid_of(s) {
                Some(((seq, other), rest)) => Ok((OpReq::FreeStateid { other }, rest)),
                None => Err(ERR_BADXDR),
            },
        )
    } else {
        None
    }
}

fn decode_short(op: u32, r: &mut XdrReader<'_>) -> (res: Option<Result<OpReq, u32>>)
    ensures
        match res {
            Some(Ok(q)) => short_of(op, old(r)@) == Some(Ok::<_, u32>((q@, final(r)@))),
            Some(Err(e)) => short_of(op, old(r)@) == Some(Err::<(OpSpec, Seq<u8>), _>(e)),
            None => short_of(op, old(r)@) is None && final(r)@ == old(r)@,
        },
{
    let req: Result<OpReq, XdrError> = if op == OP_PUTROOTFH || op == OP_PUTPUBFH {
        Ok(OpReq::PutRootFh)
    } else if op == OP_GETFH {
        Ok(OpReq::GetFh)
    } else if op == OP_SAVEFH {
        Ok(OpReq::SaveFh)
    } else if op == OP_RESTOREFH {
        Ok(OpReq::RestoreFh)
    } else if op == OP_LOOKUPP {
        Ok(OpReq::Lookupp)
    } else if op == OP_READLINK {
        Ok(OpReq::Readlink)
    } else if op == OP_DESTROY_SESSION {
        match read_sid(r) {
            Ok(sid) => Ok(OpReq::DestroySession { sid }),
            Err(e) => Err(e),
        }
    } else if op == OP_DESTROY_CLIENTID {
        match r.u64() {
            Ok(clientid) => Ok(OpReq::DestroyClientid { clientid }),
            Err(e) => Err(e),
        }
    } else if op == OP_RECLAIM_COMPLETE {
        match r.bool() {
            Ok(_) => Ok(OpReq::ReclaimComplete),
            Err(e) => Err(e),
        }
    } else if op == OP_SECINFO_NO_NAME {
        match r.u32() {
            Ok(_) => Ok(OpReq::SecinfoNoName),
            Err(e) => Err(e),
        }
    } else if op == OP_PUTFH {
        match read_opaque(r, 128) {
            Ok(fh) => Ok(OpReq::PutFh { fh }),
            Err(e) => Err(e),
        }
    } else if op == OP_LOOKUP {
        match read_opaque(r, 4096) {
            Ok(name) => Ok(OpReq::Lookup { name }),
            Err(e) => Err(e),
        }
    } else if op == OP_REMOVE {
        match read_opaque(r, 4096) {
            Ok(name) => Ok(OpReq::Remove { name }),
            Err(e) => Err(e),
        }
    } else if op == OP_GETATTR {
        match read_words(r) {
            Ok(want) => Ok(OpReq::Getattr { want }),
            Err(e) => Err(e),
        }
    } else if op == OP_ACCESS {
        match r.u32() {
            Ok(want) => Ok(OpReq::Access { want }),
            Err(e) => Err(e),
        }
    } else if op == OP_DELEGRETURN {
        match read_stateid(r) {
            Ok((_, other)) => Ok(OpReq::DelegReturn { other }),
            Err(e) => Err(e),
        }
    } else if op == OP_FREE_STATEID {
        match read_stateid(r) {
            Ok((_, other)) => Ok(OpReq::FreeStateid { other }),
            Err(e) => Err(e),
        }
    } else {
        return None;
    };
    Some(bad(req))
}

/// The operation that a number and the bytes after it make. `now` is the server's time, for
/// attributes set to it; `has_cfh` says whether the compound has a current file, which an OPEN
/// needs before its claim is looked at.
pub open spec fn op_of(op: u32, s: Seq<u8>, now: Ts, has_cfh: bool) -> Decoded {
    match short_of(op, s) {
        Some(d) => d,
        None => if op == OP_EXCHANGE_ID {
            exchange_id_of(s)
        } else if op == OP_CREATE_SESSION {
            create_session_of(s)
        } else if op == OP_BIND_CONN_TO_SESSION {
            bind_of(s)
        } else if op == OP_READDIR {
            readdir_op_of(s)
        } else if op == OP_OPEN {
            open_of(s, now, has_cfh)
        } else if op == OP_CLOSE {
            close_of(s)
        } else if op == OP_OPEN_DOWNGRADE {
            downgrade_of(s)
        } else if op == OP_READ {
            read_op_of(s)
        } else if op == OP_WRITE {
            write_op_of(s)
        } else if op == OP_COMMIT {
            commit_of(s)
        } else if op == OP_CREATE {
            create_op_of(s, now)
        } else if op == OP_RENAME {
            rename_op_of(s)
        } else if op == OP_SETATTR {
            setattr_op_of(s, now)
        } else if op == OP_TEST_STATEID {
            test_stateid_of(s)
        } else if op == OP_LOCK {
            lock_of(s)
        } else if op == OP_LOCKT {
            lockt_of(s)
        } else if op == OP_LOCKU {
            locku_of(s)
        } else {
            Err(unsupported_of(op, s))
        },
    }
}

/// Decode an operation's arguments, or say which status it fails with.
pub fn decode_op(op: u32, r: &mut XdrReader<'_>, now: Ts, has_cfh: bool) -> (res: Result<
    OpReq,
    u32,
>)
    ensures
        match res {
            Ok(q) => op_of(op, old(r)@, now, has_cfh) == Ok::<_, u32>((q@, final(r)@)),
            Err(e) => op_of(op, old(r)@, now, has_cfh) == Err::<(OpSpec, Seq<u8>), _>(e),
        },
{
    if let Some(res) = decode_short(op, r) {
        return res;
    }
    if op == OP_EXCHANGE_ID {
        decode_exchange_id(r)
    } else if op == OP_CREATE_SESSION {
        decode_create_session(r)
    } else if op == OP_BIND_CONN_TO_SESSION {
        decode_bind(r)
    } else if op == OP_READDIR {
        decode_readdir(r)
    } else if op == OP_OPEN {
        decode_open(r, now, has_cfh)
    } else if op == OP_CLOSE {
        decode_close(r)
    } else if op == OP_OPEN_DOWNGRADE {
        decode_downgrade(r)
    } else if op == OP_READ {
        decode_read(r)
    } else if op == OP_WRITE {
        decode_write(r)
    } else if op == OP_COMMIT {
        decode_commit(r)
    } else if op == OP_CREATE {
        decode_create(r, now)
    } else if op == OP_RENAME {
        decode_rename(r)
    } else if op == OP_SETATTR {
        decode_setattr(r, now)
    } else if op == OP_TEST_STATEID {
        decode_test_stateid(r)
    } else if op == OP_LOCK {
        decode_lock(r)
    } else if op == OP_LOCKT {
        decode_lockt(r)
    } else if op == OP_LOCKU {
        decode_locku(r)
    } else {
        Err(refuse_unsupported(op, r))
    }
}

proof fn sec_refusals_are_errors(s: Seq<u8>, n: nat)
    ensures
        match sec_parms(s, n) {
            Err(code) => code != NFS4_OK,
            Ok(_) => true,
        },
    decreases n,
{
    if n > 0 {
        let (flavor, s1) = get_u32(s);
        sec_refusals_are_errors(s1, (n - 1) as nat);
        let (stamp, s2) = get_u32(s1);
        let (machine, s3) = get_opaque(s2, 256);
        let (uid, s4) = get_u32(s3);
        let (gid, s5) = get_u32(s4);
        let (count, s6) = get_u32(s5);
        if count is Some && after_words(s6, count->0 as nat) is Some {
            sec_refusals_are_errors(after_words(s6, count->0 as nat)->0, (n - 1) as nat);
        }
    }
}

/// An operation that cannot be decoded is refused with an error.
pub proof fn refusals_are_errors(op: u32, s: Seq<u8>, now: Ts, has_cfh: bool)
    ensures
        match op_of(op, s, now, has_cfh) {
            Err(code) => code != NFS4_OK,
            Ok(_) => true,
        },
{
    assert forall|t: Seq<u8>, n: nat| (#[trigger] sec_parms(t, n)) is Err implies sec_parms(t, n)->Err_0
        != NFS4_OK by {
        sec_refusals_are_errors(t, n);
    }
}

} // verus!
