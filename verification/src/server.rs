//! Record marking (RFC 5531 §11) and the dispatch of records to the NFS and MOUNT programs.
use crate::bufpool::{drawn, Pool};
use crate::handle::HandleCodec;
use crate::mount3::{self, mount_reply, MOUNT_PROGRAM, MOUNT_VERSION};
use crate::nfs3::{self, req_of, Req3, NFS_PROGRAM, NFS_VERSION};
use crate::rpc::{
    accepted_header, call_of, mismatch_header, mismatch_pooled, parse_call, reply_pooled,
    ACCEPT_PROG_UNAVAIL, ACCEPT_SUCCESS, REPLY_ROOM,
};
use crate::surface::{SendRange, SurfaceInfo};
use crate::xdr::{pad_len, XdrWriter};
use vstd::prelude::*;

verus! {

/// Largest record taken: a write of one mebibyte and its envelope.
pub const MAX_RECORD: usize = 0x20_0000;

/// The marker of a last fragment of `len` bytes: the high bit and the length's low 31 bits.
pub open spec fn marker_of(len: nat) -> u32 {
    (0x8000_0000 + len % 0x8000_0000) as u32
}

pub fn record_marker(len: usize) -> (m: u32)
    ensures
        m == marker_of(len as nat),
{
    0x8000_0000u32 + (len as u64 % 0x8000_0000) as u32
}

/// What a marker announces: whether the fragment is the last, and its length.
pub open spec fn fragment_of(marker: u32) -> (bool, nat) {
    (marker >= 0x8000_0000, marker as nat % 0x8000_0000)
}

/// A record grew over [`MAX_RECORD`].
#[derive(Debug, Clone, Copy, PartialEq, Eq, Structural)]
pub struct RecordTooLarge;

/// A record being put together from its fragments.
#[derive(Debug)]
pub struct RecordReader {
    record: Vec<u8>,
    begun: bool,
}

impl RecordReader {
    /// The bytes of the fragments so far.
    pub closed spec fn view(&self) -> Seq<u8> {
        self.record@
    }

    /// A fragment of the record was read, be it empty.
    pub closed spec fn started(&self) -> bool {
        self.begun
    }

    pub fn new() -> (r: Self)
        ensures
            r@ == Seq::<u8>::empty(),
            !r.started(),
    {
        RecordReader { record: Vec::new(), begun: false }
    }

    /// Whether the stream may end here, with `mark_read` bytes of the next fragment's marker read:
    /// only before any byte of a record.
    pub fn at_boundary(&self, mark_read: usize) -> (r: bool)
        ensures
            r == (mark_read == 0 && !self.started()),
    {
        mark_read == 0 && !self.begun
    }

    /// What a fragment's marker calls for: whether it is the last, and how many bytes to read.
    pub fn expect(&self, marker: u32) -> (res: Result<(bool, usize), RecordTooLarge>)
        ensures
            match res {
                Ok((last, len)) => (last, len as nat) == fragment_of(marker) && self@.len() + len
                    <= MAX_RECORD,
                Err(_) => self@.len() + fragment_of(marker).1 > MAX_RECORD,
            },
    {
        let last = marker >= 0x8000_0000;
        let len: u32 = marker % 0x8000_0000;
        if self.record.len() as u128 + len as u128 > MAX_RECORD as u128 {
            return Err(RecordTooLarge);
        }
        Ok((last, len as usize))
    }

    /// Append a fragment that was read.
    pub fn push(&mut self, fragment: &[u8])
        ensures
            final(self)@ == old(self)@ + fragment@,
            final(self).started(),
    {
        self.begun = true;
        self.record.extend_from_slice(fragment);
        proof {
            assert(self.record@ =~= old(self)@ + fragment@);
        }
    }

    /// The record, after its last fragment.
    pub fn finish(self) -> (record: Vec<u8>)
        ensures
            record@ == self@,
    {
        self.record
    }
}

/// A record sent whole is announced as one last fragment of its length, which a reader takes.
pub proof fn marker_round_trip(len: nat)
    requires
        len <= MAX_RECORD,
    ensures
        fragment_of(marker_of(len)) == (true, len),
{
}

/// One reply on its way out: fully rendered, or a rendered head whose payload is a range of a
/// local file, followed by padding.
#[derive(Debug)]
pub enum Reply {
    Whole(Vec<u8>),
    HeadAndFile { head: Vec<u8>, body: SendRange, pad: usize },
}

/// How many bytes a reply puts on the wire after its marker.
pub open spec fn wire_len(reply: Reply) -> nat {
    match reply {
        Reply::Whole(payload) => payload@.len(),
        Reply::HeadAndFile { head, body, pad } => head@.len() + body.len as nat + pad as nat,
    }
}

/// The marker to send before a reply. An empty reply is not sent at all.
pub fn reply_marker(reply: &Reply) -> (m: Option<u32>)
    ensures
        m == (match *reply {
            Reply::Whole(payload) => if payload@.len() == 0 {
                None
            } else {
                Some(marker_of(wire_len(*reply)))
            },
            Reply::HeadAndFile { .. } => Some(marker_of(wire_len(*reply))),
        }),
{
    match reply {
        Reply::Whole(payload) => {
            if payload.len() == 0 {
                return None;
            }
            Some(record_marker(payload.len()))
        },
        Reply::HeadAndFile { head, body, pad } => {
            let total: u128 = head.len() as u128 + body.len as u128 + *pad as u128;
            Some(0x8000_0000u32 + (total % 0x8000_0000) as u32)
        },
    }
}

/// What is to be done with a record.
#[derive(Debug)]
pub enum Served {
    /// Not a call that can be answered: the client will time out and try again.
    Dropped,
    /// Answered at once.
    Reply(XdrWriter),
    /// An NFSv3 call: its request, and a reply that holds the accepted header.
    Nfs3(Req3, XdrWriter),
}

/// What is to be done with a record's bytes: NFSv3 and MOUNT version 3 are served, other
/// versions of them are told the version that is, other programs are not available.
pub open spec fn serves(record: Seq<u8>, info: SurfaceInfo, key: Seq<u8>, out: Served) -> bool {
    match call_of(record) {
        Err(_) => out is Dropped,
        Ok((call, args)) => if call.program == NFS_PROGRAM && call.version == NFS_VERSION {
            &&& out is Nfs3
            &&& out->Nfs3_0@ == req_of(call.procedure, args, key)
            &&& out->Nfs3_1@ == accepted_header(call.xid, ACCEPT_SUCCESS)
        } else if call.program == MOUNT_PROGRAM && call.version == MOUNT_VERSION {
            &&& out is Reply
            &&& out->Reply_0@ == mount_reply(
                accepted_header(call.xid, ACCEPT_SUCCESS),
                call.procedure,
                info,
                key,
            )
        } else if call.program == NFS_PROGRAM || call.program == MOUNT_PROGRAM {
            out is Reply && out->Reply_0@ == mismatch_header(call.xid, 3, 3)
        } else {
            out is Reply && out->Reply_0@ == accepted_header(call.xid, ACCEPT_PROG_UNAVAIL)
        },
    }
}

/// Take a record apart and answer it as far as that needs nothing of the exported tree.
/// The reply is written into a buffer of the pool.
pub fn handle_record_pooled(
    record: &[u8],
    info: &SurfaceInfo,
    codec: &HandleCodec,
    pool: &mut Pool,
) -> (out: Served)
    requires
        old(pool).wf(),
    ensures
        serves(record@, *info, codec.key(), out),
        final(pool).wf(),
        if out is Dropped {
            *final(pool) == *old(pool)
        } else {
            drawn(*old(pool), *final(pool), REPLY_ROOM)
        },
{
    let (call, args) = match parse_call(record) {
        Ok(c) => c,
        Err(_) => {
            return Served::Dropped;
        },
    };
    if call.program == NFS_PROGRAM && call.version == NFS_VERSION {
        let req = nfs3::decode(call.procedure, args, codec);
        Served::Nfs3(req, reply_pooled(pool, call.xid, ACCEPT_SUCCESS))
    } else if call.program == MOUNT_PROGRAM && call.version == MOUNT_VERSION {
        let mut w = reply_pooled(pool, call.xid, ACCEPT_SUCCESS);
        mount3::dispatch(call.procedure, info, codec, &mut w);
        Served::Reply(w)
    } else if call.program == NFS_PROGRAM || call.program == MOUNT_PROGRAM {
        Served::Reply(mismatch_pooled(pool, call.xid, 3, 3))
    } else {
        Served::Reply(reply_pooled(pool, call.xid, ACCEPT_PROG_UNAVAIL))
    }
}

/// The same, with the reply in a buffer of its own.
pub fn handle_record(record: &[u8], info: &SurfaceInfo, codec: &HandleCodec) -> (out: Served)
    ensures
        serves(record@, *info, codec.key(), out),
{
    let mut pool = Pool::new();
    handle_record_pooled(record, info, codec, &mut pool)
}

/// The reply that a rendered head makes: with a file range, the range and its padding follow.
pub fn finish(w: XdrWriter, body: Option<SendRange>) -> (reply: Reply)
    ensures
        match body {
            None => reply is Whole && reply->Whole_0@ == w@,
            Some(range) => {
                &&& reply is HeadAndFile
                &&& reply->head@ == w@
                &&& reply->body == range
                &&& reply->pad == pad_len(range.len as nat)
            },
        },
{
    match body {
        None => Reply::Whole(w.into_bytes()),
        Some(range) => {
            let pad: usize = (4 - range.len as usize % 4) % 4;
            Reply::HeadAndFile { head: w.into_bytes(), body: range, pad }
        },
    }
}

/// A reply whose head is aligned stays aligned with the file range behind it.
pub proof fn file_reply_is_aligned(head: Vec<u8>, body: SendRange, pad: usize)
    requires
        head@.len() % 4 == 0,
        pad == pad_len(body.len as nat),
    ensures
        wire_len(Reply::HeadAndFile { head, body, pad }) % 4 == 0,
{
}

} // verus!
