//! The RPC procedures of NFSv4: NULL and COMPOUND.
use crate::bufpool::{drawn, Pool};
use crate::rpc::{
    accepted_header, call_of, mismatch_header, mismatch_pooled, parse_call, reply_pooled,
    ACCEPT_PROC_UNAVAIL, ACCEPT_PROG_UNAVAIL, ACCEPT_SUCCESS, REPLY_ROOM,
};
use crate::xdr::{XdrReader, XdrWriter};
use vstd::prelude::*;

verus! {

pub const NFS_PROGRAM: u32 = 100003;

pub const NFS_VERSION: u32 = 4;

pub const PROC_NULL: u32 = 0;

pub const PROC_COMPOUND: u32 = 1;

/// What is to be done with a call.
#[derive(Debug)]
pub enum Call41<'a> {
    /// Not a call that can be answered.
    Dropped,
    /// Answered at once.
    Reply(XdrWriter),
    /// A compound: its arguments, and a reply that holds the accepted header.
    Compound(XdrReader<'a>, XdrWriter),
}

/// Other programs are not available, other versions are told the one that is, other procedures
/// do not exist.
pub open spec fn serves41(record: Seq<u8>, out: Call41) -> bool {
    match call_of(record) {
        Err(_) => out is Dropped,
        Ok((call, args)) => if call.program != NFS_PROGRAM {
            out is Reply && out->Reply_0@ == accepted_header(call.xid, ACCEPT_PROG_UNAVAIL)
        } else if call.version != NFS_VERSION {
            out is Reply && out->Reply_0@ == mismatch_header(call.xid, 4, 4)
        } else if call.procedure == PROC_NULL {
            out is Reply && out->Reply_0@ == accepted_header(call.xid, ACCEPT_SUCCESS)
        } else if call.procedure == PROC_COMPOUND {
            out is Compound && out->Compound_0@ == args && out->Compound_1@ == accepted_header(
                call.xid,
                ACCEPT_SUCCESS,
            )
        } else {
            out is Reply && out->Reply_0@ == accepted_header(call.xid, ACCEPT_PROC_UNAVAIL)
        },
    }
}

/// Take a record apart and answer it as far as that needs no compound to run. The reply is written
/// into a buffer of the pool.
pub fn handle_call_pooled<'a>(record: &'a [u8], pool: &mut Pool) -> (out: Call41<'a>)
    requires
        old(pool).wf(),
    ensures
        serves41(record@, out),
        final(pool).wf(),
        if out is Dropped {
            *final(pool) == *old(pool)
        } else {
            drawn(*old(pool), *final(pool), REPLY_ROOM)
        },
{
    let (call, args) = match parse_call(record) {
        Ok(c) => c,
        Err(_) => {
            return Call41::Dropped;
        },
    };
    if call.program != NFS_PROGRAM {
        Call41::Reply(reply_pooled(pool, call.xid, ACCEPT_PROG_UNAVAIL))
    } else if call.version != NFS_VERSION {
        Call41::Reply(mismatch_pooled(pool, call.xid, 4, 4))
    } else if call.procedure == PROC_NULL {
        Call41::Reply(reply_pooled(pool, call.xid, ACCEPT_SUCCESS))
    } else if call.procedure == PROC_COMPOUND {
        Call41::Compound(args, reply_pooled(pool, call.xid, ACCEPT_SUCCESS))
    } else {
        Call41::Reply(reply_pooled(pool, call.xid, ACCEPT_PROC_UNAVAIL))
    }
}

/// The same, with the reply in a buffer of its own.
pub fn handle_call(record: &[u8]) -> (out: Call41<'_>)
    ensures
        serves41(record@, out),
{
    let mut pool = Pool::new();
    handle_call_pooled(record, &mut pool)
}

} // verus!
