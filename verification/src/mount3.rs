//! MOUNT version 3 (RFC 1813, appendix I): just enough for a client to obtain the root handle.
//! Program 100005. There is a single export, the root of the share, mountable at any path.
use crate::handle::HandleCodec;
use crate::nfs3::fh_bytes;
use crate::rpc::{AUTH_NONE, AUTH_SYS};
use crate::surface::SurfaceInfo;
use crate::xdr::{Wire, XdrWriter};
use vstd::prelude::*;

verus! {

pub const MOUNT_PROGRAM: u32 = 100005;

pub const MOUNT_VERSION: u32 = 3;

pub const PROC_MNT: u32 = 1;

pub const PROC_EXPORT: u32 = 5;

pub const MNT3_OK: u32 = 0;

/// The reply to a MOUNT procedure after the header `s`. MNT gives the root's handle and the two
/// accepted flavors, whatever path it names; EXPORT lists `/`, open to all; every other procedure
/// has an empty reply.
pub open spec fn mount_reply(s: Seq<u8>, proc: u32, info: SurfaceInfo, key: Seq<u8>) -> Seq<u8> {
    if proc == PROC_MNT {
        s.put_u32(MNT3_OK).put_opaque(fh_bytes(key, info.share, info.root)).put_u32(2).put_u32(
            AUTH_SYS,
        ).put_u32(AUTH_NONE)
    } else if proc == PROC_EXPORT {
        s.put_bool(true).put_opaque(seq![47u8]).put_bool(false).put_bool(false)
    } else {
        s
    }
}

pub fn dispatch(proc: u32, info: &SurfaceInfo, codec: &HandleCodec, w: &mut XdrWriter)
    ensures
        final(w)@ == mount_reply(old(w)@, proc, *info, codec.key()),
{
    if proc == PROC_MNT {
        w.u32(MNT3_OK);
        w.opaque(codec.encode(info.share, info.root).as_slice());
        w.u32(2);
        w.u32(AUTH_SYS);
        w.u32(AUTH_NONE);
    } else if proc == PROC_EXPORT {
        let root: [u8; 1] = [47];
        proof {
            assert(root@ =~= seq![47u8]);
        }
        w.bool(true);
        w.opaque(root.as_slice());
        w.bool(false);
        w.bool(false);
    }
}

} // verus!
