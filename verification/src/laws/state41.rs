//! NFSv4.1 state: clients, sessions, open files and stateids.
use crate::laws::wire::{u64_at, u64_is_appended};
use crate::nfs41::state::{
    client_added, fresh_client, fresh_open, fresh_session, is_all, minted_other, open_added,
    session_added, Client, OpenState, Session, State,
};
use crate::types::NodeKey;
use crate::xdr::{be32_len, be64, Wire};
use vstd::prelude::*;

verus! {

/// A client record of this owner.
pub open spec fn record_of(st: State, id: u64, owner: Seq<u8>) -> bool {
    st.clients@.contains_key(id) && st.clients@[id].owner@ == owner
}

/// An owner that comes back with the verifier that it had keeps its number, and nothing changes.
pub proof fn known_clients_keep_their_number(
    st: &mut State,
    owner: &[u8],
    verifier: [u8; 8],
    res: (u64, u32),
    id: u64,
)
    requires
        call_ensures(State::exchange_id, (st, owner, verifier), res),
        record_of(*old(st), id, owner@),
        old(st).clients@[id].verifier@ == verifier@,
    ensures
        res.0 == id,
        res.1 == old(st).clients@[id].sequence_id,
        *final(st) == *old(st),
{
    assert(old(st).is_client_of(id, owner@));
}

/// A new owner gets a number that no client has, to be confirmed, and nobody else loses anything.
pub proof fn new_clients_are_added(
    st: &mut State,
    owner: &[u8],
    verifier: [u8; 8],
    res: (u64, u32),
    other: u64,
)
    requires
        call_ensures(State::exchange_id, (st, owner, verifier), res),
        forall|id: u64| !record_of(*old(st), id, owner@),
    ensures
        res.1 == 1,
        !old(st).clients@.contains_key(res.0),
        final(st).clients@.contains_key(res.0),
        final(st).clients@[res.0].owner@ == owner@,
        final(st).clients@[res.0].verifier@ == verifier@,
        final(st).clients@[res.0].clientid == res.0,
        !final(st).clients@[res.0].confirmed,
        final(st).clients@[res.0].sequence_id == 1,
        other != res.0 ==> (final(st).clients@.contains_key(other) <==> old(
            st).clients@.contains_key(other)),
        other != res.0 && old(st).clients@.contains_key(other) ==> final(st).clients@[other]
            == old(st).clients@[other],
        final(st).sessions == old(st).sessions,
        final(st).opens == old(st).opens,
        final(st).locks == old(st).locks,
        final(st).delegations == old(st).delegations,
{
    assert forall|id: u64| !old(st).is_client_of(id, owner@) by {
        assert(!record_of(*old(st), id, owner@));
    }
    let c = choose|c: Client| #[trigger]
        fresh_client(c, res.0, owner@, verifier@) && final(st).clients@ == old(st).clients@.insert(
            res.0,
            c,
        );
    assert(client_added(old(st).clients@, final(st).clients@, res.0, owner@, verifier@));
    assert(fresh_client(c, res.0, owner@, verifier@));
}

/// An owner that comes back with another verifier has restarted: its record and its sessions go,
/// as do all open files and delegations, and it gets a number that no client had.
pub proof fn restarted_clients_start_over(
    st: &mut State,
    owner: &[u8],
    verifier: [u8; 8],
    res: (u64, u32),
    id: u64,
    sid: Seq<u8>,
    other: Seq<u8>,
    node: NodeKey,
)
    requires
        call_ensures(State::exchange_id, (st, owner, verifier), res),
        record_of(*old(st), id, owner@),
        old(st).clients@[id].verifier@ != verifier@,
    ensures
        res.1 == 1,
        !old(st).clients@.contains_key(res.0),
        !final(st).clients@.contains_key(id),
        record_of(*final(st), res.0, owner@),
        final(st).clients@[res.0].verifier@ == verifier@,
        !final(st).clients@[res.0].confirmed,
        final(st).clients@[res.0].sequence_id == 1,
        final(st).sessions@.contains_key(sid) <==> old(st).sessions@.contains_key(sid) && old(
            st).sessions@[sid].clientid != id,
        final(st).sessions@.contains_key(sid) ==> final(st).sessions@[sid] == old(
            st).sessions@[sid],
        !final(st).opens@.contains_key(other),
        !final(st).delegations@.contains_key(node),
{
    assert(old(st).is_client_of(id, owner@));
    let before = old(st).clients@.remove(id);
    assert(client_added(before, final(st).clients@, res.0, owner@, verifier@));
    let c = choose|c: Client| #[trigger]
        fresh_client(c, res.0, owner@, verifier@) && final(st).clients@ == before.insert(res.0, c);
    assert(fresh_client(c, res.0, owner@, verifier@));
}

/// A session is made for a known client, which is confirmed by it; it has 64 empty slots, the
/// client's callback program, and an identifier of the client's number and the nonce.
pub proof fn sessions_are_made(
    st: &mut State,
    clientid: u64,
    cb_program: u32,
    nonce: u64,
    res: Option<[u8; 16]>,
    i: int,
    other: Seq<u8>,
)
    requires
        call_ensures(State::create_session, (st, clientid, cb_program, nonce), res),
    ensures
        res is Some <==> old(st).clients@.contains_key(clientid),
        res is None ==> *final(st) == *old(st),
        res is Some ==> {
            let id = res->0@;
            let s = final(st).sessions@[id];
            &&& u64_at(id, 0) == clientid
            &&& u64_at(id, 8) == nonce
            &&& final(st).sessions@.contains_key(id)
            &&& s.clientid == clientid
            &&& s.cb_program == cb_program
            &&& s.back_slot_seqid == 0
            &&& s.fore_slots@.len() == 64
            &&& 0 <= i < 64 ==> s.fore_slots@[i].seqid == 0 && s.fore_slots@[i].reply is None
            &&& final(st).clients@.contains_key(clientid)
            &&& final(st).clients@[clientid].confirmed
            &&& final(st).clients@[clientid].owner == old(st).clients@[clientid].owner
            &&& final(st).clients@[clientid].verifier == old(st).clients@[clientid].verifier
            &&& final(st).clients@[clientid].sequence_id == old(
                st).clients@[clientid].sequence_id
            &&& other != id ==> (final(st).sessions@.contains_key(other) <==> old(
                st).sessions@.contains_key(other))
            &&& other != id && old(st).sessions@.contains_key(other) ==> final(
                st).sessions@[other] == old(st).sessions@[other]
        },
        final(st).opens == old(st).opens,
        final(st).locks == old(st).locks,
        final(st).delegations == old(st).delegations,
{
    broadcast use be32_len;
    if res is Some {
        let id = res->0@;
        assert(session_added(
            old(st).sessions@,
            final(st).sessions@,
            id,
            clientid,
            cb_program,
        ));
        let s = choose|s: Session| #[trigger]
            fresh_session(s, id, clientid, cb_program) && final(st).sessions@ == old(
                st).sessions@.insert(id, s);
        assert(fresh_session(s, id, clientid, cb_program));
        let e = Seq::<u8>::empty();
        assert(e.put_u64(clientid).put_u64(nonce) =~= id);
        assert(e.put_u64(clientid) =~= be64(clientid));
        u64_is_appended(e, clientid);
        u64_is_appended(be64(clientid), nonce);
        assert(u64_at(be64(clientid), 0) == clientid);
        assert(id =~= be64(clientid) + be64(nonce));
        reveal(crate::laws::wire::u32_at);
        assert(u64_at(id, 0) == u64_at(be64(clientid), 0));
        if 0 <= i < 64 {
            assert(crate::nfs41::state::fresh_slot(s.fore_slots@[i]));
        }
    }
}

/// Only the session that is named is destroyed.
pub proof fn one_session_is_destroyed(st: &mut State, id: &[u8; 16], r: bool, other: Seq<u8>)
    requires
        call_ensures(State::destroy_session, (st, id), r),
    ensures
        r <==> old(st).sessions@.contains_key(id@),
        final(st).sessions@.contains_key(other) <==> old(st).sessions@.contains_key(other) && other
            != id@,
        final(st).sessions@.contains_key(other) ==> final(st).sessions@[other] == old(
            st).sessions@[other],
        final(st).clients == old(st).clients,
        final(st).opens == old(st).opens,
        final(st).locks == old(st).locks,
        final(st).delegations == old(st).delegations,
{
}

/// A client goes with its sessions and with every stateid; one that is not known changes nothing.
pub proof fn client_is_destroyed(
    st: &mut State,
    clientid: u64,
    r: bool,
    sid: Seq<u8>,
    other: Seq<u8>,
    node: NodeKey,
    id: u64,
)
    requires
        call_ensures(State::destroy_client, (st, clientid), r),
    ensures
        r <==> old(st).clients@.contains_key(clientid),
        !r ==> *final(st) == *old(st),
        final(st).clients@.contains_key(id) <==> old(st).clients@.contains_key(id) && id
            != clientid,
        r ==> {
            &&& final(st).sessions@.contains_key(sid) <==> old(st).sessions@.contains_key(sid)
                && old(st).sessions@[sid].clientid != clientid
            &&& !final(st).opens@.contains_key(other)
            &&& !final(st).locks@.contains_key(other)
            &&& !final(st).delegations@.contains_key(node)
        },
{
}

/// The session that is looked up is the one of that identifier.
pub proof fn sessions_are_found(st: &State, id: &[u8; 16], r: Option<&Session>)
    requires
        call_ensures(State::session, (st, id), r),
    ensures
        r is Some <==> st.sessions@.contains_key(id@),
        r is Some ==> *r->0 == st.sessions@[id@],
{
}

/// A stateid is twelve bytes: a number that was not used before, its kind, and three bytes that
/// tell this run of the server apart.
pub proof fn stateids_are_minted(st: &mut State, kind: u8, other: [u8; 12])
    requires
        call_ensures(State::new_other, (st, kind), other),
    ensures
        u64_at(other@, 0) == old(st).next_other,
        other@[8] == kind,
        other@[9] == old(st).boot_verifier@[0],
        other@[10] == old(st).boot_verifier@[1],
        other@[11] == old(st).boot_verifier@[2],
        old(st).next_other < u64::MAX ==> final(st).next_other == old(st).next_other + 1,
        *final(st) == (State { next_other: final(st).next_other, ..*old(st) }),
{
    minted_bytes(old(st).next_other, kind, old(st).boot_verifier@);
}

proof fn minted_bytes(n: u64, kind: u8, boot: Seq<u8>)
    ensures
        minted_other(n, kind, boot).len() == 12,
        u64_at(minted_other(n, kind, boot), 0) == n,
        minted_other(n, kind, boot)[8] == kind,
        minted_other(n, kind, boot)[9] == boot[0],
        minted_other(n, kind, boot)[10] == boot[1],
        minted_other(n, kind, boot)[11] == boot[2],
{
    broadcast use be32_len;
    let e = Seq::<u8>::empty();
    u64_is_appended(e, n);
    assert(e.put_u64(n) =~= be64(n));
    reveal(crate::laws::wire::u32_at);
}

/// Bytes that are all alike.
pub open spec fn all_are(other: Seq<u8>, b: u8) -> bool {
    forall|i: int| 0 <= i < 12 ==> #[trigger] other[i] == b
}

/// Bytes that are all alike are one byte, twelve times.
pub proof fn all_alike(other: [u8; 12], b: u8)
    ensures
        all_are(other@, b) <==> other@ == Seq::new(12, |i: int| b),
{
    if all_are(other@, b) {
        assert(other@ =~= Seq::new(12, |i: int| b));
    }
    if other@ == Seq::new(12, |i: int| b) {
        assert forall|i: int| 0 <= i < 12 implies #[trigger] other@[i] == b by {
            assert(Seq::new(12, |i: int| b)[i] == b);
        }
    }
}

/// The special stateids are those whose bytes are all zero or all ones.
pub proof fn special_stateids_are_told(other: &[u8; 12], b: u8, r: bool)
    requires
        call_ensures(is_all, (other, b), r),
    ensures
        r <==> all_are(other@, b),
{
    all_alike(*other, b);
}

/// A stateid is of another run exactly where it is no special one and its last three bytes are not
/// this run's.
pub proof fn other_runs_are_told(st: &State, other: &[u8; 12], r: bool)
    requires
        call_ensures(State::stateid_is_stale, (st, other), r),
    ensures
        r <==> !all_are(other@, 0) && !all_are(other@, 255) && !(other@[9] == st.boot_verifier@[0]
            && other@[10] == st.boot_verifier@[1] && other@[11] == st.boot_verifier@[2]),
{
    all_alike(*other, 0);
    all_alike(*other, 255);
}

/// I/O is accepted with the special stateids and with those of opens, locks and delegations.
pub proof fn known_stateids_are_accepted(st: &State, seq: u32, other: &[u8; 12], r: bool)
    requires
        call_ensures(State::stateid_ok, (st, seq, other), r),
    ensures
        all_are(other@, 0) ==> (r <==> seq <= 1),
        all_are(other@, 255) ==> r,
        !all_are(other@, 0) && !all_are(other@, 255) ==> (r <==> st.opens@.contains_key(other@)
            || st.locks@.contains_key(other@) || exists|n: NodeKey| #[trigger]
            st.delegations@.contains_key(n) && st.delegations@[n].stateid_other@ == other@),
{
    all_alike(*other, 0);
    all_alike(*other, 255);
    let b = other@[0];
}

/// A first open of a file by an owner mints a stateid; it has the access that was asked for.
pub proof fn first_open_is_recorded(
    st: &mut State,
    node: NodeKey,
    owner: &Vec<u8>,
    share_access: u32,
    res: ([u8; 12], u32),
    known: Seq<u8>,
)
    requires
        call_ensures(State::register_open, (st, node, owner, share_access), res),
        forall|o: Seq<u8>| #[trigger]
            old(st).opens@.contains_key(o) ==> old(st).opens@[o].node != node || old(
                st).opens@[o].owner@ != owner@,
    ensures
        u64_at(res.0@, 0) == old(st).next_other,
        res.0@[8] == 1,
        res.0@[9] == old(st).boot_verifier@[0] && res.0@[10] == old(st).boot_verifier@[1]
            && res.0@[11] == old(st).boot_verifier@[2],
        res.1 == 1,
        final(st).opens@.contains_key(res.0@),
        final(st).opens@[res.0@].node == node,
        final(st).opens@[res.0@].owner@ == owner@,
        final(st).opens@[res.0@].seqid == 1,
        final(st).opens@[res.0@].share_access == share_access & 3,
        known != res.0@ ==> (final(st).opens@.contains_key(known) <==> old(
            st).opens@.contains_key(known)),
        known != res.0@ && old(st).opens@.contains_key(known) ==> final(st).opens@[known] == old(
            st).opens@[known],
        old(st).next_other < u64::MAX ==> final(st).next_other == old(st).next_other + 1,
{
    assert forall|o: Seq<u8>| !old(st).is_open_of(o, node, owner@) by {
        if old(st).opens@.contains_key(o) {
        }
    }
    minted_bytes(old(st).next_other, 1, old(st).boot_verifier@);
    assert(open_added(
        old(st).opens@,
        final(st).opens@,
        res.0@,
        node,
        share_access & 3,
        owner@,
    ));
    let os = choose|os: OpenState| #[trigger]
        fresh_open(os, node, share_access & 3, owner@) && final(st).opens@ == old(
            st).opens@.insert(res.0@, os);
    assert(fresh_open(os, node, share_access & 3, owner@));
}

/// Another open by the same owner keeps the stateid, counts on, and adds the access; other opens
/// are as they were.
pub proof fn further_opens_keep_the_stateid(
    st: &mut State,
    node: NodeKey,
    owner: &Vec<u8>,
    share_access: u32,
    res: ([u8; 12], u32),
    was: Seq<u8>,
    other: Seq<u8>,
)
    requires
        call_ensures(State::register_open, (st, node, owner, share_access), res),
        old(st).opens@.contains_key(was),
        old(st).opens@[was].node == node,
        old(st).opens@[was].owner@ == owner@,
    ensures
        res.0@ == was,
        old(st).opens@[was].seqid < u32::MAX ==> res.1 == old(st).opens@[was].seqid + 1,
        final(st).opens@.contains_key(was),
        final(st).opens@[was].seqid == res.1,
        final(st).opens@[was].node == node,
        final(st).opens@[was].owner@ == owner@,
        final(st).opens@[was].share_access == old(st).opens@[was].share_access | (share_access & 3),
        other != was ==> (final(st).opens@.contains_key(other) <==> old(st).opens@.contains_key(
            other,
        )),
        other != was && old(st).opens@.contains_key(other) ==> final(st).opens@[other] == old(
            st).opens@[other],
        final(st).next_other == old(st).next_other,
{
    assert(old(st).is_open_of(was, node, owner@));
}

/// A fresh state knows nothing; its run is told apart by its boot number, client numbers start at the
/// seed made odd, and stateids at 1.
pub proof fn fresh_states_know_nothing(
    boot: u64,
    seed: u64,
    st: State,
    id: u64,
    o: Seq<u8>,
    node: NodeKey,
)
    requires
        call_ensures(State::new, (boot, seed), st),
    ensures
        !st.clients@.contains_key(id),
        !st.sessions@.contains_key(o),
        !st.opens@.contains_key(o),
        !st.locks@.contains_key(o),
        !st.delegations@.contains_key(node),
        !st.backchannels@.contains_key(o),
        st.next_clientid == seed | 1,
        st.next_other == 1,
        u64_at(st.boot_verifier@, 0) == boot,
        st.ops_served == 0,
{
    let e = Seq::<u8>::empty();
    u64_is_appended(e, boot);
    assert(e.put_u64(boot) =~= be64(boot));
}

} // verus!
