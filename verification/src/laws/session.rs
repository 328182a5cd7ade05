//! Sessions: what a journal record means, whose writes echo, how a session is set up, kept current
//! and taken up again.
use crate::chars::{lines, trimmed};
use crate::digest::blake3_hash;
use crate::session::dirty::MacDirty;
use crate::session::journal::{seq_after, Assembler, Batch, Intake};
use crate::session::link::{
    cached_endpoints, endpoint_display, filled_lines, hello_done, identity_gate, pause, same_uuid,
    short_token, texts, token_hash, AfterHello, Gate, HelloReply, SessionError, Told,
};
use crate::session::record::{
    child_path, event_line, opt_text, plan_record, Event, JournalRec, Places, RecPlan,
};
use crate::session::setup::{Act, Lane, Setup, Stage};
use crate::session::wire::{
    call_done, read_header, CallEnd, Delivery, Pings, ReadBody, ReadHeader, Reads,
};
use crate::text::dec_chars;
use crate::types::NodeKey;
use vstd::prelude::*;

verus! {

/// The Mac wrote the node less than five seconds ago.
pub open spec fn marked(dirty: MacDirty, share: u16, node: NodeKey, now: u64) -> bool {
    dirty.nodes@.contains_key((share, node)) && now < dirty.nodes@[(share, node)] + 5000
}

/// A node counts as written by the Mac for five seconds.
pub proof fn mark_lasts_five_seconds(
    dirty: &MacDirty,
    share: u16,
    node: NodeKey,
    now: u64,
    r: bool,
)
    requires
        call_ensures(MacDirty::is_mac_dirty, (dirty, share, node, now), r),
    ensures
        r <==> marked(*dirty, share, node, now),
{
}

/// Marking a node remembers the time; no other node that is still marked is forgotten, and none
/// is marked by it.
pub proof fn marking_keeps_other_marks(
    dirty: &mut MacDirty,
    share: u16,
    node: NodeKey,
    now: u64,
    other_share: u16,
    other: NodeKey,
    later: u64,
)
    requires
        call_ensures(MacDirty::note_mac_dirty, (dirty, share, node, now), ()),
        now <= later,
    ensures
        marked(*final(dirty), share, node, later) <==> later < now + 5000,
        (other_share, other) != (share, node) ==> (marked(*final(dirty), other_share, other, later)
            <==> marked(*old(dirty), other_share, other, later)),
{
    let k = (share, node);
    assert(final(dirty).nodes@.contains_key(k));
    assert(final(dirty).nodes@[k] == now);
}

/// A record is kept from the replica exactly where it tells of content or attributes of a node
/// that the Mac wrote a moment ago. Names are always applied, whoever changed them.
pub proof fn only_echoes_are_dropped(
    dirty: &MacDirty,
    share: u16,
    rec: &JournalRec,
    removed: Option<NodeKey>,
    now: u64,
    p: RecPlan,
)
    requires
        call_ensures(plan_record, (dirty, share, rec, removed, now), p),
    ensures
        !p.apply <==> (*rec is Content && marked(*dirty, share, rec->Content_node, now)) || (
        *rec is AttrChanged && marked(*dirty, share, rec->AttrChanged_node, now)),
        *rec is Created || *rec is CreatedBatch || *rec is Removed || *rec is Renamed ==> p.apply,
        *rec is SelfRemoved || *rec is Overflow || *rec is EchoMarker ==> p.apply,
{
}

/// A change of content or attributes, or a removal, is the guest's own exactly where the Mac did
/// not write that node a moment ago.
pub proof fn foreign_changes_are_noted(
    dirty: &MacDirty,
    share: u16,
    rec: &JournalRec,
    removed: Option<NodeKey>,
    now: u64,
    p: RecPlan,
)
    requires
        call_ensures(plan_record, (dirty, share, rec, removed, now), p),
    ensures
        *rec is Content ==> p.foreign == (if marked(*dirty, share, rec->Content_node, now) {
            None
        } else {
            Some(rec->Content_node)
        }),
        *rec is AttrChanged ==> p.foreign == (if marked(*dirty, share, rec->AttrChanged_node, now) {
            None
        } else {
            Some(rec->AttrChanged_node)
        }),
        *rec is Removed && removed is None ==> p.foreign is None,
        *rec is Removed && removed is Some ==> p.foreign == (if marked(
            *dirty,
            share,
            removed->0,
            now,
        ) {
            None
        } else {
            removed
        }),
        p.foreign is Some ==> *rec is Content || *rec is AttrChanged || *rec is Removed,
{
}

/// A directory's times move where the guest changed names in it, and only there.
pub proof fn guest_names_move_the_directory(
    dirty: &MacDirty,
    share: u16,
    rec: &JournalRec,
    removed: Option<NodeKey>,
    now: u64,
    p: RecPlan,
)
    requires
        call_ensures(plan_record, (dirty, share, rec, removed, now), p),
    ensures
        *rec is Created ==> p.bump.0 == (if marked(*dirty, share, rec->Created_node, now) {
            None
        } else {
            Some(rec->Created_parent)
        }) && p.bump.1 is None,
        *rec is CreatedBatch ==> p.bump.0 == (if rec->first is Some && marked(
            *dirty,
            share,
            rec->first->0,
            now,
        ) {
            None
        } else {
            Some(rec->CreatedBatch_parent)
        }) && p.bump.1 is None,
        *rec is Removed ==> p.bump.0 == (if removed is Some && marked(
            *dirty,
            share,
            removed->0,
            now,
        ) {
            None
        } else {
            Some(rec->Removed_parent)
        }) && p.bump.1 is None,
        *rec is Renamed ==> ({
            let own = marked(*dirty, share, rec->from_parent, now) || marked(
                *dirty,
                share,
                rec->to_parent,
                now,
            );
            &&& own ==> p.bump.0 is None && p.bump.1 is None
            &&& !own ==> p.bump == (Some(rec->from_parent), Some(rec->to_parent))
        }),
        !(*rec is Created || *rec is CreatedBatch || *rec is Removed || *rec is Renamed)
            ==> p.bump.0 is None && p.bump.1 is None,
{
}

/// The path of an entry: a slash stands between the directory and the name, and only one.
pub open spec fn entry_path(dir: Option<Seq<char>>, name: Seq<char>) -> Seq<char> {
    if dir is Some && dir->0 != seq!['/'] {
        dir->0 + seq!['/'] + name
    } else {
        seq!['/'] + name
    }
}

/// The path of an entry is that of its directory, a slash and its name.
pub proof fn paths_have_one_slash(dir: &Option<String>, name: &str, path: String)
    requires
        call_ensures(child_path, (dir, name), path),
    ensures
        path@ == entry_path(opt_text(*dir), name@),
{
    reveal_strlit("/");
    assert("/"@ =~= seq!['/']);
    let none = Seq::<char>::empty();
    if *dir is None {
        assert(none + "/"@ + name@ =~= seq!['/'] + name@);
    }
}

/// An event tells what happened and to what path.
pub proof fn events_tell_the_path(rec: &JournalRec, at: &Places, e: Option<Event>)
    requires
        call_ensures(event_line, (rec, at), e),
    ensures
        e is None <==> *rec is Overflow || *rec is EchoMarker,
        *rec is Created ==> e is Some && e->0 is Created && e->0->Created_path@ == entry_path(
            opt_text(at.first),
            at.name@,
        ),
        *rec is CreatedBatch ==> e is Some && e->0 is CreatedBatch && opt_text(e->0->dir)
            == opt_text(at.first) && e->0->CreatedBatch_count == rec->CreatedBatch_count,
        *rec is Removed ==> e is Some && e->0 is Removed && e->0->Removed_path is Some
            && e->0->Removed_path->0@ == entry_path(opt_text(at.first), at.name@),
        *rec is Renamed ==> e is Some && e->0 is Renamed && e->0->from@ == entry_path(
            opt_text(at.first),
            at.name@,
        ) && e->0->to@ == entry_path(opt_text(at.second), at.to_name@),
        *rec is AttrChanged ==> e is Some && e->0 is Attr && opt_text(e->0->Attr_path) == opt_text(
            at.first,
        ),
        *rec is Content ==> e is Some && e->0 is Content && opt_text(e->0->Content_path)
            == opt_text(at.first) && e->0->Content_size == rec->Content_size,
        *rec is SelfRemoved ==> e is Some && e->0 is Removed && opt_text(e->0->Removed_path)
            == opt_text(at.first),
{
    reveal_strlit("/");
    assert("/"@ =~= seq!['/']);
    assert forall|name: Seq<char>| #![trigger entry_path(None, name)]
        Seq::<char>::empty() + "/"@ + name == entry_path(None, name) by {
        assert(Seq::<char>::empty() + "/"@ + name =~= seq!['/'] + name);
    }
    let a = entry_path(None, at.name@);
    let b = entry_path(None, at.to_name@);
    if e is Some {
        let v = e->0@;
    }
}

/// The greeting works exactly where the guest speaks this version and takes the token.
pub proof fn greeting_is_judged(reply: HelloReply, version: u32, r: Result<u64, SessionError>)
    requires
        call_ensures(hello_done, (reply, version), r),
    ensures
        r is Ok <==> reply is Ack && reply->proto == version,
        r is Ok ==> r->Ok_0 == reply->session_id,
        reply is AuthFail ==> r->Err_0 is Auth,
        reply is Unexpected ==> r->Err_0 is Proto && r->Err_0->Proto_0@ == "expected HelloAck"@,
        reply is Ack && reply->proto != version ==> r->Err_0 is Proto && r->Err_0->Proto_0@
            == "version mismatch"@,
{
}

/// A guest passes that is the one that was paired, or where none was; one that says it is another
/// is refused; one that says nothing goes on unbound.
pub proof fn wrong_guest_is_refused(want: &Option<[u8; 16]>, got: &Option<[u8; 16]>, g: Gate)
    requires
        call_ensures(identity_gate, (want, got), g),
    ensures
        g is Refuse <==> *want is Some && *got is Some && (*want)->0@ != (*got)->0@,
        g is Unbound <==> *want is Some && *got is None,
{
}

/// Two identities are the same where all their bytes are.
pub proof fn identities_are_compared(a: &[u8; 16], b: &[u8; 16], r: bool)
    requires
        call_ensures(same_uuid, (a, b), r),
    ensures
        r <==> forall|i: int| 0 <= i < 16 ==> a@[i] == b@[i],
{
    if forall|i: int| 0 <= i < 16 ==> a@[i] == b@[i] {
        assert(a@ =~= b@);
    }
}

/// After a session that went well the pause is 100 ms; after each failure it is twice as long, but
/// never more than 5 s.
pub proof fn pauses_double(went_well: bool, backoff: u64, r: (u64, u64))
    requires
        call_ensures(pause, (went_well, backoff), r),
        backoff <= 5000,
    ensures
        went_well ==> r.0 == 100,
        !went_well ==> r.0 == backoff,
        r.1 <= 5000,
        r.1 == 2 * r.0 || (r.1 == 5000 && 2 * r.0 > 5000),
{
}

/// A token of at least 32 bytes is shown as its digest, a shorter one is refused with its length.
pub proof fn short_tokens_are_refused(token: &[u8], r: Result<[u8; 32], usize>)
    requires
        call_ensures(token_hash, (token,), r),
    ensures
        r is Ok <==> token@.len() >= 32,
        r is Ok ==> r->Ok_0@ == blake3_hash(token@),
        r is Err ==> r->Err_0 == token@.len(),
{
}

/// An endpoint is shown as it was found, with a word before it where it is looked up.
pub proof fn endpoints_are_shown(auto: bool, found: Option<&str>, s: String)
    requires
        call_ensures(endpoint_display, (auto, found), s),
    ensures
        found is None ==> s@ == "auto (resolving)"@,
        found is Some && auto ==> s@ == "auto → "@ + found->0@,
        found is Some && !auto ==> s@ == found->0@,
{
}

/// Two messages are looked at after the greeting, and none after the endpoints or after nothing
/// came; what they tell is kept.
pub proof fn introductions_are_kept(t: &mut Told, m: AfterHello)
    requires
        call_ensures(Told::on_message, (t, m), ()),
        old(t).seen < 2,
    ensures
        final(t).seen == old(t).seen + 1,
        m is Identity ==> final(t).uuid == Some(m->Identity_0) && final(t).endpoints
            == old(t).endpoints,
        m is Endpoints ==> final(t).endpoints == m->Endpoints_0 && final(t).uuid == old(t).uuid,
        m is Nothing ==> final(t).endpoints == old(t).endpoints && final(t).uuid == old(t).uuid,
        final(t).done <==> !(m is Identity) || old(t).seen == 1,
{
}

/// A lane is pinged under new numbers, and taken for gone once three pings have no answer.
pub proof fn silence_ends_the_lane(p: &mut Pings, nonce: Option<u64>)
    requires
        call_ensures(Pings::tick, (p,), nonce),
        old(p).nonce < u64::MAX,
    ensures
        nonce is None <==> old(p).outstanding >= 3,
        nonce is None ==> *final(p) == *old(p),
        nonce is Some ==> nonce->0 == old(p).nonce + 1 && final(p).nonce == nonce->0 && final(
            p).outstanding == old(p).outstanding + 1,
{
}

/// An answer takes one ping off, and never below none.
pub proof fn answers_count(p: &mut Pings)
    requires
        call_ensures(Pings::pong, (p,), ()),
    ensures
        final(p).nonce == old(p).nonce,
        old(p).outstanding > 0 ==> final(p).outstanding == old(p).outstanding - 1,
        old(p).outstanding == 0 ==> final(p).outstanding == 0,
{
}

/// A piece reaches whoever waits for its read; the last one ends the wait. Other reads are as they
/// were.
pub proof fn pieces_reach_the_reader(
    r: &mut Reads,
    seq: u64,
    len: usize,
    more: bool,
    d: Delivery,
    other: u64,
)
    requires
        call_ensures(Reads::deliver_chunk, (r, seq, len, more), d),
    ensures
        d is Stray <==> !old(r).open@.contains(seq),
        d is Pass <==> old(r).open@.contains(seq) && len > 0,
        final(r).open@.contains(seq) <==> old(r).open@.contains(seq) && more,
        other != seq ==> (final(r).open@.contains(other) <==> old(r).open@.contains(other)),
{
}

/// A read is waited for once it was sent.
pub proof fn sent_reads_are_waited_for(r: &mut Reads, seq: u64, other: u64)
    requires
        call_ensures(Reads::expect, (r, seq), ()),
    ensures
        final(r).open@.contains(other) <==> other == seq || old(r).open@.contains(other),
{
}

/// A read is not waited for once it was given up.
pub proof fn cancelled_reads_are_not_waited_for(r: &mut Reads, seq: u64, other: u64)
    requires
        call_ensures(Reads::cancel, (r, seq), ()),
    ensures
        final(r).open@.contains(other) <==> other != seq && old(r).open@.contains(other),
{
}

/// A call gives its answer, or says how it was lost.
pub proof fn calls_end(end: CallEnd<u64>, r: Result<u64, SessionError>)
    requires
        call_ensures(call_done::<u64>, (end,), r),
    ensures
        r is Ok <==> end is Answered,
        r is Ok ==> r->Ok_0 == end->Answered_0,
        end is Closed ==> r->Err_0 is Proto && r->Err_0->Proto_0@ == "rpc lane closed"@,
        end is Dropped ==> r->Err_0 is Proto && r->Err_0->Proto_0@
            == "rpc waiter dropped (session died)"@,
        end is Timeout ==> r->Err_0 is Proto && r->Err_0->Proto_0@ == "rpc timeout"@,
{
}

/// The first answer to a read says how much follows, or why nothing does.
pub proof fn read_headers_are_judged(h: ReadHeader, r: Result<ReadBody, SessionError>)
    requires
        call_ensures(read_header, (h,), r),
    ensures
        r is Ok <==> h is Start,
        r is Ok ==> r->Ok_0.total == h->len && r->Ok_0.eof == h->eof && r->Ok_0.buf@.len() == 0,
        h is Failed ==> r->Err_0 is ReadFailed && r->Err_0->errno == h->errno && r->Err_0->msg
            == h->msg,
        h is Unexpected ==> r->Err_0 is Proto && r->Err_0->Proto_0@ == "unexpected read response"@,
        h is Timeout ==> r->Err_0 is Proto && r->Err_0->Proto_0@ == "read header timeout"@,
{
}

/// A body wants more until it has what was announced.
pub proof fn bodies_want_what_was_announced(b: &ReadBody, r: bool)
    requires
        call_ensures(ReadBody::wants_more, (b,), r),
    ensures
        r <==> b.buf@.len() < b.total,
{
}

/// A piece goes to the end of a body that wants more.
pub proof fn bodies_grow(b: &mut ReadBody, piece: &[u8])
    requires
        call_ensures(ReadBody::got, (b, piece), ()),
    ensures
        final(b).total == old(b).total,
        final(b).eof == old(b).eof,
        old(b).buf@.len() < old(b).total ==> final(b).buf@ == old(b).buf@ + piece@,
        old(b).buf@.len() >= old(b).total ==> final(b).buf@ == old(b).buf@,
{
}

/// What a session does next: the addresses in turn, then the bridge; a greeting; introductions; a
/// journal lane, two lanes for calls and two for bulk; every share in turn.
pub proof fn setup_goes_step_by_step(s: &Setup, a: Act)
    requires
        call_ensures(Setup::next, (s,), a),
        s.wf(),
    ensures
        s.stage is Dial && s.stage->Dial_next < s.cached@.len() ==> a == Act::DialCached(
            s.stage->Dial_next,
        ),
        s.stage is Dial && s.stage->Dial_next >= s.cached@.len() ==> a is DialBridge,
        s.stage is Greet ==> a is Greet,
        s.stage is Meet ==> a is Listen,
        s.stage is Lanes && s.stage->Lanes_next == 0 ==> a == Act::OpenLane(Lane::Journal, 0),
        s.stage is Lanes && s.stage->Lanes_next == 1 ==> a == Act::OpenLane(Lane::Rpc, 0),
        s.stage is Lanes && s.stage->Lanes_next == 2 ==> a == Act::OpenLane(Lane::Rpc, 1),
        s.stage is Lanes && s.stage->Lanes_next == 3 ==> a == Act::OpenLane(Lane::Bulk, 0),
        s.stage is Lanes && s.stage->Lanes_next == 4 ==> a == Act::OpenLane(Lane::Bulk, 1),
        s.stage is Lanes ==> s.stage->Lanes_next <= 4,
        s.stage is Seed ==> a == Act::Seed(s.shares@[s.stage->Seed_next as int]),
        s.stage is Live ==> a is Ready,
        s.stage is Failed ==> a is Stop,
{
}

/// An address that cannot be reached is followed by the next; after the bridge there is none.
pub proof fn addresses_are_tried_in_turn(s: &mut Setup, reached: bool)
    requires
        call_ensures(Setup::dialed, (s, reached), ()),
        old(s).stage is Dial,
    ensures
        *final(s) == (Setup { stage: final(s).stage, ..*old(s) }),
        final(s).stage is Greet <==> reached,
        !reached && old(s).stage->Dial_next < old(s).cached@.len() ==> final(s).stage is Dial
            && final(s).stage->Dial_next == old(s).stage->Dial_next + 1,
        !reached && old(s).stage->Dial_next >= old(s).cached@.len() ==> final(s).stage is Failed,
{
    assert(old(s).cached.len() == old(s).cached@.len());
}

/// A greeting that works leads to the introductions; any other ends the session.
pub proof fn greeting_leads_on(
    s: &mut Setup,
    reply: HelloReply,
    shares: Vec<u16>,
    r: Result<(), SessionError>,
)
    requires
        call_ensures(Setup::greeted, (s, reply, shares), r),
        old(s).stage is Greet,
    ensures
        r is Ok <==> reply is Ack && reply->proto == old(s).version,
        r is Ok ==> final(s).stage is Meet && final(s).session_id == reply->session_id && final(
            s).shares == shares,
        r is Err ==> final(s).stage is Failed,
        reply is AuthFail ==> r->Err_0 is Auth,
        reply is Unexpected || (reply is Ack && reply->proto != old(s).version)
            ==> r->Err_0 is Proto,
        final(s).version == old(s).version && final(s).expected == old(s).expected && final(
            s).cached == old(s).cached && final(s).told == old(s).told,
{
}

/// Lanes are opened only for the guest that was paired, or one that does not say who it is.
pub proof fn lanes_are_for_the_right_guest(
    s: &mut Setup,
    m: AfterHello,
    r: Result<Gate, SessionError>,
)
    requires
        call_ensures(Setup::heard, (s, m), r),
        old(s).stage is Meet,
    ensures
        ({
            let last = !(m is Identity) || old(s).told.seen == 1;
            let uuid = if m is Identity {
                Some(m->Identity_0)
            } else {
                old(s).told.uuid
            };
            let wrong = old(s).expected is Some && uuid is Some && uuid->0@ != old(
                s).expected->0@;
            &&& final(s).told.uuid == uuid
            &&& m is Endpoints ==> final(s).told.endpoints == m->Endpoints_0
            &&& !(m is Endpoints) ==> final(s).told.endpoints == old(s).told.endpoints
            &&& !last ==> final(s).stage is Meet && r is Ok
            &&& last && wrong ==> final(s).stage is Failed && r is Err
                && r->Err_0 is IdentityMismatch
            &&& last && !wrong ==> final(s).stage == (Stage::Lanes { next: 0 }) && r is Ok
            &&& last && !wrong ==> (r->Ok_0 is Unbound <==> old(s).expected is Some
                && uuid is None)
            &&& r is Ok ==> !(r->Ok_0 is Refuse)
        }),
        final(s).shares == old(s).shares && final(s).session_id == old(s).session_id,
{
}

/// Lanes are opened by the addresses that the guest announced now, which are to be kept; if it
/// announced none, by those that were kept.
pub proof fn announced_addresses_come_first(s: &Setup, r: (&Vec<String>, bool))
    requires
        call_ensures(Setup::endpoints, (s,), r),
    ensures
        r.1 <==> s.told.endpoints@.len() > 0,
        r.1 ==> *r.0 == s.told.endpoints,
        !r.1 ==> *r.0 == s.cached,
{
}

/// Five lanes are opened one after the other, then the shares come; one that cannot be opened ends
/// the session.
pub proof fn lanes_are_opened_in_turn(s: &mut Setup, opened: bool)
    requires
        call_ensures(Setup::lane, (s, opened), ()),
        old(s).stage is Lanes,
    ensures
        *final(s) == (Setup { stage: final(s).stage, ..*old(s) }),
        final(s).stage is Failed <==> !opened,
        opened && old(s).stage->Lanes_next < 4 ==> final(s).stage is Lanes && final(
            s).stage->Lanes_next == old(s).stage->Lanes_next + 1,
        opened && old(s).stage->Lanes_next >= 4 && old(s).shares@.len() > 0 ==> final(s).stage == (
        Stage::Seed { next: 0 }),
        opened && old(s).stage->Lanes_next >= 4 && old(s).shares@.len() == 0 ==> final(
            s).stage is Live,
{
}

/// Every share is walked in turn before the session is live.
pub proof fn shares_are_walked_in_turn(s: &mut Setup, sent: bool)
    requires
        call_ensures(Setup::seeded, (s, sent), ()),
        old(s).stage is Seed,
    ensures
        *final(s) == (Setup { stage: final(s).stage, ..*old(s) }),
        final(s).stage is Failed <==> !sent,
        sent && old(s).stage->Seed_next + 1 < old(s).shares@.len() ==> final(s).stage is Seed
            && final(s).stage->Seed_next == old(s).stage->Seed_next + 1,
        sent && old(s).stage->Seed_next + 1 >= old(s).shares@.len() ==> final(s).stage is Live,
{
    assert(old(s).shares.len() == old(s).shares@.len());
}

/// The number after the last of some batches: none of them reaches past it, and one reaches it.
proof fn expected_is_the_furthest<R>(batches: Seq<Batch<R>>)
    requires
        forall|i: int|
            0 <= i < batches.len() ==> (#[trigger] batches[i]).first_seq + batches[i].records@.len()
                < u64::MAX,
    ensures
        batches.len() == 0 ==> seq_after(batches) == u64::MAX,
        forall|i: int|
            0 <= i < batches.len() ==> (#[trigger] batches[i]).first_seq + batches[i].records@.len()
                <= seq_after(batches),
        batches.len() > 0 ==> exists|i: int|
            0 <= i < batches.len() && (#[trigger] batches[i]).first_seq + batches[i].records@.len()
                == seq_after(batches),
    decreases batches.len(),
{
    if batches.len() > 0 {
        let p = batches.drop_last();
        let n = batches.len() - 1;
        assert forall|i: int| 0 <= i < p.len() implies (#[trigger] p[i]).first_seq
            + p[i].records@.len() < u64::MAX by {
            assert(p[i] == batches[i]);
        }
        expected_is_the_furthest(p);
        assert(batches[n].first_seq + batches[n].records@.len() < u64::MAX);
        let r = seq_after(p);
        assert forall|i: int| 0 <= i < batches.len() implies (#[trigger] batches[i]).first_seq
            + batches[i].records@.len() <= seq_after(batches) by {
            if i < n {
                assert(p[i] == batches[i]);
            }
        }
        if p.len() > 0 && r != u64::MAX && r >= batches[n].end() {
            let i = choose|i: int|
                0 <= i < p.len() && (#[trigger] p[i]).first_seq + p[i].records@.len() == r;
            assert(batches[i] == p[i]);
            assert(batches[i].first_seq + batches[i].records@.len() == seq_after(batches));
        } else {
            assert(batches[n].first_seq + batches[n].records@.len() == seq_after(batches));
        }
    }
}

/// The end of a walk hands out what came during it; the next batch must follow the furthest of
/// those, or may be any where nothing came. The end of another walk means nothing.
pub proof fn walks_end<R>(
    a: &mut Assembler<R>,
    share: u16,
    snap_id: u64,
    replay: Option<Vec<Batch<R>>>,
)
    requires
        call_ensures(Assembler::<R>::finish_seed, (a, share, snap_id), replay),
        forall|i: int|
            0 <= i < old(a).staging@[share as u64].buffered@.len() ==> (#[trigger] old(
                a).staging@[share as u64].buffered@[i]).first_seq
                + old(a).staging@[share as u64].buffered@[i].records@.len() < u64::MAX,
    ensures
        ({
            let id = share as u64;
            let walk = old(a).staging@[id];
            let mine = old(a).staging@.contains_key(id) && walk.snap_id == snap_id;
            &&& replay is Some <==> mine
            &&& !mine ==> *final(a) == *old(a)
            &&& mine ==> {
                &&& replay == Some(walk.buffered)
                &&& !final(a).staging@.contains_key(id)
                &&& final(a).seq@.contains_key(id)
                &&& walk.buffered@.len() == 0 ==> final(a).seq@[id] == 0xffff_ffff_ffff_ffff
                &&& forall|i: int|
                    0 <= i < walk.buffered@.len() ==> (#[trigger] walk.buffered@[i]).first_seq
                        + walk.buffered@[i].records@.len() <= final(a).seq@[id]
                &&& walk.buffered@.len() > 0 ==> exists|i: int|
                    0 <= i < walk.buffered@.len() && (#[trigger] walk.buffered@[i]).first_seq
                        + walk.buffered@[i].records@.len() == final(a).seq@[id]
            }
        }),
{
    expected_is_the_furthest(old(a).staging@[share as u64].buffered@);
}

/// A walk of a share that was announced begins with nothing kept, and until it is done nothing of
/// the share is expected.
pub proof fn walks_begin<R>(a: &mut Assembler<R>, share: u16, snap_id: u64, begun: bool)
    requires
        call_ensures(Assembler::<R>::begin, (a, share, snap_id), begun),
    ensures
        begun <==> old(a).known@.contains(share),
        final(a).known == old(a).known,
        final(a).resyncs == old(a).resyncs,
        !begun ==> *final(a) == *old(a),
        begun ==> {
            &&& final(a).staging@.contains_key(share as u64)
            &&& final(a).staging@[share as u64].snap_id == snap_id
            &&& final(a).staging@[share as u64].buffered@.len() == 0
            &&& !final(a).seq@.contains_key(share as u64)
        },
{
}

/// A directory of a walk is wanted while that walk is under way.
pub proof fn old_walks_are_not_wanted<R>(a: &Assembler<R>, share: u16, snap_id: u64, apply: bool)
    requires
        call_ensures(Assembler::<R>::on_snap_dir, (a, share, snap_id), apply),
    ensures
        apply <==> a.staging@.contains_key(share as u64) && a.staging@[share as u64].snap_id
            == snap_id,
{
}

/// A batch of one share is kept during a walk; after it, it is applied exactly where it follows the
/// one before or any is taken, and one that leaves a gap begins a walk.
pub proof fn batches_follow_each_other<R>(
    a: &mut Assembler<R>,
    batch: Batch<R>,
    live: bool,
    snap_ids: &Vec<u64>,
    intake: Intake<R>,
)
    requires
        call_ensures(Assembler::<R>::on_journal, (a, batch, live, snap_ids), intake),
        batch.share < 0xffff,
        batch.first_seq + batch.records@.len() <= u64::MAX,
    ensures
        ({
            let id = batch.share as u64;
            let o = *old(a);
            let n = *final(a);
            let walks = o.staging@.contains_key(id);
            let due = o.seq@[id];
            let heard = !walks && live && o.seq@.contains_key(id);
            let fits = due == 0xffff_ffff_ffff_ffff || due == batch.first_seq;
            &&& intake is Kept <==> walks
            &&& intake is Dropped <==> !walks && !heard
            &&& intake is Gap <==> heard && !fits
            &&& intake is Apply <==> heard && fits
            &&& walks ==> n.staging@[id].snap_id == o.staging@[id].snap_id
                && n.staging@[id].buffered@ == o.staging@[id].buffered@.push(batch)
            &&& intake is Dropped ==> n.staging@ == o.staging@ && n.seq@ == o.seq@
            &&& intake is Apply ==> intake->Apply_0 == batch && n.seq@ == o.seq@.insert(
                id,
                (batch.first_seq + batch.records@.len()) as u64,
            ) && n.staging@ == o.staging@
            &&& intake is Gap ==> !n.seq@.contains_key(id)
            &&& intake is Gap && o.known@.contains(batch.share) ==> n.staging@.contains_key(id)
                && n.staging@[id].buffered@.len() == 0
        }),
{
}

/// A batch that stands for an overflow begins a walk of every share.
pub proof fn overflow_walks_every_share<R>(
    a: &mut Assembler<R>,
    batch: Batch<R>,
    live: bool,
    snap_ids: &Vec<u64>,
    intake: Intake<R>,
    share: u16,
)
    requires
        call_ensures(Assembler::<R>::on_journal, (a, batch, live, snap_ids), intake),
        batch.share == 0xffff,
        snap_ids@.len() == old(a).known@.len(),
        old(a).known@.contains(share),
    ensures
        intake is ResyncAll,
        final(a).staging@.contains_key(share as u64),
        final(a).staging@[share as u64].buffered@.len() == 0,
        !final(a).seq@.contains_key(share as u64),
        old(a).resyncs + old(a).known@.len() <= u64::MAX ==> final(a).resyncs == old(a).resyncs
            + old(a).known@.len(),
{
    assert(old(a).knows(share));
}

/// A walk that something was missed before is begun as any other, and counted.
pub proof fn missed_walks_are_counted<R>(
    a: &mut Assembler<R>,
    share: u16,
    snap_id: u64,
    begun: bool,
)
    requires
        call_ensures(Assembler::<R>::resync, (a, share, snap_id), begun),
    ensures
        begun <==> old(a).known@.contains(share),
        !begun ==> *final(a) == *old(a),
        begun && old(a).resyncs < u64::MAX ==> final(a).resyncs == old(a).resyncs + 1,
        begun ==> {
            &&& final(a).staging@.contains_key(share as u64)
            &&& final(a).staging@[share as u64].snap_id == snap_id
            &&& final(a).staging@[share as u64].buffered@.len() == 0
            &&& !final(a).seq@.contains_key(share as u64)
        },
{
}

/// The lines of a text of which something is left when it is trimmed.
proof fn filled_are_filled(list: Seq<Seq<char>>)
    ensures
        forall|i: int|
            0 <= i < filled_lines(list).len() ==> (#[trigger] filled_lines(list)[i]).len() > 0,
        forall|l: Seq<char>|
            list.contains(l) && trimmed(l).len() > 0 ==> #[trigger] filled_lines(list).contains(
                trimmed(l),
            ),
        filled_lines(list).len() <= list.len(),
    decreases list.len(),
{
    if list.len() > 0 {
        let p = list.drop_last();
        let n = list.len() - 1;
        filled_are_filled(p);
        let f = filled_lines(list);
        let g = filled_lines(p);
        assert forall|i: int| 0 <= i < f.len() implies (#[trigger] f[i]).len() > 0 by {
            if i < g.len() {
                assert(f[i] == g[i]);
            }
        }
        assert forall|l: Seq<char>| list.contains(l) && trimmed(l).len() > 0 implies
            #[trigger] f.contains(trimmed(l)) by {
            let k = choose|k: int| 0 <= k < list.len() && list[k] == l;
            if k < n {
                assert(p[k] == l);
                assert(g.contains(trimmed(l)));
                let q = choose|q: int| 0 <= q < g.len() && g[q] == trimmed(l);
                assert(f[q] == g[q]);
            } else {
                assert(f[f.len() - 1] == trimmed(l));
            }
        }
    }
}

/// The endpoints that are kept are the lines of the file that hold something, trimmed.
pub proof fn kept_endpoints_are_lines(text: &str, list: Vec<String>, l: Seq<char>, i: int)
    requires
        call_ensures(cached_endpoints, (text,), list),
        list@.len() <= usize::MAX,
    ensures
        0 <= i < list@.len() ==> list@[i]@.len() > 0,
        lines(text@).contains(l) && trimmed(l).len() > 0 ==> exists|k: int|
            0 <= k < list@.len() && (#[trigger] list@[k])@ == trimmed(l),
        list@.len() <= lines(text@).len(),
{
    let all = lines(text@);
    filled_are_filled(all);
    let t = texts(list@);
    assert(t.len() == list@.len());
    if 0 <= i < list@.len() {
        assert(t[i] == list@[i]@);
    }
    if all.contains(l) && trimmed(l).len() > 0 {
        assert(t.contains(trimmed(l)));
        let k = choose|k: int| 0 <= k < t.len() && t[k] == trimmed(l);
        assert(list@[k]@ == trimmed(l));
    }
}

/// A token that is refused is told by its path and length.
pub proof fn refused_tokens_are_told(path: &str, len: usize, s: String)
    requires
        call_ensures(short_token, (path, len), s),
    ensures
        s@ == "token "@ + path@ + " is "@ + dec_chars(len as nat)
            + " bytes; needs at least 32 random bytes"@,
{
}

} // verus!
