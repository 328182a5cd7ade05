//! The lines on the control socket: what a request asks for, and whether a reply is one.
use crate::chars::same_text;
use crate::control::{parse_verb, verb_of, Verb};
use crate::data::{json_text, opt_text, read_json, Data, DataView};
use vstd::prelude::*;

verus! {

/// What is to be done with a content cache.
#[derive(Debug, Clone, Copy, PartialEq, Eq, Structural)]
pub enum CacheAct {
    Stats,
    Clear,
    Scrub,
}

/// A request. Of what it does not say, the default stands.
#[derive(Debug)]
pub struct Request<S = String> {
    pub verb: Verb,
    /// The word for what is asked.
    pub cmd: S,
    pub vm: S,
    pub share: S,
    pub path: Option<S>,
    /// The name of a VM to add, and where its token is.
    pub name: S,
    pub token: S,
    /// The identity that it is to have.
    pub uuid: Option<S>,
    pub action: CacheAct,
    /// How many blobs to look at; 0 is all.
    pub sample: u64,
    pub nfs41: bool,
    /// The change feed is to be streamed from now on.
    pub follow: bool,
}

impl Request<String> {
    pub open spec fn view(&self) -> Request<Seq<char>> {
        Request {
            verb: self.verb,
            cmd: self.cmd@,
            vm: self.vm@,
            share: self.share@,
            path: opt_text(self.path),
            name: self.name@,
            token: self.token@,
            uuid: opt_text(self.uuid),
            action: self.action,
            sample: self.sample,
            nfs41: self.nfs41,
            follow: self.follow,
        }
    }

    /// The path that is asked about: the root where none is given.
    pub fn path_or_root(&self) -> (s: String)
        ensures
            s@ == match self@.path {
                Some(p) => p,
                None => "/"@,
            },
    {
        match &self.path {
            Some(p) => p.as_str().to_owned(),
            None => "/".to_owned(),
        }
    }
}

pub open spec fn act_of(word: Seq<char>) -> CacheAct {
    if word == "clear"@ {
        CacheAct::Clear
    } else if word == "scrub"@ {
        CacheAct::Scrub
    } else {
        CacheAct::Stats
    }
}

/// What a value asks for.
pub open spec fn request_of(d: DataView) -> Request<Seq<char>> {
    let cmd = d.at("cmd"@).text_or(""@);
    Request {
        verb: verb_of(cmd),
        cmd,
        vm: d.at("vm"@).text_or(""@),
        share: d.at("share"@).text_or(""@),
        path: d.at("path"@).text(),
        name: d.at("name"@).text_or(""@),
        token: d.at("token"@).text_or(""@),
        uuid: d.at("uuid"@).text(),
        action: act_of(d.at("action"@).text_or("stats"@)),
        sample: d.at("sample"@).number_or(0),
        nfs41: d.at("nfs41"@).is_set(),
        follow: cmd == "events"@ && d.at("follow"@).is_set(),
    }
}

/// Take a request out of a value.
pub fn request_in(d: &Data) -> (q: Request)
    ensures
        q@ == request_of(d@),
{
    let cmd = d.text_or("cmd", "");
    let word = d.text_or("action", "stats");
    let action = if same_text(word.as_str(), "clear") {
        CacheAct::Clear
    } else if same_text(word.as_str(), "scrub") {
        CacheAct::Scrub
    } else {
        CacheAct::Stats
    };
    Request {
        verb: parse_verb(cmd.as_str()),
        vm: d.text_or("vm", ""),
        share: d.text_or("share", ""),
        path: d.text_at("path"),
        name: d.text_or("name", ""),
        token: d.text_or("token", ""),
        uuid: d.text_at("uuid"),
        action,
        sample: d.number_or("sample", 0),
        nfs41: d.is_set("nfs41"),
        follow: same_text(cmd.as_str(), "events") && d.is_set("follow"),
        cmd,
    }
}

/// Read a line that asks for something. A line that is no JSON is refused with the reason.
pub fn read_request(line: &str) -> (r: Result<Request, String>)
    ensures
        match r {
            Ok(q) => json_text(line@) is Ok && q@ == request_of(json_text(line@)->Ok_0),
            Err(e) => json_text(line@) == Err::<DataView, _>(e@),
        },
{
    match read_json(line) {
        Ok(d) => Ok(request_in(&d)),
        Err(e) => Err(e),
    }
}

/// Why a reply is of no use.
#[derive(Debug)]
pub enum ReplyError {
    /// It is no JSON, for this reason.
    Malformed(String),
    /// The daemon refused, for this reason.
    Refused(String),
}

/// What a reply says, if the daemon did as it was asked.
pub open spec fn replied(d: DataView, r: Result<Data, ReplyError>) -> bool {
    if d.at("ok"@).is_set() {
        r is Ok && r->Ok_0@ == d
    } else {
        match r {
            Err(ReplyError::Refused(why)) => why@ == d.at("error"@).text_or(
                "unknown daemon error"@,
            ),
            _ => false,
        }
    }
}

/// Take a reply: one that is not said to be good is an error.
pub fn reply_in(d: Data) -> (r: Result<Data, ReplyError>)
    ensures
        replied(d@, r),
{
    if d.is_set("ok") {
        Ok(d)
    } else {
        Err(ReplyError::Refused(d.text_or("error", "unknown daemon error")))
    }
}

/// Read the line of a reply.
pub fn read_reply(line: &str) -> (r: Result<Data, ReplyError>)
    ensures
        match json_text(line@) {
            Ok(d) => replied(d, r),
            Err(e) => match r {
                Err(ReplyError::Malformed(why)) => why@ == e,
                _ => false,
            },
        },
{
    match read_json(line) {
        Ok(d) => reply_in(d),
        Err(e) => Err(ReplyError::Malformed(e)),
    }
}

} // verus!
