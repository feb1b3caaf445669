//! The fetch dispatcher: cache lookup, source resolution, and what to do
//! with a downloaded body. The download itself is the caller's part: the
//! dispatcher says when one GET is due and takes its outcome back.

use crate::model::archive::{file_name, file_name_spec, ArchiveTarget};
use crate::model::cache::{capacity_for, found, no_entries, stored, within, PayloadCache};
use crate::model::init::{ServerBag, ServerBagView};
use crate::model::parse::{parse, parse_spec, Document};
use crate::table::{holds, place, strings};
use atom_syndication::Feed;
use rss::Channel;
use vstd::prelude::*;

verus! {

/// The code sent for every failure of a fetch.
pub const BAD_GATEWAY: u16 = 502;

/// Why a request is not answered with a document.
#[derive(Clone, Copy, Debug, PartialEq, Eq, Structural)]
pub enum Failure {
    /// The registry does not know the source.
    UnknownSource,
    /// The GET request failed.
    Network,
    /// The response arrived, and its body could not be read as text.
    ResponseRead,
    /// The body is neither RSS nor Atom.
    Parse,
}

/// The code that a failure is answered with. All failures share the code
/// 502, so that callers keep seeing the one code they know.
pub open spec fn code_of(failure: Failure) -> u16 {
    BAD_GATEWAY
}

/// The code that a failure is answered with.
pub fn code(failure: Failure) -> (c: u16)
    ensures
        c == code_of(failure),
{
    BAD_GATEWAY
}

/// A reply to a request: an error code or the parsed document.
#[derive(Debug)]
pub enum DataPkt {
    Error(u16),
    Channel(Channel),
    Feed(Feed),
}

/// The reply that carries a document; an unparseable text is answered with
/// the code of a parse failure.
pub open spec fn reply_of(d: Document) -> DataPkt {
    match d {
        Document::Rss(channel) => DataPkt::Channel(channel),
        Document::Atom(feed) => DataPkt::Feed(feed),
        Document::Unparseable => DataPkt::Error(code_of(Failure::Parse)),
    }
}

/// The reply that carries a document.
pub fn reply(d: Document) -> (r: DataPkt)
    ensures
        r == reply_of(d),
{
    match d {
        Document::Rss(channel) => DataPkt::Channel(channel),
        Document::Atom(feed) => DataPkt::Feed(feed),
        Document::Unparseable => DataPkt::Error(code(Failure::Parse)),
    }
}

/// A request for the feed of a source. A forced request is never answered
/// from the cache.
#[derive(Debug)]
pub struct Request {
    pub name: String,
    pub forced: bool,
}

/// What the caller does next for a request.
#[derive(Debug)]
pub enum Step {
    /// Send this reply; the request is done.
    Reply(DataPkt),
    /// Issue one GET to `url` with the header `User-Agent: useragent`, and
    /// hand the outcome to `Fetcher::finish`.
    Download { url: String, useragent: String },
}

/// A step as a plain value.
pub enum StepView {
    Reply(DataPkt),
    Download { url: Seq<char>, useragent: Seq<char> },
}

impl View for Step {
    type V = StepView;

    open spec fn view(&self) -> StepView {
        match self {
            Step::Reply(reply) => StepView::Reply(*reply),
            Step::Download { url, useragent } => StepView::Download {
                url: url@,
                useragent: useragent@,
            },
        }
    }
}

/// How many GET requests a step asks for.
pub open spec fn network_calls(step: StepView) -> nat {
    match step {
        StepView::Reply(_) => 0,
        StepView::Download { .. } => 1,
    }
}

/// What came of a download.
#[derive(Debug)]
pub enum Fetched {
    /// The response arrived, with this body.
    Body(String),
    /// The request failed.
    TransportFailure,
    /// The response arrived, and its body could not be read as text.
    ReadFailure,
}

/// The outcome of a download as a plain value.
pub enum FetchedView {
    Body(Seq<char>),
    TransportFailure,
    ReadFailure,
}

impl View for Fetched {
    type V = FetchedView;

    open spec fn view(&self) -> FetchedView {
        match self {
            Fetched::Body(body) => FetchedView::Body(body@),
            Fetched::TransportFailure => FetchedView::TransportFailure,
            Fetched::ReadFailure => FetchedView::ReadFailure,
        }
    }
}

/// A payload to archive, and where.
#[derive(Debug)]
pub struct ArchiveJob {
    pub target: ArchiveTarget,
    pub payload: String,
}

/// An archive job as plain values.
pub struct ArchiveJobView {
    pub dir: Seq<char>,
    pub file: Seq<char>,
    pub payload: Seq<char>,
}

impl View for ArchiveJob {
    type V = ArchiveJobView;

    open spec fn view(&self) -> ArchiveJobView {
        ArchiveJobView { dir: self.target.dir@, file: self.target.file@, payload: self.payload@ }
    }
}

/// The view of an optional archive job.
pub open spec fn job_view(job: Option<ArchiveJob>) -> Option<ArchiveJobView> {
    match job {
        Some(j) => Some(j@),
        None => None,
    }
}

/// What a finished download leads to: the reply to send, and the payload
/// to archive if there is one.
#[derive(Debug)]
pub struct Finished {
    pub reply: DataPkt,
    pub archive: Option<ArchiveJob>,
}

/// The step that asks for one GET.
pub open spec fn download_from(url: Seq<char>, useragent: Seq<char>) -> StepView {
    StepView::Download { url, useragent }
}

/// The address of a source, if the registry knows the source.
pub open spec fn url_of(registry: ServerBagView, name: Seq<char>) -> Option<Seq<char>> {
    if holds(registry.names, name) {
        Some(registry.urls[place(registry.names, name)])
    } else {
        None
    }
}

/// The step for a source that has to be fetched: one GET where the registry
/// knows the source, the code of an unknown source where it does not.
pub open spec fn resolve_spec(registry: ServerBagView, name: Seq<char>) -> StepView {
    match url_of(registry, name) {
        Some(url) => download_from(url, registry.useragent),
        None => StepView::Reply(DataPkt::Error(code_of(Failure::UnknownSource))),
    }
}

/// The step for a request. A request that is not forced is answered from
/// the cache where the cache holds the source; every other request goes to
/// the registry.
pub open spec fn step_spec(
    cached: Map<Seq<char>, Seq<char>>,
    registry: ServerBagView,
    name: Seq<char>,
    forced: bool,
) -> StepView {
    if !forced && cached.dom().contains(name) {
        StepView::Reply(reply_of(parse_spec(cached[name])))
    } else {
        resolve_spec(registry, name)
    }
}

/// The reply once the download is over: the parsed body, or the code of
/// what went wrong.
pub open spec fn finish_reply(registry: ServerBagView, name: Seq<char>, fetched: FetchedView)
    -> DataPkt {
    match fetched {
        FetchedView::Body(body) => if holds(registry.names, name) {
            reply_of(parse_spec(body))
        } else {
            DataPkt::Error(code_of(Failure::UnknownSource))
        },
        FetchedView::TransportFailure => DataPkt::Error(code_of(Failure::Network)),
        FetchedView::ReadFailure => DataPkt::Error(code_of(Failure::ResponseRead)),
    }
}

/// The body that a finished download brings into the cache and the
/// archive: that of a response that arrived for a known source.
pub open spec fn accepted_body(registry: ServerBagView, name: Seq<char>, fetched: FetchedView)
    -> Option<Seq<char>> {
    match fetched {
        FetchedView::Body(body) => if holds(registry.names, name) {
            Some(body)
        } else {
            None
        },
        _ => None,
    }
}

/// The one reply that a request gets: that of its first step where this is
/// a reply, else that of the finished download.
pub open spec fn answer_spec(
    cached: Map<Seq<char>, Seq<char>>,
    registry: ServerBagView,
    name: Seq<char>,
    forced: bool,
    fetched: FetchedView,
) -> DataPkt {
    match step_spec(cached, registry, name, forced) {
        StepView::Reply(reply) => reply,
        StepView::Download { .. } => finish_reply(registry, name, fetched),
    }
}

/// Whether `name` is one of `list`.
pub open spec fn listed(list: Seq<Seq<char>>, name: Seq<char>) -> bool {
    exists|i: int| 0 <= i < list.len() && list[i] == name
}

/// The archive job for a payload of a source: there is one exactly if the
/// source is flagged for archiving and an archive directory is configured.
pub open spec fn archive_spec(registry: ServerBagView, data: Seq<char>, name: Seq<char>)
    -> Option<ArchiveJobView> {
    match registry.archivedir {
        Some(dir) => if listed(registry.archive_lst, name) {
            Some(ArchiveJobView { dir, file: file_name_spec(name), payload: data })
        } else {
            None
        },
        None => None,
    }
}

/// Tests whether `name` is one of `list`.
pub fn is_listed(list: &Vec<String>, name: &String) -> (b: bool)
    ensures
        b == listed(strings(list@), name@),
{
    let mut i: usize = 0;
    while i < list.len()
        invariant
            i <= list.len(),
            forall|j: int| 0 <= j < i ==> strings(list@)[j] != name@,
        decreases list.len() - i,
    {
        if list[i] == *name {
            proof {
                assert(strings(list@)[i as int] == name@);
            }
            return true;
        }
        i = i + 1;
    }
    false
}

/// The dispatcher: the registry of sources and the cache of their payloads.
pub struct Fetcher {
    store: ServerBag,
    cache: PayloadCache,
}

impl Fetcher {
    /// The registry of sources.
    pub closed spec fn registry(&self) -> ServerBagView {
        self.store@
    }

    /// The cached payloads by source name.
    pub closed spec fn cached(&self) -> Map<Seq<char>, Seq<char>> {
        self.cache@
    }

    /// The most payloads that the cache holds.
    pub closed spec fn capacity(&self) -> nat {
        self.cache.capacity()
    }

    /// The cache is within its capacity, which is the configured one (or
    /// the largest that a cache can have, where more is configured), and
    /// holds registered sources only.
    pub closed spec fn wf(&self) -> bool {
        &&& self.cache.wf()
        &&& self.cache.capacity() == capacity_for(self.store.cachesz)
        &&& forall|k: Seq<char>| #[trigger]
            self.cache@.dom().contains(k) ==> holds(self.store@.names, k)
    }

    /// What `wf` promises of the cache.
    pub proof fn lemma_wf(&self)
        requires
            self.wf(),
        ensures
            within(self.cached(), self.capacity()),
            self.capacity() == capacity_for(self.registry().cachesz),
            self.capacity() <= self.registry().cachesz,
            forall|k: Seq<char>| #[trigger]
                self.cached().dom().contains(k) ==> holds(self.registry().names, k),
    {
    }

    /// A dispatcher for the given registry, with an empty cache of the
    /// configured capacity, or of the largest that a cache can have where
    /// more is configured.
    pub fn new(store: ServerBag) -> (f: Fetcher)
        ensures
            f.wf(),
            f.registry() == store@,
            f.cached() == no_entries(),
            f.capacity() == capacity_for(store.cachesz),
    {
        let cache = PayloadCache::new(store.cachesz);
        Fetcher { store, cache }
    }

    /// The step for a source that has to be fetched.
    fn resolve(&self, name: &String) -> (step: Step)
        ensures
            step@ == resolve_spec(self.registry(), name@),
    {
        match self.store.names.get(name) {
            Some(url) => Step::Download { url: url.clone(), useragent: self.store.useragent.clone() },
            None => Step::Reply(DataPkt::Error(code(Failure::UnknownSource))),
        }
    }

    /// The first step of a forced request: the cache is not looked at.
    pub fn forceget(&self, name: &String) -> (step: Step)
        ensures
            step@ == step_spec(self.cached(), self.registry(), name@, true),
    {
        self.resolve(name)
    }

    /// The first step of a request: the reply from the cache where the cache
    /// holds the source, else what a forced request would do.
    pub fn get(&self, name: &String) -> (step: Step)
        ensures
            step@ == step_spec(self.cached(), self.registry(), name@, false),
    {
        match self.cache.lookup(name) {
            Some(payload) => Step::Reply(reply(parse(payload.as_str()))),
            None => self.resolve(name),
        }
    }

    /// The first step of a request, forced or not.
    pub fn dispatch(&self, request: &Request) -> (step: Step)
        ensures
            step@ == step_spec(self.cached(), self.registry(), request.name@, request.forced),
    {
        if request.forced {
            self.forceget(&request.name)
        } else {
            self.get(&request.name)
        }
    }

    /// The archive job for a payload of a source.
    pub fn archive(&self, data: &String, name: &String) -> (job: Option<ArchiveJob>)
        ensures
            job_view(job) == archive_spec(self.registry(), data@, name@),
    {
        if is_listed(&self.store.archive_lst, name) {
            match &self.store.archivedir {
                Some(dir) => Some(
                    ArchiveJob {
                        target: ArchiveTarget { dir: dir.clone(), file: file_name(name) },
                        payload: data.clone(),
                    },
                ),
                None => None,
            }
        } else {
            None
        }
    }

    /// The last step of a request that went to the network. A body that
    /// arrived for a known source is parsed, cached under the source's name
    /// whatever the parser made of it, and handed on for archiving; a failed
    /// download changes nothing and is answered with the error code 502.
    ///
    /// The body replaces the source's cache entry where there is one. A full
    /// cache gives up exactly one other entry for it. Only a cache of
    /// capacity zero does not hold the body afterwards.
    pub fn finish(&mut self, name: &String, fetched: Fetched) -> (done: Finished)
        ensures
            old(self).wf() ==> final(self).wf(),
            final(self).registry() == old(self).registry(),
            final(self).capacity() == old(self).capacity(),
            done.reply == finish_reply(old(self).registry(), name@, fetched@),
            match accepted_body(old(self).registry(), name@, fetched@) {
                Some(body) => stored(
                    old(self).cached(),
                    final(self).cached(),
                    old(self).capacity(),
                    name@,
                    body,
                ) && job_view(done.archive) == archive_spec(old(self).registry(), body, name@),
                None => final(self).cached() == old(self).cached() && done.archive.is_none(),
            },
    {
        match fetched {
            Fetched::Body(body) => {
                if self.store.names.contains_key(name) {
                    let reply = reply(parse(body.as_str()));
                    let archive = self.archive(&body, name);
                    self.cache.insert(name.clone(), body);
                    Finished { reply, archive }
                } else {
                    Finished {
                        reply: DataPkt::Error(code(Failure::UnknownSource)),
                        archive: None,
                    }
                }
            },
            Fetched::TransportFailure => Finished {
                reply: DataPkt::Error(code(Failure::Network)),
                archive: None,
            },
            Fetched::ReadFailure => Finished {
                reply: DataPkt::Error(code(Failure::ResponseRead)),
                archive: None,
            },
        }
    }
}


/// A request that is not forced, for a source that the cache holds, asks for
/// no GET: it is answered with what the parser makes of the cached payload.
pub proof fn lemma_hit_needs_no_network(
    cached: Map<Seq<char>, Seq<char>>,
    registry: ServerBagView,
    name: Seq<char>,
)
    requires
        cached.dom().contains(name),
    ensures
        network_calls(step_spec(cached, registry, name, false)) == 0,
        step_spec(cached, registry, name, false) == StepView::Reply(
            reply_of(parse_spec(cached[name])),
        ),
{
}

/// A forced request for a source that the registry knows asks for exactly
/// one GET, to the source's address, whatever the cache holds.
pub proof fn lemma_forced_fetches_once(
    cached: Map<Seq<char>, Seq<char>>,
    registry: ServerBagView,
    name: Seq<char>,
)
    requires
        holds(registry.names, name),
    ensures
        network_calls(step_spec(cached, registry, name, true)) == 1,
        step_spec(cached, registry, name, true) == download_from(
            registry.urls[place(registry.names, name)],
            registry.useragent,
        ),
{
}

/// Every failure is answered with the error code 502.
pub proof fn lemma_failures_share_a_code(failure: Failure)
    ensures
        code_of(failure) == 502,
{
}

/// A request for a source that the registry does not know and the cache
/// does not hold is answered with the error code 502, forced or not, and
/// asks for no GET.
pub proof fn lemma_unknown_source(
    cached: Map<Seq<char>, Seq<char>>,
    registry: ServerBagView,
    name: Seq<char>,
    forced: bool,
)
    requires
        !holds(registry.names, name),
        !cached.dom().contains(name),
    ensures
        step_spec(cached, registry, name, forced) == StepView::Reply(DataPkt::Error(502)),
        network_calls(step_spec(cached, registry, name, forced)) == 0,
{
}

/// A body that arrived for a known source is cached under the source's
/// name, in place of what was cached for it, by every cache that can hold
/// anything at all; the next request that is not forced is answered from
/// it, without a GET.
pub proof fn lemma_success_overwrites(
    before: Map<Seq<char>, Seq<char>>,
    after: Map<Seq<char>, Seq<char>>,
    limit: nat,
    registry: ServerBagView,
    name: Seq<char>,
    body: Seq<char>,
)
    requires
        limit > 0,
        accepted_body(registry, name, FetchedView::Body(body)) == Some(body),
        stored(before, after, limit, name, body),
    ensures
        found(after, name) == Some(body),
        step_spec(after, registry, name, false) == StepView::Reply(reply_of(parse_spec(body))),
        network_calls(step_spec(after, registry, name, false)) == 0,
{
}

/// A body that is neither RSS nor Atom is answered with the error code 502,
/// like a failed download: no request is left without a reply.
pub proof fn lemma_unparseable_is_answered(
    cached: Map<Seq<char>, Seq<char>>,
    registry: ServerBagView,
    name: Seq<char>,
    forced: bool,
    body: Seq<char>,
)
    requires
        parse_spec(body) == Document::Unparseable,
        step_spec(cached, registry, name, forced) is Download,
    ensures
        answer_spec(cached, registry, name, forced, FetchedView::Body(body)) == DataPkt::Error(
            502,
        ),
        answer_spec(cached, registry, name, forced, FetchedView::TransportFailure)
            == DataPkt::Error(502),
        answer_spec(cached, registry, name, forced, FetchedView::ReadFailure) == DataPkt::Error(
            502,
        ),
{
}

/// A source that is not flagged for archiving has no archive job, whatever
/// the payload: nothing of it reaches the file system.
pub proof fn lemma_unflagged_not_archived(
    registry: ServerBagView,
    data: Seq<char>,
    name: Seq<char>,
)
    requires
        !listed(registry.archive_lst, name),
    ensures
        archive_spec(registry, data, name).is_none(),
{
}

} // verus!
