//! The dual-format parser: a raw text is read as RSS first and, failing
//! that, as Atom.

use atom_syndication::Feed;
use rss::Channel;
use vstd::prelude::*;

verus! {

/// `rss::Channel`, an RSS document. The library carries it through without
/// looking inside.
#[verifier::external_type_specification]
#[verifier::external_body]
pub struct ExChannel(Channel);

/// `atom_syndication::Feed`, an Atom document. The library carries it
/// through without looking inside.
#[verifier::external_type_specification]
#[verifier::external_body]
pub struct ExFeed(Feed);

/// `rss::Error`, why the RSS reader refused a text.
#[verifier::external_type_specification]
#[verifier::external_body]
pub struct ExRssError(rss::Error);

/// `atom_syndication::Error`, why the Atom reader refused a text.
#[verifier::external_type_specification]
#[verifier::external_body]
pub struct ExAtomError(atom_syndication::Error);

/// The channel that the RSS reader makes of a text, if it accepts it.
pub uninterp spec fn rss_channel(text: Seq<char>) -> Option<Channel>;

/// The feed that the Atom reader makes of a text, if it accepts it.
pub uninterp spec fn atom_feed(text: Seq<char>) -> Option<Feed>;

/// The value of a successful read.
pub open spec fn accepted<T, E>(r: Result<T, E>) -> Option<T> {
    match r {
        Ok(t) => Some(t),
        Err(_) => None,
    }
}

/// Calls `rss::Channel::read_from` on the bytes of the text. The reader
/// works on its input alone, so its outcome for a text goes under one name.
#[verifier::external_body]
fn read_rss(text: &str) -> (r: Result<Channel, rss::Error>)
    ensures
        accepted(r) == rss_channel(text@),
{
    Channel::read_from(text.as_bytes())
}

/// Calls `atom_syndication::Feed::read_from` on the bytes of the text. The
/// reader works on its input alone, so its outcome for a text goes under one
/// name.
#[verifier::external_body]
fn read_atom(text: &str) -> (r: Result<Feed, atom_syndication::Error>)
    ensures
        accepted(r) == atom_feed(text@),
{
    Feed::read_from(text.as_bytes())
}

/// What a raw text turned out to be.
#[derive(Debug)]
pub enum Document {
    /// An RSS channel.
    Rss(Channel),
    /// An Atom feed.
    Atom(Feed),
    /// Neither.
    Unparseable,
}

/// The document for the outcomes of the two readers: RSS wins where it
/// succeeds, Atom is the fallback.
pub open spec fn document_of(rss: Option<Channel>, atom: Option<Feed>) -> Document {
    match rss {
        Some(channel) => Document::Rss(channel),
        None => match atom {
            Some(feed) => Document::Atom(feed),
            None => Document::Unparseable,
        },
    }
}

/// What `parse` makes of a text.
pub open spec fn parse_spec(text: Seq<char>) -> Document {
    document_of(rss_channel(text), atom_feed(text))
}

/// The document for a text that is no RSS, given what the Atom reader made
/// of it.
pub fn fallback(atom: Result<Feed, atom_syndication::Error>) -> (d: Document)
    ensures
        d == document_of(None, accepted(atom)),
{
    match atom {
        Ok(feed) => Document::Atom(feed),
        Err(_) => Document::Unparseable,
    }
}

/// The document for what the RSS reader made of a text; the Atom reader is
/// tried on `text` only where that was a failure.
pub fn select(rss: Result<Channel, rss::Error>, text: &str) -> (d: Document)
    ensures
        d == document_of(accepted(rss), atom_feed(text@)),
{
    match rss {
        Ok(channel) => Document::Rss(channel),
        Err(_) => fallback(read_atom(text)),
    }
}

/// Reads a raw text as RSS or, failing that, as Atom.
pub fn parse(text: &str) -> (d: Document)
    ensures
        d == parse_spec(text@),
{
    select(read_rss(text), text)
}

/// A text that the RSS reader refuses and the Atom reader accepts is an
/// Atom document, never unparseable.
pub proof fn lemma_atom_fallback(text: Seq<char>)
    requires
        rss_channel(text).is_none(),
        atom_feed(text).is_some(),
    ensures
        parse_spec(text) == Document::Atom(atom_feed(text).unwrap()),
        parse_spec(text) != Document::Unparseable,
{
}

/// A text that the RSS reader accepts is an RSS document, whatever the Atom
/// reader would make of it.
pub proof fn lemma_rss_first(text: Seq<char>)
    requires
        rss_channel(text).is_some(),
    ensures
        parse_spec(text) == Document::Rss(rss_channel(text).unwrap()),
{
}

} // verus!
