//! What to render: a feed page for a parsed document, an error page for a
//! code, a static file by its name.

use crate::model::fetch::DataPkt;
use crate::table::Table;
use atom_syndication::Feed;
use rss::Channel;
use vstd::prelude::*;

verus! {

/// The code of the page for something that is not there.
pub const NOT_FOUND: u16 = 404;

/// The code of the page for a failure of the server itself.
pub const SERVER_ERROR: u16 = 500;

/// A page to render.
#[derive(Debug)]
pub enum Page {
    /// The error template, with this code.
    Error(u16),
    /// The feed template, with this RSS channel.
    Rss(Channel),
    /// The feed template, with this Atom feed.
    Atom(Feed),
}

/// The page for the reply to a request; a request whose reply never came is
/// answered with the error code 500.
pub open spec fn page_spec(reply: Option<DataPkt>) -> Page {
    match reply {
        Some(DataPkt::Error(code)) => Page::Error(code),
        Some(DataPkt::Channel(channel)) => Page::Rss(channel),
        Some(DataPkt::Feed(feed)) => Page::Atom(feed),
        None => Page::Error(SERVER_ERROR),
    }
}

/// The page for the reply to a request.
pub fn page_for(reply: Option<DataPkt>) -> (page: Page)
    ensures
        page == page_spec(reply),
{
    match reply {
        Some(DataPkt::Error(code)) => Page::Error(code),
        Some(DataPkt::Channel(channel)) => Page::Rss(channel),
        Some(DataPkt::Feed(feed)) => Page::Atom(feed),
        None => Page::Error(SERVER_ERROR),
    }
}

/// The static files by name, read once at start.
#[derive(Debug)]
pub struct StaticFiles {
    pub files: Table<String>,
}

/// The text of a successful lookup.
pub open spec fn served(r: Result<String, u16>) -> Result<Seq<char>, u16> {
    match r {
        Ok(text) => Ok(text@),
        Err(code) => Err(code),
    }
}

/// The contents of a static file, or the error code 404 where there is no
/// file of that name.
pub open spec fn static_spec(files: Table<String>, name: Seq<char>) -> Result<Seq<char>, u16> {
    if files.has(name) {
        Ok(files.value_of(name)@)
    } else {
        Err(NOT_FOUND)
    }
}

impl StaticFiles {
    /// No static files.
    pub fn new() -> (s: StaticFiles)
        ensures
            s.files.keys().len() == 0,
    {
        StaticFiles { files: Table::new() }
    }

    /// Takes in a file that was read; a later file replaces an earlier one
    /// of the same name.
    pub fn collect(&mut self, name: String, contents: String)
        ensures
            final(self).files@ == old(self).files@.insert(name@, contents),
    {
        self.files.insert(name, contents);
    }

    /// The contents of a static file.
    pub fn servestatic(&self, name: &String) -> (r: Result<String, u16>)
        ensures
            served(r) == static_spec(self.files, name@),
    {
        match self.files.get(name) {
            Some(contents) => Ok(contents.clone()),
            None => Err(NOT_FOUND),
        }
    }
}

} // verus!
