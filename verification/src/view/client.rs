//! The controller of the web side: the headings and the sources under them.

use crate::model::init::ClientBag;
use crate::table::{holds, lists, place, strings, Table};
use crate::view::compose::NOT_FOUND;
use vstd::prelude::*;

verus! {

/// What the request handlers share.
pub struct Controller {
    store: ClientBag,
}

/// The sources of a successful lookup.
pub open spec fn found_sources(r: Result<Vec<String>, u16>) -> Result<Seq<Seq<char>>, u16> {
    match r {
        Ok(names) => Ok(strings(names@)),
        Err(code) => Err(code),
    }
}

/// The sources under a heading, in the order of the configuration, or the
/// error code 404 where there is no such heading.
pub open spec fn sources_spec(
    headings: Seq<Seq<char>>,
    grouped: Seq<Seq<Seq<char>>>,
    heading: Seq<char>,
) -> Result<Seq<Seq<char>>, u16> {
    if holds(headings, heading) {
        Ok(grouped[place(headings, heading)])
    } else {
        Err(NOT_FOUND)
    }
}

impl Controller {
    /// The headings, in the order of the configuration.
    pub closed spec fn headings(&self) -> Seq<Seq<char>> {
        self.store.headings.keys()
    }

    /// The sources under each heading.
    pub closed spec fn grouped(&self) -> Seq<Seq<Seq<char>>> {
        lists(self.store.headings.values())
    }

    /// A controller for the given configuration.
    pub fn new(store: ClientBag) -> (c: Controller)
        ensures
            c.headings() == store@.headings,
            c.grouped() == store@.grouped,
    {
        Controller { store }
    }

    /// The sources under each heading.
    pub fn headings_ref(&self) -> (r: &Table<Vec<String>>)
        ensures
            r.keys() == self.headings(),
            lists(r.values()) == self.grouped(),
    {
        &self.store.headings
    }

    /// The sources to show on the page of a heading.
    pub fn sources(&self, heading: &String) -> (r: Result<Vec<String>, u16>)
        ensures
            found_sources(r) == sources_spec(self.headings(), self.grouped(), heading@),
    {
        match self.store.headings.get(heading) {
            Some(names) => {
                let copy = names.clone();
                proof {
                    assert(strings(copy@) =~= strings(names@));
                }
                Ok(copy)
            },
            None => Err(NOT_FOUND),
        }
    }
}

} // verus!
