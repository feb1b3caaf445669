//! Warming the page cache of an instance: which pages to fetch, and how.

use crate::instance::settings::{concat_spec, Settings};
use crate::table::strings;
use crate::text::text_of;
use vstd::prelude::*;

verus! {

/// One GET to issue: the address, and the user agent to send if there is
/// one.
#[derive(Debug)]
pub struct FetchOrder {
    pub url: String,
    pub useragent: Option<String>,
}

/// The fetches that warm the cache, and how many of them run at a time.
#[derive(Debug)]
pub struct CachePlan {
    pub orders: Vec<FetchOrder>,
    pub parallel: usize,
}

/// The addresses of a list of orders.
pub open spec fn order_urls(orders: Seq<FetchOrder>) -> Seq<Seq<char>> {
    Seq::new(orders.len(), |i: int| orders[i].url@)
}

/// Plans the fetches that warm the cache: one GET for every link of the
/// settings, heading by heading, each with the configured user agent, and
/// as many at a time as the settings allow.
pub fn buildcache(app: &Settings) -> (plan: CachePlan)
    ensures
        order_urls(plan.orders@) == concat_spec(app.records().links),
        forall|i: int|
            0 <= i < plan.orders@.len() ==> text_of((#[trigger] plan.orders@[i]).useragent)
                == app.variables().ua,
        plan.parallel == app.variables().parallel,
{
    let links = app.get_links();
    let parallel = app.parallelization();
    let mut orders: Vec<FetchOrder> = Vec::new();
    let mut i: usize = 0;
    while i < links.len()
        invariant
            i <= links.len(),
            order_urls(orders@) == strings(links@).take(i as int),
            forall|j: int|
                0 <= j < orders@.len() ==> text_of((#[trigger] orders@[j]).useragent)
                    == app.variables().ua,
        decreases links.len() - i,
    {
        let ghost before = order_urls(orders@);
        orders.push(FetchOrder { url: links[i].clone(), useragent: app.useragent() });
        proof {
            assert(order_urls(orders@) =~= before.push(links@[i as int]@));
            assert(order_urls(orders@) =~= strings(links@).take(i + 1));
        }
        i = i + 1;
    }
    proof {
        assert(strings(links@).take(i as int) =~= strings(links@));
    }
    CachePlan { orders, parallel }
}

} // verus!
