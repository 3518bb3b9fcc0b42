//! The cursor paginator: walks forward through pages of a connection,
//! flattening the nodes into one ordered collection.
//!
//! The paginator never interprets cursor contents; it forwards the
//! server's cursor verbatim on the next request. Items keep server order,
//! are never reordered or deduplicated, and an explicit limit truncates
//! the final page. A page that advertises more data but repeats the
//! previous cursor ends the walk defensively instead of looping forever.
//!
//! The requests themselves happen outside: the caller asks
//! [`Paginator::is_done`] and [`Paginator::next_after`], performs the
//! fetch, and hands each response to [`Paginator::feed_page`].

use vstd::prelude::*;

use crate::json::{path_view, spec_get, spec_get_path, JsonValue};

verus! {

use vstd::string::StringExecFns;

/// How a paginated listing is to be walked: everything, a capped count,
/// an explicit page size, a resumption cursor.
#[derive(Debug, Clone, PartialEq)]
pub struct PaginationOptions {
    /// Fetch every page, ignoring `limit`.
    pub all: bool,
    /// Stop once this many items are collected, truncating the last page.
    pub limit: Option<usize>,
    /// Page size to request instead of the caller's default.
    pub page_size: Option<u32>,
    /// Cursor to resume after, forwarded verbatim to the first request.
    pub after: Option<String>,
}

impl Default for PaginationOptions {
    fn default() -> (r: Self)
        ensures
            r == (PaginationOptions {
                all: false,
                limit: Option::None,
                page_size: Option::None,
                after: Option::None,
            }),
    {
        PaginationOptions { all: false, limit: Option::None, page_size: Option::None, after: Option::None }
    }
}

/// The nodes a page carries under the extraction path; a missing or
/// non-array field reads as an empty page.
pub open spec fn page_nodes(response: JsonValue, nodes_path: Seq<Seq<char>>) -> Seq<JsonValue> {
    match spec_get_path(response, nodes_path) {
        Option::Some(v) => match v {
            JsonValue::Arr(items) => items@,
            _ => Seq::empty(),
        },
        Option::None => Seq::empty(),
    }
}

/// Whether a page advertises another page after it.
pub open spec fn page_has_next(response: JsonValue, page_info_path: Seq<Seq<char>>) -> bool {
    match spec_get_path(response, page_info_path) {
        Option::Some(info) => match spec_get(info, "hasNextPage"@) {
            Option::Some(v) => v == JsonValue::Bool(true),
            Option::None => false,
        },
        Option::None => false,
    }
}

/// The cursor a page ends with, when it carries one.
pub open spec fn page_cursor(response: JsonValue, page_info_path: Seq<Seq<char>>) -> Option<
    Seq<char>,
> {
    match spec_get_path(response, page_info_path) {
        Option::Some(info) => match spec_get(info, "endCursor"@) {
            Option::Some(v) => match v {
                JsonValue::Str(s) => Option::Some(s@),
                _ => Option::None,
            },
            Option::None => Option::None,
        },
        Option::None => Option::None,
    }
}

/// The view of an optional cursor.
pub open spec fn cursor_view(c: Option<String>) -> Option<Seq<char>> {
    match c {
        Option::Some(s) => Option::Some(s@),
        Option::None => Option::None,
    }
}

/// Whether the walk continues after this page: it advertises more, it
/// carries a cursor, and that cursor is not the one just used.
pub open spec fn feed_continues(
    response: JsonValue,
    page_info_path: Seq<Seq<char>>,
    prev: Option<Seq<char>>,
) -> bool {
    &&& page_has_next(response, page_info_path)
    &&& page_cursor(response, page_info_path) is Some
    &&& page_cursor(response, page_info_path) != prev
}

/// A walk in progress: what was collected, where to resume, whether the
/// walk is over. Treat the fields as read-only; [`Paginator::feed_page`]
/// is what moves the walk forward.
#[derive(Debug)]
pub struct Paginator {
    /// Collection cap; fetching everything leaves it empty.
    pub limit: Option<usize>,
    /// The page size each request asks for.
    pub page_size: u32,
    /// The cursor the next request resumes after.
    pub after: Option<String>,
    /// The nodes collected so far, in server order.
    pub items: Vec<JsonValue>,
    /// Whether the walk is over.
    pub done: bool,
}

impl Paginator {
    /// The collected count never passes the cap.
    pub open spec fn wf(self) -> bool {
        match self.limit {
            Option::Some(l) => self.items@.len() <= l,
            Option::None => true,
        }
    }

    /// Start a walk: nothing collected, resuming after the options'
    /// cursor, capped by the options' limit unless everything was asked
    /// for.
    pub fn new(opts: &PaginationOptions, default_page_size: u32) -> (r: Paginator)
        ensures
            r.items@.len() == 0,
            r.done == false,
            r.limit == if opts.all {
                Option::<usize>::None
            } else {
                opts.limit
            },
            r.page_size == match opts.page_size {
                Option::Some(p) => p,
                Option::None => default_page_size,
            },
            r.after == opts.after,
            r.wf(),
    {
        Paginator {
            limit: if opts.all {
                Option::None
            } else {
                opts.limit
            },
            page_size: match opts.page_size {
                Option::Some(p) => p,
                Option::None => default_page_size,
            },
            after: match &opts.after {
                Option::Some(s) => Option::Some(s.clone()),
                Option::None => Option::None,
            },
            items: Vec::new(),
            done: false,
        }
    }

    /// Whether the walk is over.
    pub fn is_done(&self) -> (r: bool)
        ensures
            r == self.done,
    {
        self.done
    }

    /// The cursor the next request should pass along.
    pub fn next_after(&self) -> (r: &Option<String>)
        ensures
            *r == self.after,
    {
        &self.after
    }

    /// The page size the next request should ask for.
    pub fn request_page_size(&self) -> (r: u32)
        ensures
            r == self.page_size,
    {
        self.page_size
    }

    /// The nodes collected so far, in server order.
    pub fn items(&self) -> (r: &Vec<JsonValue>)
        ensures
            *r == self.items,
    {
        &self.items
    }

    /// Hand the collected collection over once the walk is done.
    pub fn into_items(self) -> (r: Vec<JsonValue>)
        requires
            self.done,
        ensures
            r == self.items,
    {
        self.items
    }

    /// Consume one page: append its nodes in order (truncated at the
    /// cap), then either advance the cursor or end the walk — on a full
    /// collection, on a page that advertises no more data or no cursor,
    /// and on a cursor that failed to change.
    #[verifier::loop_isolation(false)]
    pub fn feed_page(&mut self, response: JsonValue, nodes_path: &[&str], page_info_path: &[&str])
        requires
            !old(self).done,
            old(self).wf(),
        ensures
            final(self).wf(),
            final(self).limit == old(self).limit,
            final(self).page_size == old(self).page_size,
            ({
                let nodes = page_nodes(response, path_view(nodes_path@));
                let room = match old(self).limit {
                    Option::Some(l) => l - old(self).items@.len(),
                    Option::None => nodes.len() as int,
                };
                let taken = if nodes.len() <= room {
                    nodes.len() as int
                } else {
                    room
                };
                let limit_hit = match old(self).limit {
                    Option::Some(l) => old(self).items@.len() + nodes.len() >= l,
                    Option::None => false,
                };
                let continues = !limit_hit && feed_continues(
                    response,
                    path_view(page_info_path@),
                    cursor_view(old(self).after),
                );
                &&& final(self).items@ == old(self).items@ + nodes.take(taken)
                &&& final(self).done == !continues
                &&& continues ==> cursor_view(final(self).after) == page_cursor(
                    response,
                    path_view(page_info_path@),
                )
                &&& !continues ==> final(self).after == old(self).after
            }),
    {
        let (has_next, cursor): (bool, Option<String>) = match crate::json::get_path(
            &response,
            page_info_path,
        ) {
            Option::Some(info) => {
                let hn = match info.get("hasNextPage") {
                    Option::Some(v) => match v.as_bool() {
                        Option::Some(b) => b,
                        Option::None => false,
                    },
                    Option::None => false,
                };
                let cur = match info.get("endCursor") {
                    Option::Some(v) => match v.as_str() {
                        Option::Some(s) => Option::Some(s.to_owned()),
                        Option::None => Option::None,
                    },
                    Option::None => Option::None,
                };
                (hn, cur)
            },
            Option::None => (false, Option::None),
        };
        let mut nodes: Vec<JsonValue> = match crate::json::take_path(response, nodes_path) {
            Option::Some(v) => match v {
                JsonValue::Arr(items) => items,
                _ => Vec::new(),
            },
            Option::None => Vec::new(),
        };
        let ghost all_nodes = nodes@;
        let total = nodes.len();
        let room: usize = match self.limit {
            Option::Some(l) => l - self.items.len(),
            Option::None => total,
        };
        let take_n: usize = if total <= room {
            total
        } else {
            room
        };
        let limit_hit = match self.limit {
            Option::Some(_) => total >= room,
            Option::None => false,
        };
        let ghost items_before = self.items@;
        let mut k: usize = 0;
        while k < take_n
            invariant
                k <= take_n,
                take_n <= total,
                nodes@ == all_nodes.skip(k as int),
                self.items@ == items_before + all_nodes.take(k as int),
                self.limit == old(self).limit,
                self.page_size == old(self).page_size,
                self.after == old(self).after,
                self.done == old(self).done,
            decreases take_n - k,
        {
            proof {
                assert(all_nodes.skip(k as int)[0] == all_nodes[k as int]);
            }
            let node = nodes.remove(0);
            self.items.push(node);
            proof {
                assert(nodes@ =~= all_nodes.skip(k + 1));
                assert(self.items@ =~= items_before + all_nodes.take(k + 1));
            }
            k = k + 1;
        }
        if limit_hit {
            self.done = true;
            return;
        }
        let continues = has_next && match (&cursor, &self.after) {
            (Option::Some(c), Option::Some(p)) => !crate::text::str_eq(c.as_str(), p.as_str()),
            (Option::Some(_), Option::None) => true,
            (Option::None, _) => false,
        };
        if continues {
            self.after = cursor;
        } else {
            self.done = true;
        }
    }
}

} // verus!
