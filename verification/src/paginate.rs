//! Fetching a listing page by page until `limit` items are collected or a
//! page comes back short. The fetching is the caller's; the pager decides
//! which page to ask for next (always with the same page size) and how many
//! of the collected items to keep.
use vstd::prelude::*;

verus! {

/// Where a paginated fetch stands.
#[derive(Debug, Clone, Copy)]
pub struct Pager {
    /// How many items are wanted in all.
    pub limit: i64,
    /// The most items asked for per page.
    pub per_page: i64,
    /// The next page to ask for (from 1).
    pub page: i64,
    /// How many items have arrived.
    pub collected: usize,
    /// A page came back short: there is nothing more.
    pub done: bool,
}

impl Pager {
    /// A pager before the first page.
    pub fn new(limit: i64, per_page: i64) -> (r: Pager)
        requires
            per_page > 0,
        ensures
            r == (Pager { limit, per_page, page: 1, collected: 0, done: false }),
    {
        Pager { limit, per_page, page: 1, collected: 0, done: false }
    }

    /// The items still wanted.
    pub open spec fn remaining(self) -> int {
        self.limit - self.collected
    }

    /// The next request, if any: the page and the page size.
    pub open spec fn request_spec(self) -> Option<(i64, i64)> {
        if self.done || self.remaining() <= 0 {
            None
        } else {
            Some((self.page, self.per_page))
        }
    }

    /// The pager after a page that brought `got` items.
    pub open spec fn after_page(self, got: usize) -> Pager {
        Pager {
            collected: (self.collected + got) as usize,
            done: self.done || got < self.per_page,
            page: if got < self.per_page {
                self.page
            } else {
                (self.page + 1) as i64
            },
            ..self
        }
    }

    /// The next request: its page and the page size `per_page`; `None` once
    /// a page came back short or enough items arrived.
    pub fn next_request(&self) -> (r: Option<(i64, i64)>)
        ensures
            r == self.request_spec(),
    {
        if self.done {
            return None;
        }
        let remaining: i128 = (self.limit as i128) - (self.collected as i128);
        if remaining <= 0 {
            return None;
        }
        Some((self.page, self.per_page))
    }

    /// Records a page that brought `got` items: a page shorter than
    /// `per_page` ends the fetch, a full one moves to the next page.
    pub fn record(&mut self, got: usize)
        requires
            old(self).collected + got <= usize::MAX,
            old(self).page < i64::MAX,
        ensures
            *final(self) == old(self).after_page(got),
    {
        self.collected = self.collected + got;
        if (got as i128) < (self.per_page as i128) {
            self.done = true;
        } else {
            self.page = self.page + 1;
        }
    }

    /// How many of the collected items to keep: at most `limit` of them
    /// (all of them when `limit` is negative).
    pub fn kept(&self) -> (r: usize)
        ensures
            self.limit >= 0 && self.collected > self.limit ==> r == self.limit,
            self.limit < 0 || self.collected <= self.limit ==> r == self.collected,
            self.limit >= 0 ==> r <= self.limit,
            r <= self.collected,
    {
        if self.limit >= 0 && (self.collected as i128) > (self.limit as i128) {
            self.limit as usize
        } else {
            self.collected
        }
    }
}

/// A page that comes back short ends the fetch: nothing more is asked for.
/// A full page moves on to the next page number.
pub proof fn lemma_short_page_ends(p: Pager, got: usize)
    requires
        p.collected + got <= usize::MAX,
        p.page < i64::MAX,
    ensures
        got < p.per_page ==> p.after_page(got).request_spec() is None,
        got >= p.per_page ==> p.after_page(got).page == p.page + 1,
{
}

/// Every request asks for the page that follows the last full one, with
/// the same page size `per_page`.
pub proof fn lemma_request_uses_page_size(p: Pager)
    ensures
        p.request_spec() matches Some((page, size)) ==> size == p.per_page && page == p.page,
{
}

} // verus!
