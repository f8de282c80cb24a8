//! The page cache: a built page is served until it is 300 seconds old.

use crate::text::{decimal, to_decimal};
use vstd::prelude::*;

verus! {

/// A point in time: the nanoseconds that a clock which never runs backwards
/// has counted.
#[derive(Clone, Copy, Debug, PartialEq, Eq, Structural)]
pub struct Moment {
    pub nanos: u64,
}

/// A length of time in nanoseconds.
#[derive(Clone, Copy, Debug, PartialEq, Eq, Structural)]
pub struct Span {
    pub nanos: u64,
}

/// The nanoseconds of a second.
pub const NANOS_PER_SECOND: u64 = 1_000_000_000;

/// The time from `from` to `to`; nothing where `to` is the earlier one.
pub open spec fn elapsed(from: Moment, to: Moment) -> Span {
    if to.nanos >= from.nanos {
        Span { nanos: (to.nanos - from.nanos) as u64 }
    } else {
        Span { nanos: 0 }
    }
}

/// How long a built page is served.
pub open spec fn cache_duration() -> Span {
    Span { nanos: 300_000_000_000 }
}

/// A span in words: its whole seconds, then what is left of it in whole
/// milliseconds, and again in whole microseconds.
pub open spec fn span_text(span: Span) -> Seq<char> {
    let rest = span.nanos as nat % 1_000_000_000;
    decimal(span.nanos as nat / 1_000_000_000) + " s, "@ + decimal(rest / 1_000_000) + " ms, "@
        + decimal(rest / 1_000) + " micros"@
}

/// The time from `from` to `to`.
pub fn time_between(from: Moment, to: Moment) -> (r: Span)
    ensures
        r == elapsed(from, to),
{
    if to.nanos >= from.nanos {
        Span { nanos: to.nanos - from.nanos }
    } else {
        Span { nanos: 0 }
    }
}

/// How long a built page is served: 300 seconds.
pub fn get_server_cache_duration() -> (r: Span)
    ensures
        r == cache_duration(),
        r.nanos == 300 * NANOS_PER_SECOND,
{
    Span { nanos: 300 * NANOS_PER_SECOND }
}

/// The time from `instant1` to `instant2` in words.
pub fn fmt_duration(instant1: Moment, instant2: Moment) -> (r: String)
    ensures
        r@ == span_text(elapsed(instant1, instant2)),
{
    let d = time_between(instant1, instant2);
    let rest = d.nanos % NANOS_PER_SECOND;
    let mut r = to_decimal(d.nanos / NANOS_PER_SECOND);
    r.append(" s, ");
    r.append(to_decimal(rest / 1_000_000).as_str());
    r.append(" ms, ");
    r.append(to_decimal(rest / 1_000).as_str());
    r.append(" micros");
    r
}

/// What a visitor's wait is noted as: the time, and whether the page came
/// from the cache.
pub open spec fn timing_text(span: Span, cached: bool) -> Seq<char> {
    span_text(span) + if cached {
        " for cached"@
    } else {
        " for uncached"@
    }
}

/// The note on a request that came at `start` and was answered at `end`.
pub fn timing_note(start: Moment, end: Moment, cached: bool) -> (r: String)
    ensures
        r@ == timing_text(elapsed(start, end), cached),
{
    let mut r = fmt_duration(start, end);
    if cached {
        r.append(" for cached");
    } else {
        r.append(" for uncached");
    }
    r
}

/// The one cached page: when it was built, and what it holds.
#[derive(Debug, PartialEq, Eq)]
pub struct PageCache {
    pub built_at: Moment,
    pub content: String,
}

/// The mathematical value of a [`PageCache`].
pub struct CachedPage {
    pub built_at: Moment,
    pub content: Seq<char>,
}

impl View for PageCache {
    type V = CachedPage;

    open spec fn view(&self) -> CachedPage {
        CachedPage { built_at: self.built_at, content: self.content@ }
    }
}

impl CachedPage {
    /// The page is younger than 300 seconds at `now`.
    pub open spec fn is_fresh(self, now: Moment) -> bool {
        elapsed(self.built_at, now).nanos < cache_duration().nanos
    }

    /// What a request at `now` is served, and the page that is cached after
    /// it: the cached page while it is fresh, else `rebuilt`, the page that
    /// the caller then builds. The third part says whether it was built.
    pub open spec fn visit(self, now: Moment, rebuilt: CachedPage) -> (Seq<char>, CachedPage, bool) {
        if self.is_fresh(now) {
            (self.content, self, false)
        } else {
            (rebuilt.content, rebuilt, true)
        }
    }
}

impl PageCache {
    /// The cache with its first page, built at `now`.
    pub fn new(now: Moment, content: String) -> (r: PageCache)
        ensures
            r@ == (CachedPage { built_at: now, content: content@ }),
    {
        PageCache { built_at: now, content }
    }

    /// The cached page where it is fresh at `now`; `None` asks the caller to
    /// build the page anew and to [`store`](PageCache::store) it.
    pub fn get_page(&self, now: Moment) -> (r: Option<String>)
        ensures
            match r {
                Some(content) => self@.is_fresh(now) && content@ == self@.content,
                None => !self@.is_fresh(now),
            },
    {
        if time_between(self.built_at, now).nanos < get_server_cache_duration().nanos {
            Some(self.content.clone())
        } else {
            None
        }
    }

    /// Replaces the cached page by `content`, built at `now`, and hands the
    /// content back to be served.
    pub fn store(&mut self, now: Moment, content: String) -> (r: String)
        ensures
            final(self)@ == (CachedPage { built_at: now, content: content@ }),
            r@ == content@,
    {
        let served = content.clone();
        self.built_at = now;
        self.content = content;
        served
    }
}

/// Two requests, the first of which finds the page stale, build the page
/// once: where the second comes less than 300 seconds after the first one's
/// page was built, it is served that page.
pub proof fn lemma_one_build_within_ttl(
    page: CachedPage,
    first: Moment,
    built: CachedPage,
    second: Moment,
    other: CachedPage,
)
    requires
        !page.is_fresh(first),
        elapsed(built.built_at, second).nanos < cache_duration().nanos,
    ensures
        page.visit(first, built) == (built.content, built, true),
        page.visit(first, built).1.visit(second, other) == (built.content, built, false),
{
}

/// While the cached page is fresh, a request is served it, nothing is built
/// and the cache stays as it is.
pub proof fn lemma_fresh_page_is_served(page: CachedPage, now: Moment, other: CachedPage)
    requires
        page.is_fresh(now),
    ensures
        page.visit(now, other) == (page.content, page, false),
{
}

} // verus!
