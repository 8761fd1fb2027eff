use vstd::prelude::*;

use crate::cross_chain::types::TimestampMs;

verus! {

/// The most headers the cache holds; pushing beyond evicts the oldest.
pub const MAX_CACHED_HEADERS: usize = 256;

#[derive(Clone, Copy)]
pub struct Header {
    pub height: u64,
    pub timestamp_ms: TimestampMs,
    pub hash: [u8; 32],
    pub parent_hash: [u8; 32],
    pub is_finalized: bool,
}

/// A bounded, insertion-ordered cache of recent headers.
pub struct HeaderCache {
    headers: Vec<Header>,
}

/// `i` is the first position of `s` that holds a header of `height`.
pub open spec fn is_first_at_height(s: Seq<Header>, height: u64, i: int) -> bool {
    &&& 0 <= i < s.len()
    &&& s[i].height == height
    &&& forall|j: int| 0 <= j < i ==> s[j].height != height
}

/// No header of `height` is in `s`.
pub open spec fn no_header_at(s: Seq<Header>, height: u64) -> bool {
    forall|j: int| 0 <= j < s.len() ==> s[j].height != height
}

/// The headers after pushing `h`: the oldest leaves when the cache is full.
pub open spec fn spec_push(s: Seq<Header>, h: Header) -> Seq<Header> {
    if s.len() >= MAX_CACHED_HEADERS {
        s.drop_first().push(h)
    } else {
        s.push(h)
    }
}

/// The headers after marking the first one of `height` finalized, if any.
pub open spec fn spec_mark(s: Seq<Header>, height: u64) -> Seq<Header> {
    if exists|i: int| is_first_at_height(s, height, i) {
        let i = choose|i: int| is_first_at_height(s, height, i);
        s.update(i, Header { is_finalized: true, ..s[i] })
    } else {
        s
    }
}

/// The number of finalized headers in `s`.
pub open spec fn count_finalized(s: Seq<Header>) -> nat
    decreases s.len(),
{
    if s.len() == 0 {
        0
    } else {
        count_finalized(s.drop_last()) + if s.last().is_finalized { 1nat } else { 0nat }
    }
}

impl HeaderCache {
    #[verifier::type_invariant]
    spec fn bounded(self) -> bool {
        self.headers.len() <= MAX_CACHED_HEADERS
    }

    /// The cached headers, oldest first.
    pub closed spec fn headers(self) -> Seq<Header> {
        self.headers@
    }

    pub fn new() -> (c: Self)
        ensures
            c.headers() == Seq::<Header>::empty(),
    {
        HeaderCache { headers: Vec::with_capacity(MAX_CACHED_HEADERS) }
    }

    pub fn push(&mut self, header: Header)
        ensures
            final(self).headers() == spec_push(old(self).headers(), header),
            final(self).headers().len() <= MAX_CACHED_HEADERS,
    {
        proof { use_type_invariant(&*self); }
        let mut headers: Vec<Header> = Vec::new();
        std::mem::swap(&mut headers, &mut self.headers);
        if headers.len() >= MAX_CACHED_HEADERS {
            headers.remove(0);
        }
        headers.push(header);
        self.headers = headers;
    }

    /// The first cached header of the given height.
    pub fn get(&self, height: u64) -> (r: Option<&Header>)
        ensures
            match r {
                Some(h) => exists|i: int| is_first_at_height(self.headers(), height, i)
                    && *h == self.headers()[i],
                None => no_header_at(self.headers(), height),
            },
    {
        let mut i: usize = 0;
        while i < self.headers.len()
            invariant
                i <= self.headers.len(),
                no_header_at(self.headers@.take(i as int), height),
            decreases self.headers.len() - i,
        {
            if self.headers[i].height == height {
                assert(is_first_at_height(self.headers@, height, i as int)) by {
                    assert forall|j: int| 0 <= j < i implies self.headers@[j].height != height by {
                        assert(self.headers@.take(i as int)[j] == self.headers@[j]);
                    }
                }
                let r = &self.headers[i];
                assert(is_first_at_height(self.headers(), height, i as int) && *r == self.headers()[i as int]);
                return Some(r);
            }
            assert(self.headers@.take(i + 1) == self.headers@.take(i as int).push(self.headers@[i as int]));
            i = i + 1;
        }
        assert(self.headers@.take(i as int) == self.headers@);
        None
    }

    /// The most recently pushed header.
    pub fn latest(&self) -> (r: Option<&Header>)
        ensures
            match r {
                Some(h) => self.headers().len() > 0 && *h == self.headers().last(),
                None => self.headers().len() == 0,
            },
    {
        self.headers.last()
    }

    /// Marks the first header of the given height as finalized; false when
    /// no header of that height is cached.
    pub fn mark_finalized(&mut self, height: u64) -> (found: bool)
        ensures
            found <==> !no_header_at(old(self).headers(), height),
            found ==> exists|i: int| is_first_at_height(old(self).headers(), height, i)
                && final(self).headers() == old(self).headers().update(
                    i,
                    Header { is_finalized: true, ..old(self).headers()[i] },
                ),
            !found ==> final(self).headers() == old(self).headers(),
            final(self).headers() == spec_mark(old(self).headers(), height),
    {
        proof { use_type_invariant(&*self); }
        let mut i: usize = 0;
        while i < self.headers.len()
            invariant
                i <= self.headers.len(),
                self.headers@ == old(self).headers@,
                self.headers.len() <= MAX_CACHED_HEADERS,
                no_header_at(self.headers@.take(i as int), height),
            decreases self.headers.len() - i,
        {
            if self.headers[i].height == height {
                let ghost before = self.headers@;
                assert(is_first_at_height(before, height, i as int)) by {
                    assert forall|j: int| 0 <= j < i implies before[j].height != height by {
                        assert(before.take(i as int)[j] == before[j]);
                    }
                }
                let mut headers: Vec<Header> = Vec::new();
        std::mem::swap(&mut headers, &mut self.headers);
                let mut h = headers[i];
                h.is_finalized = true;
                headers.set(i, h);
                self.headers = headers;
                assert(!no_header_at(before, height));
                return true;
            }
            assert(self.headers@.take(i + 1) == self.headers@.take(i as int).push(self.headers@[i as int]));
            i = i + 1;
        }
        assert(self.headers@.take(i as int) == self.headers@);
        false
    }

    pub fn len(&self) -> (n: usize)
        ensures
            n == self.headers().len(),
            n <= MAX_CACHED_HEADERS,
    {
        proof { use_type_invariant(self); }
        self.headers.len()
    }

    pub fn is_empty(&self) -> (b: bool)
        ensures
            b <==> self.headers().len() == 0,
    {
        self.headers.len() == 0
    }

    pub fn finalized_count(&self) -> (n: usize)
        ensures
            n == count_finalized(self.headers()),
    {
        let mut n: usize = 0;
        let mut i: usize = 0;
        while i < self.headers.len()
            invariant
                i <= self.headers.len(),
                n == count_finalized(self.headers@.take(i as int)),
                n <= i,
            decreases self.headers.len() - i,
        {
            assert(self.headers@.take(i + 1).drop_last() == self.headers@.take(i as int));
            if self.headers[i].is_finalized {
                n = n + 1;
            }
            i = i + 1;
        }
        assert(self.headers@.take(i as int) == self.headers@);
        n
    }
}

/// The cache never holds more than its bound, and a push always makes the
/// pushed header the latest one while keeping the newer ones in order.
pub proof fn lemma_push_keeps_bound_and_latest(s: Seq<Header>, h: Header)
    requires
        s.len() <= MAX_CACHED_HEADERS,
    ensures
        spec_push(s, h).len() <= MAX_CACHED_HEADERS,
        spec_push(s, h).last() == h,
        s.len() < MAX_CACHED_HEADERS ==> spec_push(s, h).len() == s.len() + 1,
        s.len() == MAX_CACHED_HEADERS ==> spec_push(s, h).len() == MAX_CACHED_HEADERS,
        s.len() == MAX_CACHED_HEADERS ==> spec_push(s, h).take(s.len() - 1) == s.drop_first(),
{
    if s.len() == MAX_CACHED_HEADERS {
        assert(spec_push(s, h).take(s.len() - 1) =~= s.drop_first());
    }
}

/// Marking a header finalized never lowers the finalized count, and raises it
/// by one exactly when that header was not finalized before.
pub proof fn lemma_mark_finalized_count(s: Seq<Header>, i: int)
    requires
        0 <= i < s.len(),
    ensures
        count_finalized(s.update(i, Header { is_finalized: true, ..s[i] }))
            == count_finalized(s) + if s[i].is_finalized { 0nat } else { 1nat },
    decreases s.len(),
{
    let t = s.update(i, Header { is_finalized: true, ..s[i] });
    if i == s.len() - 1 {
        assert(t.drop_last() =~= s.drop_last());
    } else {
        lemma_mark_finalized_count(s.drop_last(), i);
        assert(t.drop_last() =~= s.drop_last().update(i, Header { is_finalized: true, ..s[i] }));
    }
}

/// The headers after pushing each of `hs` in turn onto `s`.
pub open spec fn push_all(s: Seq<Header>, hs: Seq<Header>) -> Seq<Header>
    decreases hs.len(),
{
    if hs.len() == 0 {
        s
    } else {
        spec_push(push_all(s, hs.drop_last()), hs.last())
    }
}

/// A cache filled by pushing `hs` from empty holds the last
/// `min(|hs|, MAX_CACHED_HEADERS)` of them, in push order: the oldest are
/// evicted first.
pub proof fn lemma_pushes_keep_latest(hs: Seq<Header>)
    ensures
        push_all(Seq::empty(), hs) == hs.subrange(
            if hs.len() > MAX_CACHED_HEADERS { hs.len() - MAX_CACHED_HEADERS } else { 0 },
            hs.len() as int,
        ),
        push_all(Seq::empty(), hs).len() == if hs.len() > MAX_CACHED_HEADERS { MAX_CACHED_HEADERS as nat } else { hs.len() },
    decreases hs.len(),
{
    let n = hs.len() as int;
    if n > 0 {
        let d = hs.drop_last();
        lemma_pushes_keep_latest(d);
        let p = push_all(Seq::empty(), d);
        if n - 1 >= MAX_CACHED_HEADERS {
            assert(p.drop_first().push(hs.last()) =~= hs.subrange(n - MAX_CACHED_HEADERS, n));
        } else {
            assert(p.push(hs.last()) =~= hs.subrange(0, n));
        }
    } else {
        assert(hs.subrange(0, 0) =~= Seq::<Header>::empty());
    }
}

/// One call on a cache: a push of a header, or the marking of a height.
pub enum CacheStep {
    Push(Header),
    Mark(u64),
}

/// A header with its finalized flag cleared.
pub open spec fn unflagged(h: Header) -> Header {
    Header { is_finalized: false, ..h }
}

/// The headers of `s` with their finalized flags cleared.
pub open spec fn unflag(s: Seq<Header>) -> Seq<Header> {
    s.map_values(|h: Header| unflagged(h))
}

/// The headers after running `steps` on an empty cache.
pub open spec fn run_steps(steps: Seq<CacheStep>) -> Seq<Header>
    decreases steps.len(),
{
    if steps.len() == 0 {
        Seq::empty()
    } else {
        let s = run_steps(steps.drop_last());
        match steps.last() {
            CacheStep::Push(h) => spec_push(s, h),
            CacheStep::Mark(height) => spec_mark(s, height),
        }
    }
}

/// The headers pushed by `steps`, in order.
pub open spec fn pushed(steps: Seq<CacheStep>) -> Seq<Header>
    decreases steps.len(),
{
    if steps.len() == 0 {
        Seq::empty()
    } else {
        match steps.last() {
            CacheStep::Push(h) => pushed(steps.drop_last()).push(h),
            CacheStep::Mark(_) => pushed(steps.drop_last()),
        }
    }
}

/// The last `min(|xs|, MAX_CACHED_HEADERS)` elements of `xs`.
pub open spec fn latest_window(xs: Seq<Header>) -> Seq<Header> {
    xs.subrange(
        if xs.len() > MAX_CACHED_HEADERS { xs.len() - MAX_CACHED_HEADERS } else { 0 },
        xs.len() as int,
    )
}

proof fn lemma_unflag_mark(s: Seq<Header>, height: u64)
    ensures
        unflag(spec_mark(s, height)) == unflag(s),
{
    if exists|i: int| is_first_at_height(s, height, i) {
        let i = choose|i: int| is_first_at_height(s, height, i);
        assert(unflag(spec_mark(s, height)) =~= unflag(s));
    }
}

proof fn lemma_unflag_push(s: Seq<Header>, h: Header)
    ensures
        unflag(spec_push(s, h)) == spec_push(unflag(s), unflagged(h)),
{
    assert(unflag(spec_push(s, h)) =~= spec_push(unflag(s), unflagged(h)));
}

proof fn lemma_window_push(xs: Seq<Header>, x: Header)
    ensures
        spec_push(latest_window(xs), x) == latest_window(xs.push(x)),
{
    let n = xs.len() as int;
    let w = latest_window(xs);
    if n >= MAX_CACHED_HEADERS {
        assert(w.drop_first().push(x) =~= latest_window(xs.push(x)));
    } else {
        assert(w.push(x) =~= latest_window(xs.push(x)));
    }
}

/// Whatever pushes and markings run on a fresh cache, it holds, flags aside,
/// exactly the last `min(n, MAX_CACHED_HEADERS)` of the `n` headers pushed,
/// in push order: the oldest are evicted first and marking changes only
/// flags.
pub proof fn lemma_steps_keep_latest(steps: Seq<CacheStep>)
    ensures
        unflag(run_steps(steps)) == latest_window(unflag(pushed(steps))),
        run_steps(steps).len() == if pushed(steps).len() > MAX_CACHED_HEADERS {
            MAX_CACHED_HEADERS as nat
        } else {
            pushed(steps).len()
        },
    decreases steps.len(),
{
    if steps.len() == 0 {
        assert(latest_window(unflag(pushed(steps))) =~= Seq::<Header>::empty());
        assert(unflag(run_steps(steps)) =~= Seq::<Header>::empty());
    } else {
        let d = steps.drop_last();
        lemma_steps_keep_latest(d);
        let s = run_steps(d);
        match steps.last() {
            CacheStep::Push(h) => {
                lemma_unflag_push(s, h);
                lemma_window_push(unflag(pushed(d)), unflagged(h));
                assert(unflag(pushed(d).push(h)) =~= unflag(pushed(d)).push(unflagged(h)));
            },
            CacheStep::Mark(height) => {
                lemma_unflag_mark(s, height);
                if exists|i: int| is_first_at_height(s, height, i) {
                    let i = choose|i: int| is_first_at_height(s, height, i);
                    assert(spec_mark(s, height).len() == s.len());
                }
            },
        }
    }
}

} // verus!
