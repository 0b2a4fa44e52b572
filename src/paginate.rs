use vstd::prelude::*;

verus! {

/// Number of items asked for per page.
pub const PAGE_LIMIT: u32 = 50;

/// Where a pagination stands.
#[derive(Debug, Clone, Copy, PartialEq, Eq)]
pub enum PagerState {
    /// More pages are to be fetched.
    Fetching,
    /// A page said that no page follows it.
    Exhausted,
    /// A fetch failed: the pagination is aborted.
    Failed,
    /// The next offset does not fit the source's 32-bit offsets.
    OffsetOverflow,
}

/// The model of a paginator: the page size, the pages consumed so far, and
/// where it stands.
pub struct PagerView {
    pub limit: nat,
    pub pages: nat,
    pub state: PagerState,
}

/// A fetch to make: `limit` items from `offset` on.
#[derive(Debug, Clone, Copy, PartialEq, Eq)]
pub struct PageRequest {
    pub limit: u32,
    pub offset: u32,
}

pub open spec fn start_view(limit: nat) -> PagerView {
    PagerView { limit, pages: 0, state: PagerState::Fetching }
}

/// The fetch a paginator asks for next: `(limit, offset)`, or none once it
/// has stopped.
pub open spec fn request_spec(p: PagerView) -> Option<(nat, nat)> {
    if p.state == PagerState::Fetching {
        Some((p.limit, p.pages * p.limit))
    } else {
        None
    }
}

/// A page arrived with continuation flag `has_next`. Only that flag decides
/// whether the pagination stops; how many items the page held plays no part.
pub open spec fn after_page(p: PagerView, has_next: bool) -> PagerView {
    if p.state != PagerState::Fetching {
        p
    } else if !has_next {
        PagerView { pages: p.pages + 1, state: PagerState::Exhausted, ..p }
    } else if (p.pages + 1) * p.limit > u32::MAX {
        PagerView { pages: p.pages + 1, state: PagerState::OffsetOverflow, ..p }
    } else {
        PagerView { pages: p.pages + 1, ..p }
    }
}

/// A fetch failed.
pub open spec fn after_error(p: PagerView) -> PagerView {
    if p.state == PagerState::Fetching {
        PagerView { state: PagerState::Failed, ..p }
    } else {
        p
    }
}

/// The paginator after pages with the given continuation flags, in order.
pub open spec fn run_pages(p: PagerView, flags: Seq<bool>) -> PagerView
    decreases flags.len(),
{
    if flags.len() == 0 {
        p
    } else {
        run_pages(after_page(p, flags[0]), flags.drop_first())
    }
}

/// Requests fixed-size pages at advancing offsets until a page says that none
/// follows.
pub struct Paginator {
    limit: u32,
    offset: u32,
    pages: Ghost<nat>,
    state: PagerState,
}

impl View for Paginator {
    type V = PagerView;

    closed spec fn view(&self) -> PagerView {
        PagerView { limit: self.limit as nat, pages: self.pages@, state: self.state }
    }
}

impl Paginator {
    pub closed spec fn wf(&self) -> bool {
        self.state == PagerState::Fetching ==> self.offset == self.pages@ * self.limit
    }

    pub fn new(limit: u32) -> (r: Paginator)
        ensures
            r.wf(),
            r@ == start_view(limit as nat),
    {
        Paginator { limit, offset: 0, pages: Ghost(0), state: PagerState::Fetching }
    }

    /// The next fetch to make, if the pagination goes on.
    pub fn request(&self) -> (r: Option<PageRequest>)
        requires
            self.wf(),
        ensures
            request_spec(self@) matches Some((l, o)) ==> (r matches Some(q) && q.limit == l
                && q.offset == o),
            request_spec(self@) is None ==> r is None,
    {
        match self.state {
            PagerState::Fetching => Some(PageRequest { limit: self.limit, offset: self.offset }),
            _ => None,
        }
    }

    pub fn is_fetching(&self) -> (r: bool)
        ensures
            r == (self@.state == PagerState::Fetching),
    {
        match self.state {
            PagerState::Fetching => true,
            _ => false,
        }
    }

    pub fn is_exhausted(&self) -> (r: bool)
        ensures
            r == (self@.state == PagerState::Exhausted),
    {
        match self.state {
            PagerState::Exhausted => true,
            _ => false,
        }
    }

    /// Records a page that arrived, with its continuation flag.
    pub fn record_page(&mut self, has_next: bool)
        requires
            old(self).wf(),
        ensures
            final(self).wf(),
            final(self)@ == after_page(old(self)@, has_next),
    {
        match self.state {
            PagerState::Fetching => {},
            _ => return ,
        }
        let ghost next = self.pages@ + 1;
        assert(next * self.limit == self.offset + self.limit) by (nonlinear_arith)
            requires
                next == self.pages@ + 1,
                self.offset == self.pages@ * self.limit,
        ;
        self.pages = Ghost(next);
        if !has_next {
            self.state = PagerState::Exhausted;
        } else {
            match self.offset.checked_add(self.limit) {
                Some(o) => {
                    self.offset = o;
                },
                None => {
                    self.state = PagerState::OffsetOverflow;
                },
            }
        }
    }

    /// Records a failed fetch, which aborts the pagination.
    pub fn record_error(&mut self)
        requires
            old(self).wf(),
        ensures
            final(self).wf(),
            final(self)@ == after_error(old(self)@),
    {
        match self.state {
            PagerState::Fetching => {
                self.state = PagerState::Failed;
            },
            _ => {},
        }
    }
}

/// Once stopped, a paginator ignores further pages.
proof fn lemma_run_stopped(p: PagerView, flags: Seq<bool>)
    requires
        p.state != PagerState::Fetching,
    ensures
        run_pages(p, flags) == p,
    decreases flags.len(),
{
    if flags.len() > 0 {
        lemma_run_stopped(after_page(p, flags[0]), flags.drop_first());
    }
}

proof fn lemma_run_from(p: PagerView, flags: Seq<bool>)
    requires
        p.state == PagerState::Fetching,
        (p.pages + flags.len()) * p.limit <= u32::MAX,
    ensures
        run_pages(p, flags).limit == p.limit,
        (run_pages(p, flags).state == PagerState::Exhausted) <==> (exists|i: int|
            0 <= i < flags.len() && !flags[i]),
        (run_pages(p, flags).state == PagerState::Fetching) <==> (forall|i: int|
            0 <= i < flags.len() ==> flags[i]),
        (forall|i: int| 0 <= i < flags.len() ==> flags[i]) ==> run_pages(p, flags).pages == p.pages
            + flags.len(),
    decreases flags.len(),
{
    if flags.len() > 0 {
        let q = after_page(p, flags[0]);
        let rest = flags.drop_first();
        assert((p.pages + 1) * p.limit <= (p.pages + flags.len()) * p.limit) by (nonlinear_arith)
            requires
                flags.len() >= 1,
        ;
        if flags[0] {
            assert((q.pages + rest.len()) * q.limit == (p.pages + flags.len()) * p.limit);
            lemma_run_from(q, rest);
            assert forall|i: int| 0 <= i < rest.len() && !rest[i] implies (exists|j: int|
                0 <= j < flags.len() && !flags[j]) by {
                assert(flags[i + 1] == rest[i]);
            }
            assert forall|j: int| 0 <= j < flags.len() && !flags[j] implies (exists|i: int|
                0 <= i < rest.len() && !rest[i]) by {
                assert(j > 0);
                assert(rest[j - 1] == flags[j]);
            }
            assert((forall|i: int| 0 <= i < flags.len() ==> flags[i]) <==> (forall|i: int|
                0 <= i < rest.len() ==> rest[i])) by {
                if forall|i: int| 0 <= i < rest.len() ==> rest[i] {
                    assert forall|i: int| 0 <= i < flags.len() implies flags[i] by {
                        if i > 0 {
                            assert(flags[i] == rest[i - 1]);
                        }
                    }
                }
                if forall|i: int| 0 <= i < flags.len() ==> flags[i] {
                    assert forall|i: int| 0 <= i < rest.len() implies rest[i] by {
                        assert(flags[i + 1] == rest[i]);
                    }
                }
            }
        } else {
            lemma_run_stopped(q, rest);
        }
    }
}

/// A pagination stops at the first page that says no page follows, and only
/// there: pages with items or without, that say more follow, never end it.
/// While every page says more follow, it keeps asking.
pub proof fn lemma_stops_iff_last_page(limit: nat, flags: Seq<bool>)
    requires
        flags.len() * limit <= u32::MAX,
    ensures
        (run_pages(start_view(limit), flags).state == PagerState::Exhausted) <==> (exists|i: int|
            0 <= i < flags.len() && !flags[i]),
        (run_pages(start_view(limit), flags).state == PagerState::Fetching) <==> (forall|i: int|
            0 <= i < flags.len() ==> flags[i]),
{
    lemma_run_from(start_view(limit), flags);
}

/// After `n` pages that each said more follow, the next fetch asks for
/// `limit` items at offset `n * limit`.
pub proof fn lemma_offset_of_next_fetch(limit: nat, flags: Seq<bool>)
    requires
        flags.len() * limit <= u32::MAX,
        forall|i: int| 0 <= i < flags.len() ==> flags[i],
    ensures
        request_spec(run_pages(start_view(limit), flags)) == Some((limit, flags.len() * limit)),
{
    lemma_run_from(start_view(limit), flags);
}

} // verus!
