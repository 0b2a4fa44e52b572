use vstd::prelude::*;

use crate::paginate::{PageRequest, PagerState, PagerView, Paginator, after_error, after_page};
use crate::paths::{path_of, target_path};
use crate::song::{RawEntry, SkipReason, Song, SongView, entry_song};

verus! {

/// Seconds a single image request may take.
pub const REQUEST_TIMEOUT_SECS: u64 = 10;

/// Retries of a transient failure before a download counts as failed.
pub const MAX_RETRIES: u32 = 3;

/// What to do for one song's thumbnail.
#[derive(Debug, PartialEq, Eq)]
pub enum DownloadPlan {
    /// The song has no image: nothing to fetch or write, and that is success.
    Nothing,
    /// Fetch `url` and write its body to `path`.
    Fetch { url: String, path: String },
}

/// A plan is right for a song when it fetches the first (largest) image to the
/// song's path, or does nothing where there is no image.
pub open spec fn plan_matches(p: DownloadPlan, s: SongView, base: Seq<char>) -> bool {
    if s.images.len() == 0 {
        p is Nothing
    } else {
        p matches DownloadPlan::Fetch { url, path } && url@ == s.images[0] && path@ == path_of(
            base,
            s.name,
            s.id,
        )
    }
}

/// Decides how a song's thumbnail is downloaded into `base_dir`.
pub fn plan_download(song: &Song, base_dir: &str) -> (r: DownloadPlan)
    ensures
        plan_matches(r, song@, base_dir@),
        (r is Nothing) <==> song.images@.len() == 0,
{
    if song.images.len() == 0 {
        DownloadPlan::Nothing
    } else {
        let url = song.images[0].clone();
        let path = target_path(base_dir, song.name.as_str(), song.id.as_str());
        DownloadPlan::Fetch { url, path }
    }
}

/// The target paths claimed so far in a run. A path is claimed once, so no
/// two downloads of a run write the same file.
#[derive(Debug, PartialEq, Eq)]
pub struct ClaimedPaths {
    paths: Vec<String>,
}

impl View for ClaimedPaths {
    type V = Seq<Seq<char>>;

    closed spec fn view(&self) -> Seq<Seq<char>> {
        self.paths@.map_values(|s: String| s@)
    }
}

impl ClaimedPaths {
    pub fn new() -> (r: ClaimedPaths)
        ensures
            r@ == Seq::<Seq<char>>::empty(),
    {
        let r = ClaimedPaths { paths: Vec::new() };
        assert(r@ =~= Seq::<Seq<char>>::empty());
        r
    }

    pub fn len(&self) -> (r: usize)
        ensures
            r == self@.len(),
    {
        self.paths.len()
    }

    pub fn contains(&self, path: &String) -> (r: bool)
        ensures
            r == self@.contains(path@),
    {
        let mut i: usize = 0;
        while i < self.paths.len()
            invariant
                i <= self.paths@.len(),
                forall|j: int| 0 <= j < i ==> self@[j] != path@,
            decreases self.paths@.len() - i,
        {
            if self.paths[i].eq(path) {
                assert(self@[i as int] == path@);
                return true;
            }
            i = i + 1;
        }
        false
    }

    /// Claims `path`; says whether it was free.
    pub fn claim(&mut self, path: String) -> (fresh: bool)
        ensures
            fresh == !old(self)@.contains(path@),
            final(self)@ == claim_spec(old(self)@, path@),
    {
        if self.contains(&path) {
            false
        } else {
            let ghost p = path@;
            self.paths.push(path);
            assert(self@ =~= old(self)@.push(p));
            true
        }
    }
}

pub open spec fn claim_spec(c: Seq<Seq<char>>, p: Seq<char>) -> Seq<Seq<char>> {
    if c.contains(p) {
        c
    } else {
        c.push(p)
    }
}

/// The claims after the songs of `items`, in order, have claimed their paths.
pub open spec fn claims_after(c: Seq<Seq<char>>, base: Seq<char>, items: Seq<RawEntry>) -> Seq<
    Seq<char>,
>
    decreases items.len(),
{
    if items.len() == 0 {
        c
    } else {
        let prev = claims_after(c, base, items.drop_last());
        match entry_song(items.last()) {
            Some(s) => claim_spec(prev, path_of(base, s.name, s.id)),
            None => prev,
        }
    }
}

/// The entries of `items` that give no song.
pub open spec fn count_skips(items: Seq<RawEntry>) -> nat
    decreases items.len(),
{
    if items.len() == 0 {
        0
    } else {
        count_skips(items.drop_last()) + if entry_song(items.last()) is None {
            1nat
        } else {
            0nat
        }
    }
}

/// A task to run: the song and what to do for it.
#[derive(Debug, PartialEq, Eq)]
pub struct DownloadTask {
    pub song: Song,
    pub plan: DownloadPlan,
}

/// What became of one entry of a page.
#[derive(Debug, PartialEq, Eq)]
pub enum Step {
    /// A download task was dispatched.
    Download(DownloadTask),
    /// The entry gave no song.
    Skipped(SkipReason),
    /// The song's path was already claimed in this run.
    Duplicate(Song),
}

/// The reason an entry that gives no song is skipped with.
pub open spec fn skip_reason_of(e: RawEntry) -> SkipReason {
    match e.track {
        Some(t) => SkipReason::MissingId { name: t.name },
        None => SkipReason::NotATrack,
    }
}

/// `s` is what an entry `e` gives when `prior` holds the paths claimed before.
pub open spec fn step_matches(s: Step, e: RawEntry, prior: Seq<Seq<char>>, base: Seq<char>) -> bool {
    match entry_song(e) {
        None => s == Step::Skipped(skip_reason_of(e)),
        Some(sv) => if prior.contains(path_of(base, sv.name, sv.id)) {
            s matches Step::Duplicate(song) && song@ == sv
        } else {
            s matches Step::Download(t) && t.song@ == sv && plan_matches(t.plan, sv, base)
        },
    }
}

/// A page of a remote listing.
#[derive(Debug, PartialEq, Eq)]
pub struct Page {
    pub items: Vec<RawEntry>,
    /// The size of the whole listing, as the source reports it.
    pub total: u32,
    /// Whether a page follows this one.
    pub has_next: bool,
}

/// Where a run stands.
#[derive(Debug, Clone, Copy, PartialEq, Eq)]
pub enum Phase {
    /// Pages are being fetched and tasks dispatched.
    Fetching,
    /// No page is left; dispatched tasks are still outstanding.
    Draining,
    /// No page is left and every task has reported.
    Done,
    /// The pagination was aborted.
    Failed,
}

/// The model of a run: its paginator and its counters.
pub struct PipelineView {
    pub pager: PagerView,
    /// Entries seen, whatever became of them.
    pub observed: nat,
    /// The listing's size as last reported.
    pub total: nat,
    pub dispatched: nat,
    pub skipped: nat,
    pub duplicates: nat,
    pub succeeded: nat,
    pub failed: nat,
}

pub open spec fn phase_of(v: PipelineView) -> Phase {
    match v.pager.state {
        PagerState::Fetching => Phase::Fetching,
        PagerState::Exhausted => if v.succeeded + v.failed == v.dispatched {
            Phase::Done
        } else {
            Phase::Draining
        },
        _ => Phase::Failed,
    }
}

/// A dispatched task reported; `ok` says whether its file was written.
pub open spec fn after_outcome(v: PipelineView, ok: bool) -> PipelineView {
    if ok {
        PipelineView { succeeded: v.succeeded + 1, ..v }
    } else {
        PipelineView { failed: v.failed + 1, ..v }
    }
}

/// The run after the given outcomes, in order.
pub open spec fn drain_all(v: PipelineView, outcomes: Seq<bool>) -> PipelineView
    decreases outcomes.len(),
{
    if outcomes.len() == 0 {
        v
    } else {
        drain_all(after_outcome(v, outcomes[0]), outcomes.drop_first())
    }
}

pub open spec fn count_true(s: Seq<bool>) -> nat
    decreases s.len(),
{
    if s.len() == 0 {
        0
    } else {
        (if s[0] {
            1nat
        } else {
            0nat
        }) + count_true(s.drop_first())
    }
}

/// One run over one listing: pagination, dispatch of a task per song, and the
/// tally of the tasks' outcomes.
pub struct Pipeline {
    pager: Paginator,
    observed: u64,
    total: u64,
    dispatched: u64,
    skipped: u64,
    duplicates: u64,
    succeeded: u64,
    failed: u64,
}

impl View for Pipeline {
    type V = PipelineView;

    closed spec fn view(&self) -> PipelineView {
        PipelineView {
            pager: self.pager@,
            observed: self.observed as nat,
            total: self.total as nat,
            dispatched: self.dispatched as nat,
            skipped: self.skipped as nat,
            duplicates: self.duplicates as nat,
            succeeded: self.succeeded as nat,
            failed: self.failed as nat,
        }
    }
}

impl Pipeline {
    pub closed spec fn wf(&self) -> bool {
        &&& self.pager.wf()
        &&& self.dispatched + self.skipped + self.duplicates == self.observed
        &&& self.succeeded + self.failed <= self.dispatched
    }

    pub fn new(limit: u32) -> (r: Pipeline)
        ensures
            r.wf(),
            r@.pager == crate::paginate::start_view(limit as nat),
            r@.observed == 0 && r@.total == 0 && r@.dispatched == 0 && r@.skipped == 0,
            r@.duplicates == 0 && r@.succeeded == 0 && r@.failed == 0,
    {
        Pipeline {
            pager: Paginator::new(limit),
            observed: 0,
            total: 0,
            dispatched: 0,
            skipped: 0,
            duplicates: 0,
            succeeded: 0,
            failed: 0,
        }
    }

    /// The next page to fetch, while the run is fetching.
    pub fn next_request(&self) -> (r: Option<PageRequest>)
        requires
            self.wf(),
        ensures
            crate::paginate::request_spec(self@.pager) matches Some((l, o)) ==> (r matches Some(q)
                && q.limit == l && q.offset == o),
            crate::paginate::request_spec(self@.pager) is None ==> r is None,
    {
        self.pager.request()
    }

    pub fn phase(&self) -> (r: Phase)
        requires
            self.wf(),
        ensures
            r == phase_of(self@),
    {
        if self.pager.is_fetching() {
            Phase::Fetching
        } else if self.pager.is_exhausted() {
            if self.succeeded + self.failed == self.dispatched {
                Phase::Done
            } else {
                Phase::Draining
            }
        } else {
            Phase::Failed
        }
    }

    pub fn observed(&self) -> (r: u64)
        ensures
            r == self@.observed,
    {
        self.observed
    }

    pub fn total(&self) -> (r: u64)
        ensures
            r == self@.total,
    {
        self.total
    }

    pub fn dispatched(&self) -> (r: u64)
        ensures
            r == self@.dispatched,
    {
        self.dispatched
    }

    pub fn succeeded(&self) -> (r: u64)
        ensures
            r == self@.succeeded,
    {
        self.succeeded
    }

    pub fn failed(&self) -> (r: u64)
        ensures
            r == self@.failed,
    {
        self.failed
    }

    pub fn skipped(&self) -> (r: u64)
        ensures
            r == self@.skipped,
    {
        self.skipped
    }

    pub fn duplicates(&self) -> (r: u64)
        ensures
            r == self@.duplicates,
    {
        self.duplicates
    }

    /// Takes in a page that arrived: each entry is converted, and a task is
    /// dispatched for each song whose path is still free in the run. The fetch
    /// counter advances by one per entry and takes the page's `total` as its
    /// length; the pagination moves on by the page's `has_next` alone.
    pub fn take_page(&mut self, claims: &mut ClaimedPaths, page: Page, base_dir: &str) -> (r: Vec<
        Step,
    >)
        requires
            old(self).wf(),
            old(self)@.observed + page.items@.len() <= u64::MAX,
        ensures
            final(self).wf(),
            r@.len() == page.items@.len(),
            forall|i: int|
                0 <= i < r@.len() ==> step_matches(
                    #[trigger] r@[i],
                    page.items@[i],
                    claims_after(old(claims)@, base_dir@, page.items@.take(i)),
                    base_dir@,
                ),
            final(claims)@ == claims_after(old(claims)@, base_dir@, page.items@),
            final(self)@ == (PipelineView {
                pager: after_page(old(self)@.pager, page.has_next),
                observed: old(self)@.observed + page.items@.len(),
                total: page.total as nat,
                dispatched: (old(self)@.dispatched + final(claims)@.len() - old(claims)@.len()) as nat,
                skipped: old(self)@.skipped + count_skips(page.items@),
                duplicates: (old(self)@.duplicates + page.items@.len() - count_skips(page.items@)
                    - (final(claims)@.len() - old(claims)@.len())) as nat,
                ..old(self)@
            }),
    {
        let ghost orig = page.items@;
        let ghost c0 = claims@;
        let ghost s0 = self@;
        let mut items = page.items;
        let n: usize = items.len();
        let mut steps: Vec<Step> = Vec::new();
        let mut i: usize = 0;
        assert(orig.take(0) =~= Seq::<RawEntry>::empty());
        while items.len() > 0
            invariant
                i + items@.len() == orig.len(),
                orig.len() == n,
                items@ == orig.subrange(i as int, orig.len() as int),
                steps@.len() == i,
                self.wf(),
                self.pager == old(self).pager,
                self.total == old(self).total,
                self.succeeded == s0.succeeded,
                self.failed == s0.failed,
                s0.observed + orig.len() <= u64::MAX,
                claims@ == claims_after(c0, base_dir@, orig.take(i as int)),
                c0.len() <= claims@.len(),
                self.observed == s0.observed + i,
                self.dispatched == s0.dispatched + (claims@.len() - c0.len()),
                self.skipped == s0.skipped + count_skips(orig.take(i as int)),
                forall|j: int|
                    0 <= j < i ==> step_matches(
                        #[trigger] steps@[j],
                        orig[j],
                        claims_after(c0, base_dir@, orig.take(j)),
                        base_dir@,
                    ),
            decreases items@.len(),
        {
            let e = items.remove(0);
            assert(e == orig[i as int]);
            let ghost prior = claims@;
            assert(orig.take(i + 1).drop_last() =~= orig.take(i as int));
            assert(orig.take(i + 1).last() == e);
            let step = match Song::try_from_entry(e) {
                Ok(song) => {
                    let path = target_path(base_dir, song.name.as_str(), song.id.as_str());
                    if claims.claim(path) {
                        let plan = plan_download(&song, base_dir);
                        self.dispatched = self.dispatched + 1;
                        Step::Download(DownloadTask { song, plan })
                    } else {
                        self.duplicates = self.duplicates + 1;
                        Step::Duplicate(song)
                    }
                },
                Err(reason) => {
                    self.skipped = self.skipped + 1;
                    Step::Skipped(reason)
                },
            };
            self.observed = self.observed + 1;
            steps.push(step);
            i = i + 1;
        }
        assert(orig.take(i as int) =~= orig);
        self.total = page.total as u64;
        self.pager.record_page(page.has_next);
        steps
    }

    /// A fetch failed: the run is aborted.
    pub fn fetch_failed(&mut self)
        requires
            old(self).wf(),
        ensures
            final(self).wf(),
            final(self)@ == (PipelineView { pager: after_error(old(self)@.pager), ..old(self)@ }),
    {
        self.pager.record_error();
    }

    /// A dispatched task reported.
    pub fn task_finished(&mut self, ok: bool)
        requires
            old(self).wf(),
            old(self)@.succeeded + old(self)@.failed < old(self)@.dispatched,
        ensures
            final(self).wf(),
            final(self)@ == after_outcome(old(self)@, ok),
    {
        if ok {
            self.succeeded = self.succeeded + 1;
        } else {
            self.failed = self.failed + 1;
        }
    }
}

/// Every dispatched task's outcome is taken in, failures included: once all
/// `N` outcomes of a drained run are in, of which `K` failed, the run is done
/// with exactly `N - K` files written.
pub proof fn lemma_drain_observes_all(v: PipelineView, outcomes: Seq<bool>)
    requires
        v.pager.state == PagerState::Exhausted,
        v.succeeded + v.failed + outcomes.len() == v.dispatched,
    ensures
        phase_of(drain_all(v, outcomes)) == Phase::Done,
        drain_all(v, outcomes).succeeded == v.succeeded + count_true(outcomes),
        drain_all(v, outcomes).failed == v.failed + (outcomes.len() - count_true(outcomes)),
        drain_all(v, outcomes).dispatched == v.dispatched,
    decreases outcomes.len(),
{
    if outcomes.len() > 0 {
        lemma_count_true_bound(outcomes.drop_first());
        lemma_drain_observes_all(after_outcome(v, outcomes[0]), outcomes.drop_first());
    }
}

proof fn lemma_count_true_bound(s: Seq<bool>)
    ensures
        count_true(s) <= s.len(),
    decreases s.len(),
{
    if s.len() > 0 {
        lemma_count_true_bound(s.drop_first());
    }
}

/// No target path is claimed twice in a run, so no two of its downloads
/// write the same file.
pub proof fn lemma_claims_never_repeat(c: Seq<Seq<char>>, base: Seq<char>, items: Seq<RawEntry>)
    requires
        c.no_duplicates(),
    ensures
        claims_after(c, base, items).no_duplicates(),
    decreases items.len(),
{
    if items.len() > 0 {
        lemma_claims_never_repeat(c, base, items.drop_last());
        let prev = claims_after(c, base, items.drop_last());
        if let Some(s) = entry_song(items.last()) {
            let p = path_of(base, s.name, s.id);
            if !prev.contains(p) {
                let next = prev.push(p);
                assert forall|i: int, j: int|
                    0 <= i < next.len() && 0 <= j < next.len() && i != j implies next[i]
                    != next[j] by {
                    if i == prev.len() {
                        assert(next[j] == prev[j]);
                    } else if j == prev.len() {
                        assert(next[i] == prev[i]);
                    }
                }
            }
        }
    }
}

} // verus!
