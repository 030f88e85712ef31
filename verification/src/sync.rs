//! The synchronizer: rebuilding a store from the remote source, one detail
//! request per member of the index, with a cap on the requests that are out
//! at the same time.
//!
//! The synchronizer makes no request itself. It is asked what to do next
//! ([`Synchronizer::poll`]), told how a request ended
//! ([`Synchronizer::complete`]), and hands the store over at the end
//! ([`Synchronizer::finish`]).

use vstd::prelude::*;
use crate::cache::{
    empty_store, find_record, lemma_upsert_distinct, lemma_upsert_keeps_others, well_formed,
    with_record, Api, ApiView, Cache, CacheView,
};
use crate::error::{result_view, CacheError, CacheErrorView, DetailFault};
use crate::fetch::{get_apis, get_details, get_headers, page_details, page_headers, page_members};
use crate::output::{Details, DetailsView};

verus! {

/// What a [`Synchronizer`] stands for in contracts.
pub struct RunView {
    /// How many requests may be out at the same time.
    pub cap: nat,
    /// The member names of the index, category by category.
    pub members: Seq<Seq<Seq<char>>>,
    /// The records collected so far.
    pub store: CacheView,
    /// Category of the next member to ask for.
    pub category: int,
    /// Place in its category of the next member to ask for.
    pub member: int,
    /// The requests that are out, each by category and place.
    pub outstanding: Seq<(int, int)>,
    /// For each category, the first failure met in it.
    pub failures: Seq<Option<CacheErrorView>>,
}

/// The request at `place` was made before the cursor of `run` got where it is.
pub open spec fn issued(run: RunView, place: (int, int)) -> bool {
    &&& 0 <= place.0 < run.members.len()
    &&& 0 <= place.1 < run.members[place.0].len()
    &&& place.0 < run.category || (place.0 == run.category && place.1 < run.member)
}

/// The state of a run is consistent; in particular no more requests are out
/// than the cap allows.
pub open spec fn well_formed_run(run: RunView) -> bool {
    &&& well_formed(run.store)
    &&& run.store.categories.len() == run.members.len()
    &&& run.failures.len() == run.members.len()
    &&& 0 <= run.category <= run.members.len()
    &&& 0 <= run.member
    &&& run.category < run.members.len() ==> run.member <= run.members[run.category].len()
    &&& run.category == run.members.len() ==> run.member == 0
    &&& run.outstanding.len() <= run.cap
    &&& run.outstanding.no_duplicates()
    &&& forall|i: int| 0 <= i < run.outstanding.len() ==> issued(run, #[trigger] run.outstanding[i])
}

/// The run at its start: nothing asked for, nothing collected.
pub open spec fn started(headers: Seq<Seq<char>>, members: Seq<Seq<Seq<char>>>, cap: nat) -> RunView {
    RunView {
        cap,
        members,
        store: empty_store(headers),
        category: 0,
        member: 0,
        outstanding: Seq::empty(),
        failures: Seq::new(members.len(), |k: int| None),
    }
}

/// The run with its cursor moved on to the next member that is still to be
/// asked for: past the ends of categories and past categories that failed.
pub open spec fn at_pending(run: RunView) -> RunView
    decreases run.members.len() - run.category,
{
    if run.category < 0 || run.category >= run.members.len() {
        run
    } else if run.failures[run.category] is None && run.member < run.members[run.category].len() {
        run
    } else {
        at_pending(RunView { category: run.category + 1, member: 0, ..run })
    }
}

/// What a [`Step`] stands for in contracts.
pub enum StepView {
    Fetch { category: int, member: int, name: Seq<char> },
    Wait,
    Done,
}

/// What the run does next, and the run after it.
///
/// With a member still to be asked for and a permit free, the member is asked
/// for. Else the run waits, as long as a member is to be asked for or a
/// request is out. Else it is done.
pub open spec fn polled(run: RunView) -> (StepView, RunView) {
    let at = at_pending(run);
    if at.category < at.members.len() && at.outstanding.len() < at.cap {
        (
            StepView::Fetch {
                category: at.category,
                member: at.member,
                name: at.members[at.category][at.member],
            },
            RunView {
                member: at.member + 1,
                outstanding: at.outstanding.push((at.category, at.member)),
                ..at
            },
        )
    } else if at.category < at.members.len() || at.outstanding.len() > 0 {
        (StepView::Wait, at)
    } else {
        (StepView::Done, at)
    }
}

/// The record that details make under a name: a detail that is not given is
/// left empty.
pub open spec fn record_with(name: Seq<char>, details: DetailsView) -> ApiView {
    ApiView {
        name,
        info: match details.info {
            Some(text) => text,
            None => Seq::empty(),
        },
        library: match details.library {
            Some(text) => text,
            None => Seq::empty(),
        },
        documentation: match details.documentation {
            Some(text) => text,
            None => Seq::empty(),
        },
    }
}

/// The run after the request at (`category`, `member`) has ended.
///
/// A request that is not out changes nothing. Else its permit is given back,
/// whatever the outcome. No outcome (the source has no page for the member)
/// is a skip. Details become a record of the category. A failure is kept as
/// the category's failure if it is the first there.
pub open spec fn settled(
    run: RunView,
    category: int,
    member: int,
    outcome: Option<Result<DetailsView, CacheErrorView>>,
) -> RunView {
    if !run.outstanding.contains((category, member)) {
        run
    } else {
        let rest = run.outstanding.remove(run.outstanding.index_of((category, member)));
        match outcome {
            None => RunView { outstanding: rest, ..run },
            Some(Ok(details)) => RunView {
                outstanding: rest,
                store: with_record(
                    run.store,
                    category,
                    record_with(run.members[category][member], details),
                ),
                ..run
            },
            Some(Err(error)) => RunView {
                outstanding: rest,
                failures: if run.failures[category] is None {
                    run.failures.update(category, Some(error))
                } else {
                    run.failures
                },
                ..run
            },
        }
    }
}

/// The place of the first category that failed, or the number of categories
/// where none did.
pub open spec fn first_failed(failures: Seq<Option<CacheErrorView>>) -> int
    decreases failures.len(),
{
    if failures.len() == 0 {
        0
    } else if failures[0] is Some {
        0
    } else {
        1 + first_failed(failures.skip(1))
    }
}

/// What a finished run gives: the store, or the failure of the first
/// category that failed.
pub open spec fn outcome_of_run(run: RunView) -> Result<CacheView, CacheErrorView> {
    let k = first_failed(run.failures);
    if 0 <= k < run.failures.len() && run.failures[k] is Some {
        Err(run.failures[k]->0)
    } else {
        Ok(run.store)
    }
}

/// A detail request to make: the member `name`, at place `member` of the
/// category at `category`.
pub struct DetailRequest {
    pub category: usize,
    pub member: usize,
    pub name: String,
}

/// What to do next in a run.
pub enum Step {
    /// Make this request, and ask again.
    Fetch(DetailRequest),
    /// Wait for a request that is out to end, report it, and ask again.
    Wait,
    /// Nothing is left to do.
    Done,
}

impl View for Step {
    type V = StepView;

    open spec fn view(&self) -> StepView {
        match self {
            Step::Fetch(request) => StepView::Fetch {
                category: request.category as int,
                member: request.member as int,
                name: request.name@,
            },
            Step::Wait => StepView::Wait,
            Step::Done => StepView::Done,
        }
    }
}

/// What a [`FetchOutcome`] stands for in contracts.
pub enum FetchOutcomeView {
    Unavailable,
    Failed,
    Page(Seq<char>),
}

/// How a detail request ended.
pub enum FetchOutcome {
    /// The source said that it has no page for the member.
    Unavailable,
    /// The request failed.
    Failed,
    /// The source answered with this page.
    Page(String),
}

impl View for FetchOutcome {
    type V = FetchOutcomeView;

    open spec fn view(&self) -> FetchOutcomeView {
        match self {
            FetchOutcome::Unavailable => FetchOutcomeView::Unavailable,
            FetchOutcome::Failed => FetchOutcomeView::Failed,
            FetchOutcome::Page(page) => FetchOutcomeView::Page(page@),
        }
    }
}

/// What the end of the request for `name` means for the run: a skip, the
/// details of the page, or a failure.
pub open spec fn outcome_of(name: Seq<char>, outcome: FetchOutcomeView) -> Option<
    Result<DetailsView, CacheErrorView>,
> {
    match outcome {
        FetchOutcomeView::Unavailable => None,
        FetchOutcomeView::Failed => Some(
            Err(CacheErrorView::DetailFetchFailed { name, fault: DetailFault::NoPage }),
        ),
        FetchOutcomeView::Page(page) => Some(page_details(name, page, true, true, true)),
    }
}

/// The plan and the state of one synchronization run.
pub struct Synchronizer {
    cap: usize,
    members: Vec<Vec<String>>,
    store: Cache,
    category: usize,
    member: usize,
    outstanding: Vec<(usize, usize)>,
    failures: Vec<Option<CacheError>>,
}

/// A place as the contracts have it.
pub open spec fn place_view(place: (usize, usize)) -> (int, int) {
    (place.0 as int, place.1 as int)
}

impl View for Synchronizer {
    type V = RunView;

    closed spec fn view(&self) -> RunView {
        RunView {
            cap: self.cap as nat,
            members: self.members.deep_view(),
            store: self.store@,
            category: self.category as int,
            member: self.member as int,
            outstanding: self.outstanding@.map_values(|place: (usize, usize)| place_view(place)),
            failures: self.failures.deep_view(),
        }
    }
}

impl DeepView for Synchronizer {
    type V = RunView;

    open spec fn deep_view(&self) -> RunView {
        self@
    }
}

/// How a run starts from what the fetch of the index page gave: with no page
/// the source is unreachable; else the page's headers and members are read,
/// and must come in equal numbers.
pub open spec fn started_from(index: Option<Seq<char>>, cap: nat) -> Result<RunView, CacheErrorView> {
    match index {
        None => Err(CacheErrorView::SourceUnreachable),
        Some(page) => match page_headers(page) {
            Err(error) => Err(error),
            Ok(headers) => match page_members(page) {
                Err(error) => Err(error),
                Ok(members) => if headers.len() == members.len() {
                    Ok(started(headers, members, cap))
                } else {
                    Err(CacheErrorView::MisalignedIndex)
                },
            },
        },
    }
}

/// Makes the record of `name` out of details: a detail that is not given is
/// left empty.
pub fn make_record(name: String, details: Details) -> (api: Api)
    ensures
        api@ == record_with(name@, details@),
{
    let info = match details.info {
        Some(text) => text,
        None => String::new(),
    };
    let library = match details.library {
        Some(text) => text,
        None => String::new(),
    };
    let documentation = match details.documentation {
        Some(text) => text,
        None => String::new(),
    };
    Api::new(name, info, library, documentation)
}

impl Synchronizer {
    /// The state of the run is consistent; in particular no more requests
    /// are out than the cap allows.
    pub open spec fn wf(&self) -> bool {
        well_formed_run(self@)
    }

    /// Starts a run over the index made of `headers` and `members`, with at
    /// most `max_concurrency` requests out at the same time. Fails where the
    /// index lists headers and categories in different numbers.
    pub fn new(headers: Vec<String>, members: Vec<Vec<String>>, max_concurrency: usize) -> (made: Result<
        Synchronizer,
        CacheError,
    >)
        ensures
            match made {
                Ok(run) => {
                    &&& headers.len() == members.len()
                    &&& run@ == started(headers.deep_view(), members.deep_view(), max_concurrency as nat)
                    &&& run.wf()
                },
                Err(error) => headers.len() != members.len() && error@
                    == CacheErrorView::MisalignedIndex,
            },
    {
        if headers.len() != members.len() {
            return Err(CacheError::MisalignedIndex);
        }
        let ghost wanted = started(headers.deep_view(), members.deep_view(), max_concurrency as nat);
        let store = Cache::with_headers(headers);
        let mut failures: Vec<Option<CacheError>> = Vec::new();
        let mut k: usize = 0;
        while k < members.len()
            invariant
                k <= members.len(),
                failures.len() == k,
                forall|i: int| 0 <= i < k ==> (#[trigger] failures[i]) is None,
            decreases members.len() - k,
        {
            failures.push(None);
            k += 1;
        }
        let run = Synchronizer {
            cap: max_concurrency,
            members,
            store,
            category: 0,
            member: 0,
            outstanding: Vec::new(),
            failures,
        };
        proof {
            assert(run@.outstanding =~= wanted.outstanding);
            assert(run@.failures =~= wanted.failures);
        }
        Ok(run)
    }

    /// Starts a run from what the fetch of the index page gave: the page, or
    /// nothing where the source could not be reached. At most
    /// `max_concurrency` requests will be out at the same time.
    pub fn start(index: Option<&str>, max_concurrency: usize) -> (made: Result<Synchronizer, CacheError>)
        ensures
            result_view(made) == started_from(
                match index {
                    Some(page) => Some(page@),
                    None => None,
                },
                max_concurrency as nat,
            ),
            made matches Ok(run) ==> run.wf(),
    {
        match index {
            None => Err(CacheError::SourceUnreachable),
            Some(page) => match get_headers(page) {
                Err(error) => Err(error),
                Ok(headers) => match get_apis(page) {
                    Err(error) => Err(error),
                    Ok(members) => Synchronizer::new(headers, members, max_concurrency),
                },
            },
        }
    }

    /// The headers of the index, in its order.
    pub fn headers(&self) -> (headers: Vec<String>)
        ensures
            headers.deep_view() == self@.store.headers,
    {
        self.store.get_headers()
    }

    /// The number of members that the index lists in the category at
    /// `category`; none where there is no such category.
    pub fn members_in(&self, category: usize) -> (count: usize)
        ensures
            count == (if category < self@.members.len() {
                self@.members[category as int].len()
            } else {
                0
            }),
    {
        if category < self.members.len() {
            assert(self@.members[category as int] == self.members[category as int].deep_view());
            self.members[category].len()
        } else {
            0
        }
    }

    /// The most requests that may be out at the same time.
    pub fn max_concurrency(&self) -> (cap: usize)
        ensures
            cap == self@.cap,
    {
        self.cap
    }

    /// The number of requests that are out.
    pub fn in_flight(&self) -> (count: usize)
        ensures
            count == self@.outstanding.len(),
    {
        self.outstanding.len()
    }

    /// Tells what to do next, and counts a request that it hands out as out.
    pub fn poll(&mut self) -> (step: Step)
        requires
            old(self).wf(),
        ensures
            final(self).wf(),
            (step@, final(self)@) == polled(old(self)@),
    {
        let ghost before = self@;
        while self.category < self.members.len() && (self.failures[self.category].is_some()
            || self.member >= self.members[self.category].len())
            invariant
                self.wf(),
                at_pending(self@) == at_pending(before),
            decreases self.members.len() - self.category,
        {
            let ghost here = self@;
            self.category += 1;
            self.member = 0;
            proof {
                assert(self@ == (RunView { category: here.category + 1, member: 0, ..here }));
                assert forall|i: int| 0 <= i < self@.outstanding.len() implies issued(
                    self@,
                    #[trigger] self@.outstanding[i],
                ) by {
                    assert(issued(here, here.outstanding[i]));
                }
            }
        }
        let ghost at = self@;
        assert(at == at_pending(before));
        if self.category < self.members.len() && self.outstanding.len() < self.cap {
            let request = DetailRequest {
                category: self.category,
                member: self.member,
                name: self.members[self.category][self.member].clone(),
            };
            self.outstanding.push((self.category, self.member));
            self.member += 1;
            proof {
                assert(self@.outstanding =~= at.outstanding.push((at.category, at.member)));
                assert(self@.members[at.category][at.member] == request.name@);
                lemma_polled_well_formed(before);
            }
            Step::Fetch(request)
        } else if self.category < self.members.len() || self.outstanding.len() > 0 {
            Step::Wait
        } else {
            Step::Done
        }
    }

    /// Takes note that the request at (`category`, `member`) has ended with
    /// `outcome`: nothing where the source has no page for the member, else
    /// the details found or the failure. Tells whether that request was out;
    /// where it was not, nothing changes.
    pub fn settle(
        &mut self,
        category: usize,
        member: usize,
        outcome: Option<Result<Details, CacheError>>,
    ) -> (known: bool)
        requires
            old(self).wf(),
        ensures
            final(self).wf(),
            known == old(self)@.outstanding.contains((category as int, member as int)),
            final(self)@ == settled(
                old(self)@,
                category as int,
                member as int,
                match outcome {
                    Some(result) => Some(result_view(result)),
                    None => None,
                },
            ),
    {
        let ghost before = self@;
        let ghost place = (category as int, member as int);
        let mut at: usize = 0;
        while at < self.outstanding.len() && !(self.outstanding[at].0 == category
            && self.outstanding[at].1 == member)
            invariant
                at <= self.outstanding.len(),
                self@ == before,
                self.wf(),
                place == (category as int, member as int),
                forall|i: int| 0 <= i < at ==> #[trigger] before.outstanding[i] != place,
            decreases self.outstanding.len() - at,
        {
            proof {
                let held = self.outstanding[at as int];
                assert(before.outstanding[at as int] == place_view(held));
                assert(held.0 != category || held.1 != member);
            }
            at += 1;
        }
        if at >= self.outstanding.len() {
            return false;
        }
        proof {
            assert(before.outstanding[at as int] == place_view(self.outstanding[at as int]));
            assert(before.outstanding[at as int] == place);
            assert(before.outstanding.contains(place));
            let chosen = before.outstanding.index_of(place);
            assert(chosen == at);
            assert(issued(before, before.outstanding[at as int]));
        }
        self.outstanding.remove(at);
        proof {
            assert(self@.outstanding =~= before.outstanding.remove(at as int));
            lemma_settled_well_formed(before, category as int, member as int, None);
        }
        match outcome {
            None => {},
            Some(Ok(details)) => {
                let api = make_record(self.members[category][member].clone(), details);
                assert(self.members.deep_view()[category as int][member as int] == api@.name);
                self.store.insert(category, api);
            },
            Some(Err(error)) => {
                if self.failures[category].is_none() {
                    self.failures[category] = Some(error);
                    assert(self@.failures =~= before.failures.update(category as int, Some(error@)));
                }
            },
        }
        true
    }

    /// Takes note that the request at (`category`, `member`) has ended as
    /// `outcome` says; a page is read for all three details. Tells whether
    /// that request was out; where it was not, nothing changes.
    pub fn complete(&mut self, category: usize, member: usize, outcome: FetchOutcome) -> (known: bool)
        requires
            old(self).wf(),
        ensures
            final(self).wf(),
            known == old(self)@.outstanding.contains((category as int, member as int)),
            final(self)@ == settled(
                old(self)@,
                category as int,
                member as int,
                outcome_of(old(self)@.members[category as int][member as int], outcome@),
            ),
    {
        if !(category < self.members.len() && member < self.members[category].len()) {
            proof {
                if self@.outstanding.contains((category as int, member as int)) {
                    let i = self@.outstanding.index_of((category as int, member as int));
                    assert(issued(self@, self@.outstanding[i]));
                }
            }
            return false;
        }
        let name = &self.members[category][member];
        assert(name@ == self@.members[category as int][member as int]);
        let result = match outcome {
            FetchOutcome::Unavailable => None,
            FetchOutcome::Failed => Some(
                Err(CacheError::DetailFetchFailed { name: name.clone(), fault: DetailFault::NoPage }),
            ),
            FetchOutcome::Page(page) => Some(get_details(name, page.as_str(), true, true, true)),
        };
        self.settle(category, member, result)
    }

    /// Ends the run: hands over the store as it stands, or the failure of the
    /// first category that failed.
    pub fn finish(self) -> (ended: Result<Cache, CacheError>)
        requires
            self.wf(),
        ensures
            result_view(ended) == outcome_of_run(self@),
            ended matches Ok(store) ==> store.wf(),
    {
        let ghost run = self@;
        let ghost all = run.failures;
        let mut failures = self.failures;
        let mut k: usize = 0;
        assert(all.skip(0) =~= all);
        while k < failures.len()
            invariant
                k <= failures.len(),
                run == self@,
                all == run.failures,
                failures.deep_view() == all,
                first_failed(all) == k + first_failed(all.skip(k as int)),
                forall|i: int| 0 <= i < k ==> (#[trigger] all[i]) is None,
            decreases failures.len() - k,
        {
            if failures[k].is_some() {
                assert(all.skip(k as int)[0] == all[k as int]);
                assert(all[k as int] == failures[k as int].deep_view());
                let found = failures.swap_remove(k);
                proof {
                    assert(first_failed(all.skip(k as int)) == 0);
                    assert(first_failed(all) == k);
                    assert(found.deep_view() == all[k as int]);
                }
                return Err(found.unwrap());
            }
            proof {
                assert(all[k as int] == failures[k as int].deep_view());
                assert(all.skip(k as int)[0] == all[k as int]);
                assert(all.skip(k as int).skip(1) =~= all.skip(k + 1));
            }
            k += 1;
        }
        assert(all.skip(k as int).len() == 0);
        Ok(self.store)
    }
}

/// What happens in a run: it is asked what to do next, or told how a request
/// ended.
pub enum RunEvent {
    Poll,
    Settle { category: int, member: int, outcome: Option<Result<DetailsView, CacheErrorView>> },
}

/// The run after one event.
pub open spec fn applied(run: RunView, event: RunEvent) -> RunView {
    match event {
        RunEvent::Poll => polled(run).1,
        RunEvent::Settle { category, member, outcome } => settled(run, category, member, outcome),
    }
}

/// The run after a sequence of events.
pub open spec fn after(run: RunView, events: Seq<RunEvent>) -> RunView
    decreases events.len(),
{
    if events.len() == 0 {
        run
    } else {
        applied(after(run, events.drop_last()), events.last())
    }
}

/// A run over an aligned index starts consistent.
pub proof fn lemma_started_well_formed(headers: Seq<Seq<char>>, members: Seq<Seq<Seq<char>>>, cap: nat)
    requires
        headers.len() == members.len(),
    ensures
        well_formed_run(started(headers, members, cap)),
{
}

/// Moving the cursor on keeps a run consistent.
pub proof fn lemma_at_pending_well_formed(run: RunView)
    requires
        well_formed_run(run),
    ensures
        well_formed_run(at_pending(run)),
        at_pending(run).category < run.members.len() ==> at_pending(run).member
            < run.members[at_pending(run).category].len(),
    decreases run.members.len() - run.category,
{
    if run.category >= run.members.len() {
    } else if run.failures[run.category] is None && run.member < run.members[run.category].len() {
    } else {
        let next = RunView { category: run.category + 1, member: 0, ..run };
        assert forall|i: int| 0 <= i < next.outstanding.len() implies issued(
            next,
            #[trigger] next.outstanding[i],
        ) by {
            assert(issued(run, run.outstanding[i]));
        }
        lemma_at_pending_well_formed(next);
    }
}

/// Asking what to do next keeps a run consistent.
pub proof fn lemma_polled_well_formed(run: RunView)
    requires
        well_formed_run(run),
    ensures
        well_formed_run(polled(run).1),
        polled(run).1.cap == run.cap,
{
    lemma_at_pending_well_formed(run);
    lemma_at_pending_keeps(run);
    let at = at_pending(run);
    let next = polled(run).1;
    if at.category < at.members.len() && at.outstanding.len() < at.cap {
        assert forall|i: int| 0 <= i < next.outstanding.len() implies issued(
            next,
            #[trigger] next.outstanding[i],
        ) by {
            if i < at.outstanding.len() {
                assert(issued(at, at.outstanding[i]));
            }
        }
        assert forall|i: int, j: int|
            0 <= i < next.outstanding.len() && 0 <= j < next.outstanding.len() && i != j implies next.outstanding[i]
            != next.outstanding[j] by {
            if i < at.outstanding.len() {
                assert(issued(at, at.outstanding[i]));
            }
            if j < at.outstanding.len() {
                assert(issued(at, at.outstanding[j]));
            }
        }
    }
}

/// Taking note of the end of a request keeps a run consistent, and gives
/// the request's permit back where the request was out.
pub proof fn lemma_settled_well_formed(
    run: RunView,
    category: int,
    member: int,
    outcome: Option<Result<DetailsView, CacheErrorView>>,
)
    requires
        well_formed_run(run),
    ensures
        well_formed_run(settled(run, category, member, outcome)),
        settled(run, category, member, outcome).cap == run.cap,
        run.outstanding.contains((category, member)) ==> settled(
            run,
            category,
            member,
            outcome,
        ).outstanding.len() == run.outstanding.len() - 1,
{
    let place = (category, member);
    if run.outstanding.contains(place) {
        let at = run.outstanding.index_of(place);
        let rest = run.outstanding.remove(at);
        let next = settled(run, category, member, outcome);
        assert(next.outstanding == rest);
        assert(issued(run, run.outstanding[at]));
        assert forall|i: int| 0 <= i < rest.len() implies issued(next, #[trigger] rest[i]) by {
            if i < at {
                assert(issued(run, run.outstanding[i]));
            } else {
                assert(issued(run, run.outstanding[i + 1]));
            }
        }
        assert forall|i: int, j: int|
            0 <= i < rest.len() && 0 <= j < rest.len() && i != j implies rest[i] != rest[j] by {
            let oi = if i < at { i } else { i + 1 };
            let oj = if j < at { j } else { j + 1 };
            assert(run.outstanding[oi] != run.outstanding[oj]);
        }
        match outcome {
            Some(Ok(details)) => {
                lemma_upsert_distinct(
                    run.store.categories[category],
                    record_with(run.members[category][member], details),
                );
            },
            _ => {},
        }
    }
}

/// Concurrency cap: from the start of a run and through whatever is asked
/// and reported in whatever order, no more requests are out than the cap
/// allows.
pub proof fn lemma_cap_never_exceeded(
    headers: Seq<Seq<char>>,
    members: Seq<Seq<Seq<char>>>,
    cap: nat,
    events: Seq<RunEvent>,
)
    requires
        headers.len() == members.len(),
    ensures
        well_formed_run(after(started(headers, members, cap), events)),
        after(started(headers, members, cap), events).cap == cap,
        after(started(headers, members, cap), events).outstanding.len() <= cap,
    decreases events.len(),
{
    let start = started(headers, members, cap);
    if events.len() == 0 {
        lemma_started_well_formed(headers, members, cap);
    } else {
        lemma_cap_never_exceeded(headers, members, cap, events.drop_last());
        let before = after(start, events.drop_last());
        match events.last() {
            RunEvent::Poll => {
                lemma_polled_well_formed(before);
            },
            RunEvent::Settle { category, member, outcome } => {
                lemma_settled_well_formed(before, category, member, outcome);
            },
        }
    }
}

/// A request that was out and ends with details leaves the member's record
/// in its category, to be found under the member's name; what is found
/// under other names of the category stays as it was.
pub proof fn lemma_settled_record_found(
    run: RunView,
    category: int,
    member: int,
    details: DetailsView,
    other: Seq<char>,
)
    requires
        well_formed_run(run),
        run.outstanding.contains((category, member)),
    ensures
        find_record(
            settled(run, category, member, Some(Ok(details))).store.categories[category],
            run.members[category][member],
        ) == Some(record_with(run.members[category][member], details)),
        other != run.members[category][member] ==> find_record(
            settled(run, category, member, Some(Ok(details))).store.categories[category],
            other,
        ) == find_record(run.store.categories[category], other),
{
    let at = run.outstanding.index_of((category, member));
    assert(issued(run, run.outstanding[at]));
    let record = record_with(run.members[category][member], details);
    lemma_upsert_distinct(run.store.categories[category], record);
    if other != run.members[category][member] {
        lemma_upsert_keeps_others(run.store.categories[category], record, other);
    }
}

/// Every record collected carries the name of a member that the index lists
/// in the record's category.
pub open spec fn store_within_index(run: RunView) -> bool {
    forall|k: int, i: int|
        0 <= k < run.store.categories.len() && 0 <= i < run.store.categories[k].len() ==> member_named(
            run,
            k,
            (#[trigger] run.store.categories[k][i]).name,
        )
}

/// The index lists a member `name` in the category at `k`.
pub open spec fn member_named(run: RunView, k: int, name: Seq<char>) -> bool {
    exists|m: int| 0 <= m < run.members[k].len() && #[trigger] run.members[k][m] == name
}

/// No event lets a foreign name in: a store that holds names of the index
/// alone still does so after the event.
pub proof fn lemma_applied_within_index(run: RunView, event: RunEvent)
    requires
        well_formed_run(run),
        store_within_index(run),
    ensures
        store_within_index(applied(run, event)),
{
    let next = applied(run, event);
    lemma_at_pending_keeps(run);
    match event {
        RunEvent::Poll => {
            assert forall|k: int, i: int|
                0 <= k < next.store.categories.len() && 0 <= i < next.store.categories[k].len() implies member_named(
                next,
                k,
                (#[trigger] next.store.categories[k][i]).name,
            ) by {
                let name = run.store.categories[k][i].name;
                assert(member_named(run, k, name));
                let m = choose|m: int| 0 <= m < run.members[k].len() && #[trigger] run.members[k][m] == name;
                assert(next.members[k][m] == name);
            }
        },
        RunEvent::Settle { category, member, outcome } => {
            if run.outstanding.contains((category, member)) {
                let at = run.outstanding.index_of((category, member));
                assert(issued(run, run.outstanding[at]));
                assert forall|k: int, i: int|
                    0 <= k < next.store.categories.len() && 0 <= i < next.store.categories[k].len() implies member_named(
                    next,
                    k,
                    (#[trigger] next.store.categories[k][i]).name,
                ) by {
                    let name = next.store.categories[k][i].name;
                    let fresh = outcome matches Some(Ok(details)) && k == category && (i
                        >= run.store.categories[k].len() || run.store.categories[k][i]
                        != next.store.categories[k][i]);
                    if fresh {
                        assert(name == run.members[category][member]);
                        assert(next.members[k][member] == name);
                    } else {
                        assert(run.store.categories[k][i].name == name);
                        assert(member_named(run, k, name));
                        let m = choose|m: int|
                            0 <= m < run.members[k].len() && #[trigger] run.members[k][m] == name;
                        assert(next.members[k][m] == name);
                    }
                }
            }
        },
    }
}

/// From the start of a run and through whatever is asked and reported, the
/// store holds no record but under the name of a member that the index
/// lists in the record's category.
pub proof fn lemma_store_within_index(
    headers: Seq<Seq<char>>,
    members: Seq<Seq<Seq<char>>>,
    cap: nat,
    events: Seq<RunEvent>,
)
    requires
        headers.len() == members.len(),
    ensures
        store_within_index(after(started(headers, members, cap), events)),
    decreases events.len(),
{
    if events.len() > 0 {
        lemma_store_within_index(headers, members, cap, events.drop_last());
        lemma_cap_never_exceeded(headers, members, cap, events.drop_last());
        lemma_applied_within_index(
            after(started(headers, members, cap), events.drop_last()),
            events.last(),
        );
    }
}

/// A run that waits has something to wait for: with a cap of one or more, a
/// request is out whenever the run says to wait.
pub proof fn lemma_wait_has_request_out(run: RunView)
    requires
        well_formed_run(run),
        run.cap >= 1,
        polled(run).0 is Wait,
    ensures
        polled(run).1.outstanding.len() >= 1,
{
    lemma_at_pending_keeps(run);
}

/// Moving the cursor on changes nothing but the cursor.
pub proof fn lemma_at_pending_keeps(run: RunView)
    ensures
        at_pending(run).cap == run.cap,
        at_pending(run).outstanding == run.outstanding,
        at_pending(run).members == run.members,
        at_pending(run).store == run.store,
        at_pending(run).failures == run.failures,
    decreases run.members.len() - run.category,
{
    if run.category < 0 || run.category >= run.members.len() {
    } else if run.failures[run.category] is None && run.member < run.members[run.category].len() {
    } else {
        lemma_at_pending_keeps(RunView { category: run.category + 1, member: 0, ..run });
    }
}

} // verus!
