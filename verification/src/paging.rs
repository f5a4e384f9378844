//! Fetching a whole mylist, page by page.
//!
//! The walk is a state machine. It names the request to send, takes what
//! came of it, and either names the next request or ends. Pages are asked
//! for one at a time and in order, starting at page 1; a page is asked for
//! only when the one before it has arrived and announced a further page.
//! The first failure ends the walk, and what had been gathered is dropped.

use crate::error::Error;
use crate::model::{
    Item, MylistDetail, MylistDetailView, MylistResponse, NicoMeta, NicoResult, Page, PageView,
};
use crate::request::{PageRequest, PAGE_SIZE};
use vstd::prelude::*;

verus! {

/// A request for one page as a mathematical value.
pub struct PageRequestView {
    pub id: nat,
    pub page_size: nat,
    pub page: nat,
}

impl View for PageRequest {
    type V = PageRequestView;

    open spec fn view(&self) -> PageRequestView {
        PageRequestView {
            id: self.id as nat,
            page_size: self.page_size as nat,
            page: self.page as nat,
        }
    }
}

/// Whether a page announces a further one. A page without a payload
/// announces nothing.
pub open spec fn announces_next(page: PageView) -> bool {
    match page.data {
        Some(detail) => detail.has_next,
        None => false,
    }
}

/// The items that a page brings. A page without a payload brings none.
pub open spec fn page_items(page: PageView) -> Seq<Item> {
    match page.data {
        Some(detail) => detail.items,
        None => Seq::empty(),
    }
}

/// The items of several pages, in page order, and within a page in the
/// order in which the server gave them.
pub open spec fn items_of(pages: Seq<PageView>) -> Seq<Item>
    decreases pages.len(),
{
    if pages.len() == 0 {
        Seq::empty()
    } else {
        page_items(pages[0]) + items_of(pages.drop_first())
    }
}

/// The first page with the items of the later pages added behind its own.
/// Nothing else of the first page changes: the status block and the
/// description of the mylist, `has_next` included, stay as page 1 had them.
pub open spec fn gathered(meta: NicoMeta, first: MylistDetailView, extra: Seq<Item>) -> PageView {
    PageView { meta, data: Some(MylistDetailView { items: first.items + extra, ..first }) }
}

/// Where a walk stands, as a mathematical value.
pub enum PhaseView {
    /// Page 1 is awaited.
    FetchingFirst,
    /// Page 1 has come and announced more; `page` is awaited. `extra` holds
    /// the items of the pages after the first that have come so far.
    Accumulating { page: nat, meta: NicoMeta, first: MylistDetailView, extra: Seq<Item> },
    /// The walk has ended with this result.
    Done(PageView),
    /// The walk has ended with this failure.
    Failed(Error),
}

/// A walk through the pages of mylist `id`, as a mathematical value.
pub struct WalkView {
    pub id: nat,
    pub phase: PhaseView,
}

impl WalkView {
    /// The walk before anything has come.
    pub open spec fn start(id: nat) -> WalkView {
        WalkView { id, phase: PhaseView::FetchingFirst }
    }

    /// The request whose answer the walk awaits; none when it has ended.
    pub open spec fn pending(self) -> Option<PageRequestView> {
        match self.phase {
            PhaseView::FetchingFirst => Some(
                PageRequestView { id: self.id, page_size: PAGE_SIZE as nat, page: 1 },
            ),
            PhaseView::Accumulating { page, .. } => Some(
                PageRequestView { id: self.id, page_size: PAGE_SIZE as nat, page },
            ),
            PhaseView::Done(_) => None,
            PhaseView::Failed(_) => None,
        }
    }

    /// How the walk ended; none while it awaits a page.
    pub open spec fn outcome(self) -> Option<Result<PageView, Error>> {
        match self.phase {
            PhaseView::FetchingFirst => None,
            PhaseView::Accumulating { .. } => None,
            PhaseView::Done(result) => Some(Ok(result)),
            PhaseView::Failed(error) => Some(Err(error)),
        }
    }

    /// The walk after `event`, the answer to the pending request.
    ///
    /// - A failure ends the walk with that failure.
    /// - Page 1 without a payload, or announcing no further page, ends the
    ///   walk with page 1 as it came.
    /// - Any other page 1 is kept, and page 2 is awaited.
    /// - A later page that announces a further one adds its items and makes
    ///   way for the next.
    /// - A later page that announces none adds its items and ends the walk;
    ///   one without a payload ends it with what has been gathered.
    /// - A walk that has ended stays as it is.
    pub open spec fn step(self, event: Result<PageView, Error>) -> WalkView {
        match self.phase {
            PhaseView::FetchingFirst => match event {
                Err(error) => WalkView { id: self.id, phase: PhaseView::Failed(error) },
                Ok(page) => match page.data {
                    Some(detail) if detail.has_next => WalkView {
                        id: self.id,
                        phase: PhaseView::Accumulating {
                            page: 2,
                            meta: page.meta,
                            first: detail,
                            extra: Seq::empty(),
                        },
                    },
                    _ => WalkView { id: self.id, phase: PhaseView::Done(page) },
                },
            },
            PhaseView::Accumulating { page, meta, first, extra } => match event {
                Err(error) => WalkView { id: self.id, phase: PhaseView::Failed(error) },
                Ok(next) => if announces_next(next) {
                    WalkView {
                        id: self.id,
                        phase: PhaseView::Accumulating {
                            page: page + 1,
                            meta,
                            first,
                            extra: extra + page_items(next),
                        },
                    }
                } else {
                    WalkView {
                        id: self.id,
                        phase: PhaseView::Done(gathered(meta, first, extra + page_items(next))),
                    }
                },
            },
            PhaseView::Done(_) => self,
            PhaseView::Failed(_) => self,
        }
    }

    /// The walk after the events, taken in order.
    pub open spec fn run(self, events: Seq<Result<PageView, Error>>) -> WalkView
        decreases events.len(),
    {
        if events.len() == 0 {
            self
        } else {
            self.step(events[0]).run(events.drop_first())
        }
    }

    /// The requests that the events answer, in the order in which they were
    /// sent. An event that comes after the walk has ended answers nothing.
    pub open spec fn requests(self, events: Seq<Result<PageView, Error>>) -> Seq<PageRequestView>
        decreases events.len(),
    {
        if events.len() == 0 {
            Seq::empty()
        } else {
            match self.pending() {
                Some(request) => seq![request] + self.step(events[0]).requests(
                    events.drop_first(),
                ),
                None => Seq::empty(),
            }
        }
    }
}

/// Where a walk stands.
#[derive(Debug)]
pub enum Phase {
    /// Page 1 is awaited.
    FetchingFirst,
    /// Page 1 has come and announced more; `page` is awaited. `extra` holds
    /// the items of the pages after the first that have come so far.
    Accumulating { page: usize, meta: NicoMeta, first: MylistDetail, extra: Vec<Item> },
    /// The walk has ended with this result.
    Done(Page),
    /// The walk has ended with this failure.
    Failed(Error),
}

impl View for Phase {
    type V = PhaseView;

    open spec fn view(&self) -> PhaseView {
        match *self {
            Phase::FetchingFirst => PhaseView::FetchingFirst,
            Phase::Accumulating { page, meta, first, extra } => PhaseView::Accumulating {
                page: page as nat,
                meta,
                first: first@,
                extra: extra@,
            },
            Phase::Done(result) => PhaseView::Done(result@),
            Phase::Failed(error) => PhaseView::Failed(error),
        }
    }
}

/// A walk through the pages of one mylist.
#[derive(Debug)]
pub struct Walk {
    /// The mylist that is fetched.
    pub id: usize,
    pub phase: Phase,
}

impl View for Walk {
    type V = WalkView;

    open spec fn view(&self) -> WalkView {
        WalkView { id: self.id as nat, phase: self.phase@ }
    }
}

/// What came of a request, as a mathematical value.
pub open spec fn event_view(event: Result<Page, Error>) -> Result<PageView, Error> {
    match event {
        Ok(page) => Ok(page@),
        Err(error) => Err(error),
    }
}

/// Whether an event brings a page that announces a further one.
pub open spec fn event_announces_next(event: Result<PageView, Error>) -> bool {
    match event {
        Ok(page) => announces_next(page),
        Err(_) => false,
    }
}

/// Puts the items of the later pages behind those of the first page.
fn gather(meta: NicoMeta, first: MylistDetail, extra: Vec<Item>) -> (result: Page)
    ensures
        result@ == gathered(meta, first@, extra@),
{
    let mut mylist = first;
    let mut extra = extra;
    mylist.items.append(&mut extra);
    NicoResult { meta, data: Some(MylistResponse { mylist }) }
}

impl Walk {
    /// Begins a walk through mylist `id`: page 1 is to be asked for.
    pub fn start(id: usize) -> (walk: Walk)
        ensures
            walk@ == WalkView::start(id as nat),
    {
        Walk { id, phase: Phase::FetchingFirst }
    }

    /// The request to send next, with the fixed page size; none when the
    /// walk has ended.
    pub fn next_request(&self) -> (request: Option<PageRequest>)
        ensures
            match request {
                Some(request) => self@.pending() == Some(request@),
                None => self@.pending().is_none(),
            },
    {
        match &self.phase {
            Phase::FetchingFirst => Some(PageRequest { id: self.id, page_size: PAGE_SIZE, page: 1 }),
            Phase::Accumulating { page, .. } => Some(
                PageRequest { id: self.id, page_size: PAGE_SIZE, page: *page },
            ),
            Phase::Done(_) => None,
            Phase::Failed(_) => None,
        }
    }

    /// Whether the walk can take `event`. It cannot take the one event after
    /// which a page would be awaited whose number does not fit the
    /// machine's word: a page that announces a further one while the last
    /// page that can be numbered is awaited.
    pub open spec fn can_take(&self, event: Result<Page, Error>) -> bool {
        match self.phase {
            Phase::Accumulating { page, .. } => page < usize::MAX || !event_announces_next(
                event_view(event),
            ),
            _ => true,
        }
    }

    /// Whether the walk can take `event`; see [`Walk::can_take`].
    pub fn can_step(&self, event: &Result<Page, Error>) -> (fits: bool)
        ensures
            fits == self.can_take(*event),
    {
        match &self.phase {
            Phase::Accumulating { page, .. } => {
                *page < usize::MAX || !match event {
                    Ok(next) => match &next.data {
                        Some(response) => response.mylist.has_next,
                        None => false,
                    },
                    Err(_) => false,
                }
            },
            _ => true,
        }
    }

    /// Takes the answer to the pending request and moves on.
    pub fn step(self, event: Result<Page, Error>) -> (next: Walk)
        requires
            self.can_take(event),
        ensures
            next@ == self@.step(event_view(event)),
    {
        let Walk { id, phase } = self;
        match phase {
            Phase::FetchingFirst => match event {
                Err(error) => Walk { id, phase: Phase::Failed(error) },
                Ok(page) => {
                    let NicoResult { meta, data } = page;
                    match data {
                        Some(response) => {
                            if response.mylist.has_next {
                                Walk {
                                    id,
                                    phase: Phase::Accumulating {
                                        page: 2,
                                        meta,
                                        first: response.mylist,
                                        extra: Vec::new(),
                                    },
                                }
                            } else {
                                Walk {
                                    id,
                                    phase: Phase::Done(NicoResult { meta, data: Some(response) }),
                                }
                            }
                        },
                        None => Walk { id, phase: Phase::Done(NicoResult { meta, data: None }) },
                    }
                },
            },
            Phase::Accumulating { page, meta, first, extra } => match event {
                Err(error) => Walk { id, phase: Phase::Failed(error) },
                Ok(next) => match next.data {
                    Some(response) => {
                        let mut extra = extra;
                        let mut detail = response.mylist;
                        extra.append(&mut detail.items);
                        if detail.has_next {
                            Walk {
                                id,
                                phase: Phase::Accumulating { page: page + 1, meta, first, extra },
                            }
                        } else {
                            Walk { id, phase: Phase::Done(gather(meta, first, extra)) }
                        }
                    },
                    None => {
                        assert(extra@ + Seq::<Item>::empty() =~= extra@);
                        Walk { id, phase: Phase::Done(gather(meta, first, extra)) }
                    },
                },
            },
            Phase::Done(result) => Walk { id, phase: Phase::Done(result) },
            Phase::Failed(error) => Walk { id, phase: Phase::Failed(error) },
        }
    }

    /// How the walk ended: the first page with all items behind it, or the
    /// failure; none while a request is pending.
    pub fn outcome(self) -> (outcome: Option<Result<Page, Error>>)
        ensures
            match outcome {
                Some(ended) => self@.outcome() == Some(event_view(ended)),
                None => self@.outcome().is_none(),
            },
            outcome.is_some() <==> self@.pending().is_none(),
    {
        match self.phase {
            Phase::FetchingFirst => None,
            Phase::Accumulating { .. } => None,
            Phase::Done(result) => Some(Ok(result)),
            Phase::Failed(error) => Some(Err(error)),
        }
    }
}

/// The events in which each of the pages arrives whole, in order.
pub open spec fn arrivals(pages: Seq<PageView>) -> Seq<Result<PageView, Error>> {
    Seq::new(pages.len(), |i: int| Ok(pages[i]))
}

/// The requests for `count` consecutive pages of mylist `id`, beginning with
/// page `from`, each with the fixed page size.
pub open spec fn consecutive_requests(id: nat, from: nat, count: nat) -> Seq<PageRequestView> {
    Seq::new(
        count,
        |i: int| PageRequestView { id, page_size: PAGE_SIZE as nat, page: (from + i) as nat },
    )
}

/// Every page announces a further one.
pub open spec fn all_announce_next(pages: Seq<PageView>) -> bool {
    forall|i: int| 0 <= i < pages.len() ==> announces_next(#[trigger] pages[i])
}

/// There is a last page, it announces no further one, and every page
/// before it does.
pub open spec fn ends_with_last(pages: Seq<PageView>) -> bool {
    &&& pages.len() >= 1
    &&& all_announce_next(pages.drop_last())
    &&& !announces_next(pages.last())
}

proof fn lemma_arrivals_drop_first(pages: Seq<PageView>)
    requires
        pages.len() >= 1,
    ensures
        arrivals(pages)[0] == Ok::<PageView, Error>(pages[0]),
        arrivals(pages).drop_first() == arrivals(pages.drop_first()),
{
    assert(arrivals(pages).drop_first() =~= arrivals(pages.drop_first()));
}

proof fn lemma_consecutive_requests_unfold(id: nat, from: nat, count: nat)
    requires
        count >= 1,
    ensures
        consecutive_requests(id, from, count) == seq![
            PageRequestView { id, page_size: PAGE_SIZE as nat, page: from },
        ] + consecutive_requests(id, from + 1, (count - 1) as nat),
{
    assert(consecutive_requests(id, from, count) =~= seq![
        PageRequestView { id, page_size: PAGE_SIZE as nat, page: from },
    ] + consecutive_requests(id, from + 1, (count - 1) as nat));
}

/// From the second page on: the pages that come add their items, in order,
/// until the last of them ends the walk.
proof fn lemma_accumulate(walk: WalkView, rest: Seq<PageView>)
    requires
        walk.phase is Accumulating,
        ends_with_last(rest),
    ensures
        walk.run(arrivals(rest)) == (WalkView {
            id: walk.id,
            phase: PhaseView::Done(
                gathered(
                    walk.phase->meta,
                    walk.phase->first,
                    walk.phase->extra + items_of(rest),
                ),
            ),
        }),
        walk.requests(arrivals(rest)) == consecutive_requests(
            walk.id,
            walk.phase->page,
            rest.len(),
        ),
    decreases rest.len(),
{
    let events = arrivals(rest);
    let tail = rest.drop_first();
    let extra = walk.phase->extra;
    lemma_arrivals_drop_first(rest);
    lemma_consecutive_requests_unfold(walk.id, walk.phase->page, rest.len());
    let next = walk.step(events[0]);
    if rest.len() == 1 {
        assert(rest[0] == rest.last());
        assert(items_of(tail) =~= Seq::<Item>::empty());
        assert(extra + page_items(rest[0]) =~= extra + items_of(rest));
        assert(events.drop_first().len() == 0);
        assert(next.run(events.drop_first()) == next);
        assert(next.requests(events.drop_first()) =~= Seq::<PageRequestView>::empty());
        assert(consecutive_requests(walk.id, walk.phase->page + 1, 0) =~= Seq::<
            PageRequestView,
        >::empty());
    } else {
        assert(rest[0] == rest.drop_last()[0]);
        assert(announces_next(rest[0]));
        assert(tail.last() == rest.last());
        assert forall|i: int| 0 <= i < tail.drop_last().len() implies announces_next(
            #[trigger] tail.drop_last()[i],
        ) by {
            assert(tail.drop_last()[i] == rest.drop_last()[i + 1]);
        }
        lemma_accumulate(next, tail);
        assert((extra + page_items(rest[0])) + items_of(tail) =~= extra + items_of(rest));
    }
}

/// How a walk goes when every request is answered by a page and the pages
/// end with one that announces no further page.
///
/// As many requests are sent as there are pages, for the pages 1, 2, 3 and
/// so on in order, and then none. A single page is the result as it came.
/// Of several pages the result is the first, its items followed by those of
/// the second, the third and so on: all items in page order.
pub proof fn lemma_walk_gathers_all_pages(id: nat, pages: Seq<PageView>)
    requires
        ends_with_last(pages),
    ensures
        WalkView::start(id).requests(arrivals(pages)) == consecutive_requests(id, 1, pages.len()),
        WalkView::start(id).run(arrivals(pages)).pending() is None,
        pages.len() == 1 ==> WalkView::start(id).run(arrivals(pages)).outcome() == Some(
            Ok::<PageView, Error>(pages[0]),
        ),
        pages.len() >= 2 ==> WalkView::start(id).run(arrivals(pages)).outcome() == Some(
            Ok::<PageView, Error>(
                gathered(pages[0].meta, pages[0].data->0, items_of(pages.drop_first())),
            ),
        ),
        pages.len() >= 2 ==> gathered(
            pages[0].meta,
            pages[0].data->0,
            items_of(pages.drop_first()),
        ).data->0.items == items_of(pages),
{
    let walk = WalkView::start(id);
    let events = arrivals(pages);
    let tail = pages.drop_first();
    lemma_arrivals_drop_first(pages);
    lemma_consecutive_requests_unfold(id, 1, pages.len());
    let next = walk.step(events[0]);
    if pages.len() == 1 {
        assert(pages[0] == pages.last());
        assert(events.drop_first().len() == 0);
        assert(next.run(events.drop_first()) == next);
        assert(next.requests(events.drop_first()) =~= Seq::<PageRequestView>::empty());
        assert(consecutive_requests(id, 2, 0) =~= Seq::<PageRequestView>::empty());
    } else {
        assert(pages[0] == pages.drop_last()[0]);
        assert(announces_next(pages[0]));
        assert(tail.last() == pages.last());
        assert forall|i: int| 0 <= i < tail.drop_last().len() implies announces_next(
            #[trigger] tail.drop_last()[i],
        ) by {
            assert(tail.drop_last()[i] == pages.drop_last()[i + 1]);
        }
        lemma_accumulate(next, tail);
        assert(Seq::<Item>::empty() + items_of(tail) =~= items_of(tail));
    }
}

/// A first page that announces no further page, be it for its flag or for
/// want of a payload, is the whole result: the walk ends with that page
/// exactly as it came, after the one request for page 1.
pub proof fn lemma_single_page(id: nat, page: PageView)
    requires
        !announces_next(page),
    ensures
        WalkView::start(id).step(Ok(page)).outcome() == Some(Ok::<PageView, Error>(page)),
        WalkView::start(id).step(Ok(page)).pending() is None,
        WalkView::start(id).requests(seq![Ok(page)]) == seq![
            PageRequestView { id, page_size: PAGE_SIZE as nat, page: 1 },
        ],
{
    let pages = seq![page];
    assert(pages.drop_last() =~= Seq::<PageView>::empty());
    assert(arrivals(pages) =~= seq![Ok::<PageView, Error>(page)]);
    lemma_walk_gathers_all_pages(id, pages);
    lemma_consecutive_requests_unfold(id, 1, 1);
    assert(consecutive_requests(id, 2, 0) =~= Seq::<PageRequestView>::empty());
}

/// When pages announce further pages and then a request fails, the walk
/// stays on course up to the failure.
proof fn lemma_accumulate_until_failure(walk: WalkView, pages: Seq<PageView>, error: Error)
    requires
        walk.phase is Accumulating,
        all_announce_next(pages),
    ensures
        walk.run(arrivals(pages).push(Err(error))) == (WalkView {
            id: walk.id,
            phase: PhaseView::Failed(error),
        }),
        walk.requests(arrivals(pages).push(Err(error))) == consecutive_requests(
            walk.id,
            walk.phase->page,
            pages.len() + 1,
        ),
    decreases pages.len(),
{
    let events = arrivals(pages).push(Err(error));
    lemma_consecutive_requests_unfold(walk.id, walk.phase->page, pages.len() + 1);
    let next = walk.step(events[0]);
    if pages.len() == 0 {
        assert(events.drop_first().len() == 0);
        assert(next.run(events.drop_first()) == next);
        assert(next.requests(events.drop_first()) =~= Seq::<PageRequestView>::empty());
        assert(consecutive_requests(walk.id, walk.phase->page + 1, 0) =~= Seq::<
            PageRequestView,
        >::empty());
    } else {
        let tail = pages.drop_first();
        assert(events[0] == Ok::<PageView, Error>(pages[0]));
        assert(events.drop_first() =~= arrivals(tail).push(Err(error)));
        assert(announces_next(pages[0]));
        assert forall|i: int| 0 <= i < tail.len() implies announces_next(#[trigger] tail[i]) by {
            assert(tail[i] == pages[i + 1]);
        }
        lemma_accumulate_until_failure(next, tail, error);
    }
}

/// A failure ends the walk at once, whatever had come before: the walk
/// ends with that failure, the pages gathered so far are dropped, and no
/// request follows the one that failed.
pub proof fn lemma_failure_ends_walk(id: nat, pages: Seq<PageView>, error: Error)
    requires
        all_announce_next(pages),
    ensures
        WalkView::start(id).run(arrivals(pages).push(Err(error))).outcome() == Some(
            Err::<PageView, Error>(error),
        ),
        WalkView::start(id).run(arrivals(pages).push(Err(error))).pending() is None,
        WalkView::start(id).requests(arrivals(pages).push(Err(error))) == consecutive_requests(
            id,
            1,
            pages.len() + 1,
        ),
{
    let walk = WalkView::start(id);
    let events = arrivals(pages).push(Err(error));
    lemma_consecutive_requests_unfold(id, 1, pages.len() + 1);
    let next = walk.step(events[0]);
    if pages.len() == 0 {
        assert(events.drop_first().len() == 0);
        assert(next.run(events.drop_first()) == next);
        assert(next.requests(events.drop_first()) =~= Seq::<PageRequestView>::empty());
        assert(consecutive_requests(id, 2, 0) =~= Seq::<PageRequestView>::empty());
    } else {
        let tail = pages.drop_first();
        assert(events[0] == Ok::<PageView, Error>(pages[0]));
        assert(events.drop_first() =~= arrivals(tail).push(Err(error)));
        assert(announces_next(pages[0]));
        assert forall|i: int| 0 <= i < tail.len() implies announces_next(#[trigger] tail[i]) by {
            assert(tail[i] == pages[i + 1]);
        }
        lemma_accumulate_until_failure(next, tail, error);
    }
}

/// From the second page on, whatever comes: the requests are for
/// consecutive pages, beginning with the awaited one.
proof fn lemma_later_requests_are_consecutive(
    walk: WalkView,
    events: Seq<Result<PageView, Error>>,
)
    requires
        walk.phase is Accumulating,
    ensures
        walk.requests(events) == consecutive_requests(
            walk.id,
            walk.phase->page,
            walk.requests(events).len(),
        ),
    decreases events.len(),
{
    let page = walk.phase->page;
    if events.len() == 0 {
        assert(consecutive_requests(walk.id, page, 0) =~= Seq::<PageRequestView>::empty());
    } else {
        let next = walk.step(events[0]);
        let tail = events.drop_first();
        if next.phase is Accumulating {
            lemma_later_requests_are_consecutive(next, tail);
        } else {
            lemma_ended_walk_stays(next, tail);
            assert(consecutive_requests(walk.id, page + 1, 0) =~= Seq::<
                PageRequestView,
            >::empty());
        }
        lemma_consecutive_requests_unfold(walk.id, page, (next.requests(tail).len() + 1) as nat);
    }
}

/// Whatever comes, pages are asked for in order and without gaps: the
/// requests of any run are for the pages 1, 2, 3 and so on, all for the
/// same mylist and with the fixed page size.
pub proof fn lemma_requests_are_consecutive(id: nat, events: Seq<Result<PageView, Error>>)
    ensures
        WalkView::start(id).requests(events) == consecutive_requests(
            id,
            1,
            WalkView::start(id).requests(events).len(),
        ),
{
    let walk = WalkView::start(id);
    if events.len() == 0 {
        assert(consecutive_requests(id, 1, 0) =~= Seq::<PageRequestView>::empty());
    } else {
        let next = walk.step(events[0]);
        let tail = events.drop_first();
        if next.phase is Accumulating {
            lemma_later_requests_are_consecutive(next, tail);
        } else {
            lemma_ended_walk_stays(next, tail);
            assert(consecutive_requests(id, 2, 0) =~= Seq::<PageRequestView>::empty());
        }
        lemma_consecutive_requests_unfold(id, 1, (next.requests(tail).len() + 1) as nat);
    }
}

/// Every page among the events carries a payload.
pub open spec fn all_carry_payload(events: Seq<Result<PageView, Error>>) -> bool {
    forall|i: int|
        0 <= i < events.len() ==> ((#[trigger] events[i]) matches Ok(page) ==> page.data.is_some())
}

/// A payload is never lost: a walk that has no result yet, or one with a
/// payload, and that is fed only pages with a payload, can only end with a
/// result that carries one.
pub proof fn lemma_payload_is_kept(walk: WalkView, events: Seq<Result<PageView, Error>>)
    requires
        walk.phase matches PhaseView::Done(result) ==> result.data.is_some(),
        all_carry_payload(events),
    ensures
        walk.run(events).outcome() matches Some(Ok(result)) ==> result.data.is_some(),
    decreases events.len(),
{
    if events.len() > 0 {
        let next = walk.step(events[0]);
        let tail = events.drop_first();
        assert forall|i: int| 0 <= i < tail.len() implies ((#[trigger] tail[i]) matches Ok(page)
            ==> page.data.is_some()) by {
            assert(tail[i] == events[i + 1]);
        }
        lemma_payload_is_kept(next, tail);
    }
}

/// A walk that has ended stays as it is: further events change nothing and
/// answer no request.
pub proof fn lemma_ended_walk_stays(walk: WalkView, events: Seq<Result<PageView, Error>>)
    requires
        walk.pending() is None,
    ensures
        walk.run(events) == walk,
        walk.requests(events) == Seq::<PageRequestView>::empty(),
        walk.outcome() is Some,
    decreases events.len(),
{
    if events.len() > 0 {
        lemma_ended_walk_stays(walk, events.drop_first());
    }
}

} // verus!
