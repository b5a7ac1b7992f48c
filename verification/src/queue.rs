//! The decisions of the request queue's worker. The worker itself, a task
//! that receives requests and drains their pages, runs outside; for each
//! request it starts a `PageCollector`, feeds it every page that arrives and
//! reports the event and reply that the collector hands back.
use vstd::prelude::*;
use crate::error::FredError;

verus! {

/// Emitted by the queue worker for live observability: when a request
/// actually starts, succeeds, or fails.
#[derive(Clone, Copy, Debug, PartialEq, Eq)]
pub enum QueueEvent {
    Started,
    Succeeded,
    Failed,
}

/// The records gathered so far for one queued request.
pub struct PageCollector<T> {
    collected: Vec<T>,
}

impl<T> View for PageCollector<T> {
    type V = Seq<T>;

    closed spec fn view(&self) -> Seq<T> {
        self.collected@
    }
}

/// What the worker does after a page: go on draining, or answer the request.
pub enum PageStep<T> {
    Continue(PageCollector<T>),
    Finished { event: QueueEvent, reply: Result<Vec<T>, FredError> },
}

/// The event and reply of a request whose pages are `pages`, once `collected`
/// records came before them: the first failed page ends it with its error;
/// otherwise every page's records, in order, are the reply.
pub open spec fn drained<T>(collected: Seq<T>, pages: Seq<Result<Seq<T>, FredError>>) -> (
    QueueEvent,
    Result<Seq<T>, FredError>,
)
    decreases pages.len(),
{
    if pages.len() == 0 {
        (QueueEvent::Succeeded, Ok(collected))
    } else {
        match pages[0] {
            Ok(batch) => drained(collected + batch, pages.drop_first()),
            Err(e) => (QueueEvent::Failed, Err(e)),
        }
    }
}

/// One step of `drained`: the next page, then the rest.
pub open spec fn drained_step<T>(
    collected: Seq<T>,
    page: Result<Seq<T>, FredError>,
    rest: Seq<Result<Seq<T>, FredError>>,
) -> (QueueEvent, Result<Seq<T>, FredError>) {
    match page {
        Ok(batch) => drained(collected + batch, rest),
        Err(e) => (QueueEvent::Failed, Err(e)),
    }
}

/// The records of all pages, one after the other.
pub open spec fn concatenated<T>(pages: Seq<Result<Seq<T>, FredError>>) -> Seq<T>
    decreases pages.len(),
{
    if pages.len() == 0 {
        seq![]
    } else {
        match pages[0] {
            Ok(batch) => batch + concatenated(pages.drop_first()),
            Err(_) => seq![],
        }
    }
}

/// The position of the first failed page, or the number of pages.
pub open spec fn first_failure<T>(pages: Seq<Result<Seq<T>, FredError>>) -> int
    decreases pages.len(),
{
    if pages.len() == 0 {
        0
    } else if pages[0] is Err {
        0
    } else {
        1 + first_failure(pages.drop_first())
    }
}

/// Law: a request that the worker drains succeeds exactly when none of its
/// pages fails, and then its reply holds every page's records in the order
/// of the pages; otherwise it fails with the first failed page's error.
pub proof fn law_drained_reply<T>(pages: Seq<Result<Seq<T>, FredError>>)
    ensures
        first_failure(pages) == pages.len() ==> drained(Seq::<T>::empty(), pages) == (
            QueueEvent::Succeeded,
            Ok::<Seq<T>, FredError>(concatenated(pages)),
        ),
        first_failure(pages) < pages.len() ==> drained(Seq::<T>::empty(), pages) == (
            QueueEvent::Failed,
            pages[first_failure(pages)],
        ),
{
    lemma_drained(Seq::<T>::empty(), pages);
    assert(Seq::<T>::empty() + concatenated(pages) =~= concatenated(pages));
}

proof fn lemma_drained<T>(collected: Seq<T>, pages: Seq<Result<Seq<T>, FredError>>)
    ensures
        0 <= first_failure(pages) <= pages.len(),
        first_failure(pages) == pages.len() ==> drained(collected, pages) == (
            QueueEvent::Succeeded,
            Ok::<Seq<T>, FredError>(collected + concatenated(pages)),
        ),
        first_failure(pages) < pages.len() ==> pages[first_failure(pages)] is Err && drained(
            collected,
            pages,
        ) == (QueueEvent::Failed, pages[first_failure(pages)]),
    decreases pages.len(),
{
    if pages.len() == 0 {
        assert(collected + Seq::<T>::empty() =~= collected);
    } else {
        match pages[0] {
            Ok(batch) => {
                let rest = pages.drop_first();
                lemma_drained(collected + batch, rest);
                assert(collected + batch + concatenated(rest) =~= collected + (batch + concatenated(
                    rest,
                )));
                if first_failure(rest) < rest.len() {
                    assert(pages[first_failure(pages)] == rest[first_failure(rest)]);
                }
            },
            Err(e) => {},
        }
    }
}

/// A page as `drained` reads it: its records, or its error.
pub open spec fn page_result<T>(page: Result<Vec<T>, FredError>) -> Result<Seq<T>, FredError> {
    match page {
        Ok(batch) => Ok(batch@),
        Err(e) => Err(e),
    }
}

/// The events that the worker reports for a request whose pages are `pages`:
/// `Started` when it is dequeued, then the event that draining the pages ends
/// with.
pub open spec fn worker_events<T>(pages: Seq<Result<Seq<T>, FredError>>) -> Seq<QueueEvent> {
    seq![QueueEvent::Started, drained(Seq::<T>::empty(), pages).0]
}

/// Law: for every request the worker reports `Started` first and then
/// exactly one more event, `Succeeded` when the reply is `Ok` and `Failed`
/// when it is an error; so the requests that have ended never outnumber
/// those that have started.
pub proof fn law_worker_events<T>(pages: Seq<Result<Seq<T>, FredError>>)
    ensures
        worker_events(pages).len() == 2,
        worker_events(pages)[0] == QueueEvent::Started,
        worker_events(pages)[1] == QueueEvent::Succeeded <==> drained(Seq::<T>::empty(), pages).1 is Ok,
        worker_events(pages)[1] == QueueEvent::Failed <==> drained(Seq::<T>::empty(), pages).1 is Err,
{
    lemma_drained(Seq::<T>::empty(), pages);
}

impl<T> PageCollector<T> {
    /// Starts work on a dequeued request: nothing collected yet, and the
    /// worker announces that the request has started.
    pub fn start() -> (r: (PageCollector<T>, QueueEvent))
        ensures
            r.0@ == Seq::<T>::empty(),
            r.1 == QueueEvent::Started,
            r.1 == worker_events(Seq::<Result<Seq<T>, FredError>>::empty())[0],
    {
        (PageCollector { collected: Vec::new() }, QueueEvent::Started)
    }

    /// Takes the next page: its records are added after the earlier ones, or
    /// its error ends the request as failed.
    pub fn on_page(self, page: Result<Vec<T>, FredError>) -> (r: PageStep<T>)
        ensures
            page is Ok ==> (r matches PageStep::Continue(c) && c@ == self@ + page->Ok_0@),
            page is Err ==> (r matches PageStep::Finished { event, reply } && event
                == QueueEvent::Failed && reply == Err::<Vec<T>, FredError>(page->Err_0)),
            forall|rest: Seq<Result<Seq<T>, FredError>>|
                #[trigger] drained(self@, seq![page_result(page)] + rest) == match r {
                    PageStep::Continue(c) => drained(c@, rest),
                    PageStep::Finished { event, reply } => (event, page_result(reply)),
                },
    {
        proof {
            assert forall|rest: Seq<Result<Seq<T>, FredError>>| #[trigger] drained(
                self@,
                seq![page_result(page)] + rest,
            ) == drained_step(self@, page_result(page), rest) by {
                let pages = seq![page_result(page)] + rest;
                assert(pages[0] == page_result(page));
                assert(pages.drop_first() =~= rest);
            }
        }
        match page {
            Ok(mut batch) => {
                let mut collected = self.collected;
                collected.append(&mut batch);
                PageStep::Continue(PageCollector { collected })
            },
            Err(e) => PageStep::Finished { event: QueueEvent::Failed, reply: Err(e) },
        }
    }

    /// All pages have arrived: the request succeeds with every record.
    pub fn finish(self) -> (r: (QueueEvent, Result<Vec<T>, FredError>))
        ensures
            r.0 == QueueEvent::Succeeded,
            r.1 matches Ok(all) && all@ == self@,
            (r.0, page_result(r.1)) == drained(self@, Seq::<Result<Seq<T>, FredError>>::empty()),
    {
        (QueueEvent::Succeeded, Ok(self.collected))
    }
}

/// What the caller of a queued request receives: an error where the queue
/// did not take the request or the worker dropped it without a reply, and
/// the worker's reply otherwise.
pub fn queued_reply<T>(queued: bool, reply: Option<Result<Vec<T>, FredError>>) -> (r: Result<
    Vec<T>,
    FredError,
>)
    ensures
        !queued ==> (r matches Err(FredError::Unavailable(m)) && m@ == "queue closed"@),
        queued && reply is None ==> (r matches Err(FredError::Unavailable(m)) && m@
            == "queue worker dropped the response"@),
        queued && reply is Some ==> r == reply->0,
{
    if !queued {
        return Err(FredError::Unavailable("queue closed".to_owned()));
    }
    match reply {
        Some(r) => r,
        None => Err(FredError::Unavailable("queue worker dropped the response".to_owned())),
    }
}

} // verus!
