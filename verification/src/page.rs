use vstd::prelude::*;
use crate::record::Record;

verus! {

/// One HTTP page response, reduced to what the fetch decision reads: the
/// status code, the decoded body when it decoded, and whether the
/// link-relation header carried a "next" marker.
pub struct PageResponse {
    /// The HTTP status code.
    pub status: u16,
    /// The decoded body; `None` when the body could not be decoded as a
    /// list of records.
    pub body: Option<Vec<Record>>,
    /// Whether the response's link-relation header signals a next page.
    pub has_next: bool,
}

/// The decision the fetch engine takes after one page response.
#[derive(PartialEq, Eq, Structural, Debug)]
pub enum FetchStep {
    /// Rate limited: sleep one full backoff and request the same page again.
    Backoff,
    /// Pagination is over without this page: a failed request, an
    /// undecodable body, or an empty page. The accumulator stands.
    Finish,
    /// Append this page and stop: the page was non-empty but carried no
    /// continuation marker.
    AppendFinish,
    /// Append this page, advance the cursor, and request the next page.
    AppendContinue,
}

/// A status is a success exactly when it lies in the 2xx range.
pub open spec fn is_success(status: u16) -> bool {
    200 <= status < 300
}

/// The records a response carries; an undecodable body carries none.
pub open spec fn page_records(r: PageResponse) -> Seq<Record> {
    match r.body {
        Some(v) => v@,
        None => Seq::empty(),
    }
}

/// The fetch decision for one response: 403 is read unconditionally as a
/// rate-limit signal and retried; any other non-success status stops the
/// endpoint with the pages already gathered; an undecodable or empty body
/// stops likewise; a non-empty page is kept, and pagination goes on exactly
/// when the continuation marker is present.
pub open spec fn step_of(r: PageResponse) -> FetchStep {
    if r.status == 403 {
        FetchStep::Backoff
    } else if !is_success(r.status) {
        FetchStep::Finish
    } else {
        match r.body {
            None => FetchStep::Finish,
            Some(recs) => if recs@.len() == 0 {
                FetchStep::Finish
            } else if r.has_next {
                FetchStep::AppendContinue
            } else {
                FetchStep::AppendFinish
            },
        }
    }
}

/// A response on which the session ends.
pub open spec fn is_terminal(r: PageResponse) -> bool {
    step_of(r) == FetchStep::Finish || step_of(r) == FetchStep::AppendFinish
}

/// How many responses a session consumes: every response up to and
/// including the first terminal one, or all of them when none is terminal.
pub open spec fn consumed_count(rs: Seq<PageResponse>) -> nat
    decreases rs.len(),
{
    if rs.len() == 0 {
        0
    } else if is_terminal(rs[0]) {
        1
    } else {
        1 + consumed_count(rs.drop_first())
    }
}

/// Whether the session reaches a terminal response before the responses
/// run out.
pub open spec fn session_completed(rs: Seq<PageResponse>) -> bool
    decreases rs.len(),
{
    if rs.len() == 0 {
        false
    } else if is_terminal(rs[0]) {
        true
    } else {
        session_completed(rs.drop_first())
    }
}

/// The records a session returns: the concatenation, in arrival order, of
/// every page appended before the session ends.
pub open spec fn session_records(rs: Seq<PageResponse>) -> Seq<Record>
    decreases rs.len(),
{
    if rs.len() == 0 {
        Seq::empty()
    } else {
        match step_of(rs[0]) {
            FetchStep::Backoff => session_records(rs.drop_first()),
            FetchStep::Finish => Seq::empty(),
            FetchStep::AppendFinish => page_records(rs[0]),
            FetchStep::AppendContinue => page_records(rs[0]) + session_records(rs.drop_first()),
        }
    }
}

/// How many full backoff sleeps a session performs: one per 403 consumed.
pub open spec fn session_sleeps(rs: Seq<PageResponse>) -> nat
    decreases rs.len(),
{
    if rs.len() == 0 {
        0
    } else {
        match step_of(rs[0]) {
            FetchStep::Backoff => 1 + session_sleeps(rs.drop_first()),
            FetchStep::Finish => 0,
            FetchStep::AppendFinish => 0,
            FetchStep::AppendContinue => session_sleeps(rs.drop_first()),
        }
    }
}

/// The page number of each request a session issues, in order, starting
/// from `p`: a 403 repeats the same page, an appended page with a
/// continuation marker advances the cursor by one.
pub open spec fn session_pages(rs: Seq<PageResponse>, p: nat) -> Seq<nat>
    decreases rs.len(),
{
    if rs.len() == 0 {
        Seq::empty()
    } else {
        seq![p] + match step_of(rs[0]) {
            FetchStep::Backoff => session_pages(rs.drop_first(), p),
            FetchStep::Finish => Seq::empty(),
            FetchStep::AppendFinish => Seq::empty(),
            FetchStep::AppendContinue => session_pages(rs.drop_first(), (p + 1) as nat),
        }
    }
}

/// The outcome of one fetch session: the partial or complete record list
/// and the observable cost of obtaining it.
pub struct FetchOutcome {
    /// Records accumulated, in arrival order.
    pub records: Vec<Record>,
    /// Requests issued, one per response consumed.
    pub requests: usize,
    /// Full rate-limit backoff sleeps performed.
    pub sleeps: usize,
    /// The page number of each request, in order.
    pub pages: Vec<usize>,
    /// Whether the session reached a terminal response; false when the
    /// supplied responses ran out first.
    pub completed: bool,
}

/// The executable fetch decision.
pub fn decide(r: &PageResponse) -> (s: FetchStep)
    ensures
        s == step_of(*r),
{
    if r.status == 403 {
        FetchStep::Backoff
    } else if !(200 <= r.status && r.status < 300) {
        FetchStep::Finish
    } else {
        match &r.body {
            None => FetchStep::Finish,
            Some(recs) => if recs.len() == 0 {
                FetchStep::Finish
            } else if r.has_next {
                FetchStep::AppendContinue
            } else {
                FetchStep::AppendFinish
            },
        }
    }
}

/// Drives one whole fetch session over a sequence of page responses,
/// consuming them front to back: the pure counterpart of "fetch all pages
/// for an endpoint". On any failure it returns the pages already gathered
/// rather than aborting the caller.
pub fn run_fetch(responses: Vec<PageResponse>) -> (out: FetchOutcome)
    requires
        responses@.len() < usize::MAX,
    ensures
        out.records@ == session_records(responses@),
        out.requests == consumed_count(responses@),
        out.sleeps == session_sleeps(responses@),
        out.pages@.map_values(|p: usize| p as nat) == session_pages(responses@, 1),
        out.pages@.len() == out.requests,
        out.completed == session_completed(responses@),
{
    let ghost orig = responses@;
    proof {
        lemma_one_page_per_request(orig, 1);
    }
    let mut rest = responses;
    let mut records: Vec<Record> = Vec::new();
    let mut pages: Vec<usize> = Vec::new();
    let mut requests: usize = 0;
    let mut sleeps: usize = 0;
    let mut page: usize = 1;
    let mut completed = false;
    while rest.len() > 0 && !completed
        invariant
            requests + rest@.len() <= orig.len() < usize::MAX,
            sleeps <= requests,
            1 <= page <= 1 + requests,
            !completed ==> session_records(orig) == records@ + session_records(rest@),
            !completed ==> session_sleeps(orig) == sleeps + session_sleeps(rest@),
            !completed ==> consumed_count(orig) == requests + consumed_count(rest@),
            !completed ==> session_completed(orig) == session_completed(rest@),
            !completed ==> session_pages(orig, 1) == pages@.map_values(|p: usize| p as nat)
                + session_pages(rest@, page as nat),
            completed ==> session_records(orig) == records@,
            completed ==> session_sleeps(orig) == sleeps,
            completed ==> consumed_count(orig) == requests,
            completed ==> session_completed(orig),
            completed ==> session_pages(orig, 1) == pages@.map_values(|p: usize| p as nat),
        decreases rest@.len(),
    {
        let ghost pre = rest@;
        let ghost pages_pre = pages@;
        let mut r = rest.remove(0);
        proof {
            assert(pre.remove(0) =~= pre.drop_first());
            assert(rest@ == pre.drop_first());
        }
        pages.push(page);
        proof {
            assert(pages@.map_values(|p: usize| p as nat) =~= pages_pre.map_values(
                |p: usize| p as nat,
            ).push(page as nat));
            assert(session_pages(pre, page as nat) == seq![page as nat] + match step_of(pre[0]) {
                FetchStep::Backoff => session_pages(pre.drop_first(), page as nat),
                FetchStep::Finish => Seq::<nat>::empty(),
                FetchStep::AppendFinish => Seq::<nat>::empty(),
                FetchStep::AppendContinue => session_pages(
                    pre.drop_first(),
                    (page + 1) as nat,
                ),
            });
        }
        requests = requests + 1;
        match decide(&r) {
            FetchStep::Backoff => {
                sleeps = sleeps + 1;
                proof {
                    assert(pages_pre.map_values(|p: usize| p as nat).push(page as nat) + session_pages(
                        rest@,
                        page as nat,
                    ) =~= pages_pre.map_values(|p: usize| p as nat) + session_pages(
                        pre,
                        page as nat,
                    ));
                }
            },
            FetchStep::Finish => {
                completed = true;
                proof {
                    assert(session_pages(pre, page as nat) =~= seq![page as nat]);
                    assert(pages_pre.map_values(|p: usize| p as nat).push(page as nat)
                        =~= pages_pre.map_values(|p: usize| p as nat) + session_pages(
                        pre,
                        page as nat,
                    ));
                }
            },
            FetchStep::AppendFinish => {
                let ghost recs_pre = records@;
                match &mut r.body {
                    Some(b) => {
                        records.append(b);
                    },
                    None => {
                        // an appending step always carries a decoded body
                        proof {
                            assert(false);
                        }
                    },
                }
                completed = true;
                proof {
                    assert(records@ == recs_pre + page_records(pre[0]));
                    assert(session_pages(pre, page as nat) =~= seq![page as nat]);
                    assert(pages_pre.map_values(|p: usize| p as nat).push(page as nat)
                        =~= pages_pre.map_values(|p: usize| p as nat) + session_pages(
                        pre,
                        page as nat,
                    ));
                }
            },
            FetchStep::AppendContinue => {
                let ghost recs_pre = records@;
                match &mut r.body {
                    Some(b) => {
                        records.append(b);
                    },
                    None => {
                        // an appending step always carries a decoded body
                        proof {
                            assert(false);
                        }
                    },
                }
                page = page + 1;
                proof {
                    assert(records@ == recs_pre + page_records(pre[0]));
                    assert(recs_pre + page_records(pre[0]) + session_records(rest@) =~= recs_pre
                        + (page_records(pre[0]) + session_records(rest@)));
                    assert(pages_pre.map_values(|p: usize| p as nat).push((page - 1) as nat)
                        + session_pages(rest@, page as nat) =~= pages_pre.map_values(
                        |p: usize| p as nat,
                    ) + session_pages(pre, (page - 1) as nat));
                }
            },
        }
    }
    proof {
        if !completed {
            assert(rest@.len() == 0);
            assert(session_records(rest@) =~= Seq::<Record>::empty());
            assert(session_pages(rest@, page as nat) =~= Seq::<nat>::empty());
            assert(records@ + session_records(rest@) =~= records@);
            assert(pages@.map_values(|p: usize| p as nat) + session_pages(rest@, page as nat)
                =~= pages@.map_values(|p: usize| p as nat));
        }
    }
    FetchOutcome { records, requests, sleeps, pages, completed }
}

/// Pagination termination: the session stops on the first terminal
/// response — a failed request, an undecodable body, an empty page, or a
/// non-empty page without a continuation marker — even when further
/// responses follow; every 403 before it is retried, not terminal.
pub proof fn lemma_pagination_termination(rs: Seq<PageResponse>, i: int)
    requires
        0 <= i < rs.len(),
        is_terminal(rs[i]),
        forall|j: int| 0 <= j < i ==> !is_terminal(rs[j]),
    ensures
        session_completed(rs),
        consumed_count(rs) == i + 1,
    decreases rs.len(),
{
    if i == 0 {
    } else {
        assert(!is_terminal(rs[0]));
        assert(rs.drop_first()[i - 1] == rs[i]);
        assert forall|j: int| 0 <= j < i - 1 implies !is_terminal(rs.drop_first()[j]) by {
            assert(rs.drop_first()[j] == rs[j + 1]);
        }
        lemma_pagination_termination(rs.drop_first(), i - 1);
    }
}

/// Without a terminal response the session never ends on its own: it
/// consumes every response offered and reports itself incomplete.
pub proof fn lemma_no_terminal_no_termination(rs: Seq<PageResponse>)
    requires
        forall|j: int| 0 <= j < rs.len() ==> !is_terminal(rs[j]),
    ensures
        !session_completed(rs),
        consumed_count(rs) == rs.len(),
    decreases rs.len(),
{
    if rs.len() > 0 {
        assert forall|j: int| 0 <= j < rs.drop_first().len() implies !is_terminal(
            rs.drop_first()[j],
        ) by {
            assert(rs.drop_first()[j] == rs[j + 1]);
        }
        lemma_no_terminal_no_termination(rs.drop_first());
    }
}

/// One page number per request: the request trace is exactly as long as
/// the number of responses consumed.
pub proof fn lemma_one_page_per_request(rs: Seq<PageResponse>, p: nat)
    ensures
        session_pages(rs, p).len() == consumed_count(rs),
    decreases rs.len(),
{
    if rs.len() > 0 {
        match step_of(rs[0]) {
            FetchStep::Backoff => lemma_one_page_per_request(rs.drop_first(), p),
            FetchStep::AppendContinue => lemma_one_page_per_request(rs.drop_first(), (p + 1) as nat),
            FetchStep::Finish => {
            },
            FetchStep::AppendFinish => {
            },
        }
    }
}

/// Rate-limit retry: a 403 at the head of the responses costs exactly one
/// request and one full backoff sleep, contributes no records, and the
/// next request asks for the same page again.
pub proof fn lemma_rate_limit_retry(rs: Seq<PageResponse>, p: nat)
    requires
        rs.len() > 0,
        step_of(rs[0]) == FetchStep::Backoff,
    ensures
        consumed_count(rs) == 1 + consumed_count(rs.drop_first()),
        session_sleeps(rs) == 1 + session_sleeps(rs.drop_first()),
        session_records(rs) == session_records(rs.drop_first()),
        session_completed(rs) == session_completed(rs.drop_first()),
        session_pages(rs, p) == seq![p] + session_pages(rs.drop_first(), p),
{
}

} // verus!
