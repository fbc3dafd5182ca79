//! Batches of requests to a remote desktop helper: mouse moves are joined, edges keep their order.

use vstd::prelude::*;

verus! {

/// How many waiting requests one batch takes in behind its first.
pub const REQUEST_DRAIN_LIMIT: usize = 128;

#[derive(Clone, Copy, Debug, Eq, PartialEq, Structural)]
pub enum RemoteDesktopMouseButton {
    Left,
    Middle,
    Right,
}

#[derive(Clone, Copy, Debug, Eq, PartialEq, Structural)]
pub enum RemoteDesktopMouseButtonState {
    Pressed,
    Released,
}

/// What the session asks of its helper.
#[derive(Clone, Copy, Debug, Eq, PartialEq, Structural)]
pub enum RemoteDesktopHelperRequest {
    MouseMove { x: u32, y: u32 },
    MouseButton { button: RemoteDesktopMouseButton, state: RemoteDesktopMouseButtonState },
    Key { scancode: u32, pressed: bool },
    Resize { width: u32, height: u32 },
    Close,
}

#[derive(Clone, Copy, Debug, Eq, PartialEq, Structural)]
pub enum RemoteDesktopRequestBatchOutcome {
    Continue,
    ShutdownRequested,
}

pub open spec fn is_move(request: RemoteDesktopHelperRequest) -> bool {
    request is MouseMove
}

/// Holds back the last mouse move until something else comes.
pub struct RemoteDesktopRequestWriteCoalescer {
    pub pending_mouse_move: Option<RemoteDesktopHelperRequest>,
}

pub open spec fn appended(
    output: Seq<RemoteDesktopHelperRequest>,
    pending: Option<RemoteDesktopHelperRequest>,
) -> Seq<RemoteDesktopHelperRequest> {
    match pending {
        Some(request) => output.push(request),
        None => output,
    }
}

/// One request more: a mouse move replaces the one held back; anything else first lets it go.
pub open spec fn fed_one(
    output: Seq<RemoteDesktopHelperRequest>,
    pending: Option<RemoteDesktopHelperRequest>,
    request: RemoteDesktopHelperRequest,
) -> (Seq<RemoteDesktopHelperRequest>, Option<RemoteDesktopHelperRequest>) {
    if is_move(request) {
        (output, Some(request))
    } else {
        (appended(output, pending).push(request), None)
    }
}

/// What a list of requests comes to: the output so far and the move held back.
pub open spec fn fed(requests: Seq<RemoteDesktopHelperRequest>) -> (
    Seq<RemoteDesktopHelperRequest>,
    Option<RemoteDesktopHelperRequest>,
)
    decreases requests.len(),
{
    if requests.len() == 0 {
        (Seq::empty(), None)
    } else {
        let (output, pending) = fed(requests.drop_last());
        fed_one(output, pending, requests.last())
    }
}

/// The requests with joined mouse moves.
pub open spec fn coalesced(requests: Seq<RemoteDesktopHelperRequest>) -> Seq<
    RemoteDesktopHelperRequest,
> {
    appended(fed(requests).0, fed(requests).1)
}

impl Default for RemoteDesktopRequestWriteCoalescer {
    fn default() -> (r: Self)
        ensures
            r.pending_mouse_move is None,
    {
        RemoteDesktopRequestWriteCoalescer { pending_mouse_move: None }
    }
}

impl RemoteDesktopRequestWriteCoalescer {
    pub fn push(
        &mut self,
        request: RemoteDesktopHelperRequest,
        output: &mut Vec<RemoteDesktopHelperRequest>,
    )
        ensures
            (final(output)@, final(self).pending_mouse_move) == fed_one(
                old(output)@,
                old(self).pending_mouse_move,
                request,
            ),
    {
        match request {
            RemoteDesktopHelperRequest::MouseMove { .. } => {
                self.pending_mouse_move = Some(request);
            },
            _ => {
                self.flush(output);
                output.push(request);
            },
        }
    }

    /// Lets the held back move go.
    pub fn flush(&mut self, output: &mut Vec<RemoteDesktopHelperRequest>)
        ensures
            final(self).pending_mouse_move is None,
            final(output)@ == appended(old(output)@, old(self).pending_mouse_move),
    {
        if let Some(request) = self.pending_mouse_move.take() {
            output.push(request);
        }
    }
}

/// One batch in the making: the requests taken so far are `coalesced`, the first of them does not
/// count against the limit.
pub struct RemoteDesktopRequestBatch {
    pub coalescer: RemoteDesktopRequestWriteCoalescer,
    pub requests: Vec<RemoteDesktopHelperRequest>,
    pub drained: usize,
    pub taken: Ghost<Seq<RemoteDesktopHelperRequest>>,
}

/// The requests up to and with the first `Close`.
pub open spec fn up_to_close(requests: Seq<RemoteDesktopHelperRequest>) -> Seq<
    RemoteDesktopHelperRequest,
>
    decreases requests.len(),
{
    if requests.len() == 0 {
        requests
    } else if requests[0] is Close {
        seq![requests[0]]
    } else {
        seq![requests[0]] + up_to_close(requests.drop_first())
    }
}

impl RemoteDesktopRequestBatch {
    pub open spec fn well_formed(self) -> bool {
        &&& self.taken@.len() == self.drained + 1
        &&& self.drained <= REQUEST_DRAIN_LIMIT
        &&& (self.requests@, self.coalescer.pending_mouse_move) == fed(self.taken@)
    }

    /// A batch that starts with the request that was waited for.
    pub fn start(first: RemoteDesktopHelperRequest) -> (r: Self)
        ensures
            r.well_formed(),
            r.taken@ == seq![first],
    {
        let mut coalescer = RemoteDesktopRequestWriteCoalescer::default();
        let mut requests: Vec<RemoteDesktopHelperRequest> = Vec::new();
        coalescer.push(first, &mut requests);
        let ghost taken = seq![first];
        proof {
            assert(taken.drop_last() =~= Seq::<RemoteDesktopHelperRequest>::empty());
            assert(fed(taken.drop_last()).0 =~= Seq::<RemoteDesktopHelperRequest>::empty());
        }
        RemoteDesktopRequestBatch { coalescer, requests, drained: 0, taken: Ghost(taken) }
    }

    /// Whether the batch takes in another waiting request.
    pub fn wants_more(&self) -> (r: bool)
        ensures
            r == (self.drained < REQUEST_DRAIN_LIMIT),
    {
        self.drained < REQUEST_DRAIN_LIMIT
    }

    pub fn take_in(&mut self, request: RemoteDesktopHelperRequest)
        requires
            old(self).well_formed(),
            old(self).drained < REQUEST_DRAIN_LIMIT,
        ensures
            final(self).well_formed(),
            final(self).taken@ == old(self).taken@.push(request),
            final(self).drained == old(self).drained + 1,
    {
        let ghost before = self.taken@;
        self.coalescer.push(request, &mut self.requests);
        self.drained = self.drained + 1;
        self.taken = Ghost(before.push(request));
        assert(self.taken@.drop_last() =~= before);
    }

    /// What is written, and how the writer goes on: it shuts down behind a `Close` or once the
    /// sender is gone.
    pub fn finish(self, disconnected: bool) -> (r: (
        Vec<RemoteDesktopHelperRequest>,
        RemoteDesktopRequestBatchOutcome,
    ))
        requires
            self.well_formed(),
        ensures
            r.0@ == up_to_close(coalesced(self.taken@)),
            r.1 == (if disconnected || closes(coalesced(self.taken@)) {
                RemoteDesktopRequestBatchOutcome::ShutdownRequested
            } else {
                RemoteDesktopRequestBatchOutcome::Continue
            }),
    {
        let mut coalescer = self.coalescer;
        let mut requests = self.requests;
        coalescer.flush(&mut requests);
        let ghost all = requests@;
        assert(all == coalesced(self.taken@));
        let mut i: usize = 0;
        assert(all.skip(0) =~= all);
        assert(all.take(0) + up_to_close(all.skip(0)) =~= up_to_close(all));
        while i < requests.len()
            invariant
                i <= requests.len(),
                requests@ == all,
                all == coalesced(self.taken@),
                forall|j: int| 0 <= j < i ==> !(#[trigger] all[j] is Close),
                all.take(i as int) + up_to_close(all.skip(i as int)) == up_to_close(all),
            decreases requests.len() - i,
        {
            proof {
                assert(all.skip(i as int)[0] == all[i as int]);
                assert(all.skip(i as int).drop_first() =~= all.skip(i + 1));
                assert(all.take(i as int) + seq![all[i as int]] =~= all.take(i + 1));
            }
            if let RemoteDesktopHelperRequest::Close = requests[i] {
                requests.truncate(i + 1);
                assert(requests@ =~= all.take(i + 1));
                assert(coalesced(self.taken@)[i as int] is Close);
                return (requests, RemoteDesktopRequestBatchOutcome::ShutdownRequested);
            }
            assert(all.take(i as int) + (seq![all[i as int]] + up_to_close(all.skip(i + 1)))
                =~= all.take(i + 1) + up_to_close(all.skip(i + 1)));
            i = i + 1;
        }
        assert(all.skip(i as int) =~= Seq::<RemoteDesktopHelperRequest>::empty());
        assert(all.take(i as int) + up_to_close(all.skip(i as int)) =~= all);
        if disconnected {
            (requests, RemoteDesktopRequestBatchOutcome::ShutdownRequested)
        } else {
            (requests, RemoteDesktopRequestBatchOutcome::Continue)
        }
    }
}

/// What waiting for the first request of a batch came to.
pub enum RequestWait {
    Request(RemoteDesktopHelperRequest),
    TimedOut,
    Disconnected,
}

/// Starts a batch, or says how the writer goes on without one.
pub fn begin_request_batch(wait: RequestWait) -> (r: Result<
    RemoteDesktopRequestBatch,
    RemoteDesktopRequestBatchOutcome,
>)
    ensures
        match wait {
            RequestWait::Request(first) => r is Ok && r->Ok_0.well_formed() && r->Ok_0.taken@
                == seq![first],
            RequestWait::TimedOut => r == Err::<RemoteDesktopRequestBatch, _>(
                RemoteDesktopRequestBatchOutcome::Continue,
            ),
            RequestWait::Disconnected => r == Err::<RemoteDesktopRequestBatch, _>(
                RemoteDesktopRequestBatchOutcome::ShutdownRequested,
            ),
        },
{
    match wait {
        RequestWait::Request(first) => Ok(RemoteDesktopRequestBatch::start(first)),
        RequestWait::TimedOut => Err(RemoteDesktopRequestBatchOutcome::Continue),
        RequestWait::Disconnected => Err(RemoteDesktopRequestBatchOutcome::ShutdownRequested),
    }
}

/// Whether a list of requests closes the session.
pub open spec fn closes(requests: Seq<RemoteDesktopHelperRequest>) -> bool {
    exists|i: int| 0 <= i < requests.len() && #[trigger] requests[i] is Close
}

/// The requests that the next batch takes from those that wait.
pub open spec fn next_batch(waiting: Seq<RemoteDesktopHelperRequest>) -> Seq<
    RemoteDesktopHelperRequest,
> {
    if waiting.len() <= REQUEST_DRAIN_LIMIT + 1 {
        waiting
    } else {
        waiting.take(REQUEST_DRAIN_LIMIT + 1)
    }
}

/// What is written for all requests that wait, batch after batch until one closes the session.
pub open spec fn written(waiting: Seq<RemoteDesktopHelperRequest>) -> Seq<
    RemoteDesktopHelperRequest,
>
    decreases waiting.len(),
{
    if waiting.len() == 0 {
        Seq::empty()
    } else {
        let batch = next_batch(waiting);
        let lines = up_to_close(coalesced(batch));
        if closes(coalesced(batch)) {
            lines
        } else {
            lines + written(waiting.skip(batch.len() as int))
        }
    }
}

/// Writes all requests that wait once their sender is gone.
pub fn write_remote_desktop_requests(requests: &Vec<RemoteDesktopHelperRequest>) -> (r: Vec<
    RemoteDesktopHelperRequest,
>)
    ensures
        r@ == written(requests@),
{
    let mut out: Vec<RemoteDesktopHelperRequest> = Vec::new();
    let mut at: usize = 0;
    assert(requests@.skip(0) =~= requests@);
    assert(out@ + written(requests@) =~= written(requests@));
    while at < requests.len()
        invariant
            at <= requests.len(),
            out@ + written(requests@.skip(at as int)) == written(requests@),
        decreases requests.len() - at,
    {
        let ghost waiting = requests@.skip(at as int);
        let ghost taken = next_batch(waiting);
        let mut batch = RemoteDesktopRequestBatch::start(requests[at]);
        let mut n: usize = 1;
        assert(waiting.take(1) =~= seq![requests@[at as int]]);
        while batch.wants_more() && n < requests.len() - at
            invariant
                at < requests.len(),
                waiting == requests@.skip(at as int),
                1 <= n <= waiting.len(),
                n == batch.drained + 1,
                batch.well_formed(),
                batch.taken@ == waiting.take(n as int),
            decreases waiting.len() - n,
        {
            batch.take_in(requests[at + n]);
            assert(waiting.take(n as int).push(waiting[n as int]) =~= waiting.take(n + 1));
            n = n + 1;
        }
        assert(batch.taken@ =~= taken);
        let (mut lines, outcome) = batch.finish(false);
        let ghost done = out@;
        let ghost new_lines = lines@;
        out.append(&mut lines);
        if outcome == RemoteDesktopRequestBatchOutcome::ShutdownRequested {
            assert(closes(coalesced(taken)));
            return out;
        }
        assert(!closes(coalesced(taken)));
        assert(waiting.skip(n as int) =~= requests@.skip(at + n));
        assert(done + (new_lines + written(requests@.skip(at + n))) =~= (done + new_lines)
            + written(requests@.skip(at + n)));
        at = at + n;
    }
    assert(requests@.skip(at as int) =~= Seq::<RemoteDesktopHelperRequest>::empty());
    assert(out@ + Seq::<RemoteDesktopHelperRequest>::empty() =~= out@);
    out
}

pub open spec fn is_edge(request: RemoteDesktopHelperRequest) -> bool {
    !is_move(request)
}

/// Joining mouse moves neither drops nor reorders any other request.
pub proof fn law_edges_keep_their_order(requests: Seq<RemoteDesktopHelperRequest>)
    ensures
        coalesced(requests).filter(|r: RemoteDesktopHelperRequest| is_edge(r)) == requests.filter(
            |r: RemoteDesktopHelperRequest| is_edge(r),
        ),
    decreases requests.len(),
{
    broadcast use Seq::lemma_filter_push;

    let edge = |r: RemoteDesktopHelperRequest| is_edge(r);
    lemma_pending_is_move(requests);
    if requests.len() > 0 {
        let front = requests.drop_last();
        law_edges_keep_their_order(front);
        lemma_pending_is_move(front);
        let (output, pending) = fed(front);
        assert(requests =~= front.push(requests.last()));
        assert(appended(output, pending).filter(edge) == output.filter(edge));
    } else {
        assert(coalesced(requests) =~= requests);
    }
}

proof fn lemma_pending_is_move(requests: Seq<RemoteDesktopHelperRequest>)
    ensures
        fed(requests).1 matches Some(request) ==> is_move(request),
    decreases requests.len(),
{
    if requests.len() > 0 {
        lemma_pending_is_move(requests.drop_last());
    }
}

proof fn lemma_no_adjacent_moves(requests: Seq<RemoteDesktopHelperRequest>)
    ensures
        forall|i: int|
            0 <= i < fed(requests).0.len() - 1 && is_move(#[trigger] fed(requests).0[i])
                ==> !is_move(fed(requests).0[i + 1]),
        fed(requests).0.len() > 0 ==> !is_move(fed(requests).0.last()),
    decreases requests.len(),
{
    if requests.len() > 0 {
        lemma_no_adjacent_moves(requests.drop_last());
        lemma_pending_is_move(requests.drop_last());
    }
}

/// No two mouse moves follow each other in the output, and a move that comes last is the last one
/// written.
pub proof fn law_moves_are_joined(requests: Seq<RemoteDesktopHelperRequest>)
    ensures
        forall|i: int|
            0 <= i < coalesced(requests).len() - 1 && is_move(#[trigger] coalesced(requests)[i])
                ==> !is_move(coalesced(requests)[i + 1]),
        requests.len() > 0 ==> coalesced(requests).len() > 0 && coalesced(requests).last()
            == requests.last(),
{
    lemma_no_adjacent_moves(requests);
}

/// A mouse move is held back until something else comes; a later one takes its place, and anything
/// else is written behind it.
pub proof fn law_moves_are_held_back(
    requests: Seq<RemoteDesktopHelperRequest>,
    request: RemoteDesktopHelperRequest,
    last: RemoteDesktopHelperRequest,
)
    requires
        last is MouseMove,
    ensures
        request is MouseMove ==> coalesced(requests.push(last).push(request)) == coalesced(
            requests.push(request),
        ),
        !(request is MouseMove) ==> coalesced(requests.push(request)) == coalesced(requests).push(
            request,
        ),
        coalesced(Seq::empty()).len() == 0,
        coalesced(seq![request]) == seq![request],
{
    reveal_with_fuel(fed, 3);
    assert(requests.push(last).drop_last() =~= requests);
    assert(requests.push(request).drop_last() =~= requests);
    assert(requests.push(last).push(request).drop_last() =~= requests.push(last));
    assert(seq![request].drop_last() =~= Seq::<RemoteDesktopHelperRequest>::empty());
    assert(coalesced(seq![request]) =~= seq![request]);
}

/// Nothing is written behind a close, and everything up to it is.
pub proof fn law_nothing_follows_a_close(requests: Seq<RemoteDesktopHelperRequest>, at: int)
    requires
        0 <= at <= requests.len(),
        forall|i: int| 0 <= i < at ==> !(#[trigger] requests[i] is Close),
    ensures
        at < requests.len() && requests[at] is Close ==> up_to_close(requests) == requests.take(
            at + 1,
        ),
        at == requests.len() ==> up_to_close(requests) == requests,
        at < requests.len() && requests[at] is Close ==> closes(requests),
        at == requests.len() ==> !closes(requests),
    decreases at,
{
    if at > 0 {
        let rest = requests.drop_first();
        assert(!(requests[0] is Close));
        assert forall|i: int| 0 <= i < at - 1 implies !(#[trigger] rest[i] is Close) by {
            assert(rest[i] == requests[i + 1]);
        }
        law_nothing_follows_a_close(rest, at - 1);
        if at == requests.len() {
            assert(seq![requests[0]] + rest =~= requests);
        } else if requests[at] is Close {
            assert(rest[at - 1] == requests[at]);
            assert(seq![requests[0]] + rest.take(at) =~= requests.take(at + 1));
        }
    } else if requests.len() > 0 {
        if requests[0] is Close {
            assert(up_to_close(requests) =~= requests.take(1));
        }
    }
}

/// A batch takes what waits, up to 129 requests: the first and 128 behind it. Batches follow each
/// other until one closes the session.
pub proof fn law_batches_follow_each_other(waiting: Seq<RemoteDesktopHelperRequest>)
    ensures
        waiting.len() <= 129 ==> next_batch(waiting) == waiting,
        waiting.len() > 129 ==> next_batch(waiting) == waiting.take(129),
        written(Seq::empty()).len() == 0,
        0 < waiting.len() <= 129 ==> written(waiting) == up_to_close(coalesced(waiting)),
        waiting.len() > 129 && !closes(coalesced(waiting.take(129))) ==> written(waiting)
            == up_to_close(coalesced(waiting.take(129))) + written(waiting.skip(129)),
        waiting.len() > 129 && closes(coalesced(waiting.take(129))) ==> written(waiting)
            == up_to_close(coalesced(waiting.take(129))),
{
    if 0 < waiting.len() <= 129 {
        assert(waiting.skip(waiting.len() as int) =~= Seq::<RemoteDesktopHelperRequest>::empty());
        assert(written(waiting) =~= up_to_close(coalesced(waiting)));
    }
}

} // verus!
