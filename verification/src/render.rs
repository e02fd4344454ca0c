//! The rendering serialization service.
//!
//! One long-lived unit owns the single formatting engine, which is not
//! safe to drive from more than one caller at a time. Invocations
//! enqueue tagged values; the service formats them strictly in arrival
//! order. Every request is keyed by a fresh ticket and every response
//! carries its request's ticket, so a response can only ever be
//! collected by the invocation that asked for it — renderings for
//! concurrent invocations cannot be swapped.

use vstd::prelude::*;

verus! {

/// A tagged value awaiting formatting: one variant per kind the
/// formatting engine knows how to lay out (a parsed term, a resolved
/// term, or an inferred type).
#[derive(Debug, Clone, PartialEq, Eq)]
pub enum ToPrettyPrint<P, C, T> {
    ParseTerm(P),
    CoreTerm(C),
    CoreTy(T),
}

/// One rendering request: a tagged payload keyed by a fresh ticket.
#[derive(Debug, Clone, PartialEq, Eq)]
pub struct RenderRequest<R> {
    pub ticket: u64,
    pub payload: R,
}

/// One rendering response: the formatted text, keyed by the ticket of
/// the request it answers.
#[derive(Debug, Clone, PartialEq, Eq)]
pub struct RenderResponse {
    pub ticket: u64,
    pub text: String,
}

/// The service's inbound queue. Requests leave strictly in arrival
/// order, and every request in it carries a distinct ticket.
pub struct RenderQueue<R> {
    reqs: Vec<RenderRequest<R>>,
    next_ticket: u64,
}

impl<R> View for RenderQueue<R> {
    type V = Seq<RenderRequest<R>>;

    closed spec fn view(&self) -> Seq<RenderRequest<R>> {
        self.reqs@
    }
}

impl<R> RenderQueue<R> {
    /// The ticket the next enqueued request will receive.
    pub closed spec fn next_ticket(&self) -> u64 {
        self.next_ticket
    }

    /// Queued tickets are strictly increasing (so distinct) and all
    /// below the next ticket to be handed out.
    pub open spec fn wf(&self) -> bool {
        &&& forall|i: int, j: int|
            0 <= i < j < self@.len() ==> self@[i].ticket < self@[j].ticket
        &&& forall|i: int| 0 <= i < self@.len() ==> #[trigger] self@[i].ticket < self.next_ticket()
    }

    /// A fresh, empty queue.
    pub fn new() -> (q: Self)
        ensures
            q.wf(),
            q@ === Seq::<RenderRequest<R>>::empty(),
            q.next_ticket() == 0,
    {
        RenderQueue { reqs: Vec::new(), next_ticket: 0 }
    }

    /// Append a request. Never blocks; the queue is unbounded. The
    /// returned ticket is fresh: no request already queued carries it.
    pub fn enqueue(&mut self, payload: R) -> (t: u64)
        requires
            old(self).wf(),
            old(self).next_ticket() < u64::MAX,
        ensures
            final(self).wf(),
            t == old(self).next_ticket(),
            final(self)@ == old(self)@.push(RenderRequest { ticket: t, payload }),
            final(self).next_ticket() == t + 1,
            forall|i: int| 0 <= i < old(self)@.len() ==> #[trigger] old(self)@[i].ticket != t,
    {
        let t = self.next_ticket;
        self.reqs.push(RenderRequest { ticket: t, payload });
        self.next_ticket = t + 1;
        t
    }

    /// Remove and return the oldest request, if any: strictly
    /// first-in, first-out.
    pub fn take_next(&mut self) -> (r: Option<RenderRequest<R>>)
        requires
            old(self).wf(),
        ensures
            final(self).wf(),
            final(self).next_ticket() == old(self).next_ticket(),
            old(self)@.len() == 0 ==> r is None && final(self)@ == old(self)@,
            old(self)@.len() > 0 ==> (r matches Some(req) && req == old(self)@[0] && final(self)@
                == old(self)@.drop_first()),
    {
        if self.reqs.len() == 0 {
            None
        } else {
            let req = self.reqs.remove(0);
            proof {
                assert(self.reqs@ =~= old(self)@.drop_first());
            }
            Some(req)
        }
    }
}

/// The service's processing loop over everything queued so far:
/// dequeue strictly in arrival order, dispatch each tagged value to
/// the formatter, and answer under the request's own ticket. The i-th
/// response answers the i-th request, for every i.
pub fn pretty_printing<R, F: Fn(R) -> String>(q: &mut RenderQueue<R>, format: &F) -> (out: Vec<
    RenderResponse,
>)
    requires
        old(q).wf(),
        forall|i: int| 0 <= i < old(q)@.len() ==> call_requires(*format, (old(q)@[i].payload,)),
    ensures
        final(q).wf(),
        final(q)@.len() == 0,
        final(q).next_ticket() == old(q).next_ticket(),
        out@.len() == old(q)@.len(),
        forall|i: int|
            0 <= i < out@.len() ==> (#[trigger] out@[i]).ticket == old(q)@[i].ticket
                && call_ensures(*format, (old(q)@[i].payload,), out@[i].text),
{
    let mut out: Vec<RenderResponse> = Vec::new();
    loop
        invariant
            q.wf(),
            q.next_ticket() == old(q).next_ticket(),
            out@.len() + q@.len() == old(q)@.len(),
            q@ == old(q)@.skip(out@.len() as int),
            forall|i: int|
                0 <= i < old(q)@.len() ==> call_requires(*format, (old(q)@[i].payload,)),
            forall|i: int|
                0 <= i < out@.len() ==> (#[trigger] out@[i]).ticket == old(q)@[i].ticket
                    && call_ensures(*format, (old(q)@[i].payload,), out@[i].text),
        ensures
            q@.len() == 0,
        decreases q@.len(),
    {
        proof {
            assert(old(q)@.skip(out@.len() as int) =~= q@);
            if q@.len() > 0 {
                assert(old(q)@[out@.len() as int] == q@[0]);
            }
        }
        match q.take_next() {
            None => {
                break ;
            },
            Some(req) => {
                let text = format(req.payload);
                out.push(RenderResponse { ticket: req.ticket, text });
                proof {
                    assert(q@ =~= old(q)@.skip(out@.len() as int));
                }
            },
        }
    }
    out
}

/// The shared pool of responses already produced but not yet read.
/// Each invocation collects only the response carrying its own ticket.
pub struct Deliveries {
    resps: Vec<RenderResponse>,
}

impl View for Deliveries {
    type V = Seq<RenderResponse>;

    closed spec fn view(&self) -> Seq<RenderResponse> {
        self.resps@
    }
}

impl Deliveries {
    /// No two pending responses answer the same ticket.
    pub open spec fn wf(&self) -> bool {
        forall|i: int, j: int|
            0 <= i < j < self@.len() ==> (#[trigger] self@[i]).ticket != (#[trigger] self@[j]).ticket
    }

    /// An empty pool.
    pub fn new() -> (d: Self)
        ensures
            d.wf(),
            d@ === Seq::<RenderResponse>::empty(),
    {
        Deliveries { resps: Vec::new() }
    }

    /// Add a response to the pool.
    pub fn deliver(&mut self, r: RenderResponse)
        requires
            old(self).wf(),
            forall|i: int| 0 <= i < old(self)@.len() ==> (#[trigger] old(self)@[i]).ticket
                != r.ticket,
        ensures
            final(self).wf(),
            final(self)@ == old(self)@.push(r),
    {
        self.resps.push(r);
    }

    /// Collect the response to one's own request: exactly the pending
    /// response carrying `ticket`, if it has been delivered; the pool
    /// keeps everything else.
    pub fn collect(&mut self, ticket: u64) -> (r: Option<String>)
        requires
            old(self).wf(),
        ensures
            final(self).wf(),
            r matches Some(text) ==> exists|i: int|
                0 <= i < old(self)@.len() && (#[trigger] old(self)@[i]).ticket == ticket
                    && old(self)@[i].text == text && final(self)@ == old(self)@.remove(i),
            r is None ==> final(self)@ == old(self)@ && forall|i: int|
                0 <= i < old(self)@.len() ==> (#[trigger] old(self)@[i]).ticket != ticket,
    {
        let mut i: usize = 0;
        while i < self.resps.len()
            invariant
                old(self).wf(),
                self@ == old(self)@,
                i <= self@.len(),
                forall|j: int| 0 <= j < i ==> (#[trigger] self@[j]).ticket != ticket,
            decreases self@.len() - i,
        {
            if self.resps[i].ticket == ticket {
                let resp = self.resps.remove(i);
                proof {
                    let s0 = old(self)@;
                    assert(self@ =~= s0.subrange(0, i as int) + s0.subrange(
                        i as int + 1,
                        s0.len() as int,
                    ));
                    assert forall|a: int, b: int|
                        0 <= a < b < self@.len() implies self@[a].ticket != self@[b].ticket by {
                        let a0: int = if a < i { a } else { a + 1 };
                        let b0: int = if b < i { b } else { b + 1 };
                        assert(0 <= a0 < b0 < old(self)@.len());
                        assert(self@[a] == old(self)@[a0]);
                        assert(self@[b] == old(self)@[b0]);
                        assert((#[trigger] old(self)@[a0]).ticket != (#[trigger] old(self)@[b0]).ticket);
                    }
                }
                return Some(resp.text);
            }
            i += 1;
        }
        None
    }
}

/// Law: interleaved invocations cannot be handed each other's
/// renderings. When every pending response carries a distinct ticket,
/// the response pending under one invocation's ticket is unique —
/// whatever order concurrent deliveries arrived in, collecting by
/// one's own ticket can only yield one's own text.
pub proof fn lemma_collect_is_own_response(d: Deliveries, ticket: u64, i: int)
    requires
        d.wf(),
        0 <= i < d@.len(),
        d@[i].ticket == ticket,
    ensures
        forall|j: int|
            0 <= j < d@.len() && (#[trigger] d@[j]).ticket == ticket ==> j == i && d@[j].text
                == d@[i].text,
{
    assert forall|j: int|
        0 <= j < d@.len() && (#[trigger] d@[j]).ticket == ticket implies j == i && d@[j].text
        == d@[i].text by {
        if j < i {
            assert(d@[j].ticket != d@[i].ticket);
        } else if j > i {
            assert(d@[i].ticket != d@[j].ticket);
        }
    }
}

} // verus!
