use calbot::render::{pretty_printing, Deliveries, RenderQueue, ToPrettyPrint};

type Req = ToPrettyPrint<String, String, String>;

fn format_tag(r: Req) -> String {
    match r {
        ToPrettyPrint::ParseTerm(p) => format!("parse:{}", p),
        ToPrettyPrint::CoreTerm(c) => format!("core:{}", c),
        ToPrettyPrint::CoreTy(t) => format!("ty:{}", t),
    }
}

#[test]
fn take_next_is_first_in_first_out() {
    let mut q: RenderQueue<Req> = RenderQueue::new();
    let t0 = q.enqueue(ToPrettyPrint::ParseTerm("a".to_string()));
    let t1 = q.enqueue(ToPrettyPrint::CoreTy("b".to_string()));
    let first = q.take_next().unwrap();
    assert_eq!(first.ticket, t0);
    assert_eq!(first.payload, ToPrettyPrint::ParseTerm("a".to_string()));
    let second = q.take_next().unwrap();
    assert_eq!(second.ticket, t1);
    assert_eq!(second.payload, ToPrettyPrint::CoreTy("b".to_string()));
    assert!(q.take_next().is_none());
}

#[test]
fn tickets_are_fresh_and_increasing() {
    let mut q: RenderQueue<Req> = RenderQueue::new();
    let mut tickets = Vec::new();
    for i in 0..10 {
        tickets.push(q.enqueue(ToPrettyPrint::ParseTerm(format!("t{}", i))));
    }
    for i in 0..10 {
        for j in 0..10 {
            if i != j {
                assert_ne!(tickets[i], tickets[j]);
            }
        }
    }
}

#[test]
fn responses_answer_requests_in_arrival_order() {
    let mut q: RenderQueue<Req> = RenderQueue::new();
    let mut tickets = Vec::new();
    for i in 0..5 {
        tickets.push(q.enqueue(ToPrettyPrint::ParseTerm(format!("t{}", i))));
    }
    let out = pretty_printing(&mut q, &format_tag);
    assert_eq!(out.len(), 5);
    for i in 0..5 {
        assert_eq!(out[i].ticket, tickets[i]);
        assert_eq!(out[i].text, format!("parse:t{}", i));
    }
    assert!(q.take_next().is_none());
}

#[test]
fn dispatch_follows_the_tag() {
    let mut q: RenderQueue<Req> = RenderQueue::new();
    q.enqueue(ToPrettyPrint::ParseTerm("p".to_string()));
    q.enqueue(ToPrettyPrint::CoreTerm("c".to_string()));
    q.enqueue(ToPrettyPrint::CoreTy("t".to_string()));
    let out = pretty_printing(&mut q, &format_tag);
    assert_eq!(out[0].text, "parse:p");
    assert_eq!(out[1].text, "core:c");
    assert_eq!(out[2].text, "ty:t");
}

#[test]
fn interleaved_invocations_get_their_own_responses() {
    // Two invocations whose rendering requests interleave: each must
    // receive its own rendering, never the other's, whichever of them
    // reads first.
    let mut q: RenderQueue<Req> = RenderQueue::new();
    let ta = q.enqueue(ToPrettyPrint::ParseTerm("ida".to_string()));
    let tb = q.enqueue(ToPrettyPrint::CoreTerm("idb".to_string()));
    assert_ne!(ta, tb);
    let out = pretty_printing(&mut q, &format_tag);
    let mut pool = Deliveries::new();
    for r in out {
        pool.deliver(r);
    }
    // The later invocation reads the shared pool first.
    assert_eq!(pool.collect(tb), Some("core:idb".to_string()));
    assert_eq!(pool.collect(ta), Some("parse:ida".to_string()));
    assert_eq!(pool.collect(ta), None);
    assert_eq!(pool.collect(tb), None);
}

#[test]
fn collect_without_delivery_is_none() {
    let mut pool = Deliveries::new();
    assert_eq!(pool.collect(7), None);
}
