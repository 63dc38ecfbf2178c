//! Reporting middleware: wraps every inbound request, attaches the
//! merged context tags to the request-scoped store, and after the inner
//! handler finishes builds one enriched event per queued diagnostic item
//! or per classified error for the external monitoring sink.
//!
//! The middleware only observes: a successful response passes through
//! untouched, and an error propagates unchanged, reported when it
//! carries a classified error and silently otherwise.

use vstd::prelude::*;

use crate::error::{spec_kind_display, HandlerError, Response};
use crate::tags::{spec_request_tags, RequestHead, TagMap, Tags};

verus! {

/// One event for the external sink: an opaque diagnostic payload plus
/// the two-tier tag mappings attached when the event is forwarded.
pub struct Event {
    pub message: String,
    pub tags: TagMap,
    pub extra: TagMap,
}

impl Event {
    pub open spec fn wf(&self) -> bool {
        self.tags.wf() && self.extra.wf()
    }

    /// A fresh diagnostic event carrying only its payload; the request's
    /// tags are attached later, when the middleware forwards it.
    pub fn new(message: String) -> (e: Event)
        ensures
            e.wf(),
            e.message == message,
            e.tags@ == Map::<Seq<char>, Seq<char>>::empty(),
            e.extra@ == Map::<Seq<char>, Seq<char>>::empty(),
    {
        Event { message, tags: TagMap::new(), extra: TagMap::new() }
    }
}

/// The event a classified error turns into: the rendered kind as the
/// payload, with no tags attached yet.
pub open spec fn is_error_event(e: Event, err: HandlerError) -> bool {
    &&& e.message@ == spec_kind_display(err.spec_kind())
    &&& e.tags@ == Map::<Seq<char>, Seq<char>>::empty()
    &&& e.extra@ == Map::<Seq<char>, Seq<char>>::empty()
}

/// Build the event a classified error is reported as.
pub fn event_from_error(err: &HandlerError) -> (e: Event)
    ensures
        e.wf(),
        is_error_event(e, *err),
{
    Event { message: err.kind().display_string(), tags: TagMap::new(), extra: TagMap::new() }
}

/// What the inner handler chain yields when it fails: either an error
/// that was classified at its origin, or one of an unknown shape, which
/// this layer passes through without reporting.
#[derive(Debug)]
pub enum ServiceError {
    Classified(HandlerError),
    Unclassified(String),
}

/// The request-scoped storage this core consumes: typed slots for the
/// request's tags and for its queued-event list. Exactly one instance
/// exists per in-flight request, owned by that request alone and
/// destroyed with it.
pub struct RequestStore {
    tags: Option<Tags>,
    events: Option<Vec<Event>>,
}

impl RequestStore {
    /// The tags slot.
    pub closed spec fn spec_tags(&self) -> Option<Tags> {
        self.tags
    }

    /// The queued-event slot: absent until the first event is queued.
    pub closed spec fn spec_events(&self) -> Option<Vec<Event>> {
        self.events
    }

    /// The queued events, in the order queued; empty when the slot is
    /// absent.
    pub open spec fn queued(&self) -> Seq<Event> {
        match self.spec_events() {
            Some(v) => v@,
            None => Seq::empty(),
        }
    }

    pub open spec fn wf(&self) -> bool {
        match self.spec_tags() {
            Some(t) => t.wf(),
            None => true,
        }
    }

    /// A fresh store: both slots empty.
    pub fn new() -> (r: RequestStore)
        ensures
            r.wf(),
            r.spec_tags() is None,
            r.spec_events() is None,
    {
        RequestStore { tags: None, events: None }
    }

    pub fn tags(&self) -> (r: Option<&Tags>)
        ensures
            match r {
                Some(t) => self.spec_tags() == Some(*t),
                None => self.spec_tags() is None,
            },
    {
        self.tags.as_ref()
    }

    pub fn set_tags(&mut self, t: Tags)
        requires
            t.wf(),
        ensures
            final(self).wf(),
            final(self).spec_tags() == Some(t),
            final(self).spec_events() == old(self).spec_events(),
    {
        self.tags = Some(t);
    }

    /// Append an event to the queued-event list, creating the list on
    /// first use.
    pub fn push_event(&mut self, e: Event)
        ensures
            final(self).spec_tags() == old(self).spec_tags(),
            final(self).spec_events() is Some,
            final(self).queued() == old(self).queued().push(e),
    {
        match &mut self.events {
            Some(v) => {
                v.push(e);
            },
            None => {
                let mut v: Vec<Event> = Vec::new();
                v.push(e);
                proof {
                    assert(v@ =~= Seq::empty().push(e));
                }
                self.events = Some(v);
            },
        }
    }

    /// Drain the queued-event list. Removing the slot makes the drain
    /// idempotent: a second drain on the same store finds nothing.
    pub fn remove_events(&mut self) -> (r: Option<Vec<Event>>)
        ensures
            r == old(self).spec_events(),
            final(self).spec_events() is None,
            final(self).spec_tags() == old(self).spec_tags(),
            final(self).wf() == old(self).wf(),
    {
        self.events.take()
    }
}

/// Draining the queued-event list is idempotent per request: for any two
/// drains in sequence — each obeying `remove_events`' contract, with the
/// second starting from the store the first left — the first yields
/// everything queued (non-empty whenever anything was queued) and the
/// second yields nothing.
pub proof fn lemma_drain_idempotent(
    s0: RequestStore,
    s1: RequestStore,
    r1: Option<Vec<Event>>,
    s2: RequestStore,
    r2: Option<Vec<Event>>,
)
    requires
        r1 == s0.spec_events(),
        s1.spec_events() is None,
        r2 == s1.spec_events(),
        s2.spec_events() is None,
    ensures
        r2 is None,
        s0.queued().len() > 0 ==> (r1 matches Some(v) && v@.len() > 0),
        r1 matches Some(v) ==> v@ == s0.queued(),
{
}

/// If a service error carries a classified error, queue the event built
/// from it; an error of an unknown shape leaves the store untouched.
pub fn queue_report(store: &mut RequestStore, err: &ServiceError)
    ensures
        final(store).spec_tags() == old(store).spec_tags(),
        match err {
            ServiceError::Classified(h) => {
                &&& final(store).queued().len() == old(store).queued().len() + 1
                &&& final(store).queued().drop_last() == old(store).queued()
                &&& is_error_event(final(store).queued().last(), *h)
            },
            ServiceError::Unclassified(_) => *final(store) == *old(store),
        },
{
    match err {
        ServiceError::Classified(h) => {
            let e = event_from_error(h);
            store.push_event(e);
            proof {
                assert(final(store).queued().drop_last() =~= old(store).queued());
            }
        },
        ServiceError::Unclassified(_) => {},
    }
}

/// Attach the request's tags to an event bound for the external sink:
/// the indexed mapping and the unindexed extra mapping both come from
/// the request's merged tags; the payload stays as queued.
pub fn report(tags: &Tags, event: Event) -> (r: Event)
    requires
        tags.wf(),
    ensures
        r.wf(),
        r.message == event.message,
        r.tags@ == tags.tags@,
        r.extra@ == tags.extra@,
{
    Event { message: event.message, tags: tags.to_report_tags(), extra: tags.to_report_extra() }
}

/// The middleware factory the server installs once.
pub struct SentryWrapper;

impl Default for SentryWrapper {
    fn default() -> (r: Self)
        ensures
            r == (SentryWrapper {  }),
    {
        SentryWrapper {  }
    }
}

impl SentryWrapper {
    /// Wrap the inner service chain: yields the per-request middleware.
    pub fn new_transform(&self) -> (m: SentryWrapperMiddleware)
        ensures
            m == (SentryWrapperMiddleware {  }),
    {
        SentryWrapperMiddleware {  }
    }
}

/// The request-interception layer itself. Each request passes through
/// `begin_request` before the inner handler runs and through
/// `complete_request` once the handler's outcome is known; the caller
/// owns the suspension in between.
pub struct SentryWrapperMiddleware;

impl SentryWrapperMiddleware {
    /// First step of a request: build the base tags from the request
    /// head, merge any tags an earlier layer already stored on top of
    /// them (override wins), store the merged tags, and hand them back
    /// for the completion step.
    pub fn begin_request(&self, store: &mut RequestStore, head: &RequestHead) -> (t: Tags)
        requires
            old(store).wf(),
        ensures
            t.wf(),
            final(store).wf(),
            final(store).spec_events() == old(store).spec_events(),
            final(store).spec_tags() matches Some(st) && st.tags@ == t.tags@ && st.extra@
                == t.extra@,
            match old(store).spec_tags() {
                Some(prior) => t.tags@ == spec_request_tags(*head).union_prefer_right(prior.tags@)
                    && t.extra@ == prior.extra@,
                None => t.tags@ == spec_request_tags(*head) && t.extra@ == Map::<
                    Seq<char>,
                    Seq<char>,
                >::empty(),
            },
    {
        let base = Tags::from_request_head(head);
        let merged = match store.tags() {
            Some(prior) => base.merge(prior),
            None => base,
        };
        proof {
            match old(store).spec_tags() {
                Some(prior) => {
                    assert(Map::<Seq<char>, Seq<char>>::empty().union_prefer_right(prior.extra@)
                        =~= prior.extra@);
                },
                None => {},
            }
        }
        let stored = merged.duplicate();
        store.set_tags(stored);
        merged
    }

    /// Last step of a request. On success, drain the queued-event list
    /// and enrich each event with the request's tags, in the order
    /// queued. On a classified error, build the one event for it,
    /// enriched the same way. An unclassified error yields no event.
    /// Either way the outcome itself passes through unchanged: this
    /// layer never swallows an error and never edits a response.
    pub fn complete_request(
        &self,
        store: &mut RequestStore,
        tags: &Tags,
        outcome: Result<Response, ServiceError>,
    ) -> (r: (Vec<Event>, Result<Response, ServiceError>))
        requires
            tags.wf(),
        ensures
            r.1 == outcome,
            final(store).spec_tags() == old(store).spec_tags(),
            final(store).wf() == old(store).wf(),
            outcome is Ok ==> final(store).spec_events() is None,
            outcome is Err ==> *final(store) == *old(store),
            match outcome {
                Ok(_) => {
                    &&& r.0@.len() == old(store).queued().len()
                    &&& forall|i: int|
                        0 <= i < r.0@.len() ==> r.0@[i].message == old(store).queued()[i].message
                            && r.0@[i].tags@ == tags.tags@ && r.0@[i].extra@ == tags.extra@
                },
                Err(ServiceError::Classified(h)) => r.0@.len() == 1 && r.0@[0].message@
                    == spec_kind_display(h.spec_kind()) && r.0@[0].tags@ == tags.tags@
                    && r.0@[0].extra@ == tags.extra@,
                Err(ServiceError::Unclassified(_)) => r.0@.len() == 0,
            },
    {
        let mut out: Vec<Event> = Vec::new();
        match &outcome {
            Ok(_) => {
                let drained = store.remove_events();
                match drained {
                    Some(mut evs) => {
                        let ghost evs0 = evs@;
                        while evs.len() > 0
                            invariant
                                tags.wf(),
                                out@.len() + evs@.len() == evs0.len(),
                                evs@ =~= evs0.subrange(out@.len() as int, evs0.len() as int),
                                forall|i: int|
                                    0 <= i < out@.len() ==> out@[i].message == evs0[i].message
                                        && out@[i].tags@ == tags.tags@ && out@[i].extra@
                                        == tags.extra@,
                            decreases evs@.len(),
                        {
                            let ghost done = out@.len() as int;
                            let e = evs.remove(0);
                            proof {
                                assert(e == evs0[done]);
                                assert(evs@ =~= evs0.subrange(done + 1, evs0.len() as int));
                            }
                            let enriched = report(tags, e);
                            out.push(enriched);
                        }
                    },
                    None => {},
                }
            },
            Err(e) => {
                match e {
                    ServiceError::Classified(h) => {
                        let built = event_from_error(h);
                        let enriched = report(tags, built);
                        out.push(enriched);
                    },
                    ServiceError::Unclassified(_) => {},
                }
            },
        }
        (out, outcome)
    }
}

} // verus!
