//! Decisions of the namespace watch loop.
//!
//! The loop itself lives with the stream: it receives events, reads the
//! credential config, and hands both to the reconciler. Which namespaces a
//! given event must converge is decided here.

use vstd::prelude::*;

verus! {

/// A namespace lifecycle event, restricted to active-phase namespaces: one
/// changed or new namespace, a full resync snapshot replacing prior
/// knowledge, or any other stream item.
pub enum NsEvent {
    Applied(String),
    Restarted(Vec<String>),
    Other,
}

/// Which namespaces a namespace-stream event converges: the one applied
/// namespace, the entire resync snapshot, or none for any other event.
/// `Some` obliges the caller to read the current credential config and run
/// a convergence pass over exactly these namespaces.
pub fn namespaces_to_sync(e: NsEvent) -> (r: Option<Vec<String>>)
    ensures
        match e {
            NsEvent::Applied(ns) => r.deep_view() == Option::Some(seq![ns@]),
            NsEvent::Restarted(l) => r.deep_view() == Option::Some(l.deep_view()),
            NsEvent::Other => r is None,
        },
{
    match e {
        NsEvent::Applied(ns) => {
            let mut v: Vec<String> = Vec::new();
            v.push(ns);
            proof {
                assert(v.deep_view() =~= seq![v@[0]@]);
            }
            Option::Some(v)
        },
        NsEvent::Restarted(l) => Option::Some(l),
        NsEvent::Other => Option::None,
    }
}

} // verus!
