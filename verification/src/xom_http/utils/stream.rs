//! Choosing the route that answers a request.
use vstd::prelude::*;
use super::{Request, Route};

verus! {

/// Route `i` is the first route whose endpoint is `endpoint`.
pub open spec fn is_first_route(routes: Seq<Route>, endpoint: Seq<char>, i: int) -> bool {
    &&& 0 <= i < routes.len()
    &&& routes[i].endpoint@ == endpoint
    &&& forall|j: int| 0 <= j < i ==> (#[trigger] routes[j]).endpoint@ != endpoint
}

/// The route that answers `req`: the first whose endpoint is the request's
/// endpoint; `None` when there is none (the request is answered with the
/// 404 page).
pub fn handle(routes: &Vec<Route>, req: &Request) -> (r: Option<usize>)
    ensures
        r matches Some(i) ==> is_first_route(routes@, req.endpoint@, i as int),
        r is None ==> forall|j: int|
            0 <= j < routes@.len() ==> (#[trigger] routes@[j]).endpoint@ != req.endpoint@,
{
    let mut i: usize = 0;
    while i < routes.len()
        invariant
            i <= routes.len(),
            forall|j: int| 0 <= j < i ==> (#[trigger] routes@[j]).endpoint@ != req.endpoint@,
        decreases routes.len() - i,
    {
        if req.endpoint == routes[i].endpoint {
            return Some(i);
        }
        i = i + 1;
    }
    None
}

} // verus!
