//! The dispatcher: which handlers answer a request, and when connections
//! are taken on.

use crate::error::EspressoProcessingError;
use crate::request::{EspressoRequest, RequestMethod, StepView, StreamStep};
use crate::response::{reason_bad_request, EspressoResponse, ResponseView};
use crate::text::same;
use crate::threads::TPool;
use vstd::prelude::*;
use vstd::string::StringSliceAdditionalSpecFns;

verus! {

/// The mathematical content of a route.
pub struct RouteView {
    pub method: Option<RequestMethod>,
    pub pattern: Seq<u8>,
}

/// The registration of one handler: the path it answers, and the method it
/// is bound to unless it answers all methods.
#[derive(Clone, Debug, PartialEq, Eq)]
pub struct Route {
    /// The method, or `None` for a handler of all methods.
    pub method: Option<RequestMethod>,
    /// The path, matched byte for byte.
    pub pattern: Vec<u8>,
}

impl View for Route {
    type V = RouteView;

    open spec fn view(&self) -> RouteView {
        RouteView { method: self.method, pattern: self.pattern@ }
    }
}

/// Whether a route answers requests of that method for that path: the
/// pattern is the path, byte for byte, and the route is bound to no other
/// method.
pub open spec fn serves(route: RouteView, method: RequestMethod, path: Seq<u8>) -> bool {
    route.pattern == path && (route.method is None || route.method == Some(method))
}

/// The handlers that answer a request, as positions in the order of
/// registration, ascending.
pub open spec fn selected(routes: Seq<RouteView>, method: RequestMethod, path: Seq<u8>) -> Seq<
    usize,
>
    decreases routes.len(),
{
    if routes.len() == 0 {
        Seq::empty()
    } else {
        let earlier = selected(routes.drop_last(), method, path);
        if serves(routes.last(), method, path) {
            earlier.push((routes.len() - 1) as usize)
        } else {
            earlier
        }
    }
}

/// Every handler that answers a request is selected exactly once, and the
/// selection follows the order of registration: it holds the positions of
/// the serving routes and no others, in strictly ascending order.
pub proof fn lemma_selected_once_in_order(
    routes: Seq<RouteView>,
    method: RequestMethod,
    path: Seq<u8>,
)
    requires
        routes.len() <= usize::MAX,
    ensures
        forall|i: int|
            0 <= i < routes.len() ==> (serves(#[trigger] routes[i], method, path) <==> selected(
                routes,
                method,
                path,
            ).contains(i as usize)),
        forall|k: int|
            0 <= k < selected(routes, method, path).len() ==> (#[trigger] selected(
                routes,
                method,
                path,
            )[k]) < routes.len(),
        forall|k: int, l: int|
            0 <= k < l < selected(routes, method, path).len() ==> (#[trigger] selected(
                routes,
                method,
                path,
            )[k]) < (#[trigger] selected(routes, method, path)[l]),
    decreases routes.len(),
{
    let s = selected(routes, method, path);
    if routes.len() > 0 {
        let shorter = routes.drop_last();
        let earlier = selected(shorter, method, path);
        let last = (routes.len() - 1) as usize;
        lemma_selected_once_in_order(shorter, method, path);
        assert forall|i: int| 0 <= i < routes.len() implies (serves(
            #[trigger] routes[i],
            method,
            path,
        ) <==> s.contains(i as usize)) by {
            if i < routes.len() - 1 {
                assert(shorter[i] == routes[i]);
                if earlier.contains(i as usize) {
                    let k = choose|k: int| 0 <= k < earlier.len() && earlier[k] == i as usize;
                    assert(s[k] == i as usize);
                }
            } else if serves(routes.last(), method, path) {
                assert(s[s.len() - 1] == last);
            }
        }
    }
}

/// Two handlers registered for all methods under one path both answer a
/// request for that path, each once, the one registered first before the
/// other.
pub proof fn lemma_both_handlers_run(
    routes: Seq<RouteView>,
    first: int,
    second: int,
    method: RequestMethod,
    path: Seq<u8>,
)
    requires
        routes.len() <= usize::MAX,
        0 <= first < second < routes.len(),
        routes[first] == (RouteView { method: None, pattern: path }),
        routes[second] == (RouteView { method: None, pattern: path }),
    ensures
        exists|k: int, l: int|
            0 <= k < l < selected(routes, method, path).len() && #[trigger] selected(
                routes,
                method,
                path,
            )[k] == first as usize && #[trigger] selected(routes, method, path)[l]
                == second as usize,
        forall|k: int, l: int|
            0 <= k < selected(routes, method, path).len() && 0 <= l < selected(
                routes,
                method,
                path,
            ).len() && #[trigger] selected(routes, method, path)[k] == #[trigger] selected(
                routes,
                method,
                path,
            )[l] ==> k == l,
{
    let s = selected(routes, method, path);
    lemma_selected_once_in_order(routes, method, path);
    let k = choose|k: int| 0 <= k < s.len() && s[k] == first as usize;
    let l = choose|l: int| 0 <= l < s.len() && s[l] == second as usize;
    assert(k < l);
}

/// The mathematical content of a dispatcher.
pub struct EspressoView {
    /// The address to serve on.
    pub addr: Seq<char>,
    /// The registered routes, in the order of registration.
    pub routes: Seq<RouteView>,
    /// Whether the routes are frozen and connections are taken on.
    pub listening: bool,
}

/// The dispatcher of a server: its address, the routes registered before it
/// listens, and from then on the frozen table that all connections share.
#[derive(Clone, Debug)]
pub struct Espresso {
    addr: String,
    routes: Vec<Route>,
    listening: bool,
}

impl View for Espresso {
    type V = EspressoView;

    closed spec fn view(&self) -> EspressoView {
        EspressoView {
            addr: self.addr@,
            routes: Seq::new(self.routes@.len(), |i: int| self.routes@[i]@),
            listening: self.listening,
        }
    }
}

/// The response that answers a request that could not be read: status 400
/// with its reason phrase, no headers and an empty body.
pub open spec fn rejection() -> ResponseView {
    ResponseView {
        status: 400,
        message: reason_bad_request(),
        body: Seq::empty(),
        headers: Seq::empty(),
    }
}

/// What the task of a connection does next, in mathematical terms.
pub enum TurnView {
    /// Read what the stream demands and step it again.
    Read,
    /// Run these handlers in this order on a fresh response, send it, and
    /// go on with the connection.
    Answer(Seq<usize>),
    /// Send this response and close the connection.
    Refuse(ResponseView),
    /// Close the connection.
    Close,
}

/// What the task of a connection does next.
#[derive(Debug, PartialEq, Eq)]
pub enum Turn {
    /// Read what the stream demands and step it again.
    Read,
    /// Run these handlers in this order on a fresh response, send it, and
    /// go on with the connection.
    Answer(Vec<usize>),
    /// Send this response and close the connection.
    Refuse(EspressoResponse),
    /// Close the connection.
    Close,
}

impl Turn {
    /// Whether the turn is the one that `v` describes.
    pub open spec fn amounts_to(&self, v: TurnView) -> bool {
        match (*self, v) {
            (Turn::Read, TurnView::Read) => true,
            (Turn::Answer(ids), TurnView::Answer(chosen)) => ids@ == chosen,
            (Turn::Refuse(response), TurnView::Refuse(content)) => response@ == content
                && response.headers.wf(),
            (Turn::Close, TurnView::Close) => true,
            _ => false,
        }
    }
}

/// The turn that follows a step of a connection's stream: a frame is
/// answered by the handlers selected for it, a faulty request is refused
/// with status 400 and the connection closed, the end of the stream closes
/// it, and a stream that needs input is read for.
pub open spec fn turn_after(routes: Seq<RouteView>, step: StepView) -> TurnView {
    match step {
        StepView::NeedLine => TurnView::Read,
        StepView::NeedBody(_) => TurnView::Read,
        StepView::Frame(request) => TurnView::Answer(
            selected(routes, request.method, request.resource),
        ),
        StepView::Failed(_) => TurnView::Refuse(rejection()),
        StepView::Closed => TurnView::Close,
    }
}

/// Whether the connection goes on after a turn: it does while its stream
/// is read for, and after the answer to a frame that the connection took;
/// `delivered` says whether it took the response of the turn.
pub open spec fn goes_on(turn: TurnView, delivered: bool) -> bool {
    match turn {
        TurnView::Read => true,
        TurnView::Answer(_) => delivered,
        TurnView::Refuse(_) => false,
        TurnView::Close => false,
    }
}

impl Espresso {
    /// A dispatcher for the address `addr`, without routes, not yet listening.
    pub fn new(addr: &str) -> (e: Espresso)
        ensures
            e@ == (EspressoView { addr: addr@, routes: Seq::empty(), listening: false }),
    {
        let e = Espresso { addr: addr.to_owned(), routes: Vec::new(), listening: false };
        assert(e@.routes =~= Seq::<RouteView>::empty());
        e
    }

    /// The address to serve on.
    pub fn addr(&self) -> (addr: &str)
        ensures
            addr@ == self@.addr,
    {
        self.addr.as_str()
    }

    /// Whether the dispatcher is listening.
    pub fn is_listening(&self) -> (listening: bool)
        ensures
            listening == self@.listening,
    {
        self.listening
    }

    /// The number of routes registered.
    pub fn route_count(&self) -> (n: usize)
        ensures
            n == self@.routes.len(),
    {
        self.routes.len()
    }

    /// Registers a route behind those registered before, unless the
    /// dispatcher listens already. Gives the position of the new route.
    fn register(&mut self, method: Option<RequestMethod>, pattern: &str) -> (r: Option<usize>)
        ensures
            match r {
                Some(id) => !old(self)@.listening && id == old(self)@.routes.len() && final(self)@
                    == (EspressoView {
                    routes: old(self)@.routes.push(
                        RouteView { method, pattern: pattern.spec_bytes() },
                    ),
                    ..old(self)@
                }),
                None => old(self)@.listening && final(self)@ == old(self)@,
            },
    {
        if self.listening {
            return None;
        }
        let id = self.routes.len();
        let mut bytes: Vec<u8> = Vec::new();
        bytes.extend_from_slice(pattern.as_bytes());
        assert(bytes@ =~= pattern.spec_bytes());
        self.routes.push(Route { method, pattern: bytes });
        assert(self@.routes =~= old(self)@.routes.push(
            RouteView { method, pattern: pattern.spec_bytes() },
        ));
        Some(id)
    }

    /// Registers a handler of all methods for the path `pattern`. Gives the
    /// handler's position in the order of registration, or `None`, with
    /// nothing registered, once the dispatcher listens.
    pub fn all(&mut self, pattern: &str) -> (r: Option<usize>)
        ensures
            match r {
                Some(id) => !old(self)@.listening && id == old(self)@.routes.len() && final(self)@
                    == (EspressoView {
                    routes: old(self)@.routes.push(
                        RouteView { method: None, pattern: pattern.spec_bytes() },
                    ),
                    ..old(self)@
                }),
                None => old(self)@.listening && final(self)@ == old(self)@,
            },
    {
        self.register(None, pattern)
    }

    /// Registers a handler of one method for the path `pattern`. Gives the
    /// handler's position in the order of registration, or `None`, with
    /// nothing registered, once the dispatcher listens.
    pub fn register_fn_handler(&mut self, pattern: &str, method: RequestMethod) -> (r: Option<
        usize,
    >)
        ensures
            match r {
                Some(id) => !old(self)@.listening && id == old(self)@.routes.len() && final(self)@
                    == (EspressoView {
                    routes: old(self)@.routes.push(
                        RouteView { method: Some(method), pattern: pattern.spec_bytes() },
                    ),
                    ..old(self)@
                }),
                None => old(self)@.listening && final(self)@ == old(self)@,
            },
    {
        self.register(Some(method), pattern)
    }

    /// Freezes the routes: from now on the dispatcher takes connections on
    /// and registers nothing further.
    pub fn listen(&mut self)
        ensures
            final(self)@ == (EspressoView { listening: true, ..old(self)@ }),
    {
        self.listening = true;
    }

    /// Takes a connection on by queueing its task with the pool: one task
    /// per connection. Before the dispatcher listens the connection is
    /// refused and the pool left alone; a pool that accepts no task fails
    /// the dispatch.
    pub fn handle_stream<J, P: TPool<J>>(&self, pool: &mut P, connection: J) -> (r: Result<
        (),
        EspressoProcessingError,
    >)
        requires
            old(pool).valid(),
        ensures
            final(pool).valid(),
            r is Ok <==> self@.listening && old(pool).accepting(),
            r is Err ==> r->Err_0 == if self@.listening {
                EspressoProcessingError::FailedThreadPool
            } else {
                EspressoProcessingError::HandleBeforeListen
            },
            final(pool).queued() == if r is Ok {
                old(pool).queued().push(connection)
            } else {
                old(pool).queued()
            },
            !self@.listening ==> *final(pool) == *old(pool),
    {
        if !self.listening {
            return Err(EspressoProcessingError::HandleBeforeListen);
        }
        pool.exec(connection)
    }

    /// The handlers that answer `request`, as positions in the order of
    /// registration: each handler whose route serves the request's method
    /// and path, once, earlier registrations first.
    pub fn matching(&self, request: &EspressoRequest) -> (r: Vec<usize>)
        ensures
            r@ == selected(self@.routes, request@.method, request@.resource),
    {
        let mut found: Vec<usize> = Vec::new();
        let mut i: usize = 0;
        while i < self.routes.len()
            invariant
                i <= self.routes@.len(),
                found@ == selected(
                    self@.routes.take(i as int),
                    request@.method,
                    request@.resource,
                ),
            decreases self.routes@.len() - i,
        {
            let route = &self.routes[i];
            let bound = match route.method {
                None => true,
                Some(m) => m == request.method,
            };
            proof {
                let routes = self@.routes;
                assert(routes.take(i + 1).drop_last() =~= routes.take(i as int));
            }
            if bound && same(route.pattern.as_slice(), request.resource.as_slice()) {
                found.push(i);
            }
            i += 1;
        }
        assert(self@.routes.take(i as int) =~= self@.routes);
        found
    }

    /// Decides what the task of a connection does after a step of its
    /// stream (see `turn_after`).
    pub fn turn(&self, step: &StreamStep) -> (r: Turn)
        ensures
            forall|v: StepView| step.amounts_to(v) ==> r.amounts_to(turn_after(self@.routes, v)),
    {
        match step {
            StreamStep::NeedLine => Turn::Read,
            StreamStep::NeedBody(_) => Turn::Read,
            StreamStep::Frame(frame) => Turn::Answer(self.matching(&frame.request)),
            StreamStep::Failed(_) => Turn::Refuse(Espresso::reject()),
            StreamStep::Closed => Turn::Close,
        }
    }

    /// Decides whether the connection goes on after a turn whose response,
    /// if any, was handed to the connection (see `goes_on`). A response
    /// that the connection did not take is not sent again.
    pub fn proceed(turn: &Turn, delivered: bool) -> (r: bool)
        ensures
            forall|v: TurnView| turn.amounts_to(v) ==> r == goes_on(v, delivered),
    {
        match turn {
            Turn::Read => true,
            Turn::Answer(_) => delivered,
            Turn::Refuse(_) => false,
            Turn::Close => false,
        }
    }

    /// The response that answers a request that could not be read, after
    /// which the connection is closed (see `rejection`).
    pub fn reject() -> (r: EspressoResponse)
        ensures
            r@ == rejection(),
            r.headers.wf(),
    {
        let mut response = EspressoResponse::new();
        response.status(400);
        response
    }
}

} // verus!
