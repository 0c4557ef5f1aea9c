use vstd::prelude::*;
use crate::decode::{decode_query, decoded_map};
use crate::parse::TextParsable;
use crate::query_map::QueryMap;

verus! {

/// Read access to the query map that the binder attached to a request.
pub trait RequestQueryExt {
    /// The context is internally consistent.
    spec fn well_formed(&self) -> bool;

    /// The bound map, or `None` where no binder ran on this request.
    spec fn bound_queries(&self) -> Option<Map<Seq<char>, Seq<char>>>;

    /// Whether a binder has run on this request.
    fn has_queries(&self) -> (r: bool)
        requires
            self.well_formed(),
        ensures
            r == self.bound_queries() is Some,
    ;

    /// The whole bound map. Reading it before a binder ran is a wiring error,
    /// ruled out by the precondition.
    fn queries(&self) -> (r: &QueryMap)
        requires
            self.well_formed(),
            self.bound_queries() is Some,
        ensures
            r.wf(),
            r@ == self.bound_queries()->Some_0,
    ;

    /// The value of one parameter, or `None` where the request has none of
    /// that name.
    fn query(&self, name: &str) -> (r: Option<&String>)
        requires
            self.well_formed(),
            self.bound_queries() is Some,
        ensures
            r is Some <==> self.bound_queries()->Some_0.contains_key(name@),
            r is Some ==> r->Some_0@ == self.bound_queries()->Some_0[name@],
    ;

    /// The value of one parameter read as a `T`: `None` where the parameter
    /// is missing, otherwise the outcome of reading its text.
    fn query_parsed<T: TextParsable>(&self, name: &str) -> (r: Option<Result<T, T::Err>>)
        requires
            self.well_formed(),
            self.bound_queries() is Some,
        ensures
            r is Some <==> self.bound_queries()->Some_0.contains_key(name@),
            r is Some ==> (r->Some_0 is Ok <==> T::accepts(self.bound_queries()->Some_0[name@])),
            r is Some && r->Some_0 is Ok ==> r->Some_0->Ok_0 == T::value_of(
                self.bound_queries()->Some_0[name@],
            ),
    ;
}

/// The request-scoped slot that carries the decoded query from the binder to
/// the handlers of one request.
pub struct RequestContext {
    queries: Option<QueryMap>,
}

impl RequestContext {
    /// A context on which no binder has run yet.
    pub fn new() -> (r: RequestContext)
        ensures
            r.well_formed(),
            r.bound_queries() is None,
    {
        RequestContext { queries: None }
    }

    /// Decodes the request's raw query string (absent where its URI has no
    /// `?`) and binds the map to this context, replacing any earlier binding.
    /// It never fails.
    pub fn bind_query(&mut self, query: Option<&str>)
        ensures
            final(self).well_formed(),
            final(self).bound_queries() == Some(
                decoded_map(
                    match query {
                        Some(q) => Some(q@),
                        None => None,
                    },
                ),
            ),
    {
        self.queries = Some(decode_query(query));
    }
}

impl RequestQueryExt for RequestContext {
    closed spec fn well_formed(&self) -> bool {
        self.queries is Some ==> self.queries->Some_0.wf()
    }

    closed spec fn bound_queries(&self) -> Option<Map<Seq<char>, Seq<char>>> {
        match self.queries {
            Some(m) => Some(m@),
            None => None,
        }
    }

    fn has_queries(&self) -> (r: bool) {
        self.queries.is_some()
    }

    fn queries(&self) -> (r: &QueryMap) {
        self.queries.as_ref().unwrap()
    }

    fn query(&self, name: &str) -> (r: Option<&String>) {
        self.queries().get(name)
    }

    fn query_parsed<T: TextParsable>(&self, name: &str) -> (r: Option<Result<T, T::Err>>) {
        match self.query(name) {
            Some(text) => Some(T::parse_text(text.as_str())),
            None => None,
        }
    }
}

} // verus!
