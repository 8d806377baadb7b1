//! Route declarations and the table that is populated from them.
use crate::method::{lemma_token_of_named, method_of, Method};
use vstd::prelude::*;

verus! {

/// A route as the table keys it: the method token and the path template,
/// both verbatim.
pub type Route = (Seq<char>, Seq<char>);

/// One route declaration: a method, a path template and the factory that
/// makes the handler.
pub struct RouteRegistration<F> {
    pub method: &'static str,
    pub path: &'static str,
    pub handler_fn: F,
}

/// The method token of a declaration whose site wrote `token`: the token
/// itself where it names a method, `GET` where it names none.
pub open spec fn declared_method(token: Seq<char>) -> Seq<char> {
    match method_of(token) {
        Some(method) => method.token(),
        None => Method::Get.token(),
    }
}

/// The path template of a declaration: the one its site wrote, or `/`
/// where the site wrote none.
pub open spec fn declared_path(path: Option<&'static str>) -> Seq<char> {
    match path {
        Some(template) => template@,
        None => "/"@,
    }
}

impl<F> RouteRegistration<F> {
    /// The route that the declaration is for.
    pub open spec fn route(&self) -> Route {
        (self.method@, self.path@)
    }

    /// The declaration for a handler whose site names `token` as the method
    /// and `path` as the template. A token that names no method stands for
    /// `GET`, a missing template for `/`; the factory is kept as it is.
    pub fn declare(token: &str, path: Option<&'static str>, handler_fn: F) -> (declaration: Self)
        ensures
            declaration.method@ == declared_method(token@),
            declaration.path@ == declared_path(path),
            declaration.handler_fn == handler_fn,
    {
        let method = Method::from_token(token).as_str();
        let path = match path {
            Some(template) => template,
            None => "/",
        };
        RouteRegistration { method, path, handler_fn }
    }
}

/// The index of the last declaration for a route, if there is any.
pub open spec fn last_declaring<F>(declarations: Seq<RouteRegistration<F>>, route: Route) -> Option<
    int,
>
    decreases declarations.len(),
{
    if declarations.len() == 0 {
        None
    } else if declarations.last().route() == route {
        Some(declarations.len() - 1)
    } else {
        last_declaring(declarations.drop_last(), route)
    }
}

/// `last_declaring` finds a declaration for the route that no later one
/// repeats, and finds none only where no declaration is for the route.
pub proof fn lemma_last_declaring<F>(declarations: Seq<RouteRegistration<F>>, route: Route)
    ensures
        match last_declaring(declarations, route) {
            Some(i) => {
                &&& 0 <= i < declarations.len()
                &&& declarations[i].route() == route
                &&& forall|j: int|
                    i < j < declarations.len() ==> #[trigger] declarations[j].route() != route
            },
            None => forall|j: int|
                0 <= j < declarations.len() ==> #[trigger] declarations[j].route() != route,
        },
    decreases declarations.len(),
{
    if declarations.len() > 0 && declarations.last().route() != route {
        let front = declarations.drop_last();
        lemma_last_declaring(front, route);
        assert(forall|j: int| 0 <= j < front.len() ==> front[j] == declarations[j]);
    }
}

/// A declaration that no later one repeats is the one found for its route:
/// of several declarations for one route the last wins, and a declaration
/// that is alone with its route is found itself.
pub proof fn lemma_last_declaration_wins<F>(declarations: Seq<RouteRegistration<F>>, i: int)
    requires
        0 <= i < declarations.len(),
        forall|j: int|
            i < j < declarations.len() ==> #[trigger] declarations[j].route()
                != declarations[i].route(),
    ensures
        last_declaring(declarations, declarations[i].route()) == Some(i),
{
    lemma_last_declaring(declarations, declarations[i].route());
}

/// Two registrations under one route leave exactly one handler reachable
/// there, the second; the first is gone and every other route is untouched.
pub proof fn lemma_second_registration_wins<H>(
    table: Map<Route, H>,
    route: Route,
    first: H,
    second: H,
)
    ensures
        table.insert(route, first).insert(route, second) == table.insert(route, second),
        table.insert(route, first).insert(route, second).contains_key(route),
        table.insert(route, first).insert(route, second)[route] == second,
{
    assert(table.insert(route, first).insert(route, second) =~= table.insert(route, second));
}

/// What populating a table from declarations does to one route: where a
/// declaration is for it, the table holds a handler made by the factory of
/// the last such declaration; otherwise the route is as it was.
pub open spec fn populated_at<F: Fn() -> H, H>(
    before: Map<Route, H>,
    declarations: Seq<RouteRegistration<F>>,
    after: Map<Route, H>,
    route: Route,
) -> bool {
    match last_declaring(declarations, route) {
        Some(i) => after.contains_key(route) && declarations[i].handler_fn.ensures(
            (),
            after[route],
        ),
        None => {
            &&& after.contains_key(route) == before.contains_key(route)
            &&& before.contains_key(route) ==> after[route] == before[route]
        },
    }
}

/// After a table is populated, a declaration that no later one repeats is
/// served by a handler of its own factory, whatever the table held before.
pub proof fn lemma_declared_handler_is_reachable<F: Fn() -> H, H>(
    before: Map<Route, H>,
    declarations: Seq<RouteRegistration<F>>,
    after: Map<Route, H>,
    i: int,
)
    requires
        0 <= i < declarations.len(),
        forall|j: int|
            i < j < declarations.len() ==> #[trigger] declarations[j].route()
                != declarations[i].route(),
        populated_at(before, declarations, after, declarations[i].route()),
    ensures
        after.contains_key(declarations[i].route()),
        declarations[i].handler_fn.ensures((), after[declarations[i].route()]),
{
    lemma_last_declaration_wins(declarations, i);
}

/// After a table is populated, a route that no declaration is for is as it
/// was before: still absent where it was absent, so that a request for it
/// finds nothing.
pub proof fn lemma_undeclared_route_is_untouched<F: Fn() -> H, H>(
    before: Map<Route, H>,
    declarations: Seq<RouteRegistration<F>>,
    after: Map<Route, H>,
    route: Route,
)
    requires
        forall|i: int|
            0 <= i < declarations.len() ==> #[trigger] declarations[i].route() != route,
        populated_at(before, declarations, after, route),
    ensures
        after.contains_key(route) == before.contains_key(route),
        before.contains_key(route) ==> after[route] == before[route],
{
    lemma_last_declaring(declarations, route);
}

/// The routes that are bound to the transport, in the table's order: those
/// whose method token names a method. A route under any other token stays
/// in the table and is bound to nothing.
pub open spec fn bound_routes(routes: Seq<Route>) -> Seq<Route>
    decreases routes.len(),
{
    if routes.len() == 0 {
        Seq::empty()
    } else if method_of(routes.last().0) is Some {
        bound_routes(routes.drop_last()).push(routes.last())
    } else {
        bound_routes(routes.drop_last())
    }
}

/// A route is bound exactly if it is one of the routes and its token names
/// a method.
pub proof fn lemma_bound_routes(routes: Seq<Route>, route: Route)
    ensures
        bound_routes(routes).contains(route) <==> routes.contains(route) && method_of(
            route.0,
        ) is Some,
    decreases routes.len(),
{
    if routes.len() > 0 {
        let front = routes.drop_last();
        lemma_bound_routes(front, route);
        let bound = bound_routes(routes);
        if bound.contains(route) {
            let k = choose|k: int| 0 <= k < bound.len() && bound[k] == route;
            if method_of(routes.last().0) is Some && k == bound.len() - 1 {
                assert(routes[routes.len() - 1] == route);
            } else {
                assert(bound_routes(front)[k] == route);
                let i = choose|i: int| 0 <= i < front.len() && front[i] == route;
                assert(routes[i] == route);
            }
        }
        if routes.contains(route) && method_of(route.0) is Some {
            let i = choose|i: int| 0 <= i < routes.len() && routes[i] == route;
            if i == routes.len() - 1 {
                assert(bound[bound.len() - 1] == route);
            } else {
                assert(front[i] == route);
                let k = choose|k: int|
                    0 <= k < bound_routes(front).len() && bound_routes(front)[k] == route;
                assert(bound[k] == route);
            }
        }
    }
}

/// One route as the transport binds it: the method it is served under, the
/// path template, and the handler that answers it.
pub struct Binding<'a, H> {
    pub method: Method,
    pub path: &'a str,
    pub handler: &'a H,
}

impl<'a, H> Binding<'a, H> {
    /// The route that is bound.
    pub open spec fn route(&self) -> Route {
        (self.method.token(), self.path@)
    }
}

struct RouteEntry<H> {
    method: String,
    path: String,
    handler: H,
}

/// The table from routes to handlers. A route occurs in it at most once.
pub struct RouteRegistry<H> {
    entries: Vec<RouteEntry<H>>,
}

proof fn lemma_index_of_unique<A>(items: Seq<A>, i: int)
    requires
        items.no_duplicates(),
        0 <= i < items.len(),
    ensures
        items.index_of(items[i]) == i,
{
    assert(items.contains(items[i]));
}

impl<H> RouteRegistry<H> {
    /// The routes of the table, in the order in which they were first
    /// registered.
    pub closed spec fn routes(&self) -> Seq<Route> {
        Seq::new(
            self.entries@.len(),
            |i: int| (self.entries@[i].method@, self.entries@[i].path@),
        )
    }

    /// No route occurs twice.
    pub closed spec fn wf(&self) -> bool {
        self.routes().no_duplicates()
    }

    /// The table as a map from routes to handlers.
    pub closed spec fn view(&self) -> Map<Route, H> {
        Map::new(
            |route: Route| self.routes().contains(route),
            |route: Route| self.entries@[self.routes().index_of(route)].handler,
        )
    }

    /// The routes of a table are exactly the keys of its map, each once.
    pub proof fn lemma_routes(&self)
        requires
            self.wf(),
        ensures
            self.routes().no_duplicates(),
            self@.dom() == self.routes().to_set(),
            self@.dom().finite(),
            self@.dom().len() == self.routes().len(),
    {
        assert(self@.dom() =~= self.routes().to_set());
        self.routes().unique_seq_to_set();
        vstd::seq_lib::seq_to_set_is_finite(self.routes());
    }

    proof fn lemma_handler_at(&self, i: int)
        requires
            self.wf(),
            0 <= i < self.entries@.len(),
        ensures
            self.routes()[i] == (self.entries@[i].method@, self.entries@[i].path@),
            self@.contains_key(self.routes()[i]),
            self@[self.routes()[i]] == self.entries@[i].handler,
    {
        lemma_index_of_unique(self.routes(), i);
        assert(self.routes().contains(self.routes()[i]));
    }

    /// An empty table.
    pub fn new() -> (registry: Self)
        ensures
            registry.wf(),
            registry@ == Map::<Route, H>::empty(),
            registry.routes().len() == 0,
    {
        let registry = RouteRegistry { entries: Vec::new() };
        assert(registry@ =~= Map::<Route, H>::empty());
        registry
    }

    /// The number of routes.
    pub fn len(&self) -> (count: usize)
        requires
            self.wf(),
        ensures
            count == self@.dom().len(),
            count == self.routes().len(),
    {
        proof {
            self.lemma_routes();
        }
        self.entries.len()
    }

    fn position(&self, method: &String, path: &String) -> (found: Option<usize>)
        ensures
            match found {
                Some(i) => i < self.routes().len() && self.routes()[i as int] == (method@, path@),
                None => !self.routes().contains((method@, path@)),
            },
    {
        let mut i: usize = 0;
        while i < self.entries.len()
            invariant
                i <= self.entries@.len(),
                forall|j: int| 0 <= j < i ==> self.routes()[j] != (method@, path@),
            decreases self.entries@.len() - i,
        {
            if self.entries[i].method == *method && self.entries[i].path == *path {
                return Some(i);
            }
            i = i + 1;
        }
        None
    }

    /// Puts a handler under a route. A handler already there is replaced:
    /// the last registration wins.
    pub fn register(&mut self, method: String, path: String, handler: H)
        requires
            old(self).wf(),
        ensures
            final(self).wf(),
            final(self)@ == old(self)@.insert((method@, path@), handler),
            final(self).routes() == if old(self)@.contains_key((method@, path@)) {
                old(self).routes()
            } else {
                old(self).routes().push((method@, path@))
            },
    {
        let ghost route = (method@, path@);
        let ghost before = *self;
        match self.position(&method, &path) {
            Some(i) => {
                self.entries.set(i, RouteEntry { method, path, handler });
                proof {
                    assert(self.routes() =~= before.routes());
                    lemma_index_of_unique(self.routes(), i as int);
                    assert forall|other: Route| self@.contains_key(other) implies #[trigger] self@[other]
                        == before@.insert(route, handler)[other] by {
                        let j = self.routes().index_of(other);
                        assert(self.routes()[j] == other);
                    }
                    assert(self@ =~= before@.insert(route, handler));
                }
            },
            None => {
                self.entries.push(RouteEntry { method, path, handler });
                proof {
                    assert(self.routes() =~= before.routes().push(route));
                    let last = before.routes().len() as int;
                    lemma_index_of_unique(self.routes(), last);
                    assert forall|other: Route| self@.contains_key(other) implies #[trigger] self@[other]
                        == before@.insert(route, handler)[other] by {
                        let j = self.routes().index_of(other);
                        assert(self.routes()[j] == other);
                        if other != route {
                            assert(before.routes()[j] == other);
                            lemma_index_of_unique(before.routes(), j);
                        }
                    }
                    assert forall|other: Route| self@.contains_key(other) <==> before@.insert(
                        route,
                        handler,
                    ).contains_key(other) by {
                        if before.routes().contains(other) {
                            let j = before.routes().index_of(other);
                            assert(self.routes()[j] == other);
                        }
                        if other == route {
                            assert(self.routes()[last] == other);
                        }
                    }
                    assert(self@ =~= before@.insert(route, handler));
                }
            },
        }
    }

    /// The handler under a route, if the table has one.
    pub fn lookup(&self, method: &str, path: &str) -> (found: Option<&H>)
        requires
            self.wf(),
        ensures
            match found {
                Some(handler) => self@.contains_key((method@, path@)) && *handler == self@[(
                    method@,
                    path@,
                )],
                None => !self@.contains_key((method@, path@)),
            },
    {
        let method = method.to_owned();
        let path = path.to_owned();
        match self.position(&method, &path) {
            Some(i) => {
                proof {
                    self.lemma_handler_at(i as int);
                }
                Some(&self.entries[i].handler)
            },
            None => None,
        }
    }

    /// The bindings of the table: one for each route whose method token
    /// names a method, in the table's order, each with the route's handler.
    pub fn bindings(&self) -> (bound: Vec<Binding<'_, H>>)
        requires
            self.wf(),
        ensures
            bound@.len() == bound_routes(self.routes()).len(),
            forall|k: int|
                0 <= k < bound@.len() ==> {
                    &&& (#[trigger] bound@[k]).route() == bound_routes(self.routes())[k]
                    &&& self@.contains_key(bound@[k].route())
                    &&& *bound@[k].handler == self@[bound@[k].route()]
                },
    {
        let mut bound: Vec<Binding<'_, H>> = Vec::new();
        let mut done: usize = 0;
        while done < self.entries.len()
            invariant
                self.wf(),
                done <= self.entries@.len(),
                self.entries@.len() == self.routes().len(),
                bound@.len() == bound_routes(self.routes().take(done as int)).len(),
                forall|k: int|
                    0 <= k < bound@.len() ==> {
                        &&& (#[trigger] bound@[k]).route() == bound_routes(
                            self.routes().take(done as int),
                        )[k]
                        &&& self@.contains_key(bound@[k].route())
                        &&& *bound@[k].handler == self@[bound@[k].route()]
                    },
            decreases self.entries@.len() - done,
        {
            let entry = &self.entries[done];
            proof {
                let seen = self.routes().take(done + 1);
                assert(seen.drop_last() == self.routes().take(done as int));
                assert(seen.last() == self.routes()[done as int]);
                self.lemma_handler_at(done as int);
            }
            match Method::parse(entry.method.as_str()) {
                Some(method) => {
                    proof {
                        lemma_token_of_named(entry.method@);
                    }
                    bound.push(Binding { method, path: entry.path.as_str(), handler: &entry.handler });
                },
                None => {},
            }
            done = done + 1;
        }
        proof {
            assert(self.routes().take(done as int) == self.routes());
        }
        bound
    }

    /// Drains declarations into the table, in their order: each factory is
    /// called once and its handler registered under the declaration's
    /// route. Of several declarations for one route the last wins; nothing
    /// is reported.
    pub fn populate<F: Fn() -> H>(&mut self, declarations: &Vec<RouteRegistration<F>>)
        requires
            old(self).wf(),
            forall|i: int|
                0 <= i < declarations@.len() ==> (#[trigger] declarations@[i]).handler_fn.requires(
                    (),
                ),
        ensures
            final(self).wf(),
            forall|route: Route|
                populated_at(old(self)@, declarations@, final(self)@, route),
    {
        let ghost before = self@;
        let mut done: usize = 0;
        while done < declarations.len()
            invariant
                done <= declarations@.len(),
                self.wf(),
                forall|i: int|
                    0 <= i < declarations@.len() ==> (
                    #[trigger] declarations@[i]).handler_fn.requires(()),
                forall|route: Route|
                    populated_at(before, declarations@.take(done as int), self@, route),
            decreases declarations@.len() - done,
        {
            let declaration = &declarations[done];
            let handler = (declaration.handler_fn)();
            let ghost earlier = self@;
            self.register(declaration.method.to_owned(), declaration.path.to_owned(), handler);
            proof {
                let seen = declarations@.take(done as int);
                let prefix = declarations@.take(done + 1);
                assert(prefix.drop_last() == seen);
                assert(prefix.last() == declarations@[done as int]);
                assert forall|route: Route| populated_at(before, prefix, self@, route) by {
                    assert(populated_at(before, seen, earlier, route));
                    lemma_last_declaring(seen, route);
                }
            }
            done = done + 1;
        }
        proof {
            assert(declarations@.take(done as int) == declarations@);
        }
    }
}

} // verus!
