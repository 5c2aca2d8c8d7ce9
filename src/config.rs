//! Filter configuration: the global rule sets and the rule sets of each route.

use vstd::prelude::*;

use vstd::utf8::*;

use crate::headers::{decode_text, pairs_view};
use crate::text::same_text;

verus! {

/// A rule: the name of the header to set, and the template of its value.
pub type Rule = (String, String);

/// The view of a rule sequence: (header name, template) pairs in order.
pub type RulesView = Seq<(Seq<char>, Seq<char>)>;

/// The direction that a rule set applies to.
#[derive(Debug, Clone, Copy, PartialEq, Eq, Structural)]
pub enum Direction {
    /// The request headers.
    Request,
    /// The response headers.
    Response,
}

/// Copies a rule sequence.
pub fn copy_rules(rules: &Vec<Rule>) -> (r: Vec<Rule>)
    ensures
        pairs_view(r@) == pairs_view(rules@),
{
    let mut r: Vec<Rule> = Vec::new();
    let mut i: usize = 0;
    while i < rules.len()
        invariant
            0 <= i <= rules@.len(),
            r@.len() == i,
            pairs_view(r@) == pairs_view(rules@).take(i as int),
        decreases rules@.len() - i,
    {
        let ghost before = r@;
        let k = rules[i].0.clone();
        let v = rules[i].1.clone();
        r.push((k, v));
        proof {
            assert forall|j: int| 0 <= j < i implies #[trigger] pairs_view(r@)[j] == pairs_view(
                before,
            )[j] by {
                assert(r@[j] == before[j]);
            }
            assert(pairs_view(r@) =~= pairs_view(rules@).take(i + 1));
        }
        i += 1;
    }
    proof {
        assert(pairs_view(rules@).take(i as int) =~= pairs_view(rules@));
    }
    r
}

/// The rule sets of one route, which replace the global ones on that route.
pub struct PerRouteConfig {
    /// Rules for the request headers, in order.
    pub request_headers_setter: Vec<Rule>,
    /// Rules for the response headers, in order.
    pub response_headers_setter: Vec<Rule>,
}

impl PerRouteConfig {
    /// The rules of the given direction.
    pub open spec fn rules(&self, d: Direction) -> RulesView {
        match d {
            Direction::Request => pairs_view(self.request_headers_setter@),
            Direction::Response => pairs_view(self.response_headers_setter@),
        }
    }

    /// A copy of this configuration.
    pub fn duplicate(&self) -> (r: PerRouteConfig)
        ensures
            r.rules(Direction::Request) == self.rules(Direction::Request),
            r.rules(Direction::Response) == self.rules(Direction::Response),
    {
        PerRouteConfig {
            request_headers_setter: copy_rules(&self.request_headers_setter),
            response_headers_setter: copy_rules(&self.response_headers_setter),
        }
    }
}

/// The view of a route table: each route name with its request and response rules.
pub type RoutesView = Seq<(Seq<char>, (RulesView, RulesView))>;

/// The views of the entries of a route table.
pub open spec fn routes_view(v: Seq<(String, PerRouteConfig)>) -> RoutesView {
    v.map_values(
        |p: (String, PerRouteConfig)|
            (p.0@, (p.1.rules(Direction::Request), p.1.rules(Direction::Response))),
    )
}

/// The rules of one direction in a (request, response) pair.
pub open spec fn rules_for(sets: (RulesView, RulesView), d: Direction) -> RulesView {
    match d {
        Direction::Request => sets.0,
        Direction::Response => sets.1,
    }
}

/// The rule sets of the route `name`: those of its last entry, or `None`
/// where no entry has that name.
pub open spec fn route_lookup(routes: RoutesView, name: Seq<char>) -> Option<(RulesView, RulesView)>
    decreases routes.len(),
{
    if routes.len() == 0 {
        None
    } else if routes.last().0 == name {
        Some(routes.last().1)
    } else {
        route_lookup(routes.drop_last(), name)
    }
}

/// The routes of `parsed` whose configuration could be read, in order.
pub open spec fn readable_routes(parsed: Seq<(String, Option<PerRouteConfig>)>) -> RoutesView
    decreases parsed.len(),
{
    if parsed.len() == 0 {
        Seq::empty()
    } else {
        let rest = readable_routes(parsed.drop_last());
        match parsed.last().1 {
            Some(c) => rest.push(
                (parsed.last().0@, (c.rules(Direction::Request), c.rules(Direction::Response))),
            ),
            None => rest,
        }
    }
}

/// Why no rule set could be chosen for an exchange.
#[derive(Debug, Clone, Copy, PartialEq, Eq, Structural)]
pub enum PhaseError {
    /// A header with a UTF-8 name has a value that is not UTF-8.
    InvalidHeaderValue,
    /// Routes have their own rules, and the host gave no route name.
    MissingRoute,
    /// Routes have their own rules, and the route name is not UTF-8 or names no route.
    UnknownRoute,
}

/// The rules that apply in direction `d`: the global ones where no route has
/// rules of its own; else those of the route that the host names, which must
/// be given and known. A route's rules replace the global ones entirely.
pub open spec fn resolved_rules(
    global: RulesView,
    routes: RoutesView,
    route: Option<Seq<u8>>,
    d: Direction,
) -> Result<RulesView, PhaseError> {
    if routes.len() == 0 {
        Ok(global)
    } else {
        match route {
            None => Err(PhaseError::MissingRoute),
            Some(b) => if !valid_utf8(b) {
                Err(PhaseError::UnknownRoute)
            } else {
                match route_lookup(routes, decode_utf8(b)) {
                    Some(sets) => Ok(rules_for(sets, d)),
                    None => Err(PhaseError::UnknownRoute),
                }
            },
        }
    }
}

/// The view of an optional byte vector.
pub open spec fn opt_bytes(b: Option<Vec<u8>>) -> Option<Seq<u8>> {
    match b {
        Some(v) => Some(v@),
        None => None,
    }
}

/// Copies a route table.
fn copy_routes(routes: &Vec<(String, PerRouteConfig)>) -> (r: Vec<(String, PerRouteConfig)>)
    ensures
        routes_view(r@) == routes_view(routes@),
{
    let mut r: Vec<(String, PerRouteConfig)> = Vec::new();
    let mut i: usize = 0;
    while i < routes.len()
        invariant
            0 <= i <= routes@.len(),
            r@.len() == i,
            routes_view(r@) == routes_view(routes@).take(i as int),
        decreases routes@.len() - i,
    {
        let ghost before = r@;
        r.push((routes[i].0.clone(), routes[i].1.duplicate()));
        proof {
            assert forall|j: int| 0 <= j < i implies #[trigger] routes_view(r@)[j] == routes_view(
                before,
            )[j] by {
                assert(r@[j] == before[j]);
            }
            assert(routes_view(r@) =~= routes_view(routes@).take(i + 1));
        }
        i += 1;
    }
    proof {
        assert(routes_view(routes@).take(i as int) =~= routes_view(routes@));
    }
    r
}

/// The configuration of one filter-chain entry: the global rule sets and the
/// rule sets of each route. It is read only once built.
pub struct FilterConfig {
    request_headers_setter: Vec<Rule>,
    response_headers_setter: Vec<Rule>,
    route_specific: Vec<(String, PerRouteConfig)>,
}

impl FilterConfig {
    /// The global rules of the given direction.
    pub closed spec fn global_rules(&self, d: Direction) -> RulesView {
        match d {
            Direction::Request => pairs_view(self.request_headers_setter@),
            Direction::Response => pairs_view(self.response_headers_setter@),
        }
    }

    /// The route table; a later entry for a name replaces an earlier one.
    pub closed spec fn routes(&self) -> RoutesView {
        routes_view(self.route_specific@)
    }

    /// Builds a configuration from the global rule sets and, for each route
    /// name, its configuration or `None` where it could not be read. Routes
    /// whose configuration could not be read are left out.
    pub fn new(
        request_headers_setter: Vec<Rule>,
        response_headers_setter: Vec<Rule>,
        route_specific: Vec<(String, Option<PerRouteConfig>)>,
    ) -> (r: FilterConfig)
        ensures
            r.global_rules(Direction::Request) == pairs_view(request_headers_setter@),
            r.global_rules(Direction::Response) == pairs_view(response_headers_setter@),
            r.routes() == readable_routes(route_specific@),
    {
        let mut routes: Vec<(String, PerRouteConfig)> = Vec::new();
        let mut i: usize = 0;
        while i < route_specific.len()
            invariant
                0 <= i <= route_specific@.len(),
                routes_view(routes@) == readable_routes(route_specific@.take(i as int)),
            decreases route_specific@.len() - i,
        {
            proof {
                assert(route_specific@.take(i + 1).drop_last() =~= route_specific@.take(i as int));
            }
            let (name, parsed) = &route_specific[i];
            if let Some(c) = parsed {
                let ghost before = routes@;
                routes.push((name.clone(), c.duplicate()));
                proof {
                    assert(routes@.drop_last() == before);
                    assert(routes_view(routes@) =~= routes_view(before).push(routes_view(routes@).last()));
                }
            }
            i += 1;
        }
        proof {
            assert(route_specific@.take(i as int) =~= route_specific@);
        }
        FilterConfig { request_headers_setter, response_headers_setter, route_specific: routes }
    }

    /// The rules that apply in direction `d` given the route name the host reports.
    pub open spec fn active_rules(&self, route: Option<Seq<u8>>, d: Direction) -> Result<RulesView, PhaseError> {
        resolved_rules(self.global_rules(d), self.routes(), route, d)
    }

    /// Whether routes have rules of their own, so that the route name is needed.
    pub fn has_route_rules(&self) -> (r: bool)
        ensures
            r == (self.routes().len() > 0),
    {
        self.route_specific.len() > 0
    }

    /// A copy of this configuration.
    pub fn duplicate(&self) -> (r: FilterConfig)
        ensures
            r.global_rules(Direction::Request) == self.global_rules(Direction::Request),
            r.global_rules(Direction::Response) == self.global_rules(Direction::Response),
            r.routes() == self.routes(),
    {
        FilterConfig {
            request_headers_setter: copy_rules(&self.request_headers_setter),
            response_headers_setter: copy_rules(&self.response_headers_setter),
            route_specific: copy_routes(&self.route_specific),
        }
    }

    /// Chooses the rules of direction `d` given the route name the host reports.
    pub fn resolve(&self, route: &Option<Vec<u8>>, d: Direction) -> (r: Result<&Vec<Rule>, PhaseError>)
        ensures
            match r {
                Ok(v) => self.active_rules(opt_bytes(*route), d) == Ok::<RulesView, PhaseError>(pairs_view(v@)),
                Err(e) => self.active_rules(opt_bytes(*route), d) == Err::<RulesView, PhaseError>(e),
            },
    {
        if self.route_specific.len() == 0 {
            return match d {
                Direction::Request => Ok(&self.request_headers_setter),
                Direction::Response => Ok(&self.response_headers_setter),
            };
        }
        let bytes = match route {
            Some(b) => b,
            None => return Err(PhaseError::MissingRoute),
        };
        let name = match decode_text(bytes) {
            Some(n) => n,
            None => return Err(PhaseError::UnknownRoute),
        };
        let ghost routes = self.routes();
        let mut i: usize = self.route_specific.len();
        proof {
            assert(routes.take(i as int) =~= routes);
        }
        while i > 0
            invariant
                routes == routes_view(self.route_specific@),
                0 <= i <= self.route_specific@.len(),
                route_lookup(routes, name@) == route_lookup(routes.take(i as int), name@),
                routes.len() > 0,
                opt_bytes(*route) == Some(bytes@),
                valid_utf8(bytes@),
                name@ == decode_utf8(bytes@),
            decreases i,
        {
            let ghost t = routes.take(i as int);
            proof {
                assert(t.drop_last() =~= routes.take(i - 1));
                assert(t.last() == routes[i - 1]);
            }
            if same_text(self.route_specific[i - 1].0.as_str(), name.as_str()) {
                let c = &self.route_specific[i - 1].1;
                proof {
                    assert(routes[i - 1] == (
                        name@,
                        (c.rules(Direction::Request), c.rules(Direction::Response)),
                    ));
                }
                return match d {
                    Direction::Request => Ok(&c.request_headers_setter),
                    Direction::Response => Ok(&c.response_headers_setter),
                };
            }
            i -= 1;
        }
        Err(PhaseError::UnknownRoute)
    }
}

} // verus!
