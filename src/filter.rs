//! The per-exchange header mutation filter: what to do when the request
//! headers and the response headers arrive.

use vstd::prelude::*;

use crate::config::{
    opt_bytes, resolved_rules, route_lookup, rules_for, Direction, FilterConfig, PhaseError, Rule,
    RulesView, RoutesView,
};
use crate::headers::{decode_headers, decoded_headers, pairs_view, raw_pairs_view};
use crate::template::{render, rendered, RenderContext};

verus! {

/// The writes that rendering `rules` in order gives against one context:
/// each rule whose template renders sets its header to the rendered text; a
/// rule whose template fails is skipped. Every rule sees the same context,
/// so no rule observes what an earlier one set.
pub open spec fn rendered_writes(
    rules: RulesView,
    headers: Option<Map<Seq<char>, Seq<char>>>,
    request_headers: Option<Map<Seq<char>, Seq<char>>>,
) -> Seq<(Seq<char>, Seq<char>)>
    decreases rules.len(),
{
    if rules.len() == 0 {
        Seq::empty()
    } else {
        let earlier = rendered_writes(rules.drop_last(), headers, request_headers);
        match rendered(rules.last().1, headers, request_headers) {
            Some(v) => earlier.push((rules.last().0, v)),
            None => earlier,
        }
    }
}

/// The headers after the host performs `writes` in order on `base`.
pub open spec fn applied(writes: Seq<(Seq<char>, Seq<char>)>, base: Map<Seq<char>, Seq<char>>) -> Map<
    Seq<char>,
    Seq<char>,
>
    decreases writes.len(),
{
    if writes.len() == 0 {
        base
    } else {
        applied(writes.drop_last(), base).insert(writes.last().0, writes.last().1)
    }
}

/// The header writes of the request phase, once the request headers are complete.
pub open spec fn request_writes(
    global: RulesView,
    routes: RoutesView,
    request_headers: Seq<(Seq<u8>, Seq<u8>)>,
    route: Option<Seq<u8>>,
) -> Result<Seq<(Seq<char>, Seq<char>)>, PhaseError> {
    match resolved_rules(global, routes, route, Direction::Request) {
        Err(e) => Err(e),
        Ok(rules) => match decoded_headers(request_headers) {
            None => Err(PhaseError::InvalidHeaderValue),
            Some(h) => Ok(rendered_writes(rules, Some(h), None)),
        },
    }
}

/// The header writes of the response phase, where templates see the response
/// headers as `headers` and the request headers as `request_headers`.
pub open spec fn response_writes(
    global: RulesView,
    routes: RoutesView,
    response_headers: Seq<(Seq<u8>, Seq<u8>)>,
    request_headers: Seq<(Seq<u8>, Seq<u8>)>,
    route: Option<Seq<u8>>,
) -> Result<Seq<(Seq<char>, Seq<char>)>, PhaseError> {
    match resolved_rules(global, routes, route, Direction::Response) {
        Err(e) => Err(e),
        Ok(rules) => match decoded_headers(response_headers) {
            None => Err(PhaseError::InvalidHeaderValue),
            Some(h) => match decoded_headers(request_headers) {
                None => Err(PhaseError::InvalidHeaderValue),
                Some(q) => Ok(rendered_writes(rules, Some(h), Some(q))),
            },
        },
    }
}

/// What the host does with the exchange after a phase.
#[derive(Debug, Clone, Copy, PartialEq, Eq, Structural)]
pub enum HeadersStatus {
    /// Go on with the exchange.
    Continue,
    /// Hold the exchange: the headers are not complete yet.
    StopIteration,
}

/// The result of a phase: the signal for the host, the headers to set in
/// order, and the error that stopped the phase, if any.
pub struct PhaseOutcome {
    /// What the host does next.
    pub status: HeadersStatus,
    /// The (header name, value) pairs to set, in order.
    pub writes: Vec<(String, String)>,
    /// Why the phase set nothing, where it stopped early.
    pub error: Option<PhaseError>,
}

impl PhaseOutcome {
    /// The outcome carries exactly the writes of `w`, or its error and no writes.
    pub open spec fn reports(&self, w: Result<Seq<(Seq<char>, Seq<char>)>, PhaseError>) -> bool {
        match w {
            Ok(writes) => self.error is None && pairs_view(self.writes@) == writes,
            Err(e) => self.error == Some(e) && self.writes@.len() == 0,
        }
    }
}

/// The filter of one exchange, made from a shared configuration.
pub struct Filter {
    config: FilterConfig,
}

impl FilterConfig {
    /// A filter for a new exchange.
    pub fn new_http_filter(&self) -> (r: Filter)
        ensures
            r.global_rules(Direction::Request) == self.global_rules(Direction::Request),
            r.global_rules(Direction::Response) == self.global_rules(Direction::Response),
            r.routes() == self.routes(),
    {
        Filter { config: self.duplicate() }
    }
}

/// Renders each rule of `rules` in order against `context`, skipping a rule
/// whose template fails.
fn render_rules(rules: &Vec<Rule>, context: &RenderContext) -> (r: Vec<(String, String)>)
    requires
        context.wf(),
    ensures
        pairs_view(r@) == rendered_writes(
            pairs_view(rules@),
            context.headers_view(),
            context.request_headers_view(),
        ),
{
    let ghost s = pairs_view(rules@);
    let mut r: Vec<(String, String)> = Vec::new();
    let mut i: usize = 0;
    proof {
        assert(s.take(0) =~= Seq::<(Seq<char>, Seq<char>)>::empty());
    }
    while i < rules.len()
        invariant
            s == pairs_view(rules@),
            context.wf(),
            0 <= i <= rules@.len(),
            pairs_view(r@) == rendered_writes(
                s.take(i as int),
                context.headers_view(),
                context.request_headers_view(),
            ),
        decreases rules@.len() - i,
    {
        proof {
            assert(s.take(i + 1).drop_last() =~= s.take(i as int));
            assert(s[i as int] == (rules@[i as int].0@, rules@[i as int].1@));
        }
        let ghost before = r@;
        match render(rules[i].1.as_str(), context) {
            Ok(v) => {
                r.push((rules[i].0.clone(), v));
                proof {
                    assert(pairs_view(r@) =~= pairs_view(before).push(pairs_view(r@).last()));
                }
            },
            Err(_) => {},
        }
        i += 1;
    }
    proof {
        assert(s.take(i as int) =~= s);
    }
    r
}

impl Filter {
    /// The global rules of the given direction.
    pub closed spec fn global_rules(&self, d: Direction) -> RulesView {
        self.config.global_rules(d)
    }

    /// The route table.
    pub closed spec fn routes(&self) -> RoutesView {
        self.config.routes()
    }

    /// Whether the host must be asked for the route name: only where routes
    /// have rules of their own.
    pub fn needs_route(&self) -> (r: bool)
        ensures
            r == (self.routes().len() > 0),
    {
        self.config.has_route_rules()
    }

    /// Handles the request headers. Until they are complete (`end_of_stream`
    /// false) nothing is set and the host is told to hold the exchange. Then
    /// the request rules are rendered against the request headers and the
    /// host goes on; a route or header error leaves the headers unchanged.
    pub fn on_request_headers(
        &self,
        end_of_stream: bool,
        request_headers: &Vec<(Vec<u8>, Vec<u8>)>,
        route: &Option<Vec<u8>>,
    ) -> (r: PhaseOutcome)
        ensures
            !end_of_stream ==> r.status == HeadersStatus::StopIteration && r.writes@.len() == 0
                && r.error is None,
            end_of_stream ==> r.status == HeadersStatus::Continue && r.reports(
                request_writes(
                    self.global_rules(Direction::Request),
                    self.routes(),
                    raw_pairs_view(request_headers@),
                    opt_bytes(*route),
                ),
            ),
    {
        if !end_of_stream {
            return PhaseOutcome { status: HeadersStatus::StopIteration, writes: Vec::new(), error: None };
        }
        let rules = match self.config.resolve(route, Direction::Request) {
            Ok(rules) => rules,
            Err(e) => return PhaseOutcome { status: HeadersStatus::Continue, writes: Vec::new(), error: Some(e) },
        };
        let headers = match decode_headers(request_headers) {
            Ok(h) => h,
            Err(_) => {
                return PhaseOutcome {
                    status: HeadersStatus::Continue,
                    writes: Vec::new(),
                    error: Some(PhaseError::InvalidHeaderValue),
                }
            },
        };
        let context = RenderContext::new(Some(headers), None);
        let writes = render_rules(rules, &context);
        PhaseOutcome { status: HeadersStatus::Continue, writes, error: None }
    }

    /// Handles the response headers, whatever `end_of_stream` says: the
    /// response rules are rendered against the response headers and the
    /// request headers, and the host goes on; a route or header error leaves
    /// the headers unchanged.
    pub fn on_response_headers(
        &self,
        end_of_stream: bool,
        response_headers: &Vec<(Vec<u8>, Vec<u8>)>,
        request_headers: &Vec<(Vec<u8>, Vec<u8>)>,
        route: &Option<Vec<u8>>,
    ) -> (r: PhaseOutcome)
        ensures
            r.status == HeadersStatus::Continue,
            r.reports(
                response_writes(
                    self.global_rules(Direction::Response),
                    self.routes(),
                    raw_pairs_view(response_headers@),
                    raw_pairs_view(request_headers@),
                    opt_bytes(*route),
                ),
            ),
    {
        let rules = match self.config.resolve(route, Direction::Response) {
            Ok(rules) => rules,
            Err(e) => return PhaseOutcome { status: HeadersStatus::Continue, writes: Vec::new(), error: Some(e) },
        };
        let headers = match decode_headers(response_headers) {
            Ok(h) => h,
            Err(_) => {
                return PhaseOutcome {
                    status: HeadersStatus::Continue,
                    writes: Vec::new(),
                    error: Some(PhaseError::InvalidHeaderValue),
                }
            },
        };
        let requested = match decode_headers(request_headers) {
            Ok(h) => h,
            Err(_) => {
                return PhaseOutcome {
                    status: HeadersStatus::Continue,
                    writes: Vec::new(),
                    error: Some(PhaseError::InvalidHeaderValue),
                }
            },
        };
        let context = RenderContext::new(Some(headers), Some(requested));
        let writes = render_rules(rules, &context);
        PhaseOutcome { status: HeadersStatus::Continue, writes, error: None }
    }
}

/// A rule that renders decides the final value of its header over every
/// earlier rule: after the host performs the writes of a rule sequence that
/// ends with it, the header holds its rendered text.
pub proof fn lemma_later_rule_wins(
    rules: RulesView,
    name: Seq<char>,
    template: Seq<char>,
    headers: Option<Map<Seq<char>, Seq<char>>>,
    request_headers: Option<Map<Seq<char>, Seq<char>>>,
    base: Map<Seq<char>, Seq<char>>,
)
    requires
        rendered(template, headers, request_headers) is Some,
    ensures
        applied(rendered_writes(rules.push((name, template)), headers, request_headers), base)[name]
            == rendered(template, headers, request_headers)->0,
{
    let all = rules.push((name, template));
    assert(all.drop_last() =~= rules);
}

/// Where routes have rules of their own and the host names a known route,
/// that route's rules, and only they, apply in both directions.
pub proof fn lemma_route_rules_replace_global(
    global_request: RulesView,
    global_response: RulesView,
    routes: RoutesView,
    route: Seq<u8>,
    name: Seq<char>,
)
    requires
        routes.len() > 0,
        vstd::utf8::valid_utf8(route),
        vstd::utf8::decode_utf8(route) == name,
        route_lookup(routes, name) is Some,
    ensures
        resolved_rules(global_request, routes, Some(route), Direction::Request) == Ok::<
            RulesView,
            PhaseError,
        >(rules_for(route_lookup(routes, name)->0, Direction::Request)),
        resolved_rules(global_response, routes, Some(route), Direction::Response) == Ok::<
            RulesView,
            PhaseError,
        >(rules_for(route_lookup(routes, name)->0, Direction::Response)),
{
}

} // verus!
