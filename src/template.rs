//! Rendering of rule templates, and the header lookups that templates call.

use std::collections::BTreeMap;

use minijinja::value::Rest;
use vstd::prelude::*;

use crate::headers::{pairs_view, HeaderMap};
use crate::text::{strings_view, substring, substring_bytes};
use vstd::string::*;
use vstd::utf8::*;

verus! {

broadcast use vstd::string::group_string_axioms;

/// The headers that a template is rendered against: the headers of the
/// current message, and in the response phase those of the request too.
#[derive(Clone)]
pub struct RenderContext {
    pub headers: Option<HeaderMap>,
    pub request_headers: Option<HeaderMap>,
}

/// The map that an optional header map stands for.
pub open spec fn opt_view(m: Option<HeaderMap>) -> Option<Map<Seq<char>, Seq<char>>> {
    match m {
        Some(h) => Some(h@),
        None => None,
    }
}

/// The value under `key` in `m`, or the empty text when the map or the key is absent.
pub open spec fn value_or_empty(m: Option<Map<Seq<char>, Seq<char>>>, key: Seq<char>) -> Seq<char> {
    match m {
        Some(h) => if h.contains_key(key) {
            h[key]
        } else {
            Seq::empty()
        },
        None => Seq::empty(),
    }
}

/// The template variable `name` bound to the pairs of `m`, where `m` is present.
pub open spec fn variable_entry(name: Seq<char>, m: Option<HeaderMap>) -> Seq<
    (Seq<char>, Seq<(Seq<char>, Seq<char>)>),
> {
    match m {
        Some(h) => seq![(name, h.pairs())],
        None => Seq::empty(),
    }
}

impl RenderContext {
    /// Both maps, where present, are well formed.
    pub open spec fn wf(&self) -> bool {
        &&& (self.headers matches Some(h) ==> h.wf())
        &&& (self.request_headers matches Some(h) ==> h.wf())
    }

    /// The headers of the current message, as a map.
    pub open spec fn headers_view(&self) -> Option<Map<Seq<char>, Seq<char>>> {
        opt_view(self.headers)
    }

    /// The request headers, as a map.
    pub open spec fn request_headers_view(&self) -> Option<Map<Seq<char>, Seq<char>>> {
        opt_view(self.request_headers)
    }

    /// A context with the given maps.
    pub fn new(headers: Option<HeaderMap>, request_headers: Option<HeaderMap>) -> (r: RenderContext)
        requires
            headers matches Some(h) ==> h.wf(),
            request_headers matches Some(h) ==> h.wf(),
        ensures
            r.wf(),
            r.headers_view() == opt_view(headers),
            r.request_headers_view() == opt_view(request_headers),
    {
        RenderContext { headers, request_headers }
    }

    /// The template variables: `headers` and `request_headers`, each where present.
    pub fn variables(&self) -> (r: Vec<(String, Vec<(String, String)>)>)
        requires
            self.wf(),
        ensures
            r@.map_values(|p: (String, Vec<(String, String)>)| (p.0@, pairs_view(p.1@)))
                == variable_entry("headers"@, self.headers) + variable_entry(
                "request_headers"@,
                self.request_headers,
            ),
    {
        let mut r: Vec<(String, Vec<(String, String)>)> = Vec::new();
        if let Some(h) = &self.headers {
            r.push(("headers".to_string(), h.to_pairs()));
        }
        let ghost first = r@;
        if let Some(h) = &self.request_headers {
            r.push(("request_headers".to_string(), h.to_pairs()));
        }
        proof {
            assert(r@.map_values(|p: (String, Vec<(String, String)>)| (p.0@, pairs_view(p.1@)))
                =~= variable_entry("headers"@, self.headers) + variable_entry(
                "request_headers"@,
                self.request_headers,
            ));
        }
        r
    }
}

/// Looks `key` up in the headers of the current message; the empty text when
/// the context holds no such map or the map no such key.
pub fn header(context: &RenderContext, key: &str) -> (r: String)
    requires
        context.wf(),
    ensures
        r@ == value_or_empty(context.headers_view(), key@),
{
    lookup_or_empty(&context.headers, key)
}

/// Looks `key` up in the request headers; the empty text when the context
/// holds no such map or the map no such key.
pub fn request_header(context: &RenderContext, key: &str) -> (r: String)
    requires
        context.wf(),
    ensures
        r@ == value_or_empty(context.request_headers_view(), key@),
{
    lookup_or_empty(&context.request_headers, key)
}

fn lookup_or_empty(map: &Option<HeaderMap>, key: &str) -> (r: String)
    requires
        map matches Some(h) ==> h.wf(),
    ensures
        r@ == value_or_empty(opt_view(*map), key@),
{
    match map {
        Some(h) => match h.get(key) {
            Some(v) => v.clone(),
            None => String::new(),
        },
        None => String::new(),
    }
}

#[verifier::external_type_specification]
#[verifier::external_body]
pub struct ExTemplateError(minijinja::Error);

/// Relies on `minijinja::Error::new`: builds the error that a template
/// function reports when it cannot compute its value.
#[verifier::external_body]
fn invalid_operation() -> minijinja::Error {
    minijinja::Error::new(minijinja::ErrorKind::InvalidOperation, "substring range is not valid")
}

/// `substring` as templates call it: a failure becomes a template error.
pub fn template_substring(input: &str, args: &Vec<String>) -> (r: Result<String, minijinja::Error>)
    ensures
        match r {
            Ok(t) => substring_bytes(input.spec_bytes(), strings_view(args@)) == Some(encode_utf8(t@)),
            Err(_) => substring_bytes(input.spec_bytes(), strings_view(args@)) is None,
        },
{
    match substring(input, args) {
        Ok(s) => Ok(s),
        Err(_) => Err(invalid_operation()),
    }
}

/// The text that rendering the template `source` gives against a context
/// holding the header maps `headers` and `request_headers`, with the template
/// functions `substring`, `header` and `request_header`; `None` when the
/// template does not compile or its evaluation fails.
pub uninterp spec fn rendered(
    source: Seq<char>,
    headers: Option<Map<Seq<char>, Seq<char>>>,
    request_headers: Option<Map<Seq<char>, Seq<char>>>,
) -> Option<Seq<char>>;

/// Relies on minijinja: `Environment::new` and `Environment::add_function`
/// make an environment that holds the three template functions of this
/// module, and `Environment::render_str` compiles `source` and renders it
/// against the context's header maps (passed as ordered maps). The outcome
/// depends on the template text and on the context alone.
#[verifier::external_body]
fn render_str(source: &str, context: &RenderContext) -> (r: Result<String, minijinja::Error>)
    requires
        context.wf(),
    ensures
        match r {
            Ok(t) => rendered(source@, context.headers_view(), context.request_headers_view())
                == Some(t@),
            Err(_) => rendered(source@, context.headers_view(), context.request_headers_view()) is None,
        },
{
    let mut env = minijinja::Environment::new();
    env.add_function("substring", |s: &str, args: Rest<String>| template_substring(s, &args.0));
    let (c, d) = (context.clone(), context.clone());
    env.add_function("header", move |key: &str| header(&c, key));
    env.add_function("request_header", move |key: &str| request_header(&d, key));
    let vars: BTreeMap<String, BTreeMap<String, String>> =
        context.variables().into_iter().map(|(k, m)| (k, m.into_iter().collect())).collect();
    env.render_str(source, vars)
}

/// A template that does not compile, or whose evaluation fails.
#[derive(Debug, Clone, Copy, PartialEq, Eq, Structural)]
pub enum RenderError {
    /// Compiling or evaluating the template failed.
    Failed,
}

/// Renders the template `source` against `context`.
pub fn render(source: &str, context: &RenderContext) -> (r: Result<String, RenderError>)
    requires
        context.wf(),
    ensures
        match r {
            Ok(t) => rendered(source@, context.headers_view(), context.request_headers_view())
                == Some(t@),
            Err(_) => rendered(source@, context.headers_view(), context.request_headers_view()) is None,
        },
{
    match render_str(source, context) {
        Ok(t) => Ok(t),
        Err(_) => Err(RenderError::Failed),
    }
}

} // verus!
