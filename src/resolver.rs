//! Response resolution: the representative example payload and status of an
//! operation, picked by fixed priorities over status codes, media types and
//! example sources, following references into the owning document.
use vstd::prelude::*;
use vstd::string::*;
use std::sync::Arc;
use crate::openapi::{Components, MediaType, Operation, Response, RouteDefinition, RouteView, Schema, method_name};
use crate::text::{after_last_slash, last_segment, same_text};

verus! {

/// The value of the first entry with key `k`.
pub open spec fn find<V>(m: Seq<(String, V)>, k: Seq<char>) -> Option<V>
    decreases m.len(),
{
    if m.len() == 0 {
        None
    } else if m[0].0@ == k {
        Some(m[0].1)
    } else {
        find(m.drop_first(), k)
    }
}

/// The value of the first entry with key `k`.
pub fn find_entry<'a, V>(m: &'a Vec<(String, V)>, k: &str) -> (r: Option<&'a V>)
    ensures
        match r {
            Some(v) => find(m@, k@) == Some(*v),
            None => find(m@, k@) is None,
        },
{
    let mut i: usize = 0;
    assert(m@.subrange(0, m@.len() as int) =~= m@);
    while i < m.len()
        invariant
            i <= m@.len(),
            find(m@, k@) == find(m@.subrange(i as int, m@.len() as int), k@),
        decreases m@.len() - i,
    {
        assert(m@.subrange(i as int, m@.len() as int).drop_first() =~= m@.subrange(i + 1, m@.len() as int));
        if same_text(m[i].0.as_str(), k) {
            return Some(&m[i].1);
        }
        i = i + 1;
    }
    None
}

pub open spec fn named_response(components: Option<Arc<Components>>, name: Seq<char>) -> Option<Response> {
    match components {
        Some(c) => match c.responses {
            Some(rs) => find(rs@, name),
            None => None,
        },
        None => None,
    }
}

pub open spec fn named_schema(components: Option<Arc<Components>>, name: Seq<char>) -> Option<Schema> {
    match components {
        Some(c) => match c.schemas {
            Some(ss) => find(ss@, name),
            None => None,
        },
        None => None,
    }
}

/// A response as written, or the component its reference names (by the part
/// of the reference after its last `/`); `None` where that component is absent.
pub open spec fn resolved_response(resp: Response, components: Option<Arc<Components>>) -> Option<Response> {
    match resp {
        Response::Ref { ref_path } => named_response(components, last_segment(ref_path@)),
        Response::Definition { .. } => Some(resp),
    }
}

pub open spec fn resolved_schema(schema: Schema, components: Option<Arc<Components>>) -> Option<Schema> {
    match schema {
        Schema::Ref { ref_path } => named_schema(components, last_segment(ref_path@)),
        Schema::Object { .. } => Some(schema),
    }
}

/// The example that a schema carries, once resolved.
pub open spec fn schema_example(schema: Option<Schema>, components: Option<Arc<Components>>) -> Option<serde_json::Value> {
    match schema {
        Some(s) => match resolved_schema(s, components) {
            Some(Schema::Object { example, .. }) => example,
            _ => None,
        },
        None => None,
    }
}

/// The value of the first named example, where it has one.
pub open spec fn first_named_example(mt: MediaType) -> Option<serde_json::Value> {
    match mt.examples {
        Some(ex) => if ex@.len() > 0 { ex@[0].1.value } else { None },
        None => None,
    }
}

/// The example of a media type: the inline example, else the first named
/// example's value, else the example of its (resolved) schema.
pub open spec fn media_example(mt: MediaType, components: Option<Arc<Components>>) -> Option<serde_json::Value> {
    if mt.example is Some {
        mt.example
    } else if first_named_example(mt) is Some {
        first_named_example(mt)
    } else {
        schema_example(mt.schema, components)
    }
}

pub open spec fn example_for(
    content: Seq<(String, MediaType)>,
    media: Seq<char>,
    components: Option<Arc<Components>>,
) -> Option<serde_json::Value> {
    match find(content, media) {
        Some(mt) => media_example(mt, components),
        None => None,
    }
}

/// The example of the first media type present, `application/json` before
/// `application/vnd.api+json`; only that one media type is consulted.
pub open spec fn content_example(content: Seq<(String, MediaType)>, components: Option<Arc<Components>>) -> Option<serde_json::Value> {
    match find(content, "application/json"@) {
        Some(mt) => media_example(mt, components),
        None => example_for(content, "application/vnd.api+json"@, components),
    }
}

/// What an operation answers, as a value.
pub enum Outcome {
    Example(serde_json::Value),
    Empty(u16),
    NotImplemented,
}

/// The outcome for one status code: `None` where the operation has no
/// response for it or its reference does not resolve.
pub open spec fn code_outcome(op: Operation, code: Seq<char>, components: Option<Arc<Components>>) -> Option<Outcome> {
    match find(op.responses@, code) {
        None => None,
        Some(resp) => match resolved_response(resp, components) {
            None => None,
            Some(def) => {
                let ex = match def {
                    Response::Definition { content: Some(c), .. } => content_example(c@, components),
                    _ => None,
                };
                match ex {
                    Some(e) => Some(Outcome::Example(e)),
                    None => if code == "204"@ { Some(Outcome::Empty(204)) } else { Some(Outcome::Empty(200)) },
                }
            },
        },
    }
}

/// The outcome of a route: the first of the codes 200, 201, 202, 204 and
/// `default` that resolves decides; where none does, there is no example.
pub open spec fn route_outcome(route: RouteView) -> Outcome {
    let op = route.operation;
    let c = route.components;
    if code_outcome(op, "200"@, c) is Some {
        code_outcome(op, "200"@, c)->0
    } else if code_outcome(op, "201"@, c) is Some {
        code_outcome(op, "201"@, c)->0
    } else if code_outcome(op, "202"@, c) is Some {
        code_outcome(op, "202"@, c)->0
    } else if code_outcome(op, "204"@, c) is Some {
        code_outcome(op, "204"@, c)->0
    } else if code_outcome(op, "default"@, c) is Some {
        code_outcome(op, "default"@, c)->0
    } else {
        Outcome::NotImplemented
    }
}

/// The answer picked for a route: an example payload (served with status 200)
/// borrowed from the route's document, an empty body with a status, or no
/// example at all.
pub enum Resolution<'a> {
    Example(&'a serde_json::Value),
    Empty { status: u16 },
    NotImplemented,
}

impl<'a> View for Resolution<'a> {
    type V = Outcome;

    open spec fn view(&self) -> Outcome {
        match self {
            Resolution::Example(v) => Outcome::Example(**v),
            Resolution::Empty { status } => Outcome::Empty(*status),
            Resolution::NotImplemented => Outcome::NotImplemented,
        }
    }
}

/// Serves the example responses of one route.
pub struct GenericHandler {
    pub route: RouteDefinition,
}

impl GenericHandler {
    pub fn new(route: RouteDefinition) -> (r: GenericHandler)
        ensures
            r.route == route,
    {
        GenericHandler { route }
    }

    /// The answer for the route. It depends on the route alone: resolving
    /// twice gives the same outcome.
    pub fn handle(&self) -> (r: Resolution<'_>)
        ensures
            r@ == route_outcome(self.route@),
    {
        let op: &Operation = &self.route.operation;
        if let Some(r) = self.outcome_for_code(op, "200") {
            return r;
        }
        if let Some(r) = self.outcome_for_code(op, "201") {
            return r;
        }
        if let Some(r) = self.outcome_for_code(op, "202") {
            return r;
        }
        if let Some(r) = self.outcome_for_code(op, "204") {
            return r;
        }
        if let Some(r) = self.outcome_for_code(op, "default") {
            return r;
        }
        Resolution::NotImplemented
    }

    /// The message that explains a missing example: `No example response
    /// available for <METHOD> <path>`.
    pub fn not_implemented_message(&self) -> (r: String)
        ensures
            r@ == "No example response available for "@ + method_name(self.route.method) + " "@
                + self.route.path@,
    {
        let mut r = String::from_str("No example response available for ");
        r.append(self.route.method.as_str());
        r.append(" ");
        r.append(self.route.path.as_str());
        r
    }

    fn outcome_for_code<'a>(&'a self, op: &'a Operation, code: &str) -> (r: Option<Resolution<'a>>)
        requires
            *op == *self.route.operation,
        ensures
            match r {
                Some(res) => code_outcome(*op, code@, self.route.components) == Some(res@),
                None => code_outcome(*op, code@, self.route.components) is None,
            },
    {
        let resp = match find_entry(&op.responses, code) {
            Some(resp) => resp,
            None => return None,
        };
        let def = match self.resolve_response(resp) {
            Some(def) => def,
            None => return None,
        };
        if let Response::Definition { content: Some(content), .. } = def {
            if let Some(e) = self.content_example(content) {
                return Some(Resolution::Example(e));
            }
        }
        if same_text(code, "204") {
            Some(Resolution::Empty { status: 204 })
        } else {
            Some(Resolution::Empty { status: 200 })
        }
    }

    fn resolve_response<'a>(&'a self, resp: &'a Response) -> (r: Option<&'a Response>)
        ensures
            match r {
                Some(d) => resolved_response(*resp, self.route.components) == Some(*d),
                None => resolved_response(*resp, self.route.components) is None,
            },
    {
        match resp {
            Response::Definition { .. } => Some(resp),
            Response::Ref { ref_path } => {
                let name = after_last_slash(ref_path.as_str());
                match &self.route.components {
                    Some(c) => match &c.responses {
                        Some(rs) => find_entry(rs, name),
                        None => None,
                    },
                    None => None,
                }
            },
        }
    }

    fn resolve_schema<'a>(&'a self, schema: &'a Schema) -> (r: Option<&'a Schema>)
        ensures
            match r {
                Some(d) => resolved_schema(*schema, self.route.components) == Some(*d),
                None => resolved_schema(*schema, self.route.components) is None,
            },
    {
        match schema {
            Schema::Ref { ref_path } => {
                let name = after_last_slash(ref_path.as_str());
                match &self.route.components {
                    Some(c) => match &c.schemas {
                        Some(ss) => find_entry(ss, name),
                        None => None,
                    },
                    None => None,
                }
            },
            Schema::Object { .. } => Some(schema),
        }
    }

    fn extract_example<'a>(&'a self, mt: &'a MediaType) -> (r: Option<&'a serde_json::Value>)
        ensures
            match r {
                Some(v) => media_example(*mt, self.route.components) == Some(*v),
                None => media_example(*mt, self.route.components) is None,
            },
    {
        if let Some(e) = &mt.example {
            return Some(e);
        }
        if let Some(ex) = &mt.examples {
            if ex.len() > 0 {
                if let Some(v) = &ex[0].1.value {
                    return Some(v);
                }
            }
        }
        match &mt.schema {
            Some(s) => match self.resolve_schema(s) {
                Some(Schema::Object { example: Some(e), .. }) => Some(e),
                _ => None,
            },
            None => None,
        }
    }

    fn content_example<'a>(&'a self, content: &'a Vec<(String, MediaType)>) -> (r: Option<&'a serde_json::Value>)
        ensures
            match r {
                Some(v) => content_example(content@, self.route.components) == Some(*v),
                None => content_example(content@, self.route.components) is None,
            },
    {
        if let Some(mt) = find_entry(content, "application/json") {
            return self.extract_example(mt);
        }
        match find_entry(content, "application/vnd.api+json") {
            Some(mt) => self.extract_example(mt),
            None => None,
        }
    }
}

/// Resolving a route is a function of the route: two resolutions of one
/// route, with nothing changed in between, give the same outcome.
pub proof fn lemma_resolution_deterministic(a: RouteView, b: RouteView)
    requires
        a == b,
    ensures
        route_outcome(a) == route_outcome(b),
{
}

} // verus!
