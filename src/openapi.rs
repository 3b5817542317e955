//! The OpenAPI 3.0 document model: the subset that route synthesis and
//! response resolution read. Mappings of the document are association lists
//! in document order; example payloads are carried as opaque JSON values.
use vstd::prelude::*;
use std::sync::Arc;
use crate::keyed::keys_unique;

verus! {

#[verifier::external_type_specification]
#[verifier::external_body]
pub struct ExJsonValue(serde_json::Value);

/// One parsed specification document.
pub struct OpenApiSpec {
    pub openapi: String,
    pub info: Info,
    pub servers: Option<Vec<Server>>,
    pub paths: Vec<(String, PathItem)>,
    pub components: Option<Arc<Components>>,
}

pub struct Info {
    pub title: String,
    pub version: String,
    pub description: Option<String>,
}

pub struct Server {
    pub url: String,
    pub description: Option<String>,
}

impl OpenApiSpec {
    /// The document's mappings have distinct keys, as the YAML mappings they
    /// were read from do: path templates, each operation's status codes, and
    /// the named components.
    pub open spec fn wf(&self) -> bool {
        &&& keys_unique(self.paths@)
        &&& forall|i: int| 0 <= i < self.paths@.len() ==> (#[trigger] self.paths@[i]).1.wf()
        &&& match self.components {
            Some(c) => c.wf(),
            None => true,
        }
    }
}

impl PathItem {
    pub open spec fn wf(&self) -> bool {
        &&& (self.get matches Some(o) ==> o.wf())
        &&& (self.post matches Some(o) ==> o.wf())
        &&& (self.put matches Some(o) ==> o.wf())
        &&& (self.delete matches Some(o) ==> o.wf())
        &&& (self.patch matches Some(o) ==> o.wf())
    }
}

impl Operation {
    pub open spec fn wf(&self) -> bool {
        keys_unique(self.responses@)
    }
}

impl Components {
    pub open spec fn wf(&self) -> bool {
        &&& (self.schemas matches Some(m) ==> keys_unique(m@))
        &&& (self.responses matches Some(m) ==> keys_unique(m@))
        &&& (self.security_schemes matches Some(m) ==> keys_unique(m@))
    }
}

/// The operations of one path template, per HTTP method.
pub struct PathItem {
    pub get: Option<Arc<Operation>>,
    pub post: Option<Arc<Operation>>,
    pub put: Option<Arc<Operation>>,
    pub delete: Option<Arc<Operation>>,
    pub patch: Option<Arc<Operation>>,
}

pub struct Operation {
    pub operation_id: Option<String>,
    pub summary: Option<String>,
    pub description: Option<String>,
    pub parameters: Option<Vec<Parameter>>,
    pub request_body: Option<RequestBody>,
    /// Status code (or `default`) to response.
    pub responses: Vec<(String, Response)>,
    pub tags: Option<Vec<String>>,
    pub security: Option<Vec<SecurityRequirement>>,
}

pub enum Parameter {
    Ref { ref_path: String },
    Definition {
        name: String,
        location: ParameterLocation,
        required: Option<bool>,
        description: Option<String>,
        schema: Option<Box<Schema>>,
    },
}

#[derive(Clone, Copy, Debug, PartialEq, Eq, Structural)]
pub enum ParameterLocation {
    Query,
    Path,
    Header,
    Cookie,
}

pub struct RequestBody {
    pub required: Option<bool>,
    pub description: Option<String>,
    pub content: Vec<(String, MediaType)>,
}

pub struct MediaType {
    pub schema: Option<Schema>,
    pub example: Option<serde_json::Value>,
    /// Named examples, in document order.
    pub examples: Option<Vec<(String, Example)>>,
}

pub struct Example {
    pub summary: Option<String>,
    pub description: Option<String>,
    pub value: Option<serde_json::Value>,
}

/// A response, either written out or a reference into `components.responses`.
pub enum Response {
    Ref { ref_path: String },
    Definition { description: String, content: Option<Vec<(String, MediaType)>> },
}

/// A schema, either written out or a reference into `components.schemas`.
pub enum Schema {
    Ref { ref_path: String },
    Object {
        schema_type: Option<String>,
        format: Option<String>,
        items: Option<Box<Schema>>,
        properties: Option<Vec<(String, Schema)>>,
        required: Option<Vec<String>>,
        enum_values: Option<Vec<serde_json::Value>>,
        example: Option<serde_json::Value>,
    },
}

/// The shared, named parts of a document.
pub struct Components {
    pub schemas: Option<Vec<(String, Schema)>>,
    pub responses: Option<Vec<(String, Response)>>,
    pub security_schemes: Option<Vec<(String, SecurityScheme)>>,
}

pub enum SecurityScheme {
    OAuth2 { scheme_type: String, flows: OAuth2Flows },
    ApiKey { scheme_type: String, location: String, name: String },
}

pub struct OAuth2Flows {
    pub authorization_code: Option<OAuth2Flow>,
    pub client_credentials: Option<OAuth2Flow>,
}

pub struct OAuth2Flow {
    pub authorization_url: Option<String>,
    pub token_url: Option<String>,
    pub scopes: Vec<(String, String)>,
}

pub struct SecurityRequirement {
    pub requirements: Vec<(String, Vec<String>)>,
}

#[derive(Clone, Copy, Debug, PartialEq, Eq, Structural, Hash)]
pub enum HttpMethod {
    Get,
    Post,
    Put,
    Delete,
    Patch,
}

pub open spec fn method_name(m: HttpMethod) -> Seq<char> {
    match m {
        HttpMethod::Get => seq!['G', 'E', 'T'],
        HttpMethod::Post => seq!['P', 'O', 'S', 'T'],
        HttpMethod::Put => seq!['P', 'U', 'T'],
        HttpMethod::Delete => seq!['D', 'E', 'L', 'E', 'T', 'E'],
        HttpMethod::Patch => seq!['P', 'A', 'T', 'C', 'H'],
    }
}

impl HttpMethod {
    /// The method's name as it stands in an HTTP request line.
    pub fn as_str(&self) -> (r: &'static str)
        ensures
            r@ == method_name(*self),
    {
        proof {
            reveal_strlit("GET");
            reveal_strlit("POST");
            reveal_strlit("PUT");
            reveal_strlit("DELETE");
            reveal_strlit("PATCH");
        }
        match self {
            HttpMethod::Get => "GET",
            HttpMethod::Post => "POST",
            HttpMethod::Put => "PUT",
            HttpMethod::Delete => "DELETE",
            HttpMethod::Patch => "PATCH",
        }
    }
}

/// A dispatch-ready route derived from one operation of one document.
pub struct RouteDefinition {
    pub method: HttpMethod,
    /// The template as written in the document.
    pub path: String,
    pub operation: Arc<Operation>,
    /// The template with `:name` placeholders in canonical spelling.
    pub path_pattern: String,
    /// The owning document's components, shared by all of its routes.
    pub components: Option<Arc<Components>>,
}

/// What a route definition says, with its strings as character sequences.
pub struct RouteView {
    pub method: HttpMethod,
    pub path: Seq<char>,
    pub operation: Operation,
    pub path_pattern: Seq<char>,
    pub components: Option<Arc<Components>>,
}

impl View for RouteDefinition {
    type V = RouteView;

    open spec fn view(&self) -> RouteView {
        RouteView {
            method: self.method,
            path: self.path@,
            operation: *self.operation,
            path_pattern: self.path_pattern@,
            components: self.components,
        }
    }
}

} // verus!
