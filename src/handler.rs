//! Handler descriptors: the metadata one request handler contributes to a page.
use vstd::prelude::*;
use crate::method::HttpMethod;

verus! {

/// One entry of a responses map: a status code (or `default`) and the name of
/// the schema its body refers to, if it has one.
pub struct Response {
    pub status: String,
    pub schema: Option<String>,
}

/// A named schema definition, kept as its JSON text.
pub struct NamedSchema {
    pub name: String,
    pub definition: String,
}

/// What a handler's response type yields when its schemas are generated:
/// the responses map and the named sub-schemas those responses refer to.
pub struct ResponseSpec {
    pub responses: Vec<Response>,
    pub schemas: Vec<NamedSchema>,
}

/// Meta information about a handler.
pub struct SwaggapiHandler {
    /// The http method the handler handles
    pub method: HttpMethod,
    /// The handler's path, relative to its container
    pub path: String,
    /// Whether the handler is deprecated
    pub deprecated: bool,
    /// The handler's documentation, line by line
    pub doc: Vec<String>,
    /// The handler's identifier
    pub ident: String,
    /// The handler's tags
    pub tags: Vec<String>,
    /// The handler's responses and the schemas they need
    pub responses: ResponseSpec,
}

/// The mathematical value of a [`SwaggapiHandler`].
pub struct HandlerModel {
    pub method: HttpMethod,
    pub path: Seq<char>,
    pub deprecated: bool,
    pub doc: Seq<Seq<char>>,
    pub ident: Seq<char>,
    pub tags: Seq<Seq<char>>,
    pub responses: Seq<(Seq<char>, Option<Seq<char>>)>,
    pub schemas: Seq<(Seq<char>, Seq<char>)>,
}

impl View for Response {
    type V = (Seq<char>, Option<Seq<char>>);

    open spec fn view(&self) -> Self::V {
        (self.status@, self.schema.deep_view())
    }
}

impl View for NamedSchema {
    type V = (Seq<char>, Seq<char>);

    open spec fn view(&self) -> Self::V {
        (self.name@, self.definition@)
    }
}

pub open spec fn responses_model(v: Seq<Response>) -> Seq<(Seq<char>, Option<Seq<char>>)> {
    v.map_values(|r: Response| r@)
}

pub open spec fn schemas_model(v: Seq<NamedSchema>) -> Seq<(Seq<char>, Seq<char>)> {
    v.map_values(|s: NamedSchema| s@)
}

impl View for SwaggapiHandler {
    type V = HandlerModel;

    open spec fn view(&self) -> HandlerModel {
        HandlerModel {
            method: self.method,
            path: self.path@,
            deprecated: self.deprecated,
            doc: self.doc.deep_view(),
            ident: self.ident@,
            tags: self.tags.deep_view(),
            responses: responses_model(self.responses.responses@),
            schemas: schemas_model(self.responses.schemas@),
        }
    }
}

/// A copy of a list of strings.
pub fn clone_strings(v: &Vec<String>) -> (r: Vec<String>)
    ensures
        r.deep_view() == v.deep_view(),
{
    let mut r: Vec<String> = Vec::new();
    let mut i: usize = 0;
    while i < v.len()
        invariant
            i <= v.len(),
            r@.len() == i,
            forall|j: int| 0 <= j < i ==> #[trigger] r@[j]@ == v@[j]@,
        decreases v.len() - i,
    {
        r.push(v[i].clone());
        i = i + 1;
    }
    assert(r.deep_view() =~= v.deep_view());
    r
}

fn clone_opt_string(o: &Option<String>) -> (r: Option<String>)
    ensures
        r.deep_view() == o.deep_view(),
{
    match o {
        Some(s) => Some(s.clone()),
        None => None,
    }
}

impl Response {
    pub fn duplicate(&self) -> (r: Response)
        ensures
            r@ == self@,
    {
        Response { status: self.status.clone(), schema: clone_opt_string(&self.schema) }
    }
}

impl NamedSchema {
    pub fn duplicate(&self) -> (r: NamedSchema)
        ensures
            r@ == self@,
    {
        NamedSchema { name: self.name.clone(), definition: self.definition.clone() }
    }
}

/// A copy of a responses map.
pub fn clone_responses(v: &Vec<Response>) -> (r: Vec<Response>)
    ensures
        responses_model(r@) == responses_model(v@),
{
    let mut r: Vec<Response> = Vec::new();
    let mut i: usize = 0;
    while i < v.len()
        invariant
            i <= v.len(),
            r@.len() == i,
            forall|j: int| 0 <= j < i ==> #[trigger] r@[j]@ == v@[j]@,
        decreases v.len() - i,
    {
        r.push(v[i].duplicate());
        i = i + 1;
    }
    assert(responses_model(r@) =~= responses_model(v@));
    r
}

/// A copy of a list of named schemas.
pub fn clone_schemas(v: &Vec<NamedSchema>) -> (r: Vec<NamedSchema>)
    ensures
        schemas_model(r@) == schemas_model(v@),
{
    let mut r: Vec<NamedSchema> = Vec::new();
    let mut i: usize = 0;
    while i < v.len()
        invariant
            i <= v.len(),
            r@.len() == i,
            forall|j: int| 0 <= j < i ==> #[trigger] r@[j]@ == v@[j]@,
        decreases v.len() - i,
    {
        r.push(v[i].duplicate());
        i = i + 1;
    }
    assert(schemas_model(r@) =~= schemas_model(v@));
    r
}

/// A handler as it stands inside an api context, where its path and tags may
/// still be changed and the pages it goes to are chosen.
pub struct ContextHandler {
    /// The original unmodified handler
    pub original: SwaggapiHandler,
    /// The handler's modified path
    pub path: String,
    /// The handler's modified tags
    pub tags: Vec<String>,
    /// The names of the pages the handler should be added to
    pub pages: Vec<String>,
}

impl ContextHandler {
    /// Wraps a handler, starting from its own path and tags and no pages.
    pub fn new(original: SwaggapiHandler) -> (r: ContextHandler)
        ensures
            r.original@ == original@,
            r.path@ == original.path@,
            r.tags.deep_view() == original.tags.deep_view(),
            r.pages@.len() == 0,
    {
        let path = original.path.clone();
        let tags = clone_strings(&original.tags);
        ContextHandler { original, path, tags, pages: Vec::new() }
    }
}

} // verus!
