//! The assembled document: info block, path table and reusable schemas.
use vstd::prelude::*;
use crate::handler::{
    clone_responses, clone_schemas, clone_strings, responses_model, schemas_model, HandlerModel,
    NamedSchema, Response, SwaggapiHandler,
};
use crate::method::HttpMethod;

verus! {

/// One operation of a path item.
pub struct Operation {
    /// The first documentation line
    pub summary: Option<String>,
    /// The documentation lines after the first
    pub description: Vec<String>,
    pub operation_id: String,
    pub tags: Vec<String>,
    pub deprecated: bool,
    pub responses: Vec<Response>,
}

pub struct OperationModel {
    pub summary: Option<Seq<char>>,
    pub description: Seq<Seq<char>>,
    pub operation_id: Seq<char>,
    pub tags: Seq<Seq<char>>,
    pub deprecated: bool,
    pub responses: Seq<(Seq<char>, Option<Seq<char>>)>,
}

impl View for Operation {
    type V = OperationModel;

    open spec fn view(&self) -> OperationModel {
        OperationModel {
            summary: self.summary.deep_view(),
            description: self.description.deep_view(),
            operation_id: self.operation_id@,
            tags: self.tags.deep_view(),
            deprecated: self.deprecated,
            responses: responses_model(self.responses@),
        }
    }
}

/// The operation a handler contributes: its documentation split into summary
/// and description, its identifier, tags, deprecation and responses.
pub open spec fn operation_of(h: HandlerModel) -> OperationModel {
    OperationModel {
        summary: if h.doc.len() > 0 { Some(h.doc[0]) } else { None },
        description: if h.doc.len() > 0 { h.doc.drop_first() } else { h.doc },
        operation_id: h.ident,
        tags: h.tags,
        deprecated: h.deprecated,
        responses: h.responses,
    }
}

pub open spec fn slot_view(o: Option<Operation>) -> Option<OperationModel> {
    match o {
        Some(op) => Some(op@),
        None => None,
    }
}

/// The operations registered for one path, one slot per http method.
pub struct PathItem {
    pub get: Option<Operation>,
    pub post: Option<Operation>,
    pub put: Option<Operation>,
    pub delete: Option<Operation>,
    pub head: Option<Operation>,
    pub options: Option<Operation>,
    pub patch: Option<Operation>,
    pub trace: Option<Operation>,
}

pub struct PathItemModel {
    pub get: Option<OperationModel>,
    pub post: Option<OperationModel>,
    pub put: Option<OperationModel>,
    pub delete: Option<OperationModel>,
    pub head: Option<OperationModel>,
    pub options: Option<OperationModel>,
    pub patch: Option<OperationModel>,
    pub trace: Option<OperationModel>,
}

impl PathItemModel {
    pub open spec fn empty() -> PathItemModel {
        PathItemModel {
            get: None,
            post: None,
            put: None,
            delete: None,
            head: None,
            options: None,
            patch: None,
            trace: None,
        }
    }

    /// The operation in the slot of `m`.
    pub open spec fn slot(self, m: HttpMethod) -> Option<OperationModel> {
        match m {
            HttpMethod::Get => self.get,
            HttpMethod::Post => self.post,
            HttpMethod::Put => self.put,
            HttpMethod::Delete => self.delete,
            HttpMethod::Head => self.head,
            HttpMethod::Options => self.options,
            HttpMethod::Patch => self.patch,
            HttpMethod::Trace => self.trace,
        }
    }

    /// The item with `op` in the slot of `m` and the other slots as they were.
    pub open spec fn with_slot(self, m: HttpMethod, op: OperationModel) -> PathItemModel {
        match m {
            HttpMethod::Get => PathItemModel { get: Some(op), ..self },
            HttpMethod::Post => PathItemModel { post: Some(op), ..self },
            HttpMethod::Put => PathItemModel { put: Some(op), ..self },
            HttpMethod::Delete => PathItemModel { delete: Some(op), ..self },
            HttpMethod::Head => PathItemModel { head: Some(op), ..self },
            HttpMethod::Options => PathItemModel { options: Some(op), ..self },
            HttpMethod::Patch => PathItemModel { patch: Some(op), ..self },
            HttpMethod::Trace => PathItemModel { trace: Some(op), ..self },
        }
    }
}

impl View for PathItem {
    type V = PathItemModel;

    open spec fn view(&self) -> PathItemModel {
        PathItemModel {
            get: slot_view(self.get),
            post: slot_view(self.post),
            put: slot_view(self.put),
            delete: slot_view(self.delete),
            head: slot_view(self.head),
            options: slot_view(self.options),
            patch: slot_view(self.patch),
            trace: slot_view(self.trace),
        }
    }
}

/// A path of the document with the operations registered for it.
pub struct PathEntry {
    pub path: String,
    pub item: PathItem,
}

impl View for PathEntry {
    type V = (Seq<char>, PathItemModel);

    open spec fn view(&self) -> Self::V {
        (self.path@, self.item@)
    }
}

pub open spec fn paths_model(v: Seq<PathEntry>) -> Seq<(Seq<char>, PathItemModel)> {
    v.map_values(|e: PathEntry| e@)
}

/// The document's info block.
pub struct Info {
    pub title: String,
    pub version: String,
}

/// An assembled API document.
pub struct Document {
    pub info: Info,
    /// The paths, in the order they were first registered
    pub paths: Vec<PathEntry>,
    /// The reusable schemas, in the order their names were first seen
    pub schemas: Vec<NamedSchema>,
}

pub struct DocumentModel {
    pub title: Seq<char>,
    pub version: Seq<char>,
    pub paths: Seq<(Seq<char>, PathItemModel)>,
    pub schemas: Seq<(Seq<char>, Seq<char>)>,
}

impl View for Document {
    type V = DocumentModel;

    open spec fn view(&self) -> DocumentModel {
        DocumentModel {
            title: self.info.title@,
            version: self.info.version@,
            paths: paths_model(self.paths@),
            schemas: schemas_model(self.schemas@),
        }
    }
}

impl Operation {
    /// The operation `handler` contributes.
    pub fn from_handler(handler: &SwaggapiHandler) -> (r: Operation)
        ensures
            r@ == operation_of(handler@),
    {
        let mut summary: Option<String> = None;
        let mut description: Vec<String> = Vec::new();
        let mut i: usize = 0;
        while i < handler.doc.len()
            invariant
                i <= handler.doc.len(),
                i == 0 ==> summary.is_none(),
                i > 0 ==> summary.deep_view() == Some(handler.doc@[0]@),
                description@.len() == if i > 0 { i - 1 } else { 0 },
                forall|j: int| 0 <= j < description@.len() ==> #[trigger] description@[j]@ == handler.doc@[j + 1]@,
            decreases handler.doc.len() - i,
        {
            if i == 0 {
                summary = Some(handler.doc[0].clone());
            } else {
                description.push(handler.doc[i].clone());
            }
            i = i + 1;
        }
        proof {
            if handler.doc@.len() > 0 {
                assert(description.deep_view() =~= handler.doc.deep_view().drop_first());
            } else {
                assert(description.deep_view() =~= handler.doc.deep_view());
            }
        }
        Operation {
            summary,
            description,
            operation_id: handler.ident.clone(),
            tags: clone_strings(&handler.tags),
            deprecated: handler.deprecated,
            responses: clone_responses(&handler.responses.responses),
        }
    }

    pub fn duplicate(&self) -> (r: Operation)
        ensures
            r@ == self@,
    {
        let summary = match &self.summary {
            Some(s) => Some(s.clone()),
            None => None,
        };
        Operation {
            summary,
            description: clone_strings(&self.description),
            operation_id: self.operation_id.clone(),
            tags: clone_strings(&self.tags),
            deprecated: self.deprecated,
            responses: clone_responses(&self.responses),
        }
    }
}

fn clone_slot(o: &Option<Operation>) -> (r: Option<Operation>)
    ensures
        slot_view(r) == slot_view(*o),
{
    match o {
        Some(op) => Some(op.duplicate()),
        None => None,
    }
}

impl PathItem {
    /// A path item with every slot empty.
    pub fn new() -> (r: PathItem)
        ensures
            r@ == PathItemModel::empty(),
    {
        PathItem {
            get: None,
            post: None,
            put: None,
            delete: None,
            head: None,
            options: None,
            patch: None,
            trace: None,
        }
    }

    /// Puts `op` in the slot of `method`, replacing what was there.
    pub fn set_operation(&mut self, method: HttpMethod, op: Operation)
        ensures
            final(self)@ == old(self)@.with_slot(method, op@),
    {
        match method {
            HttpMethod::Get => self.get = Some(op),
            HttpMethod::Post => self.post = Some(op),
            HttpMethod::Put => self.put = Some(op),
            HttpMethod::Delete => self.delete = Some(op),
            HttpMethod::Head => self.head = Some(op),
            HttpMethod::Options => self.options = Some(op),
            HttpMethod::Patch => self.patch = Some(op),
            HttpMethod::Trace => self.trace = Some(op),
        }
    }

    pub fn duplicate(&self) -> (r: PathItem)
        ensures
            r@ == self@,
    {
        PathItem {
            get: clone_slot(&self.get),
            post: clone_slot(&self.post),
            put: clone_slot(&self.put),
            delete: clone_slot(&self.delete),
            head: clone_slot(&self.head),
            options: clone_slot(&self.options),
            patch: clone_slot(&self.patch),
            trace: clone_slot(&self.trace),
        }
    }
}

/// A copy of a path table.
pub fn clone_paths(v: &Vec<PathEntry>) -> (r: Vec<PathEntry>)
    ensures
        paths_model(r@) == paths_model(v@),
{
    let mut r: Vec<PathEntry> = Vec::new();
    let mut i: usize = 0;
    while i < v.len()
        invariant
            i <= v.len(),
            r@.len() == i,
            forall|j: int| 0 <= j < i ==> #[trigger] r@[j]@ == v@[j]@,
        decreases v.len() - i,
    {
        r.push(PathEntry { path: v[i].path.clone(), item: v[i].item.duplicate() });
        i = i + 1;
    }
    assert(paths_model(r@) =~= paths_model(v@));
    r
}

/// The document for a page: an info block with `title` and `version`, the
/// path table and the schema store, each copied as it stands.
pub open spec fn assemble(
    title: Seq<char>,
    version: Seq<char>,
    paths: Seq<(Seq<char>, PathItemModel)>,
    schemas: Seq<(Seq<char>, Seq<char>)>,
) -> DocumentModel {
    DocumentModel { title, version, paths, schemas }
}

/// Renders a path table and a schema store into a new document.
pub fn assemble_document(
    title: &String,
    version: &String,
    paths: &Vec<PathEntry>,
    schemas: &Vec<NamedSchema>,
) -> (r: Document)
    ensures
        r@ == assemble(title@, version@, paths_model(paths@), schemas_model(schemas@)),
{
    Document {
        info: Info { title: title.clone(), version: version.clone() },
        paths: clone_paths(paths),
        schemas: clone_schemas(schemas),
    }
}

} // verus!
