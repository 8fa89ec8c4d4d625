use std::sync::Arc;

use swaggapi::{
    ContextHandler, Document, HttpMethod, NamedSchema, Operation, PageOfEverything, PageRegistry,
    PathItem, Response, ResponseSpec, SwaggapiHandler, SwaggapiPage, SwaggapiPageBuilder,
};

fn response(status: &str, schema: Option<&str>) -> Response {
    Response {
        status: status.to_string(),
        schema: schema.map(|s| s.to_string()),
    }
}

fn schema(name: &str, definition: &str) -> NamedSchema {
    NamedSchema {
        name: name.to_string(),
        definition: definition.to_string(),
    }
}

fn handler(
    method: HttpMethod,
    path: &str,
    ident: &str,
    responses: Vec<Response>,
    schemas: Vec<NamedSchema>,
) -> SwaggapiHandler {
    SwaggapiHandler {
        method,
        path: path.to_string(),
        deprecated: false,
        doc: vec![],
        ident: ident.to_string(),
        tags: vec![],
        responses: ResponseSpec { responses, schemas },
    }
}

fn simple(method: HttpMethod, path: &str, ident: &str) -> SwaggapiHandler {
    handler(method, path, ident, vec![response("200", None)], vec![])
}

fn item<'a>(doc: &'a Document, path: &str) -> Option<&'a PathItem> {
    doc.paths.iter().find(|e| e.path == path).map(|e| &e.item)
}

fn slot(item: &PathItem, method: HttpMethod) -> &Option<Operation> {
    match method {
        HttpMethod::Get => &item.get,
        HttpMethod::Post => &item.post,
        HttpMethod::Put => &item.put,
        HttpMethod::Delete => &item.delete,
        HttpMethod::Head => &item.head,
        HttpMethod::Options => &item.options,
        HttpMethod::Patch => &item.patch,
        HttpMethod::Trace => &item.trace,
    }
}

fn op_id(doc: &Document, path: &str, method: HttpMethod) -> Option<String> {
    item(doc, path)
        .and_then(|i| slot(i, method).as_ref())
        .map(|o| o.operation_id.clone())
}

fn op_ids(doc: &Document) -> Vec<(String, Vec<Option<String>>)> {
    let methods = [
        HttpMethod::Get,
        HttpMethod::Post,
        HttpMethod::Put,
        HttpMethod::Delete,
        HttpMethod::Head,
        HttpMethod::Options,
        HttpMethod::Patch,
        HttpMethod::Trace,
    ];
    let mut v: Vec<(String, Vec<Option<String>>)> = doc
        .paths
        .iter()
        .map(|e| {
            (
                e.path.clone(),
                methods
                    .iter()
                    .map(|m| slot(&e.item, *m).as_ref().map(|o| o.operation_id.clone()))
                    .collect(),
            )
        })
        .collect();
    v.sort();
    v
}

fn schema_names(doc: &Document) -> Vec<(String, String)> {
    doc.schemas
        .iter()
        .map(|s| (s.name.clone(), s.definition.clone()))
        .collect()
}

#[test]
fn health_end_to_end() {
    let mut b = SwaggapiPageBuilder::new();
    b.add_handler("", &simple(HttpMethod::Get, "/health", "health"));
    let doc = b.build();
    let get = item(&doc, "/health").unwrap().get.as_ref().unwrap();
    assert!(get.responses.iter().any(|r| r.status == "200" && r.schema.is_none()));
    assert!(doc.schemas.is_empty());
    assert_eq!(doc.paths.len(), 1);
    assert_eq!(doc.info.title, "");
    assert_eq!(doc.info.version, "");
}

#[test]
fn empty_builder_builds_empty_document() {
    let mut b = SwaggapiPageBuilder::new();
    let doc = b.build();
    assert!(doc.paths.is_empty());
    assert!(doc.schemas.is_empty());
}

#[test]
fn build_twice_is_identical() {
    let mut b = SwaggapiPageBuilder::new();
    b.add_handler("", &simple(HttpMethod::Get, "/a", "a"));
    b.add_handler("/api", &simple(HttpMethod::Post, "/b", "b"));
    let d1 = b.build();
    let d2 = b.build();
    assert!(Arc::ptr_eq(&d1, &d2));
    assert_eq!(op_ids(&d1), op_ids(&d2));
    assert_eq!(schema_names(&d1), schema_names(&d2));
}

#[test]
fn add_after_build_invalidates() {
    let mut b = SwaggapiPageBuilder::new();
    b.add_handler("", &simple(HttpMethod::Get, "/a", "a"));
    let d1 = b.build();
    b.add_handler("", &simple(HttpMethod::Get, "/b", "b"));
    let d2 = b.build();
    assert!(!Arc::ptr_eq(&d1, &d2));
    assert_eq!(d1.paths.len(), 1);
    assert_eq!(d2.paths.len(), 2);
    assert_eq!(op_id(&d2, "/a", HttpMethod::Get), Some("a".to_string()));
    assert_eq!(op_id(&d2, "/b", HttpMethod::Get), Some("b".to_string()));
    assert_eq!(op_id(&d1, "/b", HttpMethod::Get), None);
}

#[test]
fn disjoint_merge_commutes() {
    let a = simple(HttpMethod::Get, "/foo", "a");
    let c = simple(HttpMethod::Post, "/bar", "b");
    let mut b1 = SwaggapiPageBuilder::new();
    b1.add_handler("", &a);
    b1.add_handler("", &c);
    let mut b2 = SwaggapiPageBuilder::new();
    b2.add_handler("", &c);
    b2.add_handler("", &a);
    assert_eq!(op_ids(&b1.build()), op_ids(&b2.build()));
}

#[test]
fn same_path_other_method_keeps_both() {
    let mut b = SwaggapiPageBuilder::new();
    b.add_handler("", &simple(HttpMethod::Get, "/foo", "a"));
    b.add_handler("", &simple(HttpMethod::Delete, "/foo", "b"));
    let doc = b.build();
    assert_eq!(doc.paths.len(), 1);
    assert_eq!(op_id(&doc, "/foo", HttpMethod::Get), Some("a".to_string()));
    assert_eq!(op_id(&doc, "/foo", HttpMethod::Delete), Some("b".to_string()));
}

#[test]
fn collision_overwrites() {
    let mut b = SwaggapiPageBuilder::new();
    b.add_handler("", &simple(HttpMethod::Get, "/foo", "a"));
    b.add_handler("", &simple(HttpMethod::Get, "/foo", "b"));
    let doc = b.build();
    assert_eq!(doc.paths.len(), 1);
    assert_eq!(op_id(&doc, "/foo", HttpMethod::Get), Some("b".to_string()));
}

#[test]
fn schema_is_deduplicated() {
    let widget = "{\"type\":\"object\"}";
    let mut b = SwaggapiPageBuilder::new();
    b.add_handler(
        "",
        &handler(
            HttpMethod::Get,
            "/w",
            "get_widget",
            vec![response("200", Some("Widget"))],
            vec![schema("Widget", widget)],
        ),
    );
    b.add_handler(
        "",
        &handler(
            HttpMethod::Post,
            "/w",
            "post_widget",
            vec![response("201", Some("Widget"))],
            vec![schema("Widget", widget), schema("Gadget", "{}")],
        ),
    );
    let doc = b.build();
    assert_eq!(
        schema_names(&doc),
        vec![
            ("Widget".to_string(), widget.to_string()),
            ("Gadget".to_string(), "{}".to_string())
        ]
    );
}

#[test]
fn same_schema_name_last_definition_wins() {
    let mut b = SwaggapiPageBuilder::new();
    b.add_handler(
        "",
        &handler(HttpMethod::Get, "/a", "a", vec![], vec![schema("S", "1")]),
    );
    b.add_handler(
        "",
        &handler(HttpMethod::Get, "/b", "b", vec![], vec![schema("S", "2")]),
    );
    assert_eq!(schema_names(&b.build()), vec![("S".to_string(), "2".to_string())]);
}

#[test]
fn disjoint_registrations_all_present_in_any_order() {
    let methods = [HttpMethod::Get, HttpMethod::Post, HttpMethod::Put];
    let mut handlers = Vec::new();
    for i in 0..4 {
        for m in methods.iter() {
            handlers.push(simple(*m, &format!("/r{}", i), &format!("h{}_{:?}", i, m)));
        }
    }
    let mut forward = SwaggapiPageBuilder::new();
    for h in handlers.iter() {
        forward.add_handler("", h);
    }
    let mut backward = SwaggapiPageBuilder::new();
    for h in handlers.iter().rev() {
        backward.add_handler("", h);
    }
    let df = forward.build();
    let db = backward.build();
    for h in handlers.iter() {
        assert_eq!(op_id(&df, &h.path, h.method), Some(h.ident.clone()));
        assert_eq!(op_id(&db, &h.path, h.method), Some(h.ident.clone()));
    }
    assert_eq!(op_ids(&df), op_ids(&db));
}

#[test]
fn prefix_is_prepended() {
    let mut b = SwaggapiPageBuilder::new();
    b.add_handler("/api/v1", &simple(HttpMethod::Patch, "/users", "u"));
    let doc = b.build();
    assert_eq!(op_id(&doc, "/api/v1/users", HttpMethod::Patch), Some("u".to_string()));
    assert!(item(&doc, "/users").is_none());
}

#[test]
fn operation_takes_doc_tags_and_deprecation() {
    let mut h = simple(HttpMethod::Trace, "/t", "trace_it");
    h.doc = vec!["Summary line".to_string(), "More".to_string(), "Even more".to_string()];
    h.tags = vec!["x".to_string(), "y".to_string()];
    h.deprecated = true;
    let mut b = SwaggapiPageBuilder::new();
    b.add_handler("", &h);
    let doc = b.build();
    let op = item(&doc, "/t").unwrap().trace.as_ref().unwrap();
    assert_eq!(op.summary.as_deref(), Some("Summary line"));
    assert_eq!(op.description, vec!["More".to_string(), "Even more".to_string()]);
    assert_eq!(op.tags, vec!["x".to_string(), "y".to_string()]);
    assert!(op.deprecated);
    assert_eq!(op.operation_id, "trace_it");
}

#[test]
fn operation_without_doc_has_no_summary() {
    let op = Operation::from_handler(&simple(HttpMethod::Head, "/h", "h"));
    assert!(op.summary.is_none());
    assert!(op.description.is_empty());
}

#[test]
fn registry_reuses_pages() {
    let mut reg = PageRegistry::new();
    let a = reg.page_index("admin");
    let e = reg.page_of::<PageOfEverything>();
    assert_ne!(a, e);
    assert_eq!(reg.page_index("admin"), a);
    assert_eq!(reg.page_index(PageOfEverything::page_name()), e);
    reg.add_handler(a, "", &simple(HttpMethod::Get, "/only_admin", "x"));
    reg.add_handler(e, "", &simple(HttpMethod::Get, "/all", "y"));
    let da = reg.build(a);
    let de = reg.build(e);
    assert_eq!(op_id(&da, "/only_admin", HttpMethod::Get), Some("x".to_string()));
    assert_eq!(op_id(&da, "/all", HttpMethod::Get), None);
    assert_eq!(op_id(&de, "/all", HttpMethod::Get), Some("y".to_string()));
    assert!(Arc::ptr_eq(&da, &reg.build(a)));
}

#[test]
fn context_handler_starts_from_original() {
    let mut h = simple(HttpMethod::Get, "/c", "c");
    h.tags = vec!["t".to_string()];
    let ctx = ContextHandler::new(h);
    assert_eq!(ctx.path, "/c");
    assert_eq!(ctx.tags, vec!["t".to_string()]);
    assert!(ctx.pages.is_empty());
    assert_eq!(ctx.original.ident, "c");
}
