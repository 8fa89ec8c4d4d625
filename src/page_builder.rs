//! The per-page aggregator: merges handlers into a path table and a schema
//! store, and caches the document assembled from them.
use vstd::prelude::*;
use std::sync::Arc;
use crate::document::{
    assemble, assemble_document, operation_of, paths_model, Document, DocumentModel, Operation,
    OperationModel, PathEntry, PathItem, PathItemModel,
};
use crate::handler::{schemas_model, HandlerModel, NamedSchema, SwaggapiHandler};
use crate::method::HttpMethod;
use crate::table::{
    as_map, has_key, index_of, keys_unique, lemma_index_of, lemma_upsert, lookup, upsert,
};

verus! {

/// The mathematical value of a page builder: its info strings, its path table
/// and its schema store. The cached document is not part of it.
pub struct BuilderModel {
    pub title: Seq<char>,
    pub version: Seq<char>,
    pub paths: Seq<(Seq<char>, PathItemModel)>,
    pub schemas: Seq<(Seq<char>, Seq<char>)>,
}

/// The value of a builder that has seen no handler.
pub open spec fn empty_model() -> BuilderModel {
    BuilderModel {
        title: Seq::empty(),
        version: Seq::empty(),
        paths: Seq::empty(),
        schemas: Seq::empty(),
    }
}

/// Both tables have unique keys.
pub open spec fn model_wf(m: BuilderModel) -> bool {
    keys_unique(m.paths) && keys_unique(m.schemas)
}

/// The schema store after the named schemas `new` were generated into it, in
/// order: a name seen before keeps its place and takes the latest definition.
pub open spec fn merge_schemas(
    store: Seq<(Seq<char>, Seq<char>)>,
    new: Seq<(Seq<char>, Seq<char>)>,
) -> Seq<(Seq<char>, Seq<char>)>
    decreases new.len(),
{
    if new.len() == 0 {
        store
    } else {
        upsert(merge_schemas(store, new.drop_last()), new.last().0, new.last().1)
    }
}

/// The path a handler is registered under: its container's prefix followed by
/// its own path.
pub open spec fn full_path(prefix: Seq<char>, h: HandlerModel) -> Seq<char> {
    prefix + h.path
}

/// The path item at `key` after `h` was registered there: the item found, or an
/// empty one, with `h`'s operation in the slot of its method.
pub open spec fn registered_item(
    paths: Seq<(Seq<char>, PathItemModel)>,
    key: Seq<char>,
    h: HandlerModel,
) -> PathItemModel {
    let item = match lookup(paths, key) {
        Some(it) => it,
        None => PathItemModel::empty(),
    };
    item.with_slot(h.method, operation_of(h))
}

/// The builder's value after registering `h` under `prefix`.
pub open spec fn register(m: BuilderModel, prefix: Seq<char>, h: HandlerModel) -> BuilderModel {
    let key = full_path(prefix, h);
    BuilderModel {
        title: m.title,
        version: m.version,
        paths: upsert(m.paths, key, registered_item(m.paths, key, h)),
        schemas: merge_schemas(m.schemas, h.schemas),
    }
}

/// The document a builder with value `m` assembles.
pub open spec fn document_of(m: BuilderModel) -> DocumentModel {
    assemble(m.title, m.version, m.paths, m.schemas)
}

pub proof fn lemma_merge_schemas(
    store: Seq<(Seq<char>, Seq<char>)>,
    new: Seq<(Seq<char>, Seq<char>)>,
)
    requires
        keys_unique(store),
    ensures
        keys_unique(merge_schemas(store, new)),
    decreases new.len(),
{
    if new.len() > 0 {
        lemma_merge_schemas(store, new.drop_last());
        lemma_upsert(merge_schemas(store, new.drop_last()), new.last().0, new.last().1);
    }
}

/// Relies on `Arc::clone`: the new handle shares the same document.
#[verifier::external_body]
fn share_document(a: &Arc<Document>) -> (r: Arc<Document>)
    ensures
        r@ == a@,
{
    Arc::clone(a)
}

/// Builds the document of one page from the handlers added to it.
pub struct SwaggapiPageBuilder {
    title: String,
    version: String,
    paths: Vec<PathEntry>,
    /// The named schemas referenced by the operations, deduplicated by name
    schemas: Vec<NamedSchema>,
    /// The document last built, until the next handler is added
    last_build: Option<Arc<Document>>,
}

impl View for SwaggapiPageBuilder {
    type V = BuilderModel;

    closed spec fn view(&self) -> BuilderModel {
        BuilderModel {
            title: self.title@,
            version: self.version@,
            paths: paths_model(self.paths@),
            schemas: schemas_model(self.schemas@),
        }
    }
}

/// Position of `key` in the path table.
fn find_path(paths: &Vec<PathEntry>, key: &String) -> (r: Option<usize>)
    requires
        keys_unique(paths_model(paths@)),
    ensures
        match r {
            Some(i) => i < paths@.len() && index_of(paths_model(paths@), key@) == i && has_key(
                paths_model(paths@),
                key@,
            ),
            None => !has_key(paths_model(paths@), key@),
        },
{
    let ghost s = paths_model(paths@);
    let mut i: usize = 0;
    while i < paths.len()
        invariant
            i <= paths.len(),
            s == paths_model(paths@),
            keys_unique(s),
            forall|j: int| 0 <= j < i ==> (#[trigger] s[j]).0 != key@,
        decreases paths.len() - i,
    {
        if paths[i].path == *key {
            proof {
                lemma_index_of(s, i as int);
            }
            return Some(i);
        }
        i = i + 1;
    }
    None
}

/// Position of the schema named `name` in the store.
fn find_schema(schemas: &Vec<NamedSchema>, name: &String) -> (r: Option<usize>)
    requires
        keys_unique(schemas_model(schemas@)),
    ensures
        match r {
            Some(i) => i < schemas@.len() && index_of(schemas_model(schemas@), name@) == i
                && has_key(schemas_model(schemas@), name@),
            None => !has_key(schemas_model(schemas@), name@),
        },
{
    let ghost s = schemas_model(schemas@);
    let mut i: usize = 0;
    while i < schemas.len()
        invariant
            i <= schemas.len(),
            s == schemas_model(schemas@),
            keys_unique(s),
            forall|j: int| 0 <= j < i ==> (#[trigger] s[j]).0 != name@,
        decreases schemas.len() - i,
    {
        if schemas[i].name == *name {
            proof {
                lemma_index_of(s, i as int);
            }
            return Some(i);
        }
        i = i + 1;
    }
    None
}

impl SwaggapiPageBuilder {
    /// The builder's invariant: unique keys in both tables, and a cached
    /// document, if any, equal to the one the tables assemble into.
    pub closed spec fn wf(&self) -> bool {
        &&& model_wf(self@)
        &&& match self.last_build {
            Some(d) => d@ == document_of(self@),
            None => true,
        }
    }

    /// The document cached by the last build, if no handler was added since.
    pub closed spec fn cached(&self) -> Option<DocumentModel> {
        match self.last_build {
            Some(d) => Some(d@),
            None => None,
        }
    }

    /// A well-formed builder's tables have unique keys, and a cached document
    /// is the one its tables assemble into.
    pub proof fn lemma_wf(&self)
        requires
            self.wf(),
        ensures
            model_wf(self@),
            self.cached() is Some ==> self.cached()->0 == document_of(self@),
    {
    }

    /// An empty builder: no paths, no schemas, empty title and version, and no
    /// cached document.
    pub fn new() -> (r: SwaggapiPageBuilder)
        ensures
            r.wf(),
            r@ == empty_model(),
            r.cached() is None,
    {
        let r = SwaggapiPageBuilder {
            title: String::new(),
            version: String::new(),
            paths: Vec::new(),
            schemas: Vec::new(),
            last_build: None,
        };
        proof {
            assert(r@.paths =~= Seq::<(Seq<char>, PathItemModel)>::empty());
            assert(r@.schemas =~= Seq::<(Seq<char>, Seq<char>)>::empty());
            assert(r@.title =~= Seq::<char>::empty());
            assert(r@.version =~= Seq::<char>::empty());
        }
        r
    }

    /// Generates the named schemas of `handler`'s responses into the store, in
    /// order, a name already present taking the new definition in its place.
    fn generate_schemas(&mut self, handler: &SwaggapiHandler)
        requires
            keys_unique(schemas_model(old(self).schemas@)),
        ensures
            schemas_model(final(self).schemas@) == merge_schemas(
                schemas_model(old(self).schemas@),
                handler@.schemas,
            ),
            final(self).title == old(self).title,
            final(self).version == old(self).version,
            final(self).paths == old(self).paths,
            final(self).last_build == old(self).last_build,
    {
        let new = &handler.responses.schemas;
        let ghost start = schemas_model(self.schemas@);
        let mut i: usize = 0;
        while i < new.len()
            invariant
                i <= new.len(),
                new == &handler.responses.schemas,
                schemas_model(self.schemas@) == merge_schemas(start, handler@.schemas.take(i as int)),
                keys_unique(schemas_model(self.schemas@)),
                self.title == old(self).title,
                self.version == old(self).version,
                self.paths == old(self).paths,
                self.last_build == old(self).last_build,
            decreases new.len() - i,
        {
            let ghost before = schemas_model(self.schemas@);
            let entry = new[i].duplicate();
            let ghost ev = entry@;
            match find_schema(&self.schemas, &entry.name) {
                Some(j) => {
                    self.schemas.set(j, entry);
                },
                None => {
                    self.schemas.push(entry);
                },
            }
            proof {
                assert(schemas_model(self.schemas@) =~= upsert(before, ev.0, ev.1));
                lemma_upsert(before, ev.0, ev.1);
                assert(handler@.schemas.take(i + 1).drop_last() =~= handler@.schemas.take(i as int));
            }
            i = i + 1;
        }
        proof {
            assert(handler@.schemas.take(i as int) =~= handler@.schemas);
        }
    }

    /// Registers `handler` under `ctx_path`: its schemas go into the store, its
    /// operation into the slot of its method at the path `ctx_path` followed by
    /// the handler's path, replacing any operation there. The cached document is
    /// dropped.
    pub fn add_handler(&mut self, ctx_path: &str, handler: &SwaggapiHandler)
        requires
            old(self).wf(),
        ensures
            final(self).wf(),
            final(self)@ == register(old(self)@, ctx_path@, handler@),
            final(self).cached() is None,
    {
        self.last_build = None;
        self.generate_schemas(handler);
        let operation = Operation::from_handler(handler);
        let ghost op = operation@;
        let mut key = ctx_path.to_owned();
        key.append(handler.path.as_str());
        let ghost paths0 = paths_model(self.paths@);
        let ghost k = key@;
        assert(k == full_path(ctx_path@, handler@));
        match find_path(&self.paths, &key) {
            Some(i) => {
                let mut entry = self.paths.remove(i);
                proof {
                    lemma_index_of(paths0, i as int);
                }
                entry.item.set_operation(handler.method, operation);
                self.paths.insert(i, entry);
                proof {
                    assert(paths_model(self.paths@) =~= upsert(
                        paths0,
                        k,
                        registered_item(paths0, k, handler@),
                    ));
                }
            },
            None => {
                let mut item = PathItem::new();
                item.set_operation(handler.method, operation);
                self.paths.push(PathEntry { path: key, item });
                proof {
                    assert(paths_model(self.paths@) =~= upsert(
                        paths0,
                        k,
                        registered_item(paths0, k, handler@),
                    ));
                }
            },
        }
        proof {
            lemma_upsert(paths0, k, registered_item(paths0, k, handler@));
            lemma_merge_schemas(schemas_model(old(self).schemas@), handler@.schemas);
        }
    }

    /// The document of this page: the cached one if no handler was added since
    /// it was built, else a newly assembled one, which is then cached.
    pub fn build(&mut self) -> (r: Arc<Document>)
        requires
            old(self).wf(),
        ensures
            final(self).wf(),
            final(self)@ == old(self)@,
            r@ == document_of(old(self)@),
            old(self).cached() is Some ==> r@ == old(self).cached()->0,
            final(self).cached() == Some(r@),
    {
        match &self.last_build {
            Some(d) => {
                return share_document(d);
            },
            None => {},
        }
        let open_api = Arc::new(
            assemble_document(&self.title, &self.version, &self.paths, &self.schemas),
        );
        self.last_build = Some(share_document(&open_api));
        open_api
    }
}


/// Registering keeps both tables free of repeated keys; the path entry of the
/// handler holds its operation, and every other path keeps its item.
pub proof fn lemma_register(m: BuilderModel, prefix: Seq<char>, h: HandlerModel)
    requires
        model_wf(m),
    ensures
        model_wf(register(m, prefix, h)),
        lookup(register(m, prefix, h).paths, full_path(prefix, h)) == Some(
            registered_item(m.paths, full_path(prefix, h), h),
        ),
        forall|k: Seq<char>|
            k != full_path(prefix, h) ==> lookup(#[trigger] register(m, prefix, h).paths, k)
                == lookup(m.paths, k),
        as_map(register(m, prefix, h).paths) == as_map(m.paths).insert(
            full_path(prefix, h),
            registered_item(m.paths, full_path(prefix, h), h),
        ),
{
    let key = full_path(prefix, h);
    lemma_upsert(m.paths, key, registered_item(m.paths, key, h));
    lemma_merge_schemas(m.schemas, h.schemas);
}

pub proof fn lemma_with_slot(item: PathItemModel, m: HttpMethod, op: OperationModel, m2: HttpMethod)
    ensures
        item.with_slot(m, op).slot(m) == Some(op),
        m2 != m ==> item.with_slot(m, op).slot(m2) == item.slot(m2),
{
}

/// Building twice with no handler added in between gives the same document.
/// `b0` is the builder before the first build, `b1` after it and `b2` after
/// the second; `d1` and `d2` are what the two builds returned, as the
/// contract of `build` describes them.
pub proof fn law_build_idempotent(
    b0: SwaggapiPageBuilder,
    b1: SwaggapiPageBuilder,
    b2: SwaggapiPageBuilder,
    d1: DocumentModel,
    d2: DocumentModel,
)
    requires
        b0.wf(),
        b1.wf(),
        b1@ == b0@,
        d1 == document_of(b0@),
        b1.cached() == Some(d1),
        b2@ == b1@,
        d2 == document_of(b1@),
        b1.cached() is Some ==> d2 == b1.cached()->0,
        b2.cached() == Some(d2),
    ensures
        d2 == d1,
        b2@ == b0@,
        b2.cached() == Some(d1),
{
}

/// Adding a handler after a build changes the next document by exactly the
/// path entry of that handler, which then holds its operation; the info block
/// stays.
pub proof fn law_add_invalidates(m: BuilderModel, prefix: Seq<char>, h: HandlerModel)
    requires
        model_wf(m),
    ensures
        as_map(document_of(register(m, prefix, h)).paths) == as_map(document_of(m).paths).insert(
            full_path(prefix, h),
            registered_item(m.paths, full_path(prefix, h), h),
        ),
        registered_item(m.paths, full_path(prefix, h), h).slot(h.method) == Some(operation_of(h)),
        document_of(register(m, prefix, h)).title == document_of(m).title,
        document_of(register(m, prefix, h)).version == document_of(m).version,
{
    lemma_register(m, prefix, h);
}

/// Two handlers with different (path, method) pairs give the same path table
/// in either order of registration.
pub proof fn law_disjoint_commute(
    m: BuilderModel,
    pa: Seq<char>,
    a: HandlerModel,
    pb: Seq<char>,
    b: HandlerModel,
)
    requires
        model_wf(m),
        full_path(pa, a) != full_path(pb, b) || a.method != b.method,
    ensures
        as_map(register(register(m, pa, a), pb, b).paths) == as_map(
            register(register(m, pb, b), pa, a).paths,
        ),
{
    let ka = full_path(pa, a);
    let kb = full_path(pb, b);
    let ma = register(m, pa, a);
    let mb = register(m, pb, b);
    lemma_register(m, pa, a);
    lemma_register(m, pb, b);
    lemma_register(ma, pb, b);
    lemma_register(mb, pa, a);
    let mab = as_map(register(ma, pb, b).paths);
    let mba = as_map(register(mb, pa, a).paths);
    if ka != kb {
        assert(lookup(ma.paths, kb) == lookup(m.paths, kb));
        assert(lookup(mb.paths, ka) == lookup(m.paths, ka));
        assert(mab =~= mba);
    } else {
        let base = match lookup(m.paths, ka) {
            Some(it) => it,
            None => PathItemModel::empty(),
        };
        assert(registered_item(ma.paths, kb, b) == registered_item(mb.paths, ka, a)) by {
            assert(registered_item(ma.paths, kb, b) == base.with_slot(a.method, operation_of(a)).with_slot(
                b.method,
                operation_of(b),
            ));
            assert(registered_item(mb.paths, ka, a) == base.with_slot(b.method, operation_of(b)).with_slot(
                a.method,
                operation_of(a),
            ));
        }
        assert(mab =~= mba);
    }
}

/// Registering a second handler at the same path and method replaces the
/// first one's operation with its own.
pub proof fn law_collision_overwrite(
    m: BuilderModel,
    pa: Seq<char>,
    a: HandlerModel,
    pb: Seq<char>,
    b: HandlerModel,
)
    requires
        model_wf(m),
        full_path(pa, a) == full_path(pb, b),
        a.method == b.method,
    ensures
        ({
            let item = lookup(register(register(m, pa, a), pb, b).paths, full_path(pb, b));
            item is Some && item->0.slot(b.method) == Some(operation_of(b))
        }),
{
    lemma_register(m, pa, a);
    lemma_register(register(m, pa, a), pb, b);
}

/// Generating schemas whose names are distinct leaves each of them in the
/// store under its name, once.
pub proof fn lemma_merge_contains(
    store: Seq<(Seq<char>, Seq<char>)>,
    new: Seq<(Seq<char>, Seq<char>)>,
    name: Seq<char>,
    def: Seq<char>,
)
    requires
        keys_unique(store),
        keys_unique(new),
        new.contains((name, def)),
    ensures
        lookup(merge_schemas(store, new), name) == Some(def),
    decreases new.len(),
{
    lemma_merge_schemas(store, new.drop_last());
    lemma_upsert(merge_schemas(store, new.drop_last()), new.last().0, new.last().1);
    let i = choose|i: int| 0 <= i < new.len() && new[i] == (name, def);
    if new.last().0 != name {
        assert(i != new.len() - 1);
        assert(new.drop_last()[i] == (name, def));
        assert(keys_unique(new.drop_last()));
        lemma_merge_contains(store, new.drop_last(), name, def);
    } else {
        assert(new[new.len() - 1].0 == new[i].0);
    }
}

/// Two handlers whose responses both need a schema of the same name and
/// definition leave exactly one entry of that name in the store, holding that
/// definition.
pub proof fn law_schema_dedup(
    m: BuilderModel,
    pa: Seq<char>,
    a: HandlerModel,
    pb: Seq<char>,
    b: HandlerModel,
    name: Seq<char>,
    def: Seq<char>,
)
    requires
        model_wf(m),
        keys_unique(a.schemas),
        keys_unique(b.schemas),
        a.schemas.contains((name, def)),
        b.schemas.contains((name, def)),
    ensures
        ({
            let s = register(register(m, pa, a), pb, b).schemas;
            &&& lookup(s, name) == Some(def)
            &&& forall|i: int, j: int|
                0 <= i < s.len() && 0 <= j < s.len() && #[trigger] s[i].0 == name && #[trigger] s[j].0
                    == name ==> i == j
        }),
{
    lemma_register(m, pa, a);
    lemma_register(register(m, pa, a), pb, b);
    lemma_merge_contains(register(m, pa, a).schemas, b.schemas, name, def);
}

/// The key a registration `(prefix, handler)` writes to.
pub open spec fn registration_path(r: (Seq<char>, HandlerModel)) -> Seq<char> {
    full_path(r.0, r.1)
}

/// The builder's value after the registrations `regs`, in order.
pub open spec fn register_all(m: BuilderModel, regs: Seq<(Seq<char>, HandlerModel)>) -> BuilderModel
    decreases regs.len(),
{
    if regs.len() == 0 {
        m
    } else {
        register(register_all(m, regs.drop_last()), regs.last().0, regs.last().1)
    }
}

/// Registrations with pairwise different (path, method) pairs, made in any
/// order, leave every one of their operations in the path table.
pub proof fn law_disjoint_registrations_all_present(
    m: BuilderModel,
    regs: Seq<(Seq<char>, HandlerModel)>,
)
    requires
        model_wf(m),
        forall|i: int, j: int|
            0 <= i < regs.len() && 0 <= j < regs.len() && i != j ==> registration_path(
                #[trigger] regs[i],
            ) != registration_path(#[trigger] regs[j]) || regs[i].1.method != regs[j].1.method,
    ensures
        model_wf(register_all(m, regs)),
        forall|i: int|
            0 <= i < regs.len() ==> {
                let item = lookup(register_all(m, regs).paths, registration_path(#[trigger] regs[i]));
                item is Some && item->0.slot(regs[i].1.method) == Some(operation_of(regs[i].1))
            },
    decreases regs.len(),
{
    if regs.len() > 0 {
        let init = regs.drop_last();
        let last = regs.last();
        assert forall|i: int, j: int|
            0 <= i < init.len() && 0 <= j < init.len() && i != j implies registration_path(
                #[trigger] init[i],
            ) != registration_path(#[trigger] init[j]) || init[i].1.method != init[j].1.method by {
            assert(init[i] == regs[i] && init[j] == regs[j]);
        }
        law_disjoint_registrations_all_present(m, init);
        let prev = register_all(m, init);
        lemma_register(prev, last.0, last.1);
        let k = full_path(last.0, last.1);
        assert forall|i: int| 0 <= i < regs.len() implies {
            let item = lookup(register_all(m, regs).paths, registration_path(#[trigger] regs[i]));
            item is Some && item->0.slot(regs[i].1.method) == Some(operation_of(regs[i].1))
        } by {
            let ki = registration_path(regs[i]);
            if i < regs.len() - 1 {
                assert(init[i] == regs[i]);
                let before = lookup(prev.paths, ki);
                if ki == k {
                    assert(regs[i].1.method != last.1.method);
                    lemma_with_slot(before->0, last.1.method, operation_of(last.1), regs[i].1.method);
                }
            } else {
                lemma_with_slot(
                    match lookup(prev.paths, k) {
                        Some(it) => it,
                        None => PathItemModel::empty(),
                    },
                    last.1.method,
                    operation_of(last.1),
                    last.1.method,
                );
            }
        }
    }
}

} // verus!
