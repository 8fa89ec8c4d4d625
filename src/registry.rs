//! One page builder per page identity, created on first use.
use vstd::prelude::*;
use std::sync::Arc;
use crate::document::Document;
use crate::handler::SwaggapiHandler;
use crate::page_builder::{document_of, empty_model, register, BuilderModel, SwaggapiPageBuilder};
use crate::table::{has_key, index_of, keys_unique, lemma_index_of, upsert};

verus! {

/// A page: a named grouping of handlers that produces one document.
pub trait SwaggapiPage {
    /// The name identifying the page in a [`PageRegistry`].
    spec fn name_spec() -> Seq<char>;

    /// The name identifying the page in a [`PageRegistry`].
    fn page_name() -> (r: &'static str)
        ensures
            r@ == Self::name_spec(),
    ;
}

/// The page every handler goes to unless it is excluded.
pub struct PageOfEverything;

impl SwaggapiPage for PageOfEverything {
    open spec fn name_spec() -> Seq<char> {
        "PageOfEverything"@
    }

    fn page_name() -> (r: &'static str) {
        "PageOfEverything"
    }
}

struct PageSlot {
    name: String,
    builder: SwaggapiPageBuilder,
}

/// The builders of all pages, each created the first time its page is asked for.
pub struct PageRegistry {
    pages: Vec<PageSlot>,
}

/// The registry's value after asking for the page `name`: unchanged if it is
/// there, else with a new empty builder appended under that name.
pub open spec fn with_page(
    pages: Seq<(Seq<char>, BuilderModel)>,
    name: Seq<char>,
) -> Seq<(Seq<char>, BuilderModel)> {
    if has_key(pages, name) {
        pages
    } else {
        pages.push((name, empty_model()))
    }
}

impl View for PageRegistry {
    type V = Seq<(Seq<char>, BuilderModel)>;

    closed spec fn view(&self) -> Seq<(Seq<char>, BuilderModel)> {
        self.pages@.map_values(|p: PageSlot| (p.name@, p.builder@))
    }
}

impl PageRegistry {
    /// Page names are unique and every builder keeps its invariant.
    pub closed spec fn wf(&self) -> bool {
        &&& keys_unique(self@)
        &&& forall|i: int| 0 <= i < self.pages@.len() ==> (#[trigger] self.pages@[i]).builder.wf()
    }

    /// A registry without pages.
    pub fn new() -> (r: PageRegistry)
        ensures
            r.wf(),
            r@.len() == 0,
    {
        PageRegistry { pages: Vec::new() }
    }

    /// The position of the page `name`, which is created, empty, if it is not
    /// there yet. Asking again for the same name gives the same position.
    pub fn page_index(&mut self, name: &str) -> (r: usize)
        requires
            old(self).wf(),
        ensures
            final(self).wf(),
            final(self)@ == with_page(old(self)@, name@),
            r < final(self)@.len(),
            r == index_of(final(self)@, name@),
            final(self)@[r as int].0 == name@,
    {
        let ghost s = self@;
        let key = name.to_owned();
        let mut i: usize = 0;
        while i < self.pages.len()
            invariant
                i <= self.pages.len(),
                key@ == name@,
                s == self@,
                self.wf(),
                forall|j: int| 0 <= j < i ==> (#[trigger] s[j]).0 != name@,
            decreases self.pages.len() - i,
        {
            if self.pages[i].name == key {
                proof {
                    assert(s[i as int].0 == name@);
                    lemma_index_of(s, i as int);
                }
                return i;
            }
            i = i + 1;
        }
        let builder = SwaggapiPageBuilder::new();
        self.pages.push(PageSlot { name: key, builder });
        proof {
            assert(!has_key(s, name@));
            assert(self@ =~= s.push((name@, empty_model())));
            assert(keys_unique(self@)) by {
                assert forall|a: int, b: int|
                    0 <= a < self@.len() && 0 <= b < self@.len() && #[trigger] self@[a].0
                        == #[trigger] self@[b].0 implies a == b by {
                    if a < s.len() {
                        assert(self@[a] == s[a]);
                    }
                    if b < s.len() {
                        assert(self@[b] == s[b]);
                    }
                }
            }
            lemma_index_of(self@, i as int);
        }
        i
    }

    /// The position of the page `P`, created if needed.
    pub fn page_of<P: SwaggapiPage>(&mut self) -> (r: usize)
        requires
            old(self).wf(),
        ensures
            final(self).wf(),
            final(self)@ == with_page(old(self)@, P::name_spec()),
            r < final(self)@.len(),
            r == index_of(final(self)@, P::name_spec()),
            final(self)@[r as int].0 == P::name_spec(),
    {
        self.page_index(P::page_name())
    }

    /// Adds `handler` under `ctx_path` to the builder at position `page`.
    pub fn add_handler(&mut self, page: usize, ctx_path: &str, handler: &SwaggapiHandler)
        requires
            old(self).wf(),
            page < old(self)@.len(),
        ensures
            final(self).wf(),
            final(self)@ == old(self)@.update(
                page as int,
                (old(self)@[page as int].0, register(old(self)@[page as int].1, ctx_path@, handler@)),
            ),
    {
        let ghost s = self@;
        let mut slot = self.pages.remove(page);
        assert(slot.builder.wf()) by {
            assert(old(self).pages@[page as int] == slot);
        }
        slot.builder.add_handler(ctx_path, handler);
        self.pages.insert(page, slot);
        proof {
            assert(self@ =~= s.update(page as int, (s[page as int].0, register(s[page as int].1, ctx_path@, handler@))));
            assert forall|i: int| 0 <= i < self.pages@.len() implies (#[trigger] self.pages@[i]).builder.wf() by {
                if i != page {
                    assert(self.pages@[i] == old(self).pages@[i]);
                }
            }
            assert forall|a: int, b: int|
                0 <= a < self@.len() && 0 <= b < self@.len() && #[trigger] self@[a].0
                    == #[trigger] self@[b].0 implies a == b by {
                assert(self@[a].0 == s[a].0 && self@[b].0 == s[b].0);
            }
        }
    }

    /// The document of the page at position `page`.
    pub fn build(&mut self, page: usize) -> (r: Arc<Document>)
        requires
            old(self).wf(),
            page < old(self)@.len(),
        ensures
            final(self).wf(),
            final(self)@ == old(self)@,
            r@ == document_of(old(self)@[page as int].1),
    {
        let ghost s = self@;
        let mut slot = self.pages.remove(page);
        assert(slot.builder.wf()) by {
            assert(old(self).pages@[page as int] == slot);
        }
        let r = slot.builder.build();
        self.pages.insert(page, slot);
        proof {
            assert(self@ =~= s);
            assert forall|i: int| 0 <= i < self.pages@.len() implies (#[trigger] self.pages@[i]).builder.wf() by {
                if i != page {
                    assert(self.pages@[i] == old(self).pages@[i]);
                }
            }
        }
        r
    }
}

/// Asking for a page twice gives the same position and leaves the registry as
/// the first request left it.
pub proof fn law_page_index_idempotent(pages: Seq<(Seq<char>, BuilderModel)>, name: Seq<char>)
    requires
        keys_unique(pages),
    ensures
        with_page(with_page(pages, name), name) == with_page(pages, name),
        index_of(with_page(with_page(pages, name), name), name) == index_of(with_page(pages, name), name),
{
    if !has_key(pages, name) {
        let p = pages.push((name, empty_model()));
        assert(p[pages.len() as int].0 == name);
    }
}

} // verus!
