//! The tree-wide guarantees of the compiler, stated and proved over the
//! ghost compilation model that every executable function is pinned to.

use vstd::prelude::*;
use crate::builder::{
    children_loop_m, children_pages, compile_m, module_of_builder, opt_to_seq, tree_pages,
    write_component_m, write_components_m, write_item_m, write_items_m, write_metadata_m,
    BuilderModel, ModuleModel,
};
use crate::source::{ErrorModel, SourceModel};
use crate::builder::{items_loop_m, segment_open, static_size_fields, walk_tree_m};
use crate::builder::{component_key, metadata_alt_key, metadata_key};
use crate::strings::dec_spec;
use crate::ident::{
    encode_spec, lemma_encode_append, lemma_encode_len_simple, lemma_mangle_counter_injective,
    lemma_mangle_tag_len_distinct, mangle_spec,
};
use crate::tree::{
    category_name_spec, metadata_is_empty_spec, numeric_sizes, AltItemModel, ComponentType,
    GlobalMetadataModel, MetadataCategory, MetadataModel, TreeModel,
};

verus! {

// -------------------------------------------------------------------------
// Determinism.
/// Compiling the same tree twice, each time from a fresh state, yields
/// byte-identical program text, import list, manifest and page list: the
/// result of a successful compilation is a function of the inputs alone.
pub proof fn lemma_compilation_deterministic(
    r1: ModuleModel,
    r2: ModuleModel,
    env: crate::env::EnvModel,
    base_path: Option<Seq<char>>,
    t: TreeModel,
    g: GlobalMetadataModel,
)
    requires
        compile_m(env, base_path, t, g) is Ok,
        r1 == module_of_builder(compile_m(env, base_path, t, g)->Ok_0),
        r2 == module_of_builder(compile_m(env, base_path, t, g)->Ok_0),
    ensures
        r1.loader_tree_code == r2.loader_tree_code,
        r1.imports == r2.imports,
        r1.inner_assets == r2.inner_assets,
        r1.pages == r2.pages,
{
}

// -------------------------------------------------------------------------
// Identifier uniqueness.
/// Identifiers mangled from distinct allocation counters are distinct,
/// whatever their tags: two slots that share a human-readable tag still
/// get different identifiers. Every emission site draws a fresh counter,
/// so any two identifiers of one compilation differ in it, except the
/// alt-text identifier, which shares its item's counter and is covered by
/// [`lemma_alt_text_identifier_distinct`].
pub proof fn lemma_identifier_unique_by_counter(t1: Seq<char>, t2: Seq<char>, i: nat, j: nat)
    requires
        i != j,
    ensures
        mangle_spec(t1, i) != mangle_spec(t2, j),
{
    if mangle_spec(t1, i) == mangle_spec(t2, j) {
        lemma_mangle_counter_injective(t1, t2, i, j);
        assert(false);
    }
}

/// The alt-text identifier of a static item differs from the item's own
/// identifier although both carry the same counter: the encoded tags
/// differ in length.
pub proof fn lemma_alt_text_identifier_distinct(cat: MetadataCategory, i: nat)
    ensures
        mangle_spec(category_name_spec(cat), i) != mangle_spec(
            category_name_spec(cat) + " alt text"@,
            i,
        ),
{
    let tag = category_name_spec(cat);
    let suffix = " alt text"@;
    lemma_encode_append(tag, suffix);
    reveal_strlit(" alt text");
    assert(suffix.len() == 9);
    assert(suffix[0] == ' ');
    assert(suffix[1] == 'a');
    assert(suffix[2] == 'l');
    assert(suffix[3] == 't');
    assert(suffix[4] == ' ');
    assert(suffix[5] == 't');
    assert(suffix[6] == 'e');
    assert(suffix[7] == 'x');
    assert(suffix[8] == 't');
    assert(forall|k: int|
        0 <= k < suffix.len() ==> crate::ident::is_passthrough_char(#[trigger] suffix[k])
            || suffix[k] == ' ');
    lemma_encode_len_simple(suffix);
    assert(encode_spec(tag + suffix).len() == encode_spec(tag).len() + 9);
    lemma_mangle_tag_len_distinct(tag + suffix, tag, i);
}

// -------------------------------------------------------------------------
// Root-only metadata.
/// A segment compiled with root off emits the same thing whatever the
/// tree-wide global metadata holds: the favicon merge and the global
/// manifest field can never appear in a non-root segment's output, even
/// when its own metadata is non-empty.
pub proof fn lemma_nonroot_ignores_global(
    m: BuilderModel,
    t: TreeModel,
    g1: GlobalMetadataModel,
    g2: GlobalMetadataModel,
)
    ensures
        walk_tree_m(m, t, g1, false) == walk_tree_m(m, t, g2, false),
    decreases t,
{
    let m1 = BuilderModel { loader_tree_code: m.loader_tree_code + segment_open(t.segment), ..m };
    let rc = write_components_m(
        BuilderModel { loader_tree_code: Seq::empty(), ..m1 },
        t.components,
    );
    if rc is Ok {
        let mc = rc->Ok_0;
        let m2 = BuilderModel { loader_tree_code: m1.loader_tree_code, ..mc };
        lemma_children_ignore_global(m2, t.parallel_routes, g1, g2);
    }
}

/// The children of any segment are all compiled with root off, so their
/// output is independent of the global metadata too.
pub proof fn lemma_children_ignore_global(
    m: BuilderModel,
    children: Seq<(Seq<char>, TreeModel)>,
    g1: GlobalMetadataModel,
    g2: GlobalMetadataModel,
)
    ensures
        children_loop_m(m, children, g1) == children_loop_m(m, children, g2),
    decreases children,
{
    if children.len() > 0 {
        let m1 = BuilderModel {
            loader_tree_code: m.loader_tree_code + crate::escape::js_string_spec(children[0].0)
                + ": "@,
            ..m
        };
        lemma_nonroot_ignores_global(m1, children[0].1, g1, g2);
        let r = walk_tree_m(m1, children[0].1, g1, false);
        if r is Ok {
            let m2 = r->Ok_0;
            lemma_children_ignore_global(
                BuilderModel { loader_tree_code: m2.loader_tree_code + ",\n"@, ..m2 },
                children.drop_first(),
                g1,
                g2,
            );
        }
    }
}


/// The favicon merge adds at most one leading icon entry, and exactly one
/// when the global metadata passed to a root segment carries a favicon.
pub proof fn lemma_favicon_merged_at_most_once(global: Option<GlobalMetadataModel>)
    ensures
        crate::builder::favicon_lead(global).len() <= 1,
        (match global {
            Option::Some(g) => g.favicon is Some,
            Option::None => false,
        }) ==> crate::builder::favicon_lead(global).len() == 1,
{
}

// -------------------------------------------------------------------------
// Page collection completeness.
proof fn lemma_component_pages(m: BuilderModel, ty: ComponentType, comp: Option<Seq<char>>)
    ensures
        write_component_m(m, ty, comp) is Ok ==> write_component_m(m, ty, comp)->Ok_0.pages == (
        if ty == ComponentType::Page {
            m.pages + opt_to_seq(comp)
        } else {
            m.pages
        }),
{
    let r = write_component_m(m, ty, comp);
    if r is Ok {
        match comp {
            Option::Some(path) => {
                if ty == ComponentType::Page {
                    assert(m.pages.push(path) =~= m.pages + opt_to_seq(comp));
                }
            },
            Option::None => {
                if ty == ComponentType::Page {
                    assert(m.pages + opt_to_seq(comp) =~= m.pages);
                }
            },
        }
    }
}

proof fn lemma_components_pages(m: BuilderModel, c: crate::tree::ComponentsModel)
    ensures
        write_components_m(m, c) is Ok ==> write_components_m(m, c)->Ok_0.pages == m.pages
            + opt_to_seq(c.page),
{
    let r = write_components_m(m, c);
    if r is Ok {
        lemma_component_pages(m, ComponentType::Layout, c.layout);
        let m1 = write_component_m(m, ComponentType::Layout, c.layout)->Ok_0;
        lemma_component_pages(m1, ComponentType::Page, c.page);
        let m2 = write_component_m(m1, ComponentType::Page, c.page)->Ok_0;
        lemma_component_pages(m2, ComponentType::DefaultPage, c.default);
        let m3 = write_component_m(m2, ComponentType::DefaultPage, c.default)->Ok_0;
        lemma_component_pages(m3, ComponentType::Error, c.error);
        let m4 = write_component_m(m3, ComponentType::Error, c.error)->Ok_0;
        lemma_component_pages(m4, ComponentType::Loading, c.loading);
        let m5 = write_component_m(m4, ComponentType::Loading, c.loading)->Ok_0;
        lemma_component_pages(m5, ComponentType::Template, c.template);
        let m6 = write_component_m(m5, ComponentType::Template, c.template)->Ok_0;
        lemma_component_pages(m6, ComponentType::NotFound, c.not_found);
    }
}

proof fn lemma_item_pages(
    m: BuilderModel,
    page: Seq<char>,
    cat: MetadataCategory,
    item: AltItemModel,
)
    ensures
        write_item_m(m, page, cat, item) is Ok ==> write_item_m(m, page, cat, item)->Ok_0.pages
            == m.pages,
{
}

proof fn lemma_items_loop_pages(
    m: BuilderModel,
    page: Seq<char>,
    cat: MetadataCategory,
    items: Seq<AltItemModel>,
)
    ensures
        items_loop_m(m, page, cat, items) is Ok ==> items_loop_m(m, page, cat, items)->Ok_0.pages
            == m.pages,
    decreases items.len(),
{
    if items.len() > 0 {
        let r0 = write_item_m(m, page, cat, items[0]);
        lemma_item_pages(m, page, cat, items[0]);
        if r0 is Ok {
            lemma_items_loop_pages(r0->Ok_0, page, cat, items.drop_first());
        }
    }
}

proof fn lemma_write_items_pages(
    m: BuilderModel,
    page: Seq<char>,
    cat: MetadataCategory,
    items: Seq<AltItemModel>,
)
    ensures
        write_items_m(m, page, cat, items) is Ok ==> write_items_m(m, page, cat, items)->Ok_0.pages
            == m.pages,
{
    if items.len() > 0 {
        let m1 = BuilderModel {
            loader_tree_code: m.loader_tree_code + crate::builder::items_header(cat),
            ..m
        };
        lemma_items_loop_pages(m1, page, cat, items);
    }
}

proof fn lemma_write_metadata_pages(
    m: BuilderModel,
    page: Seq<char>,
    meta: MetadataModel,
    global: Option<GlobalMetadataModel>,
)
    ensures
        write_metadata_m(m, page, meta, global) is Ok ==> write_metadata_m(
            m,
            page,
            meta,
            global,
        )->Ok_0.pages == m.pages,
{
    if !metadata_is_empty_spec(meta) {
        let page1 = match meta.base_page {
            Option::Some(b) => b,
            Option::None => page,
        };
        let m1 = BuilderModel { loader_tree_code: m.loader_tree_code + "  metadata: {"@, ..m };
        let icon = crate::builder::favicon_lead(global) + meta.icon;
        lemma_write_items_pages(m1, page1, MetadataCategory::Icon, icon);
        let r2 = write_items_m(m1, page1, MetadataCategory::Icon, icon);
        if r2 is Ok {
            let m2 = r2->Ok_0;
            lemma_write_items_pages(m2, page1, MetadataCategory::Apple, meta.apple);
            let r3 = write_items_m(m2, page1, MetadataCategory::Apple, meta.apple);
            if r3 is Ok {
                let m3 = r3->Ok_0;
                lemma_write_items_pages(m3, page1, MetadataCategory::Twitter, meta.twitter);
                let r4 = write_items_m(m3, page1, MetadataCategory::Twitter, meta.twitter);
                if r4 is Ok {
                    let m4 = r4->Ok_0;
                    lemma_write_items_pages(
                        m4,
                        page1,
                        MetadataCategory::OpenGraph,
                        meta.open_graph,
                    );
                }
            }
        }
    }
}

/// Every page slot anywhere in a subtree contributes exactly one entry to
/// the collected pages list, in traversal order: the segment's own page
/// first, then those of its children in insertion order.
pub proof fn lemma_walk_pages(m: BuilderModel, t: TreeModel, g: GlobalMetadataModel, root: bool)
    ensures
        walk_tree_m(m, t, g, root) is Ok ==> walk_tree_m(m, t, g, root)->Ok_0.pages == m.pages
            + tree_pages(t),
    decreases t,
{
    let m1 = BuilderModel { loader_tree_code: m.loader_tree_code + segment_open(t.segment), ..m };
    let me = BuilderModel { loader_tree_code: Seq::empty(), ..m1 };
    let rc = write_components_m(me, t.components);
    lemma_components_pages(me, t.components);
    if rc is Ok {
        let mc = rc->Ok_0;
        let m2 = BuilderModel { loader_tree_code: m1.loader_tree_code, ..mc };
        lemma_children_pages(m2, t.parallel_routes, g);
        let r3 = children_loop_m(m2, t.parallel_routes, g);
        if r3 is Ok {
            let m3 = r3->Ok_0;
            let m4 = BuilderModel {
                loader_tree_code: m3.loader_tree_code + "}, {\n"@ + mc.loader_tree_code,
                ..m3
            };
            let gopt = if root {
                Option::Some(g)
            } else {
                Option::<GlobalMetadataModel>::None
            };
            lemma_write_metadata_pages(m4, t.page, t.components.metadata, gopt);
            let r5 = write_metadata_m(m4, t.page, t.components.metadata, gopt);
            if r5 is Ok {
                assert((m.pages + opt_to_seq(t.components.page)) + children_pages(
                    t.parallel_routes,
                ) =~= m.pages + tree_pages(t));
            }
        }
    }
}

/// The pages of a run of children, in insertion order.
pub proof fn lemma_children_pages(
    m: BuilderModel,
    children: Seq<(Seq<char>, TreeModel)>,
    g: GlobalMetadataModel,
)
    ensures
        children_loop_m(m, children, g) is Ok ==> children_loop_m(m, children, g)->Ok_0.pages
            == m.pages + children_pages(children),
    decreases children,
{
    if children.len() == 0 {
        assert(m.pages + children_pages(children) =~= m.pages);
    } else {
        let m1 = BuilderModel {
            loader_tree_code: m.loader_tree_code + crate::escape::js_string_spec(children[0].0)
                + ": "@,
            ..m
        };
        lemma_walk_pages(m1, children[0].1, g, false);
        let r = walk_tree_m(m1, children[0].1, g, false);
        if r is Ok {
            let m2 = r->Ok_0;
            let m2b = BuilderModel { loader_tree_code: m2.loader_tree_code + ",\n"@, ..m2 };
            lemma_children_pages(m2b, children.drop_first(), g);
            if children_loop_m(m2b, children.drop_first(), g) is Ok {
                assert((m.pages + tree_pages(children[0].1)) + children_pages(
                    children.drop_first(),
                ) =~= m.pages + children_pages(children));
            }
        }
    }
}

/// A successful compilation collects exactly the page slots of the tree,
/// root's before its descendants', children in insertion order.
pub proof fn lemma_pages_complete(
    env: crate::env::EnvModel,
    base_path: Option<Seq<char>>,
    t: TreeModel,
    g: GlobalMetadataModel,
)
    ensures
        compile_m(env, base_path, t, g) is Ok ==> module_of_builder(
            compile_m(env, base_path, t, g)->Ok_0,
        ).pages == tree_pages(t),
{
    let m0 = crate::builder::init_model(env, base_path);
    let m1 = match t.components.global_error {
        Option::Some(ge) => BuilderModel {
            inner_assets: m0.inner_assets.push(
                ("GLOBAL_ERROR_MODULE"@, crate::source::SourceModel::Component { path: ge }),
            ),
            ..m0
        },
        Option::None => m0,
    };
    lemma_walk_pages(m1, t, g, true);
    if walk_tree_m(m1, t, g, true) is Ok {
        assert(m1.pages + tree_pages(t) =~= tree_pages(t));
    }
}

// -------------------------------------------------------------------------
// Category field shape.
/// The size fields of a static item come in two shapes that can never
/// coincide: numeric `width`/`height` fields for the twitter and openGraph
/// categories, and one combined `sizes` string for every other category.
pub proof fn lemma_category_field_shape(
    c1: MetadataCategory,
    c2: MetadataCategory,
    ident: Seq<char>,
)
    requires
        numeric_sizes(c1),
        !numeric_sizes(c2),
    ensures
        static_size_fields(c1, ident) != static_size_fields(c2, ident),
{
    reveal_strlit("        width: ");
    reveal_strlit(".width,\n");
    reveal_strlit("        height: ");
    reveal_strlit(".height,\n");
    reveal_strlit("        sizes: `${");
    reveal_strlit(".width}x${");
    reveal_strlit(".height}`,\n");
    assert(static_size_fields(c1, ident).len() == 48 + 2 * ident.len());
    assert(static_size_fields(c2, ident).len() == 39 + 2 * ident.len());
}

// -------------------------------------------------------------------------
// Empty-category omission.
/// An empty category list emits nothing at all: no key, no empty array.
pub proof fn lemma_empty_category_omitted(m: BuilderModel, page: Seq<char>, cat: MetadataCategory)
    ensures
        write_items_m(m, page, cat, Seq::empty()) == Result::<BuilderModel, ErrorModel>::Ok(m),
{
}

/// An entirely empty metadata record emits no `metadata` object at all,
/// even at the root and even when global metadata is present.
pub proof fn lemma_empty_metadata_omitted(
    m: BuilderModel,
    page: Seq<char>,
    meta: MetadataModel,
    global: Option<GlobalMetadataModel>,
)
    requires
        metadata_is_empty_spec(meta),
    ensures
        write_metadata_m(m, page, meta, global) == Result::<BuilderModel, ErrorModel>::Ok(m),
{
}


// -------------------------------------------------------------------------
// Manifest key uniqueness.
/// A counter-generated manifest name whose allocation number lies below
/// `bound`.
pub open spec fn is_slot_key(s: Seq<char>, bound: nat) -> bool {
    exists|i: nat|
        i < bound && (s == component_key(i) || s == metadata_key(i) || s == metadata_alt_key(i))
}

/// No two manifest entries share a name, and every name is either the
/// reserved global-error name or was drawn below the allocation counter.
pub open spec fn keys_wf(m: BuilderModel) -> bool {
    &&& forall|k1: int, k2: int|
        0 <= k1 < k2 < m.inner_assets.len() ==> (#[trigger] m.inner_assets[k1]).0 != (
        #[trigger] m.inner_assets[k2]).0
    &&& forall|k: int|
        0 <= k < m.inner_assets.len() ==> (#[trigger] m.inner_assets[k]).0
            == "GLOBAL_ERROR_MODULE"@ || is_slot_key(m.inner_assets[k].0, m.counter)
}

proof fn lemma_key_prefix_chars()
    ensures
        "COMPONENT_"@.len() == 10,
        "COMPONENT_"@[0] == 'C',
        "METADATA_"@.len() == 9,
        "METADATA_"@[0] == 'M',
        "METADATA_ALT_"@.len() == 13,
        "METADATA_ALT_"@[0] == 'M',
        "METADATA_ALT_"@[9] == 'A',
        "GLOBAL_ERROR_MODULE"@.len() == 19,
        "GLOBAL_ERROR_MODULE"@[0] == 'G',
{
    reveal_strlit("COMPONENT_");
    reveal_strlit("METADATA_");
    reveal_strlit("METADATA_ALT_");
    reveal_strlit("GLOBAL_ERROR_MODULE");
}

/// Any two distinct allocation numbers, and any two distinct prefixes,
/// give distinct manifest names; none collides with the reserved one.
proof fn lemma_slot_keys_distinct(i: nat, j: nat)
    ensures
        i != j ==> component_key(i) != component_key(j),
        i != j ==> metadata_key(i) != metadata_key(j),
        i != j ==> metadata_alt_key(i) != metadata_alt_key(j),
        component_key(i) != metadata_key(j),
        component_key(i) != metadata_alt_key(j),
        metadata_key(i) != metadata_alt_key(j),
        component_key(i) != "GLOBAL_ERROR_MODULE"@,
        metadata_key(i) != "GLOBAL_ERROR_MODULE"@,
        metadata_alt_key(i) != "GLOBAL_ERROR_MODULE"@,
{
    lemma_key_prefix_chars();
    crate::strings::lemma_dec_spec_digits(i);
    crate::strings::lemma_dec_spec_digits(j);
    if i != j && component_key(i) == component_key(j) {
        assert(("COMPONENT_"@ + dec_spec(i)).len() == "COMPONENT_"@.len() + dec_spec(i).len());
        assert(("COMPONENT_"@ + dec_spec(j)).len() == "COMPONENT_"@.len() + dec_spec(j).len());
        assert(dec_spec(i).len() == dec_spec(j).len());
        crate::strings::lemma_append_cancel("COMPONENT_"@, dec_spec(i), "COMPONENT_"@, dec_spec(j));
        crate::strings::lemma_dec_spec_injective(i, j);
    }
    if i != j && metadata_key(i) == metadata_key(j) {
        assert(("METADATA_"@ + dec_spec(i)).len() == "METADATA_"@.len() + dec_spec(i).len());
        assert(("METADATA_"@ + dec_spec(j)).len() == "METADATA_"@.len() + dec_spec(j).len());
        assert(dec_spec(i).len() == dec_spec(j).len());
        crate::strings::lemma_append_cancel("METADATA_"@, dec_spec(i), "METADATA_"@, dec_spec(j));
        crate::strings::lemma_dec_spec_injective(i, j);
    }
    if i != j && metadata_alt_key(i) == metadata_alt_key(j) {
        assert(("METADATA_ALT_"@ + dec_spec(i)).len() == "METADATA_ALT_"@.len() + dec_spec(i).len());
        assert(("METADATA_ALT_"@ + dec_spec(j)).len() == "METADATA_ALT_"@.len() + dec_spec(j).len());
        assert(dec_spec(i).len() == dec_spec(j).len());
        crate::strings::lemma_append_cancel(
            "METADATA_ALT_"@,
            dec_spec(i),
            "METADATA_ALT_"@,
            dec_spec(j),
        );
        crate::strings::lemma_dec_spec_injective(i, j);
    }
    assert(component_key(i)[0] == 'C');
    assert(metadata_key(j)[0] == 'M');
    assert(metadata_alt_key(j)[0] == 'M');
    assert(metadata_key(i)[9] == dec_spec(i)[0]);
    assert(metadata_alt_key(j)[9] == 'A');
    assert(crate::strings::is_digit_char(dec_spec(i)[0]));
    if metadata_key(i) == metadata_alt_key(j) {
        assert(false);
    }
}

/// A name already classified below `bound` cannot collide with a name
/// freshly drawn at `i >= bound`.
proof fn lemma_fresh_vs_classified(s: Seq<char>, bound: nat, i: nat)
    requires
        s == "GLOBAL_ERROR_MODULE"@ || is_slot_key(s, bound),
        bound <= i,
    ensures
        s != component_key(i),
        s != metadata_key(i),
        s != metadata_alt_key(i),
{
    if s == "GLOBAL_ERROR_MODULE"@ {
        lemma_slot_keys_distinct(i, i);
    } else {
        let i0 = choose|i0: nat|
            i0 < bound && (s == component_key(i0) || s == metadata_key(i0) || s
                == metadata_alt_key(i0));
        lemma_slot_keys_distinct(i0, i);
        lemma_slot_keys_distinct(i, i0);
    }
}

/// Classification only widens as the counter grows.
proof fn lemma_classified_monotone(s: Seq<char>, b1: nat, b2: nat)
    requires
        is_slot_key(s, b1),
        b1 <= b2,
    ensures
        is_slot_key(s, b2),
{
    let i0 = choose|i0: nat|
        i0 < b1 && (s == component_key(i0) || s == metadata_key(i0) || s == metadata_alt_key(i0));
    assert(i0 < b2 && (s == component_key(i0) || s == metadata_key(i0) || s == metadata_alt_key(
        i0,
    )));
}


proof fn lemma_keys_component(m: BuilderModel, ty: ComponentType, comp: Option<Seq<char>>)
    requires
        keys_wf(m),
    ensures
        write_component_m(m, ty, comp) is Ok ==> keys_wf(write_component_m(m, ty, comp)->Ok_0),
{
    let r = write_component_m(m, ty, comp);
    if r is Ok && comp is Some {
        let m2 = r->Ok_0;
        let a2 = m2.inner_assets;
        assert(a2 == m.inner_assets.push((component_key(m.counter), SourceModel::Component {
            path: comp->0,
        })));
        assert forall|k1: int, k2: int| 0 <= k1 < k2 < a2.len() implies (#[trigger] a2[k1]).0 != (
        #[trigger] a2[k2]).0 by {
            if k2 == a2.len() - 1 {
                assert(a2[k1] == m.inner_assets[k1]);
                lemma_fresh_vs_classified(a2[k1].0, m.counter, m.counter);
            } else {
                assert(a2[k1] == m.inner_assets[k1]);
                assert(a2[k2] == m.inner_assets[k2]);
            }
        }
        assert forall|k: int| 0 <= k < a2.len() implies (#[trigger] a2[k]).0
            == "GLOBAL_ERROR_MODULE"@ || is_slot_key(a2[k].0, m2.counter) by {
            if k < a2.len() - 1 {
                assert(a2[k] == m.inner_assets[k]);
                if a2[k].0 != "GLOBAL_ERROR_MODULE"@ {
                    lemma_classified_monotone(a2[k].0, m.counter, m2.counter);
                }
            } else {
                assert(m.counter < m2.counter && a2[k].0 == component_key(m.counter));
                assert(is_slot_key(a2[k].0, m2.counter));
            }
        }
    }
}

proof fn lemma_keys_item(
    m: BuilderModel,
    page: Seq<char>,
    cat: MetadataCategory,
    item: AltItemModel,
)
    requires
        keys_wf(m),
    ensures
        write_item_m(m, page, cat, item) is Ok ==> keys_wf(write_item_m(m, page, cat, item)->Ok_0),
{
    let r = write_item_m(m, page, cat, item);
    if r is Ok {
        let m2 = r->Ok_0;
        let a2 = m2.inner_assets;
        match item {
            AltItemModel::Dynamic { path } => {
                assert(a2 == m.inner_assets.push(
                    (metadata_key(m.counter), SourceModel::MetadataSource {
                        path,
                        category: cat,
                        page,
                    }),
                ));
                assert forall|k1: int, k2: int| 0 <= k1 < k2 < a2.len() implies (
                #[trigger] a2[k1]).0 != (#[trigger] a2[k2]).0 by {
                    if k2 == a2.len() - 1 {
                        assert(a2[k1] == m.inner_assets[k1]);
                        lemma_fresh_vs_classified(a2[k1].0, m.counter, m.counter);
                    } else {
                        assert(a2[k1] == m.inner_assets[k1]);
                        assert(a2[k2] == m.inner_assets[k2]);
                    }
                }
                assert forall|k: int| 0 <= k < a2.len() implies (#[trigger] a2[k]).0
                    == "GLOBAL_ERROR_MODULE"@ || is_slot_key(a2[k].0, m2.counter) by {
                    if k < a2.len() - 1 {
                        assert(a2[k] == m.inner_assets[k]);
                        if a2[k].0 != "GLOBAL_ERROR_MODULE"@ {
                            lemma_classified_monotone(a2[k].0, m.counter, m2.counter);
                        }
                    } else {
                        assert(m.counter < m2.counter && a2[k].0 == metadata_key(m.counter));
                        assert(is_slot_key(a2[k].0, m2.counter));
                    }
                }
            },
            AltItemModel::Static { path, alt_path } => {
                let a1 = m.inner_assets.push(
                    (metadata_key(m.counter), SourceModel::StructuredImage { path }),
                );
                match alt_path {
                    Option::None => {
                        assert(a2 == a1);
                    },
                    Option::Some(alt) => {
                        assert(a2 == a1.push(
                            (metadata_alt_key(m.counter), SourceModel::TextContent { path: alt }),
                        ));
                    },
                }
                assert forall|k1: int, k2: int| 0 <= k1 < k2 < a2.len() implies (
                #[trigger] a2[k1]).0 != (#[trigger] a2[k2]).0 by {
                    lemma_slot_keys_distinct(m.counter, m.counter);
                    if k1 < m.inner_assets.len() {
                        assert(a2[k1] == m.inner_assets[k1]);
                        lemma_fresh_vs_classified(a2[k1].0, m.counter, m.counter);
                        if k2 < m.inner_assets.len() {
                            assert(a2[k2] == m.inner_assets[k2]);
                        }
                    }
                }
                assert forall|k: int| 0 <= k < a2.len() implies (#[trigger] a2[k]).0
                    == "GLOBAL_ERROR_MODULE"@ || is_slot_key(a2[k].0, m2.counter) by {
                    if k < m.inner_assets.len() {
                        assert(a2[k] == m.inner_assets[k]);
                        if a2[k].0 != "GLOBAL_ERROR_MODULE"@ {
                            lemma_classified_monotone(a2[k].0, m.counter, m2.counter);
                        }
                    } else {
                        assert(m.counter < m2.counter && (a2[k].0 == metadata_key(m.counter)
                            || a2[k].0 == metadata_alt_key(m.counter)));
                        assert(is_slot_key(a2[k].0, m2.counter));
                    }
                }
            },
        }
    }
}

proof fn lemma_keys_items_loop(
    m: BuilderModel,
    page: Seq<char>,
    cat: MetadataCategory,
    items: Seq<AltItemModel>,
)
    requires
        keys_wf(m),
    ensures
        items_loop_m(m, page, cat, items) is Ok ==> keys_wf(
            items_loop_m(m, page, cat, items)->Ok_0,
        ),
    decreases items.len(),
{
    if items.len() > 0 {
        let r0 = write_item_m(m, page, cat, items[0]);
        lemma_keys_item(m, page, cat, items[0]);
        if r0 is Ok {
            lemma_keys_items_loop(r0->Ok_0, page, cat, items.drop_first());
        }
    }
}

proof fn lemma_keys_items(
    m: BuilderModel,
    page: Seq<char>,
    cat: MetadataCategory,
    items: Seq<AltItemModel>,
)
    requires
        keys_wf(m),
    ensures
        write_items_m(m, page, cat, items) is Ok ==> keys_wf(
            write_items_m(m, page, cat, items)->Ok_0,
        ),
{
    if items.len() > 0 {
        let m1 = BuilderModel {
            loader_tree_code: m.loader_tree_code + crate::builder::items_header(cat),
            ..m
        };
        lemma_keys_items_loop(m1, page, cat, items);
    }
}

proof fn lemma_keys_metadata(
    m: BuilderModel,
    page: Seq<char>,
    meta: MetadataModel,
    global: Option<GlobalMetadataModel>,
)
    requires
        keys_wf(m),
    ensures
        write_metadata_m(m, page, meta, global) is Ok ==> keys_wf(
            write_metadata_m(m, page, meta, global)->Ok_0,
        ),
{
    if !metadata_is_empty_spec(meta) {
        let page1 = match meta.base_page {
            Option::Some(b) => b,
            Option::None => page,
        };
        let m1 = BuilderModel { loader_tree_code: m.loader_tree_code + "  metadata: {"@, ..m };
        let icon = crate::builder::favicon_lead(global) + meta.icon;
        lemma_keys_items(m1, page1, MetadataCategory::Icon, icon);
        let r2 = write_items_m(m1, page1, MetadataCategory::Icon, icon);
        if r2 is Ok {
            lemma_keys_items(r2->Ok_0, page1, MetadataCategory::Apple, meta.apple);
            let r3 = write_items_m(r2->Ok_0, page1, MetadataCategory::Apple, meta.apple);
            if r3 is Ok {
                lemma_keys_items(r3->Ok_0, page1, MetadataCategory::Twitter, meta.twitter);
                let r4 = write_items_m(r3->Ok_0, page1, MetadataCategory::Twitter, meta.twitter);
                if r4 is Ok {
                    lemma_keys_items(
                        r4->Ok_0,
                        page1,
                        MetadataCategory::OpenGraph,
                        meta.open_graph,
                    );
                }
            }
        }
    }
}

proof fn lemma_keys_components(m: BuilderModel, c: crate::tree::ComponentsModel)
    requires
        keys_wf(m),
    ensures
        write_components_m(m, c) is Ok ==> keys_wf(write_components_m(m, c)->Ok_0),
{
    let r = write_components_m(m, c);
    if r is Ok {
        lemma_keys_component(m, ComponentType::Layout, c.layout);
        let m1 = write_component_m(m, ComponentType::Layout, c.layout)->Ok_0;
        lemma_keys_component(m1, ComponentType::Page, c.page);
        let m2 = write_component_m(m1, ComponentType::Page, c.page)->Ok_0;
        lemma_keys_component(m2, ComponentType::DefaultPage, c.default);
        let m3 = write_component_m(m2, ComponentType::DefaultPage, c.default)->Ok_0;
        lemma_keys_component(m3, ComponentType::Error, c.error);
        let m4 = write_component_m(m3, ComponentType::Error, c.error)->Ok_0;
        lemma_keys_component(m4, ComponentType::Loading, c.loading);
        let m5 = write_component_m(m4, ComponentType::Loading, c.loading)->Ok_0;
        lemma_keys_component(m5, ComponentType::Template, c.template);
        let m6 = write_component_m(m5, ComponentType::Template, c.template)->Ok_0;
        lemma_keys_component(m6, ComponentType::NotFound, c.not_found);
    }
}

/// The walk keeps the manifest names pairwise distinct.
pub proof fn lemma_keys_walk(m: BuilderModel, t: TreeModel, g: GlobalMetadataModel, root: bool)
    requires
        keys_wf(m),
    ensures
        walk_tree_m(m, t, g, root) is Ok ==> keys_wf(walk_tree_m(m, t, g, root)->Ok_0),
    decreases t,
{
    let m1 = BuilderModel { loader_tree_code: m.loader_tree_code + segment_open(t.segment), ..m };
    let me = BuilderModel { loader_tree_code: Seq::empty(), ..m1 };
    let rc = write_components_m(me, t.components);
    lemma_keys_components(me, t.components);
    if rc is Ok {
        let mc = rc->Ok_0;
        let m2 = BuilderModel { loader_tree_code: m1.loader_tree_code, ..mc };
        lemma_keys_children(m2, t.parallel_routes, g);
        let r3 = children_loop_m(m2, t.parallel_routes, g);
        if r3 is Ok {
            let m3 = r3->Ok_0;
            let m4 = BuilderModel {
                loader_tree_code: m3.loader_tree_code + "}, {\n"@ + mc.loader_tree_code,
                ..m3
            };
            let gopt = if root {
                Option::Some(g)
            } else {
                Option::<GlobalMetadataModel>::None
            };
            lemma_keys_metadata(m4, t.page, t.components.metadata, gopt);
        }
    }
}

proof fn lemma_keys_children(
    m: BuilderModel,
    children: Seq<(Seq<char>, TreeModel)>,
    g: GlobalMetadataModel,
)
    requires
        keys_wf(m),
    ensures
        children_loop_m(m, children, g) is Ok ==> keys_wf(children_loop_m(m, children, g)->Ok_0),
    decreases children,
{
    if children.len() > 0 {
        let m1 = BuilderModel {
            loader_tree_code: m.loader_tree_code + crate::escape::js_string_spec(children[0].0)
                + ": "@,
            ..m
        };
        lemma_keys_walk(m1, children[0].1, g, false);
        let r = walk_tree_m(m1, children[0].1, g, false);
        if r is Ok {
            let m2 = r->Ok_0;
            lemma_keys_children(
                BuilderModel { loader_tree_code: m2.loader_tree_code + ",\n"@, ..m2 },
                children.drop_first(),
                g,
            );
        }
    }
}

/// Every emitted reference resolves to exactly one manifest entry: the
/// names of a successful compilation's manifest are pairwise distinct.
pub proof fn lemma_manifest_keys_unique(
    env: crate::env::EnvModel,
    base_path: Option<Seq<char>>,
    t: TreeModel,
    g: GlobalMetadataModel,
)
    ensures
        compile_m(env, base_path, t, g) is Ok ==> {
            let assets = module_of_builder(compile_m(env, base_path, t, g)->Ok_0).inner_assets;
            forall|k1: int, k2: int|
                0 <= k1 < k2 < assets.len() ==> (#[trigger] assets[k1]).0 != (
                #[trigger] assets[k2]).0
        },
{
    let m0 = crate::builder::init_model(env, base_path);
    let m1 = match t.components.global_error {
        Option::Some(ge) => BuilderModel {
            inner_assets: m0.inner_assets.push(
                ("GLOBAL_ERROR_MODULE"@, crate::source::SourceModel::Component { path: ge }),
            ),
            ..m0
        },
        Option::None => m0,
    };
    assert(keys_wf(m1));
    lemma_keys_walk(m1, t, g, true);
}

} // verus!
