//! The input to the compiler: a tree of routing segments, each with a record
//! of component slots and metadata declarations, plus the tree-wide global
//! metadata; and the ghost models that the contracts speak of.

use vstd::prelude::*;

verus! {

/// The seven component slots a segment can carry.
#[derive(Clone, Copy, Debug, PartialEq, Eq, Structural)]
pub enum ComponentType {
    Page,
    DefaultPage,
    Error,
    Layout,
    Loading,
    Template,
    NotFound,
}

/// The slot key under which each component type is emitted.
pub open spec fn component_name_spec(ty: ComponentType) -> Seq<char> {
    match ty {
        ComponentType::Page => "page"@,
        ComponentType::DefaultPage => "defaultPage"@,
        ComponentType::Error => "error"@,
        ComponentType::Layout => "layout"@,
        ComponentType::Loading => "loading"@,
        ComponentType::Template => "template"@,
        ComponentType::NotFound => "not-found"@,
    }
}

impl ComponentType {
    pub fn name(&self) -> (r: &'static str)
        ensures
            r@ == component_name_spec(*self),
    {
        match self {
            ComponentType::Page => "page",
            ComponentType::DefaultPage => "defaultPage",
            ComponentType::Error => "error",
            ComponentType::Layout => "layout",
            ComponentType::Loading => "loading",
            ComponentType::Template => "template",
            ComponentType::NotFound => "not-found",
        }
    }
}

/// The four metadata categories that are emitted as arrays.
#[derive(Clone, Copy, Debug, PartialEq, Eq, Structural)]
pub enum MetadataCategory {
    Icon,
    Apple,
    Twitter,
    OpenGraph,
}

/// The key under which each metadata category is emitted.
pub open spec fn category_name_spec(cat: MetadataCategory) -> Seq<char> {
    match cat {
        MetadataCategory::Icon => "icon"@,
        MetadataCategory::Apple => "apple"@,
        MetadataCategory::Twitter => "twitter"@,
        MetadataCategory::OpenGraph => "openGraph"@,
    }
}

/// Whether a category's static items carry numeric `width`/`height` fields
/// rather than a combined `sizes` string. Fixed policy, not configurable.
pub open spec fn numeric_sizes(cat: MetadataCategory) -> bool {
    match cat {
        MetadataCategory::Twitter => true,
        MetadataCategory::OpenGraph => true,
        _ => false,
    }
}

impl MetadataCategory {
    pub fn name(&self) -> (r: &'static str)
        ensures
            r@ == category_name_spec(*self),
    {
        match self {
            MetadataCategory::Icon => "icon",
            MetadataCategory::Apple => "apple",
            MetadataCategory::Twitter => "twitter",
            MetadataCategory::OpenGraph => "openGraph",
        }
    }
}

/// A metadata declaration: a concrete file, or a file that computes its
/// metadata at resolution time.
#[derive(Debug, Clone)]
pub enum MetadataItem {
    Static { path: String },
    Dynamic { path: String },
}

/// A metadata declaration as it occurs in a category list, where a static
/// item may carry a companion alt-text file.
#[derive(Debug, Clone)]
pub enum MetadataWithAltItem {
    Static { path: String, alt_path: Option<String> },
    Dynamic { path: String },
}

/// The metadata declarations of one segment. Sitemap entries are carried but
/// intentionally excluded from code emission.
#[derive(Debug, Clone)]
pub struct Metadata {
    pub icon: Vec<MetadataWithAltItem>,
    pub apple: Vec<MetadataWithAltItem>,
    pub twitter: Vec<MetadataWithAltItem>,
    pub open_graph: Vec<MetadataWithAltItem>,
    pub sitemap: Option<MetadataItem>,
    pub base_page: Option<String>,
}

/// Tree-wide metadata, merged into the emitted object only at the root.
#[derive(Debug, Clone)]
pub struct GlobalMetadata {
    pub favicon: Option<MetadataItem>,
    pub manifest: Option<MetadataItem>,
}

/// The component slots of one segment: each is either absent or one file
/// location.
#[derive(Debug, Clone)]
pub struct Components {
    pub page: Option<String>,
    pub default: Option<String>,
    pub error: Option<String>,
    pub global_error: Option<String>,
    pub layout: Option<String>,
    pub loading: Option<String>,
    pub template: Option<String>,
    pub not_found: Option<String>,
    pub metadata: Metadata,
    pub route: Option<String>,
}

/// A node of the route tree: a segment label, the logical page path the
/// segment belongs to, the named parallel child trees in insertion order,
/// and the segment's components.
#[derive(Debug)]
pub struct LoaderTree {
    pub page: String,
    pub segment: String,
    pub parallel_routes: Vec<(String, LoaderTree)>,
    pub components: Components,
}

// -------------------------------------------------------------------------
// Ghost models.
#[verifier::ext_equal]
pub enum ItemModel {
    Static { path: Seq<char> },
    Dynamic { path: Seq<char> },
}

#[verifier::ext_equal]
pub enum AltItemModel {
    Static { path: Seq<char>, alt_path: Option<Seq<char>> },
    Dynamic { path: Seq<char> },
}

#[verifier::ext_equal]
pub struct MetadataModel {
    pub icon: Seq<AltItemModel>,
    pub apple: Seq<AltItemModel>,
    pub twitter: Seq<AltItemModel>,
    pub open_graph: Seq<AltItemModel>,
    pub sitemap: Option<ItemModel>,
    pub base_page: Option<Seq<char>>,
}

#[verifier::ext_equal]
pub struct GlobalMetadataModel {
    pub favicon: Option<ItemModel>,
    pub manifest: Option<ItemModel>,
}

#[verifier::ext_equal]
pub struct ComponentsModel {
    pub page: Option<Seq<char>>,
    pub default: Option<Seq<char>>,
    pub error: Option<Seq<char>>,
    pub global_error: Option<Seq<char>>,
    pub layout: Option<Seq<char>>,
    pub loading: Option<Seq<char>>,
    pub template: Option<Seq<char>>,
    pub not_found: Option<Seq<char>>,
    pub metadata: MetadataModel,
    pub route: Option<Seq<char>>,
}

#[verifier::ext_equal]
pub struct TreeModel {
    pub page: Seq<char>,
    pub segment: Seq<char>,
    pub parallel_routes: Seq<(Seq<char>, TreeModel)>,
    pub components: ComponentsModel,
}

pub open spec fn opt_view(o: Option<String>) -> Option<Seq<char>> {
    match o {
        Option::Some(s) => Option::Some(s@),
        Option::None => Option::None,
    }
}

pub open spec fn item_view(i: MetadataItem) -> ItemModel {
    match i {
        MetadataItem::Static { path } => ItemModel::Static { path: path@ },
        MetadataItem::Dynamic { path } => ItemModel::Dynamic { path: path@ },
    }
}

pub open spec fn opt_item_view(o: Option<MetadataItem>) -> Option<ItemModel> {
    match o {
        Option::Some(i) => Option::Some(item_view(i)),
        Option::None => Option::None,
    }
}

pub open spec fn alt_item_view(i: MetadataWithAltItem) -> AltItemModel {
    match i {
        MetadataWithAltItem::Static { path, alt_path } => AltItemModel::Static {
            path: path@,
            alt_path: opt_view(alt_path),
        },
        MetadataWithAltItem::Dynamic { path } => AltItemModel::Dynamic { path: path@ },
    }
}

pub open spec fn items_view(v: Seq<MetadataWithAltItem>) -> Seq<AltItemModel> {
    v.map_values(|i: MetadataWithAltItem| alt_item_view(i))
}

pub open spec fn metadata_view(m: Metadata) -> MetadataModel {
    MetadataModel {
        icon: items_view(m.icon@),
        apple: items_view(m.apple@),
        twitter: items_view(m.twitter@),
        open_graph: items_view(m.open_graph@),
        sitemap: opt_item_view(m.sitemap),
        base_page: opt_view(m.base_page),
    }
}

pub open spec fn global_metadata_view(g: GlobalMetadata) -> GlobalMetadataModel {
    GlobalMetadataModel {
        favicon: opt_item_view(g.favicon),
        manifest: opt_item_view(g.manifest),
    }
}

pub open spec fn components_view(c: Components) -> ComponentsModel {
    ComponentsModel {
        page: opt_view(c.page),
        default: opt_view(c.default),
        error: opt_view(c.error),
        global_error: opt_view(c.global_error),
        layout: opt_view(c.layout),
        loading: opt_view(c.loading),
        template: opt_view(c.template),
        not_found: opt_view(c.not_found),
        metadata: metadata_view(c.metadata),
        route: opt_view(c.route),
    }
}

pub open spec fn tree_view(t: LoaderTree) -> TreeModel
    decreases t,
{
    TreeModel {
        page: t.page@,
        segment: t.segment@,
        parallel_routes: Seq::new(
            t.parallel_routes@.len(),
            |k: int|
                (
                    t.parallel_routes@[k].0@,
                    if 0 <= k < t.parallel_routes@.len() {
                        tree_view(t.parallel_routes@[k].1)
                    } else {
                        arbitrary()
                    }
                ),
        ),
        components: components_view(t.components),
    }
}

impl View for LoaderTree {
    type V = TreeModel;

    open spec fn view(&self) -> TreeModel {
        tree_view(*self)
    }
}

/// Whether a metadata record carries anything at all; an entirely empty
/// record is skipped by emission.
pub open spec fn metadata_is_empty_spec(m: MetadataModel) -> bool {
    m.icon.len() == 0 && m.apple.len() == 0 && m.twitter.len() == 0 && m.open_graph.len() == 0
        && m.sitemap is None
}

impl Metadata {
    pub fn is_empty(&self) -> (r: bool)
        ensures
            r == metadata_is_empty_spec(metadata_view(*self)),
    {
        self.icon.is_empty() && self.apple.is_empty() && self.twitter.is_empty()
            && self.open_graph.is_empty() && self.sitemap.is_none()
    }
}

} // verus!
