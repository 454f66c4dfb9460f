//! The route tree compiler: one depth-first walk over the input tree,
//! threading a single mutable state through every emission site. Each
//! executable step is proved equal to a ghost transition function, so the
//! whole compilation is pinned down, byte for byte, by the ghost model.

use vstd::prelude::*;
use crate::env::{lookup, lookup_spec, EnvModel, ResolutionEnv};
use crate::escape::{append_js_string, js_string_spec};
use crate::ident::{make_identifier, mangle_spec};
use crate::source::{CompileError, ErrorModel, ModuleSource, SourceModel};
use crate::strings::{append_decimal, append_str, dec_spec};
use crate::tree::{
    category_name_spec, components_view, tree_view, Components, ComponentsModel, LoaderTree,
    TreeModel, component_name_spec, metadata_is_empty_spec, numeric_sizes, AltItemModel,
    ComponentType, GlobalMetadata, GlobalMetadataModel, ItemModel, Metadata, MetadataCategory,
    MetadataItem, MetadataModel, MetadataWithAltItem,
};

verus! {

/// The ghost state of a compilation in progress.
#[verifier::ext_equal]
pub struct BuilderModel {
    pub inner_assets: Seq<(Seq<char>, SourceModel)>,
    pub counter: nat,
    pub imports: Seq<Seq<char>>,
    pub loader_tree_code: Seq<char>,
    pub pages: Seq<Seq<char>>,
    pub env: EnvModel,
    pub base_path: Option<Seq<char>>,
}

pub open spec fn strings_view(v: Seq<String>) -> Seq<Seq<char>> {
    v.map_values(|s: String| s@)
}

pub open spec fn assets_view(v: Seq<(String, ModuleSource)>) -> Seq<(Seq<char>, SourceModel)> {
    v.map_values(|p: (String, ModuleSource)| (p.0@, crate::source::source_view(p.1)))
}

/// The compiler's running state: the manifest being filled, the allocation
/// counter, the import list, the program text, the collected page files, and
/// the collaborator's answers the run was given.
pub struct LoaderTreeBuilder {
    pub inner_assets: Vec<(String, ModuleSource)>,
    pub counter: usize,
    pub imports: Vec<String>,
    pub loader_tree_code: String,
    pub pages: Vec<String>,
    pub env: ResolutionEnv,
    pub base_path: Option<String>,
}

pub open spec fn builder_view(b: LoaderTreeBuilder) -> BuilderModel {
    BuilderModel {
        inner_assets: assets_view(b.inner_assets@),
        counter: b.counter as nat,
        imports: strings_view(b.imports@),
        loader_tree_code: b.loader_tree_code@,
        pages: strings_view(b.pages@),
        env: crate::env::env_view(b.env),
        base_path: crate::tree::opt_view(b.base_path),
    }
}

impl View for LoaderTreeBuilder {
    type V = BuilderModel;

    open spec fn view(&self) -> BuilderModel {
        builder_view(*self)
    }
}

/// The empty state a compilation starts from.
pub open spec fn init_model(env: EnvModel, base_path: Option<Seq<char>>) -> BuilderModel {
    BuilderModel {
        inner_assets: Seq::empty(),
        counter: 0,
        imports: Seq::empty(),
        loader_tree_code: Seq::empty(),
        pages: Seq::empty(),
        env,
        base_path,
    }
}

/// How an executable step relates to its ghost transition: on success the
/// new state is exactly the transition's; on failure the error is exactly
/// the transition's, and no output is handed out.
pub open spec fn follows_model(
    model: Result<BuilderModel, ErrorModel>,
    r: Result<(), CompileError>,
    post: BuilderModel,
) -> bool {
    match r {
        Result::Ok(_) => model == Result::<BuilderModel, ErrorModel>::Ok(post),
        Result::Err(e) => model is Err && model->Err_0 == e@,
    }
}

// -------------------------------------------------------------------------
// Component slots.
/// The program fragment for one present component slot.
pub open spec fn component_line(ty: ComponentType, ident: Seq<char>, resolved: Seq<char>) -> Seq<
    char,
> {
    "  "@ + js_string_spec(component_name_spec(ty)) + ": [() => "@ + ident + ", "@
        + js_string_spec(resolved) + "],\n"@
}

/// The import statement binding a slot's identifier to its manifest entry.
pub open spec fn component_import(ident: Seq<char>, i: nat) -> Seq<char> {
    "import * as "@ + ident + " from \"COMPONENT_"@ + dec_spec(i) + "\";\n"@
}

/// The manifest name of a component slot's entry.
pub open spec fn component_key(i: nat) -> Seq<char> {
    "COMPONENT_"@ + dec_spec(i)
}

/// Ghost transition of [`LoaderTreeBuilder::write_component`].
pub open spec fn write_component_m(
    m: BuilderModel,
    ty: ComponentType,
    comp: Option<Seq<char>>,
) -> Result<BuilderModel, ErrorModel> {
    match comp {
        Option::None => Result::Ok(m),
        Option::Some(path) => {
            let pages1 = if ty == ComponentType::Page {
                m.pages.push(path)
            } else {
                m.pages
            };
            let i = m.counter;
            let ident = mangle_spec(component_name_spec(ty), i);
            match lookup_spec(m.env.module_paths, path) {
                Option::None => Result::Err(ErrorModel::MissingModulePath { path }),
                Option::Some(resolved) => Result::Ok(
                    BuilderModel {
                        inner_assets: m.inner_assets.push(
                            (component_key(i), SourceModel::Component { path }),
                        ),
                        counter: i + 1,
                        imports: m.imports.push(component_import(ident, i)),
                        loader_tree_code: m.loader_tree_code + component_line(ty, ident, resolved),
                        pages: pages1,
                        ..m
                    },
                ),
            }
        },
    }
}

impl LoaderTreeBuilder {
    /// A fresh state holding the collaborator's answers and the configured
    /// base path.
    pub fn new(env: ResolutionEnv, base_path: Option<String>) -> (r: LoaderTreeBuilder)
        ensures
            r@ == init_model(crate::env::env_view(env), crate::tree::opt_view(base_path)),
    {
        let r = LoaderTreeBuilder {
            inner_assets: Vec::new(),
            counter: 0,
            imports: Vec::new(),
            loader_tree_code: String::new(),
            pages: Vec::new(),
            env,
            base_path,
        };
        proof {
            assert(r@ =~~= init_model(crate::env::env_view(r.env), crate::tree::opt_view(
                r.base_path,
            )));
        }
        r
    }

    /// The next allocation number: monotonically increasing from zero and
    /// never reused within one compilation.
    pub fn unique_number(&mut self) -> (i: usize)
        requires
            old(self)@.counter < usize::MAX,
        ensures
            i as nat == old(self)@.counter,
            final(self)@ == (BuilderModel { counter: old(self)@.counter + 1, ..old(self)@ }),
    {
        let i = self.counter;
        self.counter = i + 1;
        proof {
            assert(self@ =~~= BuilderModel { counter: old(self)@.counter + 1, ..old(self)@ });
        }
        i
    }

    /// Emits one component slot, if present: registers the file under a
    /// fresh manifest name, binds a fresh identifier to it by an import,
    /// appends the slot's program fragment, and collects page files.
    pub fn write_component(&mut self, ty: ComponentType, component: &Option<String>) -> (r: Result<
        (),
        CompileError,
    >)
        requires
            old(self)@.counter < usize::MAX,
        ensures
            follows_model(
                write_component_m(old(self)@, ty, crate::tree::opt_view(*component)),
                r,
                final(self)@,
            ),
            final(self)@.env == old(self)@.env,
            final(self)@.base_path == old(self)@.base_path,
            final(self)@.counter <= old(self)@.counter + 1,
    {
        let path_ref = match component {
            Option::Some(c) => c,
            Option::None => {
                return Result::Ok(());
            },
        };
        if ty == ComponentType::Page {
            self.pages.push(path_ref.clone());
            proof {
                assert(strings_view(self.pages@) =~= old(self)@.pages.push(path_ref@));
            }
        }
        let name = ty.name();
        let i = self.unique_number();
        let identifier = make_identifier(name, i);
        let resolved = match lookup(&self.env.module_paths, path_ref) {
            Option::Some(p) => p,
            Option::None => {
                return Result::Err(CompileError::MissingModulePath { path: path_ref.clone() });
            },
        };
        append_str(&mut self.loader_tree_code, "  ");
        append_js_string(&mut self.loader_tree_code, name);
        append_str(&mut self.loader_tree_code, ": [() => ");
        append_str(&mut self.loader_tree_code, identifier.as_str());
        append_str(&mut self.loader_tree_code, ", ");
        append_js_string(&mut self.loader_tree_code, resolved.as_str());
        append_str(&mut self.loader_tree_code, "],\n");

        let mut import_line = String::new();
        append_str(&mut import_line, "import * as ");
        append_str(&mut import_line, identifier.as_str());
        append_str(&mut import_line, " from \"COMPONENT_");
        append_decimal(&mut import_line, i);
        append_str(&mut import_line, "\";\n");
        self.imports.push(import_line);

        let mut key = String::new();
        append_str(&mut key, "COMPONENT_");
        append_decimal(&mut key, i);
        self.inner_assets.push((key, ModuleSource::Component { path: path_ref.clone() }));

        proof {
            let m0 = old(self)@;
            let mm = write_component_m(m0, ty, crate::tree::opt_view(*component));
            let ident = mangle_spec(component_name_spec(ty), m0.counter);
            assert(self.loader_tree_code@ =~= m0.loader_tree_code + component_line(
                ty,
                ident,
                resolved@,
            ));
            assert(strings_view(self.imports@) =~= m0.imports.push(
                component_import(ident, m0.counter),
            ));
            assert(assets_view(self.inner_assets@) =~= m0.inner_assets.push(
                (component_key(m0.counter), SourceModel::Component { path: path_ref@ }),
            ));
            assert(mm is Ok);
            assert(mm->Ok_0 =~~= self@);
        }
        Result::Ok(())
    }
}


// -------------------------------------------------------------------------
// Metadata items.
/// The import statement binding a metadata item's identifier to its
/// manifest entry.
pub open spec fn metadata_import(ident: Seq<char>, i: nat) -> Seq<char> {
    "import "@ + ident + " from \"METADATA_"@ + dec_spec(i) + "\";"@
}

/// The manifest name of a metadata item's entry.
pub open spec fn metadata_key(i: nat) -> Seq<char> {
    "METADATA_"@ + dec_spec(i)
}

/// The import statement binding an alt-text identifier to its entry.
pub open spec fn metadata_alt_import(ident: Seq<char>, i: nat) -> Seq<char> {
    "import "@ + ident + " from \"METADATA_ALT_"@ + dec_spec(i) + "\";"@
}

/// The manifest name of an alt-text entry.
pub open spec fn metadata_alt_key(i: nat) -> Seq<char> {
    "METADATA_ALT_"@ + dec_spec(i)
}

/// The one shared helper import, deduplicated across all static items.
pub open spec fn helper_import() -> Seq<char> {
    "import { fillMetadataSegment } from \"next/dist/lib/metadata/get-metadata-route\""@
}

pub open spec fn seq_contains(v: Seq<Seq<char>>, x: Seq<char>) -> bool {
    exists|k: int| 0 <= k < v.len() && v[k] == x
}

/// The program fragment for a dynamic metadata item: a bare identifier.
pub open spec fn dynamic_item_line(ident: Seq<char>) -> Seq<char> {
    "      "@ + ident + ",\n"@
}

/// Ghost transition for one dynamic metadata item.
pub open spec fn write_dynamic_item_m(
    m: BuilderModel,
    page: Seq<char>,
    cat: MetadataCategory,
    path: Seq<char>,
) -> BuilderModel {
    let i = m.counter;
    let ident = mangle_spec(category_name_spec(cat), i);
    BuilderModel {
        inner_assets: m.inner_assets.push(
            (metadata_key(i), SourceModel::MetadataSource { path, category: cat, page }),
        ),
        counter: i + 1,
        imports: m.imports.push(metadata_import(ident, i)),
        loader_tree_code: m.loader_tree_code + dynamic_item_line(ident),
        ..m
    }
}

/// The url field of a static item's thunk: the route filled from the
/// request's params, plus a cache-busting fragment from the asset basename.
pub open spec fn static_url_line(prefix: Seq<char>, route: Seq<char>, ident: Seq<char>) -> Seq<
    char,
> {
    "        url: fillMetadataSegment("@ + js_string_spec(prefix) + ", props.params, "@
        + js_string_spec(route) + ") + `?${"@ + ident + ".src.split(\"/\").splice(-1)[0]}`,\n"@
}

/// The size fields of a static item's thunk: numeric `width`/`height` for
/// twitter and openGraph, one combined `sizes` string for all others.
pub open spec fn static_size_fields(cat: MetadataCategory, ident: Seq<char>) -> Seq<char> {
    if numeric_sizes(cat) {
        "        width: "@ + ident + ".width,\n"@ + "        height: "@ + ident + ".height,\n"@
    } else {
        "        sizes: `${"@ + ident + ".width}x${"@ + ident + ".height}`,\n"@
    }
}

pub open spec fn static_type_line(ctype: Seq<char>) -> Seq<char> {
    "        type: `"@ + ctype + "`,\n"@
}

pub open spec fn static_alt_line(ident: Seq<char>) -> Seq<char> {
    "        alt: "@ + ident + ",\n"@
}

/// The pathname prefix a static item's url is built from: the page itself,
/// behind the configured base path if there is one.
pub open spec fn pathname_prefix(base_path: Option<Seq<char>>, page: Seq<char>) -> Seq<char> {
    match base_path {
        Option::Some(b) => b + "/"@ + page,
        Option::None => page,
    }
}

/// Ghost transition for one static metadata item.
pub open spec fn write_static_item_m(
    m: BuilderModel,
    page: Seq<char>,
    cat: MetadataCategory,
    path: Seq<char>,
    alt: Option<Seq<char>>,
) -> Result<BuilderModel, ErrorModel> {
    let i = m.counter;
    let ident = mangle_spec(category_name_spec(cat), i);
    let imports1 = if seq_contains(m.imports, helper_import()) {
        m.imports
    } else {
        m.imports.push(helper_import())
    };
    let imports2 = imports1.push(metadata_import(ident, i));
    let assets1 = m.inner_assets.push((metadata_key(i), SourceModel::StructuredImage { path }));
    let prefix = pathname_prefix(m.base_path, page);
    match lookup_spec(m.env.route_names, path) {
        Option::None => Result::Err(ErrorModel::MissingRouteName { path }),
        Option::Some(route) => match lookup_spec(m.env.content_types, path) {
            Option::None => Result::Err(ErrorModel::MissingContentType { path }),
            Option::Some(ctype) => {
                let head = m.loader_tree_code + "      (async (props) => [{\n"@
                    + static_url_line(prefix, route, ident) + static_size_fields(cat, ident)
                    + static_type_line(ctype);
                match alt {
                    Option::None => Result::Ok(
                        BuilderModel {
                            inner_assets: assets1,
                            counter: i + 1,
                            imports: imports2,
                            loader_tree_code: head + "      }]),\n"@,
                            ..m
                        },
                    ),
                    Option::Some(alt_path) => {
                        let ident2 = mangle_spec(category_name_spec(cat) + " alt text"@, i);
                        Result::Ok(
                            BuilderModel {
                                inner_assets: assets1.push(
                                    (metadata_alt_key(i), SourceModel::TextContent {
                                        path: alt_path,
                                    }),
                                ),
                                counter: i + 1,
                                imports: imports2.push(metadata_alt_import(ident2, i)),
                                loader_tree_code: head + static_alt_line(ident2) + "      }]),\n"@,
                                ..m
                            },
                        )
                    },
                }
            },
        },
    }
}

/// Ghost transition for one metadata item of either kind.
pub open spec fn write_item_m(
    m: BuilderModel,
    page: Seq<char>,
    cat: MetadataCategory,
    item: AltItemModel,
) -> Result<BuilderModel, ErrorModel> {
    match item {
        AltItemModel::Static { path, alt_path } => write_static_item_m(m, page, cat, path, alt_path),
        AltItemModel::Dynamic { path } => Result::Ok(write_dynamic_item_m(m, page, cat, path)),
    }
}


/// Whether `needle` already occurs among the imports gathered so far.
fn contains_string(v: &Vec<String>, needle: &String) -> (r: bool)
    ensures
        r == seq_contains(strings_view(v@), needle@),
{
    let n = v.len();
    let mut k: usize = 0;
    while k < n
        invariant
            n == v@.len(),
            k <= n,
            forall|j: int| 0 <= j < k ==> strings_view(v@)[j] != needle@,
        decreases n - k,
    {
        if v[k].eq(needle) {
            proof {
                assert(strings_view(v@)[k as int] == needle@);
            }
            return true;
        }
        proof {
            assert(strings_view(v@)[k as int] == v@[k as int]@);
        }
        k = k + 1;
    }
    false
}


/// The import statement for a metadata item, as one string.
fn metadata_import_line(ident: &String, i: usize) -> (r: String)
    ensures
        r@ == metadata_import(ident@, i as nat),
{
    let mut line = String::new();
    append_str(&mut line, "import ");
    append_str(&mut line, ident.as_str());
    append_str(&mut line, " from \"METADATA_");
    append_decimal(&mut line, i);
    append_str(&mut line, "\";");
    proof {
        assert(line@ =~= metadata_import(ident@, i as nat));
    }
    line
}

/// The manifest name for a metadata item, as one string.
fn metadata_key_string(i: usize) -> (r: String)
    ensures
        r@ == metadata_key(i as nat),
{
    let mut key = String::new();
    append_str(&mut key, "METADATA_");
    append_decimal(&mut key, i);
    proof {
        assert(key@ =~= metadata_key(i as nat));
    }
    key
}

/// The import statement for an alt-text entry, as one string.
fn metadata_alt_import_line(ident: &String, i: usize) -> (r: String)
    ensures
        r@ == metadata_alt_import(ident@, i as nat),
{
    let mut line = String::new();
    append_str(&mut line, "import ");
    append_str(&mut line, ident.as_str());
    append_str(&mut line, " from \"METADATA_ALT_");
    append_decimal(&mut line, i);
    append_str(&mut line, "\";");
    proof {
        assert(line@ =~= metadata_alt_import(ident@, i as nat));
    }
    line
}

/// The manifest name for an alt-text entry, as one string.
fn metadata_alt_key_string(i: usize) -> (r: String)
    ensures
        r@ == metadata_alt_key(i as nat),
{
    let mut key = String::new();
    append_str(&mut key, "METADATA_ALT_");
    append_decimal(&mut key, i);
    proof {
        assert(key@ =~= metadata_alt_key(i as nat));
    }
    key
}

/// Appends the opening of a static item's thunk and its url field.
fn append_static_open_and_url(code: &mut String, prefix: &String, route: &String, ident: &String)
    ensures
        final(code)@ == old(code)@ + "      (async (props) => [{\n"@ + static_url_line(
            prefix@,
            route@,
            ident@,
        ),
{
    append_str(code, "      (async (props) => [{\n");
    append_str(code, "        url: fillMetadataSegment(");
    append_js_string(code, prefix.as_str());
    append_str(code, ", props.params, ");
    append_js_string(code, route.as_str());
    append_str(code, ") + `?${");
    append_str(code, ident.as_str());
    append_str(code, ".src.split(\"/\").splice(-1)[0]}`,\n");
    proof {
        assert(code@ =~= old(code)@ + "      (async (props) => [{\n"@ + static_url_line(
            prefix@,
            route@,
            ident@,
        ));
    }
}

/// Appends a static item's size fields, in the shape its category fixes.
fn append_static_size_fields(code: &mut String, cat: MetadataCategory, ident: &String)
    ensures
        final(code)@ == old(code)@ + static_size_fields(cat, ident@),
{
    let numeric = cat == MetadataCategory::Twitter || cat == MetadataCategory::OpenGraph;
    if numeric {
        append_str(code, "        width: ");
        append_str(code, ident.as_str());
        append_str(code, ".width,\n");
        append_str(code, "        height: ");
        append_str(code, ident.as_str());
        append_str(code, ".height,\n");
        proof {
            assert(code@ =~= old(code)@ + static_size_fields(cat, ident@));
        }
    } else {
        append_str(code, "        sizes: `${");
        append_str(code, ident.as_str());
        append_str(code, ".width}x${");
        append_str(code, ident.as_str());
        append_str(code, ".height}`,\n");
        proof {
            assert(code@ =~= old(code)@ + static_size_fields(cat, ident@));
        }
    }
}

/// Appends a static item's content-type field.
fn append_static_type_line(code: &mut String, ctype: &String)
    ensures
        final(code)@ == old(code)@ + static_type_line(ctype@),
{
    append_str(code, "        type: `");
    append_str(code, ctype.as_str());
    append_str(code, "`,\n");
    proof {
        assert(code@ =~= old(code)@ + static_type_line(ctype@));
    }
}

impl LoaderTreeBuilder {
    /// Emits one dynamic metadata item: registers a synthesized metadata
    /// source for the file, the category and the current page, and emits a
    /// bare identifier reference.
    fn write_dynamic_metadata_item(
        &mut self,
        page: &String,
        cat: MetadataCategory,
        path: &String,
    )
        requires
            old(self)@.counter < usize::MAX,
        ensures
            final(self)@ == write_dynamic_item_m(old(self)@, page@, cat, path@),
    {
        let i = self.unique_number();
        let identifier = make_identifier(cat.name(), i);

        let mut import_line = String::new();
        append_str(&mut import_line, "import ");
        append_str(&mut import_line, identifier.as_str());
        append_str(&mut import_line, " from \"METADATA_");
        append_decimal(&mut import_line, i);
        append_str(&mut import_line, "\";");
        self.imports.push(import_line);

        let mut key = String::new();
        append_str(&mut key, "METADATA_");
        append_decimal(&mut key, i);
        self.inner_assets.push(
            (
                key,
                ModuleSource::MetadataSource {
                    path: path.clone(),
                    category: cat,
                    page: page.clone(),
                },
            ),
        );

        append_str(&mut self.loader_tree_code, "      ");
        append_str(&mut self.loader_tree_code, identifier.as_str());
        append_str(&mut self.loader_tree_code, ",\n");

        proof {
            let m0 = old(self)@;
            let ident = mangle_spec(category_name_spec(cat), m0.counter);
            assert(self.loader_tree_code@ =~= m0.loader_tree_code + dynamic_item_line(ident));
            assert(strings_view(self.imports@) =~= m0.imports.push(
                metadata_import(ident, m0.counter),
            ));
            assert(assets_view(self.inner_assets@) =~= m0.inner_assets.push(
                (
                    metadata_key(m0.counter),
                    SourceModel::MetadataSource { path: path@, category: cat, page: page@ },
                ),
            ));
            assert(self@ =~~= write_dynamic_item_m(m0, page@, cat, path@));
        }
    }

    /// Emits one static metadata item: registers the image under the
    /// structured-image transform, emits a thunk computing the item's url,
    /// size fields and content type, and registers alt text when present.
    #[verifier::rlimit(100)]
    #[verifier::spinoff_prover]
    fn write_static_metadata_item(
        &mut self,
        page: &String,
        cat: MetadataCategory,
        path: &String,
        alt_path: &Option<String>,
    ) -> (r: Result<(), CompileError>)
        requires
            old(self)@.counter < usize::MAX,
        ensures
            follows_model(
                write_static_item_m(
                    old(self)@,
                    page@,
                    cat,
                    path@,
                    crate::tree::opt_view(*alt_path),
                ),
                r,
                final(self)@,
            ),
            final(self)@.env == old(self)@.env,
            final(self)@.base_path == old(self)@.base_path,
            final(self)@.counter <= old(self)@.counter + 1,
    {
        let i = self.unique_number();
        let identifier = make_identifier(cat.name(), i);

        let helper: String =
            "import { fillMetadataSegment } from \"next/dist/lib/metadata/get-metadata-route\"".to_owned();
        if !contains_string(&self.imports, &helper) {
            self.imports.push(helper);
        }
        let ghost imports1 = strings_view(self.imports@);
        proof {
            assert(imports1 =~= (if seq_contains(old(self)@.imports, helper_import()) {
                old(self)@.imports
            } else {
                old(self)@.imports.push(helper_import())
            }));
        }

        self.imports.push(metadata_import_line(&identifier, i));
        self.inner_assets.push(
            (metadata_key_string(i), ModuleSource::StructuredImage { path: path.clone() }),
        );

        let prefix: String = match &self.base_path {
            Option::Some(b) => {
                let mut p = b.clone();
                append_str(&mut p, "/");
                append_str(&mut p, page.as_str());
                p
            },
            Option::None => page.clone(),
        };
        let route = match lookup(&self.env.route_names, path) {
            Option::Some(r) => r,
            Option::None => {
                return Result::Err(CompileError::MissingRouteName { path: path.clone() });
            },
        };
        append_static_open_and_url(&mut self.loader_tree_code, &prefix, &route, &identifier);
        append_static_size_fields(&mut self.loader_tree_code, cat, &identifier);

        let ctype = match lookup(&self.env.content_types, path) {
            Option::Some(c) => c,
            Option::None => {
                return Result::Err(CompileError::MissingContentType { path: path.clone() });
            },
        };
        append_static_type_line(&mut self.loader_tree_code, &ctype);

        let ghost m0 = old(self)@;
        let ghost ident = mangle_spec(category_name_spec(cat), m0.counter);
        let ghost head = m0.loader_tree_code + "      (async (props) => [{\n"@ + static_url_line(
            pathname_prefix(m0.base_path, page@),
            route@,
            ident,
        ) + static_size_fields(cat, ident) + static_type_line(ctype@);
        proof {
            assert(prefix@ == pathname_prefix(m0.base_path, page@));
            assert(self.loader_tree_code@ =~= head);
        }

        if let Option::Some(alt) = alt_path {
            let mut alt_tag = String::new();
            append_str(&mut alt_tag, cat.name());
            append_str(&mut alt_tag, " alt text");
            let identifier2 = make_identifier(alt_tag.as_str(), i);
            proof {
                assert(alt_tag@ =~= category_name_spec(cat) + " alt text"@);
            }

            self.imports.push(metadata_alt_import_line(&identifier2, i));
            self.inner_assets.push(
                (metadata_alt_key_string(i), ModuleSource::TextContent { path: alt.clone() }),
            );

            append_str(&mut self.loader_tree_code, "        alt: ");
            append_str(&mut self.loader_tree_code, identifier2.as_str());
            append_str(&mut self.loader_tree_code, ",\n");
        }

        append_str(&mut self.loader_tree_code, "      }]),\n");

        proof {
            let mm = write_static_item_m(m0, page@, cat, path@, crate::tree::opt_view(*alt_path));
            match alt_path {
                Option::Some(alt) => {
                    let ident2 = mangle_spec(category_name_spec(cat) + " alt text"@, m0.counter);
                    assert(self.loader_tree_code@ =~= head + static_alt_line(ident2)
                        + "      }]),\n"@);
                    assert(strings_view(self.imports@) =~= imports1.push(
                        metadata_import(ident, m0.counter),
                    ).push(metadata_alt_import(ident2, m0.counter)));
                    assert(assets_view(self.inner_assets@) =~= m0.inner_assets.push(
                        (metadata_key(m0.counter), SourceModel::StructuredImage { path: path@ }),
                    ).push((metadata_alt_key(m0.counter), SourceModel::TextContent { path: alt@ })));
                },
                Option::None => {
                    assert(self.loader_tree_code@ =~= head + "      }]),\n"@);
                    assert(strings_view(self.imports@) =~= imports1.push(
                        metadata_import(ident, m0.counter),
                    ));
                    assert(assets_view(self.inner_assets@) =~= m0.inner_assets.push(
                        (metadata_key(m0.counter), SourceModel::StructuredImage { path: path@ }),
                    ));
                },
            }
            assert(mm is Ok);
            assert(mm->Ok_0 =~~= self@);
        }
        Result::Ok(())
    }

    /// Emits one metadata item of either kind.
    fn write_metadata_item(
        &mut self,
        page: &String,
        cat: MetadataCategory,
        item: &MetadataWithAltItem,
    ) -> (r: Result<(), CompileError>)
        requires
            old(self)@.counter < usize::MAX,
        ensures
            follows_model(
                write_item_m(old(self)@, page@, cat, crate::tree::alt_item_view(*item)),
                r,
                final(self)@,
            ),
            final(self)@.env == old(self)@.env,
            final(self)@.base_path == old(self)@.base_path,
            final(self)@.counter <= old(self)@.counter + 1,
    {
        match item {
            MetadataWithAltItem::Static { path, alt_path } => {
                self.write_static_metadata_item(page, cat, path, alt_path)
            },
            MetadataWithAltItem::Dynamic { path } => {
                self.write_dynamic_metadata_item(page, cat, path);
                Result::Ok(())
            },
        }
    }
}


// -------------------------------------------------------------------------
// Metadata lists and the metadata object.
/// The header of a non-empty category's array.
pub open spec fn items_header(cat: MetadataCategory) -> Seq<char> {
    "    "@ + category_name_spec(cat) + ": [\n"@
}

/// Ghost transition for a run of metadata items, one after the other.
pub open spec fn items_loop_m(
    m: BuilderModel,
    page: Seq<char>,
    cat: MetadataCategory,
    items: Seq<AltItemModel>,
) -> Result<BuilderModel, ErrorModel>
    decreases items.len(),
{
    if items.len() == 0 {
        Result::Ok(m)
    } else {
        match write_item_m(m, page, cat, items[0]) {
            Result::Err(e) => Result::Err(e),
            Result::Ok(m2) => items_loop_m(m2, page, cat, items.drop_first()),
        }
    }
}

/// Ghost transition for one category: nothing at all for an empty list,
/// else an array literal with one entry per item, in input order.
pub open spec fn write_items_m(
    m: BuilderModel,
    page: Seq<char>,
    cat: MetadataCategory,
    items: Seq<AltItemModel>,
) -> Result<BuilderModel, ErrorModel> {
    if items.len() == 0 {
        Result::Ok(m)
    } else {
        let m1 = BuilderModel { loader_tree_code: m.loader_tree_code + items_header(cat), ..m };
        match items_loop_m(m1, page, cat, items) {
            Result::Err(e) => Result::Err(e),
            Result::Ok(m2) => Result::Ok(
                BuilderModel { loader_tree_code: m2.loader_tree_code + "    ],\n"@, ..m2 },
            ),
        }
    }
}

/// The file a metadata declaration points at, whatever its kind.
pub open spec fn item_path(i: ItemModel) -> Seq<char> {
    match i {
        ItemModel::Static { path } => path,
        ItemModel::Dynamic { path } => path,
    }
}

/// The root-only manifest field.
pub open spec fn manifest_line(route: Seq<char>) -> Seq<char> {
    "    manifest: "@ + js_string_spec("/"@ + route) + ",\n"@
}

/// Ghost transition for the root-only global manifest field.
pub open spec fn write_manifest_m(m: BuilderModel, manifest: Option<ItemModel>) -> Result<
    BuilderModel,
    ErrorModel,
> {
    match manifest {
        Option::None => Result::Ok(m),
        Option::Some(item) => {
            let path = item_path(item);
            match lookup_spec(m.env.route_names, path) {
                Option::None => Result::Err(ErrorModel::MissingRouteName { path }),
                Option::Some(route) => Result::Ok(
                    BuilderModel { loader_tree_code: m.loader_tree_code + manifest_line(route), ..m },
                ),
            }
        },
    }
}

/// A favicon reference, reshaped as a bare (alt-less) icon entry.
pub open spec fn favicon_alt_model(f: ItemModel) -> AltItemModel {
    match f {
        ItemModel::Static { path } => AltItemModel::Static { path, alt_path: Option::None },
        ItemModel::Dynamic { path } => AltItemModel::Dynamic { path },
    }
}

/// The leading icon entry synthesized from the global favicon: present only
/// when compiling the root of the tree.
pub open spec fn favicon_lead(global: Option<GlobalMetadataModel>) -> Seq<AltItemModel> {
    match global {
        Option::Some(g) => match g.favicon {
            Option::Some(f) => seq![favicon_alt_model(f)],
            Option::None => Seq::empty(),
        },
        Option::None => Seq::empty(),
    }
}

/// An upper bound on the allocation numbers one metadata record can take.
pub open spec fn meta_alloc_bound(meta: MetadataModel) -> nat {
    1 + meta.icon.len() + meta.apple.len() + meta.twitter.len() + meta.open_graph.len()
}

/// Ghost transition for a whole `metadata: { ... }` object. Skipped when
/// the record is empty; the favicon merge and the manifest field happen
/// exactly when the tree-wide global metadata is passed, that is, at the
/// root only.
pub open spec fn write_metadata_m(
    m: BuilderModel,
    page: Seq<char>,
    meta: MetadataModel,
    global: Option<GlobalMetadataModel>,
) -> Result<BuilderModel, ErrorModel> {
    if metadata_is_empty_spec(meta) {
        Result::Ok(m)
    } else {
        let page1 = match meta.base_page {
            Option::Some(b) => b,
            Option::None => page,
        };
        let m1 = BuilderModel { loader_tree_code: m.loader_tree_code + "  metadata: {"@, ..m };
        match write_items_m(m1, page1, MetadataCategory::Icon, favicon_lead(global) + meta.icon) {
            Result::Err(e) => Result::Err(e),
            Result::Ok(m2) => match write_items_m(m2, page1, MetadataCategory::Apple, meta.apple) {
                Result::Err(e) => Result::Err(e),
                Result::Ok(m3) => match write_items_m(
                    m3,
                    page1,
                    MetadataCategory::Twitter,
                    meta.twitter,
                ) {
                    Result::Err(e) => Result::Err(e),
                    Result::Ok(m4) => match write_items_m(
                        m4,
                        page1,
                        MetadataCategory::OpenGraph,
                        meta.open_graph,
                    ) {
                        Result::Err(e) => Result::Err(e),
                        Result::Ok(m5) => {
                            let r6 = match global {
                                Option::Some(g) => write_manifest_m(m5, g.manifest),
                                Option::None => Result::Ok(m5),
                            };
                            match r6 {
                                Result::Err(e) => Result::Err(e),
                                Result::Ok(m6) => Result::Ok(
                                    BuilderModel {
                                        loader_tree_code: m6.loader_tree_code + "  },"@,
                                        ..m6
                                    },
                                ),
                            }
                        },
                    },
                },
            },
        }
    }
}

/// The view of an optional leading item.
pub open spec fn lead_view(lead: Option<MetadataWithAltItem>) -> Seq<AltItemModel> {
    match lead {
        Option::Some(it) => seq![crate::tree::alt_item_view(it)],
        Option::None => Seq::empty(),
    }
}

/// The view of the global metadata reference handed to one segment.
pub open spec fn opt_global_ref_view(o: Option<&GlobalMetadata>) -> Option<GlobalMetadataModel> {
    match o {
        Option::Some(g) => Option::Some(crate::tree::global_metadata_view(*g)),
        Option::None => Option::None,
    }
}


impl LoaderTreeBuilder {
    /// Emits one category of metadata items, with the synthesized favicon
    /// entry leading the list when one is given: nothing for an empty list,
    /// else an array with one entry per item in input order.
    #[verifier::rlimit(60)]
    #[verifier::spinoff_prover]
    fn write_metadata_items(
        &mut self,
        page: &String,
        cat: MetadataCategory,
        lead: Option<MetadataWithAltItem>,
        items: &Vec<MetadataWithAltItem>,
    ) -> (r: Result<(), CompileError>)
        requires
            old(self)@.counter + lead_view(lead).len() + items@.len() <= usize::MAX,
        ensures
            follows_model(
                write_items_m(
                    old(self)@,
                    page@,
                    cat,
                    lead_view(lead) + crate::tree::items_view(items@),
                ),
                r,
                final(self)@,
            ),
            final(self)@.env == old(self)@.env,
            final(self)@.base_path == old(self)@.base_path,
            final(self)@.counter <= old(self)@.counter + lead_view(lead).len() + items@.len(),
    {
        let ghost merged = lead_view(lead) + crate::tree::items_view(items@);
        let has_lead = match &lead {
            Option::Some(_) => true,
            Option::None => false,
        };
        if !has_lead && items.len() == 0 {
            proof {
                assert(merged =~= Seq::<AltItemModel>::empty());
            }
            return Result::Ok(());
        }
        append_str(&mut self.loader_tree_code, "    ");
        append_str(&mut self.loader_tree_code, cat.name());
        append_str(&mut self.loader_tree_code, ": [\n");
        let ghost m1 = BuilderModel {
            loader_tree_code: old(self)@.loader_tree_code + items_header(cat),
            ..old(self)@
        };
        proof {
            assert(self.loader_tree_code@ =~= m1.loader_tree_code);
            assert(self@ =~~= m1);
        }
        match &lead {
            Option::Some(item) => {
                match self.write_metadata_item(page, cat, item) {
                    Result::Ok(_) => {
                        proof {
                            assert(merged[0] == crate::tree::alt_item_view(*item));
                            assert(merged.drop_first() =~= crate::tree::items_view(
                                items@,
                            ).skip(0));
                        }
                    },
                    Result::Err(e) => {
                        proof {
                            assert(merged[0] == crate::tree::alt_item_view(*item));
                            assert(items_loop_m(m1, page@, cat, merged) is Err);
                            assert(merged.len() > 0);
                        }
                        return Result::Err(e);
                    },
                }
            },
            Option::None => {
                proof {
                    assert(merged =~= crate::tree::items_view(items@).skip(0));
                }
            },
        }
        let ghost iv = crate::tree::items_view(items@);
        proof {
            assert(items_loop_m(m1, page@, cat, merged) == items_loop_m(self@, page@, cat, iv.skip(0)));
        }
        let n = items.len();
        let mut k: usize = 0;
        while k < n
            invariant
                n == items@.len(),
                k <= n,
                iv == crate::tree::items_view(items@),
                iv.len() == n,
                merged == lead_view(lead) + iv,
                merged.len() == lead_view(lead).len() + n,
                m1 == (BuilderModel {
                    loader_tree_code: old(self)@.loader_tree_code + items_header(cat),
                    ..old(self)@
                }),
                items_loop_m(m1, page@, cat, merged) == items_loop_m(
                    self@,
                    page@,
                    cat,
                    iv.skip(k as int),
                ),
                self@.counter + (n - k) <= usize::MAX,
                self@.env == m1.env,
                self@.base_path == m1.base_path,
                self@.counter <= m1.counter + lead_view(lead).len() + k,
                m1.env == old(self)@.env,
                m1.base_path == old(self)@.base_path,
                m1.counter == old(self)@.counter,
            decreases n - k,
        {
            let ghost pre = self@;
            match self.write_metadata_item(page, cat, &items[k]) {
                Result::Ok(_) => {
                    proof {
                        assert(iv.skip(k as int)[0] == crate::tree::alt_item_view(items@[k as int]));
                        assert(iv.skip(k as int).drop_first() =~= iv.skip(k as int + 1));
                        assert(iv.skip(k as int).len() > 0);
                    }
                },
                Result::Err(e) => {
                    proof {
                        assert(iv.skip(k as int)[0] == crate::tree::alt_item_view(items@[k as int]));
                        assert(iv.skip(k as int).len() > 0);
                        assert(items_loop_m(pre, page@, cat, iv.skip(k as int)) is Err);
                        assert(merged.len() > 0);
                    }
                    return Result::Err(e);
                },
            }
            k = k + 1;
        }
        proof {
            assert(iv.skip(n as int) =~= Seq::<AltItemModel>::empty());
            assert(items_loop_m(m1, page@, cat, merged) == Result::<BuilderModel, ErrorModel>::Ok(
                self@,
            ));
        }
        append_str(&mut self.loader_tree_code, "    ],\n");
        proof {
            assert(merged.len() > 0);
            let mm = write_items_m(old(self)@, page@, cat, merged);
            assert(mm is Ok);
            assert(mm->Ok_0 =~~= self@);
        }
        Result::Ok(())
    }

    /// Emits the root-only `manifest` field when the global metadata
    /// carries a manifest file.
    fn write_metadata_manifest(&mut self, manifest: &Option<MetadataItem>) -> (r: Result<
        (),
        CompileError,
    >)
        ensures
            follows_model(
                write_manifest_m(old(self)@, crate::tree::opt_item_view(*manifest)),
                r,
                final(self)@,
            ),
            final(self)@.env == old(self)@.env,
            final(self)@.base_path == old(self)@.base_path,
            final(self)@.counter == old(self)@.counter,
    {
        let item = match manifest {
            Option::Some(item) => item,
            Option::None => {
                return Result::Ok(());
            },
        };
        let path = match item {
            MetadataItem::Static { path } => path,
            MetadataItem::Dynamic { path } => path,
        };
        let route = match lookup(&self.env.route_names, path) {
            Option::Some(r) => r,
            Option::None => {
                return Result::Err(CompileError::MissingRouteName { path: path.clone() });
            },
        };
        let mut manifest_route = String::new();
        append_str(&mut manifest_route, "/");
        append_str(&mut manifest_route, route.as_str());
        append_str(&mut self.loader_tree_code, "    manifest: ");
        append_js_string(&mut self.loader_tree_code, manifest_route.as_str());
        append_str(&mut self.loader_tree_code, ",\n");
        proof {
            let m0 = old(self)@;
            assert(manifest_route@ =~= "/"@ + route@);
            let mm = write_manifest_m(m0, crate::tree::opt_item_view(*manifest));
            assert(self.loader_tree_code@ =~= m0.loader_tree_code + manifest_line(route@));
            assert(mm is Ok);
            assert(mm->Ok_0 =~~= self@);
        }
        Result::Ok(())
    }

    /// Emits the `metadata: { ... }` object for one segment, when its
    /// record is non-empty: the four category arrays, and, exactly when the
    /// tree-wide global metadata is passed (the root), the favicon merged
    /// as the leading icon entry and the global manifest field.
    #[verifier::rlimit(60)]
    #[verifier::spinoff_prover]
    fn write_metadata(
        &mut self,
        app_page: &String,
        metadata: &Metadata,
        global: Option<&GlobalMetadata>,
    ) -> (r: Result<(), CompileError>)
        requires
            old(self)@.counter + meta_alloc_bound(crate::tree::metadata_view(*metadata))
                <= usize::MAX,
        ensures
            follows_model(
                write_metadata_m(
                    old(self)@,
                    app_page@,
                    crate::tree::metadata_view(*metadata),
                    opt_global_ref_view(global),
                ),
                r,
                final(self)@,
            ),
            final(self)@.env == old(self)@.env,
            final(self)@.base_path == old(self)@.base_path,
            final(self)@.counter <= old(self)@.counter + meta_alloc_bound(
                crate::tree::metadata_view(*metadata),
            ),
    {
        let ghost meta = crate::tree::metadata_view(*metadata);
        let ghost g = opt_global_ref_view(global);
        if metadata.is_empty() {
            return Result::Ok(());
        }
        let page: &String = match &metadata.base_page {
            Option::Some(b) => b,
            Option::None => app_page,
        };
        append_str(&mut self.loader_tree_code, "  metadata: {");
        let ghost m1 = BuilderModel {
            loader_tree_code: old(self)@.loader_tree_code + "  metadata: {"@,
            ..old(self)@
        };
        proof {
            assert(self@ =~~= m1);
        }
        let lead: Option<MetadataWithAltItem> = match global {
            Option::Some(gm) => match &gm.favicon {
                Option::Some(MetadataItem::Static { path }) => Option::Some(
                    MetadataWithAltItem::Static { path: path.clone(), alt_path: Option::None },
                ),
                Option::Some(MetadataItem::Dynamic { path }) => Option::Some(
                    MetadataWithAltItem::Dynamic { path: path.clone() },
                ),
                Option::None => Option::None,
            },
            Option::None => Option::None,
        };
        proof {
            assert(lead_view(lead) =~= favicon_lead(g));
            assert(lead_view(lead) + crate::tree::items_view(metadata.icon@) =~= favicon_lead(g)
                + meta.icon);
        }
        match self.write_metadata_items(page, MetadataCategory::Icon, lead, &metadata.icon) {
            Result::Ok(_) => {},
            Result::Err(e) => {
                return Result::Err(e);
            },
        }
        match self.write_metadata_items(
            page,
            MetadataCategory::Apple,
            Option::None,
            &metadata.apple,
        ) {
            Result::Ok(_) => {
                proof {
                    assert(Seq::<AltItemModel>::empty() + meta.apple =~= meta.apple);
                }
            },
            Result::Err(e) => {
                proof {
                    assert(Seq::<AltItemModel>::empty() + meta.apple =~= meta.apple);
                }
                return Result::Err(e);
            },
        }
        match self.write_metadata_items(
            page,
            MetadataCategory::Twitter,
            Option::None,
            &metadata.twitter,
        ) {
            Result::Ok(_) => {
                proof {
                    assert(Seq::<AltItemModel>::empty() + meta.twitter =~= meta.twitter);
                }
            },
            Result::Err(e) => {
                proof {
                    assert(Seq::<AltItemModel>::empty() + meta.twitter =~= meta.twitter);
                }
                return Result::Err(e);
            },
        }
        match self.write_metadata_items(
            page,
            MetadataCategory::OpenGraph,
            Option::None,
            &metadata.open_graph,
        ) {
            Result::Ok(_) => {
                proof {
                    assert(Seq::<AltItemModel>::empty() + meta.open_graph =~= meta.open_graph);
                }
            },
            Result::Err(e) => {
                proof {
                    assert(Seq::<AltItemModel>::empty() + meta.open_graph =~= meta.open_graph);
                }
                return Result::Err(e);
            },
        }
        if let Option::Some(gm) = global {
            match self.write_metadata_manifest(&gm.manifest) {
                Result::Ok(_) => {},
                Result::Err(e) => {
                    return Result::Err(e);
                },
            }
        }
        append_str(&mut self.loader_tree_code, "  },");
        proof {
            let mm = write_metadata_m(old(self)@, app_page@, meta, g);
            assert(mm is Ok);
            assert(mm->Ok_0 =~~= self@);
        }
        Result::Ok(())
    }
}


// -------------------------------------------------------------------------
// The tree walk.
/// The opening of one segment's literal.
pub open spec fn segment_open(segment: Seq<char>) -> Seq<char> {
    "["@ + js_string_spec(segment) + ", {\n"@
}

/// Ghost transition for the seven component slots of one segment, in their
/// fixed emission order.
pub open spec fn write_components_m(m: BuilderModel, c: ComponentsModel) -> Result<
    BuilderModel,
    ErrorModel,
> {
    match write_component_m(m, ComponentType::Layout, c.layout) {
        Result::Err(e) => Result::Err(e),
        Result::Ok(m1) => match write_component_m(m1, ComponentType::Page, c.page) {
            Result::Err(e) => Result::Err(e),
            Result::Ok(m2) => match write_component_m(m2, ComponentType::DefaultPage, c.default) {
                Result::Err(e) => Result::Err(e),
                Result::Ok(m3) => match write_component_m(m3, ComponentType::Error, c.error) {
                    Result::Err(e) => Result::Err(e),
                    Result::Ok(m4) => match write_component_m(
                        m4,
                        ComponentType::Loading,
                        c.loading,
                    ) {
                        Result::Err(e) => Result::Err(e),
                        Result::Ok(m5) => match write_component_m(
                            m5,
                            ComponentType::Template,
                            c.template,
                        ) {
                            Result::Err(e) => Result::Err(e),
                            Result::Ok(m6) => write_component_m(
                                m6,
                                ComponentType::NotFound,
                                c.not_found,
                            ),
                        },
                    },
                },
            },
        },
    }
}

/// An upper bound on the allocation numbers one subtree can take.
pub open spec fn tree_alloc_bound(t: TreeModel) -> nat
    decreases t,
{
    7 + meta_alloc_bound(t.components.metadata) + children_alloc_bound(t.parallel_routes)
}

pub open spec fn children_alloc_bound(children: Seq<(Seq<char>, TreeModel)>) -> nat
    decreases children,
{
    if children.len() == 0 {
        0
    } else {
        tree_alloc_bound(children[0].1) + children_alloc_bound(children.drop_first())
    }
}

/// Ghost transition for one segment: the opening literal, the component
/// slots (buffered so that they stand before the children in the final
/// text, though computed first), the named children in insertion order, the
/// metadata object, and the closing. The global metadata is passed on as
/// present only at the root.
pub open spec fn walk_tree_m(
    m: BuilderModel,
    t: TreeModel,
    g: GlobalMetadataModel,
    root: bool,
) -> Result<BuilderModel, ErrorModel>
    decreases t,
{
    let m1 = BuilderModel { loader_tree_code: m.loader_tree_code + segment_open(t.segment), ..m };
    match write_components_m(
        BuilderModel { loader_tree_code: Seq::empty(), ..m1 },
        t.components,
    ) {
        Result::Err(e) => Result::Err(e),
        Result::Ok(mc) => {
            let components_code = mc.loader_tree_code;
            let m2 = BuilderModel { loader_tree_code: m1.loader_tree_code, ..mc };
            match children_loop_m(m2, t.parallel_routes, g) {
                Result::Err(e) => Result::Err(e),
                Result::Ok(m3) => {
                    let m4 = BuilderModel {
                        loader_tree_code: m3.loader_tree_code + "}, {\n"@ + components_code,
                        ..m3
                    };
                    match write_metadata_m(
                        m4,
                        t.page,
                        t.components.metadata,
                        if root {
                            Option::Some(g)
                        } else {
                            Option::None
                        },
                    ) {
                        Result::Err(e) => Result::Err(e),
                        Result::Ok(m5) => Result::Ok(
                            BuilderModel { loader_tree_code: m5.loader_tree_code + "}]"@, ..m5 },
                        ),
                    }
                },
            }
        },
    }
}


/// The view of a named-children vector, as the tree model carries it.
pub open spec fn routes_view(v: Seq<(String, LoaderTree)>) -> Seq<(Seq<char>, TreeModel)> {
    Seq::new(v.len(), |k: int| (v[k].0@, tree_view(v[k].1)))
}

/// Ghost transition for a run of named children: each child's key, its
/// subtree compiled with root off, and a separating comma.
pub open spec fn children_loop_m(
    m: BuilderModel,
    children: Seq<(Seq<char>, TreeModel)>,
    g: GlobalMetadataModel,
) -> Result<BuilderModel, ErrorModel>
    decreases children,
{
    if children.len() == 0 {
        Result::Ok(m)
    } else {
        let m1 = BuilderModel {
            loader_tree_code: m.loader_tree_code + js_string_spec(children[0].0) + ": "@,
            ..m
        };
        match walk_tree_m(m1, children[0].1, g, false) {
            Result::Err(e) => Result::Err(e),
            Result::Ok(m2) => children_loop_m(
                BuilderModel { loader_tree_code: m2.loader_tree_code + ",\n"@, ..m2 },
                children.drop_first(),
                g,
            ),
        }
    }
}



impl LoaderTreeBuilder {
    /// Emits the seven component slots of one segment, in their fixed
    /// order.
    #[verifier::rlimit(60)]
    #[verifier::spinoff_prover]
    fn write_components(&mut self, components: &Components) -> (r: Result<(), CompileError>)
        requires
            old(self)@.counter + 7 <= usize::MAX,
        ensures
            follows_model(
                write_components_m(old(self)@, components_view(*components)),
                r,
                final(self)@,
            ),
            final(self)@.env == old(self)@.env,
            final(self)@.base_path == old(self)@.base_path,
            final(self)@.counter <= old(self)@.counter + 7,
    {
        match self.write_component(ComponentType::Layout, &components.layout) {
            Result::Ok(_) => {},
            Result::Err(e) => {
                return Result::Err(e);
            },
        }
        match self.write_component(ComponentType::Page, &components.page) {
            Result::Ok(_) => {},
            Result::Err(e) => {
                return Result::Err(e);
            },
        }
        match self.write_component(ComponentType::DefaultPage, &components.default) {
            Result::Ok(_) => {},
            Result::Err(e) => {
                return Result::Err(e);
            },
        }
        match self.write_component(ComponentType::Error, &components.error) {
            Result::Ok(_) => {},
            Result::Err(e) => {
                return Result::Err(e);
            },
        }
        match self.write_component(ComponentType::Loading, &components.loading) {
            Result::Ok(_) => {},
            Result::Err(e) => {
                return Result::Err(e);
            },
        }
        match self.write_component(ComponentType::Template, &components.template) {
            Result::Ok(_) => {},
            Result::Err(e) => {
                return Result::Err(e);
            },
        }
        match self.write_component(ComponentType::NotFound, &components.not_found) {
            Result::Ok(_) => {},
            Result::Err(e) => {
                return Result::Err(e);
            },
        }
        Result::Ok(())
    }
}


impl LoaderTreeBuilder {
    /// Compiles the named parallel children of one segment, in insertion
    /// order, each with root off.
    #[verifier::rlimit(100)]
    #[verifier::spinoff_prover]
    #[verifier::loop_isolation(false)]
    fn walk_children(
        &mut self,
        routes: &Vec<(String, LoaderTree)>,
        global: &GlobalMetadata,
    ) -> (r: Result<(), CompileError>)
        requires
            old(self)@.counter + children_alloc_bound(routes_view(routes@)) <= usize::MAX,
        ensures
            follows_model(
                children_loop_m(
                    old(self)@,
                    routes_view(routes@),
                    crate::tree::global_metadata_view(*global),
                ),
                r,
                final(self)@,
            ),
            final(self)@.env == old(self)@.env,
            final(self)@.base_path == old(self)@.base_path,
            final(self)@.counter <= old(self)@.counter + children_alloc_bound(
                routes_view(routes@),
            ),
        decreases routes@,
    {
        let ghost cv = routes_view(routes@);
        let ghost gv = crate::tree::global_metadata_view(*global);
        proof {
            assert(cv.skip(0) =~= cv);
        }
        let n = routes.len();
        let mut k: usize = 0;
        while k < n
            invariant
                k <= n,
                n == routes@.len(),
                children_loop_m(old(self)@, cv, gv) == children_loop_m(
                    self@,
                    cv.skip(k as int),
                    gv,
                ),
                self@.counter + children_alloc_bound(cv.skip(k as int)) <= usize::MAX,
                self@.env == old(self)@.env,
                self@.base_path == old(self)@.base_path,
                self@.counter <= old(self)@.counter + children_alloc_bound(cv)
                    - children_alloc_bound(cv.skip(k as int)),
            decreases n - k,
        {
            proof {
                assert(cv.skip(k as int)[0] == cv[k as int]);
                assert(cv[k as int] == (routes@[k as int].0@, tree_view(routes@[k as int].1)));
                assert(cv.skip(k as int).len() > 0);
                assert(cv.skip(k as int).drop_first() =~= cv.skip(k as int + 1));
                assert(children_alloc_bound(cv.skip(k as int)) == tree_alloc_bound(cv[k as int].1)
                    + children_alloc_bound(cv.skip(k as int + 1)));
            }
            let ghost at_start = self@;
            append_js_string(&mut self.loader_tree_code, routes[k].0.as_str());
            append_str(&mut self.loader_tree_code, ": ");
            proof {
                assert(self@ =~~= (BuilderModel {
                    loader_tree_code: at_start.loader_tree_code + js_string_spec(cv[k as int].0)
                        + ": "@,
                    ..at_start
                }));
            }
            match self.walk_tree(&routes[k].1, global, false) {
                Result::Ok(_) => {},
                Result::Err(e) => {
                    return Result::Err(e);
                },
            }
            let ghost after_walk = self@;
            append_str(&mut self.loader_tree_code, ",\n");
            proof {
                assert(self@ =~~= (BuilderModel {
                    loader_tree_code: after_walk.loader_tree_code + ",\n"@,
                    ..after_walk
                }));
            }
            k = k + 1;
        }
        proof {
            assert(cv.skip(n as int) =~= Seq::<(Seq<char>, TreeModel)>::empty());
        }
        Result::Ok(())
    }
}

impl LoaderTreeBuilder {
    /// Compiles one segment: the opening literal, the component slots
    /// (computed into a fresh buffer and spliced in after the children so
    /// they stand first in the text), the parallel children in insertion
    /// order, the metadata object, and the closing. Global metadata is
    /// handed to the metadata step only at the root, so the favicon merge
    /// and the manifest field can never appear in a descendant.
    #[verifier::rlimit(100)]
    #[verifier::spinoff_prover]
    #[verifier::loop_isolation(false)]
    pub fn walk_tree(&mut self, t: &LoaderTree, global: &GlobalMetadata, root: bool) -> (r: Result<
        (),
        CompileError,
    >)
        requires
            old(self)@.counter + tree_alloc_bound(tree_view(*t)) <= usize::MAX,
        ensures
            follows_model(
                walk_tree_m(
                    old(self)@,
                    tree_view(*t),
                    crate::tree::global_metadata_view(*global),
                    root,
                ),
                r,
                final(self)@,
            ),
            final(self)@.env == old(self)@.env,
            final(self)@.base_path == old(self)@.base_path,
            final(self)@.counter <= old(self)@.counter + tree_alloc_bound(tree_view(*t)),
        decreases *t,
    {
        let ghost tv = tree_view(*t);
        let ghost gv = crate::tree::global_metadata_view(*global);
        append_str(&mut self.loader_tree_code, "[");
        append_js_string(&mut self.loader_tree_code, t.segment.as_str());
        append_str(&mut self.loader_tree_code, ", {\n");
        let ghost m1 = BuilderModel {
            loader_tree_code: old(self)@.loader_tree_code + segment_open(tv.segment),
            ..old(self)@
        };
        proof {
            assert(self.loader_tree_code@ =~= m1.loader_tree_code);
            assert(self@ =~~= m1);
        }

        // Components are computed first but must stand before the children
        // in the final text: buffer them, splice later.
        let mut saved = String::new();
        core::mem::swap(&mut saved, &mut self.loader_tree_code);
        proof {
            assert(self@ =~~= (BuilderModel { loader_tree_code: Seq::empty(), ..m1 }));
        }
        match self.write_components(&t.components) {
            Result::Ok(_) => {},
            Result::Err(e) => {
                return Result::Err(e);
            },
        }
        let ghost mc = self@;
        proof {
            assert(write_components_m(
                BuilderModel { loader_tree_code: Seq::empty(), ..m1 },
                tv.components,
            ) == Result::<BuilderModel, ErrorModel>::Ok(mc));
        }
        core::mem::swap(&mut saved, &mut self.loader_tree_code);
        let ghost m2 = BuilderModel { loader_tree_code: m1.loader_tree_code, ..mc };
        proof {
            assert(self@ =~~= m2);
            assert(saved@ == mc.loader_tree_code);
        }

        proof {
            assert(tree_alloc_bound(tv) == 7 + meta_alloc_bound(tv.components.metadata)
                + children_alloc_bound(tv.parallel_routes));
            assert(routes_view(t.parallel_routes@) =~~= tv.parallel_routes);
        }
        match self.walk_children(&t.parallel_routes, global) {
            Result::Ok(_) => {},
            Result::Err(e) => {
                return Result::Err(e);
            },
        }
        let ghost m3 = self@;
        append_str(&mut self.loader_tree_code, "}, {\n");
        append_str(&mut self.loader_tree_code, saved.as_str());
        let ghost m4 = BuilderModel {
            loader_tree_code: m3.loader_tree_code + "}, {\n"@ + mc.loader_tree_code,
            ..m3
        };
        proof {
            assert(self@ =~~= m4);
        }
        let metadata_global = if root {
            Option::Some(global)
        } else {
            Option::None
        };
        match self.write_metadata(&t.page, &t.components.metadata, metadata_global) {
            Result::Ok(_) => {},
            Result::Err(e) => {
                return Result::Err(e);
            },
        }
        append_str(&mut self.loader_tree_code, "}]");
        proof {
            let mm = walk_tree_m(old(self)@, tv, gv, root);
            assert(mm is Ok);
            assert(mm->Ok_0 =~~= self@);
        }
        Result::Ok(())
    }
}



/// A present slot as a one-entry sequence.
pub open spec fn opt_to_seq(o: Option<Seq<char>>) -> Seq<Seq<char>> {
    match o {
        Option::Some(p) => seq![p],
        Option::None => Seq::empty(),
    }
}

/// The page files of a subtree, in traversal order: the segment's own page
/// slot first, then each child's pages in insertion order.
pub open spec fn tree_pages(t: TreeModel) -> Seq<Seq<char>>
    decreases t,
{
    opt_to_seq(t.components.page) + children_pages(t.parallel_routes)
}

pub open spec fn children_pages(children: Seq<(Seq<char>, TreeModel)>) -> Seq<Seq<char>>
    decreases children,
{
    if children.len() == 0 {
        Seq::empty()
    } else {
        tree_pages(children[0].1) + children_pages(children.drop_first())
    }
}

// -------------------------------------------------------------------------
// Top-level compilation.
/// The reserved manifest name under which a global-error component is
/// registered, stable for external callers rather than counter-generated.
pub const GLOBAL_ERROR: &'static str = "GLOBAL_ERROR_MODULE";

/// Ghost transition for the whole build: the root's global-error slot, if
/// present, registered once under the reserved name, then the walk from the
/// root with root on.
pub open spec fn build_m(m: BuilderModel, t: TreeModel, g: GlobalMetadataModel) -> Result<
    BuilderModel,
    ErrorModel,
> {
    let m1 = match t.components.global_error {
        Option::Some(ge) => BuilderModel {
            inner_assets: m.inner_assets.push(
                ("GLOBAL_ERROR_MODULE"@, SourceModel::Component { path: ge }),
            ),
            ..m
        },
        Option::None => m,
    };
    walk_tree_m(m1, t, g, true)
}

/// One whole compilation from a fresh state: what
/// [`LoaderTreeModule::build`] returns on success.
pub open spec fn compile_m(
    env: EnvModel,
    base_path: Option<Seq<char>>,
    t: TreeModel,
    g: GlobalMetadataModel,
) -> Result<BuilderModel, ErrorModel> {
    build_m(init_model(env, base_path), t, g)
}

/// The immutable result of a compilation: the import statements in
/// first-use order, the program text, the manifest in insertion order, and
/// the page files in traversal order.
#[derive(Debug)]
pub struct LoaderTreeModule {
    pub imports: Vec<String>,
    pub loader_tree_code: String,
    pub inner_assets: Vec<(String, ModuleSource)>,
    pub pages: Vec<String>,
}

#[verifier::ext_equal]
pub struct ModuleModel {
    pub imports: Seq<Seq<char>>,
    pub loader_tree_code: Seq<char>,
    pub inner_assets: Seq<(Seq<char>, SourceModel)>,
    pub pages: Seq<Seq<char>>,
}

pub open spec fn module_view(m: LoaderTreeModule) -> ModuleModel {
    ModuleModel {
        imports: strings_view(m.imports@),
        loader_tree_code: m.loader_tree_code@,
        inner_assets: assets_view(m.inner_assets@),
        pages: strings_view(m.pages@),
    }
}

impl View for LoaderTreeModule {
    type V = ModuleModel;

    open spec fn view(&self) -> ModuleModel {
        module_view(*self)
    }
}

/// The outputs of a finished builder state, packaged.
pub open spec fn module_of_builder(m: BuilderModel) -> ModuleModel {
    ModuleModel {
        imports: m.imports,
        loader_tree_code: m.loader_tree_code,
        inner_assets: m.inner_assets,
        pages: m.pages,
    }
}

impl LoaderTreeBuilder {
    /// Runs one whole compilation: registers the root's global-error slot
    /// under its reserved name, walks the tree from the root, and packages
    /// the accumulated outputs. On failure nothing is handed out.
    pub fn build(self, loader_tree: &LoaderTree, global: &GlobalMetadata) -> (r: Result<
        LoaderTreeModule,
        CompileError,
    >)
        requires
            self@.counter + tree_alloc_bound(tree_view(*loader_tree)) <= usize::MAX,
        ensures
            match r {
                Result::Ok(module) => {
                    let mm = build_m(
                        self@,
                        tree_view(*loader_tree),
                        crate::tree::global_metadata_view(*global),
                    );
                    mm is Ok && module@ == module_of_builder(mm->Ok_0)
                },
                Result::Err(e) => {
                    let mm = build_m(
                        self@,
                        tree_view(*loader_tree),
                        crate::tree::global_metadata_view(*global),
                    );
                    mm is Err && mm->Err_0 == e@
                },
            },
    {
        let mut this = self;
        match &loader_tree.components.global_error {
            Option::Some(ge) => {
                this.inner_assets.push(
                    ("GLOBAL_ERROR_MODULE".to_owned(), ModuleSource::Component {
                        path: ge.clone(),
                    }),
                );
                proof {
                    assert(assets_view(this.inner_assets@) =~= self@.inner_assets.push(
                        ("GLOBAL_ERROR_MODULE"@, SourceModel::Component { path: ge@ }),
                    ));
                }
            },
            Option::None => {},
        }
        match this.walk_tree(loader_tree, global, true) {
            Result::Ok(_) => {},
            Result::Err(e) => {
                return Result::Err(e);
            },
        }
        let module = LoaderTreeModule {
            imports: this.imports,
            loader_tree_code: this.loader_tree_code,
            inner_assets: this.inner_assets,
            pages: this.pages,
        };
        proof {
            let mm = build_m(
                self@,
                tree_view(*loader_tree),
                crate::tree::global_metadata_view(*global),
            );
            assert(mm is Ok);
            assert(module@ =~~= module_of_builder(mm->Ok_0));
        }
        Result::Ok(module)
    }
}

impl LoaderTreeModule {
    /// Compiles a whole route tree with a fresh state: the program text,
    /// the import list, the manifest and the collected pages are exactly
    /// the ghost compilation [`compile_m`] of the inputs, so two runs over
    /// the same inputs give byte-identical outputs.
    pub fn build(
        loader_tree: &LoaderTree,
        env: ResolutionEnv,
        base_path: Option<String>,
        global: &GlobalMetadata,
    ) -> (r: Result<LoaderTreeModule, CompileError>)
        requires
            tree_alloc_bound(tree_view(*loader_tree)) <= usize::MAX,
        ensures
            match r {
                Result::Ok(module) => {
                    let mm = compile_m(
                        crate::env::env_view(env),
                        crate::tree::opt_view(base_path),
                        tree_view(*loader_tree),
                        crate::tree::global_metadata_view(*global),
                    );
                    mm is Ok && module@ == module_of_builder(mm->Ok_0)
                },
                Result::Err(e) => {
                    let mm = compile_m(
                        crate::env::env_view(env),
                        crate::tree::opt_view(base_path),
                        tree_view(*loader_tree),
                        crate::tree::global_metadata_view(*global),
                    );
                    mm is Err && mm->Err_0 == e@
                },
            },
    {
        LoaderTreeBuilder::new(env, base_path).build(loader_tree, global)
    }
}

} // verus!
