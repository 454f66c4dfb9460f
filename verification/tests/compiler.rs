use loader_tree::builder::{LoaderTreeBuilder, LoaderTreeModule, GLOBAL_ERROR};
use loader_tree::env::ResolutionEnv;
use loader_tree::source::{CompileError, ModuleSource};
use loader_tree::tree::{
    Components, GlobalMetadata, LoaderTree, Metadata, MetadataCategory, MetadataItem,
    MetadataWithAltItem,
};

fn empty_metadata() -> Metadata {
    Metadata {
        icon: Vec::new(),
        apple: Vec::new(),
        twitter: Vec::new(),
        open_graph: Vec::new(),
        sitemap: None,
        base_page: None,
    }
}

fn empty_components() -> Components {
    Components {
        page: None,
        default: None,
        error: None,
        global_error: None,
        layout: None,
        loading: None,
        template: None,
        not_found: None,
        metadata: empty_metadata(),
        route: None,
    }
}

fn leaf(segment: &str, page: &str, components: Components) -> LoaderTree {
    LoaderTree {
        page: page.to_owned(),
        segment: segment.to_owned(),
        parallel_routes: Vec::new(),
        components,
    }
}

fn no_global() -> GlobalMetadata {
    GlobalMetadata { favicon: None, manifest: None }
}

fn empty_env() -> ResolutionEnv {
    ResolutionEnv { module_paths: Vec::new(), route_names: Vec::new(), content_types: Vec::new() }
}

fn pair(a: &str, b: &str) -> (String, String) {
    (a.to_owned(), b.to_owned())
}

/// The tree of the worked scenario: a root with a layout, a page, one
/// static icon without alt text, and one nested parallel route holding a
/// single page.
fn scenario_tree() -> LoaderTree {
    let mut root_components = empty_components();
    root_components.layout = Some("app/layout.tsx".to_owned());
    root_components.page = Some("app/page.tsx".to_owned());
    root_components.metadata.icon =
        vec![MetadataWithAltItem::Static { path: "app/icon.png".to_owned(), alt_path: None }];
    let mut child_components = empty_components();
    child_components.page = Some("app/q/page.tsx".to_owned());
    let child = leaf("", "/q", child_components);
    LoaderTree {
        page: "/".to_owned(),
        segment: "".to_owned(),
        parallel_routes: vec![("children".to_owned(), child)],
        components: root_components,
    }
}

fn scenario_env() -> ResolutionEnv {
    ResolutionEnv {
        module_paths: vec![
            pair("app/layout.tsx", "[project]/app/layout.tsx"),
            pair("app/page.tsx", "[project]/app/page.tsx"),
            pair("app/q/page.tsx", "[project]/app/q/page.tsx"),
        ],
        route_names: vec![pair("app/icon.png", "icon.png")],
        content_types: vec![pair("app/icon.png", "image/png")],
    }
}

#[test]
fn scenario_full_program_text() {
    let tree = scenario_tree();
    let module = LoaderTreeModule::build(&tree, scenario_env(), None, &no_global()).unwrap();

    let mut expected = String::new();
    expected.push_str("[\"\", {\n");
    expected.push_str("\"children\": [\"\", {\n");
    expected.push_str("}, {\n");
    expected.push_str("  \"page\": [() => __TURBOPACK__page_$23$2__, \"[project]/app/q/page.tsx\"],\n");
    expected.push_str("}],\n");
    expected.push_str("}, {\n");
    expected.push_str("  \"layout\": [() => __TURBOPACK__layout_$23$0__, \"[project]/app/layout.tsx\"],\n");
    expected.push_str("  \"page\": [() => __TURBOPACK__page_$23$1__, \"[project]/app/page.tsx\"],\n");
    expected.push_str("  metadata: {    icon: [\n");
    expected.push_str("      (async (props) => [{\n");
    expected.push_str("        url: fillMetadataSegment(\"/\", props.params, \"icon.png\") + `?${__TURBOPACK__icon_$23$3__.src.split(\"/\").splice(-1)[0]}`,\n");
    expected.push_str("        sizes: `${__TURBOPACK__icon_$23$3__.width}x${__TURBOPACK__icon_$23$3__.height}`,\n");
    expected.push_str("        type: `image/png`,\n");
    expected.push_str("      }]),\n");
    expected.push_str("    ],\n");
    expected.push_str("  },}]");
    assert_eq!(module.loader_tree_code, expected);

    assert_eq!(module.pages, vec!["app/page.tsx".to_owned(), "app/q/page.tsx".to_owned()]);

    assert_eq!(
        module.imports,
        vec![
            "import * as __TURBOPACK__layout_$23$0__ from \"COMPONENT_0\";\n".to_owned(),
            "import * as __TURBOPACK__page_$23$1__ from \"COMPONENT_1\";\n".to_owned(),
            "import * as __TURBOPACK__page_$23$2__ from \"COMPONENT_2\";\n".to_owned(),
            "import { fillMetadataSegment } from \"next/dist/lib/metadata/get-metadata-route\""
                .to_owned(),
            "import __TURBOPACK__icon_$23$3__ from \"METADATA_3\";".to_owned(),
        ]
    );

    let keys: Vec<&str> = module.inner_assets.iter().map(|p| p.0.as_str()).collect();
    assert_eq!(keys, vec!["COMPONENT_0", "COMPONENT_1", "COMPONENT_2", "METADATA_3"]);
    match &module.inner_assets[3].1 {
        ModuleSource::StructuredImage { path } => assert_eq!(path, "app/icon.png"),
        other => panic!("unexpected source {:?}", other),
    }
}

#[test]
fn compilation_is_deterministic() {
    let first = LoaderTreeModule::build(&scenario_tree(), scenario_env(), None, &no_global())
        .unwrap();
    let second = LoaderTreeModule::build(&scenario_tree(), scenario_env(), None, &no_global())
        .unwrap();
    assert_eq!(first.loader_tree_code, second.loader_tree_code);
    assert_eq!(first.imports, second.imports);
    assert_eq!(first.pages, second.pages);
    let k1: Vec<&String> = first.inner_assets.iter().map(|p| &p.0).collect();
    let k2: Vec<&String> = second.inner_assets.iter().map(|p| &p.0).collect();
    assert_eq!(k1, k2);
}

#[test]
fn dynamic_twitter_item_emits_bare_identifier() {
    let mut components = empty_components();
    components.metadata.twitter =
        vec![MetadataWithAltItem::Dynamic { path: "app/twitter-image.tsx".to_owned() }];
    let tree = leaf("", "/dash", components);
    let module = LoaderTreeModule::build(&tree, empty_env(), None, &no_global()).unwrap();

    assert!(module.loader_tree_code.contains("    twitter: [\n      __TURBOPACK__twitter_$23$0__,\n    ],\n"));
    assert!(!module.loader_tree_code.contains("(async"));
    assert_eq!(module.inner_assets.len(), 1);
    assert_eq!(module.inner_assets[0].0, "METADATA_0");
    match &module.inner_assets[0].1 {
        ModuleSource::MetadataSource { path, category, page } => {
            assert_eq!(path, "app/twitter-image.tsx");
            assert!(matches!(category, MetadataCategory::Twitter));
            assert_eq!(page, "/dash");
        },
        other => panic!("unexpected source {:?}", other),
    }
    assert_eq!(
        module.imports,
        vec!["import __TURBOPACK__twitter_$23$0__ from \"METADATA_0\";".to_owned()]
    );
}

#[test]
fn favicon_becomes_sole_icon_entry_at_root_only() {
    // The record must be non-empty for any metadata to be emitted at all;
    // the sitemap entry makes it so without adding emitted items.
    let mut components = empty_components();
    components.metadata.sitemap = Some(MetadataItem::Static { path: "app/sitemap.ts".to_owned() });
    let global = GlobalMetadata {
        favicon: Some(MetadataItem::Static { path: "app/favicon.ico".to_owned() }),
        manifest: None,
    };
    let env = ResolutionEnv {
        module_paths: Vec::new(),
        route_names: vec![pair("app/favicon.ico", "favicon.ico")],
        content_types: vec![pair("app/favicon.ico", "image/x-icon")],
    };

    let root = leaf("", "/", components.clone());
    let module = LoaderTreeModule::build(&root, env.clone(), None, &global).unwrap();
    assert!(module.loader_tree_code.contains("    icon: [\n"));
    assert_eq!(module.loader_tree_code.matches("(async (props)").count(), 1);
    assert!(module.loader_tree_code.contains("favicon.ico"));

    // The same metadata under a non-root segment: same global metadata is
    // reachable tree-wide, but nothing of it is emitted there.
    let child = leaf("", "/", components);
    let parent = LoaderTree {
        page: "/".to_owned(),
        segment: "".to_owned(),
        parallel_routes: vec![("children".to_owned(), child)],
        components: empty_components(),
    };
    let module2 = LoaderTreeModule::build(&parent, env, None, &global).unwrap();
    assert!(!module2.loader_tree_code.contains("icon"));
    assert!(!module2.loader_tree_code.contains("favicon.ico"));
    assert!(module2.loader_tree_code.contains("  metadata: {  },"));
}

#[test]
fn global_manifest_field_only_at_root() {
    let mut components = empty_components();
    components.metadata.apple =
        vec![MetadataWithAltItem::Dynamic { path: "app/apple-icon.tsx".to_owned() }];
    let global = GlobalMetadata {
        favicon: None,
        manifest: Some(MetadataItem::Static { path: "app/manifest.ts".to_owned() }),
    };
    let env = ResolutionEnv {
        module_paths: Vec::new(),
        route_names: vec![pair("app/manifest.ts", "manifest.webmanifest")],
        content_types: Vec::new(),
    };

    let root = leaf("", "/", components.clone());
    let module = LoaderTreeModule::build(&root, env.clone(), None, &global).unwrap();
    assert!(module.loader_tree_code.contains("    manifest: \"/manifest.webmanifest\",\n"));
    assert_eq!(module.loader_tree_code.matches("manifest:").count(), 1);

    let child = leaf("", "/", components);
    let parent = LoaderTree {
        page: "/".to_owned(),
        segment: "".to_owned(),
        parallel_routes: vec![("children".to_owned(), child)],
        components: empty_components(),
    };
    let module2 = LoaderTreeModule::build(&parent, env, None, &global).unwrap();
    assert!(!module2.loader_tree_code.contains("manifest"));
}

#[test]
fn twitter_static_item_has_numeric_sizes() {
    let mut components = empty_components();
    components.metadata.twitter =
        vec![MetadataWithAltItem::Static { path: "app/twitter-image.png".to_owned(), alt_path: None }];
    let env = ResolutionEnv {
        module_paths: Vec::new(),
        route_names: vec![pair("app/twitter-image.png", "twitter-image.png")],
        content_types: vec![pair("app/twitter-image.png", "image/png")],
    };
    let module = LoaderTreeModule::build(&leaf("", "/", components), env, None, &no_global())
        .unwrap();
    assert!(module.loader_tree_code.contains("        width: __TURBOPACK__twitter_$23$0__.width,\n"));
    assert!(module.loader_tree_code.contains("        height: __TURBOPACK__twitter_$23$0__.height,\n"));
    assert!(!module.loader_tree_code.contains("sizes"));
}

#[test]
fn icon_static_item_has_combined_sizes() {
    let mut components = empty_components();
    components.metadata.icon =
        vec![MetadataWithAltItem::Static { path: "app/icon.png".to_owned(), alt_path: None }];
    let env = ResolutionEnv {
        module_paths: Vec::new(),
        route_names: vec![pair("app/icon.png", "icon.png")],
        content_types: vec![pair("app/icon.png", "image/png")],
    };
    let module = LoaderTreeModule::build(&leaf("", "/", components), env, None, &no_global())
        .unwrap();
    assert!(module.loader_tree_code.contains("        sizes: `${__TURBOPACK__icon_$23$0__.width}x${__TURBOPACK__icon_$23$0__.height}`,\n"));
    assert!(!module.loader_tree_code.contains("width:"));
    assert!(!module.loader_tree_code.contains("height:"));
}

#[test]
fn empty_categories_are_omitted() {
    let mut components = empty_components();
    components.metadata.apple =
        vec![MetadataWithAltItem::Dynamic { path: "app/apple-icon.tsx".to_owned() }];
    let module = LoaderTreeModule::build(&leaf("", "/", components), empty_env(), None, &no_global())
        .unwrap();
    assert!(module.loader_tree_code.contains("    apple: [\n"));
    assert!(!module.loader_tree_code.contains("icon:"));
    assert!(!module.loader_tree_code.contains("twitter:"));
    assert!(!module.loader_tree_code.contains("openGraph:"));
}

#[test]
fn empty_metadata_record_emits_no_metadata_object() {
    let module = LoaderTreeModule::build(
        &leaf("", "/", empty_components()),
        empty_env(),
        None,
        &no_global(),
    )
    .unwrap();
    assert_eq!(module.loader_tree_code, "[\"\", {\n}, {\n}]");
    assert!(module.imports.is_empty());
    assert!(module.inner_assets.is_empty());
    assert!(module.pages.is_empty());
}

#[test]
fn alt_text_gets_its_own_entry_and_identifier() {
    let mut components = empty_components();
    components.metadata.open_graph = vec![MetadataWithAltItem::Static {
        path: "app/opengraph-image.png".to_owned(),
        alt_path: Some("app/opengraph-image.alt.txt".to_owned()),
    }];
    let env = ResolutionEnv {
        module_paths: Vec::new(),
        route_names: vec![pair("app/opengraph-image.png", "opengraph-image.png")],
        content_types: vec![pair("app/opengraph-image.png", "image/png")],
    };
    let module = LoaderTreeModule::build(&leaf("", "/", components), env, None, &no_global())
        .unwrap();
    assert!(module.loader_tree_code.contains("        alt: __TURBOPACK__openGraph_alt_text_$23$0__,\n"));
    let keys: Vec<&str> = module.inner_assets.iter().map(|p| p.0.as_str()).collect();
    assert_eq!(keys, vec!["METADATA_0", "METADATA_ALT_0"]);
    match &module.inner_assets[1].1 {
        ModuleSource::TextContent { path } => assert_eq!(path, "app/opengraph-image.alt.txt"),
        other => panic!("unexpected source {:?}", other),
    }
    // Both identifiers share counter 0 yet differ.
    assert!(module.imports.iter().any(|i| i.contains("__TURBOPACK__openGraph_$23$0__")));
    assert!(module.imports.iter().any(|i| i.contains("__TURBOPACK__openGraph_alt_text_$23$0__")));
}

#[test]
fn base_path_prefixes_metadata_urls() {
    let mut components = empty_components();
    components.metadata.icon =
        vec![MetadataWithAltItem::Static { path: "app/icon.png".to_owned(), alt_path: None }];
    let env = ResolutionEnv {
        module_paths: Vec::new(),
        route_names: vec![pair("app/icon.png", "icon.png")],
        content_types: vec![pair("app/icon.png", "image/png")],
    };
    let module = LoaderTreeModule::build(
        &leaf("", "/docs", components),
        env,
        Some("/base".to_owned()),
        &no_global(),
    )
    .unwrap();
    assert!(module.loader_tree_code.contains("fillMetadataSegment(\"/base//docs\", props.params, \"icon.png\")"));
}

#[test]
fn global_error_registered_under_reserved_name() {
    let mut components = empty_components();
    components.global_error = Some("app/global-error.tsx".to_owned());
    let tree = leaf("", "/", components);
    let module = LoaderTreeModule::build(&tree, empty_env(), None, &no_global()).unwrap();
    assert_eq!(module.inner_assets.len(), 1);
    assert_eq!(module.inner_assets[0].0, GLOBAL_ERROR);
    assert_eq!(module.inner_assets[0].0, "GLOBAL_ERROR_MODULE");
    match &module.inner_assets[0].1 {
        ModuleSource::Component { path } => assert_eq!(path, "app/global-error.tsx"),
        other => panic!("unexpected source {:?}", other),
    }
}

#[test]
fn segment_labels_are_escaped() {
    let tree = leaf("a\"b\\c\n", "/", empty_components());
    let module = LoaderTreeModule::build(&tree, empty_env(), None, &no_global()).unwrap();
    assert_eq!(module.loader_tree_code, "[\"a\\\"b\\\\c\\n\", {\n}, {\n}]");
}

#[test]
fn missing_module_path_fails_compilation() {
    let mut components = empty_components();
    components.layout = Some("app/layout.tsx".to_owned());
    let err = LoaderTreeModule::build(&leaf("", "/", components), empty_env(), None, &no_global())
        .unwrap_err();
    match err {
        CompileError::MissingModulePath { path } => assert_eq!(path, "app/layout.tsx"),
        other => panic!("unexpected error {:?}", other),
    }
}

#[test]
fn missing_route_name_fails_compilation() {
    let mut components = empty_components();
    components.metadata.icon =
        vec![MetadataWithAltItem::Static { path: "app/icon.png".to_owned(), alt_path: None }];
    let env = ResolutionEnv {
        module_paths: Vec::new(),
        route_names: Vec::new(),
        content_types: vec![pair("app/icon.png", "image/png")],
    };
    let err = LoaderTreeModule::build(&leaf("", "/", components), env, None, &no_global())
        .unwrap_err();
    match err {
        CompileError::MissingRouteName { path } => assert_eq!(path, "app/icon.png"),
        other => panic!("unexpected error {:?}", other),
    }
}

#[test]
fn missing_content_type_fails_compilation() {
    let mut components = empty_components();
    components.metadata.icon =
        vec![MetadataWithAltItem::Static { path: "app/icon.png".to_owned(), alt_path: None }];
    let env = ResolutionEnv {
        module_paths: Vec::new(),
        route_names: vec![pair("app/icon.png", "icon.png")],
        content_types: Vec::new(),
    };
    let err = LoaderTreeModule::build(&leaf("", "/", components), env, None, &no_global())
        .unwrap_err();
    match err {
        CompileError::MissingContentType { path } => assert_eq!(path, "app/icon.png"),
        other => panic!("unexpected error {:?}", other),
    }
}

#[test]
fn base_page_overrides_segment_page() {
    let mut components = empty_components();
    components.metadata.icon =
        vec![MetadataWithAltItem::Static { path: "app/icon.png".to_owned(), alt_path: None }];
    components.metadata.base_page = Some("/other".to_owned());
    let env = ResolutionEnv {
        module_paths: Vec::new(),
        route_names: vec![pair("app/icon.png", "icon.png")],
        content_types: vec![pair("app/icon.png", "image/png")],
    };
    let module = LoaderTreeModule::build(&leaf("", "/here", components), env, None, &no_global())
        .unwrap();
    assert!(module.loader_tree_code.contains("fillMetadataSegment(\"/other\","));
    assert!(!module.loader_tree_code.contains("\"/here\""));
}

#[test]
fn helper_import_deduplicated_across_static_items() {
    let mut components = empty_components();
    components.metadata.icon = vec![
        MetadataWithAltItem::Static { path: "app/icon1.png".to_owned(), alt_path: None },
        MetadataWithAltItem::Static { path: "app/icon2.png".to_owned(), alt_path: None },
    ];
    let env = ResolutionEnv {
        module_paths: Vec::new(),
        route_names: vec![pair("app/icon1.png", "icon1.png"), pair("app/icon2.png", "icon2.png")],
        content_types: vec![
            pair("app/icon1.png", "image/png"),
            pair("app/icon2.png", "image/png"),
        ],
    };
    let module = LoaderTreeModule::build(&leaf("", "/", components), env, None, &no_global())
        .unwrap();
    let helper = "import { fillMetadataSegment } from \"next/dist/lib/metadata/get-metadata-route\"";
    assert_eq!(module.imports.iter().filter(|i| i.as_str() == helper).count(), 1);
}

#[test]
fn builder_allocates_unique_numbers() {
    let mut builder = LoaderTreeBuilder::new(empty_env(), None);
    assert_eq!(builder.unique_number(), 0);
    assert_eq!(builder.unique_number(), 1);
    assert_eq!(builder.unique_number(), 2);
}

#[test]
fn metadata_emptiness_gates_emission() {
    let mut metadata = empty_metadata();
    assert!(metadata.is_empty());
    metadata.sitemap = Some(MetadataItem::Static { path: "app/sitemap.ts".to_owned() });
    assert!(!metadata.is_empty());
    let mut metadata2 = empty_metadata();
    metadata2.base_page = Some("/x".to_owned());
    assert!(metadata2.is_empty());
}

#[test]
fn resolution_tables_use_first_match() {
    let mut components = empty_components();
    components.layout = Some("app/layout.tsx".to_owned());
    let env = ResolutionEnv {
        module_paths: vec![
            pair("app/layout.tsx", "[project]/app/layout.tsx"),
            pair("app/layout.tsx", "[ignored]/later-entry"),
        ],
        route_names: Vec::new(),
        content_types: Vec::new(),
    };
    let module = LoaderTreeModule::build(&leaf("", "/", components), env, None, &no_global())
        .unwrap();
    assert!(module.loader_tree_code.contains("\"[project]/app/layout.tsx\""));
    assert!(!module.loader_tree_code.contains("later-entry"));
}
