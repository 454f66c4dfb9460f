use loader_tree::builder::LoaderTreeModule;
use loader_tree::env::ResolutionEnv;
use loader_tree::ident::make_identifier;
use loader_tree::middleware::middleware_files;
use loader_tree::next_build::next_compiled_package_path;
use loader_tree::server_component::server_component_chunk_code;
use loader_tree::tree::{
    ComponentType, Components, GlobalMetadata, LoaderTree, Metadata, MetadataCategory,
};

#[test]
fn component_names_match_emitted_keys() {
    assert_eq!(ComponentType::Page.name(), "page");
    assert_eq!(ComponentType::DefaultPage.name(), "defaultPage");
    assert_eq!(ComponentType::Error.name(), "error");
    assert_eq!(ComponentType::Layout.name(), "layout");
    assert_eq!(ComponentType::Loading.name(), "loading");
    assert_eq!(ComponentType::Template.name(), "template");
    assert_eq!(ComponentType::NotFound.name(), "not-found");
}

#[test]
fn category_names_match_emitted_keys() {
    assert_eq!(MetadataCategory::Icon.name(), "icon");
    assert_eq!(MetadataCategory::Apple.name(), "apple");
    assert_eq!(MetadataCategory::Twitter.name(), "twitter");
    assert_eq!(MetadataCategory::OpenGraph.name(), "openGraph");
}

#[test]
fn identifiers_carry_tag_and_counter_under_reserved_prefix() {
    assert_eq!(make_identifier("page", 0), "__TURBOPACK__page_$23$0__");
    assert_eq!(make_identifier("page", 1234), "__TURBOPACK__page_$23$1234__");
    assert_eq!(make_identifier("not-found", 7), "__TURBOPACK__not$2d$found_$23$7__");
    assert_eq!(make_identifier("icon alt text", 3), "__TURBOPACK__icon_alt_text_$23$3__");
}

#[test]
fn identifiers_differ_even_for_shared_tags() {
    assert_ne!(make_identifier("page", 0), make_identifier("page", 1));
    assert_ne!(make_identifier("icon", 5), make_identifier("icon alt text", 5));
}

#[test]
fn middleware_files_cross_stems_and_extensions() {
    let exts = vec!["ts".to_owned(), "js".to_owned()];
    assert_eq!(
        middleware_files(&exts),
        vec![
            "middleware.ts".to_owned(),
            "middleware.js".to_owned(),
            "src/middleware.ts".to_owned(),
            "src/middleware.js".to_owned(),
        ]
    );
    assert!(middleware_files(&Vec::new()).is_empty());
}

#[test]
fn control_characters_are_escaped_in_program_text() {
    let tree = LoaderTree {
        page: "/".to_owned(),
        segment: "\u{1}\t".to_owned(),
        parallel_routes: Vec::new(),
        components: Components {
            page: None,
            default: None,
            error: None,
            global_error: None,
            layout: None,
            loading: None,
            template: None,
            not_found: None,
            metadata: Metadata {
                icon: Vec::new(),
                apple: Vec::new(),
                twitter: Vec::new(),
                open_graph: Vec::new(),
                sitemap: None,
                base_page: None,
            },
            route: None,
        },
    };
    let env = ResolutionEnv {
        module_paths: Vec::new(),
        route_names: Vec::new(),
        content_types: Vec::new(),
    };
    let global = GlobalMetadata { favicon: None, manifest: None };
    let module = LoaderTreeModule::build(&tree, env, None, &global).unwrap();
    assert_eq!(module.loader_tree_code, "[\"\\u0001\\t\", {\n}, {\n}]");
}

#[test]
fn compiled_package_path_prefixes_name() {
    assert_eq!(next_compiled_package_path("react"), "next/dist/compiled/react");
    assert_eq!(next_compiled_package_path(""), "next/dist/compiled/");
}

#[test]
fn server_component_chunk_code_quotes_module_id() {
    assert_eq!(
        server_component_chunk_code("module \"1\""),
        "__turbopack_export_namespace__(__turbopack_import__(\"module \\\"1\\\"\"));\n"
    );
}
