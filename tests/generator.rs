use asset_generator::database::plan_database;
use asset_generator::ident::{constant_identifier, is_module_identifier, replace_dots, type_identifier};
use asset_generator::kind::{classify, classify_lowered, file_extension, file_stem, AssetKind, ShaderStage};
use asset_generator::module::{
    check_entry, config_declaration, join_path, portable_path, shader_declaration,
    submodule_declaration, synthesize_module, GenError, SourceDir, SourceEntry,
};

fn file(name: &str) -> SourceEntry {
    SourceEntry { name: name.to_string(), is_dir: false }
}

fn dir(name: &str) -> SourceEntry {
    SourceEntry { name: name.to_string(), is_dir: true }
}

fn source_dir(path: &str, rel: &str, entries: Vec<SourceEntry>) -> SourceDir {
    SourceDir { path: path.to_string(), rel_path: rel.to_string(), entries }
}

fn shader_text(ident: &str, path: &str, stage: &str) -> String {
    format!(
        "\n\npub static {}: crate::assets::shader_asset::ShaderAsset = crate::assets::shader_asset::ShaderAsset {{\n    path: \"{}\",\n    meta: crate::assets::shader_asset::ShaderAssetMeta {{\n        shader_type: \"{}\",\n    }},\n}};",
        ident, path, stage
    )
}

fn sample_tree() -> Vec<SourceDir> {
    vec![
        source_dir("assets", "", vec![dir("shaders"), dir("config")]),
        source_dir(
            "assets/shaders",
            "shaders",
            vec![file("triangle.frag"), file("triangle.shader.meta"), file("triangle.vert")],
        ),
        source_dir("assets/config", "config", vec![file("window.toml")]),
    ]
}

#[test]
fn constant_identifier_upper_cases_and_replaces_dots() {
    assert_eq!(constant_identifier("triangle.frag"), "TRIANGLE_FRAG");
    assert_eq!(constant_identifier("a.b.c"), "A_B_C");
    assert_eq!(replace_dots("a.b.c"), "a_b_c");
    assert_eq!(constant_identifier(""), "");
}

#[test]
fn type_identifier_is_pascal_case() {
    assert_eq!(type_identifier("window"), "Window");
    assert_eq!(type_identifier("window_config"), "WindowConfig");
    assert_eq!(type_identifier("_wild__underscore_s_"), "WildUnderscoreS");
}

#[test]
fn module_identifiers_are_checked() {
    assert!(is_module_identifier("shaders"));
    assert!(is_module_identifier("_private2"));
    assert!(!is_module_identifier(""));
    assert!(!is_module_identifier("_"));
    assert!(!is_module_identifier("2d"));
    assert!(!is_module_identifier("my-dir"));
}

#[test]
fn extensions_and_stems() {
    assert_eq!(file_extension("triangle.frag"), Some("frag"));
    assert_eq!(file_extension("triangle.shader.meta"), Some("meta"));
    assert_eq!(file_extension("README"), None);
    assert_eq!(file_extension(".hidden"), None);
    assert_eq!(file_extension("trailing."), Some(""));
    assert_eq!(file_stem("triangle.shader.meta"), "triangle.shader");
    assert_eq!(file_stem("README"), "README");
    assert_eq!(file_stem(".hidden"), ".hidden");
}

#[test]
fn classification_ignores_letter_case() {
    assert_eq!(classify("frag"), AssetKind::ShaderSourceAsset(ShaderStage::Fragment));
    assert_eq!(classify("FRAG"), AssetKind::ShaderSourceAsset(ShaderStage::Fragment));
    assert_eq!(classify("Vert"), AssetKind::ShaderSourceAsset(ShaderStage::Vertex));
    assert_eq!(classify("META"), AssetKind::IgnoredMeta);
    assert_eq!(classify("toml"), AssetKind::ConfigAsset);
    assert_eq!(classify("png"), AssetKind::Unrecognized);
    assert_eq!(classify(""), AssetKind::Unrecognized);
    assert_eq!(classify_lowered("FRAG"), AssetKind::Unrecognized);
}

#[test]
fn paths_are_joined_and_made_portable() {
    assert_eq!(join_path("assets/shaders", "a.frag"), "assets/shaders/a.frag");
    assert_eq!(join_path("", "a.frag"), "a.frag");
    assert_eq!(portable_path("assets\\shaders\\a.frag"), "assets/shaders/a.frag");
}

#[test]
fn declarations_have_their_fixed_shape() {
    assert_eq!(submodule_declaration("shaders"), "pub mod shaders;\n");
    assert_eq!(
        config_declaration("window_config"),
        "\nmod window_config;\npub use window_config::Config as WindowConfig;"
    );
    assert_eq!(
        shader_declaration("triangle.vert", "assets\\shaders\\triangle.vert", ShaderStage::Vertex),
        shader_text("TRIANGLE_VERT", "assets/shaders/triangle.vert", "vertex")
    );
}

#[test]
fn fragment_and_vertex_files_are_tagged_by_stage() {
    let m = synthesize_module(&source_dir(
        "assets/shaders",
        "shaders",
        vec![file("triangle.FRAG"), file("triangle.vert")],
    ))
    .ok()
    .unwrap();
    let expected = format!(
        "{}{}",
        shader_text("TRIANGLE_FRAG", "assets/shaders/triangle.FRAG", "fragment"),
        shader_text("TRIANGLE_VERT", "assets/shaders/triangle.vert", "vertex")
    );
    assert_eq!(m.text, expected);
    assert!(m.config_jobs.is_empty());
}

#[test]
fn submodules_come_before_declarations() {
    let m = synthesize_module(&source_dir(
        "assets",
        "",
        vec![file("window.toml"), dir("shaders"), file("window.toml.meta"), dir("config")],
    ))
    .ok()
    .unwrap();
    assert_eq!(
        m.text,
        "pub mod shaders;\npub mod config;\n\nmod window;\npub use window::Config as Window;"
    );
    assert_eq!(m.path, "");
    assert_eq!(m.config_jobs.len(), 1);
    assert_eq!(m.config_jobs[0].source_path, "assets/window.toml");
    assert_eq!(m.config_jobs[0].dest_path, "window.rs");
}

#[test]
fn config_asset_asks_for_accessor_file() {
    let m = synthesize_module(&source_dir("assets/config", "config", vec![file("window.toml")]))
        .ok()
        .unwrap();
    assert_eq!(m.text, "\nmod window;\npub use window::Config as Window;");
    assert_eq!(m.config_jobs[0].source_path, "assets/config/window.toml");
    assert_eq!(m.config_jobs[0].dest_path, "config/window.rs");
}

#[test]
fn metadata_sibling_contributes_nothing() {
    let with_meta = synthesize_module(&source_dir(
        "assets/shaders",
        "shaders",
        vec![file("triangle.frag"), file("triangle.shader.meta"), file("triangle.vert")],
    ))
    .ok()
    .unwrap();
    let without = synthesize_module(&source_dir(
        "assets/shaders",
        "shaders",
        vec![file("triangle.frag"), file("triangle.vert")],
    ))
    .ok()
    .unwrap();
    assert_eq!(with_meta.text, without.text);
    let only_meta = synthesize_module(&source_dir("assets/s", "s", vec![file("x.meta")]))
        .ok()
        .unwrap();
    assert_eq!(only_meta.text, "");
}

#[test]
fn empty_directory_gives_empty_module() {
    let m = synthesize_module(&source_dir("assets/empty", "empty", vec![])).ok().unwrap();
    assert_eq!(m.text, "");
    assert_eq!(m.path, "empty");
}

#[test]
fn missing_extension_is_fatal() {
    match synthesize_module(&source_dir("assets", "", vec![file("README")])) {
        Err(GenError::MissingExtension { path }) => assert_eq!(path, "assets/README"),
        _ => panic!("expected a missing extension"),
    }
}

#[test]
fn unrecognized_extension_is_fatal() {
    match check_entry("assets/img", &file("Logo.PNG")) {
        Err(GenError::UnrecognizedExtension { path, extension }) => {
            assert_eq!(path, "assets/img/Logo.PNG");
            assert_eq!(extension, "png");
        }
        _ => panic!("expected an unrecognized extension"),
    }
}

#[test]
fn invalid_directory_name_is_fatal() {
    match synthesize_module(&source_dir("assets", "", vec![dir("my-dir")])) {
        Err(GenError::InvalidModuleName { path }) => assert_eq!(path, "assets/my-dir"),
        _ => panic!("expected an invalid module name"),
    }
}

#[test]
fn first_failure_in_listing_order_is_reported() {
    let r = synthesize_module(&source_dir(
        "assets",
        "",
        vec![file("a.frag"), file("b.png"), file("c")],
    ));
    match r {
        Err(GenError::UnrecognizedExtension { path, .. }) => assert_eq!(path, "assets/b.png"),
        _ => panic!("expected the failure of b.png"),
    }
}

#[test]
fn plan_mirrors_every_source_directory() {
    let tree = sample_tree();
    let modules = plan_database(&tree).ok().unwrap();
    assert_eq!(modules.len(), tree.len());
    for (m, d) in modules.iter().zip(tree.iter()) {
        assert_eq!(m.path, d.rel_path);
    }
    assert_eq!(modules[0].text, "pub mod shaders;\npub mod config;\n");
    assert_eq!(modules[2].config_jobs[0].dest_path, "config/window.rs");
}

#[test]
fn two_runs_give_identical_output() {
    let first = plan_database(&sample_tree()).ok().unwrap();
    let second = plan_database(&sample_tree()).ok().unwrap();
    assert_eq!(first.len(), second.len());
    for (a, b) in first.iter().zip(second.iter()) {
        assert_eq!(a.path, b.path);
        assert_eq!(a.text, b.text);
        assert_eq!(a.config_jobs.len(), b.config_jobs.len());
    }
}

#[test]
fn unregistered_extension_aborts_the_run() {
    let mut tree = sample_tree();
    tree[2].entries.push(file("notes.txt"));
    match plan_database(&tree) {
        Err(GenError::UnrecognizedExtension { path, extension }) => {
            assert_eq!(path, "assets/config/notes.txt");
            assert_eq!(extension, "txt");
        }
        _ => panic!("expected the run to abort"),
    }
}

#[test]
fn config_stem_must_be_module_identifier() {
    match synthesize_module(&source_dir("assets/config", "config", vec![file("my-window.toml")])) {
        Err(GenError::InvalidModuleName { path }) => {
            assert_eq!(path, "assets/config/my-window.toml")
        }
        _ => panic!("expected an invalid module name"),
    }
}
