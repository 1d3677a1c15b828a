use asset_generator::assets::{resolve_relative, ShaderMeta, ShaderType};
use asset_generator::config::Config;
use asset_generator::log::{Level, Logger};

#[test]
fn paths_resolve_against_metadata_directory() {
    assert_eq!(
        resolve_relative("assets/shaders/triangle.shader", "triangle.vert"),
        "assets/shaders/triangle.vert"
    );
    assert_eq!(resolve_relative("triangle.shader", "triangle.vert"), "triangle.vert");
    assert_eq!(resolve_relative("assets/a.meta", "/abs/x.vert"), "/abs/x.vert");
    assert_eq!(resolve_relative("/a.meta", "x.vert"), "/x.vert");
}

#[test]
fn shader_meta_is_rebased() {
    let meta = ShaderMeta {
        id: "tri".to_string(),
        shader_type: ShaderType::FRAGMENT,
        source_path: "triangle.frag".to_string(),
    };
    let meta = meta.rebased("assets/shaders/triangle.frag.meta");
    assert_eq!(meta.id, "tri");
    assert_eq!(meta.shader_type, ShaderType::FRAGMENT);
    assert_eq!(meta.source_path, "assets/shaders/triangle.frag");
}

#[test]
fn shader_types_map_to_gl_enumerants() {
    assert_eq!(ShaderType::FRAGMENT.to_gl(), 0x8B30);
    assert_eq!(ShaderType::VERTEX.to_gl(), 0x8B31);
}

#[test]
fn short_level_names() {
    assert_eq!(Logger::short_level_name(Level::Error), "E");
    assert_eq!(Logger::short_level_name(Level::Warn), "W");
    assert_eq!(Logger::short_level_name(Level::Info), "I");
    assert_eq!(Logger::short_level_name(Level::Debug), "D");
    assert_eq!(Logger::short_level_name(Level::Trace), "T");
}

#[test]
fn logger_passes_records_up_to_its_level() {
    let logger = Logger::init_with_level(Level::Info);
    assert_eq!(logger.level, Level::Info);
    assert!(logger.enabled(Level::Error));
    assert!(logger.enabled(Level::Info));
    assert!(!logger.enabled(Level::Debug));
    assert!(!logger.enabled(Level::Trace));
}

#[test]
fn config_has_its_built_in_title() {
    assert_eq!(Config::load().title, "AlmostRusty");
    assert_eq!(Config::load_from("assets/config/window.toml").ok().unwrap().title, "AlmostRusty");
}
