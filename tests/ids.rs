use asset_generator::assets::{load_shader_program_assets, ShaderProgramMeta};
use asset_generator::ids::{AssetError, IdLookupTable, MAX_ASSETS};

fn ids(names: &[&str]) -> Vec<String> {
    names.iter().map(|s| s.to_string()).collect()
}

#[test]
fn ids_are_assigned_in_input_order() {
    let t = IdLookupTable::build(&ids(&["a", "b", "c"])).ok().unwrap();
    assert_eq!(t.len(), 3);
    assert_eq!(t.get(&"a".to_string()), Some(0));
    assert_eq!(t.get(&"b".to_string()), Some(1));
    assert_eq!(t.get(&"c".to_string()), Some(2));
    assert_eq!(t.get(&"d".to_string()), None);
}

#[test]
fn capacity_boundary() {
    let full: Vec<String> = (0..255).map(|i| format!("asset{}", i)).collect();
    assert_eq!(IdLookupTable::build(&full).err(), Some(AssetError::CapacityExceeded));
    let fits: Vec<String> = (0..254).map(|i| format!("asset{}", i)).collect();
    let t = IdLookupTable::build(&fits).ok().unwrap();
    assert_eq!(t.len(), 254);
    for (i, name) in fits.iter().enumerate() {
        assert_eq!(t.get(name), Some(i as u8));
    }
}

#[test]
fn capacity_check_comes_first() {
    assert_eq!(MAX_ASSETS, 255);
    assert!(IdLookupTable::check_capacity(0).is_ok());
    assert!(IdLookupTable::check_capacity(254).is_ok());
    assert_eq!(IdLookupTable::check_capacity(255).err(), Some(AssetError::CapacityExceeded));
}

#[test]
fn empty_list_gives_empty_table() {
    let t = IdLookupTable::build(&Vec::new()).ok().unwrap();
    assert_eq!(t.len(), 0);
    assert_eq!(t.get(&"a".to_string()), None);
}

#[test]
fn repeated_id_overwrites_its_entry() {
    let t = IdLookupTable::build(&ids(&["a", "a", "b"])).ok().unwrap();
    assert_eq!(t.len(), 2);
    assert_eq!(t.get(&"a".to_string()), Some(1));
    assert_eq!(t.get(&"b".to_string()), Some(1));
}

fn program(id: &str, v: &str, f: &str) -> ShaderProgramMeta {
    ShaderProgramMeta {
        id: id.to_string(),
        vertex_shader_id: v.to_string(),
        fragment_shader_id: f.to_string(),
    }
}

#[test]
fn shader_programs_are_numbered_and_kept() {
    let metas = vec![program("basic", "tri_v", "tri_f"), program("sky", "sky_v", "sky_f")];
    let (table, assets) = load_shader_program_assets(&metas).ok().unwrap();
    assert_eq!(table.get(&"basic".to_string()), Some(0));
    assert_eq!(table.get(&"sky".to_string()), Some(1));
    assert_eq!(assets.len(), 2);
    assert_eq!(assets[1].vertex_shader_id, "sky_v");
    assert_eq!(assets[1].fragment_shader_id, "sky_f");
}

#[test]
fn too_many_shader_programs_fail() {
    let metas: Vec<ShaderProgramMeta> =
        (0..255).map(|i| program(&format!("p{}", i), "v", "f")).collect();
    assert_eq!(load_shader_program_assets(&metas).err(), Some(AssetError::CapacityExceeded));
}
