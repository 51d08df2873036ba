use mesh_loader::error::LoadError;
use mesh_loader::material_gen::find_material;
use mesh_loader::material_gen::get_material;
use mesh_loader::material_gen::Block;
use mesh_loader::material_gen::Material;
use mesh_loader::record::Triple;

fn colour(t: &Triple) -> [f32; 3] {
    [t.x.text(), t.y.text(), t.z.text()]
        .map(|n| std::str::from_utf8(n).unwrap().parse::<f32>().unwrap())
}

fn scalar(block: &Block) -> f32 {
    std::str::from_utf8(block.shininess.text()).unwrap().parse::<f32>().unwrap()
}

const LIBRARY: &str = "# two materials\n\
newmtl Stone\n\
Ka 0.2 0.2 0.2\n\
Kd 0.7 0.7 0.7\n\
Ns 16\n\
\n\
newmtl Crate\n\
Ka 1 1 1\n\
Kd 0.5 0.25 0.125\n\
Ks 0.9 0.8 0.7\n\
Ns 64.5\n\
illum 2\n\
map_Ka crate_ambient.png\n\
map_Kd crate.png\n\
map_Ks crate_specular.png\n";

#[test]
fn sparse_material_keeps_initial_values_where_it_says_nothing() {
    let block = get_material(LIBRARY.as_bytes(), b"Stone").unwrap();
    assert_eq!(colour(&block.ambient), [0.2, 0.2, 0.2]);
    assert_eq!(colour(&block.diffuse), [0.7, 0.7, 0.7]);
    assert_eq!(colour(&block.specular), [1.0, 1.0, 1.0]);
    assert_eq!(scalar(&block), 16.0);
    assert!(block.ambient_map.is_none());
    assert!(block.diffuse_map.is_none());
    assert!(block.specular_map.is_none());
    let material = Material::from_block(block, 0, 0, 0);
    assert!(material.needs_placeholder());
    let material = material.fill(7);
    assert_eq!(
        (material.ambient_map, material.diffuse_map, material.specular_map),
        (7, 7, 7)
    );
    assert_eq!(colour(&material.ambient), [0.2, 0.2, 0.2]);
    assert_eq!(colour(&material.diffuse), [0.7, 0.7, 0.7]);
    assert_eq!(colour(&material.specular), [1.0, 1.0, 1.0]);
}

#[test]
fn full_material_is_read() {
    let block = get_material(LIBRARY.as_bytes(), b"Crate").unwrap();
    assert_eq!(colour(&block.ambient), [1.0, 1.0, 1.0]);
    assert_eq!(colour(&block.diffuse), [0.5, 0.25, 0.125]);
    assert_eq!(colour(&block.specular), [0.9, 0.8, 0.7]);
    assert_eq!(scalar(&block), 64.5);
    assert_eq!(block.ambient_map, Some(b"crate_ambient.png".to_vec()));
    assert_eq!(block.diffuse_map, Some(b"crate.png".to_vec()));
    assert_eq!(block.specular_map, Some(b"crate_specular.png".to_vec()));
}

#[test]
fn missing_material_gets_the_default_values() {
    let block = get_material(LIBRARY.as_bytes(), b"Missing").unwrap();
    assert_eq!(colour(&block.ambient), [0.1, 0.1, 0.1]);
    assert_eq!(colour(&block.diffuse), [0.8, 0.8, 0.8]);
    assert_eq!(colour(&block.specular), [0.5, 0.5, 0.5]);
    assert_eq!(scalar(&block), 32.0);
    let material = Material::from_block(block, 0, 0, 0).fill(3);
    assert_eq!(
        (material.ambient_map, material.diffuse_map, material.specular_map),
        (3, 3, 3)
    );
}

#[test]
fn missing_material_is_told_apart_by_the_lookup() {
    assert!(find_material(LIBRARY.as_bytes(), b"Missing").unwrap().is_none());
    assert!(find_material(LIBRARY.as_bytes(), b"Stone").unwrap().is_some());
    assert!(find_material(b"", b"Stone").unwrap().is_none());
}

#[test]
fn material_without_lines_has_the_initial_values() {
    let block = get_material(b"newmtl Bare\nnewmtl Other\nKa 1 1 1\n", b"Bare").unwrap();
    assert_eq!(colour(&block.ambient), [0.0, 0.0, 0.0]);
    assert_eq!(colour(&block.diffuse), [1.0, 1.0, 1.0]);
    assert_eq!(colour(&block.specular), [1.0, 1.0, 1.0]);
    assert_eq!(scalar(&block), 0.0);
}

#[test]
fn default_material_has_no_maps() {
    let material = Material::default();
    assert_eq!(colour(&material.ambient), [0.1, 0.1, 0.1]);
    assert_eq!(colour(&material.diffuse), [0.8, 0.8, 0.8]);
    assert_eq!(colour(&material.specular), [0.5, 0.5, 0.5]);
    assert_eq!(material.shininess.text(), b"32.0");
    assert!(material.needs_placeholder());
}

#[test]
fn header_must_match_the_whole_line() {
    let text = "newmtl Stonework\nKa 1 1 1\n newmtl Stone\nKa 0.5 0.5 0.5\nnewmtl Stone \nnewmtl  Stone\n";
    assert!(find_material(text.as_bytes(), b"Stone").unwrap().is_none());
}

#[test]
fn first_of_two_materials_of_one_name_is_taken() {
    let text = "newmtl A\nNs 1\nnewmtl A\nNs 2\n";
    assert_eq!(scalar(&get_material(text.as_bytes(), b"A").unwrap()), 1.0);
}

#[test]
fn later_line_overrides_earlier_one() {
    let text = "newmtl A\nNs 1\nmap_Kd a.png\nNs 2\nmap_Kd b.png\n";
    let block = get_material(text.as_bytes(), b"A").unwrap();
    assert_eq!(scalar(&block), 2.0);
    assert_eq!(block.diffuse_map, Some(b"b.png".to_vec()));
}

#[test]
fn material_lines_are_not_trimmed() {
    let text = "newmtl A\n  Ns 5\n\tKa 1 1 1\nNs 7\r\n";
    let block = get_material(text.as_bytes(), b"A").unwrap();
    assert_eq!(scalar(&block), 7.0);
    assert_eq!(colour(&block.ambient), [0.0, 0.0, 0.0]);
}

#[test]
fn errors_outside_the_material_are_not_seen() {
    let text = "Ka bad\nnewmtl Other\nKa bad\nnewmtl A\nNs 5\nnewmtl Next\nNs bad\n";
    assert_eq!(scalar(&get_material(text.as_bytes(), b"A").unwrap()), 5.0);
}

#[test]
fn bad_coefficient_is_a_parse_error() {
    assert_eq!(get_material(b"newmtl A\nKa 0.2 0.2\n", b"A").err(), Some(LoadError::Parse));
    assert_eq!(get_material(b"newmtl A\nKd 1 x 1\n", b"A").err(), Some(LoadError::Parse));
    assert_eq!(get_material(b"newmtl A\nKs\n", b"A").err(), Some(LoadError::Parse));
    assert_eq!(get_material(b"newmtl A\nNs\n", b"A").err(), Some(LoadError::Parse));
    assert_eq!(get_material(b"newmtl A\nNs  1\n", b"A").err(), Some(LoadError::Parse));
    assert_eq!(find_material(b"newmtl A\nNs high\n", b"A").err(), Some(LoadError::Parse));
}

#[test]
fn map_without_file_is_a_parse_error() {
    assert_eq!(get_material(b"newmtl A\nmap_Ka\n", b"A").err(), Some(LoadError::Parse));
    assert_eq!(get_material(b"newmtl A\nmap_Kd\n", b"A").err(), Some(LoadError::Parse));
    assert_eq!(get_material(b"newmtl A\nmap_Ks\n", b"A").err(), Some(LoadError::Parse));
}

#[test]
fn filled_slots_are_kept() {
    let block = get_material(LIBRARY.as_bytes(), b"Crate").unwrap();
    let material = Material::from_block(block, 4, 0, 6);
    assert!(material.needs_placeholder());
    let material = material.fill(9);
    assert_eq!(
        (material.ambient_map, material.diffuse_map, material.specular_map),
        (4, 9, 6)
    );
    assert!(!material.needs_placeholder());
}

#[test]
fn same_library_gives_the_same_coefficients() {
    let first = get_material(LIBRARY.as_bytes(), b"Crate").unwrap();
    let second = get_material(LIBRARY.as_bytes(), b"Crate").unwrap();
    let first = Material::from_block(first, 1, 2, 3).fill(4);
    let second = Material::from_block(second, 11, 12, 0).fill(14);
    assert_eq!(colour(&first.ambient).map(f32::to_bits), colour(&second.ambient).map(f32::to_bits));
    assert_eq!(colour(&first.diffuse).map(f32::to_bits), colour(&second.diffuse).map(f32::to_bits));
    assert_eq!(
        colour(&first.specular).map(f32::to_bits),
        colour(&second.specular).map(f32::to_bits)
    );
    assert_eq!(first.shininess.text(), second.shininess.text());
}
