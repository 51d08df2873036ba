use mesh_loader::error::LoadError;
use mesh_loader::loader::Action;
use mesh_loader::loader::Event;
use mesh_loader::loader::Loader;
use mesh_loader::material_gen::Material;
use mesh_loader::record::Vertex;
use mesh_loader::texture::Image;
use mesh_loader::texture::Layout;
use mesh_loader::texture::Sampling;
use mesh_loader::texture::Upload;

const GEOMETRY: &str = "mtllib scene.mtl\n\
v 0 0 0\nv 1 0 0\nv 0 1 0\n\
vt 0 0\nvt 1 0\nvt 0 1\n\
vn 0 0 1\n\
usemtl Crate\n\
f 1/1/1 2/2/1 3/3/1\n";

/// Stands in for the file system, the decoder and the uploader, and keeps
/// what was asked of it.
struct World {
    library: Option<&'static str>,
    next_handle: u32,
    read: Vec<String>,
    decoded: Vec<String>,
    uploads: Vec<Upload>,
}

fn world(library: Option<&'static str>) -> World {
    World { library, next_handle: 10, read: vec![], decoded: vec![], uploads: vec![] }
}

fn run(world: &mut World, geometry: Option<&str>) -> Result<(Vec<Vertex>, Material), LoadError> {
    let (mut loader, mut action) = Loader::open(b"mesh/cube.obj");
    let mut first = true;
    loop {
        let event = match action {
            Action::ReadText(path) => {
                let path = String::from_utf8(path).unwrap();
                world.read.push(path);
                let text = if first { geometry } else { world.library };
                first = false;
                match text {
                    Some(t) => Event::Text(t.as_bytes().to_vec()),
                    None => Event::Unavailable,
                }
            }
            Action::DecodeImage(path) => {
                let path = String::from_utf8(path).unwrap();
                let event = if path.ends_with("missing.png") {
                    Event::Unavailable
                } else if path.ends_with("short.png") {
                    Event::Picture(Image { pixels: vec![0; 7], width: 1, height: 2 })
                } else {
                    Event::Picture(Image {
                        pixels: vec![1, 1, 1, 1, 2, 2, 2, 2],
                        width: 1,
                        height: 2,
                    })
                };
                world.decoded.push(path);
                event
            }
            Action::MakeTexture(upload) => {
                world.uploads.push(upload);
                world.next_handle += 1;
                Event::Handle(world.next_handle)
            }
            Action::Finish(vertices, material) => return Ok((vertices, material)),
            Action::Fail(e) => return Err(e),
        };
        let next = loader.step(event);
        loader = next.0;
        action = next.1;
    }
}

#[test]
fn load_without_material_uses_the_default_and_the_placeholder() {
    let mut w = world(None);
    let geometry = "v 0 0 0\nvt 0 0\nvn 0 0 1\nf 1/1/1 1/1/1 1/1/1\n";
    let (vertices, material) = run(&mut w, Some(geometry)).unwrap();
    assert_eq!(vertices.len(), 3);
    assert_eq!(w.read, vec!["mesh/cube.obj"]);
    assert!(w.decoded.is_empty());
    assert_eq!(w.uploads.len(), 1);
    assert_eq!(w.uploads[0].pixels, vec![255u8, 255, 255]);
    assert_eq!(w.uploads[0].layout, Layout::Rgb);
    assert_eq!(w.uploads[0].sampling, Sampling::Untouched);
    assert_eq!((material.ambient_map, material.diffuse_map, material.specular_map), (11, 11, 11));
    assert_eq!(material.ambient.x.text(), b"0.1");
    assert_eq!(material.diffuse.y.text(), b"0.8");
    assert_eq!(material.specular.z.text(), b"0.5");
    assert_eq!(material.shininess.text(), b"32.0");
}

#[test]
fn missing_material_yields_defaults_and_the_placeholder_in_every_slot() {
    let mut w = world(Some("newmtl Other\nKa 1 1 1\nmap_Kd other.png\n"));
    let geometry = "mtllib scene.mtl\nusemtl Missing\n";
    let (vertices, material) = run(&mut w, Some(geometry)).unwrap();
    assert!(vertices.is_empty());
    assert_eq!(w.read, vec!["mesh/cube.obj", "material/scene.mtl"]);
    assert!(w.decoded.is_empty());
    assert_eq!(w.uploads.len(), 1);
    assert_eq!((material.ambient_map, material.diffuse_map, material.specular_map), (11, 11, 11));
    assert_eq!(material.ambient.x.text(), b"0.1");
    assert_eq!(material.diffuse.x.text(), b"0.8");
    assert_eq!(material.specular.x.text(), b"0.5");
    assert_eq!(material.shininess.text(), b"32.0");
}

#[test]
fn sparse_material_gets_the_placeholder_in_every_slot() {
    let mut w = world(Some("newmtl Crate\nKa 0.2 0.2 0.2\nKd 0.7 0.7 0.7\nNs 16\n"));
    let (vertices, material) = run(&mut w, Some(GEOMETRY)).unwrap();
    assert_eq!(vertices.len(), 3);
    assert_eq!(w.uploads.len(), 1);
    assert_eq!((material.ambient_map, material.diffuse_map, material.specular_map), (11, 11, 11));
    assert_eq!(material.ambient.x.text(), b"0.2");
    assert_eq!(material.diffuse.x.text(), b"0.7");
    assert_eq!(material.specular.x.text(), b"1.0");
    assert_eq!(material.shininess.text(), b"16");
}

#[test]
fn maps_are_decoded_and_uploaded_in_the_order_of_the_slots() {
    let mut w = world(Some(
        "newmtl Crate\nmap_Ks s.png\nmap_Ka a.png\nmap_Kd old.png\nmap_Kd d.png\n",
    ));
    let (_, material) = run(&mut w, Some(GEOMETRY)).unwrap();
    assert_eq!(w.read, vec!["mesh/cube.obj", "material/scene.mtl"]);
    assert_eq!(w.decoded, vec!["texture/a.png", "texture/d.png", "texture/s.png"]);
    assert_eq!(w.uploads.len(), 3);
    for upload in &w.uploads {
        assert_eq!(upload.pixels, vec![2u8, 2, 2, 2, 1, 1, 1, 1]);
        assert_eq!((upload.width, upload.height), (1, 2));
        assert_eq!(upload.layout, Layout::Rgba);
        assert_eq!(upload.sampling, Sampling::Trilinear);
    }
    assert_eq!((material.ambient_map, material.diffuse_map, material.specular_map), (11, 12, 13));
}

#[test]
fn unfilled_slots_get_the_placeholder_after_the_maps() {
    let mut w = world(Some("newmtl Crate\nmap_Kd d.png\n"));
    let (_, material) = run(&mut w, Some(GEOMETRY)).unwrap();
    assert_eq!(w.decoded, vec!["texture/d.png"]);
    assert_eq!(w.uploads.len(), 2);
    assert_eq!(w.uploads[1].pixels, vec![255u8, 255, 255]);
    assert_eq!((material.ambient_map, material.diffuse_map, material.specular_map), (12, 11, 12));
}

#[test]
fn library_is_read_once_for_the_last_selection() {
    let mut w = world(Some("newmtl Second\nNs 2\nnewmtl First\nNs 1\n"));
    let geometry = "mtllib scene.mtl\nusemtl First\nusemtl Second\n";
    let (_, material) = run(&mut w, Some(geometry)).unwrap();
    assert_eq!(w.read, vec!["mesh/cube.obj", "material/scene.mtl"]);
    assert_eq!(material.shininess.text(), b"2");
}

#[test]
fn unreadable_files_fail_the_load() {
    assert_eq!(run(&mut world(None), None).err(), Some(LoadError::Io));
    assert_eq!(run(&mut world(None), Some(GEOMETRY)).err(), Some(LoadError::Io));
    let mut w = world(Some("newmtl Crate\nmap_Kd missing.png\n"));
    assert_eq!(run(&mut w, Some(GEOMETRY)).err(), Some(LoadError::Io));
    assert!(w.uploads.is_empty());
}

#[test]
fn errors_of_the_texts_fail_the_load() {
    assert_eq!(run(&mut world(None), Some("v 1 2\n")).err(), Some(LoadError::Parse));
    assert_eq!(run(&mut world(None), Some("f 1 2\n")).err(), Some(LoadError::MalformedFace));
    assert_eq!(
        run(&mut world(None), Some("f 1 2 3 4 5\n")).err(),
        Some(LoadError::UnsupportedPolygon)
    );
    assert_eq!(run(&mut world(None), Some("f 1 2 3\n")).err(), Some(LoadError::IndexOutOfRange));
    let mut w = world(Some("newmtl Crate\nKa 1\n"));
    assert_eq!(run(&mut w, Some(GEOMETRY)).err(), Some(LoadError::Parse));
}

#[test]
fn geometry_errors_come_before_the_library_is_read() {
    let mut w = world(Some("newmtl Crate\n"));
    let geometry = "mtllib scene.mtl\nusemtl Crate\nf 1 2\n";
    assert_eq!(run(&mut w, Some(geometry)).err(), Some(LoadError::MalformedFace));
    assert_eq!(w.read, vec!["mesh/cube.obj"]);
}

#[test]
fn picture_of_the_wrong_size_fails_the_load() {
    let mut w = world(Some("newmtl Crate\nmap_Ka short.png\n"));
    assert_eq!(run(&mut w, Some(GEOMETRY)).err(), Some(LoadError::ImageLayout));
}

#[test]
fn answer_that_was_not_asked_for_fails_the_load() {
    let (loader, _) = Loader::open(b"mesh/cube.obj");
    let (loader, action) = loader.step(Event::Handle(1));
    assert!(matches!(action, Action::Fail(LoadError::Protocol)));
    let (_, action) = loader.step(Event::Text(vec![]));
    assert!(matches!(action, Action::Fail(LoadError::Protocol)));
}

#[test]
fn handle_zero_leaves_the_slots_unfilled() {
    let loader = Loader::Placeholder { mesh: vec![], material: Material::default() };
    let (_, action) = loader.step(Event::Handle(0));
    match action {
        Action::Finish(_, material) => assert!(material.needs_placeholder()),
        _ => panic!("the load did not finish"),
    }
}
