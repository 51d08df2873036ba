//! The load as a whole, step by step.
//!
//! Reading files, decoding images and making textures is the caller's
//! work. The loader decides what is to be done next: it hands out an
//! action, the caller performs it and hands back what came of it, until
//! the loader finishes with the mesh and its material or fails.

use vstd::prelude::*;
use crate::error::LoadError;
use crate::material_gen::default_material;
use crate::material_gen::filled;
use crate::material_gen::get_material;
use crate::material_gen::lacks_map;
use crate::material_gen::material_of;
use crate::material_gen::with_maps;
use crate::material_gen::Block;
use crate::material_gen::BlockView;
use crate::material_gen::Material;
use crate::material_gen::MaterialView;
use crate::record::Vertex;
use crate::text::ascii;
use crate::text::joined;
use crate::texture::fits;
use crate::texture::placeholder;
use crate::texture::texture_of;
use crate::texture::white_pixel;
use crate::texture::Image;
use crate::texture::Upload;
use crate::texture::UploadView;
use crate::vertex_gen::get_mesh_data;
use crate::vertex_gen::mesh_of;
use crate::vertex_gen::vertices;

verus! {

/// One of the three texture maps of a material.
#[derive(Clone, Copy, Debug, PartialEq, Eq, Structural)]
pub enum Slot {
    Ambient,
    Diffuse,
    Specular,
}

/// The texture handles gathered so far, zero where none is.
#[derive(Clone, Copy, Debug, PartialEq, Eq, Structural)]
pub struct Handles {
    pub ambient: u32,
    pub diffuse: u32,
    pub specular: u32,
}

/// What came of the action that the loader asked for.
pub enum Event {
    /// The bytes of the file.
    Text(Vec<u8>),
    /// The decoded image.
    Picture(Image),
    /// The handle of the texture made.
    Handle(u32),
    /// The file could not be read or decoded.
    Unavailable,
}

/// What the caller is to do next.
pub enum Action {
    /// Read the whole file at this path and answer with its text.
    ReadText(Vec<u8>),
    /// Decode the image file at this path and answer with its pixels.
    DecodeImage(Vec<u8>),
    /// Make this texture and answer with its handle.
    MakeTexture(Upload),
    /// The load is done: the expanded vertices and the material.
    Finish(Vec<Vertex>, Material),
    /// The load has failed.
    Fail(LoadError),
}

/// Where a load stands.
pub enum Loader {
    /// Waiting for the text of the geometry file.
    Geometry,
    /// Waiting for the text of the material library.
    Library { mesh: Vec<Vertex>, name: Vec<u8> },
    /// Waiting for the decoded image of a map.
    Decoding { mesh: Vec<Vertex>, block: Block, handles: Handles, slot: Slot },
    /// Waiting for the handle of a map's texture.
    Uploading { mesh: Vec<Vertex>, block: Block, handles: Handles, slot: Slot },
    /// Waiting for the handle of the placeholder texture.
    Placeholder { mesh: Vec<Vertex>, material: Material },
    /// Finished or failed.
    Closed,
}

/// What an `Event` holds.
pub enum EventView {
    Text(Seq<u8>),
    Picture(Seq<u8>, u32, u32),
    Handle(u32),
    Unavailable,
}

/// What an `Action` holds.
pub enum ActionView {
    ReadText(Seq<u8>),
    DecodeImage(Seq<u8>),
    MakeTexture(UploadView),
    Finish(Seq<Seq<Seq<u8>>>, MaterialView),
    Fail(LoadError),
}

/// What a `Loader` holds.
pub enum LoaderView {
    Geometry,
    Library(Seq<Seq<Seq<u8>>>, Seq<u8>),
    Decoding(Seq<Seq<Seq<u8>>>, BlockView, Handles, Slot),
    Uploading(Seq<Seq<Seq<u8>>>, BlockView, Handles, Slot),
    Placeholder(Seq<Seq<Seq<u8>>>, MaterialView),
    Closed,
}

impl View for Event {
    type V = EventView;

    open spec fn view(&self) -> EventView {
        match *self {
            Event::Text(t) => EventView::Text(t@),
            Event::Picture(i) => EventView::Picture(i.pixels@, i.width, i.height),
            Event::Handle(h) => EventView::Handle(h),
            Event::Unavailable => EventView::Unavailable,
        }
    }
}

impl View for Action {
    type V = ActionView;

    open spec fn view(&self) -> ActionView {
        match *self {
            Action::ReadText(p) => ActionView::ReadText(p@),
            Action::DecodeImage(p) => ActionView::DecodeImage(p@),
            Action::MakeTexture(u) => ActionView::MakeTexture(u@),
            Action::Finish(v, m) => ActionView::Finish(vertices(v@), m@),
            Action::Fail(e) => ActionView::Fail(e),
        }
    }
}

impl View for Loader {
    type V = LoaderView;

    open spec fn view(&self) -> LoaderView {
        match *self {
            Loader::Geometry => LoaderView::Geometry,
            Loader::Library { mesh, name } => LoaderView::Library(vertices(mesh@), name@),
            Loader::Decoding { mesh, block, handles, slot } => LoaderView::Decoding(
                vertices(mesh@),
                block@,
                handles,
                slot,
            ),
            Loader::Uploading { mesh, block, handles, slot } => LoaderView::Uploading(
                vertices(mesh@),
                block@,
                handles,
                slot,
            ),
            Loader::Placeholder { mesh, material } => LoaderView::Placeholder(
                vertices(mesh@),
                material@,
            ),
            Loader::Closed => LoaderView::Closed,
        }
    }
}

/// Where the material library `library` lies.
pub open spec fn library_path(library: Seq<u8>) -> Seq<u8> {
    ascii("material/"@) + library
}

/// Where the image `file` lies.
pub open spec fn image_path(file: Seq<u8>) -> Seq<u8> {
    ascii("texture/"@) + file
}

/// The image file that `block` names for `slot`.
pub open spec fn map_of(block: BlockView, slot: Slot) -> Option<Seq<u8>> {
    match slot {
        Slot::Ambient => block.ambient_map,
        Slot::Diffuse => block.diffuse_map,
        Slot::Specular => block.specular_map,
    }
}

/// The first slot at or after `from` for which `block` names a map.
pub open spec fn first_map(block: BlockView, from: Slot) -> Option<Slot> {
    if from == Slot::Ambient && block.ambient_map is Some {
        Some(Slot::Ambient)
    } else if from != Slot::Specular && block.diffuse_map is Some {
        Some(Slot::Diffuse)
    } else if block.specular_map is Some {
        Some(Slot::Specular)
    } else {
        None
    }
}

/// The first slot after `slot` for which `block` names a map.
pub open spec fn next_map(block: BlockView, slot: Slot) -> Option<Slot> {
    match slot {
        Slot::Ambient => first_map(block, Slot::Diffuse),
        Slot::Diffuse => first_map(block, Slot::Specular),
        Slot::Specular => None,
    }
}

/// `handles` with `handle` in `slot`.
pub open spec fn with_handle(handles: Handles, slot: Slot, handle: u32) -> Handles {
    match slot {
        Slot::Ambient => Handles { ambient: handle, ..handles },
        Slot::Diffuse => Handles { diffuse: handle, ..handles },
        Slot::Specular => Handles { specular: handle, ..handles },
    }
}

/// The end of a load: with every slot filled the material is handed out,
/// else the placeholder is asked for first.
pub open spec fn conclude(mesh: Seq<Seq<Seq<u8>>>, material: MaterialView) -> (
    LoaderView,
    ActionView,
) {
    if lacks_map(material) {
        (LoaderView::Placeholder(mesh, material), ActionView::MakeTexture(white_pixel()))
    } else {
        (LoaderView::Closed, ActionView::Finish(mesh, material))
    }
}

/// What follows once the maps before `pending` are done: the image of
/// `pending` is asked for, or, with no map left, the load concludes.
pub open spec fn proceed(
    mesh: Seq<Seq<Seq<u8>>>,
    block: BlockView,
    handles: Handles,
    pending: Option<Slot>,
) -> (LoaderView, ActionView) {
    match pending {
        Some(slot) => (
            LoaderView::Decoding(mesh, block, handles, slot),
            ActionView::DecodeImage(image_path(map_of(block, slot)->0)),
        ),
        None => conclude(
            mesh,
            with_maps(block, handles.ambient, handles.diffuse, handles.specular),
        ),
    }
}

/// The failure that ends a load.
pub open spec fn fail(e: LoadError) -> (LoaderView, ActionView) {
    (LoaderView::Closed, ActionView::Fail(e))
}

/// What the loader does with an event: where it stands afterwards and
/// what it asks for.
pub open spec fn advance(loader: LoaderView, event: EventView) -> (LoaderView, ActionView) {
    match (loader, event) {
        (LoaderView::Geometry, EventView::Text(text)) => match mesh_of(text) {
            Err(e) => fail(e),
            Ok(mesh) => match mesh.material {
                Some((library, name)) => (
                    LoaderView::Library(mesh.vertices, name),
                    ActionView::ReadText(library_path(library)),
                ),
                None => conclude(mesh.vertices, default_material()),
            },
        },
        (LoaderView::Library(mesh, name), EventView::Text(text)) => match material_of(
            text,
            name,
        ) {
            Err(e) => fail(e),
            Ok(block) => proceed(
                mesh,
                block,
                Handles { ambient: 0, diffuse: 0, specular: 0 },
                first_map(block, Slot::Ambient),
            ),
        },
        (
            LoaderView::Decoding(mesh, block, handles, slot),
            EventView::Picture(pixels, width, height),
        ) => if fits(pixels, width, height) {
            (
                LoaderView::Uploading(mesh, block, handles, slot),
                ActionView::MakeTexture(texture_of(pixels, width, height)),
            )
        } else {
            fail(LoadError::ImageLayout)
        },
        (LoaderView::Uploading(mesh, block, handles, slot), EventView::Handle(handle)) => proceed(
            mesh,
            block,
            with_handle(handles, slot, handle),
            next_map(block, slot),
        ),
        (LoaderView::Placeholder(mesh, material), EventView::Handle(white)) => (
            LoaderView::Closed,
            ActionView::Finish(mesh, filled(material, white)),
        ),
        (LoaderView::Geometry, EventView::Unavailable) => fail(LoadError::Io),
        (LoaderView::Library(_, _), EventView::Unavailable) => fail(LoadError::Io),
        (LoaderView::Decoding(_, _, _, _), EventView::Unavailable) => fail(LoadError::Io),
        _ => fail(LoadError::Protocol),
    }
}

/// A slot that `first_map` or `next_map` finds has a map.
pub proof fn lemma_found_map(block: BlockView, slot: Slot)
    ensures
        first_map(block, slot) is Some ==> map_of(block, first_map(block, slot)->0) is Some,
        next_map(block, slot) is Some ==> map_of(block, next_map(block, slot)->0) is Some,
{
}

/// The material library is asked for at one point only: when the text of
/// the geometry has arrived. It is asked for if and only if that text is a
/// mesh which selects a material, and then by the name of the library that
/// the selection goes with.
pub proof fn lemma_library_read_once(loader: LoaderView, event: EventView)
    ensures
        advance(loader, event).1 is ReadText ==> loader is Geometry && event is Text,
        loader is Geometry && event is Text ==> (advance(loader, event).1 is ReadText <==> mesh_of(
            event->Text_0,
        ) is Ok && mesh_of(event->Text_0)->Ok_0.material is Some),
        advance(loader, event).1 is ReadText ==> advance(loader, event).1->ReadText_0
            == library_path((mesh_of(event->Text_0)->Ok_0.material->0).0),
{
}

/// A load that is closed stays closed, whatever arrives.
pub proof fn lemma_closed_stays(event: EventView)
    ensures
        advance(LoaderView::Closed, event) == fail(LoadError::Protocol),
{
}

/// A material is handed out with every slot filled, unless the uploader
/// answered with the handle zero. The vertices that leave are those that
/// the geometry gave.
pub proof fn lemma_finish(loader: LoaderView, event: EventView)
    requires
        advance(loader, event).1 is Finish,
    ensures
        event is Handle,
        event->Handle_0 != 0 ==> !lacks_map(advance(loader, event).1->Finish_1),
        loader matches LoaderView::Uploading(mesh, _, _, _) ==> advance(loader, event).1->Finish_0
            == mesh,
        loader matches LoaderView::Placeholder(mesh, _) ==> advance(loader, event).1->Finish_0
            == mesh,
{
}

/// The first slot at or after `from` for which `block` names a map.
fn find_map(block: &Block, from: Slot) -> (r: Option<Slot>)
    ensures
        r == first_map(block@, from),
{
    let ambient = match from {
        Slot::Ambient => block.ambient_map.is_some(),
        _ => false,
    };
    let diffuse = match from {
        Slot::Specular => false,
        _ => block.diffuse_map.is_some(),
    };
    if ambient {
        Some(Slot::Ambient)
    } else if diffuse {
        Some(Slot::Diffuse)
    } else if block.specular_map.is_some() {
        Some(Slot::Specular)
    } else {
        None
    }
}

/// The first slot after `slot` for which `block` names a map.
fn find_next_map(block: &Block, slot: Slot) -> (r: Option<Slot>)
    ensures
        r == next_map(block@, slot),
{
    match slot {
        Slot::Ambient => find_map(block, Slot::Diffuse),
        Slot::Diffuse => find_map(block, Slot::Specular),
        Slot::Specular => None,
    }
}

/// The path of the image that `block` names for `slot`.
fn path_of_map(block: &Block, slot: Slot) -> (r: Vec<u8>)
    requires
        map_of(block@, slot) is Some,
    ensures
        r@ == image_path(map_of(block@, slot)->0),
{
    proof {
        reveal_strlit("texture/");
        vstd::string::is_ascii_spec_bytes("texture/");
    }
    let file = match slot {
        Slot::Ambient => &block.ambient_map,
        Slot::Diffuse => &block.diffuse_map,
        Slot::Specular => &block.specular_map,
    };
    match file {
        Some(name) => joined("texture/".as_bytes(), name.as_slice()),
        None => Vec::new(),
    }
}

/// Puts `handle` in `slot`.
fn put_handle(handles: Handles, slot: Slot, handle: u32) -> (r: Handles)
    ensures
        r == with_handle(handles, slot, handle),
{
    match slot {
        Slot::Ambient => Handles { ambient: handle, ..handles },
        Slot::Diffuse => Handles { diffuse: handle, ..handles },
        Slot::Specular => Handles { specular: handle, ..handles },
    }
}

/// Ends the load, by way of the placeholder where a slot is not filled.
fn conclude_with(mesh: Vec<Vertex>, material: Material) -> (r: (Loader, Action))
    ensures
        (r.0@, r.1@) == conclude(vertices(mesh@), material@),
{
    if material.needs_placeholder() {
        (Loader::Placeholder { mesh, material }, Action::MakeTexture(placeholder()))
    } else {
        (Loader::Closed, Action::Finish(mesh, material))
    }
}

/// Asks for the image of `pending` or, with no map left, ends the load.
fn proceed_with(mesh: Vec<Vertex>, block: Block, handles: Handles, pending: Option<Slot>) -> (r: (
    Loader,
    Action,
))
    requires
        pending is Some ==> map_of(block@, pending->0) is Some,
    ensures
        (r.0@, r.1@) == proceed(vertices(mesh@), block@, handles, pending),
{
    match pending {
        Some(slot) => {
            let path = path_of_map(&block, slot);
            (Loader::Decoding { mesh, block, handles, slot }, Action::DecodeImage(path))
        },
        None => conclude_with(
            mesh,
            Material::from_block(block, handles.ambient, handles.diffuse, handles.specular),
        ),
    }
}

impl Loader {
    /// Begins the load of the geometry file at `path`.
    pub fn open(path: &[u8]) -> (r: (Loader, Action))
        ensures
            r.0@ == LoaderView::Geometry,
            r.1@ == ActionView::ReadText(path@),
    {
        (Loader::Geometry, Action::ReadText(vstd::slice::slice_to_vec(path)))
    }

    /// Takes in what came of the last action and says what is to be done
    /// next.
    pub fn step(self, event: Event) -> (r: (Loader, Action))
        ensures
            (r.0@, r.1@) == advance(self@, event@),
    {
        match (self, event) {
            (Loader::Geometry, Event::Text(text)) => match get_mesh_data(text.as_slice()) {
                Err(e) => (Loader::Closed, Action::Fail(e)),
                Ok(mesh) => match mesh.material {
                    Some(request) => {
                        proof {
                            reveal_strlit("material/");
                            vstd::string::is_ascii_spec_bytes("material/");
                        }
                        let path = joined("material/".as_bytes(), request.library.as_slice());
                        (
                            Loader::Library { mesh: mesh.vertices, name: request.name },
                            Action::ReadText(path),
                        )
                    },
                    None => conclude_with(mesh.vertices, Material::default()),
                },
            },
            (Loader::Library { mesh, name }, Event::Text(text)) => match get_material(
                text.as_slice(),
                name.as_slice(),
            ) {
                Err(e) => (Loader::Closed, Action::Fail(e)),
                Ok(block) => {
                    let pending = find_map(&block, Slot::Ambient);
                    proof {
                        lemma_found_map(block@, Slot::Ambient);
                    }
                    proceed_with(
                        mesh,
                        block,
                        Handles { ambient: 0, diffuse: 0, specular: 0 },
                        pending,
                    )
                },
            },
            (Loader::Decoding { mesh, block, handles, slot }, Event::Picture(image)) => {
                match image.into_texture() {
                    Ok(upload) => (
                        Loader::Uploading { mesh, block, handles, slot },
                        Action::MakeTexture(upload),
                    ),
                    Err(e) => (Loader::Closed, Action::Fail(e)),
                }
            },
            (Loader::Uploading { mesh, block, handles, slot }, Event::Handle(handle)) => {
                let pending = find_next_map(&block, slot);
                proof {
                    lemma_found_map(block@, slot);
                }
                proceed_with(mesh, block, put_handle(handles, slot, handle), pending)
            },
            (Loader::Placeholder { mesh, material }, Event::Handle(white)) => (
                Loader::Closed,
                Action::Finish(mesh, material.fill(white)),
            ),
            (Loader::Geometry, Event::Unavailable) => (Loader::Closed, Action::Fail(LoadError::Io)),
            (Loader::Library { .. }, Event::Unavailable) => (
                Loader::Closed,
                Action::Fail(LoadError::Io),
            ),
            (Loader::Decoding { .. }, Event::Unavailable) => (
                Loader::Closed,
                Action::Fail(LoadError::Io),
            ),
            _ => (Loader::Closed, Action::Fail(LoadError::Protocol)),
        }
    }
}

} // verus!
