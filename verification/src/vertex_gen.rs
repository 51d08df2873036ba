//! The geometry resolver: from the text of a geometry file to a flat
//! sequence of expanded vertices.

use vstd::prelude::*;
use crate::error::LoadError;
use crate::number::index_value;
use crate::number::is_index;
use crate::number::parse_index;
use crate::record::numbers;
use crate::record::read_pair;
use crate::record::read_triple;
use crate::record::Pair;
use crate::record::Triple;
use crate::record::Vertex;
use crate::text::ascii;
use crate::text::is_word;
use crate::text::lines;
use crate::text::split;
use crate::text::split_lines;
use crate::text::split_on;
use crate::text::trim;
use crate::text::trimmed;
use crate::text::views;
use crate::text::SLASH;
use crate::text::SPACE;

verus! {

/// One corner of a face: where its position, its texture coordinate and
/// its normal stand in their pools, counted from one. Zero means unset.
#[derive(Clone, Copy, Debug, PartialEq, Eq, Structural)]
pub struct Corner {
    pub position: u32,
    pub tex: u32,
    pub normal: u32,
}

/// What one part of a corner says: nothing written is zero, an index is
/// its value, anything else is an error.
pub open spec fn part_value(part: Seq<u8>) -> Option<u32> {
    if part.len() == 0 {
        Some(0u32)
    } else if is_index(part) {
        Some(index_value(part) as u32)
    } else {
        None
    }
}

/// The part of a corner at place `i`, zero where the corner has fewer
/// parts.
pub open spec fn part_at(parts: Seq<Seq<u8>>, i: int) -> Option<u32> {
    if i < parts.len() {
        part_value(parts[i])
    } else {
        Some(0u32)
    }
}

/// The corner that `token` writes: up to three parts between slashes.
/// `None` where it has more than three parts or a part is no index.
pub open spec fn corner_of(token: Seq<u8>) -> Option<Corner> {
    let parts = split(token, SLASH);
    if parts.len() <= 3 && part_at(parts, 0) is Some && part_at(parts, 1) is Some && part_at(
        parts,
        2,
    ) is Some {
        Some(
            Corner {
                position: part_at(parts, 0)->0,
                tex: part_at(parts, 1)->0,
                normal: part_at(parts, 2)->0,
            },
        )
    } else {
        None
    }
}

/// The corners that `tokens` write, `None` where one of them writes none.
pub open spec fn corners_of(tokens: Seq<Seq<u8>>) -> Option<Seq<Corner>> {
    if forall|i: int| 0 <= i < tokens.len() ==> (#[trigger] corner_of(tokens[i])) is Some {
        Some(Seq::new(tokens.len(), |i: int| corner_of(tokens[i])->0))
    } else {
        None
    }
}

/// The corners of the triangles that a face stands for. A triangle is
/// itself; a quad `a b c d` is the fan `a b c`, `c d a`.
pub open spec fn triangulate(face: Seq<Corner>) -> Result<Seq<Corner>, LoadError> {
    if face.len() < 3 {
        Err(LoadError::MalformedFace)
    } else if face.len() == 3 {
        Ok(face)
    } else if face.len() == 4 {
        Ok(seq![face[0], face[1], face[2], face[2], face[3], face[0]])
    } else {
        Err(LoadError::UnsupportedPolygon)
    }
}

/// The element that the one-based `index` picks from `pool`.
pub open spec fn lookup<T>(pool: Seq<T>, index: u32) -> Option<T> {
    if 1 <= index <= pool.len() {
        Some(pool[index - 1])
    } else {
        None
    }
}

/// A triangular face yields its three corners, in the order given.
pub proof fn lemma_triangle_kept(face: Seq<Corner>)
    requires
        face.len() == 3,
    ensures
        triangulate(face) == Ok::<Seq<Corner>, LoadError>(face),
{
}

/// A quad `a b c d` yields six corners, the triangles `a b c` and `c d a`.
pub proof fn lemma_quad_fanned(a: Corner, b: Corner, c: Corner, d: Corner)
    ensures
        triangulate(seq![a, b, c, d]) == Ok::<Seq<Corner>, LoadError>(seq![a, b, c, c, d, a]),
        triangulate(seq![a, b, c, d])->Ok_0.len() == 6,
{
    let face = seq![a, b, c, d];
    assert(triangulate(face)->Ok_0 =~= seq![a, b, c, c, d, a]);
}

/// A face of fewer than three or more than four corners yields an error,
/// never corners.
pub proof fn lemma_other_faces_fail(face: Seq<Corner>)
    requires
        face.len() < 3 || face.len() > 4,
    ensures
        triangulate(face) is Err,
        face.len() < 3 ==> triangulate(face) == Err::<Seq<Corner>, LoadError>(
            LoadError::MalformedFace,
        ),
        face.len() > 4 ==> triangulate(face) == Err::<Seq<Corner>, LoadError>(
            LoadError::UnsupportedPolygon,
        ),
{
}

/// An index from one to the pool's length picks the element before it;
/// zero and anything behind the pool pick nothing.
pub proof fn lemma_lookup<T>(pool: Seq<T>, index: u32)
    ensures
        1 <= index <= pool.len() ==> lookup(pool, index) == Some(pool[index - 1]),
        index == 0 || index > pool.len() ==> lookup(pool, index) is None,
{
}

/// Reads one part of a corner.
fn read_part(parts: &Vec<Vec<u8>>, i: usize) -> (r: Option<u32>)
    ensures
        r == part_at(views(parts@), i as int),
{
    if i < parts.len() {
        let part = parts[i].as_slice();
        if part.len() == 0 {
            Some(0)
        } else {
            parse_index(part)
        }
    } else {
        Some(0)
    }
}

/// Reads the corner that `token` writes.
pub fn read_corner(token: &[u8]) -> (r: Option<Corner>)
    ensures
        r == corner_of(token@),
{
    let parts = split_on(token, SLASH);
    if parts.len() > 3 {
        return None;
    }
    match (read_part(&parts, 0), read_part(&parts, 1), read_part(&parts, 2)) {
        (Some(position), Some(tex), Some(normal)) => Some(Corner { position, tex, normal }),
        _ => None,
    }
}

/// Reads the corners that the fields after the first write.
fn read_corners(fields: &Vec<Vec<u8>>) -> (r: Option<Vec<Corner>>)
    requires
        fields@.len() > 0,
    ensures
        r is Some <==> corners_of(views(fields@).skip(1)) is Some,
        r is Some ==> r->0@ == corners_of(views(fields@).skip(1))->0,
{
    let ghost tokens = views(fields@).skip(1);
    let mut out: Vec<Corner> = Vec::new();
    let mut i: usize = 1;
    while i < fields.len()
        invariant
            1 <= i <= fields@.len(),
            tokens == views(fields@).skip(1),
            out@.len() == i - 1,
            forall|j: int| 0 <= j < i - 1 ==> (#[trigger] corner_of(tokens[j])) == Some(out@[j]),
        decreases fields@.len() - i,
    {
        assert(tokens[i - 1] == fields@[i as int]@);
        match read_corner(fields[i].as_slice()) {
            Some(corner) => {
                out.push(corner);
            },
            None => {
                assert(corner_of(tokens[i - 1]) is None);
                return None;
            },
        }
        i = i + 1;
    }
    assert(out@ =~= corners_of(tokens)->0);
    Some(out)
}

/// Turns the corners of one face into those of its triangles.
pub fn fan(face: &Vec<Corner>) -> (r: Result<Vec<Corner>, LoadError>)
    ensures
        r is Ok <==> triangulate(face@) is Ok,
        r is Ok ==> r->Ok_0@ == triangulate(face@)->Ok_0,
        r is Err ==> triangulate(face@) == Err::<Seq<Corner>, LoadError>(r->Err_0),
{
    let n = face.len();
    if n < 3 {
        Err(LoadError::MalformedFace)
    } else if n == 3 {
        let out: Vec<Corner> = vec![face[0], face[1], face[2]];
        assert(out@ =~= face@);
        Ok(out)
    } else if n == 4 {
        let out: Vec<Corner> = vec![face[0], face[1], face[2], face[2], face[3], face[0]];
        assert(out@ =~= triangulate(face@)->Ok_0);
        Ok(out)
    } else {
        Err(LoadError::UnsupportedPolygon)
    }
}

/// The material that a geometry file selects: the library it named last
/// before the selection, and the material's name.
pub struct MaterialRequest {
    pub library: Vec<u8>,
    pub name: Vec<u8>,
}

impl View for MaterialRequest {
    type V = (Seq<u8>, Seq<u8>);

    open spec fn view(&self) -> (Seq<u8>, Seq<u8>) {
        (self.library@, self.name@)
    }
}

/// What the lines read so far have gathered.
pub struct Scan {
    pub positions: Seq<Seq<Seq<u8>>>,
    pub tex_coords: Seq<Seq<Seq<u8>>>,
    pub normals: Seq<Seq<Seq<u8>>>,
    pub corners: Seq<Corner>,
    pub library: Seq<u8>,
    pub material: Option<(Seq<u8>, Seq<u8>)>,
}

/// Nothing gathered yet.
pub open spec fn empty_scan() -> Scan {
    Scan {
        positions: Seq::empty(),
        tex_coords: Seq::empty(),
        normals: Seq::empty(),
        corners: Seq::empty(),
        library: Seq::empty(),
        material: None,
    }
}

/// What one line adds. The line is trimmed and cut at every space; its
/// first field says what it is. A line of any other kind adds nothing.
pub open spec fn step(scan: Scan, line: Seq<u8>) -> Result<Scan, LoadError> {
    let fields = split(trim(line), SPACE);
    let head = fields[0];
    if head == ascii("mtllib"@) {
        if fields.len() >= 2 {
            Ok(Scan { library: fields[1], ..scan })
        } else {
            Err(LoadError::Parse)
        }
    } else if head == ascii("usemtl"@) {
        if fields.len() >= 2 {
            Ok(Scan { material: Some((scan.library, fields[1])), ..scan })
        } else {
            Err(LoadError::Parse)
        }
    } else if head == ascii("v"@) {
        match numbers(fields, 3) {
            Some(n) => Ok(Scan { positions: scan.positions.push(n), ..scan }),
            None => Err(LoadError::Parse),
        }
    } else if head == ascii("vt"@) {
        match numbers(fields, 2) {
            Some(n) => Ok(Scan { tex_coords: scan.tex_coords.push(n), ..scan }),
            None => Err(LoadError::Parse),
        }
    } else if head == ascii("vn"@) {
        match numbers(fields, 3) {
            Some(n) => Ok(Scan { normals: scan.normals.push(n), ..scan }),
            None => Err(LoadError::Parse),
        }
    } else if head == ascii("f"@) {
        match corners_of(fields.skip(1)) {
            None => Err(LoadError::Parse),
            Some(face) => match triangulate(face) {
                Err(e) => Err(e),
                Ok(corners) => Ok(Scan { corners: scan.corners + corners, ..scan }),
            },
        }
    } else {
        Ok(scan)
    }
}

/// What the lines gather, read in order; the first line that fails ends
/// the scan with its error.
pub open spec fn scan_lines(lines: Seq<Seq<u8>>) -> Result<Scan, LoadError>
    decreases lines.len(),
{
    if lines.len() == 0 {
        Ok(empty_scan())
    } else {
        match scan_lines(lines.drop_last()) {
            Err(e) => Err(e),
            Ok(scan) => step(scan, lines.last()),
        }
    }
}

/// The views of the triples in `v`.
pub open spec fn triples(v: Seq<Triple>) -> Seq<Seq<Seq<u8>>> {
    v.map_values(|t: Triple| t@)
}

/// The views of the pairs in `v`.
pub open spec fn pairs(v: Seq<Pair>) -> Seq<Seq<Seq<u8>>> {
    v.map_values(|t: Pair| t@)
}

/// The views of the vertices in `v`.
pub open spec fn vertices(v: Seq<Vertex>) -> Seq<Seq<Seq<u8>>> {
    v.map_values(|t: Vertex| t@)
}

/// The attribute pools and the face corners, as the scan fills them.
pub struct Pools {
    pub positions: Vec<Triple>,
    pub tex_coords: Vec<Pair>,
    pub normals: Vec<Triple>,
    pub corners: Vec<Corner>,
    pub library: Vec<u8>,
    pub material: Option<MaterialRequest>,
}

impl View for Pools {
    type V = Scan;

    open spec fn view(&self) -> Scan {
        Scan {
            positions: triples(self.positions@),
            tex_coords: pairs(self.tex_coords@),
            normals: triples(self.normals@),
            corners: self.corners@,
            library: self.library@,
            material: match self.material {
                Some(m) => Some(m@),
                None => None,
            },
        }
    }
}

impl Pools {
    /// Pools that hold nothing.
    pub fn new() -> (r: Pools)
        ensures
            r@ == empty_scan(),
    {
        let r = Pools {
            positions: Vec::new(),
            tex_coords: Vec::new(),
            normals: Vec::new(),
            corners: Vec::new(),
            library: Vec::new(),
            material: None,
        };
        assert(r@.positions =~= Seq::empty());
        assert(r@.tex_coords =~= Seq::empty());
        assert(r@.normals =~= Seq::empty());
        r
    }

    /// Takes in one line.
    pub fn read_line(self, line: &[u8]) -> (r: Result<Pools, LoadError>)
        ensures
            r is Ok ==> step(self@, line@) == Ok::<Scan, LoadError>(r->Ok_0@),
            r is Err ==> step(self@, line@) == Err::<Scan, LoadError>(r->Err_0),
    {
        let mut pools = self;
        let body = trimmed(line);
        let fields = split_on(body.as_slice(), SPACE);
        proof {
            reveal_strlit("mtllib");
            reveal_strlit("usemtl");
            reveal_strlit("v");
            reveal_strlit("vt");
            reveal_strlit("vn");
            reveal_strlit("f");
            crate::text::lemma_split_nonempty(body@, SPACE);
        }
        let head = fields[0].as_slice();
        if is_word(head, "mtllib") {
            if fields.len() >= 2 {
                pools.library = vstd::slice::slice_to_vec(fields[1].as_slice());
                Ok(pools)
            } else {
                Err(LoadError::Parse)
            }
        } else if is_word(head, "usemtl") {
            if fields.len() >= 2 {
                pools.material = Some(
                    MaterialRequest {
                        library: vstd::slice::slice_to_vec(pools.library.as_slice()),
                        name: vstd::slice::slice_to_vec(fields[1].as_slice()),
                    },
                );
                Ok(pools)
            } else {
                Err(LoadError::Parse)
            }
        } else if is_word(head, "v") {
            match read_triple(&fields) {
                Some(t) => {
                    pools.positions.push(t);
                    assert(pools@.positions =~= self@.positions.push(t@));
                    Ok(pools)
                },
                None => Err(LoadError::Parse),
            }
        } else if is_word(head, "vt") {
            match read_pair(&fields) {
                Some(t) => {
                    pools.tex_coords.push(t);
                    assert(pools@.tex_coords =~= self@.tex_coords.push(t@));
                    Ok(pools)
                },
                None => Err(LoadError::Parse),
            }
        } else if is_word(head, "vn") {
            match read_triple(&fields) {
                Some(t) => {
                    pools.normals.push(t);
                    assert(pools@.normals =~= self@.normals.push(t@));
                    Ok(pools)
                },
                None => Err(LoadError::Parse),
            }
        } else if is_word(head, "f") {
            match read_corners(&fields) {
                None => Err(LoadError::Parse),
                Some(face) => match fan(&face) {
                    Err(e) => Err(e),
                    Ok(corners) => {
                        let mut corners = corners;
                        let ghost added = corners@;
                        pools.corners.append(&mut corners);
                        assert(pools@.corners =~= self@.corners + added);
                        Ok(pools)
                    },
                },
            }
        } else {
            Ok(pools)
        }
    }
}

/// The vertex that a corner stands for: its position, its texture
/// coordinate and its normal, each picked from its pool. `None` where one
/// of the three indices picks nothing.
pub open spec fn resolve(scan: Scan, corner: Corner) -> Option<Seq<Seq<u8>>> {
    match (
        lookup(scan.positions, corner.position),
        lookup(scan.tex_coords, corner.tex),
        lookup(scan.normals, corner.normal),
    ) {
        (Some(p), Some(t), Some(n)) => Some(p + t + n),
        _ => None,
    }
}

/// One vertex for every corner, in the corners' order. An error where a
/// corner cannot be resolved.
pub open spec fn expand(scan: Scan) -> Result<Seq<Seq<Seq<u8>>>, LoadError> {
    if forall|i: int|
        0 <= i < scan.corners.len() ==> (#[trigger] resolve(scan, scan.corners[i])) is Some {
        Ok(Seq::new(scan.corners.len(), |i: int| resolve(scan, scan.corners[i])->0))
    } else {
        Err(LoadError::IndexOutOfRange)
    }
}

/// What a geometry file holds: its expanded vertices, eight numbers each,
/// and the material it selects, if it selects one.
pub struct MeshView {
    pub vertices: Seq<Seq<Seq<u8>>>,
    pub material: Option<(Seq<u8>, Seq<u8>)>,
}

/// The mesh that the text of a geometry file describes. All lines are
/// read before any corner is resolved, so a line that fails is reported
/// before a corner that cannot be resolved.
pub open spec fn mesh_of(text: Seq<u8>) -> Result<MeshView, LoadError> {
    match scan_lines(lines(text)) {
        Err(e) => Err(e),
        Ok(scan) => match expand(scan) {
            Err(e) => Err(e),
            Ok(vertices) => Ok(MeshView { vertices, material: scan.material }),
        },
    }
}

/// A mesh ready for the renderer.
pub struct Mesh {
    pub vertices: Vec<Vertex>,
    pub material: Option<MaterialRequest>,
}

impl View for Mesh {
    type V = MeshView;

    open spec fn view(&self) -> MeshView {
        MeshView {
            vertices: vertices(self.vertices@),
            material: match self.material {
                Some(m) => Some(m@),
                None => None,
            },
        }
    }
}

/// A face line of three corners adds exactly these three, in the order
/// written, behind the corners gathered before.
pub proof fn lemma_triangle_line(scan: Scan, line: Seq<u8>, a: Corner, b: Corner, c: Corner)
    requires
        split(trim(line), SPACE)[0] == ascii("f"@),
        corners_of(split(trim(line), SPACE).skip(1)) == Some(seq![a, b, c]),
    ensures
        step(scan, line) is Ok,
        step(scan, line)->Ok_0 == (Scan { corners: scan.corners + seq![a, b, c], ..scan }),
{
    reveal_strlit("f");
    reveal_strlit("mtllib");
    reveal_strlit("usemtl");
    reveal_strlit("v");
    reveal_strlit("vt");
    reveal_strlit("vn");
    let head = split(trim(line), SPACE)[0];
    assert(head.len() == 1);
    assert(head[0] == 'f' as u8);
    assert(head != ascii("mtllib"@));
    assert(head != ascii("usemtl"@));
    assert(ascii("v"@)[0] != head[0]);
    assert(ascii("vt"@).len() != head.len());
    assert(ascii("vn"@).len() != head.len());
}

/// A face line of four corners `a b c d` adds six: `a b c`, then `c d a`.
pub proof fn lemma_quad_line(
    scan: Scan,
    line: Seq<u8>,
    a: Corner,
    b: Corner,
    c: Corner,
    d: Corner,
)
    requires
        split(trim(line), SPACE)[0] == ascii("f"@),
        corners_of(split(trim(line), SPACE).skip(1)) == Some(seq![a, b, c, d]),
    ensures
        step(scan, line) is Ok,
        step(scan, line)->Ok_0 == (Scan {
            corners: scan.corners + seq![a, b, c, c, d, a],
            ..scan
        }),
{
    reveal_strlit("f");
    reveal_strlit("mtllib");
    reveal_strlit("usemtl");
    reveal_strlit("v");
    reveal_strlit("vt");
    reveal_strlit("vn");
    let head = split(trim(line), SPACE)[0];
    assert(head.len() == 1);
    assert(head[0] == 'f' as u8);
    assert(head != ascii("mtllib"@));
    assert(head != ascii("usemtl"@));
    assert(ascii("v"@)[0] != head[0]);
    assert(ascii("vt"@).len() != head.len());
    assert(ascii("vn"@).len() != head.len());
    lemma_quad_fanned(a, b, c, d);
}

/// A face line of fewer than three or more than four corners fails, and
/// with it the whole mesh: no vertex of it or of any other face is handed
/// out.
pub proof fn lemma_bad_face_fails(text: Seq<u8>, n: int)
    requires
        0 <= n < lines(text).len(),
        scan_lines(lines(text).take(n)) is Ok,
        split(trim(lines(text)[n]), SPACE)[0] == ascii("f"@),
        corners_of(split(trim(lines(text)[n]), SPACE).skip(1)) is Some,
        ({
            let count = corners_of(split(trim(lines(text)[n]), SPACE).skip(1))->0.len();
            count < 3 || count > 4
        }),
    ensures
        mesh_of(text) is Err,
        corners_of(split(trim(lines(text)[n]), SPACE).skip(1))->0.len() < 3 ==> mesh_of(text)
            == Err::<MeshView, LoadError>(LoadError::MalformedFace),
        corners_of(split(trim(lines(text)[n]), SPACE).skip(1))->0.len() > 4 ==> mesh_of(text)
            == Err::<MeshView, LoadError>(LoadError::UnsupportedPolygon),
{
    reveal_strlit("f");
    reveal_strlit("mtllib");
    reveal_strlit("usemtl");
    reveal_strlit("v");
    reveal_strlit("vt");
    reveal_strlit("vn");
    let all = lines(text);
    let head = split(trim(all[n]), SPACE)[0];
    assert(head.len() == 1);
    assert(head[0] == 'f' as u8);
    assert(head != ascii("mtllib"@));
    assert(head != ascii("usemtl"@));
    assert(ascii("v"@)[0] != head[0]);
    assert(ascii("vt"@).len() != head.len());
    assert(ascii("vn"@).len() != head.len());
    assert(all.take(n + 1).drop_last() =~= all.take(n));
    assert(all.take(n + 1).last() == all[n]);
    assert(scan_lines(all.take(n + 1)) is Err);
    lemma_scan_error_stays(all, n + 1);
}

/// The same text describes the same mesh: two loads of it cannot differ
/// in any vertex or in the material selected.
pub proof fn lemma_same_text_same_mesh(text: Seq<u8>, first: MeshView, second: MeshView)
    requires
        mesh_of(text) == Ok::<MeshView, LoadError>(first),
        mesh_of(text) == Ok::<MeshView, LoadError>(second),
    ensures
        first == second,
{
}

/// What one line adds is a whole number of triangles.
pub proof fn lemma_step_triangles(scan: Scan, line: Seq<u8>)
    requires
        scan.corners.len() % 3 == 0,
        step(scan, line) is Ok,
    ensures
        step(scan, line)->Ok_0.corners.len() % 3 == 0,
{
}

/// The corners gathered from any lines form whole triangles.
pub proof fn lemma_scan_triangles(lines: Seq<Seq<u8>>)
    requires
        scan_lines(lines) is Ok,
    ensures
        scan_lines(lines)->Ok_0.corners.len() % 3 == 0,
    decreases lines.len(),
{
    if lines.len() > 0 {
        lemma_scan_triangles(lines.drop_last());
        lemma_step_triangles(scan_lines(lines.drop_last())->Ok_0, lines.last());
    }
}

/// A mesh has three vertices for every triangle, and vertex `i` is what
/// corner `i` resolves to.
pub proof fn lemma_mesh_in_order(text: Seq<u8>)
    requires
        mesh_of(text) is Ok,
    ensures
        scan_lines(lines(text)) is Ok,
        mesh_of(text)->Ok_0.vertices.len() == scan_lines(lines(text))->Ok_0.corners.len(),
        mesh_of(text)->Ok_0.vertices.len() % 3 == 0,
        forall|i: int|
            0 <= i < mesh_of(text)->Ok_0.vertices.len() ==> Some(
                #[trigger] mesh_of(text)->Ok_0.vertices[i],
            ) == resolve(
                scan_lines(lines(text))->Ok_0,
                scan_lines(lines(text))->Ok_0.corners[i],
            ),
{
    lemma_scan_triangles(lines(text));
}

/// One quad whose corners all resolve expands to six vertices whose
/// positions are those of the triangles `a b c` and `c d a`.
pub proof fn lemma_quad_positions(scan: Scan, a: Corner, b: Corner, c: Corner, d: Corner)
    requires
        scan.corners == seq![a, b, c, c, d, a],
        expand(scan) is Ok,
        forall|i: int| 0 <= i < scan.tex_coords.len() ==> (#[trigger] scan.tex_coords[i]).len() == 2,
        forall|i: int| 0 <= i < scan.positions.len() ==> (#[trigger] scan.positions[i]).len() == 3,
    ensures
        expand(scan)->Ok_0.len() == 6,
        expand(scan)->Ok_0[0].take(3) == scan.positions[a.position - 1],
        expand(scan)->Ok_0[1].take(3) == scan.positions[b.position - 1],
        expand(scan)->Ok_0[2].take(3) == scan.positions[c.position - 1],
        expand(scan)->Ok_0[3].take(3) == scan.positions[c.position - 1],
        expand(scan)->Ok_0[4].take(3) == scan.positions[d.position - 1],
        expand(scan)->Ok_0[5].take(3) == scan.positions[a.position - 1],
{
    let out = expand(scan)->Ok_0;
    assert forall|i: int| 0 <= i < 6 implies (#[trigger] out[i]).take(3) == scan.positions[
        scan.corners[i].position - 1
    ] by {
        let corner = scan.corners[i];
        assert(resolve(scan, scan.corners[i]) is Some);
        let p = lookup(scan.positions, corner.position)->0;
        let t = lookup(scan.tex_coords, corner.tex)->0;
        let n = lookup(scan.normals, corner.normal)->0;
        assert(out[i] == p + t + n);
        assert(p == scan.positions[corner.position - 1]);
        assert(p.len() == 3);
        assert((p + t + n).take(3) =~= p);
    }
    assert(out[0].take(3) == scan.positions[scan.corners[0].position - 1]);
    assert(out[1].take(3) == scan.positions[scan.corners[1].position - 1]);
    assert(out[2].take(3) == scan.positions[scan.corners[2].position - 1]);
    assert(out[3].take(3) == scan.positions[scan.corners[3].position - 1]);
    assert(out[4].take(3) == scan.positions[scan.corners[4].position - 1]);
    assert(out[5].take(3) == scan.positions[scan.corners[5].position - 1]);
}

impl Pools {
    /// Picks the position at the one-based `index`.
    fn position(&self, index: u32) -> (r: Option<Triple>)
        ensures
            r is Some <==> lookup(self@.positions, index) is Some,
            r is Some ==> r->0@ == lookup(self@.positions, index)->0,
    {
        if 1 <= index && index as usize <= self.positions.len() {
            Some(self.positions[index as usize - 1].clone())
        } else {
            None
        }
    }

    /// Picks the texture coordinate at the one-based `index`.
    fn tex_coord(&self, index: u32) -> (r: Option<Pair>)
        ensures
            r is Some <==> lookup(self@.tex_coords, index) is Some,
            r is Some ==> r->0@ == lookup(self@.tex_coords, index)->0,
    {
        if 1 <= index && index as usize <= self.tex_coords.len() {
            Some(self.tex_coords[index as usize - 1].clone())
        } else {
            None
        }
    }

    /// Picks the normal at the one-based `index`.
    fn normal(&self, index: u32) -> (r: Option<Triple>)
        ensures
            r is Some <==> lookup(self@.normals, index) is Some,
            r is Some ==> r->0@ == lookup(self@.normals, index)->0,
    {
        if 1 <= index && index as usize <= self.normals.len() {
            Some(self.normals[index as usize - 1].clone())
        } else {
            None
        }
    }

    /// Resolves one corner against the pools.
    pub fn vertex(&self, corner: Corner) -> (r: Option<Vertex>)
        ensures
            r is Some <==> resolve(self@, corner) is Some,
            r is Some ==> r->0@ == resolve(self@, corner)->0,
    {
        match (self.position(corner.position), self.tex_coord(corner.tex), self.normal(
            corner.normal,
        )) {
            (Some(position), Some(tex), Some(normal)) => Some(Vertex { position, tex, normal }),
            _ => None,
        }
    }

    /// Resolves every corner, in order.
    pub fn expanded(&self) -> (r: Result<Vec<Vertex>, LoadError>)
        ensures
            r is Ok ==> expand(self@) == Ok::<Seq<Seq<Seq<u8>>>, LoadError>(vertices(r->Ok_0@)),
            r is Err ==> expand(self@) == Err::<Seq<Seq<Seq<u8>>>, LoadError>(r->Err_0),
    {
        let mut out: Vec<Vertex> = Vec::new();
        let mut i: usize = 0;
        while i < self.corners.len()
            invariant
                i <= self.corners@.len(),
                out@.len() == i,
                forall|j: int|
                    0 <= j < i ==> (#[trigger] resolve(self@, self@.corners[j])) == Some(out@[j]@),
            decreases self.corners@.len() - i,
        {
            match self.vertex(self.corners[i]) {
                Some(v) => {
                    out.push(v);
                },
                None => {
                    assert(resolve(self@, self@.corners[i as int]) is None);
                    return Err(LoadError::IndexOutOfRange);
                },
            }
            i = i + 1;
        }
        assert(vertices(out@) =~= expand(self@)->Ok_0);
        Ok(out)
    }
}

/// Reads every line of `lines` into the pools.
fn read_lines(lines: &Vec<Vec<u8>>) -> (r: Result<Pools, LoadError>)
    ensures
        r is Ok ==> scan_lines(views(lines@)) == Ok::<Scan, LoadError>(r->Ok_0@),
        r is Err ==> scan_lines(views(lines@)) == Err::<Scan, LoadError>(r->Err_0),
{
    let mut pools = Pools::new();
    let mut i: usize = 0;
    assert(views(lines@).take(0) =~= Seq::<Seq<u8>>::empty());
    while i < lines.len()
        invariant
            i <= lines@.len(),
            scan_lines(views(lines@).take(i as int)) == Ok::<Scan, LoadError>(pools@),
        decreases lines@.len() - i,
    {
        let ghost next = views(lines@).take(i + 1);
        assert(next.drop_last() =~= views(lines@).take(i as int));
        assert(next.last() == lines@[i as int]@);
        match pools.read_line(lines[i].as_slice()) {
            Ok(p) => {
                pools = p;
            },
            Err(e) => {
                proof {
                    lemma_scan_error_stays(views(lines@), i + 1);
                }
                return Err(e);
            },
        }
        i = i + 1;
    }
    assert(views(lines@).take(i as int) =~= views(lines@));
    Ok(pools)
}

/// Once a line has failed, the lines after it change nothing.
pub proof fn lemma_scan_error_stays(lines: Seq<Seq<u8>>, n: int)
    requires
        0 <= n <= lines.len(),
        scan_lines(lines.take(n)) is Err,
    ensures
        scan_lines(lines) == scan_lines(lines.take(n)),
    decreases lines.len() - n,
{
    if n == lines.len() {
        assert(lines.take(n) =~= lines);
    } else {
        assert(lines.take(n + 1).drop_last() =~= lines.take(n));
        lemma_scan_error_stays(lines, n + 1);
    }
}

/// Loads the mesh that the text of a geometry file describes: one vertex
/// for every corner of every triangle, in the order of the faces, and the
/// material that the text selects last.
pub fn get_mesh_data(text: &[u8]) -> (r: Result<Mesh, LoadError>)
    ensures
        r is Ok ==> mesh_of(text@) == Ok::<MeshView, LoadError>(r->Ok_0@),
        r is Err ==> mesh_of(text@) == Err::<MeshView, LoadError>(r->Err_0),
        r is Ok ==> r->Ok_0.vertices@.len() % 3 == 0,
{
    let lines = split_lines(text);
    match read_lines(&lines) {
        Err(e) => Err(e),
        Ok(pools) => match pools.expanded() {
            Err(e) => Err(e),
            Ok(expanded) => {
                proof {
                    lemma_scan_triangles(crate::text::lines(text@));
                    assert(expand(pools@)->Ok_0.len() == pools@.corners.len());
                    assert(vertices(expanded@).len() == expanded@.len());
                }
                Ok(Mesh { vertices: expanded, material: pools.material })
            },
        },
    }
}

} // verus!
