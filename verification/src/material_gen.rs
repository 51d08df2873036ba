//! The material resolver: from the text of a material library to the
//! coefficients and texture references of one named material.

use vstd::prelude::*;
use crate::error::LoadError;
use crate::number::is_number;
use crate::number::Number;
use crate::record::numbers;
use crate::record::read_one;
use crate::record::read_triple;
use crate::record::Triple;
use crate::text::ascii;
use crate::text::joined;
use crate::text::is_word;
use crate::text::lines;
use crate::text::same_bytes;
use crate::text::split;
use crate::text::split_lines;
use crate::text::split_on;
use crate::text::views;
use crate::text::SPACE;

verus! {

/// What a material says of a surface, as the library writes it: three
/// colours, the shininess, and the file of each texture map it names.
pub struct BlockView {
    pub ambient: Seq<Seq<u8>>,
    pub diffuse: Seq<Seq<u8>>,
    pub specular: Seq<Seq<u8>>,
    pub shininess: Seq<u8>,
    pub ambient_map: Option<Seq<u8>>,
    pub diffuse_map: Option<Seq<u8>>,
    pub specular_map: Option<Seq<u8>>,
}

/// The same number three times.
pub open spec fn grey(n: Seq<u8>) -> Seq<Seq<u8>> {
    seq![n, n, n]
}

/// What a material holds before its lines are read: no ambient light,
/// full diffuse and specular reflection, no shininess, no maps.
pub open spec fn initial_block() -> BlockView {
    BlockView {
        ambient: grey(ascii("0.0"@)),
        diffuse: grey(ascii("1.0"@)),
        specular: grey(ascii("1.0"@)),
        shininess: ascii("0.0"@),
        ambient_map: None,
        diffuse_map: None,
        specular_map: None,
    }
}

/// What stands in for a material that the library does not hold.
pub open spec fn default_block() -> BlockView {
    BlockView {
        ambient: grey(ascii("0.1"@)),
        diffuse: grey(ascii("0.8"@)),
        specular: grey(ascii("0.5"@)),
        shininess: ascii("32.0"@),
        ambient_map: None,
        diffuse_map: None,
        specular_map: None,
    }
}

/// The line that opens the material `name`.
pub open spec fn header(name: Seq<u8>) -> Seq<u8> {
    ascii("newmtl "@) + name
}

/// Position of the first line that equals `target`, or `lines.len()`
/// where none does.
pub open spec fn first_line(lines: Seq<Seq<u8>>, target: Seq<u8>) -> int
    decreases lines.len(),
{
    if lines.len() == 0 || lines[0] == target {
        0
    } else {
        1 + first_line(lines.skip(1), target)
    }
}

/// Tells whether `line` opens a material, whatever its name.
pub open spec fn opens_material(line: Seq<u8>) -> bool {
    split(line, SPACE)[0] == ascii("newmtl"@)
}

/// What one line inside a material changes. The line is cut at every
/// space; its first field says what it is. A line of any other kind
/// changes nothing.
pub open spec fn block_step(block: BlockView, line: Seq<u8>) -> Result<BlockView, LoadError> {
    let fields = split(line, SPACE);
    let head = fields[0];
    if head == ascii("Ka"@) {
        match numbers(fields, 3) {
            Some(n) => Ok(BlockView { ambient: n, ..block }),
            None => Err(LoadError::Parse),
        }
    } else if head == ascii("Kd"@) {
        match numbers(fields, 3) {
            Some(n) => Ok(BlockView { diffuse: n, ..block }),
            None => Err(LoadError::Parse),
        }
    } else if head == ascii("Ks"@) {
        match numbers(fields, 3) {
            Some(n) => Ok(BlockView { specular: n, ..block }),
            None => Err(LoadError::Parse),
        }
    } else if head == ascii("Ns"@) {
        match numbers(fields, 1) {
            Some(n) => Ok(BlockView { shininess: n[0], ..block }),
            None => Err(LoadError::Parse),
        }
    } else if head == ascii("map_Ka"@) {
        if fields.len() >= 2 {
            Ok(BlockView { ambient_map: Some(fields[1]), ..block })
        } else {
            Err(LoadError::Parse)
        }
    } else if head == ascii("map_Kd"@) {
        if fields.len() >= 2 {
            Ok(BlockView { diffuse_map: Some(fields[1]), ..block })
        } else {
            Err(LoadError::Parse)
        }
    } else if head == ascii("map_Ks"@) {
        if fields.len() >= 2 {
            Ok(BlockView { specular_map: Some(fields[1]), ..block })
        } else {
            Err(LoadError::Parse)
        }
    } else {
        Ok(block)
    }
}

/// What the lines of a material make of `block`: each line in turn, up to
/// the line that opens the next material or to the end. The first line
/// that fails ends the reading with its error.
pub open spec fn read_block(lines: Seq<Seq<u8>>, block: BlockView) -> Result<BlockView, LoadError>
    decreases lines.len(),
{
    if lines.len() == 0 || opens_material(lines[0]) {
        Ok(block)
    } else {
        match block_step(block, lines[0]) {
            Err(e) => Err(e),
            Ok(next) => read_block(lines.skip(1), next),
        }
    }
}

/// What the library `text` says of the material `name`: `None` where no
/// line opens it, else what its lines make of the initial block.
pub open spec fn block_of(text: Seq<u8>, name: Seq<u8>) -> Result<Option<BlockView>, LoadError> {
    let all = lines(text);
    let at = first_line(all, header(name));
    if at >= all.len() {
        Ok(None)
    } else {
        match read_block(all.skip(at + 1), initial_block()) {
            Err(e) => Err(e),
            Ok(block) => Ok(Some(block)),
        }
    }
}

/// What the library `text` says of the material `name`, with the default
/// block standing in where the library does not hold it.
pub open spec fn material_of(text: Seq<u8>, name: Seq<u8>) -> Result<BlockView, LoadError> {
    match block_of(text, name) {
        Err(e) => Err(e),
        Ok(Some(block)) => Ok(block),
        Ok(None) => Ok(default_block()),
    }
}

/// `first_line` is in range, points at `target` unless it is the length,
/// and no line before it equals `target`.
pub proof fn lemma_first_line(lines: Seq<Seq<u8>>, target: Seq<u8>)
    ensures
        0 <= first_line(lines, target) <= lines.len(),
        first_line(lines, target) < lines.len() ==> lines[first_line(lines, target)] == target,
        forall|j: int| 0 <= j < first_line(lines, target) ==> lines[j] != target,
    decreases lines.len(),
{
    if lines.len() == 0 || lines[0] == target {
    } else {
        let rest = lines.skip(1);
        lemma_first_line(rest, target);
        assert forall|j: int| 0 <= j < first_line(lines, target) implies lines[j] != target by {
            if j > 0 {
                assert(rest[j - 1] == lines[j]);
            }
        }
    }
}

/// An index that points at `target` with no such line before it is the
/// first line.
pub proof fn lemma_first_line_is(lines: Seq<Seq<u8>>, target: Seq<u8>, i: int)
    requires
        0 <= i <= lines.len(),
        i < lines.len() ==> lines[i] == target,
        forall|j: int| 0 <= j < i ==> lines[j] != target,
    ensures
        first_line(lines, target) == i,
{
    lemma_first_line(lines, target);
    let f = first_line(lines, target);
    if f < i {
        assert(lines[f] != target);
    }
}

/// A digit, a point and a digit are the text of a number.
proof fn lemma_short_literal(s: Seq<u8>)
    requires
        s.len() == 3,
        crate::number::is_digit(s[0]),
        s[1] == '.' as u8,
        crate::number::is_digit(s[2]),
    ensures
        is_number(s),
{
    let after_whole = s.skip(1);
    let after_point = after_whole.skip(1);
    assert(after_whole[0] == s[1]);
    assert(after_point[0] == s[2]);
    crate::number::lemma_digits_len_is(s, 1);
    crate::number::lemma_digits_len_is(after_point, 1);
    assert(after_point.skip(1).len() == 0);
    assert(crate::number::unsigned(s) == s);
    assert(crate::number::is_decimal(s));
}

/// The numbers that the library writes out itself are numbers.
proof fn lemma_literals()
    ensures
        is_number(ascii("0.0"@)),
        is_number(ascii("1.0"@)),
        is_number(ascii("0.1"@)),
        is_number(ascii("0.8"@)),
        is_number(ascii("0.5"@)),
        is_number(ascii("32.0"@)),
{
    reveal_strlit("0.0");
    reveal_strlit("1.0");
    reveal_strlit("0.1");
    reveal_strlit("0.8");
    reveal_strlit("0.5");
    reveal_strlit("32.0");
    lemma_short_literal(ascii("0.0"@));
    lemma_short_literal(ascii("1.0"@));
    lemma_short_literal(ascii("0.1"@));
    lemma_short_literal(ascii("0.8"@));
    lemma_short_literal(ascii("0.5"@));
    let s = ascii("32.0"@);
    let after_whole = s.skip(2);
    let after_point = after_whole.skip(1);
    assert(after_whole[0] == s[2]);
    assert(after_point[0] == s[3]);
    crate::number::lemma_digits_len_is(s, 2);
    crate::number::lemma_digits_len_is(after_point, 1);
    assert(after_point.skip(1).len() == 0);
    assert(crate::number::unsigned(s) == s);
    assert(crate::number::is_decimal(s));
}

/// Three times the number that the ASCII literal `word` writes.
fn grey_of(word: &str) -> (r: Triple)
    requires
        vstd::string::is_ascii(word),
        is_number(ascii(word@)),
    ensures
        r@ == grey(ascii(word@)),
{
    Triple { x: Number::literal(word), y: Number::literal(word), z: Number::literal(word) }
}

/// One material of a library, as its lines write it. A texture map is
/// the name of its image file.
pub struct Block {
    pub ambient: Triple,
    pub diffuse: Triple,
    pub specular: Triple,
    pub shininess: Number,
    pub ambient_map: Option<Vec<u8>>,
    pub diffuse_map: Option<Vec<u8>>,
    pub specular_map: Option<Vec<u8>>,
}

/// The bytes of an optional name.
pub open spec fn name_view(name: Option<Vec<u8>>) -> Option<Seq<u8>> {
    match name {
        Some(n) => Some(n@),
        None => None,
    }
}

impl View for Block {
    type V = BlockView;

    open spec fn view(&self) -> BlockView {
        BlockView {
            ambient: self.ambient@,
            diffuse: self.diffuse@,
            specular: self.specular@,
            shininess: self.shininess@,
            ambient_map: name_view(self.ambient_map),
            diffuse_map: name_view(self.diffuse_map),
            specular_map: name_view(self.specular_map),
        }
    }
}

impl Block {
    /// The block that a material starts from.
    pub fn initial() -> (r: Block)
        ensures
            r@ == initial_block(),
    {
        proof {
            lemma_literals();
            reveal_strlit("0.0");
            reveal_strlit("1.0");
        }
        Block {
            ambient: grey_of("0.0"),
            diffuse: grey_of("1.0"),
            specular: grey_of("1.0"),
            shininess: Number::literal("0.0"),
            ambient_map: None,
            diffuse_map: None,
            specular_map: None,
        }
    }

    /// The block that stands in for a material which the library lacks.
    pub fn fallback() -> (r: Block)
        ensures
            r@ == default_block(),
    {
        proof {
            lemma_literals();
            reveal_strlit("0.1");
            reveal_strlit("0.8");
            reveal_strlit("0.5");
            reveal_strlit("32.0");
        }
        Block {
            ambient: grey_of("0.1"),
            diffuse: grey_of("0.8"),
            specular: grey_of("0.5"),
            shininess: Number::literal("32.0"),
            ambient_map: None,
            diffuse_map: None,
            specular_map: None,
        }
    }

    /// Takes in one line of the material.
    pub fn read_line(self, line: &[u8]) -> (r: Result<Block, LoadError>)
        ensures
            r is Ok ==> block_step(self@, line@) == Ok::<BlockView, LoadError>(r->Ok_0@),
            r is Err ==> block_step(self@, line@) == Err::<BlockView, LoadError>(r->Err_0),
    {
        let mut block = self;
        let fields = split_on(line, SPACE);
        proof {
            reveal_strlit("Ka");
            reveal_strlit("Kd");
            reveal_strlit("Ks");
            reveal_strlit("Ns");
            reveal_strlit("map_Ka");
            reveal_strlit("map_Kd");
            reveal_strlit("map_Ks");
            crate::text::lemma_split_nonempty(line@, SPACE);
        }
        let head = fields[0].as_slice();
        if is_word(head, "Ka") {
            match read_triple(&fields) {
                Some(t) => {
                    block.ambient = t;
                    Ok(block)
                },
                None => Err(LoadError::Parse),
            }
        } else if is_word(head, "Kd") {
            match read_triple(&fields) {
                Some(t) => {
                    block.diffuse = t;
                    Ok(block)
                },
                None => Err(LoadError::Parse),
            }
        } else if is_word(head, "Ks") {
            match read_triple(&fields) {
                Some(t) => {
                    block.specular = t;
                    Ok(block)
                },
                None => Err(LoadError::Parse),
            }
        } else if is_word(head, "Ns") {
            match read_one(&fields) {
                Some(n) => {
                    assert(seq![n@][0] == n@);
                    block.shininess = n;
                    Ok(block)
                },
                None => Err(LoadError::Parse),
            }
        } else if is_word(head, "map_Ka") {
            if fields.len() >= 2 {
                block.ambient_map = Some(vstd::slice::slice_to_vec(fields[1].as_slice()));
                Ok(block)
            } else {
                Err(LoadError::Parse)
            }
        } else if is_word(head, "map_Kd") {
            if fields.len() >= 2 {
                block.diffuse_map = Some(vstd::slice::slice_to_vec(fields[1].as_slice()));
                Ok(block)
            } else {
                Err(LoadError::Parse)
            }
        } else if is_word(head, "map_Ks") {
            if fields.len() >= 2 {
                block.specular_map = Some(vstd::slice::slice_to_vec(fields[1].as_slice()));
                Ok(block)
            } else {
                Err(LoadError::Parse)
            }
        } else {
            Ok(block)
        }
    }
}

/// Tells whether `line` opens a material.
fn is_opening(line: &[u8]) -> (r: bool)
    ensures
        r == opens_material(line@),
{
    let fields = split_on(line, SPACE);
    proof {
        reveal_strlit("newmtl");
        crate::text::lemma_split_nonempty(line@, SPACE);
    }
    is_word(fields[0].as_slice(), "newmtl")
}

/// Finds the line that opens the material `name`.
fn find_header(lines: &Vec<Vec<u8>>, name: &[u8]) -> (at: usize)
    ensures
        at == first_line(views(lines@), header(name@)),
        at <= lines@.len(),
{
    proof {
        reveal_strlit("newmtl ");
        vstd::string::is_ascii_spec_bytes("newmtl ");
    }
    let target = joined("newmtl ".as_bytes(), name);
    assert(target@ == header(name@));
    let mut at: usize = 0;
    while at < lines.len() && !same_bytes(lines[at].as_slice(), target.as_slice())
        invariant
            at <= lines@.len(),
            target@ == header(name@),
            forall|j: int| 0 <= j < at ==> views(lines@)[j] != target@,
        decreases lines@.len() - at,
    {
        at = at + 1;
    }
    proof {
        lemma_first_line_is(views(lines@), target@, at as int);
    }
    at
}

/// Reads the lines of a material from line `from` on.
fn read_from(lines: &Vec<Vec<u8>>, from: usize) -> (r: Result<Block, LoadError>)
    requires
        from <= lines@.len(),
    ensures
        r is Ok ==> read_block(views(lines@).skip(from as int), initial_block()) == Ok::<
            BlockView,
            LoadError,
        >(r->Ok_0@),
        r is Err ==> read_block(views(lines@).skip(from as int), initial_block()) == Err::<
            BlockView,
            LoadError,
        >(r->Err_0),
{
    let ghost all = views(lines@);
    let ghost goal = read_block(all.skip(from as int), initial_block());
    let mut block = Block::initial();
    let mut i: usize = from;
    while i < lines.len()
        invariant
            from <= i <= lines@.len(),
            all == views(lines@),
            goal == read_block(all.skip(from as int), initial_block()),
            goal == read_block(all.skip(i as int), block@),
        decreases lines@.len() - i,
    {
        let ghost rest = all.skip(i as int);
        assert(rest[0] == lines@[i as int]@);
        assert(rest.skip(1) =~= all.skip(i + 1));
        if is_opening(lines[i].as_slice()) {
            return Ok(block);
        }
        match block.read_line(lines[i].as_slice()) {
            Ok(next) => {
                block = next;
            },
            Err(e) => {
                return Err(e);
            },
        }
        i = i + 1;
    }
    assert(all.skip(i as int).len() == 0);
    Ok(block)
}

/// Looks the material `name` up in the text of a library. `Ok(None)` where
/// the library does not hold it.
pub fn find_material(library: &[u8], name: &[u8]) -> (r: Result<Option<Block>, LoadError>)
    ensures
        r is Err ==> block_of(library@, name@) == Err::<Option<BlockView>, LoadError>(r->Err_0),
        r is Ok ==> block_of(library@, name@) is Ok,
        r is Ok ==> (r->Ok_0 is Some <==> block_of(library@, name@)->Ok_0 is Some),
        r is Ok && r->Ok_0 is Some ==> r->Ok_0->0@ == block_of(library@, name@)->Ok_0->0,
{
    let lines = split_lines(library);
    let at = find_header(&lines, name);
    if at >= lines.len() {
        Ok(None)
    } else {
        match read_from(&lines, at + 1) {
            Err(e) => Err(e),
            Ok(block) => Ok(Some(block)),
        }
    }
}

/// Reads the material `name` from the text of a library. Where the
/// library does not hold it, the default block is returned in its place.
pub fn get_material(library: &[u8], name: &[u8]) -> (r: Result<Block, LoadError>)
    ensures
        r is Ok ==> material_of(library@, name@) == Ok::<BlockView, LoadError>(r->Ok_0@),
        r is Err ==> material_of(library@, name@) == Err::<BlockView, LoadError>(r->Err_0),
{
    match find_material(library, name) {
        Err(e) => Err(e),
        Ok(Some(block)) => Ok(block),
        Ok(None) => Ok(Block::fallback()),
    }
}

/// A material as the renderer takes it: the coefficients of a block and
/// one texture handle for each map. The handle zero means that the slot is
/// not filled.
pub struct Material {
    pub ambient: Triple,
    pub diffuse: Triple,
    pub specular: Triple,
    pub shininess: Number,
    pub ambient_map: u32,
    pub diffuse_map: u32,
    pub specular_map: u32,
}

/// What a `Material` holds.
pub struct MaterialView {
    pub ambient: Seq<Seq<u8>>,
    pub diffuse: Seq<Seq<u8>>,
    pub specular: Seq<Seq<u8>>,
    pub shininess: Seq<u8>,
    pub ambient_map: u32,
    pub diffuse_map: u32,
    pub specular_map: u32,
}

impl View for Material {
    type V = MaterialView;

    open spec fn view(&self) -> MaterialView {
        MaterialView {
            ambient: self.ambient@,
            diffuse: self.diffuse@,
            specular: self.specular@,
            shininess: self.shininess@,
            ambient_map: self.ambient_map,
            diffuse_map: self.diffuse_map,
            specular_map: self.specular_map,
        }
    }
}

/// The coefficients of `block` with the three handles given.
pub open spec fn with_maps(block: BlockView, ambient: u32, diffuse: u32, specular: u32)
    -> MaterialView {
    MaterialView {
        ambient: block.ambient,
        diffuse: block.diffuse,
        specular: block.specular,
        shininess: block.shininess,
        ambient_map: ambient,
        diffuse_map: diffuse,
        specular_map: specular,
    }
}

/// `white` where the slot is not filled, the slot's own handle where it is.
pub open spec fn or_white(handle: u32, white: u32) -> u32 {
    if handle == 0 {
        white
    } else {
        handle
    }
}

/// `material` with `white` in every slot that is not filled.
pub open spec fn filled(material: MaterialView, white: u32) -> MaterialView {
    MaterialView {
        ambient_map: or_white(material.ambient_map, white),
        diffuse_map: or_white(material.diffuse_map, white),
        specular_map: or_white(material.specular_map, white),
        ..material
    }
}

/// Tells whether a slot of `material` is not filled.
pub open spec fn lacks_map(material: MaterialView) -> bool {
    material.ambient_map == 0 || material.diffuse_map == 0 || material.specular_map == 0
}

/// The material that a mesh has where its geometry selects none.
pub open spec fn default_material() -> MaterialView {
    with_maps(default_block(), 0, 0, 0)
}

/// Filling the slots changes no coefficient, and leaves in every slot the
/// handle it had or, where it had none, the placeholder. With a placeholder
/// that is a handle, no slot is left unfilled.
pub proof fn lemma_filled(material: MaterialView, white: u32)
    ensures
        filled(material, white).ambient == material.ambient,
        filled(material, white).diffuse == material.diffuse,
        filled(material, white).specular == material.specular,
        filled(material, white).shininess == material.shininess,
        white != 0 ==> !lacks_map(filled(material, white)),
        !lacks_map(material) ==> filled(material, white) == material,
{
}

/// A material that the library lacks comes out with the default
/// coefficients and the placeholder in every slot.
pub proof fn lemma_missing_material(text: Seq<u8>, name: Seq<u8>, white: u32)
    requires
        block_of(text, name) == Ok::<Option<BlockView>, LoadError>(None),
    ensures
        material_of(text, name) == Ok::<BlockView, LoadError>(default_block()),
        filled(with_maps(material_of(text, name)->Ok_0, 0, 0, 0), white) == with_maps(
            default_block(),
            white,
            white,
            white,
        ),
{
}

/// The coefficients of a material do not depend on the handles that the
/// uploads returned.
pub proof fn lemma_coefficients_fixed(
    block: BlockView,
    first: (u32, u32, u32),
    second: (u32, u32, u32),
    white_first: u32,
    white_second: u32,
)
    ensures
        ({
            let a = filled(with_maps(block, first.0, first.1, first.2), white_first);
            let b = filled(with_maps(block, second.0, second.1, second.2), white_second);
            a.ambient == b.ambient && a.diffuse == b.diffuse && a.specular == b.specular
                && a.shininess == b.shininess
        }),
{
}

impl Material {
    /// The coefficients of `block` with the three handles given.
    pub fn from_block(block: Block, ambient_map: u32, diffuse_map: u32, specular_map: u32) -> (r:
        Material)
        ensures
            r@ == with_maps(block@, ambient_map, diffuse_map, specular_map),
    {
        Material {
            ambient: block.ambient,
            diffuse: block.diffuse,
            specular: block.specular,
            shininess: block.shininess,
            ambient_map,
            diffuse_map,
            specular_map,
        }
    }

    /// Tells whether a slot is not filled.
    pub fn needs_placeholder(&self) -> (r: bool)
        ensures
            r == lacks_map(self@),
    {
        self.ambient_map == 0 || self.diffuse_map == 0 || self.specular_map == 0
    }

    /// Puts `white` in every slot that is not filled.
    pub fn fill(self, white: u32) -> (r: Material)
        ensures
            r@ == filled(self@, white),
    {
        let mut r = self;
        if r.ambient_map == 0 {
            r.ambient_map = white;
        }
        if r.diffuse_map == 0 {
            r.diffuse_map = white;
        }
        if r.specular_map == 0 {
            r.specular_map = white;
        }
        r
    }
}

impl Default for Material {
    fn default() -> (r: Material)
        ensures
            r@ == default_material(),
    {
        Material::from_block(Block::fallback(), 0, 0, 0)
    }
}

} // verus!
