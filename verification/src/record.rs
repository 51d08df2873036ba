//! The records that a line of numbers writes: triples and pairs, and the
//! expanded vertex made of them.

use vstd::prelude::*;
use crate::number::is_number;
use crate::number::Number;
use crate::text::views;

verus! {

/// Three numbers: a position, a normal or a colour.
pub struct Triple {
    pub x: Number,
    pub y: Number,
    pub z: Number,
}

/// Two numbers: a texture coordinate.
pub struct Pair {
    pub u: Number,
    pub v: Number,
}

/// A vertex with all its attributes: eight numbers, the position first,
/// then the texture coordinate, then the normal.
pub struct Vertex {
    pub position: Triple,
    pub tex: Pair,
    pub normal: Triple,
}

impl View for Triple {
    type V = Seq<Seq<u8>>;

    open spec fn view(&self) -> Seq<Seq<u8>> {
        seq![self.x@, self.y@, self.z@]
    }
}

impl View for Pair {
    type V = Seq<Seq<u8>>;

    open spec fn view(&self) -> Seq<Seq<u8>> {
        seq![self.u@, self.v@]
    }
}

impl View for Vertex {
    type V = Seq<Seq<u8>>;

    open spec fn view(&self) -> Seq<Seq<u8>> {
        self.position@ + self.tex@ + self.normal@
    }
}

impl Clone for Triple {
    fn clone(&self) -> (r: Self)
        ensures
            r@ == self@,
    {
        Triple { x: self.x.clone(), y: self.y.clone(), z: self.z.clone() }
    }
}

impl Clone for Pair {
    fn clone(&self) -> (r: Self)
        ensures
            r@ == self@,
    {
        Pair { u: self.u.clone(), v: self.v.clone() }
    }
}

impl Clone for Vertex {
    fn clone(&self) -> (r: Self)
        ensures
            r@ == self@,
    {
        Vertex {
            position: self.position.clone(),
            tex: self.tex.clone(),
            normal: self.normal.clone(),
        }
    }
}

impl Vertex {
    /// The eight numbers in the order in which a vertex buffer holds them.
    pub fn components(&self) -> (out: Vec<Number>)
        ensures
            out@.len() == 8,
            forall|i: int| 0 <= i < 8 ==> (#[trigger] out@[i])@ == self@[i],
    {
        let mut out: Vec<Number> = Vec::new();
        out.push(self.position.x.clone());
        out.push(self.position.y.clone());
        out.push(self.position.z.clone());
        out.push(self.tex.u.clone());
        out.push(self.tex.v.clone());
        out.push(self.normal.x.clone());
        out.push(self.normal.y.clone());
        out.push(self.normal.z.clone());
        out
    }
}

/// The `count` numbers that follow the first field of a line. `None`
/// where the line has too few fields or one of them is no number. Fields
/// behind them are not looked at.
pub open spec fn numbers(fields: Seq<Seq<u8>>, count: int) -> Option<Seq<Seq<u8>>> {
    if fields.len() > count && forall|i: int| 1 <= i <= count ==> is_number(#[trigger] fields[i]) {
        Some(fields.subrange(1, count + 1))
    } else {
        None
    }
}

/// Reads the number in field `i`.
fn read_number(fields: &Vec<Vec<u8>>, i: usize) -> (r: Option<Number>)
    ensures
        r is Some <==> i < fields@.len() && is_number(views(fields@)[i as int]),
        r is Some ==> r->0@ == views(fields@)[i as int],
{
    if i < fields.len() {
        Number::parse(fields[i].as_slice())
    } else {
        None
    }
}

/// Reads the number that follows the first field.
pub fn read_one(fields: &Vec<Vec<u8>>) -> (r: Option<Number>)
    ensures
        r is Some <==> numbers(views(fields@), 1) is Some,
        r is Some ==> seq![r->0@] == numbers(views(fields@), 1)->0,
{
    let r = read_number(fields, 1);
    proof {
        if r is Some {
            assert(seq![r->0@] =~= views(fields@).subrange(1, 2));
        }
    }
    r
}

/// Reads the two numbers that follow the first field.
pub fn read_pair(fields: &Vec<Vec<u8>>) -> (r: Option<Pair>)
    ensures
        r is Some <==> numbers(views(fields@), 2) is Some,
        r is Some ==> r->0@ == numbers(views(fields@), 2)->0,
{
    match (read_number(fields, 1), read_number(fields, 2)) {
        (Some(u), Some(v)) => {
            let r = Pair { u, v };
            assert(r@ =~= views(fields@).subrange(1, 3));
            Some(r)
        },
        _ => None,
    }
}

/// Reads the three numbers that follow the first field.
pub fn read_triple(fields: &Vec<Vec<u8>>) -> (r: Option<Triple>)
    ensures
        r is Some <==> numbers(views(fields@), 3) is Some,
        r is Some ==> r->0@ == numbers(views(fields@), 3)->0,
{
    match (read_number(fields, 1), read_number(fields, 2), read_number(fields, 3)) {
        (Some(x), Some(y), Some(z)) => {
            let r = Triple { x, y, z };
            assert(r@ =~= views(fields@).subrange(1, 4));
            Some(r)
        },
        _ => None,
    }
}

} // verus!
