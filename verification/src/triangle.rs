//! The geometric records extracted from an STL text: a spatial vector of
//! three components and a triangle of three such vectors.
//!
//! Coordinates read from the text are carried as their raw numeric tokens.
//! Converting a token to machine floating point, and any arithmetic on the
//! result, is floating-point work that stays outside this crate; the
//! tokens are validated here (see [`crate::numeric`]) so that such a
//! conversion cannot fail.

use vstd::prelude::*;
use vstd::std_specs::ops::AddSpec;

use crate::numeric::is_numeric_token;
use crate::text::{split_tokens, str_views, tokens_from};

verus! {

/// An ordered triple of components.
#[derive(Debug)]
pub struct StlVector<T>(pub T, pub T, pub T);

impl<T> StlVector<T> {
    pub fn new(x: T, y: T, z: T) -> (v: Self)
        ensures
            v.0 == x,
            v.1 == y,
            v.2 == z,
    {
        StlVector(x, y, z)
    }
}

impl<T: core::ops::Add<Output = T> + Copy> StlVector<T> {
    /// The sum of the three components.
    pub fn sum(&self) -> (r: T)
        requires
            T::obeys_add_spec(),
            self.0.add_req(self.1),
            self.0.add_spec(self.1).add_req(self.2),
        ensures
            r == self.0.add_spec(self.1).add_spec(self.2),
    {
        self.0 + self.1 + self.2
    }
}

/// What a vector of coordinate tokens denotes: the three token views.
pub type VertexView = (Seq<char>, Seq<char>, Seq<char>);

impl View for StlVector<String> {
    type V = VertexView;

    open spec fn view(&self) -> VertexView {
        (self.0@, self.1@, self.2@)
    }
}

impl PartialEq for StlVector<String> {
    fn eq(&self, other: &Self) -> (r: bool) {
        self.0 == other.0 && self.1 == other.1 && self.2 == other.2
    }
}

impl vstd::std_specs::cmp::PartialEqSpecImpl for StlVector<String> {
    open spec fn obeys_eq_spec() -> bool {
        true
    }

    open spec fn eq_spec(&self, other: &Self) -> bool {
        self@ == other@
    }
}

/// A triangle: the three vertices of one facet, in encounter order.
#[derive(Debug)]
pub struct StlTriangle {
    pub x: StlVector<String>,
    pub y: StlVector<String>,
    pub z: StlVector<String>,
}

/// What a triangle denotes: its three vertex views.
pub type TriangleView = (VertexView, VertexView, VertexView);

impl View for StlTriangle {
    type V = TriangleView;

    open spec fn view(&self) -> TriangleView {
        (self.x@, self.y@, self.z@)
    }
}

impl PartialEq for StlTriangle {
    fn eq(&self, other: &Self) -> (r: bool) {
        self.x == other.x && self.y == other.y && self.z == other.z
    }
}

impl vstd::std_specs::cmp::PartialEqSpecImpl for StlTriangle {
    open spec fn obeys_eq_spec() -> bool {
        true
    }

    open spec fn eq_spec(&self, other: &Self) -> bool {
        self@ == other@
    }
}

/// A well-formed vertex line: after the leading keyword there are at least
/// three tokens, and the first three of them are numeric.
pub open spec fn vertex_ok(line: Seq<char>) -> bool {
    let toks = tokens_from(line, 0);
    &&& toks.len() >= 4
    &&& is_numeric_token(toks[1])
    &&& is_numeric_token(toks[2])
    &&& is_numeric_token(toks[3])
}

/// The three coordinate tokens of a well-formed vertex line.
pub open spec fn vertex_view(line: Seq<char>) -> VertexView {
    let toks = tokens_from(line, 0);
    (toks[1], toks[2], toks[3])
}

/// The triangle denoted by three well-formed vertex lines.
pub open spec fn triangle_view(l0: Seq<char>, l1: Seq<char>, l2: Seq<char>) -> TriangleView {
    (vertex_view(l0), vertex_view(l1), vertex_view(l2))
}

/// Reads one vertex line: `Some` exactly on well-formed lines, and then
/// the vector of the three coordinate tokens that follow the keyword.
pub fn parse_vertex(line: &str) -> (r: Option<StlVector<String>>)
    ensures
        r is Some <==> vertex_ok(line@),
        r matches Some(v) ==> v@ == vertex_view(line@),
{
    let toks = split_tokens(line);
    if toks.len() < 4 {
        return None;
    }
    if !crate::numeric::numeric_token(toks[1].as_str()) {
        return None;
    }
    if !crate::numeric::numeric_token(toks[2].as_str()) {
        return None;
    }
    if !crate::numeric::numeric_token(toks[3].as_str()) {
        return None;
    }
    proof {
        assert(str_views(toks@)[1] == toks@[1]@);
        assert(str_views(toks@)[2] == toks@[2]@);
        assert(str_views(toks@)[3] == toks@[3]@);
    }
    Some(StlVector::new(toks[1].clone(), toks[2].clone(), toks[3].clone()))
}

impl StlTriangle {
    /// Assembles the triangle from three well-formed vertex lines, the
    /// first three entries of `vert_strings`, in encounter order.
    pub fn from(vert_strings: Vec<String>) -> (t: Self)
        requires
            vert_strings@.len() >= 3,
            vertex_ok(vert_strings@[0]@),
            vertex_ok(vert_strings@[1]@),
            vertex_ok(vert_strings@[2]@),
        ensures
            t@ == triangle_view(vert_strings@[0]@, vert_strings@[1]@, vert_strings@[2]@),
    {
        let x = parse_vertex(vert_strings[0].as_str()).unwrap();
        let y = parse_vertex(vert_strings[1].as_str()).unwrap();
        let z = parse_vertex(vert_strings[2].as_str()).unwrap();
        StlTriangle { x, y, z }
    }
}

} // verus!
