use vstd::prelude::*;

use crate::decimal::{i32_value, parse_i32};

verus! {

/// The pieces of `s` between occurrences of `sep`, empty pieces included:
/// there is always one piece more than there are separators.
pub open spec fn split_on(s: Seq<u8>, sep: u8) -> Seq<Seq<u8>>
    decreases s.len(),
{
    if s.len() == 0 {
        seq![Seq::empty()]
    } else {
        let p = split_on(s.drop_last(), sep);
        if s.last() == sep {
            p.push(Seq::empty())
        } else {
            p.update(p.len() - 1, p.last().push(s.last()))
        }
    }
}

pub open spec fn views(v: Seq<Vec<u8>>) -> Seq<Seq<u8>> {
    v.map_values(|t: Vec<u8>| t@)
}

/// The pieces of `s` between occurrences of `sep`, in order, empty pieces
/// included.
pub fn split_bytes(s: &[u8], sep: u8) -> (parts: Vec<Vec<u8>>)
    ensures
        views(parts@) == split_on(s@, sep),
{
    let mut parts: Vec<Vec<u8>> = Vec::new();
    let mut cur: Vec<u8> = Vec::new();
    let n = s.len();
    let mut i: usize = 0;
    while i < n
        invariant
            n == s@.len(),
            0 <= i <= n,
            views(parts@).push(cur@) == split_on(s@.take(i as int), sep),
        decreases n - i,
    {
        let b = s[i];
        proof {
            assert(s@.take(i + 1).drop_last() =~= s@.take(i as int));
        }
        if b == sep {
            let piece = cur;
            parts.push(piece);
            cur = Vec::new();
        } else {
            cur.push(b);
            proof {
                assert(views(parts@).push(cur@) =~= split_on(s@.take(i + 1), sep));
            }
        }
        i = i + 1;
    }
    parts.push(cur);
    proof {
        assert(s@.take(n as int) =~= s@);
        assert(views(parts@) =~= split_on(s@, sep));
    }
    parts
}

/// What a line of an OBJ file declares, by its first token.
#[derive(Clone, Copy, Debug, PartialEq, Eq, Structural)]
pub enum ObjLineKind {
    /// `v`: a position.
    Position,
    /// `vt`: a texture coordinate.
    TexCoord,
    /// `vn`: a normal.
    Normal,
    /// `f`: a face.
    Face,
    /// Anything else, comments and blank lines included.
    Other,
}

pub open spec fn line_kind_of(keyword: Seq<u8>) -> ObjLineKind {
    if keyword == seq![118u8] {
        ObjLineKind::Position
    } else if keyword == seq![118u8, 116u8] {
        ObjLineKind::TexCoord
    } else if keyword == seq![118u8, 110u8] {
        ObjLineKind::Normal
    } else if keyword == seq![102u8] {
        ObjLineKind::Face
    } else {
        ObjLineKind::Other
    }
}

/// Classifies a line of an OBJ file by its first token.
pub fn obj_line_kind(keyword: &[u8]) -> (k: ObjLineKind)
    ensures
        k == line_kind_of(keyword@),
{
    let n = keyword.len();
    if n == 1 && keyword[0] == 118u8 {
        assert(keyword@ =~= seq![118u8]);
        ObjLineKind::Position
    } else if n == 2 && keyword[0] == 118u8 && keyword[1] == 116u8 {
        assert(keyword@ =~= seq![118u8, 116u8]);
        ObjLineKind::TexCoord
    } else if n == 2 && keyword[0] == 118u8 && keyword[1] == 110u8 {
        assert(keyword@ =~= seq![118u8, 110u8]);
        ObjLineKind::Normal
    } else if n == 1 && keyword[0] == 102u8 {
        assert(keyword@ =~= seq![102u8]);
        ObjLineKind::Face
    } else {
        proof {
            if keyword@ == seq![118u8] || keyword@ == seq![102u8] {
                assert(keyword@[0] == seq![118u8][0] || keyword@[0] == seq![102u8][0]);
            }
            if keyword@ == seq![118u8, 116u8] || keyword@ == seq![118u8, 110u8] {
                assert(keyword@[1] == seq![118u8, 116u8][1] || keyword@[1] == seq![118u8, 110u8][1]);
            }
        }
        ObjLineKind::Other
    }
}

/// Where a corner of an OBJ face points: its position, texture coordinate
/// and normal, counted from zero.
#[derive(Clone, Copy, Debug, PartialEq, Eq, Hash, Structural)]
pub struct OBJIndex {
    pub vertex_index: i32,
    pub tex_coord_index: i32,
    pub normal_index: i32,
}

impl OBJIndex {
    pub fn new() -> (r: OBJIndex)
        ensures
            r == (OBJIndex { vertex_index: 0, tex_coord_index: 0, normal_index: 0 }),
    {
        OBJIndex { vertex_index: 0, tex_coord_index: 0, normal_index: 0 }
    }
}

/// One face corner as read, with whether it named a texture coordinate and
/// whether it named a normal.
#[derive(Clone, Copy, Debug, PartialEq, Eq, Structural)]
pub struct ParsedIndex {
    pub index: OBJIndex,
    pub has_tex_coord: bool,
    pub has_normal: bool,
}

/// Why a face line of an OBJ file was refused.
#[derive(Clone, Copy, Debug, PartialEq, Eq, Structural)]
pub enum ObjError {
    /// The position index of a corner is not a one-based `i32`.
    VertexIndex,
    /// The texture coordinate index of a corner is not a one-based `i32`.
    TexCoordIndex,
    /// The normal index of a corner is not a one-based `i32`.
    NormalIndex,
    /// The face line names fewer than two corners.
    ShortFace,
}

/// The zero-based index that a one-based decimal index in `s` names.
pub open spec fn zero_based(s: Seq<u8>) -> Option<i32> {
    match i32_value(s) {
        Some(v) => if v > i32::MIN {
            Some((v - 1) as i32)
        } else {
            None
        },
        None => None,
    }
}

/// What a face corner `v`, `v/t`, `v//n` or `v/t/n` reads as. The texture
/// coordinate counts as given when its piece is not empty; the normal when
/// there is a third piece at all.
pub open spec fn obj_index_of(token: Seq<u8>) -> Result<ParsedIndex, ObjError> {
    let parts = split_on(token, 47);
    let has_tex = parts.len() > 1 && parts[1].len() > 0;
    let has_normal = parts.len() > 2;
    match zero_based(parts[0]) {
        None => Err(ObjError::VertexIndex),
        Some(v) => {
            let t = if has_tex {
                zero_based(parts[1])
            } else {
                Some(0i32)
            };
            let nrm = if has_normal {
                zero_based(parts[2])
            } else {
                Some(0i32)
            };
            match (t, nrm) {
                (None, _) => Err(ObjError::TexCoordIndex),
                (Some(_), None) => Err(ObjError::NormalIndex),
                (Some(t), Some(nrm)) => Ok(
                    ParsedIndex {
                        index: OBJIndex { vertex_index: v, tex_coord_index: t, normal_index: nrm },
                        has_tex_coord: has_tex,
                        has_normal: has_normal,
                    },
                ),
            }
        },
    }
}

proof fn lemma_split_on_nonempty(s: Seq<u8>, sep: u8)
    ensures
        split_on(s, sep).len() >= 1,
    decreases s.len(),
{
    if s.len() > 0 {
        lemma_split_on_nonempty(s.drop_last(), sep);
    }
}

fn parse_zero_based(s: &[u8]) -> (r: Option<i32>)
    ensures
        r == zero_based(s@),
{
    match parse_i32(s) {
        Some(v) => if v > i32::MIN {
            Some(v - 1)
        } else {
            None
        },
        None => None,
    }
}

/// Reads one face corner of an OBJ file.
pub fn parse_obj_index(token: &[u8]) -> (r: Result<ParsedIndex, ObjError>)
    ensures
        r == obj_index_of(token@),
{
    let values = split_bytes(token, 47u8);
    proof {
        lemma_split_on_nonempty(token@, 47u8);
        assert(values@.len() == split_on(token@, 47u8).len());
    }
    let mut result = OBJIndex::new();
    match parse_zero_based(values[0].as_slice()) {
        Some(v) => {
            result.vertex_index = v;
        },
        None => {
            return Err(ObjError::VertexIndex);
        },
    }
    let mut has_tex_coord = false;
    let mut has_normal = false;
    if values.len() > 1 {
        if values[1].len() > 0 {
            has_tex_coord = true;
            match parse_zero_based(values[1].as_slice()) {
                Some(t) => {
                    result.tex_coord_index = t;
                },
                None => {
                    return Err(ObjError::TexCoordIndex);
                },
            }
        }
        if values.len() > 2 {
            has_normal = true;
            match parse_zero_based(values[2].as_slice()) {
                Some(n) => {
                    result.normal_index = n;
                },
                None => {
                    return Err(ObjError::NormalIndex);
                },
            }
        }
    }
    Ok(ParsedIndex { index: result, has_tex_coord, has_normal })
}

/// The corners `toks` read as, in order; the first corner that fails to
/// read decides the error.
pub open spec fn parse_all(toks: Seq<Seq<u8>>) -> Result<Seq<ParsedIndex>, ObjError>
    decreases toks.len(),
{
    if toks.len() == 0 {
        Ok(Seq::empty())
    } else {
        match parse_all(toks.drop_last()) {
            Err(e) => Err(e),
            Ok(ps) => match obj_index_of(toks.last()) {
                Err(e) => Err(e),
                Ok(p) => Ok(ps.push(p)),
            },
        }
    }
}

/// The triangles of a convex polygon `vs` as a fan around its first corner:
/// `(vs[0], vs[k + 1], vs[k + 2])` for each `k`, three indices per triangle.
pub open spec fn fan(vs: Seq<OBJIndex>) -> Seq<OBJIndex> {
    Seq::new(
        (3 * (vs.len() - 2)) as nat,
        |i: int|
            if i % 3 == 0 {
                vs[0]
            } else if i % 3 == 1 {
                vs[i / 3 + 1]
            } else {
                vs[i / 3 + 2]
            },
    )
}

pub open spec fn any_tex_coord(ps: Seq<ParsedIndex>) -> bool {
    exists|i: int| 0 <= i < ps.len() && #[trigger] ps[i].has_tex_coord
}

pub open spec fn any_normal(ps: Seq<ParsedIndex>) -> bool {
    exists|i: int| 0 <= i < ps.len() && #[trigger] ps[i].has_normal
}

/// The face corners of an OBJ file, three per triangle, and whether any
/// corner named a texture coordinate or a normal.
pub struct ObjFaces {
    pub indices: Vec<OBJIndex>,
    pub has_tex_coords: bool,
    pub has_normals: bool,
}

impl ObjFaces {
    pub fn new() -> (f: ObjFaces)
        ensures
            f.indices@.len() == 0,
            !f.has_tex_coords,
            !f.has_normals,
    {
        ObjFaces { indices: Vec::new(), has_tex_coords: false, has_normals: false }
    }

    /// Adds the face whose line splits into `tokens` (the keyword first, then
    /// one token per corner) as a fan of triangles. A face of two corners adds
    /// nothing; one of fewer is refused. On an error nothing changes.
    pub fn add_face(&mut self, tokens: &Vec<Vec<u8>>) -> (r: Result<(), ObjError>)
        ensures
            tokens@.len() < 3 ==> r == Err::<(), ObjError>(ObjError::ShortFace) && *final(self)
                == *old(self),
            tokens@.len() == 3 ==> r is Ok && *final(self) == *old(self),
            tokens@.len() > 3 ==> match parse_all(views(tokens@).skip(1)) {
                Err(e) => r == Err::<(), ObjError>(e) && *final(self) == *old(self),
                Ok(ps) => {
                    &&& r is Ok
                    &&& final(self).indices@ == old(self).indices@ + fan(
                        ps.map_values(|p: ParsedIndex| p.index),
                    )
                    &&& final(self).has_tex_coords == (old(self).has_tex_coords || any_tex_coord(
                        ps,
                    ))
                    &&& final(self).has_normals == (old(self).has_normals || any_normal(ps))
                },
            },
    {
        let n = tokens.len();
        if n < 3 {
            return Err(ObjError::ShortFace);
        }
        if n == 3 {
            return Ok(());
        }
        let ghost toks = views(tokens@).skip(1);
        let mut corners: Vec<OBJIndex> = Vec::new();
        let mut tex = false;
        let mut nrm = false;
        let ghost mut ps: Seq<ParsedIndex> = Seq::empty();
        let mut i: usize = 1;
        while i < n
            invariant
                n == tokens@.len(),
                3 < n,
                1 <= i <= n,
                toks == views(tokens@).skip(1),
                parse_all(toks.take(i - 1)) == Ok::<Seq<ParsedIndex>, ObjError>(ps),
                ps.len() == i - 1,
                corners@ == ps.map_values(|p: ParsedIndex| p.index),
                tex == any_tex_coord(ps),
                nrm == any_normal(ps),
            decreases n - i,
        {
            proof {
                assert(toks.take(i as int).drop_last() =~= toks.take(i - 1));
                assert(toks.take(i as int).last() == tokens@[i as int]@);
            }
            match parse_obj_index(tokens[i].as_slice()) {
                Err(e) => {
                    proof {
                        lemma_parse_all_prefix_error(toks, i as int, e);
                    }
                    return Err(e);
                },
                Ok(p) => {
                    let ghost old_ps = ps;
                    corners.push(p.index);
                    proof {
                        ps = ps.push(p);
                        assert(corners@ =~= ps.map_values(|p: ParsedIndex| p.index));
                        if p.has_tex_coord {
                            assert(ps[ps.len() - 1].has_tex_coord);
                        }
                        if p.has_normal {
                            assert(ps[ps.len() - 1].has_normal);
                        }
                        if any_tex_coord(ps) && !p.has_tex_coord {
                            let j = choose|j: int| 0 <= j < ps.len() && #[trigger] ps[j].has_tex_coord;
                            assert(old_ps[j].has_tex_coord);
                        }
                        if any_normal(ps) && !p.has_normal {
                            let j = choose|j: int| 0 <= j < ps.len() && #[trigger] ps[j].has_normal;
                            assert(old_ps[j].has_normal);
                        }
                        if any_tex_coord(old_ps) {
                            let j = choose|j: int| 0 <= j < old_ps.len() && #[trigger] old_ps[j].has_tex_coord;
                            assert(ps[j].has_tex_coord);
                        }
                        if any_normal(old_ps) {
                            let j = choose|j: int| 0 <= j < old_ps.len() && #[trigger] old_ps[j].has_normal;
                            assert(ps[j].has_normal);
                        }
                    }
                    tex = tex || p.has_tex_coord;
                    nrm = nrm || p.has_normal;
                },
            }
            i = i + 1;
        }
        proof {
            assert(toks.take(n - 1) =~= toks);
        }
        let m = corners.len();
        let ghost start = self.indices@;
        let mut k: usize = 0;
        while k + 2 < m
            invariant
                m == corners@.len(),
                m == n - 1,
                3 <= m,
                k + 2 <= m,
                self.indices@ == start + fan(corners@).take(3 * k),
                self.has_tex_coords == old(self).has_tex_coords,
                self.has_normals == old(self).has_normals,
            decreases m - k,
        {
            self.indices.push(corners[0]);
            self.indices.push(corners[k + 1]);
            self.indices.push(corners[k + 2]);
            proof {
                let f = fan(corners@);
                assert(f[3 * k] == corners@[0]);
                assert(f[3 * k + 1] == corners@[k + 1]);
                assert(f[3 * k + 2] == corners@[k + 2]);
                assert(self.indices@ =~= start + f.take(3 * k + 3));
            }
            k = k + 1;
        }
        proof {
            assert(fan(corners@).take(3 * k) =~= fan(corners@));
        }
        self.has_tex_coords = self.has_tex_coords || tex;
        self.has_normals = self.has_normals || nrm;
        Ok(())
    }
}

/// When corner `i - 1` of `toks` fails with `e` and the corners before it
/// read, the whole run fails with `e`.
proof fn lemma_parse_all_prefix_error(toks: Seq<Seq<u8>>, i: int, e: ObjError)
    requires
        1 <= i <= toks.len(),
        parse_all(toks.take(i - 1)) is Ok,
        obj_index_of(toks[i - 1]) == Err::<ParsedIndex, ObjError>(e),
    ensures
        parse_all(toks) == Err::<Seq<ParsedIndex>, ObjError>(e),
{
    assert(toks.take(i).drop_last() =~= toks.take(i - 1));
    if i == toks.len() {
        assert(toks.take(i) =~= toks);
    } else {
        lemma_parse_all_error_extends(toks, i, e);
    }
}

/// A failed prefix makes every longer run fail the same way.
proof fn lemma_parse_all_error_extends(toks: Seq<Seq<u8>>, i: int, e: ObjError)
    requires
        1 <= i <= toks.len(),
        parse_all(toks.take(i)) == Err::<Seq<ParsedIndex>, ObjError>(e),
    ensures
        parse_all(toks) == Err::<Seq<ParsedIndex>, ObjError>(e),
    decreases toks.len() - i,
{
    if i == toks.len() {
        assert(toks.take(i) =~= toks);
    } else {
        assert(toks.take(i + 1).drop_last() =~= toks.take(i));
        lemma_parse_all_error_extends(toks, i + 1, e);
    }
}

} // verus!
