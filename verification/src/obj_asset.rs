use vstd::prelude::*;
use std::io::Write;
use crate::text::{chars_of, lines, lines_of, parse_u32, parse_u32_of, split_chars, split_on, words, words_of, lemma_split_on_nonempty};

verus! {

/// One corner of a face: the numbers of its position, its texture coordinate and
/// its normal, as an OBJ `f` line writes them (`v`, `v/t`, `v//n`, `v/t/n`).
pub struct VertexAttribute {
    pub vertex_index: u32,
    pub vertex_texture_index: Option<u32>,
    pub vertex_normal_index: Option<u32>,
}

/// What an optional number of a corner reads as: nothing when empty, else a
/// number, else the corner is refused.
pub open spec fn attribute_field(p: Seq<char>) -> Option<Option<u32>> {
    if p.len() == 0 {
        Some(None)
    } else {
        match parse_u32_of(p) {
            Some(n) => Some(Some(n)),
            None => None,
        }
    }
}

/// The corner that `s` writes, if it writes one: at most three `/`-separated
/// pieces, the first a number, the others numbers or empty.
pub open spec fn attribute_of(s: Seq<char>) -> Option<VertexAttribute> {
    let p = split_on(s, '/');
    let t = if p.len() > 1 { attribute_field(p[1]) } else { Some(None) };
    let n = if p.len() > 2 { attribute_field(p[2]) } else { Some(None) };
    if p.len() > 3 || parse_u32_of(p[0]) is None || t is None || n is None {
        None
    } else {
        Some(VertexAttribute {
            vertex_index: parse_u32_of(p[0])->0,
            vertex_texture_index: t->0,
            vertex_normal_index: n->0,
        })
    }
}

/// The corners that an `f` line writes, if it is one: the word `f`, then three or
/// more corners.
pub open spec fn face_of(line: Seq<char>) -> Option<Seq<VertexAttribute>> {
    let w = words_of(line);
    if w.len() < 4 || w[0] != seq!['f'] || exists|i: int| 1 <= i < w.len() && #[trigger] attribute_of(w[i]) is None {
        None
    } else {
        Some(Seq::new((w.len() - 1) as nat, |i: int| attribute_of(w[i + 1])->0))
    }
}

/// The faces that an OBJ text writes, if each of its lines is an `f` line.
pub open spec fn obj_of(s: Seq<char>) -> Option<Seq<Seq<VertexAttribute>>> {
    let ls = lines_of(s);
    if exists|i: int| 0 <= i < ls.len() && #[trigger] face_of(ls[i]) is None {
        None
    } else {
        Some(Seq::new(ls.len(), |i: int| face_of(ls[i])->0))
    }
}

/// Reads an optional number of a corner.
fn field_from_chars(p: &Vec<char>) -> (r: Option<Option<u32>>)
    ensures
        r == attribute_field(p@),
{
    if p.len() == 0 {
        Some(None)
    } else {
        match parse_u32(p) {
            Some(n) => Some(Some(n)),
            None => None,
        }
    }
}

/// Writes the characters of `piece` and a line break to standard output, as
/// `println!` does. Nothing is stated of what it writes; where the write
/// fails, the failure is ignored.
#[verifier::external_body]
fn print_piece(piece: &Vec<char>) {
    let line: String = piece.iter().collect();
    let _ = writeln!(std::io::stdout(), "{}", line);
}

/// Reads a corner from its characters. Each of the first three pieces is
/// written out before it is read, up to the first that is refused.
fn attribute_from_chars(s: &Vec<char>) -> (r: Option<VertexAttribute>)
    ensures
        r == attribute_of(s@),
{
    let pieces = split_chars(s, '/');
    proof { lemma_split_on_nonempty(s@, '/'); }
    print_piece(&pieces[0]);
    let index = match parse_u32(&pieces[0]) {
        Some(n) => n,
        None => return None,
    };
    let texture = if pieces.len() > 1 {
        print_piece(&pieces[1]);
        match field_from_chars(&pieces[1]) {
            Some(t) => t,
            None => return None,
        }
    } else {
        None
    };
    let normal = if pieces.len() > 2 {
        print_piece(&pieces[2]);
        match field_from_chars(&pieces[2]) {
            Some(n) => n,
            None => return None,
        }
    } else {
        None
    };
    if pieces.len() > 3 {
        return None;
    }
    Some(VertexAttribute { vertex_index: index, vertex_texture_index: texture, vertex_normal_index: normal })
}

impl VertexAttribute {
    /// Reads one corner, or `None` where `s` writes none; each of its first
    /// three pieces is written out, as a line, before it is read.
    pub fn try_parse(s: &str) -> (r: Option<VertexAttribute>)
        ensures
            r == attribute_of(s@),
    {
        let cs = chars_of(s);
        attribute_from_chars(&cs)
    }

    /// Reads one corner; `s` must write one. Each of its pieces is written
    /// out, as a line, before it is read.
    pub fn parse(s: &str) -> (r: VertexAttribute)
        requires
            attribute_of(s@) is Some,
        ensures
            attribute_of(s@) == Some(r),
    {
        match Self::try_parse(s) {
            Some(a) => a,
            None => vstd::pervasive::unreached(),
        }
    }
}

/// A polygon of an OBJ model, by its corners.
pub struct Face {
    vertex_attributes: Vec<VertexAttribute>,
}

/// Reads an `f` line from its characters.
fn face_from_chars(line: &Vec<char>) -> (r: Option<Face>)
    ensures
        match r {
            Some(f) => face_of(line@) == Some(f@),
            None => face_of(line@) is None,
        },
{
    let w = words(line);
    if w.len() < 4 || !(w[0].len() == 1 && w[0][0] == 'f') {
        proof {
            if w@.len() >= 4 {
                assert(w@[0]@ != seq!['f']);
            }
        }
        return None;
    }
    proof { assert(w@[0]@ =~= seq!['f']); }
    let mut attributes: Vec<VertexAttribute> = Vec::new();
    let mut i: usize = 1;
    while i < w.len()
        invariant
            1 <= i <= w@.len(),
            w@.len() == words_of(line@).len(),
            forall|j: int| 0 <= j < w@.len() ==> #[trigger] w@[j]@ == words_of(line@)[j],
            attributes@.len() == i - 1,
            forall|j: int| 1 <= j < i ==> attribute_of(words_of(line@)[j]) is Some,
            forall|j: int| 0 <= j < i - 1 ==> Some(#[trigger] attributes@[j]) == attribute_of(words_of(line@)[j + 1]),
        decreases w@.len() - i,
    {
        match attribute_from_chars(&w[i]) {
            Some(a) => {
                attributes.push(a);
            },
            None => {
                proof { assert(attribute_of(words_of(line@)[i as int]) is None); }
                return None;
            },
        }
        i = i + 1;
    }
    let f = Face { vertex_attributes: attributes };
    proof {
        assert(f@ =~= face_of(line@)->0);
    }
    Some(f)
}

impl Face {
    /// The corners, in order.
    pub closed spec fn view(&self) -> Seq<VertexAttribute> {
        self.vertex_attributes@
    }

    /// The corners, in order.
    pub fn vertex_attributes(&self) -> (r: &Vec<VertexAttribute>)
        ensures
            r@ == self@,
    {
        &self.vertex_attributes
    }

    /// Reads an `f` line, or `None` where `line` is none.
    pub fn try_parse(line: &str) -> (r: Option<Face>)
        ensures
            match r {
                Some(f) => face_of(line@) == Some(f@),
                None => face_of(line@) is None,
            },
    {
        let cs = chars_of(line);
        face_from_chars(&cs)
    }

    /// Reads an `f` line; `line` must be one.
    pub fn parse(line: &str) -> (r: Face)
        requires
            face_of(line@) is Some,
        ensures
            face_of(line@) == Some(r@),
    {
        match Self::try_parse(line) {
            Some(f) => f,
            None => vstd::pervasive::unreached(),
        }
    }
}

/// A model read from an OBJ text: its faces.
pub struct ObjAsset {
    faces: Vec<Face>,
}

impl ObjAsset {
    /// The faces, in order, each by its corners.
    pub closed spec fn view(&self) -> Seq<Seq<VertexAttribute>> {
        self.faces@.map_values(|f: Face| f@)
    }

    /// The faces, in order.
    pub fn faces(&self) -> (r: &Vec<Face>)
        ensures
            r@.map_values(|f: Face| f@) == self@,
    {
        &self.faces
    }

    /// Reads a model whose every line is an `f` line, or `None` where some line is not.
    pub fn try_parse(s: &str) -> (r: Option<ObjAsset>)
        ensures
            match r {
                Some(a) => obj_of(s@) == Some(a@),
                None => obj_of(s@) is None,
            },
    {
        let cs = chars_of(s);
        let ls = lines(&cs);
        let mut faces: Vec<Face> = Vec::new();
        let mut i: usize = 0;
        while i < ls.len()
            invariant
                i <= ls@.len(),
                ls@.len() == lines_of(s@).len(),
                forall|j: int| 0 <= j < ls@.len() ==> #[trigger] ls@[j]@ == lines_of(s@)[j],
                faces@.len() == i,
                forall|j: int| 0 <= j < i ==> face_of(lines_of(s@)[j]) == Some(#[trigger] faces@[j]@),
            decreases ls@.len() - i,
        {
            match face_from_chars(&ls[i]) {
                Some(f) => faces.push(f),
                None => {
                    proof { assert(face_of(lines_of(s@)[i as int]) is None); }
                    return None;
                },
            }
            i = i + 1;
        }
        let a = ObjAsset { faces };
        proof {
            let ls_spec = lines_of(s@);
            assert forall|j: int| 0 <= j < ls_spec.len() implies #[trigger] face_of(ls_spec[j]) == Some(a@[j]) by {
                assert(face_of(lines_of(s@)[j]) == Some(faces@[j]@));
            }
            assert(obj_of(s@) is Some);
            assert(a@ =~= obj_of(s@)->0);
        }
        Some(a)
    }

    /// Reads a model; every line of `s` must be an `f` line.
    pub fn parse(s: &str) -> (r: ObjAsset)
        requires
            obj_of(s@) is Some,
        ensures
            obj_of(s@) == Some(r@),
    {
        match Self::try_parse(s) {
            Some(a) => a,
            None => vstd::pervasive::unreached(),
        }
    }
}

} // verus!

verus! {

/// Every face that is read has at least three corners, one per word after `f`.
pub proof fn law_face_has_three_corners(line: Seq<char>)
    ensures
        face_of(line) matches Some(f) ==> f.len() >= 3 && f.len() == words_of(line).len() - 1,
{
}

/// A model that is read has one face per line.
pub proof fn law_one_face_per_line(s: Seq<char>)
    ensures
        obj_of(s) matches Some(faces) ==> faces.len() == lines_of(s).len()
            && forall|i: int| 0 <= i < faces.len() ==> face_of(lines_of(s)[i]) == Some(#[trigger] faces[i]),
{
}

} // verus!
