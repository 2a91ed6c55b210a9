use crate::decimal::{texts, zero_text, Real};
use crate::dedup::{slot_of, FaceVertexKey, VertexDeduplicator};
use crate::numbers::{i64_of, int_of, is_real, string_of};
use crate::text::{chars_of, lines, pieces, same_chars, split_on, split_tokens, tokens, views};
use vstd::prelude::*;

verus! {

/// `std::io::Error`, declared so that a load error can carry the error of a failed read;
/// the library never looks inside it.
#[verifier::external_type_specification]
#[verifier::external_body]
pub struct ExIoError(std::io::Error);

/// Why a geometry file could not be loaded.
#[derive(Debug)]
pub enum OBJLoadError {
    /// The file could not be read.
    FileNotFound(std::io::Error),
    /// The file could not be parsed: its path, the 1-based line number and the cause.
    Parse(String, usize, String),
}

/// What is wrong with a line of a geometry file.
#[derive(Clone, Copy, Debug, PartialEq, Eq, Structural)]
pub enum ObjFault {
    /// A `v` line that is not three real numbers.
    BadPosition,
    /// A `vt` line that is not two real numbers.
    BadTexCoord,
    /// A `vn` line that is not three real numbers.
    BadNormal,
    /// An `f` line with other than three face-vertices.
    FaceArity,
    /// A face-vertex that is not up to three `/`-separated integers.
    BadFaceVertex,
    /// A face-vertex that refers to an attribute not read yet.
    IndexOutOfRange,
    /// More distinct face-vertices than a 32-bit index can number.
    TooManyVertices,
}

/// The cause that a parse error reports for a fault.
pub open spec fn fault_text(f: ObjFault) -> Seq<char> {
    match f {
        ObjFault::BadPosition => "could not parse position"@,
        ObjFault::BadTexCoord => "could not parse texture coordinate"@,
        ObjFault::BadNormal => "could not parse normal"@,
        ObjFault::FaceArity => "face does not have three vertices"@,
        ObjFault::BadFaceVertex => "could not parse face vertex"@,
        ObjFault::IndexOutOfRange => "face vertex index out of range"@,
        ObjFault::TooManyVertices => "too many vertices"@,
    }
}

impl ObjFault {
    /// The cause that a parse error reports for this fault.
    pub fn message(&self) -> (r: String)
        ensures
            r@ == fault_text(*self),
    {
        match self {
            ObjFault::BadPosition => "could not parse position".to_owned(),
            ObjFault::BadTexCoord => "could not parse texture coordinate".to_owned(),
            ObjFault::BadNormal => "could not parse normal".to_owned(),
            ObjFault::FaceArity => "face does not have three vertices".to_owned(),
            ObjFault::BadFaceVertex => "could not parse face vertex".to_owned(),
            ObjFault::IndexOutOfRange => "face vertex index out of range".to_owned(),
            ObjFault::TooManyVertices => "too many vertices".to_owned(),
        }
    }
}

/// One output vertex: the attributes that its face-vertex key refers to. An absent
/// texture coordinate or normal is all zeros.
#[derive(Clone, Debug)]
pub struct ModelVertex {
    pub position: [Real; 3],
    pub tex_coords: [Real; 2],
    pub normal: [Real; 3],
}

/// The texts of a vertex's position, texture coordinate and normal.
pub open spec fn vertex_texts(v: ModelVertex) -> (Seq<Seq<char>>, Seq<Seq<char>>, Seq<Seq<char>>) {
    (texts(v.position@), texts(v.tex_coords@), texts(v.normal@))
}

/// The texts of each row of attributes.
pub open spec fn rows3(v: Seq<[Real; 3]>) -> Seq<Seq<Seq<char>>> {
    v.map_values(|a: [Real; 3]| texts(a@))
}

pub open spec fn rows2(v: Seq<[Real; 2]>) -> Seq<Seq<Seq<char>>> {
    v.map_values(|a: [Real; 2]| texts(a@))
}

pub open spec fn opt_text(o: Option<String>) -> Option<Seq<char>> {
    match o {
        Some(s) => Some(s@),
        None => None,
    }
}

/// The state of a geometry file read up to some line.
pub struct ObjModel {
    /// Each position line's three numbers, in file order.
    pub verts: Seq<Seq<Seq<char>>>,
    /// Each texture-coordinate line's two numbers.
    pub uvs: Seq<Seq<Seq<char>>>,
    /// Each normal line's three numbers.
    pub normals: Seq<Seq<Seq<char>>>,
    /// The distinct face-vertex keys, in order of first appearance; key `i` is vertex `i`.
    pub keys: Seq<FaceVertexKey>,
    /// Every face-vertex key mentioned by a face, in file order.
    pub corners: Seq<FaceVertexKey>,
    /// The vertex of each mentioned face-vertex.
    pub indices: Seq<u32>,
    /// The name of the last `usemtl` line.
    pub material: Option<Seq<char>>,
    /// The file name of the last `mtllib` line.
    pub material_lib: Option<Seq<char>>,
}

pub open spec fn empty_model() -> ObjModel {
    ObjModel {
        verts: seq![],
        uvs: seq![],
        normals: seq![],
        keys: seq![],
        corners: seq![],
        indices: seq![],
        material: None,
        material_lib: None,
    }
}

/// The tokens after the first one.
pub open spec fn after_keyword(t: Seq<Seq<char>>) -> Seq<Seq<char>> {
    if t.len() > 0 {
        t.drop_first()
    } else {
        t
    }
}

/// The second token, if there is one.
pub open spec fn second(t: Seq<Seq<char>>) -> Option<Seq<char>> {
    if t.len() > 1 {
        Some(t[1])
    } else {
        None
    }
}

/// The index that one `/`-separated field of a face-vertex gives: 0 (absent) for an
/// empty field or a value of at most 0; `None` when the field is not an integer or
/// exceeds every `u32`.
pub open spec fn field_index(f: Seq<char>) -> Option<u32> {
    if f.len() == 0 {
        Some(0u32)
    } else {
        match i64_of(f) {
            Some(n) => if n <= 0 {
                Some(0u32)
            } else if n <= u32::MAX {
                Some(n as u32)
            } else {
                None
            },
            None => None,
        }
    }
}

/// The key that a face-vertex token such as `5/1/2`, `5//2` or `5` writes; missing
/// trailing fields are absent.
pub open spec fn face_vertex_key(tok: Seq<char>) -> Option<FaceVertexKey> {
    let f = pieces(tok, '/');
    let p = field_index(f[0]);
    let t = if f.len() > 1 {
        field_index(f[1])
    } else {
        Some(0u32)
    };
    let n = if f.len() > 2 {
        field_index(f[2])
    } else {
        Some(0u32)
    };
    if f.len() <= 3 && p is Some && t is Some && n is Some {
        Some(FaceVertexKey { position: p->0, uv: t->0, normal: n->0 })
    } else {
        None
    }
}

/// The keys of a face's vertex tokens.
pub open spec fn face_keys(vs: Seq<Seq<char>>) -> Result<Seq<FaceVertexKey>, ObjFault> {
    if vs.len() != 3 {
        Err(ObjFault::FaceArity)
    } else if forall|i: int| 0 <= i < 3 ==> #[trigger] face_vertex_key(vs[i]) is Some {
        Ok(vs.map_values(|v: Seq<char>| face_vertex_key(v)->0))
    } else {
        Err(ObjFault::BadFaceVertex)
    }
}

/// Whether a key refers to a position, and to a texture coordinate and a normal
/// where present, that have been read.
pub open spec fn in_range(m: ObjModel, k: FaceVertexKey) -> bool {
    &&& 1 <= k.position <= m.verts.len()
    &&& k.uv <= m.uvs.len()
    &&& k.normal <= m.normals.len()
}

/// Emits one face-vertex: the vertex of its key, made if the key is new.
pub open spec fn add_corner(m: ObjModel, k: FaceVertexKey) -> Result<ObjModel, ObjFault> {
    if m.keys.contains(k) {
        Ok(
            ObjModel {
                corners: m.corners.push(k),
                indices: m.indices.push(slot_of(m.keys, k) as u32),
                ..m
            },
        )
    } else if m.keys.len() <= u32::MAX {
        Ok(
            ObjModel {
                keys: m.keys.push(k),
                corners: m.corners.push(k),
                indices: m.indices.push(m.keys.len() as u32),
                ..m
            },
        )
    } else {
        Err(ObjFault::TooManyVertices)
    }
}

pub open spec fn add_corners(m: ObjModel, ks: Seq<FaceVertexKey>) -> Result<ObjModel, ObjFault>
    decreases ks.len(),
{
    if ks.len() == 0 {
        Ok(m)
    } else {
        match add_corners(m, ks.drop_last()) {
            Ok(m2) => add_corner(m2, ks.last()),
            Err(e) => Err(e),
        }
    }
}

/// What a face line with vertex tokens `vs` does.
pub open spec fn face_step(m: ObjModel, vs: Seq<Seq<char>>) -> Result<ObjModel, ObjFault> {
    match face_keys(vs) {
        Err(e) => Err(e),
        Ok(ks) => face_step_keys(m, ks),
    }
}

/// What a line with tokens `t` does. Lines whose first token is not a known keyword,
/// comments among them, change nothing.
pub open spec fn obj_step(m: ObjModel, t: Seq<Seq<char>>) -> Result<ObjModel, ObjFault> {
    if t.len() == 0 {
        Ok(m)
    } else if t[0] == "v"@ {
        if t.len() == 4 && is_real3(t) {
            Ok(ObjModel { verts: m.verts.push(t.drop_first()), ..m })
        } else {
            Err(ObjFault::BadPosition)
        }
    } else if t[0] == "vt"@ {
        if t.len() == 3 && is_real(t[1]) && is_real(t[2]) {
            Ok(ObjModel { uvs: m.uvs.push(t.drop_first()), ..m })
        } else {
            Err(ObjFault::BadTexCoord)
        }
    } else if t[0] == "vn"@ {
        if t.len() == 4 && is_real3(t) {
            Ok(ObjModel { normals: m.normals.push(t.drop_first()), ..m })
        } else {
            Err(ObjFault::BadNormal)
        }
    } else if t[0] == "f"@ {
        face_step(m, t.drop_first())
    } else if t[0] == "mtllib"@ {
        Ok(ObjModel { material_lib: second(t), ..m })
    } else if t[0] == "usemtl"@ {
        Ok(ObjModel { material: second(t), ..m })
    } else {
        Ok(m)
    }
}

/// Tokens 1 to 3 are real numbers.
pub open spec fn is_real3(t: Seq<Seq<char>>) -> bool {
    t.len() >= 4 && is_real(t[1]) && is_real(t[2]) && is_real(t[3])
}

/// The geometry after the first `n` lines, or the index of the first bad line and
/// what is wrong with it.
pub open spec fn obj_run(ls: Seq<Seq<char>>, n: int) -> Result<ObjModel, (int, ObjFault)>
    decreases n,
{
    if n <= 0 {
        Ok(empty_model())
    } else {
        match obj_run(ls, n - 1) {
            Ok(m) => match obj_step(m, tokens(ls[n - 1])) {
                Ok(m2) => Ok(m2),
                Err(f) => Err((n - 1, f)),
            },
            Err(e) => Err(e),
        }
    }
}

/// The geometry that a whole text describes.
pub open spec fn obj_of(text: Seq<char>) -> Result<ObjModel, (int, ObjFault)> {
    obj_run(lines(text), lines(text).len() as int)
}

/// The vertex that a key makes: the position it names, and its texture coordinate and
/// normal, or zeros where absent.
pub open spec fn vertex_of(m: ObjModel, k: FaceVertexKey) -> (
    Seq<Seq<char>>,
    Seq<Seq<char>>,
    Seq<Seq<char>>,
) {
    (
        m.verts[k.position - 1],
        if k.uv == 0 {
            seq![zero_text(), zero_text()]
        } else {
            m.uvs[k.uv - 1]
        },
        if k.normal == 0 {
            seq![zero_text(), zero_text(), zero_text()]
        } else {
            m.normals[k.normal - 1]
        },
    )
}

/// A parsed geometry file.
#[derive(Debug)]
pub struct ParsedOBJ {
    /// One vertex per distinct face-vertex key, in order of first appearance.
    pub model_verts: Vec<ModelVertex>,
    /// The key of each vertex.
    pub vertex_keys: Vec<FaceVertexKey>,
    pub raw_verts: Vec<[Real; 3]>,
    pub raw_uvs: Vec<[Real; 2]>,
    pub raw_normals: Vec<[Real; 3]>,
    /// Three vertex indices per triangle.
    pub indices: Vec<u32>,
    /// The material of the last `usemtl` line, which applies to the whole mesh.
    pub material: Option<String>,
    /// The material library of the last `mtllib` line.
    pub material_lib: Option<String>,
}

impl ParsedOBJ {
    /// This value holds the geometry `m`.
    pub open spec fn holds(&self, m: ObjModel) -> bool {
        &&& rows3(self.raw_verts@) == m.verts
        &&& rows2(self.raw_uvs@) == m.uvs
        &&& rows3(self.raw_normals@) == m.normals
        &&& self.vertex_keys@ == m.keys
        &&& self.indices@ == m.indices
        &&& opt_text(self.material) == m.material
        &&& opt_text(self.material_lib) == m.material_lib
        &&& self.model_verts@.len() == m.keys.len()
        &&& forall|i: int|
            0 <= i < m.keys.len() ==> vertex_texts(#[trigger] self.model_verts@[i]) == vertex_of(
                m,
                m.keys[i],
            )
    }
}

/// Reads one `/`-separated field of a face-vertex.
fn field_index_of(f: &[char]) -> (r: Option<u32>)
    ensures
        r == field_index(f@),
{
    if f.len() == 0 {
        return Some(0);
    }
    match int_of(f) {
        Some(n) => if n <= 0 {
            Some(0)
        } else if n <= u32::MAX as i64 {
            Some(n as u32)
        } else {
            None
        },
        None => None,
    }
}

/// Reads a face-vertex token.
pub fn face_vertex_key_of(tok: &[char]) -> (r: Option<FaceVertexKey>)
    ensures
        r == face_vertex_key(tok@),
{
    let f = split_on(tok, '/');
    proof {
        assert(f@.len() == pieces(tok@, '/').len());
        crate::text::lemma_pieces_nonempty(tok@, '/');
        assert(f@[0]@ == pieces(tok@, '/')[0]);
    }
    if f.len() > 3 {
        return None;
    }
    let p = field_index_of(f[0].as_slice());
    let t = if f.len() > 1 {
        assert(f@[1]@ == pieces(tok@, '/')[1]);
        field_index_of(f[1].as_slice())
    } else {
        Some(0)
    };
    let n = if f.len() > 2 {
        assert(f@[2]@ == pieces(tok@, '/')[2]);
        field_index_of(f[2].as_slice())
    } else {
        Some(0)
    };
    match (p, t, n) {
        (Some(p), Some(t), Some(n)) => Some(FaceVertexKey { position: p, uv: t, normal: n }),
        _ => None,
    }
}

/// Reads the face-vertex tokens that follow the first token of `toks`.
fn face_keys_of(toks: &Vec<Vec<char>>) -> (r: Result<Vec<FaceVertexKey>, ObjFault>)
    ensures
        match r {
            Ok(v) => face_keys(after_keyword(views(toks@))) == Ok::<_, ObjFault>(v@),
            Err(e) => face_keys(after_keyword(views(toks@))) == Err::<Seq<FaceVertexKey>, _>(e),
        },
{
    let ghost vs = after_keyword(views(toks@));
    if toks.len() != 4 {
        return Err(ObjFault::FaceArity);
    }
    let mut out: Vec<FaceVertexKey> = Vec::new();
    let mut i: usize = 1;
    while i < 4
        invariant
            1 <= i <= 4,
            toks@.len() == 4,
            vs == after_keyword(views(toks@)),
            out@.len() == i - 1,
            forall|j: int| 0 <= j < i - 1 ==> face_vertex_key(vs[j]) == Some(#[trigger] out@[j]),
        decreases 4 - i,
    {
        assert(vs[i - 1] == toks@[i as int]@);
        match face_vertex_key_of(toks[i].as_slice()) {
            Some(k) => out.push(k),
            None => {
                assert(face_vertex_key(vs[i - 1]) is None);
                return Err(ObjFault::BadFaceVertex);
            },
        }
        i = i + 1;
    }
    assert(vs.len() == 3);
    assert forall|j: int| 0 <= j < 3 implies #[trigger] face_vertex_key(vs[j]) is Some by {
        assert(face_vertex_key(vs[j]) == Some(out@[j]));
    }
    assert(out@ =~= vs.map_values(|v: Seq<char>| face_vertex_key(v)->0));
    Ok(out)
}

/// Reads the face-vertices of a face line such as `f 1/1/1 2/2/1 3/3/1`: the tokens
/// after the first one, which must be exactly three.
pub fn parse_face_line(line: &str) -> (r: Result<Vec<FaceVertexKey>, ObjFault>)
    ensures
        match r {
            Ok(v) => face_keys(after_keyword(tokens(line@))) == Ok::<_, ObjFault>(v@),
            Err(e) => face_keys(after_keyword(tokens(line@))) == Err::<Seq<FaceVertexKey>, _>(e),
        },
{
    let cs = chars_of(line);
    let toks = split_tokens(cs.as_slice());
    face_keys_of(&toks)
}

/// Everything but the grouping of the indices into triangles: keys are distinct and
/// in range, and each index names the vertex of its face-vertex.
pub open spec fn linked(m: ObjModel) -> bool {
    &&& m.keys.no_duplicates()
    &&& m.keys.len() <= u32::MAX + 1
    &&& forall|i: int| 0 <= i < m.keys.len() ==> in_range(m, #[trigger] m.keys[i])
    &&& m.indices.len() == m.corners.len()
    &&& forall|j: int|
        0 <= j < m.indices.len() ==> #[trigger] m.indices[j] < m.keys.len() && m.keys[m.indices[j] as int]
            == m.corners[j]
    &&& m.keys.to_set() == m.corners.to_set()
}

/// What holds of every geometry that a text can describe.
pub open spec fn consistent(m: ObjModel) -> bool {
    &&& linked(m)
    &&& m.indices.len() % 3 == 0
}

proof fn lemma_add_corner(m: ObjModel, k: FaceVertexKey)
    requires
        linked(m),
        in_range(m, k),
        add_corner(m, k) is Ok,
    ensures
        linked(add_corner(m, k)->Ok_0),
        add_corner(m, k)->Ok_0.indices.len() == m.indices.len() + 1,
        add_corner(m, k)->Ok_0.verts == m.verts,
        add_corner(m, k)->Ok_0.uvs == m.uvs,
        add_corner(m, k)->Ok_0.normals == m.normals,
        add_corner(m, k)->Ok_0.material == m.material,
        add_corner(m, k)->Ok_0.material_lib == m.material_lib,
{
    let m2 = add_corner(m, k)->Ok_0;
    if m.keys.contains(k) {
        let s = slot_of(m.keys, k);
        assert(0 <= s < m.keys.len() && m.keys[s] == k);
        assert(m2.keys.to_set() =~= m2.corners.to_set()) by {
            assert(m2.corners.to_set() =~= m.corners.to_set().insert(k)) by {
                m.corners.lemma_push_to_set_commute(k);
            }
            assert(m.keys.to_set().contains(k));
        }
        assert forall|j: int| 0 <= j < m2.indices.len() implies #[trigger] m2.indices[j]
            < m2.keys.len() && m2.keys[m2.indices[j] as int] == m2.corners[j] by {
            if j < m.indices.len() {
                assert(m2.indices[j] == m.indices[j]);
            }
        }
    } else {
        assert(m2.keys.no_duplicates()) by {
            assert forall|a: int, b: int|
                0 <= a < m2.keys.len() && 0 <= b < m2.keys.len() && a != b implies m2.keys[a]
                != m2.keys[b] by {
                if a < m.keys.len() && b < m.keys.len() {
                } else if a < m.keys.len() {
                    assert(m.keys.contains(m.keys[a]));
                } else if b < m.keys.len() {
                    assert(m.keys.contains(m.keys[b]));
                }
            }
        }
        assert(m2.keys.to_set() =~= m2.corners.to_set()) by {
            m.corners.lemma_push_to_set_commute(k);
            m.keys.lemma_push_to_set_commute(k);
        }
        assert forall|i: int| 0 <= i < m2.keys.len() implies in_range(m2, #[trigger] m2.keys[i]) by {
            if i < m.keys.len() {
                assert(m2.keys[i] == m.keys[i]);
            }
        }
        assert forall|j: int| 0 <= j < m2.indices.len() implies #[trigger] m2.indices[j]
            < m2.keys.len() && m2.keys[m2.indices[j] as int] == m2.corners[j] by {
            if j < m.indices.len() {
                assert(m2.indices[j] == m.indices[j]);
                assert(m.indices[j] < m.keys.len() && m.keys[m.indices[j] as int] == m.corners[j]);
            }
        }
    }
}

proof fn lemma_add_corners(m: ObjModel, ks: Seq<FaceVertexKey>)
    requires
        linked(m),
        forall|i: int| 0 <= i < ks.len() ==> in_range(m, #[trigger] ks[i]),
        add_corners(m, ks) is Ok,
    ensures
        linked(add_corners(m, ks)->Ok_0),
        add_corners(m, ks)->Ok_0.indices.len() == m.indices.len() + ks.len(),
        add_corners(m, ks)->Ok_0.verts == m.verts,
        add_corners(m, ks)->Ok_0.uvs == m.uvs,
        add_corners(m, ks)->Ok_0.normals == m.normals,
        add_corners(m, ks)->Ok_0.material == m.material,
        add_corners(m, ks)->Ok_0.material_lib == m.material_lib,
    decreases ks.len(),
{
    if ks.len() > 0 {
        let init = ks.drop_last();
        assert forall|i: int| 0 <= i < init.len() implies in_range(m, #[trigger] init[i]) by {
            assert(init[i] == ks[i]);
        }
        lemma_add_corners(m, init);
        let m2 = add_corners(m, init)->Ok_0;
        assert(in_range(m, ks[ks.len() - 1]));
        lemma_add_corner(m2, ks.last());
    }
}

proof fn lemma_step_consistent(m: ObjModel, t: Seq<Seq<char>>)
    requires
        consistent(m),
        obj_step(m, t) is Ok,
    ensures
        consistent(obj_step(m, t)->Ok_0),
{
    let m2 = obj_step(m, t)->Ok_0;
    if t.len() > 0 && t[0] == "f"@ && t[0] != "v"@ && t[0] != "vt"@ && t[0] != "vn"@ {
        let ks = face_keys(t.drop_first())->Ok_0;
        lemma_add_corners(m, ks);
    } else {
        assert forall|i: int| 0 <= i < m2.keys.len() implies in_range(m2, #[trigger] m2.keys[i]) by {
            assert(in_range(m, m.keys[i]));
        }
    }
}

/// Every geometry read from the first `n` lines of a text is consistent.
pub proof fn lemma_run_consistent(ls: Seq<Seq<char>>, n: int)
    requires
        obj_run(ls, n) is Ok,
    ensures
        consistent(obj_run(ls, n)->Ok_0),
    decreases n,
{
    if n <= 0 {
        let m = empty_model();
        assert(m.keys.to_set() =~= m.corners.to_set());
    } else {
        lemma_run_consistent(ls, n - 1);
        lemma_step_consistent(obj_run(ls, n - 1)->Ok_0, tokens(ls[n - 1]));
    }
}

/// Once a line fails, reading more lines reports that same line.
pub proof fn lemma_run_err(ls: Seq<Seq<char>>, n: int, k: int)
    requires
        obj_run(ls, n) is Err,
        n <= k,
    ensures
        obj_run(ls, k) == obj_run(ls, n),
    decreases k - n,
{
    if n < k {
        lemma_run_err(ls, n, k - 1);
    }
}

proof fn lemma_add_corners_err(m: ObjModel, ks: Seq<FaceVertexKey>, j: int)
    requires
        0 <= j <= ks.len(),
        add_corners(m, ks.take(j)) is Err,
    ensures
        add_corners(m, ks) == add_corners(m, ks.take(j)),
    decreases ks.len() - j,
{
    if j < ks.len() {
        let next = ks.take(j + 1);
        assert(next.drop_last() =~= ks.take(j));
        lemma_add_corners_err(m, ks, j + 1);
    } else {
        assert(ks.take(j) =~= ks);
    }
}

/// The keywords of the geometry format, as characters.
struct ObjWords {
    v: Vec<char>,
    vt: Vec<char>,
    vn: Vec<char>,
    f: Vec<char>,
    mtllib: Vec<char>,
    usemtl: Vec<char>,
}

impl ObjWords {
    spec fn wf(&self) -> bool {
        &&& self.v@ == "v"@
        &&& self.vt@ == "vt"@
        &&& self.vn@ == "vn"@
        &&& self.f@ == "f"@
        &&& self.mtllib@ == "mtllib"@
        &&& self.usemtl@ == "usemtl"@
    }

    fn new() -> (r: Self)
        ensures
            r.wf(),
    {
        ObjWords {
            v: chars_of("v"),
            vt: chars_of("vt"),
            vn: chars_of("vn"),
            f: chars_of("f"),
            mtllib: chars_of("mtllib"),
            usemtl: chars_of("usemtl"),
        }
    }
}

/// The second token as a string, if there is one.
pub fn second_of(toks: &Vec<Vec<char>>) -> (r: Option<String>)
    ensures
        opt_text(r) == second(views(toks@)),
{
    if toks.len() > 1 {
        Some(string_of(toks[1].as_slice()))
    } else {
        None
    }
}

/// The three reals of tokens 1 to 3.
fn reals3(toks: &Vec<Vec<char>>) -> (r: Option<[Real; 3]>)
    requires
        toks@.len() == 4,
    ensures
        r is Some <==> is_real3(views(toks@)),
        r matches Some(a) ==> texts(a@) == views(toks@).drop_first(),
{
    let x = Real::from_token(toks[1].as_slice());
    let y = Real::from_token(toks[2].as_slice());
    let z = Real::from_token(toks[3].as_slice());
    match (x, y, z) {
        (Some(x), Some(y), Some(z)) => {
            let a = [x, y, z];
            assert(texts(a@) =~= views(toks@).drop_first());
            Some(a)
        },
        _ => None,
    }
}

/// The state of a geometry file being read.
struct ObjBuilder {
    raw_verts: Vec<[Real; 3]>,
    raw_uvs: Vec<[Real; 2]>,
    raw_normals: Vec<[Real; 3]>,
    dedup: VertexDeduplicator,
    indices: Vec<u32>,
    material: Option<String>,
    material_lib: Option<String>,
    corners: Ghost<Seq<FaceVertexKey>>,
}

impl ObjBuilder {
    spec fn model(&self) -> ObjModel {
        ObjModel {
            verts: rows3(self.raw_verts@),
            uvs: rows2(self.raw_uvs@),
            normals: rows3(self.raw_normals@),
            keys: self.dedup@,
            corners: self.corners@,
            indices: self.indices@,
            material: opt_text(self.material),
            material_lib: opt_text(self.material_lib),
        }
    }

    fn new() -> (r: Self)
        ensures
            r.dedup.wf(),
            r.model() == empty_model(),
    {
        let r = ObjBuilder {
            raw_verts: Vec::new(),
            raw_uvs: Vec::new(),
            raw_normals: Vec::new(),
            dedup: VertexDeduplicator::new(),
            indices: Vec::new(),
            material: None,
            material_lib: None,
            corners: Ghost(Seq::empty()),
        };
        assert(r.model().verts =~= empty_model().verts);
        assert(r.model().uvs =~= empty_model().uvs);
        assert(r.model().normals =~= empty_model().normals);
        r
    }

    fn key_in_range(&self, k: FaceVertexKey) -> (r: bool)
        ensures
            r == in_range(self.model(), k),
    {
        1 <= k.position && k.position as usize <= self.raw_verts.len() && k.uv as usize
            <= self.raw_uvs.len() && k.normal as usize <= self.raw_normals.len()
    }

    /// Adds the three face-vertices of a face.
    fn add_face(&mut self, ks: &Vec<FaceVertexKey>) -> (r: Result<(), ObjFault>)
        requires
            old(self).dedup.wf(),
            ks@.len() == 3,
        ensures
            final(self).dedup.wf(),
            match face_step_keys(old(self).model(), ks@) {
                Ok(m) => r is Ok && final(self).model() == m,
                Err(f) => r == Err::<(), ObjFault>(f),
            },
    {
        let mut i: usize = 0;
        while i < 3
            invariant
                i <= 3,
                ks@.len() == 3,
                self.dedup.wf(),
                self.model() == old(self).model(),
                forall|j: int| 0 <= j < i ==> in_range(self.model(), #[trigger] ks@[j]),
            decreases 3 - i,
        {
            if !self.key_in_range(ks[i]) {
                return Err(ObjFault::IndexOutOfRange);
            }
            i = i + 1;
        }
        let ghost m0 = self.model();
        assert(ks@.take(0) =~= Seq::<FaceVertexKey>::empty());
        let mut j: usize = 0;
        while j < 3
            invariant
                j <= 3,
                ks@.len() == 3,
                self.dedup.wf(),
                m0 == old(self).model(),
                add_corners(m0, ks@.take(j as int)) == Ok::<_, ObjFault>(self.model()),
                forall|q: int| 0 <= q < 3 ==> in_range(m0, #[trigger] ks@[q]),
            decreases 3 - j,
        {
            let k = ks[j];
            assert(ks@.take(j + 1).drop_last() =~= ks@.take(j as int));
            assert(ks@.take(j + 1).last() == k);
            let ghost before = self.model();
            match self.dedup.resolve(k) {
                Some(s) => {
                    self.indices.push(s);
                    self.corners = Ghost(self.corners@.push(k));
                    assert(self.model().verts == before.verts);
                    assert(self.model() == add_corner(before, k)->Ok_0);
                },
                None => {
                    proof {
                        assert(!before.keys.contains(k) && before.keys.len() > u32::MAX);
                        assert(add_corner(before, k) == Err::<ObjModel, _>(ObjFault::TooManyVertices));
                        assert(add_corners(m0, ks@.take(j + 1)) == Err::<ObjModel, _>(ObjFault::TooManyVertices));
                        lemma_add_corners_err(m0, ks@, j + 1);
                        assert(ks@.take(3) =~= ks@);
                    }
                    return Err(ObjFault::TooManyVertices);
                },
            }
            j = j + 1;
        }
        assert(ks@.take(3) =~= ks@);
        Ok(())
    }

    /// Applies one line, given as its tokens.
    fn step(&mut self, words: &ObjWords, toks: &Vec<Vec<char>>) -> (r: Result<(), ObjFault>)
        requires
            old(self).dedup.wf(),
            words.wf(),
        ensures
            final(self).dedup.wf(),
            match obj_step(old(self).model(), views(toks@)) {
                Ok(m) => r is Ok && final(self).model() == m,
                Err(f) => r == Err::<(), ObjFault>(f),
            },
    {
        let ghost t = views(toks@);
        if toks.len() == 0 {
            return Ok(());
        }
        assert(t[0] == toks@[0]@);
        let kw = toks[0].as_slice();
        if same_chars(kw, words.v.as_slice()) {
            if toks.len() == 4 {
                if let Some(a) = reals3(toks) {
                    let ghost old_rows = rows3(self.raw_verts@);
                    self.raw_verts.push(a);
                    assert(rows3(self.raw_verts@) =~= old_rows.push(t.drop_first()));
                    return Ok(());
                }
            }
            Err(ObjFault::BadPosition)
        } else if same_chars(kw, words.vt.as_slice()) {
            if toks.len() == 3 {
                let x = Real::from_token(toks[1].as_slice());
                let y = Real::from_token(toks[2].as_slice());
                if let (Some(x), Some(y)) = (x, y) {
                    let a = [x, y];
                    let ghost old_rows = rows2(self.raw_uvs@);
                    assert(texts(a@) =~= t.drop_first());
                    self.raw_uvs.push(a);
                    assert(rows2(self.raw_uvs@) =~= old_rows.push(t.drop_first()));
                    return Ok(());
                }
            }
            Err(ObjFault::BadTexCoord)
        } else if same_chars(kw, words.vn.as_slice()) {
            if toks.len() == 4 {
                if let Some(a) = reals3(toks) {
                    let ghost old_rows = rows3(self.raw_normals@);
                    self.raw_normals.push(a);
                    assert(rows3(self.raw_normals@) =~= old_rows.push(t.drop_first()));
                    return Ok(());
                }
            }
            Err(ObjFault::BadNormal)
        } else if same_chars(kw, words.f.as_slice()) {
            match face_keys_of(toks) {
                Ok(ks) => self.add_face(&ks),
                Err(e) => Err(e),
            }
        } else if same_chars(kw, words.mtllib.as_slice()) {
            self.material_lib = second_of(toks);
            Ok(())
        } else if same_chars(kw, words.usemtl.as_slice()) {
            self.material = second_of(toks);
            Ok(())
        } else {
            Ok(())
        }
    }

    /// The parsed geometry, with one vertex per distinct key.
    fn finish(self) -> (p: ParsedOBJ)
        requires
            self.dedup.wf(),
            consistent(self.model()),
        ensures
            p.holds(self.model()),
    {
        let ghost m = self.model();
        let keys = self.dedup.keys();
        let mut model_verts: Vec<ModelVertex> = Vec::new();
        let mut vertex_keys: Vec<FaceVertexKey> = Vec::new();
        let mut i: usize = 0;
        while i < keys.len()
            invariant
                i <= keys@.len(),
                keys@ == m.keys,
                m == self.model(),
                consistent(m),
                vertex_keys@ == keys@.take(i as int),
                model_verts@.len() == i,
                forall|j: int|
                    0 <= j < i ==> vertex_texts(#[trigger] model_verts@[j]) == vertex_of(
                        m,
                        m.keys[j],
                    ),
            decreases keys@.len() - i,
        {
            let k = keys[i];
            assert(in_range(m, m.keys[i as int]));
            let p = &self.raw_verts[(k.position - 1) as usize];
            let position = [p[0].duplicate(), p[1].duplicate(), p[2].duplicate()];
            assert(texts(position@) =~= texts(p@));
            let tex_coords = if k.uv == 0 {
                [Real::zero(), Real::zero()]
            } else {
                let t = &self.raw_uvs[(k.uv - 1) as usize];
                [t[0].duplicate(), t[1].duplicate()]
            };
            let normal = if k.normal == 0 {
                [Real::zero(), Real::zero(), Real::zero()]
            } else {
                let n = &self.raw_normals[(k.normal - 1) as usize];
                [n[0].duplicate(), n[1].duplicate(), n[2].duplicate()]
            };
            let v = ModelVertex { position, tex_coords, normal };
            proof {
                let want = vertex_of(m, k);
                assert(vertex_texts(v).0 =~= want.0);
                if k.uv == 0 {
                    assert(vertex_texts(v).1 =~= want.1);
                } else {
                    assert(vertex_texts(v).1 =~= want.1);
                }
                if k.normal == 0 {
                    assert(vertex_texts(v).2 =~= want.2);
                } else {
                    assert(vertex_texts(v).2 =~= want.2);
                }
            }
            model_verts.push(v);
            vertex_keys.push(k);
            assert(vertex_keys@ =~= keys@.take(i + 1));
            i = i + 1;
        }
        assert(vertex_keys@ =~= keys@);
        ParsedOBJ {
            model_verts,
            vertex_keys,
            raw_verts: self.raw_verts,
            raw_uvs: self.raw_uvs,
            raw_normals: self.raw_normals,
            indices: self.indices,
            material: self.material,
            material_lib: self.material_lib,
        }
    }
}

/// What a face with keys `ks` does, the keys being read already.
pub open spec fn face_step_keys(m: ObjModel, ks: Seq<FaceVertexKey>) -> Result<ObjModel, ObjFault> {
    if forall|i: int| 0 <= i < ks.len() ==> in_range(m, #[trigger] ks[i]) {
        add_corners(m, ks)
    } else {
        Err(ObjFault::IndexOutOfRange)
    }
}

/// Parses the text of a geometry file. `filepath` names the file in errors.
///
/// Lines are read in order; the first line that is wrong ends the parse with an error
/// that gives its 1-based number. Otherwise the result holds every position, texture
/// coordinate and normal, one vertex per distinct face-vertex key in order of first
/// appearance, three indices per face, and the last `usemtl` and `mtllib` names.
pub fn parse_obj(filepath: &str, text: &str) -> (r: Result<ParsedOBJ, OBJLoadError>)
    ensures
        match obj_of(text@) {
            Ok(m) => r matches Ok(p) && p.holds(m),
            Err((i, f)) => r matches Err(OBJLoadError::Parse(path, line, msg)) && path@
                == filepath@ && line == i + 1 && msg@ == fault_text(f),
        },
{
    let cs = chars_of(text);
    let ls = split_on(cs.as_slice(), '\n');
    let ghost all = lines(text@);
    let words = ObjWords::new();
    let mut b = ObjBuilder::new();
    let mut i: usize = 0;
    while i < ls.len()
        invariant
            i <= ls@.len(),
            views(ls@) == all,
            all == lines(text@),
            words.wf(),
            b.dedup.wf(),
            obj_run(all, i as int) == Ok::<_, (int, ObjFault)>(b.model()),
        decreases ls@.len() - i,
    {
        assert(all[i as int] == ls@[i as int]@);
        let toks = split_tokens(ls[i].as_slice());
        match b.step(&words, &toks) {
            Ok(()) => {},
            Err(f) => {
                proof {
                    lemma_run_err(all, i + 1, all.len() as int);
                }
                return Err(OBJLoadError::Parse(filepath.to_owned(), i + 1, f.message()));
            },
        }
        i = i + 1;
    }
    proof {
        lemma_run_consistent(all, i as int);
    }
    Ok(b.finish())
}

/// Deduplication: a parsed geometry has exactly as many vertices as there are distinct
/// face-vertex keys among all the face-vertices that its faces mention.
pub proof fn lemma_vertex_count_is_distinct_keys(text: Seq<char>)
    requires
        obj_of(text) is Ok,
    ensures
        obj_of(text)->Ok_0.keys.len() == obj_of(text)->Ok_0.corners.to_set().len(),
        obj_of(text)->Ok_0.keys.to_set() == obj_of(text)->Ok_0.corners.to_set(),
{
    lemma_run_consistent(lines(text), lines(text).len() as int);
    let m = obj_of(text)->Ok_0;
    m.keys.unique_seq_to_set();
}

/// Index validity: every index of a parsed geometry names one of its vertices, there
/// are three per triangle, and each names the vertex of its own face-vertex.
pub proof fn lemma_indices_valid(text: Seq<char>)
    requires
        obj_of(text) is Ok,
    ensures
        obj_of(text)->Ok_0.indices.len() % 3 == 0,
        forall|j: int|
            0 <= j < obj_of(text)->Ok_0.indices.len() ==> #[trigger] obj_of(text)->Ok_0.indices[j]
                < obj_of(text)->Ok_0.keys.len(),
        forall|j: int|
            0 <= j < obj_of(text)->Ok_0.indices.len() ==> obj_of(text)->Ok_0.keys[#[trigger] obj_of(
                text,
            )->Ok_0.indices[j] as int] == obj_of(text)->Ok_0.corners[j],
{
    lemma_run_consistent(lines(text), lines(text).len() as int);
}

} // verus!
