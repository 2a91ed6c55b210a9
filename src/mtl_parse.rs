use crate::decimal::{texts, Real};
use crate::numbers::{i64_of, int_of, is_real, string_of};
use crate::obj_parse::{is_real3, opt_text, second, second_of};
use crate::text::{append_chars, chars_of, lines, same_chars, split_on, split_tokens, tokens, views};
use vstd::prelude::*;

verus! {

/// Why a material could not be loaded.
#[derive(Debug)]
pub enum MTLLoadError {
    /// The file could not be read.
    FileNotFound(std::io::Error),
    /// The file could not be parsed: its path, the 1-based line number and the cause.
    Parse(String, usize, String),
    /// The file holds no material of the requested name.
    MtlNotFound(String),
}

/// What is wrong with a property line of a material file.
#[derive(Clone, Copy, Debug, PartialEq, Eq, Structural)]
pub enum MtlFault {
    BadKa,
    BadKd,
    BadKs,
    BadNs,
    BadD,
    BadNi,
    BadIllum,
}

/// The cause that a parse error reports for a fault.
pub open spec fn mtl_fault_text(f: MtlFault) -> Seq<char> {
    match f {
        MtlFault::BadKa => "could not parse Ka"@,
        MtlFault::BadKd => "could not parse Kd"@,
        MtlFault::BadKs => "could not parse Ks"@,
        MtlFault::BadNs => "could not parse Ns"@,
        MtlFault::BadD => "could not parse d"@,
        MtlFault::BadNi => "could not parse Ni"@,
        MtlFault::BadIllum => "could not parse illum"@,
    }
}

impl MtlFault {
    /// The cause that a parse error reports for this fault.
    pub fn message(&self) -> (r: String)
        ensures
            r@ == mtl_fault_text(*self),
    {
        match self {
            MtlFault::BadKa => "could not parse Ka".to_owned(),
            MtlFault::BadKd => "could not parse Kd".to_owned(),
            MtlFault::BadKs => "could not parse Ks".to_owned(),
            MtlFault::BadNs => "could not parse Ns".to_owned(),
            MtlFault::BadD => "could not parse d".to_owned(),
            MtlFault::BadNi => "could not parse Ni".to_owned(),
            MtlFault::BadIllum => "could not parse illum".to_owned(),
        }
    }
}

/// One material record. Every property is optional: absent means the file did not
/// give it, which is not the same as a zero.
#[derive(Debug)]
pub struct ParsedMTL {
    pub name: Option<String>,
    pub ka: Option<[Real; 3]>,
    pub kd: Option<[Real; 3]>,
    pub ks: Option<[Real; 3]>,
    pub ns: Option<Real>,
    pub d: Option<Real>,
    pub ni: Option<Real>,
    pub illum: Option<u16>,
    pub map_bump: Option<String>,
    pub map_kd: Option<String>,
}

/// The texts of a material record.
pub struct MtlModel {
    pub name: Option<Seq<char>>,
    pub ka: Option<Seq<Seq<char>>>,
    pub kd: Option<Seq<Seq<char>>>,
    pub ks: Option<Seq<Seq<char>>>,
    pub ns: Option<Seq<char>>,
    pub d: Option<Seq<char>>,
    pub ni: Option<Seq<char>>,
    pub illum: Option<u16>,
    pub map_bump: Option<Seq<char>>,
    pub map_kd: Option<Seq<char>>,
}

pub open spec fn opt_color(o: Option<[Real; 3]>) -> Option<Seq<Seq<char>>> {
    match o {
        Some(a) => Some(texts(a@)),
        None => None,
    }
}

pub open spec fn opt_real(o: Option<Real>) -> Option<Seq<char>> {
    match o {
        Some(x) => Some(x@),
        None => None,
    }
}

impl ParsedMTL {
    /// The texts that this record holds.
    pub open spec fn model(&self) -> MtlModel {
        MtlModel {
            name: opt_text(self.name),
            ka: opt_color(self.ka),
            kd: opt_color(self.kd),
            ks: opt_color(self.ks),
            ns: opt_real(self.ns),
            d: opt_real(self.d),
            ni: opt_real(self.ni),
            illum: self.illum,
            map_bump: opt_text(self.map_bump),
            map_kd: opt_text(self.map_kd),
        }
    }

    /// A record with the given name and no properties.
    pub fn named(name: Option<String>) -> (r: ParsedMTL)
        ensures
            r.model() == blank_mtl(opt_text(name)),
    {
        ParsedMTL {
            name,
            ka: None,
            kd: None,
            ks: None,
            ns: None,
            d: None,
            ni: None,
            illum: None,
            map_bump: None,
            map_kd: None,
        }
    }
}

/// A record with a name and no properties.
pub open spec fn blank_mtl(name: Option<Seq<char>>) -> MtlModel {
    MtlModel {
        name,
        ka: None,
        kd: None,
        ks: None,
        ns: None,
        d: None,
        ni: None,
        illum: None,
        map_bump: None,
        map_kd: None,
    }
}

/// The illumination model that a token gives, if it is an integer that fits a `u16`.
pub open spec fn illum_of(s: Seq<char>) -> Option<u16> {
    match i64_of(s) {
        Some(v) => if 0 <= v <= u16::MAX {
            Some(v as u16)
        } else {
            None
        },
        None => None,
    }
}

/// The three numbers of a color line, if it has exactly three.
pub open spec fn color_of(t: Seq<Seq<char>>) -> Option<Seq<Seq<char>>> {
    if t.len() == 4 && is_real3(t) {
        Some(t.drop_first())
    } else {
        None
    }
}

/// The number of a scalar line, if it has exactly one.
pub open spec fn scalar_of(t: Seq<Seq<char>>) -> Option<Seq<char>> {
    if t.len() == 2 && is_real(t[1]) {
        Some(t[1])
    } else {
        None
    }
}

/// What a property line with tokens `t` does to a record. Unknown lines, comments
/// among them, change nothing; a later line overrides an earlier one.
pub open spec fn mtl_prop_step(m: MtlModel, t: Seq<Seq<char>>) -> Result<MtlModel, MtlFault> {
    if t.len() == 0 {
        Ok(m)
    } else if t[0] == "Ka"@ {
        if color_of(t) is Some { Ok(MtlModel { ka: color_of(t), ..m }) } else { Err(MtlFault::BadKa) }
    } else if t[0] == "Kd"@ {
        if color_of(t) is Some { Ok(MtlModel { kd: color_of(t), ..m }) } else { Err(MtlFault::BadKd) }
    } else if t[0] == "Ks"@ {
        if color_of(t) is Some { Ok(MtlModel { ks: color_of(t), ..m }) } else { Err(MtlFault::BadKs) }
    } else if t[0] == "Ns"@ {
        if scalar_of(t) is Some { Ok(MtlModel { ns: scalar_of(t), ..m }) } else { Err(MtlFault::BadNs) }
    } else if t[0] == "d"@ {
        if scalar_of(t) is Some { Ok(MtlModel { d: scalar_of(t), ..m }) } else { Err(MtlFault::BadD) }
    } else if t[0] == "Ni"@ {
        if scalar_of(t) is Some { Ok(MtlModel { ni: scalar_of(t), ..m }) } else { Err(MtlFault::BadNi) }
    } else if t[0] == "illum"@ {
        if t.len() == 2 && illum_of(t[1]) is Some {
            Ok(MtlModel { illum: illum_of(t[1]), ..m })
        } else {
            Err(MtlFault::BadIllum)
        }
    } else if t[0] == "map_Bump"@ {
        Ok(MtlModel { map_bump: second(t), ..m })
    } else if t[0] == "map_Kd"@ {
        Ok(MtlModel { map_kd: second(t), ..m })
    } else {
        Ok(m)
    }
}

/// Whether a line starts a new material.
pub open spec fn is_newmtl(t: Seq<Seq<char>>) -> bool {
    t.len() > 0 && t[0] == "newmtl"@
}

/// The keywords of the material format, as characters.
struct MtlWords {
    ka: Vec<char>,
    kd: Vec<char>,
    ks: Vec<char>,
    ns: Vec<char>,
    d: Vec<char>,
    ni: Vec<char>,
    illum: Vec<char>,
    map_bump: Vec<char>,
    map_kd: Vec<char>,
    newmtl: Vec<char>,
}

impl MtlWords {
    spec fn wf(&self) -> bool {
        &&& self.ka@ == "Ka"@
        &&& self.kd@ == "Kd"@
        &&& self.ks@ == "Ks"@
        &&& self.ns@ == "Ns"@
        &&& self.d@ == "d"@
        &&& self.ni@ == "Ni"@
        &&& self.illum@ == "illum"@
        &&& self.map_bump@ == "map_Bump"@
        &&& self.map_kd@ == "map_Kd"@
        &&& self.newmtl@ == "newmtl"@
    }

    fn new() -> (r: Self)
        ensures
            r.wf(),
    {
        MtlWords {
            ka: chars_of("Ka"),
            kd: chars_of("Kd"),
            ks: chars_of("Ks"),
            ns: chars_of("Ns"),
            d: chars_of("d"),
            ni: chars_of("Ni"),
            illum: chars_of("illum"),
            map_bump: chars_of("map_Bump"),
            map_kd: chars_of("map_Kd"),
            newmtl: chars_of("newmtl"),
        }
    }

    /// Tells whether a line starts a new material.
    fn starts_material(&self, toks: &Vec<Vec<char>>) -> (r: bool)
        requires
            self.wf(),
        ensures
            r == is_newmtl(views(toks@)),
    {
        if toks.len() == 0 {
            return false;
        }
        assert(views(toks@)[0] == toks@[0]@);
        same_chars(toks[0].as_slice(), self.newmtl.as_slice())
    }
}

/// The three numbers of tokens 1 to 3 of a color line.
fn color_from(toks: &Vec<Vec<char>>) -> (r: Option<[Real; 3]>)
    ensures
        opt_color(r) == color_of(views(toks@)),
{
    if toks.len() != 4 {
        return None;
    }
    let x = Real::from_token(toks[1].as_slice());
    let y = Real::from_token(toks[2].as_slice());
    let z = Real::from_token(toks[3].as_slice());
    match (x, y, z) {
        (Some(x), Some(y), Some(z)) => {
            let a = [x, y, z];
            assert(texts(a@) =~= views(toks@).drop_first());
            Some(a)
        },
        _ => None,
    }
}

/// The number of a scalar line.
fn scalar_from(toks: &Vec<Vec<char>>) -> (r: Option<Real>)
    ensures
        opt_real(r) == scalar_of(views(toks@)),
{
    if toks.len() != 2 {
        return None;
    }
    Real::from_token(toks[1].as_slice())
}

/// The illumination model of an `illum` line.
fn illum_from(toks: &Vec<Vec<char>>) -> (r: Option<u16>)
    ensures
        r == (if views(toks@).len() == 2 { illum_of(views(toks@)[1]) } else { None }),
{
    if toks.len() != 2 {
        return None;
    }
    match int_of(toks[1].as_slice()) {
        Some(v) => if 0 <= v && v <= u16::MAX as i64 {
            Some(v as u16)
        } else {
            None
        },
        None => None,
    }
}

/// Applies one property line, given as its tokens, to a record.
fn parse_mtl_line(parsed: &mut ParsedMTL, words: &MtlWords, toks: &Vec<Vec<char>>) -> (r: Result<
    (),
    MtlFault,
>)
    requires
        words.wf(),
    ensures
        match mtl_prop_step(old(parsed).model(), views(toks@)) {
            Ok(m) => r is Ok && final(parsed).model() == m,
            Err(f) => r == Err::<(), MtlFault>(f) && final(parsed).model() == old(parsed).model(),
        },
{
    let ghost t = views(toks@);
    if toks.len() == 0 {
        return Ok(());
    }
    assert(t[0] == toks@[0]@);
    assert(t.len() > 1 ==> t[1] == toks@[1]@);
    let kw = toks[0].as_slice();
    if same_chars(kw, words.ka.as_slice()) {
        match color_from(toks) {
            Some(a) => { parsed.ka = Some(a); Ok(()) },
            None => Err(MtlFault::BadKa),
        }
    } else if same_chars(kw, words.kd.as_slice()) {
        match color_from(toks) {
            Some(a) => { parsed.kd = Some(a); Ok(()) },
            None => Err(MtlFault::BadKd),
        }
    } else if same_chars(kw, words.ks.as_slice()) {
        match color_from(toks) {
            Some(a) => { parsed.ks = Some(a); Ok(()) },
            None => Err(MtlFault::BadKs),
        }
    } else if same_chars(kw, words.ns.as_slice()) {
        match scalar_from(toks) {
            Some(x) => { parsed.ns = Some(x); Ok(()) },
            None => Err(MtlFault::BadNs),
        }
    } else if same_chars(kw, words.d.as_slice()) {
        match scalar_from(toks) {
            Some(x) => { parsed.d = Some(x); Ok(()) },
            None => Err(MtlFault::BadD),
        }
    } else if same_chars(kw, words.ni.as_slice()) {
        match scalar_from(toks) {
            Some(x) => { parsed.ni = Some(x); Ok(()) },
            None => Err(MtlFault::BadNi),
        }
    } else if same_chars(kw, words.illum.as_slice()) {
        match illum_from(toks) {
            Some(v) => { parsed.illum = Some(v); Ok(()) },
            None => Err(MtlFault::BadIllum),
        }
    } else if same_chars(kw, words.map_bump.as_slice()) {
        parsed.map_bump = second_of(toks);
        Ok(())
    } else if same_chars(kw, words.map_kd.as_slice()) {
        parsed.map_kd = second_of(toks);
        Ok(())
    } else {
        Ok(())
    }
}

/// Where the search for one named material stands.
pub enum MtlSearch {
    /// The material's `newmtl` line has not been seen.
    Searching,
    /// Its properties are being read.
    Collecting(MtlModel),
    /// The next `newmtl` line ended it.
    Done(MtlModel),
    /// A property line of it, at this 0-based line index, is wrong.
    Failed(int, MtlFault),
}

/// What line `i`, with tokens `t`, does to the search for material `name`.
pub open spec fn search_step(s: MtlSearch, name: Seq<char>, i: int, t: Seq<Seq<char>>) -> MtlSearch {
    match s {
        MtlSearch::Searching => if is_newmtl(t) && second(t) == Some(name) {
            MtlSearch::Collecting(blank_mtl(Some(name)))
        } else {
            MtlSearch::Searching
        },
        MtlSearch::Collecting(m) => if is_newmtl(t) {
            MtlSearch::Done(m)
        } else {
            match mtl_prop_step(m, t) {
                Ok(m2) => MtlSearch::Collecting(m2),
                Err(f) => MtlSearch::Failed(i, f),
            }
        },
        _ => s,
    }
}

/// The search after the first `n` lines.
pub open spec fn search_run(ls: Seq<Seq<char>>, name: Seq<char>, n: int) -> MtlSearch
    decreases n,
{
    if n <= 0 {
        MtlSearch::Searching
    } else {
        search_step(search_run(ls, name, n - 1), name, n - 1, tokens(ls[n - 1]))
    }
}

proof fn lemma_search_settled(ls: Seq<Seq<char>>, name: Seq<char>, n: int, k: int)
    requires
        n <= k,
        search_run(ls, name, n) is Done || search_run(ls, name, n) is Failed,
    ensures
        search_run(ls, name, k) == search_run(ls, name, n),
    decreases k - n,
{
    if n < k {
        lemma_search_settled(ls, name, n, k - 1);
    }
}

/// Parses the material called `name` out of the text of a material file. `filepath`
/// names the file in errors.
///
/// The material starts at the first `newmtl` line that gives exactly that name and ends
/// at the next `newmtl` line or at the end of the text; lines outside it are not read.
pub fn parse_mtl(filepath: &str, text: &str, name: &str) -> (r: Result<ParsedMTL, MTLLoadError>)
    ensures
        match search_run(lines(text@), name@, lines(text@).len() as int) {
            MtlSearch::Searching => r matches Err(MTLLoadError::MtlNotFound(msg)) && msg@ == name@
                + " not found in "@ + filepath@,
            MtlSearch::Collecting(m) => r matches Ok(p) && p.model() == m,
            MtlSearch::Done(m) => r matches Ok(p) && p.model() == m,
            MtlSearch::Failed(i, f) => r matches Err(MTLLoadError::Parse(path, line, msg))
                && path@ == filepath@ && line == i + 1 && msg@ == mtl_fault_text(f),
        },
{
    let cs = chars_of(text);
    let ls = split_on(cs.as_slice(), '\n');
    let ghost all = lines(text@);
    let name_chars = chars_of(name);
    let words = MtlWords::new();
    let mut parsed = ParsedMTL::named(None);
    let mut found = false;
    let mut i: usize = 0;
    while i < ls.len()
        invariant
            i <= ls@.len(),
            views(ls@) == all,
            all == lines(text@),
            name_chars@ == name@,
            words.wf(),
            !found ==> search_run(all, name@, i as int) == MtlSearch::Searching,
            found ==> search_run(all, name@, i as int) == MtlSearch::Collecting(parsed.model()),
        decreases ls@.len() - i,
    {
        assert(all[i as int] == ls@[i as int]@);
        let toks = split_tokens(ls[i].as_slice());
        let starts = words.starts_material(&toks);
        if !found {
            if starts && toks.len() > 1 && same_chars(toks[1].as_slice(), name_chars.as_slice()) {
                assert(views(toks@)[1] == toks@[1]@);
                parsed = ParsedMTL::named(Some(string_of(name_chars.as_slice())));
                found = true;
            } else {
                assert(toks.len() > 1 ==> views(toks@)[1] == toks@[1]@);
            }
        } else if starts {
            proof {
                lemma_search_settled(all, name@, i + 1, all.len() as int);
            }
            return Ok(parsed);
        } else {
            match parse_mtl_line(&mut parsed, &words, &toks) {
                Ok(()) => {},
                Err(f) => {
                    proof {
                        lemma_search_settled(all, name@, i + 1, all.len() as int);
                    }
                    return Err(MTLLoadError::Parse(filepath.to_owned(), i + 1, f.message()));
                },
            }
        }
        i = i + 1;
    }
    if found {
        Ok(parsed)
    } else {
        let mut msg = name_chars;
        let mid = chars_of(" not found in ");
        let path = chars_of(filepath);
        append_chars(&mut msg, mid.as_slice());
        append_chars(&mut msg, path.as_slice());
        Err(MTLLoadError::MtlNotFound(string_of(msg.as_slice())))
    }
}

/// The texts of a sequence of records.
pub open spec fn mtl_models(v: Seq<ParsedMTL>) -> Seq<MtlModel> {
    v.map_values(|p: ParsedMTL| p.model())
}

/// What line `t` does to the records finished so far and the one being read. The first
/// `newmtl` line names the record being read, which keeps any properties given before
/// it; each later one finishes that record and starts a new one.
pub open spec fn all_step(
    done: Seq<MtlModel>,
    cur: MtlModel,
    seen: bool,
    t: Seq<Seq<char>>,
) -> Result<(Seq<MtlModel>, MtlModel, bool), MtlFault> {
    if is_newmtl(t) {
        if seen {
            Ok((done.push(cur), blank_mtl(second(t)), true))
        } else {
            Ok((done, MtlModel { name: second(t), ..cur }, true))
        }
    } else {
        match mtl_prop_step(cur, t) {
            Ok(m2) => Ok((done, m2, seen)),
            Err(f) => Err(f),
        }
    }
}

/// The records after the first `n` lines, or the index of the first bad line and what
/// is wrong with it.
pub open spec fn all_run(ls: Seq<Seq<char>>, n: int) -> Result<
    (Seq<MtlModel>, MtlModel, bool),
    (int, MtlFault),
>
    decreases n,
{
    if n <= 0 {
        Ok((seq![], blank_mtl(None), false))
    } else {
        match all_run(ls, n - 1) {
            Ok(s) => match all_step(s.0, s.1, s.2, tokens(ls[n - 1])) {
                Ok(s2) => Ok(s2),
                Err(f) => Err((n - 1, f)),
            },
            Err(e) => Err(e),
        }
    }
}

proof fn lemma_all_err(ls: Seq<Seq<char>>, n: int, k: int)
    requires
        all_run(ls, n) is Err,
        n <= k,
    ensures
        all_run(ls, k) == all_run(ls, n),
    decreases k - n,
{
    if n < k {
        lemma_all_err(ls, n, k - 1);
    }
}

/// Every material of a text in file order: one record per `newmtl` line, or one
/// unnamed record when there is none.
pub open spec fn all_mtls_of(text: Seq<char>) -> Result<Seq<MtlModel>, (int, MtlFault)> {
    match all_run(lines(text), lines(text).len() as int) {
        Ok(s) => Ok(s.0.push(s.1)),
        Err(e) => Err(e),
    }
}

/// Parses every material of the text of a material file, in file order. Every property
/// line is read, and the first wrong one ends the parse with an error that gives its
/// 1-based number. Properties given before the first `newmtl` line belong to the first
/// record; a text without `newmtl` lines gives one unnamed record. `filepath` names the
/// file in errors.
pub fn parse_all_mtls(filepath: &str, text: &str) -> (r: Result<Vec<ParsedMTL>, MTLLoadError>)
    ensures
        match all_mtls_of(text@) {
            Ok(ms) => r matches Ok(v) && mtl_models(v@) == ms,
            Err((i, f)) => r matches Err(MTLLoadError::Parse(path, line, msg)) && path@
                == filepath@ && line == i + 1 && msg@ == mtl_fault_text(f),
        },
{
    let cs = chars_of(text);
    let ls = split_on(cs.as_slice(), '\n');
    let ghost all = lines(text@);
    let words = MtlWords::new();
    let mut done: Vec<ParsedMTL> = Vec::new();
    let mut cur = ParsedMTL::named(None);
    let mut seen = false;
    let mut i: usize = 0;
    assert(mtl_models(done@) =~= Seq::<MtlModel>::empty());
    while i < ls.len()
        invariant
            i <= ls@.len(),
            views(ls@) == all,
            all == lines(text@),
            words.wf(),
            all_run(all, i as int) == Ok::<_, (int, MtlFault)>(
                (mtl_models(done@), cur.model(), seen),
            ),
        decreases ls@.len() - i,
    {
        assert(all[i as int] == ls@[i as int]@);
        let toks = split_tokens(ls[i].as_slice());
        if words.starts_material(&toks) {
            if seen {
                let ghost before = mtl_models(done@);
                let ghost m = cur.model();
                done.push(cur);
                assert(mtl_models(done@) =~= before.push(m));
                cur = ParsedMTL::named(second_of(&toks));
            } else {
                cur.name = second_of(&toks);
            }
            seen = true;
        } else {
            match parse_mtl_line(&mut cur, &words, &toks) {
                Ok(()) => {},
                Err(f) => {
                    proof {
                        lemma_all_err(all, i + 1, all.len() as int);
                    }
                    return Err(MTLLoadError::Parse(filepath.to_owned(), i + 1, f.message()));
                },
            }
        }
        i = i + 1;
    }
    let ghost before = mtl_models(done@);
    let ghost m = cur.model();
    done.push(cur);
    assert(mtl_models(done@) =~= before.push(m));
    Ok(done)
}

} // verus!
