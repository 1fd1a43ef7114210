//! The line classifier: reads directives line by line into raw attribute
//! tables and the face-corner triplets, in file order.
use vstd::prelude::*;

use crate::error::{ErrorKind, Failure};
use crate::face::{parse_face_line, read_face, FaceTriplet};
use crate::text::{is_float_text, is_number, same_text, split_pieces, views, words};

verus! {

/// The attributes and face corners of a file, as values: each attribute is
/// the text of its numeric fields.
pub struct RawModel {
    pub positions: Seq<Seq<Seq<char>>>,
    pub normals: Seq<Seq<Seq<char>>>,
    pub tex_coords: Seq<Seq<Seq<char>>>,
    pub faces: Seq<FaceTriplet>,
}

/// The attribute tables and face corners collected from a file. Each
/// position and normal holds the text of three numbers, each texture
/// coordinate that of two.
#[derive(Debug)]
pub struct RawTables {
    pub positions: Vec<Vec<String>>,
    pub normals: Vec<Vec<String>>,
    pub tex_coords: Vec<Vec<String>>,
    pub faces: Vec<FaceTriplet>,
}

/// The character views of a table of fields.
pub open spec fn table_view(t: Seq<Vec<String>>) -> Seq<Seq<Seq<char>>> {
    t.map_values(|v: Vec<String>| views(v@))
}

impl View for RawTables {
    type V = RawModel;

    open spec fn view(&self) -> RawModel {
        RawModel {
            positions: table_view(self.positions@),
            normals: table_view(self.normals@),
            tex_coords: table_view(self.tex_coords@),
            faces: self.faces@,
        }
    }
}

pub open spec fn empty_model() -> RawModel {
    RawModel {
        positions: Seq::empty(),
        normals: Seq::empty(),
        tex_coords: Seq::empty(),
        faces: Seq::empty(),
    }
}

/// The first `n` numeric fields after the directive in `words`, or the
/// first of them that is missing (reported empty) or no number.
pub open spec fn read_coords(words: Seq<Seq<char>>, n: int, line: usize) -> Result<
    Seq<Seq<char>>,
    Failure,
>
    decreases n,
{
    if n <= 0 {
        Ok(Seq::empty())
    } else {
        match read_coords(words, n - 1, line) {
            Err(f) => Err(f),
            Ok(c) => if n >= words.len() {
                Err(Failure::FieldParse { field: Seq::empty(), line })
            } else if !is_float_text(words[n]) {
                Err(Failure::FieldParse { field: words[n], line })
            } else {
                Ok(c.push(words[n]))
            },
        }
    }
}

/// Directives that are accepted and carry no data.
pub open spec fn is_ignored_directive(w: Seq<char>) -> bool {
    w == seq!['#'] || w == seq!['m', 't', 'l', 'l', 'i', 'b'] || w == seq![
        'u',
        's',
        'e',
        'm',
        't',
        'l',
    ] || w == seq!['o'] || w == seq!['g'] || w == seq!['s']
}

/// The effect of the line `text`, numbered `line`, on what was read so far.
pub open spec fn read_line(raw: RawModel, text: Seq<char>, line: usize) -> Result<RawModel, Failure> {
    let w = words(text);
    if w.len() == 0 {
        Ok(raw)
    } else if w[0] == seq!['v'] {
        match read_coords(w, 3, line) {
            Ok(c) => Ok(RawModel { positions: raw.positions.push(c), ..raw }),
            Err(f) => Err(f),
        }
    } else if w[0] == seq!['v', 'n'] {
        match read_coords(w, 3, line) {
            Ok(c) => Ok(RawModel { normals: raw.normals.push(c), ..raw }),
            Err(f) => Err(f),
        }
    } else if w[0] == seq!['v', 't'] {
        match read_coords(w, 2, line) {
            Ok(c) => Ok(RawModel { tex_coords: raw.tex_coords.push(c), ..raw }),
            Err(f) => Err(f),
        }
    } else if w[0] == seq!['f'] {
        match read_face(w, line) {
            Ok(ts) => Ok(RawModel { faces: raw.faces + ts, ..raw }),
            Err(f) => Err(f),
        }
    } else if is_ignored_directive(w[0]) {
        Ok(raw)
    } else {
        Err(Failure::UnrecognizedDirective { token: w[0], line })
    }
}

/// What the lines `lines` hold, read in order and numbered from 1; the
/// first failure ends the reading.
pub open spec fn read_lines(lines: Seq<Seq<char>>) -> Result<RawModel, Failure>
    decreases lines.len(),
{
    if lines.len() == 0 {
        Ok(empty_model())
    } else {
        match read_lines(lines.drop_last()) {
            Err(f) => Err(f),
            Ok(raw) => read_line(raw, lines.last(), lines.len() as usize),
        }
    }
}

proof fn lemma_coords_failure_stays(words: Seq<Seq<char>>, k: int, n: int, line: usize)
    requires
        0 <= k <= n,
        read_coords(words, k, line) is Err,
    ensures
        read_coords(words, n, line) == read_coords(words, k, line),
    decreases n - k,
{
    if k < n {
        lemma_coords_failure_stays(words, k, n - 1, line);
    }
}

proof fn lemma_lines_failure_stays(lines: Seq<Seq<char>>, k: int)
    requires
        0 <= k <= lines.len(),
        read_lines(lines.take(k)) is Err,
    ensures
        read_lines(lines) == read_lines(lines.take(k)),
    decreases lines.len() - k,
{
    if k < lines.len() {
        assert(lines.take(k + 1).drop_last() =~= lines.take(k));
        lemma_lines_failure_stays(lines, k + 1);
    } else {
        assert(lines.take(k) =~= lines);
    }
}

/// Reads the first `n` numeric fields after the directive.
fn parse_coords(words: &Vec<String>, n: usize, line: usize) -> (r: Result<Vec<String>, ErrorKind>)
    requires
        n <= 3,
    ensures
        match read_coords(views(words@), n as int, line) {
            Ok(c) => r is Ok && views(r->Ok_0@) == c,
            Err(f) => r is Err && r->Err_0.reports(f),
        },
{
    let mut out: Vec<String> = Vec::new();
    let mut i: usize = 1;
    assert(views(out@) =~= Seq::<Seq<char>>::empty());
    while i <= n
        invariant
            1 <= i <= n + 1,
            n <= 3,
            read_coords(views(words@), i - 1, line) == Ok::<Seq<Seq<char>>, Failure>(
                views(out@),
            ),
        decreases n + 1 - i,
    {
        if i >= words.len() || !is_number(words[i].as_str()) {
            proof {
                lemma_coords_failure_stays(views(words@), i as int, n as int, line);
            }
            if i >= words.len() {
                return Err(ErrorKind::FieldParseError { field: String::new(), line });
            }
            return Err(ErrorKind::FieldParseError { field: words[i].clone(), line });
        }
        let ghost before = out@;
        out.push(words[i].clone());
        assert(views(out@) =~= views(before).push(words@[i as int]@));
        i = i + 1;
    }
    Ok(out)
}

proof fn lemma_table_push(t: Seq<Vec<String>>, v: Vec<String>)
    ensures
        table_view(t.push(v)) == table_view(t).push(views(v@)),
{
    assert(table_view(t.push(v)) =~= table_view(t).push(views(v@)));
}

impl RawTables {
    pub fn new() -> (r: RawTables)
        ensures
            r@ == empty_model(),
    {
        let r = RawTables {
            positions: Vec::new(),
            normals: Vec::new(),
            tex_coords: Vec::new(),
            faces: Vec::new(),
        };
        assert(r@.positions =~= Seq::<Seq<Seq<char>>>::empty());
        assert(r@.normals =~= Seq::<Seq<Seq<char>>>::empty());
        assert(r@.tex_coords =~= Seq::<Seq<Seq<char>>>::empty());
        r
    }

    /// Reads one line, numbered `line`, into the tables.
    pub fn read_line(&mut self, text: &str, line: usize) -> (r: Result<(), ErrorKind>)
        ensures
            match read_line(old(self)@, text@, line) {
                Ok(m) => r is Ok && final(self)@ == m,
                Err(f) => r is Err && r->Err_0.reports(f),
            },
            r is Err ==> final(self)@ == old(self)@,
    {
        let words = split_pieces(text, false);
        if words.len() == 0 {
            return Ok(());
        }
        let w0 = words[0].as_str();
        proof {
            reveal_strlit("v");
            reveal_strlit("vn");
            reveal_strlit("vt");
            reveal_strlit("f");
            reveal_strlit("#");
            reveal_strlit("mtllib");
            reveal_strlit("usemtl");
            reveal_strlit("o");
            reveal_strlit("g");
            reveal_strlit("s");
        }
        assert("v"@ =~= seq!['v']);
        assert("vn"@ =~= seq!['v', 'n']);
        assert("vt"@ =~= seq!['v', 't']);
        assert("f"@ =~= seq!['f']);
        assert("#"@ =~= seq!['#']);
        assert("mtllib"@ =~= seq!['m', 't', 'l', 'l', 'i', 'b']);
        assert("usemtl"@ =~= seq!['u', 's', 'e', 'm', 't', 'l']);
        assert("o"@ =~= seq!['o']);
        assert("g"@ =~= seq!['g']);
        assert("s"@ =~= seq!['s']);
        if same_text(w0, "v") {
            let c = parse_coords(&words, 3, line)?;
            proof {
                lemma_table_push(self.positions@, c);
            }
            self.positions.push(c);
        } else if same_text(w0, "vn") {
            let c = parse_coords(&words, 3, line)?;
            proof {
                lemma_table_push(self.normals@, c);
            }
            self.normals.push(c);
        } else if same_text(w0, "vt") {
            let c = parse_coords(&words, 2, line)?;
            proof {
                lemma_table_push(self.tex_coords@, c);
            }
            self.tex_coords.push(c);
        } else if same_text(w0, "f") {
            let mut triangle = parse_face_line(&words, line)?;
            self.faces.append(&mut triangle);
        } else if same_text(w0, "#") || same_text(w0, "mtllib") || same_text(w0, "usemtl")
            || same_text(w0, "o") || same_text(w0, "g") || same_text(w0, "s") {
        } else {
            return Err(ErrorKind::UnrecognizedDirective { token: words[0].clone(), line });
        }
        Ok(())
    }
}

/// Reads all lines, numbered from 1, into raw tables.
pub fn collect_lines(lines: &Vec<String>) -> (r: Result<RawTables, ErrorKind>)
    ensures
        match read_lines(views(lines@)) {
            Ok(m) => r is Ok && r->Ok_0@ == m,
            Err(f) => r is Err && r->Err_0.reports(f),
        },
{
    let mut tables = RawTables::new();
    let mut i: usize = 0;
    while i < lines.len()
        invariant
            i <= lines.len(),
            read_lines(views(lines@).take(i as int)) == Ok::<RawModel, Failure>(tables@),
        decreases lines.len() - i,
    {
        proof {
            assert(views(lines@).take(i + 1).drop_last() =~= views(lines@).take(i as int));
        }
        let step = tables.read_line(lines[i].as_str(), i + 1);
        if step.is_err() {
            proof {
                lemma_lines_failure_stays(views(lines@), i + 1);
            }
            return Err(step.unwrap_err());
        }
        i = i + 1;
    }
    assert(views(lines@).take(lines.len() as int) =~= views(lines@));
    Ok(tables)
}

} // verus!
