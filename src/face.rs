//! Face lines: the shape of their corner fields and the triplets they name.
use vstd::prelude::*;

use crate::error::{ErrorKind, Failure};
use crate::text::{index_value, parse_index, slash_fields, split_pieces, views};

verus! {

/// The attribute indices that one face corner names, 1-based as written.
#[derive(PartialEq, Eq, Structural, Clone, Copy, Debug, Hash)]
pub struct FaceTriplet {
    pub position: usize,
    pub normal: Option<usize>,
    pub tex_coord: Option<usize>,
}

/// How the corners of a face line are written.
#[derive(PartialEq, Eq, Structural, Clone, Copy, Debug)]
pub enum TripletFormat {
    /// `v`
    PositionOnly,
    /// `v/vt`
    PositionTexture,
    /// `v//vn`
    PositionNormal,
    /// `v/vt/vn`
    PositionTextureNormal,
}

impl TripletFormat {
    /// The number of fields that one corner takes.
    pub open spec fn stride(self) -> int {
        match self {
            TripletFormat::PositionOnly => 1,
            TripletFormat::PositionTexture => 2,
            _ => 3,
        }
    }

    pub open spec fn has_tex_coord(self) -> bool {
        self is PositionTexture || self is PositionTextureNormal
    }

    pub open spec fn has_normal(self) -> bool {
        self is PositionNormal || self is PositionTextureNormal
    }
}

/// The format of a face line with the given fields: by their count, and for
/// nine fields by whether the second one is empty.
pub open spec fn face_format(fields: Seq<Seq<char>>) -> Option<TripletFormat> {
    if fields.len() == 3 {
        Some(TripletFormat::PositionOnly)
    } else if fields.len() == 6 {
        Some(TripletFormat::PositionTexture)
    } else if fields.len() == 9 {
        if fields[1].len() == 0 {
            Some(TripletFormat::PositionNormal)
        } else {
            Some(TripletFormat::PositionTextureNormal)
        }
    } else {
        None
    }
}

/// The concatenation of the sequences in `s`, in order.
pub open spec fn concat(s: Seq<Seq<Seq<char>>>) -> Seq<Seq<char>>
    decreases s.len(),
{
    if s.len() == 0 {
        Seq::empty()
    } else {
        concat(s.drop_last()) + s.last()
    }
}

/// The fields of a face line whose words are `words`: every word after the
/// directive, split on slashes.
pub open spec fn face_fields(words: Seq<Seq<char>>) -> Seq<Seq<char>> {
    concat(words.skip(1).map_values(|w: Seq<char>| slash_fields(w)))
}

/// Reads corner `k` of a face whose fields are `fields`: its triplet, or the
/// first of its fields, left to right, that is no index.
pub open spec fn read_corner(fields: Seq<Seq<char>>, fmt: TripletFormat, k: int) -> Result<
    FaceTriplet,
    Seq<char>,
> {
    let b = k * fmt.stride();
    let t = fields[b + 1];
    let n = fields[b + 2];
    if index_value(fields[b]) is None {
        Err(fields[b])
    } else if fmt.has_tex_coord() && index_value(t) is None {
        Err(t)
    } else if fmt.has_normal() && index_value(n) is None {
        Err(n)
    } else {
        Ok(
            FaceTriplet {
                position: index_value(fields[b])->0,
                tex_coord: if fmt.has_tex_coord() {
                    index_value(t)
                } else {
                    None
                },
                normal: if fmt.has_normal() {
                    index_value(n)
                } else {
                    None
                },
            },
        )
    }
}

/// The three triplets of a face line with words `words` at line `line`.
pub open spec fn read_face(words: Seq<Seq<char>>, line: usize) -> Result<Seq<FaceTriplet>, Failure> {
    let fields = face_fields(words);
    match face_format(fields) {
        None => Err(Failure::MalformedFace { count: fields.len() as usize, line }),
        Some(fmt) => match read_corner(fields, fmt, 0) {
            Err(f) => Err(Failure::FieldParse { field: f, line }),
            Ok(t0) => match read_corner(fields, fmt, 1) {
                Err(f) => Err(Failure::FieldParse { field: f, line }),
                Ok(t1) => match read_corner(fields, fmt, 2) {
                    Err(f) => Err(Failure::FieldParse { field: f, line }),
                    Ok(t2) => Ok(seq![t0, t1, t2]),
                },
            },
        },
    }
}

/// Tells the format of a face line from its fields.
pub fn get_face_triplet_type(fields: &Vec<String>) -> (r: Option<TripletFormat>)
    ensures
        r == face_format(views(fields@)),
{
    let n = fields.len();
    if n == 3 {
        Some(TripletFormat::PositionOnly)
    } else if n == 6 {
        Some(TripletFormat::PositionTexture)
    } else if n == 9 {
        if fields[1].as_str().unicode_len() == 0 {
            Some(TripletFormat::PositionNormal)
        } else {
            Some(TripletFormat::PositionTextureNormal)
        }
    } else {
        None
    }
}

proof fn lemma_views_append(a: Seq<String>, b: Seq<String>)
    ensures
        views(a + b) == views(a) + views(b),
{
    assert(views(a + b) =~= views(a) + views(b));
}

/// Splits the words of a face line, after the directive, into its fields.
pub fn gather_face_fields(words: &Vec<String>) -> (r: Vec<String>)
    requires
        words.len() >= 1,
    ensures
        views(r@) == face_fields(views(words@)),
{
    let ghost ws = views(words@).skip(1).map_values(|w: Seq<char>| slash_fields(w));
    let mut fields: Vec<String> = Vec::new();
    let mut i: usize = 1;
    while i < words.len()
        invariant
            1 <= i <= words.len(),
            ws == views(words@).skip(1).map_values(|w: Seq<char>| slash_fields(w)),
            views(fields@) == concat(ws.take(i - 1)),
        decreases words.len() - i,
    {
        let mut parts = split_pieces(words[i].as_str(), true);
        proof {
            assert(ws.take(i as int).drop_last() =~= ws.take(i - 1));
            assert(ws.take(i as int).last() == slash_fields(words@[i as int]@));
            lemma_views_append(fields@, parts@);
        }
        fields.append(&mut parts);
        i = i + 1;
    }
    assert(ws.take(words.len() - 1) =~= ws);
    fields
}

/// Reads one index field, or reports it.
fn read_index(fields: &Vec<String>, j: usize, line: usize) -> (r: Result<usize, ErrorKind>)
    requires
        j < fields.len(),
    ensures
        match index_value(fields@[j as int]@) {
            Some(v) => r == Ok::<usize, ErrorKind>(v),
            None => r is Err && r->Err_0.reports(
                Failure::FieldParse { field: fields@[j as int]@, line },
            ),
        },
{
    match parse_index(fields[j].as_str()) {
        Some(v) => Ok(v),
        None => Err(ErrorKind::FieldParseError { field: fields[j].clone(), line }),
    }
}

/// Reads corner `k` of a face line in format `fmt`.
fn parse_corner(fields: &Vec<String>, fmt: TripletFormat, k: usize, line: usize) -> (r: Result<
    FaceTriplet,
    ErrorKind,
>)
    requires
        face_format(views(fields@)) == Some(fmt),
        k < 3,
    ensures
        match read_corner(views(fields@), fmt, k as int) {
            Ok(t) => r == Ok::<FaceTriplet, ErrorKind>(t),
            Err(f) => r is Err && r->Err_0.reports(Failure::FieldParse { field: f, line }),
        },
{
    let stride: usize = match fmt {
        TripletFormat::PositionOnly => 1,
        TripletFormat::PositionTexture => 2,
        _ => 3,
    };
    let b = k * stride;
    let position = read_index(fields, b, line)?;
    let tex_coord = match fmt {
        TripletFormat::PositionTexture | TripletFormat::PositionTextureNormal => Some(
            read_index(fields, b + 1, line)?,
        ),
        _ => None,
    };
    let normal = match fmt {
        TripletFormat::PositionNormal | TripletFormat::PositionTextureNormal => Some(
            read_index(fields, b + 2, line)?,
        ),
        _ => None,
    };
    Ok(FaceTriplet { position, normal, tex_coord })
}

/// Reads the three corners of a face line from its words.
pub fn parse_face_line(words: &Vec<String>, line: usize) -> (r: Result<Vec<FaceTriplet>, ErrorKind>)
    requires
        words.len() >= 1,
    ensures
        match read_face(views(words@), line) {
            Ok(ts) => r is Ok && r->Ok_0@ == ts,
            Err(f) => r is Err && r->Err_0.reports(f),
        },
{
    let fields = gather_face_fields(words);
    let fmt = match get_face_triplet_type(&fields) {
        Some(fmt) => fmt,
        None => {
            return Err(ErrorKind::MalformedFace { count: fields.len(), line });
        },
    };
    let t0 = parse_corner(&fields, fmt, 0, line)?;
    let t1 = parse_corner(&fields, fmt, 1, line)?;
    let t2 = parse_corner(&fields, fmt, 2, line)?;
    let triangle = vec![t0, t1, t2];
    assert(triangle@ =~= seq![t0, t1, t2]);
    Ok(triangle)
}

} // verus!
