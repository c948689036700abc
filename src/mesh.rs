use vstd::prelude::*;

verus! {

pub open spec fn is_digit(b: u8) -> bool {
    48 <= b <= 57
}

/// The position just past the run of ASCII digits of `s` that starts at `i`.
pub open spec fn digits_end(s: Seq<u8>, i: int) -> int
    decreases s.len() - i,
{
    if 0 <= i < s.len() && is_digit(s[i]) {
        digits_end(s, i + 1)
    } else {
        i
    }
}

/// The decimal value of the digits `s[i..j]`.
pub open spec fn decimal(s: Seq<u8>, i: int, j: int) -> int
    decreases j - i,
{
    if j <= i {
        0
    } else {
        decimal(s, i, j - 1) * 10 + (s[j - 1] - 48)
    }
}

/// Where a group of three digit runs joined by `/` (`12/3/45`) that starts
/// at `i` ends, if one starts there.
pub open spec fn group_end(s: Seq<u8>, i: int) -> Option<int> {
    let e1 = digits_end(s, i);
    if e1 > i && e1 < s.len() && s[e1] == 47 {
        let e2 = digits_end(s, e1 + 1);
        if e2 > e1 + 1 && e2 < s.len() && s[e2] == 47 {
            let e3 = digits_end(s, e2 + 1);
            if e3 > e2 + 1 {
                Some(e3)
            } else {
                None
            }
        } else {
            None
        }
    } else {
        None
    }
}

/// Where a group that starts at `i` and is followed by a space ends.
pub open spec fn spaced_group_end(s: Seq<u8>, i: int) -> Option<int> {
    match group_end(s, i) {
        Some(e) => if e < s.len() && s[e] == 32 {
            Some(e)
        } else {
            None
        },
        None => None,
    }
}

/// The first numbers of the three groups of a face line: `f `, then three
/// groups separated by single spaces, then anything. `None` for any other line.
pub open spec fn face_numbers(s: Seq<u8>) -> Option<(int, int, int)> {
    if s.len() >= 2 && s[0] == 102 && s[1] == 32 {
        match spaced_group_end(s, 2) {
            Some(e1) => match spaced_group_end(s, e1 + 1) {
                Some(e2) => match group_end(s, e2 + 1) {
                    Some(e3) => Some(
                        (
                            decimal(s, 2, digits_end(s, 2)),
                            decimal(s, e1 + 1, digits_end(s, e1 + 1)),
                            decimal(s, e2 + 1, digits_end(s, e2 + 1)),
                        ),
                    ),
                    None => None,
                },
                None => None,
            },
            None => None,
        }
    } else {
        None
    }
}

/// Why a line could not be read as a face.
#[derive(Clone, Copy, Debug, PartialEq, Eq, Structural)]
pub enum FaceError {
    /// The line is not `f ` followed by three `a/b/c` groups.
    Malformed,
    /// A vertex number is 0 or does not fit in `usize`.
    BadIndex,
}

/// A vertex number of a face line: from 1 up to the largest `usize`.
pub open spec fn valid_number(n: int) -> bool {
    1 <= n <= usize::MAX
}

/// Reads the run of digits of `s` that starts at `i`: where it ends, and its
/// value where that fits in `usize`.
fn read_number(s: &[u8], i: usize) -> (r: (usize, Option<usize>))
    requires
        i <= s@.len(),
    ensures
        r.0 == digits_end(s@, i as int),
        i <= r.0 <= s@.len(),
        r.1 matches Some(v) ==> v == decimal(s@, i as int, r.0 as int),
        r.1 is None ==> decimal(s@, i as int, r.0 as int) > usize::MAX,
{
    let mut k: usize = i;
    let mut value: Option<usize> = Some(0);
    while k < s.len() && 48 <= s[k] && s[k] <= 57
        invariant
            i <= k <= s@.len(),
            digits_end(s@, k as int) == digits_end(s@, i as int),
            value matches Some(v) ==> v == decimal(s@, i as int, k as int),
            value is None ==> decimal(s@, i as int, k as int) > usize::MAX,
        decreases s@.len() - k,
    {
        let d: usize = (s[k] - 48) as usize;
        value = match value {
            Some(v) => match v.checked_mul(10) {
                Some(t) => t.checked_add(d),
                None => None,
            },
            None => None,
        };
        assert(decimal(s@, i as int, k + 1) == decimal(s@, i as int, k as int) * 10 + d);
        k = k + 1;
    }
    (k, value)
}

/// Where a group `a/b/c` that starts at `i` ends, and the value of `a` where
/// it fits in `usize`.
fn read_group(s: &[u8], i: usize) -> (r: Option<(usize, Option<usize>)>)
    requires
        i <= s@.len(),
    ensures
        r is None <==> group_end(s@, i as int) is None,
        r matches Some((e, v)) ==> {
            &&& group_end(s@, i as int) == Some(e as int)
            &&& v matches Some(n) ==> n == decimal(s@, i as int, digits_end(s@, i as int))
            &&& v is None ==> decimal(s@, i as int, digits_end(s@, i as int)) > usize::MAX
        },
{
    let (e1, first) = read_number(s, i);
    if !(e1 > i && e1 < s.len() && s[e1] == 47) {
        return None;
    }
    let (e2, _) = read_number(s, e1 + 1);
    if !(e2 > e1 + 1 && e2 < s.len() && s[e2] == 47) {
        return None;
    }
    let (e3, _) = read_number(s, e2 + 1);
    if e3 > e2 + 1 {
        Some((e3, first))
    } else {
        None
    }
}

/// What reading `s` as a face line gives: the three vertex numbers made
/// 0-based, or why it cannot be read.
pub open spec fn face_result(s: Seq<u8>) -> Result<(usize, usize, usize), FaceError> {
    match face_numbers(s) {
        Some((a, b, c)) => if valid_number(a) && valid_number(b) && valid_number(c) {
            Ok(((a - 1) as usize, (b - 1) as usize, (c - 1) as usize))
        } else {
            Err(FaceError::BadIndex)
        },
        None => Err(FaceError::Malformed),
    }
}

/// Reads a face line `f a/b/c a/b/c a/b/c`: the first number of each group,
/// a 1-based vertex number, made 0-based. Whatever follows the third group
/// is ignored.
pub fn parse_face_line(line: &[u8]) -> (r: Result<(usize, usize, usize), FaceError>)
    ensures
        r == face_result(line@),
{
    if !(line.len() >= 2 && line[0] == 102 && line[1] == 32) {
        return Err(FaceError::Malformed);
    }
    let (e1, a) = match read_group(line, 2) {
        Some(g) => g,
        None => return Err(FaceError::Malformed),
    };
    if !(e1 < line.len() && line[e1] == 32) {
        return Err(FaceError::Malformed);
    }
    let (e2, b) = match read_group(line, e1 + 1) {
        Some(g) => g,
        None => return Err(FaceError::Malformed),
    };
    if !(e2 < line.len() && line[e2] == 32) {
        return Err(FaceError::Malformed);
    }
    let (_, c) = match read_group(line, e2 + 1) {
        Some(g) => g,
        None => return Err(FaceError::Malformed),
    };
    match (a, b, c) {
        (Some(a), Some(b), Some(c)) => {
            if a >= 1 && b >= 1 && c >= 1 {
                Ok((a - 1, b - 1, c - 1))
            } else {
                Err(FaceError::BadIndex)
            }
        },
        _ => Err(FaceError::BadIndex),
    }
}

/// A space or a tab.
pub open spec fn is_blank(b: u8) -> bool {
    b == 32 || b == 9
}

/// The position of the first blank of `s` at or after `i`, or the length of
/// `s` if there is none: where a field that starts at `i` ends.
pub open spec fn field_end(s: Seq<u8>, i: int) -> int
    decreases s.len() - i,
{
    if 0 <= i < s.len() && !is_blank(s[i]) {
        field_end(s, i + 1)
    } else {
        i
    }
}

/// The position of the first byte of `s` at or after `i` that is not a
/// blank, or the length of `s` if there is none.
pub open spec fn skip_blanks(s: Seq<u8>, i: int) -> int
    decreases s.len() - i,
{
    if 0 <= i < s.len() && is_blank(s[i]) {
        skip_blanks(s, i + 1)
    } else {
        i
    }
}

/// The byte ranges of the three coordinate fields of a vertex line: `v` and
/// a space, then three fields, each a non-empty run of bytes other than
/// spaces and tabs, with runs of blanks around them; anything after the
/// third field is ignored. `None` for a line that does not start with `v`
/// and a space, or that has fewer than three fields.
pub open spec fn vertex_field_ranges(s: Seq<u8>) -> Option<((int, int), (int, int), (int, int))> {
    if s.len() >= 2 && s[0] == 118 && s[1] == 32 {
        let s1 = skip_blanks(s, 1);
        let e1 = field_end(s, s1);
        let s2 = skip_blanks(s, e1);
        let e2 = field_end(s, s2);
        let s3 = skip_blanks(s, e2);
        let e3 = field_end(s, s3);
        if s1 < e1 && s2 < e2 && s3 < e3 {
            Some(((s1, e1), (s2, e2), (s3, e3)))
        } else {
            None
        }
    } else {
        None
    }
}

fn find_field_end(s: &[u8], i: usize) -> (e: usize)
    requires
        i <= s@.len(),
    ensures
        e == field_end(s@, i as int),
        i <= e <= s@.len(),
{
    let mut k: usize = i;
    while k < s.len() && s[k] != 32 && s[k] != 9
        invariant
            i <= k <= s@.len(),
            field_end(s@, k as int) == field_end(s@, i as int),
        decreases s@.len() - k,
    {
        k = k + 1;
    }
    k
}

fn find_field_start(s: &[u8], i: usize) -> (e: usize)
    requires
        i <= s@.len(),
    ensures
        e == skip_blanks(s@, i as int),
        i <= e <= s@.len(),
{
    let mut k: usize = i;
    while k < s.len() && (s[k] == 32 || s[k] == 9)
        invariant
            i <= k <= s@.len(),
            skip_blanks(s@, k as int) == skip_blanks(s@, i as int),
        decreases s@.len() - k,
    {
        k = k + 1;
    }
    k
}

/// Locates the three coordinate fields of a vertex line `v x y z`, which
/// starts with `v` and a space, fields separated by spaces or tabs, as byte ranges `start..end` of `line`; the
/// text of each field is left to the caller to read as a number.
pub fn vertex_fields(line: &[u8]) -> (r: Option<((usize, usize), (usize, usize), (usize, usize))>)
    ensures
        r is None <==> vertex_field_ranges(line@) is None,
        r matches Some(((s1, e1), (s2, e2), (s3, e3))) ==> vertex_field_ranges(line@) == Some(
            ((s1 as int, e1 as int), (s2 as int, e2 as int), (s3 as int, e3 as int)),
        ),
        r matches Some(((s1, e1), (s2, e2), (s3, e3))) ==> s1 < e1 <= s2 < e2 <= s3 < e3 <= line@.len(),
{
    if !(line.len() >= 2 && line[0] == 118 && line[1] == 32) {
        return None;
    }
    let s1 = find_field_start(line, 1);
    let e1 = find_field_end(line, s1);
    let s2 = find_field_start(line, e1);
    let e2 = find_field_end(line, s2);
    let s3 = find_field_start(line, e2);
    let e3 = find_field_end(line, s3);
    if s1 < e1 && s2 < e2 && s3 < e3 {
        Some(((s1, e1), (s2, e2), (s3, e3)))
    } else {
        None
    }
}

/// The byte range `start..end` of a field within its line.
#[derive(Clone, Copy, Debug, PartialEq, Eq, Structural)]
pub struct Field {
    pub start: usize,
    pub end: usize,
}

/// What one line of mesh text holds.
#[derive(Clone, Copy, Debug, PartialEq, Eq, Structural)]
pub enum MeshLine {
    /// A vertex line, with the byte ranges of its three coordinate fields.
    Vertex(Field, Field, Field),
    /// A face line, with its three 0-based vertex indices.
    Face(usize, usize, usize),
    /// A vertex line with fewer than three fields.
    BadVertex,
    /// A face line that cannot be read.
    BadFace(FaceError),
    /// Any other line; it is not interpreted.
    Other,
}

/// Whether the line starts as a vertex line: `v` and a space.
pub open spec fn starts_vertex(s: Seq<u8>) -> bool {
    s.len() >= 2 && s[0] == 118 && s[1] == 32
}

/// Whether the line starts as a face line: `f` and a space.
pub open spec fn starts_face(s: Seq<u8>) -> bool {
    s.len() >= 2 && s[0] == 102 && s[1] == 32
}

/// What the line `s` holds.
pub open spec fn mesh_line(s: Seq<u8>) -> MeshLine {
    if starts_vertex(s) {
        match vertex_field_ranges(s) {
            Some(((s1, e1), (s2, e2), (s3, e3))) => MeshLine::Vertex(
                Field { start: s1 as usize, end: e1 as usize },
                Field { start: s2 as usize, end: e2 as usize },
                Field { start: s3 as usize, end: e3 as usize },
            ),
            None => MeshLine::BadVertex,
        }
    } else if starts_face(s) {
        match face_result(s) {
            Ok((a, b, c)) => MeshLine::Face(a, b, c),
            Err(e) => MeshLine::BadFace(e),
        }
    } else {
        MeshLine::Other
    }
}

/// Tells what one line of mesh text holds: a vertex (its fields located), a
/// face (read), a vertex or face line that is malformed, or a line of
/// another kind.
pub fn classify_line(line: &[u8]) -> (r: MeshLine)
    ensures
        r == mesh_line(line@),
{
    if line.len() >= 2 && line[0] == 118 && line[1] == 32 {
        match vertex_fields(line) {
            Some(((s1, e1), (s2, e2), (s3, e3))) => MeshLine::Vertex(
                Field { start: s1, end: e1 },
                Field { start: s2, end: e2 },
                Field { start: s3, end: e3 },
            ),
            None => MeshLine::BadVertex,
        }
    } else if line.len() >= 2 && line[0] == 102 && line[1] == 32 {
        match parse_face_line(line) {
            Ok((a, b, c)) => MeshLine::Face(a, b, c),
            Err(e) => MeshLine::BadFace(e),
        }
    } else {
        MeshLine::Other
    }
}

} // verus!
