//! Reading mesh files of vertex lines `v x y z` and face lines
//! `f i1 i2 i3 [i4]`.
use vstd::prelude::*;

verus! {

/// The bytes `[start, end)` of a word of the text.
#[derive(Debug, Copy, Clone, PartialEq, Eq, Structural)]
pub struct Token {
    pub start: usize,
    pub end: usize,
}

/// A vertex line `v x y z`: where its three coordinates are written.
#[derive(Debug, Copy, Clone, PartialEq, Eq, Structural)]
pub struct VertexLine {
    pub x: Token,
    pub y: Token,
    pub z: Token,
}

/// A mesh file read into its vertices, in file order, and its triangles, as
/// 0-based indices into the vertices.
pub struct ObjectFile {
    pub vertices: Vec<VertexLine>,
    pub triangles: Vec<(usize, usize, usize)>,
}

/// Why a mesh file cannot be used.
#[derive(Debug, Copy, Clone, PartialEq, Eq, Structural)]
pub enum ObjError {
    /// A face line holds a word that is not a face index: index 0, or
    /// anything but decimal digits after an optional `+`.
    BadFaceIndex,
    /// A face names a vertex that the file does not define.
    MissingVertex,
}

/// Bytes that separate the words of a line.
pub open spec fn is_blank(b: u8) -> bool {
    b == 32 || b == 9 || b == 11 || b == 12 || b == 13
}

pub open spec fn is_digit(b: u8) -> bool {
    48 <= b <= 57
}

pub open spec fn token_bytes(text: Seq<u8>, t: Token) -> Seq<u8> {
    text.subrange(t.start as int, t.end as int)
}

/// The value of a run of decimal digits.
pub open spec fn digits_value(s: Seq<u8>) -> int
    decreases s.len(),
{
    if s.len() == 0 {
        0
    } else {
        digits_value(s.drop_last()) * 10 + (s.last() - 48)
    }
}

/// The bytes of a face index without its leading `+`, if any.
pub open spec fn index_digits(s: Seq<u8>) -> Seq<u8> {
    if s.len() > 0 && s[0] == 43 {
        s.drop_first()
    } else {
        s
    }
}

/// A face index: decimal digits, perhaps after a `+`, naming vertex 1 or a
/// later one; the result counts from 0.
pub open spec fn face_index(s: Seq<u8>) -> Option<usize> {
    let digits = index_digits(s);
    if digits.len() > 0 && (forall|i: int| 0 <= i < digits.len() ==> is_digit(#[trigger] digits[i]))
        && 1 <= digits_value(digits) <= usize::MAX {
        Some((digits_value(digits) - 1) as usize)
    } else {
        None
    }
}

/// The face index written as word `k`.
pub open spec fn word_index(text: Seq<u8>, words: Seq<Token>, k: int) -> Option<usize> {
    face_index(token_bytes(text, words[k]))
}

/// The token is the one-letter word `letter`.
pub open spec fn is_word(text: Seq<u8>, t: Token, letter: u8) -> bool {
    t.end == t.start + 1 && text[t.start as int] == letter
}

/// Every word is a face index.
pub open spec fn all_indices(text: Seq<u8>, words: Seq<Token>) -> bool {
    forall|k: int| 0 <= k < words.len() ==> (#[trigger] word_index(text, words, k)) is Some
}

/// The triangles of a face line whose words after `f` are the indices
/// `words`: a triangle gives itself, a quadrilateral `a b c d` gives `a b c`
/// and `c d a`, any other number of corners gives nothing.
pub open spec fn face_triangles(text: Seq<u8>, words: Seq<Token>) -> Seq<(usize, usize, usize)> {
    if words.len() == 3 || words.len() == 4 {
        let i0 = word_index(text, words, 0)->0;
        let i1 = word_index(text, words, 1)->0;
        let i2 = word_index(text, words, 2)->0;
        if words.len() == 3 {
            seq![(i0, i1, i2)]
        } else {
            seq![(i0, i1, i2), (i2, word_index(text, words, 3)->0, i0)]
        }
    } else {
        seq![]
    }
}

/// What the lines read so far gave: the vertices, the triangles, and
/// whether some face line held a word that is not a face index.
pub type MeshSoFar = (Seq<VertexLine>, Seq<(usize, usize, usize)>, bool);

/// What one line, split into its words, adds to what was read so far: `v`
/// with three coordinates adds a vertex; `f` adds its triangles when all
/// its other words are face indices, and marks the text as malformed when
/// one is not; any other line adds nothing.
pub open spec fn read_line(text: Seq<u8>, read: MeshSoFar, words: Seq<Token>) -> MeshSoFar {
    if words.len() == 0 {
        read
    } else if is_word(text, words[0], 118) {
        if words.len() == 4 {
            (read.0.push(VertexLine { x: words[1], y: words[2], z: words[3] }), read.1, read.2)
        } else {
            read
        }
    } else if is_word(text, words[0], 102) {
        if all_indices(text, words.drop_first()) {
            (read.0, read.1 + face_triangles(text, words.drop_first()), read.2)
        } else {
            (read.0, read.1, true)
        }
    } else {
        read
    }
}

/// The state of a left-to-right reading of the text: what the finished lines
/// gave, the finished words of the current line, and where the word being
/// read began.
pub type Scan = (MeshSoFar, Seq<Token>, Option<usize>);

/// The words of the current line once the word being read ends at `i`.
pub open spec fn close_word(s: Scan, i: int) -> Seq<Token> {
    match s.2 {
        Some(st) => s.1.push(Token { start: st, end: i as usize }),
        None => s.1,
    }
}

/// The reading after the first `i` bytes: a newline ends the line, a blank
/// ends a word, any other byte starts a word or continues one.
pub open spec fn scan(text: Seq<u8>, i: int) -> Scan
    decreases i,
{
    if i <= 0 {
        ((seq![], seq![], false), seq![], None)
    } else {
        let s = scan(text, i - 1);
        let b = text[i - 1];
        if b == 10 {
            (read_line(text, s.0, close_word(s, i - 1)), seq![], None)
        } else if is_blank(b) {
            (s.0, close_word(s, i - 1), None)
        } else if s.2 is None {
            (s.0, s.1, Some((i - 1) as usize))
        } else {
            s
        }
    }
}

/// What the whole text gives, its last line included.
pub open spec fn read_text(text: Seq<u8>) -> MeshSoFar {
    let s = scan(text, text.len() as int);
    read_line(text, s.0, close_word(s, text.len() as int))
}

/// Every triangle names vertices below `n`.
pub open spec fn indices_below(triangles: Seq<(usize, usize, usize)>, n: int) -> bool {
    forall|k: int|
        0 <= k < triangles.len() ==> (#[trigger] triangles[k]).0 < n && triangles[k].1 < n && triangles[k].2 < n
}

/// The token lies within the text and is not empty.
pub open spec fn token_in(t: Token, n: int) -> bool {
    t.start < t.end <= n
}

proof fn lemma_digits_prefix(s: Seq<u8>, k: int)
    requires
        0 <= k <= s.len(),
        forall|i: int| 0 <= i < s.len() ==> is_digit(#[trigger] s[i]),
    ensures
        0 <= digits_value(s.subrange(0, k)) <= digits_value(s),
    decreases s.len(),
{
    if k == s.len() {
        assert(s.subrange(0, k) =~= s);
        if s.len() > 0 {
            lemma_digits_prefix(s.drop_last(), k - 1);
        }
    } else {
        lemma_digits_prefix(s.drop_last(), k);
        assert(s.drop_last().subrange(0, k) =~= s.subrange(0, k));
    }
}

/// Reads a face index from the bytes of `t`.
fn parse_face_index(text: &[u8], t: Token) -> (r: Option<usize>)
    requires
        token_in(t, text@.len() as int),
    ensures
        r == face_index(token_bytes(text@, t)),
{
    let ghost s = token_bytes(text@, t);
    let mut i = t.start;
    if text[i] == 43 {
        i += 1;
    }
    let first = i;
    let ghost digits = text@.subrange(first as int, t.end as int);
    assert(digits =~= index_digits(s));
    if i == t.end {
        return None;
    }
    let mut value: usize = 0;
    while i < t.end
        invariant
            first <= i <= t.end <= text@.len(),
            digits == text@.subrange(first as int, t.end as int),
            digits == index_digits(s),
            s == token_bytes(text@, t),
            forall|j: int| first <= j < i ==> is_digit(#[trigger] text@[j]),
            value == digits_value(text@.subrange(first as int, i as int)),
        decreases t.end - i,
    {
        let b = text[i];
        if b < 48 || b > 57 {
            assert(!is_digit(digits[i - first]));
            return None;
        }
        let d = (b - 48) as usize;
        let ghost next = text@.subrange(first as int, i + 1);
        assert(next.drop_last() =~= text@.subrange(first as int, i as int));
        if value > (usize::MAX - d) / 10 {
            assert(value * 10 + d > usize::MAX) by (nonlinear_arith)
                requires value > (usize::MAX - d) / 10, 0 <= d <= 9;
            proof {
                if forall|j: int| 0 <= j < digits.len() ==> is_digit(#[trigger] digits[j]) {
                    lemma_digits_prefix(digits, i + 1 - first);
                    assert(digits.subrange(0, i + 1 - first) =~= next);
                }
            }
            return None;
        }
        assert(value * 10 + d <= usize::MAX) by (nonlinear_arith)
            requires value <= (usize::MAX - d) / 10, 0 <= d <= 9;
        value = value * 10 + d;
        i += 1;
    }
    assert(text@.subrange(first as int, i as int) =~= digits);
    if value == 0 {
        None
    } else {
        Some(value - 1)
    }
}

/// Adds what one line gives to what was read so far.
fn finish_line(
    text: &[u8],
    words: &Vec<Token>,
    vertices: &mut Vec<VertexLine>,
    triangles: &mut Vec<(usize, usize, usize)>,
    malformed: &mut bool,
)
    requires
        forall|k: int| 0 <= k < words@.len() ==> token_in(#[trigger] words@[k], text@.len() as int),
    ensures
        (final(vertices)@, final(triangles)@, *final(malformed)) == read_line(
            text@,
            (old(vertices)@, old(triangles)@, *old(malformed)),
            words@,
        ),
{
    let n = words.len();
    if n == 0 {
        return;
    }
    let head = words[0];
    if head.end == head.start + 1 && text[head.start] == 118 {
        if n == 4 {
            vertices.push(VertexLine { x: words[1], y: words[2], z: words[3] });
        }
    } else if head.end == head.start + 1 && text[head.start] == 102 {
        let ghost rest = words@.drop_first();
        let mut idx: Vec<usize> = Vec::new();
        let mut k: usize = 1;
        while k < n
            invariant
                1 <= k <= n,
                n == words@.len(),
                rest == words@.drop_first(),
                is_word(text@, words@[0], 102),
                forall|j: int| 0 <= j < words@.len() ==> token_in(#[trigger] words@[j], text@.len() as int),
                idx@.len() == k - 1,
                forall|j: int| 0 <= j < idx@.len() ==> word_index(text@, rest, j) == Some(#[trigger] idx@[j]),
                vertices@ == old(vertices)@,
                triangles@ == old(triangles)@,
                *malformed == *old(malformed),
            decreases n - k,
        {
            match parse_face_index(text, words[k]) {
                Some(i) => {
                    assert(rest[k - 1] == words@[k as int]);
                    idx.push(i);
                },
                None => {
                    assert(rest[k - 1] == words@[k as int]);
                    assert(word_index(text@, rest, k - 1) is None);
                    assert(!all_indices(text@, rest));
                    *malformed = true;
                    return;
                },
            }
            k += 1;
        }
        assert forall|j: int| 0 <= j < rest.len() implies (#[trigger] word_index(text@, rest, j)) is Some by {
            assert(word_index(text@, rest, j) == Some(idx@[j]));
        }
        let ghost before = triangles@;
        if idx.len() == 3 {
            triangles.push((idx[0], idx[1], idx[2]));
        } else if idx.len() == 4 {
            triangles.push((idx[0], idx[1], idx[2]));
            triangles.push((idx[2], idx[3], idx[0]));
        }
        assert(triangles@ =~= before + face_triangles(text@, rest));
    }
}

/// Reads a mesh file: its vertex lines `v x y z` and its face lines
/// `f i1 i2 i3` or `f i1 i2 i3 i4`, with 1-based indices, a quadrilateral
/// split into two triangles. Words are separated by blanks and lines by
/// newlines; lines of any other kind, vertex lines without exactly three
/// coordinates and faces with another number of corners are passed over.
/// Fails when a face line holds a word that is not a face index, and
/// otherwise when a face names a vertex that the file does not define.
pub fn parse_object(text: &[u8]) -> (r: Result<ObjectFile, ObjError>)
    ensures
        match r {
            Ok(obj) => {
                &&& !read_text(text@).2
                &&& obj.vertices@ == read_text(text@).0
                &&& obj.triangles@ == read_text(text@).1
                &&& indices_below(obj.triangles@, obj.vertices@.len() as int)
                &&& forall|k: int|
                    0 <= k < obj.vertices@.len() ==> token_in((#[trigger] obj.vertices@[k]).x, text@.len() as int)
                        && token_in(obj.vertices@[k].y, text@.len() as int) && token_in(
                        obj.vertices@[k].z,
                        text@.len() as int,
                    )
            },
            Err(e) => if read_text(text@).2 {
                e == ObjError::BadFaceIndex
            } else {
                e == ObjError::MissingVertex && !indices_below(
                    read_text(text@).1,
                    read_text(text@).0.len() as int,
                )
            },
        },
{
    let mut vertices: Vec<VertexLine> = Vec::new();
    let mut triangles: Vec<(usize, usize, usize)> = Vec::new();
    let mut words: Vec<Token> = Vec::new();
    let mut malformed = false;
    let mut start: Option<usize> = None;
    let mut i: usize = 0;
    while i < text.len()
        invariant
            i <= text@.len(),
            scan(text@, i as int) == ((vertices@, triangles@, malformed), words@, start),
            forall|k: int| 0 <= k < words@.len() ==> token_in(#[trigger] words@[k], i as int),
            start matches Some(st) ==> st < i,
            forall|k: int|
                0 <= k < vertices@.len() ==> token_in((#[trigger] vertices@[k]).x, text@.len() as int)
                    && token_in(vertices@[k].y, text@.len() as int) && token_in(
                    vertices@[k].z,
                    text@.len() as int,
                ),
        decreases text@.len() - i,
    {
        let b = text[i];
        let ghost prev = ((vertices@, triangles@, malformed), words@, start);
        if b == 10 || b == 32 || b == 9 || b == 11 || b == 12 || b == 13 {
            if let Some(st) = start {
                words.push(Token { start: st, end: i });
            }
            assert(words@ == close_word(prev, i as int));
            start = None;
            if b == 10 {
                finish_line(text, &words, &mut vertices, &mut triangles, &mut malformed);
                words = Vec::new();
            }
        } else if start.is_none() {
            start = Some(i);
        }
        i += 1;
    }
    let ghost prev = ((vertices@, triangles@, malformed), words@, start);
    if let Some(st) = start {
        words.push(Token { start: st, end: i });
    }
    assert(words@ == close_word(prev, i as int));
    finish_line(text, &words, &mut vertices, &mut triangles, &mut malformed);
    if malformed {
        return Err(ObjError::BadFaceIndex);
    }
    let count = vertices.len();
    let mut k: usize = 0;
    while k < triangles.len()
        invariant
            k <= triangles@.len(),
            count == vertices@.len(),
            (vertices@, triangles@, false) == read_text(text@),
            indices_below(triangles@.subrange(0, k as int), count as int),
        decreases triangles@.len() - k,
    {
        let (a, b, c) = triangles[k];
        if a >= count || b >= count || c >= count {
            assert(!indices_below(triangles@, count as int));
            return Err(ObjError::MissingVertex);
        }
        assert(indices_below(triangles@.subrange(0, k + 1), count as int)) by {
            assert forall|j: int| 0 <= j < k + 1 implies #[trigger] triangles@.subrange(0, k + 1)[j]
                == triangles@[j] by {}
            assert(forall|j: int| 0 <= j < k ==> #[trigger] triangles@.subrange(0, k as int)[j] == triangles@[j]);
        }
        k += 1;
    }
    assert(triangles@.subrange(0, k as int) =~= triangles@);
    Ok(ObjectFile { vertices, triangles })
}

} // verus!
