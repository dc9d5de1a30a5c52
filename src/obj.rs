//! The Wavefront OBJ subset that the meshes are written in: `v`, `vt` and
//! `f` lines, parsed from bytes, and the normalization of faces into an
//! indexed vertex list. Coordinates stay the text tokens they were written
//! as; turning them into numbers is left to the caller.
use vstd::prelude::*;
use std::collections::HashMap;

verus! {

/// The three indices of one face corner, each counted from 1.
#[derive(PartialEq, Eq, Structural, Clone, Copy, Debug, Hash)]
pub struct Indices {
    pub vertex: u32,
    pub texture: Option<u32>,
    pub normal: Option<u32>,
}

impl Indices {
    /// Every index present is at least 1.
    pub open spec fn wf(self) -> bool {
        &&& self.vertex >= 1
        &&& self.texture matches Some(t) ==> t >= 1
        &&& self.normal matches Some(n) ==> n >= 1
    }
}

/// Why an OBJ text could not be read.
#[derive(Debug)]
pub enum ObjError {
    /// A line starts with an identifier this format does not know.
    InvalidIden(Vec<u8>),
    /// A number could not be read from this text.
    InvalidNum(Vec<u8>),
    /// A face refers to a texture coordinate that does not exist.
    InvalidTextureIndex(u32),
    /// A face refers to a vertex that does not exist.
    InvalidVertexIndex(u32),
    /// A line has fewer numbers than its kind needs: found, expected.
    NotEnoughNums(u32, u32),
    /// A line has more numbers than its kind takes.
    TooManyNums,
}

/// The bytes that `u8::is_ascii_whitespace` accepts.
pub open spec fn is_ws(b: u8) -> bool {
    b == 0x20u8 || b == 0x09u8 || b == 0x0Au8 || b == 0x0Cu8 || b == 0x0Du8
}

/// Length of the run of non-whitespace bytes at the start of `s`.
pub open spec fn word_len(s: Seq<u8>) -> nat
    decreases s.len(),
{
    if s.len() == 0 || is_ws(s[0]) {
        0
    } else {
        1 + word_len(s.drop_first())
    }
}

/// The whitespace-separated words of `s`, empty ones left out.
pub open spec fn words(s: Seq<u8>) -> Seq<Seq<u8>>
    decreases s.len(),
{
    if s.len() == 0 {
        Seq::empty()
    } else if is_ws(s[0]) {
        words(s.drop_first())
    } else {
        let n = word_len(s);
        proof {
            lemma_word_len_bounds(s);
        }
        seq![s.subrange(0, n as int)] + words(s.skip(n as int))
    }
}

pub proof fn lemma_word_len_bounds(s: Seq<u8>)
    ensures
        word_len(s) <= s.len(),
        s.len() > 0 && !is_ws(s[0]) ==> word_len(s) >= 1,
    decreases s.len(),
{
    if s.len() > 0 && !is_ws(s[0]) {
        lemma_word_len_bounds(s.drop_first());
    }
}

pub proof fn lemma_words_nonempty(s: Seq<u8>)
    ensures
        forall|k: int| 0 <= k < words(s).len() ==> (#[trigger] words(s)[k]).len() > 0,
    decreases s.len(),
{
    if s.len() > 0 {
        if is_ws(s[0]) {
            lemma_words_nonempty(s.drop_first());
            assert(words(s) == words(s.drop_first()));
        } else {
            lemma_word_len_bounds(s);
            let n = word_len(s);
            lemma_words_nonempty(s.skip(n as int));
            let w = words(s);
            assert(w == seq![s.subrange(0, n as int)] + words(s.skip(n as int)));
            assert forall|k: int| 0 <= k < w.len() implies (#[trigger] w[k]).len() > 0 by {
                if k > 0 {
                    assert(w[k] == words(s.skip(n as int))[k - 1]);
                }
            }
        }
    }
}

proof fn lemma_word_len(s: Seq<u8>, j: int)
    requires
        0 <= j <= s.len(),
        forall|k: int| 0 <= k < j ==> !is_ws(#[trigger] s[k]),
        j == s.len() || is_ws(s[j]),
    ensures
        word_len(s) == j,
    decreases j,
{
    if j > 0 {
        let t = s.drop_first();
        assert forall|k: int| 0 <= k < j - 1 implies !is_ws(#[trigger] t[k]) by {
            assert(t[k] == s[k + 1]);
        }
        if j - 1 < t.len() {
            assert(t[j - 1] == s[j]);
        }
        lemma_word_len(t, j - 1);
    }
}

fn is_ws_byte(b: u8) -> (r: bool)
    ensures
        r == is_ws(b),
{
    b == 0x20u8 || b == 0x09u8 || b == 0x0Au8 || b == 0x0Cu8 || b == 0x0Du8
}

fn copy_range(s: &[u8], from: usize, to: usize) -> (r: Vec<u8>)
    requires
        from <= to <= s.len(),
    ensures
        r@ == s@.subrange(from as int, to as int),
{
    let mut out: Vec<u8> = Vec::new();
    let mut i: usize = from;
    while i < to
        invariant
            from <= i <= to,
            to <= s.len(),
            out@ == s@.subrange(from as int, i as int),
        decreases to - i,
    {
        out.push(s[i]);
        i = i + 1;
        assert(out@ =~= s@.subrange(from as int, i as int));
    }
    out
}

/// The views of a list of byte strings.
pub open spec fn byte_views(v: Seq<Vec<u8>>) -> Seq<Seq<u8>> {
    v.map_values(|w: Vec<u8>| w@)
}

/// Splits a line into its whitespace-separated words.
pub fn split_words(s: &[u8]) -> (r: Vec<Vec<u8>>)
    ensures
        byte_views(r@) == words(s@),
{
    let mut out: Vec<Vec<u8>> = Vec::new();
    let mut i: usize = 0;
    assert(s@.skip(0) =~= s@);
    assert(byte_views(out@) + words(s@) =~= words(s@));
    while i < s.len()
        invariant
            i <= s.len(),
            byte_views(out@) + words(s@.skip(i as int)) == words(s@),
        decreases s.len() - i,
    {
        let ghost rest = s@.skip(i as int);
        if is_ws_byte(s[i]) {
            assert(rest.drop_first() =~= s@.skip(i + 1));
            i = i + 1;
        } else {
            let mut j: usize = i;
            while j < s.len() && !is_ws_byte(s[j])
                invariant
                    i <= j <= s.len(),
                    forall|k: int| i <= k < j ==> !is_ws(#[trigger] s@[k]),
                decreases s.len() - j,
            {
                j = j + 1;
            }
            proof {
                assert forall|k: int| 0 <= k < j - i implies !is_ws(#[trigger] rest[k]) by {
                    assert(rest[k] == s@[i + k]);
                }
                if j < s.len() {
                    assert(rest[j - i] == s@[j as int]);
                }
                lemma_word_len(rest, j - i);
                assert(rest.subrange(0, j - i) =~= s@.subrange(i as int, j as int));
                assert(rest.skip(j - i) =~= s@.skip(j as int));
            }
            let w = copy_range(s, i, j);
            let ghost before = out@;
            out.push(w);
            proof {
                assert(byte_views(out@) =~= byte_views(before).push(w@));
                assert(byte_views(out@) + words(s@.skip(j as int))
                    =~= byte_views(before) + words(rest));
            }
            i = j;
        }
    }
    proof {
        assert(s@.skip(i as int) =~= Seq::<u8>::empty());
        assert(byte_views(out@) + Seq::<Seq<u8>>::empty() =~= byte_views(out@));
    }
    out
}

/// The value of a string of decimal digits.
pub open spec fn digits_value(s: Seq<u8>) -> nat
    decreases s.len(),
{
    if s.len() == 0 {
        0
    } else {
        digits_value(s.drop_last()) * 10 + (s.last() - 0x30u8) as nat
    }
}

pub open spec fn all_digits(s: Seq<u8>) -> bool {
    forall|k: int| 0 <= k < s.len() ==> 0x30u8 <= #[trigger] s[k] <= 0x39u8
}

/// A non-zero `u32` as `str::parse::<NonZeroU32>` reads it: an optional
/// `+`, then one or more decimal digits, of a value from 1 to `u32::MAX`.
pub open spec fn nonzero_u32_spec(s: Seq<u8>) -> Option<u32> {
    let d = if s.len() > 0 && s[0] == 0x2Bu8 { s.drop_first() } else { s };
    if d.len() > 0 && all_digits(d) && 1 <= digits_value(d) <= u32::MAX {
        Some(digits_value(d) as u32)
    } else {
        None
    }
}

proof fn lemma_digits_value_mono(s: Seq<u8>, i: int)
    requires
        0 <= i <= s.len(),
        all_digits(s),
    ensures
        digits_value(s.subrange(0, i)) <= digits_value(s),
    decreases s.len() - i,
{
    if i < s.len() {
        lemma_digits_value_mono(s, i + 1);
        assert(s.subrange(0, i + 1).drop_last() =~= s.subrange(0, i));
    } else {
        assert(s.subrange(0, i) =~= s);
    }
}

/// Reads a non-zero `u32` from decimal text.
pub fn parse_nonzero_u32(s: &[u8]) -> (r: Option<u32>)
    ensures
        r == nonzero_u32_spec(s@),
{
    let start: usize = if s.len() > 0 && s[0] == 0x2Bu8 { 1 } else { 0 };
    let ghost d = if s@.len() > 0 && s@[0] == 0x2Bu8 { s@.drop_first() } else { s@ };
    assert(d =~= s@.skip(start as int));
    if start >= s.len() {
        return None;
    }
    let mut acc: u64 = 0;
    let mut i: usize = start;
    while i < s.len()
        invariant
            start <= i <= s.len(),
            d == s@.skip(start as int),
            d == (if s@.len() > 0 && s@[0] == 0x2Bu8 { s@.drop_first() } else { s@ }),
            all_digits(s@.subrange(start as int, i as int)),
            acc as nat == digits_value(s@.subrange(start as int, i as int)),
            acc <= u32::MAX,
        decreases s.len() - i,
    {
        let b = s[i];
        if b < 0x30u8 || b > 0x39u8 {
            proof {
                assert(d[i - start] == b);
                assert(!all_digits(d));
            }
            return None;
        }
        let next: u64 = acc * 10 + (b - 0x30u8) as u64;
        proof {
            assert(s@.subrange(start as int, i + 1).drop_last() =~= s@.subrange(start as int, i as int));
        }
        if next > 0xFFFF_FFFFu64 {
            proof {
                assert(s@.subrange(start as int, i + 1).last() == b);
                assert(digits_value(s@.subrange(start as int, i + 1)) == next);
                assert(all_digits(s@.subrange(start as int, i + 1)));
                if all_digits(d) {
                    assert(s@.subrange(start as int, i + 1) =~= d.subrange(0, i + 1 - start));
                    lemma_digits_value_mono(d, i + 1 - start);
                }
            }
            return None;
        }
        acc = next;
        i = i + 1;
    }
    assert(s@.subrange(start as int, i as int) =~= d);
    if acc == 0 {
        return None;
    }
    Some(acc as u32)
}

/// Abstract value of an [`ObjError`].
pub ghost enum ObjErrorView {
    InvalidIden(Seq<u8>),
    InvalidNum(Seq<u8>),
    InvalidTextureIndex(u32),
    InvalidVertexIndex(u32),
    NotEnoughNums(u32, u32),
    TooManyNums,
}

impl View for ObjError {
    type V = ObjErrorView;

    open spec fn view(&self) -> ObjErrorView {
        match self {
            ObjError::InvalidIden(s) => ObjErrorView::InvalidIden(s@),
            ObjError::InvalidNum(s) => ObjErrorView::InvalidNum(s@),
            ObjError::InvalidTextureIndex(i) => ObjErrorView::InvalidTextureIndex(*i),
            ObjError::InvalidVertexIndex(i) => ObjErrorView::InvalidVertexIndex(*i),
            ObjError::NotEnoughNums(f, e) => ObjErrorView::NotEnoughNums(*f, *e),
            ObjError::TooManyNums => ObjErrorView::TooManyNums,
        }
    }
}

/// Position of the first `/` at or after `from`, or the length of `s`.
pub open spec fn slash_pos(s: Seq<u8>, from: int) -> int
    decreases s.len() - from,
{
    if from >= s.len() {
        s.len() as int
    } else if s[from] == 0x2Fu8 {
        from
    } else {
        slash_pos(s, from + 1)
    }
}

proof fn lemma_slash_pos_bounds(s: Seq<u8>, from: int)
    requires
        0 <= from <= s.len(),
    ensures
        from <= slash_pos(s, from) <= s.len(),
    decreases s.len() - from,
{
    if from < s.len() && s[from] != 0x2Fu8 {
        lemma_slash_pos_bounds(s, from + 1);
    }
}

/// The `/`-separated fields of a face corner: the first, the second if
/// there is a first `/`, the third if there is a second one. Later fields
/// are ignored.
pub open spec fn corner_fields(s: Seq<u8>) -> (Seq<u8>, Option<Seq<u8>>, Option<Seq<u8>>) {
    let slash1 = slash_pos(s, 0);
    if slash1 >= s.len() {
        (s, None, None)
    } else {
        let slash2 = slash_pos(s, slash1 + 1);
        if slash2 >= s.len() {
            (s.subrange(0, slash1), Some(s.subrange(slash1 + 1, s.len() as int)), None)
        } else {
            let slash3 = slash_pos(s, slash2 + 1);
            (s.subrange(0, slash1), Some(s.subrange(slash1 + 1, slash2)), Some(s.subrange(slash2 + 1, slash3)))
        }
    }
}

/// How a face corner such as `3`, `3/1`, `3//2` or `3/1/2` reads: the
/// vertex index, an optional texture index (an empty field means none), an
/// optional normal index; the first field that is not a non-zero `u32`
/// gives `InvalidNum` with that field.
pub open spec fn corner_spec(s: Seq<u8>) -> Result<Indices, ObjErrorView> {
    let (f0, f1, f2) = corner_fields(s);
    if nonzero_u32_spec(f0) is None {
        Err(ObjErrorView::InvalidNum(f0))
    } else if f1 matches Some(t) && t.len() > 0 && nonzero_u32_spec(t) is None {
        Err(ObjErrorView::InvalidNum(f1.unwrap()))
    } else if f2 matches Some(n) && nonzero_u32_spec(n) is None {
        Err(ObjErrorView::InvalidNum(f2.unwrap()))
    } else {
        Ok(Indices {
            vertex: nonzero_u32_spec(f0).unwrap(),
            texture: match f1 {
                Some(t) if t.len() > 0 => nonzero_u32_spec(t),
                _ => None,
            },
            normal: match f2 {
                Some(n) => nonzero_u32_spec(n),
                None => None,
            },
        })
    }
}

/// The view of a result whose error is an [`ObjError`].
pub open spec fn result_view<T>(r: Result<T, ObjError>) -> Result<T, ObjErrorView> {
    match r {
        Ok(v) => Ok(v),
        Err(e) => Err(e@),
    }
}

fn find_slash(s: &[u8], from: usize) -> (r: usize)
    requires
        from <= s.len(),
    ensures
        r as int == slash_pos(s@, from as int),
{
    let mut i = from;
    while i < s.len() && s[i] != 0x2Fu8
        invariant
            from <= i <= s.len(),
            slash_pos(s@, i as int) == slash_pos(s@, from as int),
        decreases s.len() - i,
    {
        i = i + 1;
    }
    i
}

fn parse_field(s: &[u8], from: usize, to: usize) -> (r: Result<u32, ObjError>)
    requires
        from <= to <= s.len(),
    ensures
        match r {
            Ok(v) => nonzero_u32_spec(s@.subrange(from as int, to as int)) == Some(v),
            Err(e) => nonzero_u32_spec(s@.subrange(from as int, to as int)) is None
                && e@ == ObjErrorView::InvalidNum(s@.subrange(from as int, to as int)),
        },
{
    let field = copy_range(s, from, to);
    match parse_nonzero_u32(field.as_slice()) {
        Some(v) => Ok(v),
        None => Err(ObjError::InvalidNum(field)),
    }
}

impl Indices {
    /// Reads a face corner (see [`corner_spec`]).
    pub fn parse(s: &[u8]) -> (r: Result<Indices, ObjError>)
        ensures
            result_view(r) == corner_spec(s@),
            r matches Ok(ix) ==> ix.wf(),
    {
        let slash1 = find_slash(s, 0);
        proof {
            lemma_slash_pos_bounds(s@, 0);
        }
        if slash1 >= s.len() {
            assert(s@.subrange(0, s@.len() as int) =~= s@);
            let vertex = parse_field(s, 0, s.len())?;
            return Ok(Indices { vertex, texture: None, normal: None });
        }
        let vertex = parse_field(s, 0, slash1)?;
        let slash2 = find_slash(s, slash1 + 1);
        proof {
            lemma_slash_pos_bounds(s@, slash1 + 1);
        }
        if slash2 >= s.len() {
            let texture = if slash1 + 1 < s.len() {
                Some(parse_field(s, slash1 + 1, s.len())?)
            } else {
                None
            };
            return Ok(Indices { vertex, texture, normal: None });
        }
        let texture = if slash1 + 1 < slash2 {
            Some(parse_field(s, slash1 + 1, slash2)?)
        } else {
            None
        };
        let slash3 = find_slash(s, slash2 + 1);
        proof {
            lemma_slash_pos_bounds(s@, slash2 + 1);
        }
        let normal = parse_field(s, slash2 + 1, slash3)?;
        Ok(Indices { vertex, texture, normal: Some(normal) })
    }
}

/// A parsed OBJ text: vertex positions and texture coordinates as their
/// number tokens, and faces as triangles with an optional fourth corner.
#[derive(Debug)]
pub struct Obj {
    pub vertices: Vec<[Vec<u8>; 3]>,
    pub tex_coords: Vec<[Vec<u8>; 2]>,
    pub faces: Vec<([Indices; 3], Option<Indices>)>,
}

/// Abstract value of an [`Obj`].
pub ghost struct ObjView {
    pub vertices: Seq<Seq<Seq<u8>>>,
    pub tex_coords: Seq<Seq<Seq<u8>>>,
    pub faces: Seq<([Indices; 3], Option<Indices>)>,
}

impl View for Obj {
    type V = ObjView;

    open spec fn view(&self) -> ObjView {
        ObjView {
            vertices: self.vertices@.map_values(|a: [Vec<u8>; 3]| a@.map_values(|w: Vec<u8>| w@)),
            tex_coords: self.tex_coords@.map_values(|a: [Vec<u8>; 2]| a@.map_values(|w: Vec<u8>| w@)),
            faces: self.faces@,
        }
    }
}

/// What one line adds to an OBJ.
pub ghost enum LineItem {
    Nothing,
    Vertex(Seq<Seq<u8>>),
    TexCoord(Seq<Seq<u8>>),
    Face(([Indices; 3], Option<Indices>)),
}

pub open spec fn lit_f() -> Seq<u8> { seq![0x66u8] }
pub open spec fn lit_v() -> Seq<u8> { seq![0x76u8] }
pub open spec fn lit_vt() -> Seq<u8> { seq![0x76u8, 0x74u8] }
pub open spec fn lit_g() -> Seq<u8> { seq![0x67u8] }
pub open spec fn lit_o() -> Seq<u8> { seq![0x6Fu8] }
pub open spec fn lit_s() -> Seq<u8> { seq![0x73u8] }
pub open spec fn lit_vn() -> Seq<u8> { seq![0x76u8, 0x6Eu8] }
pub open spec fn lit_mtllib() -> Seq<u8> { seq![0x6Du8, 0x74u8, 0x6Cu8, 0x6Cu8, 0x69u8, 0x62u8] }
pub open spec fn lit_usemtl() -> Seq<u8> { seq![0x75u8, 0x73u8, 0x65u8, 0x6Du8, 0x74u8, 0x6Cu8] }

/// Identifiers whose lines are accepted and ignored.
pub open spec fn ignored_iden(w: Seq<u8>) -> bool {
    w == lit_g() || w == lit_o() || w == lit_s() || w == lit_vn() || w == lit_mtllib() || w == lit_usemtl()
}

/// Nothing follows word `k` of the line but a comment.
pub open spec fn rest_is_comment(w: Seq<Seq<u8>>, k: int) -> bool {
    w.len() <= k || w[k][0] == 0x23u8
}

/// How one line (without its newline) reads.
pub open spec fn line_spec(line: Seq<u8>) -> Result<LineItem, ObjErrorView> {
    let w = words(line);
    if line.len() == 0 || line[0] == 0x23u8 || w.len() == 0 {
        Ok(LineItem::Nothing)
    } else if w[0] == lit_f() {
        if w.len() < 2 {
            Err(ObjErrorView::NotEnoughNums(0, 3))
        } else if corner_spec(w[1]) is Err {
            Err(corner_spec(w[1])->Err_0)
        } else if w.len() < 3 {
            Err(ObjErrorView::NotEnoughNums(1, 3))
        } else if corner_spec(w[2]) is Err {
            Err(corner_spec(w[2])->Err_0)
        } else if w.len() < 4 {
            Err(ObjErrorView::NotEnoughNums(2, 3))
        } else if corner_spec(w[3]) is Err {
            Err(corner_spec(w[3])->Err_0)
        } else if w.len() >= 5 && corner_spec(w[4]) is Err {
            Err(corner_spec(w[4])->Err_0)
        } else if !rest_is_comment(w, if w.len() >= 5 { 5 } else { 4 }) {
            Err(ObjErrorView::TooManyNums)
        } else {
            Ok(LineItem::Face((
                [corner_spec(w[1])->Ok_0, corner_spec(w[2])->Ok_0, corner_spec(w[3])->Ok_0],
                if w.len() >= 5 { Some(corner_spec(w[4])->Ok_0) } else { None },
            )))
        }
    } else if w[0] == lit_v() {
        if w.len() < 2 {
            Err(ObjErrorView::NotEnoughNums(0, 3))
        } else if w.len() < 3 {
            Err(ObjErrorView::NotEnoughNums(1, 3))
        } else if w.len() < 4 {
            Err(ObjErrorView::NotEnoughNums(2, 3))
        } else if !rest_is_comment(w, 4) {
            Err(ObjErrorView::TooManyNums)
        } else {
            Ok(LineItem::Vertex(w.subrange(1, 4)))
        }
    } else if w[0] == lit_vt() {
        if w.len() < 2 {
            Err(ObjErrorView::NotEnoughNums(0, 2))
        } else if w.len() < 3 {
            Err(ObjErrorView::NotEnoughNums(1, 2))
        } else if !rest_is_comment(w, 3) {
            Err(ObjErrorView::TooManyNums)
        } else {
            Ok(LineItem::TexCoord(w.subrange(1, 3)))
        }
    } else if ignored_iden(w[0]) {
        Ok(LineItem::Nothing)
    } else {
        Err(ObjErrorView::InvalidIden(w[0]))
    }
}

/// The OBJ after adding `item`.
pub open spec fn add_item(v: ObjView, item: LineItem) -> ObjView {
    match item {
        LineItem::Nothing => v,
        LineItem::Vertex(c) => ObjView { vertices: v.vertices.push(c), ..v },
        LineItem::TexCoord(c) => ObjView { tex_coords: v.tex_coords.push(c), ..v },
        LineItem::Face(f) => ObjView { faces: v.faces.push(f), ..v },
    }
}

/// Position of the first newline at or after `from`, or the length of `s`.
pub open spec fn newline_pos(s: Seq<u8>, from: int) -> int
    decreases s.len() - from,
{
    if from >= s.len() {
        s.len() as int
    } else if s[from] == 0x0Au8 {
        from
    } else {
        newline_pos(s, from + 1)
    }
}

pub proof fn lemma_newline_pos_bounds(s: Seq<u8>, from: int)
    requires
        0 <= from <= s.len(),
    ensures
        from <= newline_pos(s, from) <= s.len(),
    decreases s.len() - from,
{
    if from < s.len() && s[from] != 0x0Au8 {
        lemma_newline_pos_bounds(s, from + 1);
    }
}

/// Reads the lines of `s` from byte `from` on into `v`, the line before
/// `from` being line `n`. A text that ends in a newline has no empty last
/// line. The first line that fails gives its error and its number,
/// counted from 1.
pub open spec fn parse_from(v: ObjView, s: Seq<u8>, from: int, n: nat) -> Result<ObjView, (ObjErrorView, nat)>
    decreases s.len() - from,
{
    if from < 0 || from >= s.len() {
        Ok(v)
    } else {
        let e = newline_pos(s, from);
        if e < from {
            Ok(v)
        } else {
            match line_spec(s.subrange(from, e)) {
                Err(err) => Err((err, n + 1)),
                Ok(item) => if e < s.len() {
                parse_from(add_item(v, item), s, e + 1, n + 1)
            } else {
                Ok(add_item(v, item))
            },
            }
        }
    }
}

pub open spec fn empty_obj() -> ObjView {
    ObjView { vertices: Seq::empty(), tex_coords: Seq::empty(), faces: Seq::empty() }
}

fn bytes1(a: u8) -> (r: Vec<u8>)
    ensures
        r@ == seq![a],
{
    let mut v: Vec<u8> = Vec::new();
    v.push(a);
    assert(v@ =~= seq![a]);
    v
}

fn bytes2(a: u8, b: u8) -> (r: Vec<u8>)
    ensures
        r@ == seq![a, b],
{
    let mut v: Vec<u8> = Vec::new();
    v.push(a);
    v.push(b);
    assert(v@ =~= seq![a, b]);
    v
}

fn bytes6(a: u8, b: u8, c: u8, d: u8, e: u8, f: u8) -> (r: Vec<u8>)
    ensures
        r@ == seq![a, b, c, d, e, f],
{
    let mut v: Vec<u8> = Vec::new();
    v.push(a);
    v.push(b);
    v.push(c);
    v.push(d);
    v.push(e);
    v.push(f);
    assert(v@ =~= seq![a, b, c, d, e, f]);
    v
}

fn word_eq(w: &Vec<u8>, lit: &Vec<u8>) -> (r: bool)
    ensures
        r == (w@ == lit@),
{
    if w.len() != lit.len() {
        return false;
    }
    let mut i: usize = 0;
    while i < w.len()
        invariant
            w.len() == lit.len(),
            i <= w.len(),
            forall|j: int| 0 <= j < i ==> w@[j] == lit@[j],
        decreases w.len() - i,
    {
        if w[i] != lit[i] {
            return false;
        }
        i = i + 1;
    }
    assert(w@ =~= lit@);
    true
}

fn take_word(w: &mut Vec<Vec<u8>>, k: usize) -> (r: Vec<u8>)
    requires
        k < old(w).len(),
    ensures
        r@ == old(w)@[k as int]@,
        r@ == byte_views(old(w)@)[k as int],
        final(w).len() == old(w).len(),
        byte_views(final(w)@) == byte_views(old(w)@).update(k as int, Seq::empty()),
{
    let ghost w0 = byte_views(w@);
    let mut out: Vec<u8> = Vec::new();
    w.set_and_swap(k, &mut out);
    assert(byte_views(w@) =~= w0.update(k as int, Seq::empty()));
    out
}

fn corner_at(w: &Vec<Vec<u8>>, k: usize) -> (r: Result<Indices, ObjError>)
    requires
        k < w.len(),
    ensures
        result_view(r) == corner_spec(w@[k as int]@),
{
    Indices::parse(w[k].as_slice())
}

impl Obj {
    pub fn new() -> (r: Obj)
        ensures
            r@ == empty_obj(),
    {
        let r = Obj { vertices: Vec::new(), tex_coords: Vec::new(), faces: Vec::new() };
        assert(r@.vertices =~= Seq::<Seq<Seq<u8>>>::empty());
        assert(r@.tex_coords =~= Seq::<Seq<Seq<u8>>>::empty());
        r
    }

    /// Reads one line (without its newline) into the OBJ.
    pub fn parse_line(&mut self, line: &[u8]) -> (r: Result<(), ObjError>)
        ensures
            match line_spec(line@) {
                Ok(item) => r is Ok && final(self)@ == add_item(old(self)@, item),
                Err(e) => r matches Err(x) && x@ == e && final(self)@ == old(self)@,
            },
    {
        if line.len() == 0 || line[0] == 0x23u8 {
            return Ok(());
        }
        let mut w = split_words(line);
        let ghost wv = byte_views(w@);
        assert(wv == words(line@));
        proof {
            lemma_words_nonempty(line@);
        }
        if w.len() == 0 {
            return Ok(());
        }
        assert(wv[0] == w@[0]@);
        if word_eq(&w[0], &bytes1(0x66u8)) {
            assert(lit_f() =~= seq![0x66u8]);
            if w.len() < 2 {
                return Err(ObjError::NotEnoughNums(0, 3));
            }
            assert(wv[1] == w@[1]@);
            let c0 = corner_at(&w, 1)?;
            if w.len() < 3 {
                return Err(ObjError::NotEnoughNums(1, 3));
            }
            assert(wv[2] == w@[2]@);
            let c1 = corner_at(&w, 2)?;
            if w.len() < 4 {
                return Err(ObjError::NotEnoughNums(2, 3));
            }
            assert(wv[3] == w@[3]@);
            let c2 = corner_at(&w, 3)?;
            let c3 = if w.len() >= 5 {
                assert(wv[4] == w@[4]@);
                Some(corner_at(&w, 4)?)
            } else {
                None
            };
            let next: usize = if w.len() >= 5 { 5 } else { 4 };
            if next < w.len() {
                assert(wv[next as int] == w@[next as int]@);
                if w[next][0] != 0x23u8 {
                    return Err(ObjError::TooManyNums);
                }
            }
            self.faces.push(([c0, c1, c2], c3));
            return Ok(());
        }
        if word_eq(&w[0], &bytes1(0x76u8)) {
            assert(lit_v() =~= seq![0x76u8]);
            if w.len() < 2 {
                return Err(ObjError::NotEnoughNums(0, 3));
            }
            if w.len() < 3 {
                return Err(ObjError::NotEnoughNums(1, 3));
            }
            if w.len() < 4 {
                return Err(ObjError::NotEnoughNums(2, 3));
            }
            if w.len() > 4 {
                assert(wv[4] == w@[4]@);
                if w[4][0] != 0x23u8 {
                    return Err(ObjError::TooManyNums);
                }
            }
            let x = take_word(&mut w, 1);
            assert(byte_views(w@)[2] == wv[2] && byte_views(w@)[3] == wv[3]);
            let y = take_word(&mut w, 2);
            assert(byte_views(w@)[3] == wv[3]);
            let z = take_word(&mut w, 3);
            let ghost old_self = self@;
            self.vertices.push([x, y, z]);
            proof {
                let a = [x, y, z];
                assert(a@[0] == x && a@[1] == y && a@[2] == z);
                assert(x@ == wv[1] && y@ == wv[2] && z@ == wv[3]);
                assert(a@.map_values(|b: Vec<u8>| b@) =~= wv.subrange(1, 4));
                assert(self@.vertices =~= old_self.vertices.push(wv.subrange(1, 4)));
            }
            return Ok(());
        }
        if word_eq(&w[0], &bytes2(0x76u8, 0x74u8)) {
            assert(lit_vt() =~= seq![0x76u8, 0x74u8]);
            if w.len() < 2 {
                return Err(ObjError::NotEnoughNums(0, 2));
            }
            if w.len() < 3 {
                return Err(ObjError::NotEnoughNums(1, 2));
            }
            if w.len() > 3 {
                assert(wv[3] == w@[3]@);
                if w[3][0] != 0x23u8 {
                    return Err(ObjError::TooManyNums);
                }
            }
            let u = take_word(&mut w, 1);
            assert(byte_views(w@)[2] == wv[2]);
            let v = take_word(&mut w, 2);
            let ghost old_self = self@;
            self.tex_coords.push([u, v]);
            proof {
                let a = [u, v];
                assert(a@[0] == u && a@[1] == v);
                assert(u@ == wv[1] && v@ == wv[2]);
                assert(a@.map_values(|b: Vec<u8>| b@) =~= wv.subrange(1, 3));
                assert(self@.tex_coords =~= old_self.tex_coords.push(wv.subrange(1, 3)));
            }
            return Ok(());
        }
        assert(lit_g() =~= seq![0x67u8]);
        assert(lit_o() =~= seq![0x6Fu8]);
        assert(lit_s() =~= seq![0x73u8]);
        assert(lit_vn() =~= seq![0x76u8, 0x6Eu8]);
        assert(lit_mtllib() =~= seq![0x6Du8, 0x74u8, 0x6Cu8, 0x6Cu8, 0x69u8, 0x62u8]);
        assert(lit_usemtl() =~= seq![0x75u8, 0x73u8, 0x65u8, 0x6Du8, 0x74u8, 0x6Cu8]);
        if word_eq(&w[0], &bytes1(0x67u8)) || word_eq(&w[0], &bytes1(0x6Fu8)) || word_eq(&w[0], &bytes1(0x73u8))
            || word_eq(&w[0], &bytes2(0x76u8, 0x6Eu8))
            || word_eq(&w[0], &bytes6(0x6Du8, 0x74u8, 0x6Cu8, 0x6Cu8, 0x69u8, 0x62u8))
            || word_eq(&w[0], &bytes6(0x75u8, 0x73u8, 0x65u8, 0x6Du8, 0x74u8, 0x6Cu8)) {
            return Ok(());
        }
        let iden = take_word(&mut w, 0);
        Err(ObjError::InvalidIden(iden))
    }

    /// Reads an OBJ text. On failure, gives the error and the number of the
    /// line (from 1) that caused it.
    pub fn from_reader(s: &[u8]) -> (r: Result<Obj, (ObjError, usize)>)
        ensures
            match parse_from(empty_obj(), s@, 0, 0) {
                Ok(v) => r matches Ok(o) && o@ == v,
                Err((e, n)) => r matches Err((x, k)) && x@ == e && k == n,
            },
    {
        let mut obj = Obj::new();
        let mut pos: usize = 0;
        let mut line_num: usize = 0;
        while pos < s.len()
            invariant
                pos <= s.len(),
                line_num <= pos,
                parse_from(obj@, s@, pos as int, line_num as nat) == parse_from(empty_obj(), s@, 0, 0),
            decreases s.len() - pos,
        {
            let mut e = pos;
            while e < s.len() && s[e] != 0x0Au8
                invariant
                    pos <= e <= s.len(),
                    newline_pos(s@, e as int) == newline_pos(s@, pos as int),
                decreases s.len() - e,
            {
                e = e + 1;
            }
            proof {
                lemma_newline_pos_bounds(s@, pos as int);
            }
            let line = copy_range(s, pos, e);
            match obj.parse_line(line.as_slice()) {
                Err(err) => {
                    return Err((err, line_num + 1));
                },
                Ok(()) => {},
            }
            line_num = line_num + 1;
            if e < s.len() {
                pos = e + 1;
            } else {
                pos = e;
            }
        }
        Ok(obj)
    }
}

/// One vertex of a normalized mesh: the position, texture coordinate and
/// normal it takes, as indices (from 0) into the OBJ's lists. Normal indices
/// are passed on unchecked, since normals are not read from the text (a
/// normal index of 0, which no text gives, counts as none).
#[derive(PartialEq, Eq, Structural, Clone, Copy, Debug)]
pub struct Vertex {
    pub pos_index: u32,
    pub tex_index: Option<u32>,
    pub normal_index: Option<u32>,
}

/// A mesh with one index list over distinct vertices.
#[derive(Debug)]
pub struct NormalizedObj {
    pub indices: Vec<u32>,
    pub vertices: Vec<Vertex>,
    pub has_tex_coords: bool,
}

/// The corners a face contributes to the index list: a triangle as it
/// stands, a quad `a b c d` as the triangles `a b c` and `c d a`.
pub open spec fn face_corners(f: ([Indices; 3], Option<Indices>)) -> Seq<Indices> {
    let v = f.0;
    match f.1 {
        Some(d) => seq![v[0], v[1], v[2], v[2], d, v[0]],
        None => seq![v[0], v[1], v[2]],
    }
}

/// The corners of all faces, in order.
pub open spec fn all_corners(faces: Seq<([Indices; 3], Option<Indices>)>) -> Seq<Indices>
    decreases faces.len(),
{
    if faces.len() == 0 {
        Seq::empty()
    } else {
        all_corners(faces.drop_last()) + face_corners(faces.last())
    }
}

/// The distinct elements of `s` in order of first appearance.
pub open spec fn dedup(s: Seq<Indices>) -> Seq<Indices>
    decreases s.len(),
{
    if s.len() == 0 {
        Seq::empty()
    } else {
        let d = dedup(s.drop_last());
        if d.contains(s.last()) {
            d
        } else {
            d.push(s.last())
        }
    }
}

/// A corner refers to an existing vertex and, if it has one, an existing
/// texture coordinate.
pub open spec fn corner_valid(c: Indices, n_vertices: nat, n_tex: nat) -> bool {
    &&& 1 <= c.vertex <= n_vertices
    &&& c.texture matches Some(t) ==> 1 <= t <= n_tex
}

/// The error an invalid corner gives.
pub open spec fn corner_error(c: Indices, n_vertices: nat) -> ObjErrorView {
    if !(1 <= c.vertex <= n_vertices) {
        ObjErrorView::InvalidVertexIndex(c.vertex)
    } else {
        ObjErrorView::InvalidTextureIndex(c.texture.unwrap())
    }
}

/// The normalized vertex of a valid corner.
pub open spec fn resolve(c: Indices) -> Vertex {
    Vertex {
        pos_index: (c.vertex - 1) as u32,
        tex_index: match c.texture {
            Some(t) => Some((t - 1) as u32),
            None => None,
        },
        normal_index: match c.normal {
            Some(n) => if n >= 1 { Some((n - 1) as u32) } else { None },
            None => None,
        },
    }
}

/// Key of a corner in the map of vertices seen so far: the vertex index,
/// then each optional index as one more than its value (0 when absent), in
/// fields wide enough that distinct corners have distinct keys.
pub open spec fn corner_key(c: Indices) -> u128 {
    ((c.vertex as u128) * 0x4_0000_0000_0000_0000u128
        + (match c.texture { Some(t) => (t as u128 + 1) as u128, None => 0u128 }) * 0x2_0000_0000u128
        + (match c.normal { Some(n) => (n as u128 + 1) as u128, None => 0u128 })) as u128
}

proof fn lemma_corner_key_injective(a: Indices, b: Indices)
    requires
        corner_key(a) == corner_key(b),
    ensures
        a == b,
{
    let ta: int = match a.texture { Some(t) => t as int + 1, None => 0 };
    let tb: int = match b.texture { Some(t) => t as int + 1, None => 0 };
    let na: int = match a.normal { Some(n) => n as int + 1, None => 0 };
    let nb: int = match b.normal { Some(n) => n as int + 1, None => 0 };
    assert(corner_key(a) as int == a.vertex as int * 0x4_0000_0000_0000_0000 + ta * 0x2_0000_0000 + na);
    assert(corner_key(b) as int == b.vertex as int * 0x4_0000_0000_0000_0000 + tb * 0x2_0000_0000 + nb);
}

fn corner_key_exec(c: Indices) -> (r: u128)
    ensures
        r == corner_key(c),
{
    let t: u128 = match c.texture { Some(t) => t as u128 + 1, None => 0u128 };
    let n: u128 = match c.normal { Some(n) => n as u128 + 1, None => 0u128 };
    (c.vertex as u128) * 0x4_0000_0000_0000_0000u128 + t * 0x2_0000_0000u128 + n
}

pub proof fn lemma_dedup_len(s: Seq<Indices>)
    ensures
        dedup(s).len() <= s.len(),
        forall|i: int| 0 <= i < dedup(s).len() ==> s.contains(#[trigger] dedup(s)[i]),
        forall|i: int| 0 <= i < s.len() ==> dedup(s).contains(#[trigger] s[i]),
    decreases s.len(),
{
    if s.len() > 0 {
        let p = s.drop_last();
        lemma_dedup_len(p);
        let d = dedup(s);
        assert forall|i: int| 0 <= i < d.len() implies s.contains(#[trigger] d[i]) by {
            if i < dedup(p).len() {
                let j = choose|j: int| 0 <= j < p.len() && p[j] == d[i];
                assert(s[j] == d[i]);
            } else {
                assert(s[s.len() - 1] == d[i]);
            }
        }
        assert forall|i: int| 0 <= i < s.len() implies d.contains(#[trigger] s[i]) by {
            if i < s.len() - 1 {
                assert(p[i] == s[i]);
                let j = choose|j: int| 0 <= j < dedup(p).len() && dedup(p)[j] == s[i];
                assert(d[j] == s[i]);
            } else {
                if !dedup(p).contains(s.last()) {
                    assert(d[d.len() - 1] == s[i]);
                }
            }
        }
    }
}

pub proof fn lemma_all_corners_len(faces: Seq<([Indices; 3], Option<Indices>)>)
    ensures
        all_corners(faces).len() <= 6 * faces.len(),
    decreases faces.len(),
{
    if faces.len() > 0 {
        lemma_all_corners_len(faces.drop_last());
    }
}

/// The state of normalization after the corners `seen`.
spec fn norm_inv(
    seen: Seq<Indices>,
    map: Map<u128, u32>,
    vertices: Seq<Vertex>,
    indices: Seq<u32>,
    has_tex: bool,
) -> bool {
    let d = dedup(seen);
    &&& vertices == d.map_values(|c: Indices| resolve(c))
    &&& indices.len() == seen.len()
    &&& forall|k: int| 0 <= k < seen.len() ==> (#[trigger] indices[k]) < d.len() && d[indices[k] as int] == seen[k]
    &&& forall|key: u128| #[trigger] map.contains_key(key) <==> exists|i: int| 0 <= i < d.len() && corner_key(d[i]) == key
    &&& forall|i: int| 0 <= i < d.len() ==> #[trigger] map[corner_key(d[i])] == i
    &&& has_tex == exists|k: int| 0 <= k < seen.len() && (#[trigger] seen[k]).texture is Some
}

impl Obj {
    /// Turns the faces into one index list over distinct vertices: each
    /// distinct corner becomes one vertex, in order of first use, and quads
    /// are split in two triangles. Fails on the first corner that refers to
    /// a missing vertex or texture coordinate.
    pub fn normalize(&self) -> (r: Result<NormalizedObj, ObjError>)
        requires
            self.faces.len() < 0x1000_0000,
        ensures
            ({
                let cs = all_corners(self@.faces);
                let nv = self@.vertices.len();
                let nt = self@.tex_coords.len();
                match r {
                    Ok(n) => {
                        &&& forall|k: int| 0 <= k < cs.len() ==> corner_valid(#[trigger] cs[k], nv, nt)
                        &&& n.vertices@ == dedup(cs).map_values(|c: Indices| resolve(c))
                        &&& n.indices@.len() == cs.len()
                        &&& forall|k: int| 0 <= k < cs.len() ==> (#[trigger] n.indices@[k]) < dedup(cs).len()
                            && dedup(cs)[n.indices@[k] as int] == cs[k]
                        &&& n.has_tex_coords == exists|k: int| 0 <= k < cs.len() && (#[trigger] cs[k]).texture is Some
                    },
                    Err(e) => exists|k: int| {
                        &&& 0 <= k < cs.len()
                        &&& !corner_valid(#[trigger] cs[k], nv, nt)
                        &&& forall|j: int| 0 <= j < k ==> corner_valid(#[trigger] cs[j], nv, nt)
                        &&& e@ == corner_error(cs[k], nv)
                    },
                }
            }),
    {
        broadcast use vstd::std_specs::hash::group_hash_axioms;
        let ghost nv = self@.vertices.len();
        let ghost nt = self@.tex_coords.len();
        let n_vertices = self.vertices.len();
        let n_tex = self.tex_coords.len();
        let mut map: HashMap<u128, u32> = HashMap::new();
        let mut vertices: Vec<Vertex> = Vec::new();
        let mut indices: Vec<u32> = Vec::new();
        let mut has_tex = false;
        let ghost mut seen: Seq<Indices> = Seq::empty();
        proof {
            lemma_all_corners_len(self@.faces);
            assert(vertices@ =~= dedup(seen).map_values(|c: Indices| resolve(c)));
        }
        let mut fi: usize = 0;
        while fi < self.faces.len()
            invariant
                fi <= self.faces.len(),
                self.faces.len() < 0x1000_0000,
                n_vertices == nv,
                n_tex == nt,
                nv == self@.vertices.len(),
                nt == self@.tex_coords.len(),
                seen == all_corners(self@.faces.subrange(0, fi as int)),
                seen.len() <= 6 * fi,
                forall|k: int| 0 <= k < seen.len() ==> corner_valid(#[trigger] seen[k], nv, nt),
                norm_inv(seen, map@, vertices@, indices@, has_tex),
            decreases self.faces.len() - fi,
        {
            let face = self.faces[fi];
            let v = face.0;
            let corners: Vec<Indices> = match face.1 {
                Some(d) => vec![v[0], v[1], v[2], v[2], d, v[0]],
                None => vec![v[0], v[1], v[2]],
            };
            assert(corners@ =~= face_corners(face));
            proof {
                assert(self@.faces.subrange(0, fi + 1).drop_last() =~= self@.faces.subrange(0, fi as int));
                assert(self@.faces.subrange(0, fi + 1).last() == face);
            }
            let ghost seen0 = seen;
            let mut ci: usize = 0;
            while ci < corners.len()
                invariant
                    ci <= corners.len(),
                    corners.len() <= 6,
                    corners@ == face_corners(face),
                    seen == seen0 + corners@.subrange(0, ci as int),
                    seen0.len() <= 6 * fi,
                    fi < 0x1000_0000,
                    fi < self.faces.len(),
                    seen0 == all_corners(self@.faces.subrange(0, fi as int)),
                    face == self@.faces[fi as int],
                    nv == self@.vertices.len(),
                    nt == self@.tex_coords.len(),
                    n_vertices == nv,
                    n_tex == nt,
                    forall|k: int| 0 <= k < seen.len() ==> corner_valid(#[trigger] seen[k], nv, nt),
                    norm_inv(seen, map@, vertices@, indices@, has_tex),
                decreases corners.len() - ci,
            {
                let c = corners[ci];
                let key = corner_key_exec(c);
                let ghost d = dedup(seen);
                let ghost seen1 = seen.push(c);
                proof {
                    assert(seen1.drop_last() =~= seen);
                    assert(seen1.last() == c);
                    lemma_dedup_len(seen);
                }
                match map.get(&key) {
                    Some(idx) => {
                        let idx = *idx;
                        proof {
                            let i = choose|i: int| 0 <= i < d.len() && corner_key(d[i]) == key;
                            lemma_corner_key_injective(d[i], c);
                            assert(map@[corner_key(d[i])] == i);
                            assert(d.contains(c));
                            assert(dedup(seen1) == d);
                        }
                        indices.push(idx);
                    },
                    None => {
                        if !(1 <= c.vertex && (c.vertex as usize) <= n_vertices) {
                            proof {
                                assert(seen0 + corners@.subrange(0, ci + 1) =~= seen1);
                                lemma_norm_prefix(self@.faces, fi as int, seen0, corners@, ci as int);
                                lemma_first_invalid(self@.faces, fi as int, seen1, nv, nt);
                            }
                            return Err(ObjError::InvalidVertexIndex(c.vertex));
                        }
                        if let Some(t) = c.texture {
                            if !(1 <= t && (t as usize) <= n_tex) {
                                proof {
                                    assert(seen0 + corners@.subrange(0, ci + 1) =~= seen1);
                                    lemma_norm_prefix(self@.faces, fi as int, seen0, corners@, ci as int);
                                    lemma_first_invalid(self@.faces, fi as int, seen1, nv, nt);
                                }
                                return Err(ObjError::InvalidTextureIndex(t));
                            }
                        }
                        proof {
                            assert(!d.contains(c)) by {
                                if d.contains(c) {
                                    let i = choose|i: int| 0 <= i < d.len() && d[i] == c;
                                    assert(map@.contains_key(corner_key(d[i])));
                                }
                            }
                            assert(dedup(seen1) == d.push(c));
                        }
                        let new_idx = vertices.len() as u32;
                        let ghost old_map = map@;
                        map.insert(key, new_idx);
                        let vx = Vertex {
                            pos_index: c.vertex - 1,
                            tex_index: match c.texture {
                                Some(t) => Some(t - 1),
                                None => None,
                            },
                            normal_index: match c.normal {
                                Some(n) => if n >= 1 { Some(n - 1) } else { None },
                                None => None,
                            },
                        };
                        vertices.push(vx);
                        if c.texture.is_some() {
                            has_tex = true;
                        }
                        indices.push(new_idx);
                        proof {
                            let d1 = d.push(c);
                            assert(vertices@ =~= d1.map_values(|c: Indices| resolve(c)));
                            assert forall|kk: u128| #[trigger] map@.contains_key(kk)
                                <==> exists|i: int| 0 <= i < d1.len() && corner_key(d1[i]) == kk by {
                                if kk == key {
                                    assert(corner_key(d1[d.len() as int]) == kk);
                                } else if old_map.contains_key(kk) {
                                    let i = choose|i: int| 0 <= i < d.len() && corner_key(d[i]) == kk;
                                    assert(d1[i] == d[i]);
                                } else {
                                    if exists|i: int| 0 <= i < d1.len() && corner_key(d1[i]) == kk {
                                        let i = choose|i: int| 0 <= i < d1.len() && corner_key(d1[i]) == kk;
                                        assert(d1[i] == d[i]);
                                    }
                                }
                            }
                            assert forall|i: int| 0 <= i < d1.len() implies #[trigger] map@[corner_key(d1[i])] == i by {
                                if i < d.len() {
                                    assert(d1[i] == d[i]);
                                    if corner_key(d[i]) == key {
                                        lemma_corner_key_injective(d[i], c);
                                    }
                                }
                            }
                        }
                    },
                }
                proof {
                    let d1 = dedup(seen1);
                    assert forall|k: int| 0 <= k < seen1.len() implies (#[trigger] indices@[k]) < d1.len()
                        && d1[indices@[k] as int] == seen1[k] by {
                        if k < seen.len() {
                            assert(d1[indices@[k] as int] == d[indices@[k] as int]);
                        }
                    }
                    if has_tex {
                        if c.texture is Some {
                            assert(seen1[seen.len() as int] == c);
                        } else {
                            let k = choose|k: int| 0 <= k < seen.len() && (#[trigger] seen[k]).texture is Some;
                            assert(seen1[k] == seen[k]);
                        }
                    } else {
                        assert forall|k: int| 0 <= k < seen1.len() implies !((#[trigger] seen1[k]).texture is Some) by {
                            if k < seen.len() {
                                assert(seen1[k] == seen[k]);
                            }
                        }
                    }
                    assert(seen1[seen.len() as int] == c);
                    assert(seen0 + corners@.subrange(0, ci + 1) =~= seen1);
                }
                proof {
                    seen = seen1;
                }
                ci = ci + 1;
            }
            proof {
                assert(corners@.subrange(0, corners.len() as int) =~= corners@);
            }
            fi = fi + 1;
        }
        proof {
            assert(self@.faces.subrange(0, fi as int) =~= self@.faces);
        }
        Ok(NormalizedObj { indices, vertices, has_tex_coords: has_tex })
    }
}

/// The corners of a prefix of the faces are a prefix of all corners.
proof fn lemma_all_corners_prefix(faces: Seq<([Indices; 3], Option<Indices>)>, m: int, n: int)
    requires
        0 <= m <= n <= faces.len(),
    ensures
        all_corners(faces.subrange(0, m)).len() <= all_corners(faces.subrange(0, n)).len(),
        all_corners(faces.subrange(0, n)).subrange(0, all_corners(faces.subrange(0, m)).len() as int)
            == all_corners(faces.subrange(0, m)),
    decreases n - m,
{
    let a = all_corners(faces.subrange(0, m));
    if m == n {
        assert(all_corners(faces.subrange(0, n)).subrange(0, a.len() as int) =~= a);
    } else {
        lemma_all_corners_prefix(faces, m, n - 1);
        let b = all_corners(faces.subrange(0, n - 1));
        assert(faces.subrange(0, n).drop_last() =~= faces.subrange(0, n - 1));
        let c = all_corners(faces.subrange(0, n));
        assert(c == b + face_corners(faces.subrange(0, n).last()));
        assert(c.subrange(0, a.len() as int) =~= b.subrange(0, a.len() as int));
    }
}

/// The corners seen part way through face `fi` are a prefix of the
/// corners of the faces up to and including it.
proof fn lemma_norm_prefix(
    faces: Seq<([Indices; 3], Option<Indices>)>,
    fi: int,
    seen0: Seq<Indices>,
    corners: Seq<Indices>,
    ci: int,
)
    requires
        0 <= fi < faces.len(),
        seen0 == all_corners(faces.subrange(0, fi)),
        corners == face_corners(faces[fi]),
        0 <= ci < corners.len(),
    ensures
        ({
            let p = all_corners(faces.subrange(0, fi + 1));
            let s1 = seen0 + corners.subrange(0, ci + 1);
            s1.len() <= p.len() && p.subrange(0, s1.len() as int) == s1
        }),
{
    assert(faces.subrange(0, fi + 1).drop_last() =~= faces.subrange(0, fi));
    assert(faces.subrange(0, fi + 1).last() == faces[fi]);
    let p = all_corners(faces.subrange(0, fi + 1));
    assert(p == seen0 + corners);
    let s1 = seen0 + corners.subrange(0, ci + 1);
    assert(p.subrange(0, s1.len() as int) =~= s1);
}

/// The first invalid corner, met at the end of a prefix of valid corners.
proof fn lemma_first_invalid(
    faces: Seq<([Indices; 3], Option<Indices>)>,
    fi: int,
    seen1: Seq<Indices>,
    nv: nat,
    nt: nat,
)
    requires
        0 <= fi < faces.len(),
        seen1.len() >= 1,
        ({
            let p = all_corners(faces.subrange(0, fi + 1));
            seen1.len() <= p.len() && p.subrange(0, seen1.len() as int) == seen1
        }),
        forall|k: int| 0 <= k < seen1.len() - 1 ==> corner_valid(#[trigger] seen1[k], nv, nt),
        !corner_valid(seen1.last(), nv, nt),
    ensures
        ({
            let cs = all_corners(faces);
            exists|k: int| {
                &&& 0 <= k < cs.len()
                &&& !corner_valid(#[trigger] cs[k], nv, nt)
                &&& forall|j: int| 0 <= j < k ==> corner_valid(#[trigger] cs[j], nv, nt)
                &&& cs[k] == seen1.last()
            }
        }),
{
    lemma_all_corners_prefix(faces, fi + 1, faces.len() as int);
    assert(faces.subrange(0, faces.len() as int) =~= faces);
    let cs = all_corners(faces);
    let p = all_corners(faces.subrange(0, fi + 1));
    let k = seen1.len() - 1;
    assert(cs.subrange(0, p.len() as int) == p);
    assert(cs[k] == p[k]);
    assert forall|j: int| 0 <= j < k implies corner_valid(#[trigger] cs[j], nv, nt) by {
        assert(cs[j] == p[j]);
        assert(p[j] == seen1[j]);
    }
}
} // verus!
