//! The text encoding: lines, facet blocks and the number tokens of their
//! vertices. Numbers are located here and read by the caller.
use crate::bytes::{has_prefix_ci, starts_with_ci};
use crate::StlReader;
use vstd::prelude::*;

verus! {

/// A byte range `start..end` of the input.
#[derive(Clone, Copy, Debug, PartialEq, Eq, Structural)]
pub struct Span {
    pub start: usize,
    pub end: usize,
}

impl View for Span {
    type V = (int, int);

    open spec fn view(&self) -> (int, int) {
        (self.start as int, self.end as int)
    }
}

/// The three number tokens of a `vertex` line.
#[derive(Clone, Copy, Debug, PartialEq, Eq, Structural)]
pub struct VertexText {
    pub x: Span,
    pub y: Span,
    pub z: Span,
}

impl View for VertexText {
    type V = Seq<(int, int)>;

    open spec fn view(&self) -> Seq<(int, int)> {
        seq![self.x@, self.y@, self.z@]
    }
}

/// One facet block: the well-formed `vertex` lines among the three lines that
/// follow its `outer loop` line. A complete block has three.
#[derive(Debug)]
pub struct AsciiFacet {
    pub vertices: Vec<VertexText>,
}

impl View for AsciiFacet {
    type V = Seq<Seq<(int, int)>>;

    open spec fn view(&self) -> Seq<Seq<(int, int)>> {
        vertex_views(self.vertices@)
    }
}

/// ASCII whitespace: space, tab, line feed, vertical tab, form feed, return.
pub open spec fn is_space(b: u8) -> bool {
    b == 32 || (9 <= b <= 13)
}

/// The lines of `s` from the line that starts at `start`, scanning from `i`.
/// Lines end at a line feed, which with a return just before it is not part of
/// the line; a last line without a line feed keeps all its bytes.
pub open spec fn lines_from(s: Seq<u8>, start: int, i: int) -> Seq<(int, int)>
    decreases s.len() - i,
{
    if i >= s.len() {
        if start < s.len() {
            seq![(start, s.len() as int)]
        } else {
            seq![]
        }
    } else if s[i] == 10 {
        let end = if i > start && s[i - 1] == 13 {
            i - 1
        } else {
            i
        };
        seq![(start, end)] + lines_from(s, i + 1, i + 1)
    } else {
        lines_from(s, start, i + 1)
    }
}

/// The lines of `s`.
pub open spec fn lines(s: Seq<u8>) -> Seq<(int, int)> {
    lines_from(s, 0, 0)
}

/// The start of `s[a..b]` with leading whitespace passed over.
pub open spec fn trim_front(s: Seq<u8>, a: int, b: int) -> int
    decreases b - a,
{
    if a < b && is_space(s[a]) {
        trim_front(s, a + 1, b)
    } else {
        a
    }
}

/// The end of `s[a..b]` with trailing whitespace passed over.
pub open spec fn trim_back(s: Seq<u8>, a: int, b: int) -> int
    decreases b - a,
{
    if a < b && is_space(s[b - 1]) {
        trim_back(s, a, b - 1)
    } else {
        b
    }
}

/// The range `r` without leading and trailing whitespace.
pub open spec fn trim(s: Seq<u8>, r: (int, int)) -> (int, int) {
    let a = trim_front(s, r.0, r.1);
    (a, trim_back(s, a, r.1))
}

/// The whitespace-separated tokens of `s[..b]`, scanning from `i`, where the
/// current token started at `start` (no token is open when `start == i`).
pub open spec fn tokens_from(s: Seq<u8>, start: int, i: int, b: int) -> Seq<(int, int)>
    decreases b - i,
{
    let open_token = if start < i {
        seq![(start, i)]
    } else {
        Seq::<(int, int)>::empty()
    };
    if i >= b {
        open_token
    } else if is_space(s[i]) {
        open_token + tokens_from(s, i + 1, i + 1, b)
    } else {
        tokens_from(s, start, i + 1, b)
    }
}

/// The whitespace-separated tokens of `s[r.0..r.1]`.
pub open spec fn tokens(s: Seq<u8>, r: (int, int)) -> Seq<(int, int)> {
    tokens_from(s, r.0, r.0, r.1)
}

/// `facet normal`
pub open spec fn facet_word() -> Seq<u8> {
    seq![102u8, 97u8, 99u8, 101u8, 116u8, 32u8, 110u8, 111u8, 114u8, 109u8, 97u8, 108u8]
}

/// `vertex`
pub open spec fn vertex_word() -> Seq<u8> {
    seq![118u8, 101u8, 114u8, 116u8, 101u8, 120u8]
}

/// Whether the line `r` opens a facet block.
pub open spec fn is_facet_line(s: Seq<u8>, r: (int, int)) -> bool {
    let t = trim(s, r);
    starts_with_ci(s, t.0, t.1, facet_word())
}

/// The number tokens of the line `r`, as a one-element sequence, when it is a
/// `vertex` line with at least three tokens after the keyword; else empty.
pub open spec fn vertex_of(s: Seq<u8>, r: (int, int)) -> Seq<Seq<(int, int)>> {
    let t = trim(s, r);
    let toks = tokens(s, t);
    if starts_with_ci(s, t.0, t.1, vertex_word()) && toks.len() >= 4 {
        seq![toks.subrange(1, 4)]
    } else {
        seq![]
    }
}

/// What line `j` of `ls` contributes to a facet block.
pub open spec fn line_vertex(s: Seq<u8>, ls: Seq<(int, int)>, j: int) -> Seq<Seq<(int, int)>> {
    if 0 <= j < ls.len() {
        vertex_of(s, ls[j])
    } else {
        seq![]
    }
}

/// The vertices of the block whose `vertex` lines would be lines `j`, `j + 1`
/// and `j + 2`.
pub open spec fn block(s: Seq<u8>, ls: Seq<(int, int)>, j: int) -> Seq<Seq<(int, int)>> {
    line_vertex(s, ls, j) + line_vertex(s, ls, j + 1) + line_vertex(s, ls, j + 2)
}

/// The facet blocks from line `i` on: a `facet normal` line, one line passed
/// over, then three lines that should be vertices; other lines are skipped.
pub open spec fn facets_from(s: Seq<u8>, ls: Seq<(int, int)>, i: int) -> Seq<Seq<Seq<(int, int)>>>
    decreases ls.len() + 5 - i,
{
    if i >= ls.len() || i < 0 {
        seq![]
    } else if is_facet_line(s, ls[i]) {
        seq![block(s, ls, i + 2)] + facets_from(s, ls, i + 5)
    } else {
        facets_from(s, ls, i + 1)
    }
}

/// The facet blocks of the text `s`.
pub open spec fn ascii_facets(s: Seq<u8>) -> Seq<Seq<Seq<(int, int)>>> {
    facets_from(s, lines(s), 0)
}

pub open spec fn span_views(v: Seq<Span>) -> Seq<(int, int)> {
    v.map_values(|x: Span| x@)
}

pub open spec fn vertex_views(v: Seq<VertexText>) -> Seq<Seq<(int, int)>> {
    v.map_values(|x: VertexText| x@)
}

pub open spec fn facet_views(v: Seq<AsciiFacet>) -> Seq<Seq<Seq<(int, int)>>> {
    v.map_values(|f: AsciiFacet| f@)
}

fn is_space_byte(b: u8) -> (r: bool)
    ensures
        r == is_space(b),
{
    b == 32 || (9 <= b && b <= 13)
}

/// Splits `data` into lines.
pub fn split_lines(data: &[u8]) -> (r: Vec<Span>)
    ensures
        span_views(r@) == lines(data@),
        forall|j: int| 0 <= j < r@.len() ==> #[trigger] r@[j].start <= r@[j].end <= data@.len(),
{
    let len = data.len();
    let mut out: Vec<Span> = Vec::new();
    let mut start: usize = 0;
    let mut i: usize = 0;
    while i < len
        invariant
            len == data@.len(),
            start <= i <= len,
            span_views(out@) + lines_from(data@, start as int, i as int) == lines(data@),
            forall|j: int| 0 <= j < out@.len() ==> #[trigger] out@[j].start <= out@[j].end <= data@.len(),
        decreases len - i,
    {
        if data[i] == 10 {
            let end = if i > start && data[i - 1] == 13 {
                i - 1
            } else {
                i
            };
            let ghost before = span_views(out@);
            let ghost old_out = out@;
            out.push(Span { start, end });
            proof {
                assert forall|j: int| 0 <= j < out@.len() implies #[trigger] out@[j].start <= out@[j].end <= data@.len() by {
                    if j < old_out.len() {
                        assert(out@[j] == old_out[j]);
                    }
                }
                assert(span_views(out@) =~= before.push((start as int, end as int)));
                assert(span_views(out@) + lines_from(data@, i + 1, i + 1) =~= before + (seq![(start as int, end as int)] + lines_from(data@, i + 1, i + 1)));
            }
            start = i + 1;
        }
        i = i + 1;
    }
    if start < len {
        let ghost before = span_views(out@);
        let ghost old_out = out@;
        out.push(Span { start, end: len });
        proof {
            assert forall|j: int| 0 <= j < out@.len() implies #[trigger] out@[j].start <= out@[j].end <= data@.len() by {
                if j < old_out.len() {
                    assert(out@[j] == old_out[j]);
                }
            }
            assert(span_views(out@) =~= before + seq![(start as int, len as int)]);
        }
    } else {
        proof {
            assert(span_views(out@) =~= span_views(out@) + Seq::<(int, int)>::empty());
        }
    }
    out
}

/// `sp` without leading and trailing whitespace.
fn trim_span(data: &[u8], sp: Span) -> (r: Span)
    requires
        sp.start <= sp.end <= data@.len(),
    ensures
        r@ == trim(data@, sp@),
        sp.start <= r.start <= r.end <= sp.end,
{
    let mut a = sp.start;
    while a < sp.end && is_space_byte(data[a])
        invariant
            sp.start <= a <= sp.end <= data@.len(),
            trim_front(data@, a as int, sp.end as int) == trim_front(data@, sp.start as int, sp.end as int),
        decreases sp.end - a,
    {
        a = a + 1;
    }
    let mut b = sp.end;
    while b > a && is_space_byte(data[b - 1])
        invariant
            sp.start <= a <= b <= sp.end <= data@.len(),
            trim_back(data@, a as int, b as int) == trim_back(data@, a as int, sp.end as int),
            a as int == trim_front(data@, sp.start as int, sp.end as int),
        decreases b - a,
    {
        b = b - 1;
    }
    Span { start: a, end: b }
}

/// The whitespace-separated tokens of `sp`.
fn split_tokens(data: &[u8], sp: Span) -> (r: Vec<Span>)
    requires
        sp.start <= sp.end <= data@.len(),
    ensures
        span_views(r@) == tokens(data@, sp@),
        forall|j: int| 0 <= j < r@.len() ==> sp.start <= #[trigger] r@[j].start <= r@[j].end <= sp.end,
{
    let mut out: Vec<Span> = Vec::new();
    let mut start = sp.start;
    let mut i = sp.start;
    while i < sp.end
        invariant
            sp.start <= start <= i <= sp.end <= data@.len(),
            span_views(out@) + tokens_from(data@, start as int, i as int, sp.end as int) == tokens(data@, sp@),
            forall|j: int| 0 <= j < out@.len() ==> sp.start <= #[trigger] out@[j].start <= out@[j].end <= sp.end,
        decreases sp.end - i,
    {
        if is_space_byte(data[i]) {
            let ghost rest = tokens_from(data@, i + 1, i + 1, sp.end as int);
            let ghost before = span_views(out@);
            if start < i {
                let ghost old_out = out@;
                out.push(Span { start, end: i });
                proof {
                    assert(span_views(out@) =~= before + seq![(start as int, i as int)]);
                    assert(span_views(out@) + rest =~= before + (seq![(start as int, i as int)] + rest));
                    assert forall|j: int| 0 <= j < out@.len() implies sp.start <= #[trigger] out@[j].start <= out@[j].end <= sp.end by {
                        if j < old_out.len() {
                            assert(out@[j] == old_out[j]);
                        }
                    }
                }
            } else {
                proof {
                    assert(Seq::<(int, int)>::empty() + rest =~= rest);
                }
            }
            start = i + 1;
        }
        i = i + 1;
    }
    if start < i {
        let ghost before = span_views(out@);
        let ghost old_out = out@;
        out.push(Span { start, end: i });
        proof {
            assert(span_views(out@) =~= before + seq![(start as int, i as int)]);
            assert forall|j: int| 0 <= j < out@.len() implies sp.start <= #[trigger] out@[j].start <= out@[j].end <= sp.end by {
                if j < old_out.len() {
                    assert(out@[j] == old_out[j]);
                }
            }
        }
    } else {
        proof {
            assert(span_views(out@) + Seq::<(int, int)>::empty() =~= span_views(out@));
        }
    }
    out
}

fn vertex_keyword() -> (k: [u8; 6])
    ensures
        k@ == vertex_word(),
{
    let k: [u8; 6] = [118, 101, 114, 116, 101, 120];
    assert(k@ =~= vertex_word());
    k
}

fn facet_keyword() -> (k: [u8; 12])
    ensures
        k@ == facet_word(),
{
    let k: [u8; 12] = [102, 97, 99, 101, 116, 32, 110, 111, 114, 109, 97, 108];
    assert(k@ =~= facet_word());
    k
}

/// Whether the line `sp` opens a facet block.
pub fn is_facet_header(data: &[u8], sp: Span) -> (r: bool)
    requires
        sp.start <= sp.end <= data@.len(),
    ensures
        r == is_facet_line(data@, sp@),
{
    let t = trim_span(data, sp);
    let kw = facet_keyword();
    has_prefix_ci(data, t.start, t.end, &kw)
}

/// Appends the number tokens of the line `sp` to `vs` when it is a
/// well-formed `vertex` line.
fn collect_vertex(data: &[u8], sp: Span, vs: &mut Vec<VertexText>)
    requires
        sp.start <= sp.end <= data@.len(),
    ensures
        vertex_views(final(vs)@) == vertex_views(old(vs)@) + vertex_of(data@, sp@),
{
    let t = trim_span(data, sp);
    let kw = vertex_keyword();
    let ghost before = vertex_views(vs@);
    if has_prefix_ci(data, t.start, t.end, &kw) {
        let toks = split_tokens(data, t);
        if toks.len() >= 4 {
            let v = VertexText { x: toks[1], y: toks[2], z: toks[3] };
            vs.push(v);
            proof {
                assert(v@ =~= tokens(data@, t@).subrange(1, 4));
                assert(vertex_views(vs@) =~= before + seq![v@]);
            }
            return;
        }
    }
    proof {
        assert(vertex_views(vs@) =~= before + Seq::<Seq<(int, int)>>::empty());
    }
}

impl StlReader {
    /// Finds the facet blocks of a text file and the number tokens of their
    /// vertices.
    pub fn read_ascii_stl(data: &[u8]) -> (r: Vec<AsciiFacet>)
        ensures
            facet_views(r@) == ascii_facets(data@),
    {
        let ls = split_lines(data);
        let ghost l = span_views(ls@);
        let mut out: Vec<AsciiFacet> = Vec::new();
        let mut i: usize = 0;
        while i < ls.len()
            invariant
                i <= ls@.len(),
                l == span_views(ls@),
                l == lines(data@),
                forall|j: int| 0 <= j < ls@.len() ==> #[trigger] ls@[j].start <= ls@[j].end <= data@.len(),
                facet_views(out@) + facets_from(data@, l, i as int) == ascii_facets(data@),
            decreases ls@.len() - i,
        {
            let rest = ls.len() - i;
            if is_facet_header(data, ls[i]) {
                let mut vs: Vec<VertexText> = Vec::new();
                if rest > 2 {
                    collect_vertex(data, ls[i + 2], &mut vs);
                }
                if rest > 3 {
                    collect_vertex(data, ls[i + 3], &mut vs);
                }
                if rest > 4 {
                    collect_vertex(data, ls[i + 4], &mut vs);
                }
                let ghost before = facet_views(out@);
                let facet = AsciiFacet { vertices: vs };
                proof {
                    assert(facet@ =~= block(data@, l, i + 2));
                }
                out.push(facet);
                proof {
                    assert(facet_views(out@) =~= before + seq![facet@]);
                    assert(facet_views(out@) + facets_from(data@, l, i + 5) =~= before + (seq![facet@] + facets_from(data@, l, i + 5)));
                }
                if rest > 5 {
                    i = i + 5;
                } else {
                    i = ls.len();
                }
            } else {
                i = i + 1;
            }
        }
        proof {
            assert(facet_views(out@) + Seq::<Seq<Seq<(int, int)>>>::empty() =~= facet_views(out@));
        }
        out
    }
}

} // verus!
