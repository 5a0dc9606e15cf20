//! The mesh scan: recognizing facet blocks in a line stream, extracting
//! their triangles, and accumulating the statistics.
//!
//! A line whose trimmed text begins with `facet` opens a block.  The scan
//! then skips one line (the `outer loop` marker) and reads the next three
//! lines as vertex lines; every other line is passed over.  The scan fails
//! when fewer than four lines follow a recognized marker, or when one of
//! the three vertex lines is not well formed.

use vstd::prelude::*;

use crate::text::is_facet_marker;
use crate::triangle::{parse_vertex, triangle_view, vertex_ok, StlTriangle, TriangleView};

verus! {

/// Why a scan failed.
#[derive(Clone, Copy, PartialEq, Eq, Structural, Debug)]
pub enum ParseError {
    /// A facet marker was followed by fewer than four lines, so fewer than
    /// three vertex lines remained before the stream ended.
    TruncatedFacet,
    /// A vertex line of a facet block did not carry three numeric
    /// coordinate tokens after its keyword.
    MalformedVertex,
}

/// The views of a sequence of owned lines.
pub open spec fn line_views(lines: Seq<String>) -> Seq<Seq<char>> {
    lines.map_values(|l: String| l@)
}

/// The views of a sequence of extracted triangles.
pub open spec fn facet_views(ts: Seq<StlTriangle>) -> Seq<TriangleView> {
    ts.map_values(|t: StlTriangle| t@)
}

/// The triangles extracted from `lines`, scanning from position `i`, or
/// the first failure.  This is the meaning of the whole mesh scan.
pub open spec fn facet_scan(lines: Seq<Seq<char>>, i: int) -> Result<Seq<TriangleView>, ParseError>
    decreases lines.len() - i,
    when 0 <= i
{
    if i >= lines.len() {
        Ok(Seq::empty())
    } else if is_facet_marker(lines[i]) {
        if i + 5 > lines.len() {
            Err(ParseError::TruncatedFacet)
        } else if !(vertex_ok(lines[i + 2]) && vertex_ok(lines[i + 3]) && vertex_ok(
            lines[i + 4],
        )) {
            Err(ParseError::MalformedVertex)
        } else {
            match facet_scan(lines, i + 5) {
                Ok(rest) => Ok(
                    seq![triangle_view(lines[i + 2], lines[i + 3], lines[i + 4])] + rest,
                ),
                Err(e) => Err(e),
            }
        }
    } else {
        facet_scan(lines, i + 1)
    }
}

/// The statistics of one mesh: how many facets were recognized, and their
/// triangle records.  The surface-area total of the original report is a
/// floating-point fold over these records and is left to the caller.
#[derive(Debug)]
pub struct StlStats {
    /// The number of recognized facets.
    pub triangles: u32,
    /// The extracted triangle records, in encounter order.
    pub facets: Vec<StlTriangle>,
}

impl StlStats {
    /// The count always matches the records.
    pub open spec fn wf(&self) -> bool {
        self.triangles as nat == self.facets@.len()
    }

    /// The empty accumulator.
    pub fn new() -> (s: Self)
        ensures
            s.triangles == 0,
            s.facets@.len() == 0,
            s.wf(),
    {
        StlStats { triangles: 0, facets: Vec::new() }
    }
}

/// Scans a whole line-split mesh and accumulates its statistics: exactly
/// the triangles of [`facet_scan`], counted, or its first failure.
pub fn process_stl(lines: &Vec<String>) -> (r: Result<StlStats, ParseError>)
    requires
        lines@.len() <= u32::MAX,
    ensures
        match r {
            Ok(stats) => {
                &&& stats.wf()
                &&& facet_scan(line_views(lines@), 0) == Ok::<Seq<TriangleView>, ParseError>(
                    facet_views(stats.facets@),
                )
                &&& stats.triangles as nat == facet_views(stats.facets@).len()
            },
            Err(e) => facet_scan(line_views(lines@), 0) == Err::<Seq<TriangleView>, ParseError>(e),
        },
{
    let ghost model = line_views(lines@);
    let n = lines.len();
    let mut stats = StlStats::new();
    let mut i: usize = 0;
    while i < n
        invariant
            n == lines@.len() <= u32::MAX,
            0 <= i <= n,
            model == line_views(lines@),
            stats.wf(),
            5 * stats.facets@.len() <= i as int,
            (match facet_scan(model, i as int) {
                Ok(rest) => facet_scan(model, 0) == Ok::<Seq<TriangleView>, ParseError>(
                    facet_views(stats.facets@) + rest,
                ),
                Err(e) => facet_scan(model, 0) == Err::<Seq<TriangleView>, ParseError>(e),
            }),
        decreases n - i,
    {
        proof {
            assert(model[i as int] == lines@[i as int]@);
        }
        if crate::text::facet_marker(lines[i].as_str()) {
            if n - i < 5 {
                proof {
                    assert(facet_scan(model, i as int) == Err::<Seq<TriangleView>, ParseError>(
                        ParseError::TruncatedFacet,
                    ));
                }
                return Err(ParseError::TruncatedFacet);
            }
            proof {
                assert(model[i + 2] == lines@[i + 2]@);
                assert(model[i + 3] == lines@[i + 3]@);
                assert(model[i + 4] == lines@[i + 4]@);
            }
            let vx = parse_vertex(lines[i + 2].as_str());
            let vy = parse_vertex(lines[i + 3].as_str());
            let vz = parse_vertex(lines[i + 4].as_str());
            if vx.is_none() || vy.is_none() || vz.is_none() {
                proof {
                    assert(facet_scan(model, i as int) == Err::<Seq<TriangleView>, ParseError>(
                        ParseError::MalformedVertex,
                    ));
                }
                return Err(ParseError::MalformedVertex);
            }
            let t = StlTriangle { x: vx.unwrap(), y: vy.unwrap(), z: vz.unwrap() };
            let ghost old_facets = stats.facets@;
            stats.facets.push(t);
            stats.triangles = stats.triangles + 1;
            i = i + 5;
            proof {
                assert(t@ == triangle_view(model[i - 3], model[i - 2], model[i - 1]));
                assert(facet_views(stats.facets@) =~= facet_views(old_facets) + seq![t@]);
                if facet_scan(model, i as int) is Ok {
                    let rest = facet_scan(model, i as int).unwrap();
                    assert(facet_scan(model, i - 5) == Ok::<Seq<TriangleView>, ParseError>(
                        seq![t@] + rest,
                    ));
                    assert((facet_views(old_facets) + seq![t@]) + rest =~= facet_views(old_facets)
                        + (seq![t@] + rest));
                } else {
                    let e = facet_scan(model, i as int)->Err_0;
                    assert(facet_scan(model, i - 5) == Err::<Seq<TriangleView>, ParseError>(e));
                }
            }
        } else {
            i = i + 1;
        }
    }
    proof {
        assert(facet_scan(model, i as int) == Ok::<Seq<TriangleView>, ParseError>(Seq::empty()));
        assert(facet_views(stats.facets@) + Seq::<TriangleView>::empty() =~= facet_views(
            stats.facets@,
        ));
    }
    Ok(stats)
}

/// Each recognized facet consumes five lines: its marker, the skipped
/// line after it, and the three vertex lines.  A clean scan therefore
/// never yields more than a fifth of the line count in triangles.
pub proof fn lemma_five_lines_per_facet(lines: Seq<Seq<char>>)
    requires
        facet_scan(lines, 0) is Ok,
    ensures
        5 * facet_scan(lines, 0).unwrap().len() <= lines.len(),
{
    lemma_five_lines_per_facet_from(lines, 0);
}

proof fn lemma_five_lines_per_facet_from(lines: Seq<Seq<char>>, i: int)
    requires
        0 <= i <= lines.len(),
        facet_scan(lines, i) is Ok,
    ensures
        5 * facet_scan(lines, i).unwrap().len() <= lines.len() - i,
    decreases lines.len() - i,
{
    if i < lines.len() {
        if is_facet_marker(lines[i]) {
            lemma_five_lines_per_facet_from(lines, i + 5);
        } else {
            lemma_five_lines_per_facet_from(lines, i + 1);
        }
    }
}

/// Past the first part of a concatenation, the scan reads only the second
/// part: positions shift by the first part's length.
proof fn lemma_scan_offset(l1: Seq<Seq<char>>, l2: Seq<Seq<char>>, j: int)
    requires
        0 <= j <= l2.len(),
    ensures
        facet_scan(l1 + l2, l1.len() + j) == facet_scan(l2, j),
    decreases l2.len() - j,
{
    let c = l1 + l2;
    if j >= l2.len() {
        assert(facet_scan(c, l1.len() + j) == Ok::<Seq<TriangleView>, ParseError>(Seq::empty()));
    } else {
        assert(c[l1.len() + j] == l2[j]);
        if is_facet_marker(l2[j]) {
            if j + 5 > l2.len() {
                assert(l1.len() + j + 5 > c.len());
            } else {
                assert(c[l1.len() + j + 2] == l2[j + 2]);
                assert(c[l1.len() + j + 3] == l2[j + 3]);
                assert(c[l1.len() + j + 4] == l2[j + 4]);
                lemma_scan_offset(l1, l2, j + 5);
            }
        } else {
            lemma_scan_offset(l1, l2, j + 1);
        }
    }
}

/// Scanning a concatenation whose first part scans cleanly yields the
/// first part's triangles followed by whatever the second part yields,
/// and the second part's failure if it fails.
pub proof fn lemma_scan_concat(l1: Seq<Seq<char>>, l2: Seq<Seq<char>>)
    requires
        facet_scan(l1, 0) is Ok,
    ensures
        facet_scan(l1 + l2, 0) == (match facet_scan(l2, 0) {
            Ok(t2) => Ok::<Seq<TriangleView>, ParseError>(facet_scan(l1, 0).unwrap() + t2),
            Err(e) => Err::<Seq<TriangleView>, ParseError>(e),
        }),
{
    lemma_scan_concat_at(l1, l2, 0);
}

proof fn lemma_scan_concat_at(l1: Seq<Seq<char>>, l2: Seq<Seq<char>>, i: int)
    requires
        0 <= i <= l1.len(),
        facet_scan(l1, i) is Ok,
    ensures
        facet_scan(l1 + l2, i) == (match facet_scan(l2, 0) {
            Ok(t2) => Ok::<Seq<TriangleView>, ParseError>(facet_scan(l1, i).unwrap() + t2),
            Err(e) => Err::<Seq<TriangleView>, ParseError>(e),
        }),
    decreases l1.len() - i,
{
    let c = l1 + l2;
    if i == l1.len() {
        lemma_scan_offset(l1, l2, 0);
        assert(facet_scan(l1, i) == Ok::<Seq<TriangleView>, ParseError>(Seq::empty()));
        if facet_scan(l2, 0) is Ok {
            assert(Seq::<TriangleView>::empty() + facet_scan(l2, 0).unwrap() =~= facet_scan(
                l2,
                0,
            ).unwrap());
        }
    } else {
        assert(c[i] == l1[i]);
        if is_facet_marker(l1[i]) {
            assert(i + 5 <= l1.len());
            assert(c[i + 2] == l1[i + 2]);
            assert(c[i + 3] == l1[i + 3]);
            assert(c[i + 4] == l1[i + 4]);
            assert(facet_scan(l1, i + 5) is Ok);
            lemma_scan_concat_at(l1, l2, i + 5);
            if facet_scan(l2, 0) is Ok {
                let tri = triangle_view(l1[i + 2], l1[i + 3], l1[i + 4]);
                let rest = facet_scan(l1, i + 5).unwrap();
                let t2 = facet_scan(l2, 0).unwrap();
                assert((seq![tri] + rest) + t2 =~= seq![tri] + (rest + t2));
            }
        } else {
            lemma_scan_concat_at(l1, l2, i + 1);
        }
    }
}

/// Reordering facet blocks leaves the statistics unchanged: putting two
/// cleanly scanning groups of lines in either order yields the same
/// triangles up to order, and in particular the same count.
pub proof fn lemma_order_independent(l1: Seq<Seq<char>>, l2: Seq<Seq<char>>)
    requires
        facet_scan(l1, 0) is Ok,
        facet_scan(l2, 0) is Ok,
    ensures
        facet_scan(l1 + l2, 0) is Ok,
        facet_scan(l2 + l1, 0) is Ok,
        facet_scan(l1 + l2, 0).unwrap().len() == facet_scan(l2 + l1, 0).unwrap().len(),
        facet_scan(l1 + l2, 0).unwrap().to_multiset() == facet_scan(
            l2 + l1,
            0,
        ).unwrap().to_multiset(),
{
    lemma_scan_concat(l1, l2);
    lemma_scan_concat(l2, l1);
    let t1 = facet_scan(l1, 0).unwrap();
    let t2 = facet_scan(l2, 0).unwrap();
    vstd::seq_lib::lemma_seq_union_to_multiset_commutative(t1, t2);
}

/// Reordering facet blocks anywhere within a mesh leaves the statistics
/// unchanged: swapping two cleanly scanning groups of lines in place, with
/// any lines around and between them, yields the same triangles up to
/// order, and in particular the same count.  Any reordering of blocks is a
/// chain of such swaps.
pub proof fn lemma_block_order_independent(
    prefix: Seq<Seq<char>>,
    g1: Seq<Seq<char>>,
    mid: Seq<Seq<char>>,
    g2: Seq<Seq<char>>,
    suffix: Seq<Seq<char>>,
)
    requires
        facet_scan(prefix, 0) is Ok,
        facet_scan(g1, 0) is Ok,
        facet_scan(mid, 0) is Ok,
        facet_scan(g2, 0) is Ok,
        facet_scan(suffix, 0) is Ok,
    ensures
        facet_scan(prefix + g1 + mid + g2 + suffix, 0) is Ok,
        facet_scan(prefix + g2 + mid + g1 + suffix, 0) is Ok,
        facet_scan(prefix + g1 + mid + g2 + suffix, 0).unwrap().len() == facet_scan(
            prefix + g2 + mid + g1 + suffix,
            0,
        ).unwrap().len(),
        facet_scan(prefix + g1 + mid + g2 + suffix, 0).unwrap().to_multiset() == facet_scan(
            prefix + g2 + mid + g1 + suffix,
            0,
        ).unwrap().to_multiset(),
{
    broadcast use vstd::multiset::group_multiset_axioms;

    let tp = facet_scan(prefix, 0).unwrap();
    let t1 = facet_scan(g1, 0).unwrap();
    let tm = facet_scan(mid, 0).unwrap();
    let t2 = facet_scan(g2, 0).unwrap();
    let ts = facet_scan(suffix, 0).unwrap();

    lemma_scan_concat(prefix, g1);
    lemma_scan_concat(prefix + g1, mid);
    lemma_scan_concat(prefix + g1 + mid, g2);
    lemma_scan_concat(prefix + g1 + mid + g2, suffix);
    assert(facet_scan(prefix + g1 + mid + g2 + suffix, 0) == Ok::<
        Seq<TriangleView>,
        ParseError,
    >(tp + t1 + tm + t2 + ts));

    lemma_scan_concat(prefix, g2);
    lemma_scan_concat(prefix + g2, mid);
    lemma_scan_concat(prefix + g2 + mid, g1);
    lemma_scan_concat(prefix + g2 + mid + g1, suffix);
    assert(facet_scan(prefix + g2 + mid + g1 + suffix, 0) == Ok::<
        Seq<TriangleView>,
        ParseError,
    >(tp + t2 + tm + t1 + ts));

    vstd::seq_lib::lemma_multiset_commutative(tp + t1 + tm + t2, ts);
    vstd::seq_lib::lemma_multiset_commutative(tp + t1 + tm, t2);
    vstd::seq_lib::lemma_multiset_commutative(tp + t1, tm);
    vstd::seq_lib::lemma_multiset_commutative(tp, t1);
    vstd::seq_lib::lemma_multiset_commutative(tp + t2 + tm + t1, ts);
    vstd::seq_lib::lemma_multiset_commutative(tp + t2 + tm, t1);
    vstd::seq_lib::lemma_multiset_commutative(tp + t2, tm);
    vstd::seq_lib::lemma_multiset_commutative(tp, t2);
    assert((tp + t1 + tm + t2 + ts).to_multiset() =~= (tp + t2 + tm + t1 + ts).to_multiset());
}

/// A mesh without a facet marker yields no triangles: only marker lines
/// contribute to the statistics.
pub proof fn lemma_no_facets(lines: Seq<Seq<char>>)
    requires
        forall|i: int| 0 <= i < lines.len() ==> !is_facet_marker(lines[i]),
    ensures
        facet_scan(lines, 0) == Ok::<Seq<TriangleView>, ParseError>(Seq::empty()),
{
    lemma_no_facets_from(lines, 0);
}

proof fn lemma_no_facets_from(lines: Seq<Seq<char>>, i: int)
    requires
        0 <= i <= lines.len(),
        forall|j: int| i <= j < lines.len() ==> !is_facet_marker(lines[j]),
    ensures
        facet_scan(lines, i) == Ok::<Seq<TriangleView>, ParseError>(Seq::empty()),
    decreases lines.len() - i,
{
    if i < lines.len() {
        lemma_no_facets_from(lines, i + 1);
    }
}

/// A truncated trailing facet is a failure, never a silently shortened
/// mesh: when a marker at `i` has fewer than four lines after it, and no
/// earlier facet block can reach past `i`, the whole scan fails.
pub proof fn lemma_truncated_fails(lines: Seq<Seq<char>>, i: int)
    requires
        0 <= i < lines.len(),
        is_facet_marker(lines[i]),
        i + 5 > lines.len(),
        forall|j: int| 0 <= j < i && #[trigger] is_facet_marker(lines[j]) ==> j + 5 <= i,
    ensures
        facet_scan(lines, 0) is Err,
{
    lemma_truncated_fails_from(lines, i, 0);
}

proof fn lemma_truncated_fails_from(lines: Seq<Seq<char>>, i: int, p: int)
    requires
        0 <= p <= i < lines.len(),
        is_facet_marker(lines[i]),
        i + 5 > lines.len(),
        forall|j: int| p <= j < i && #[trigger] is_facet_marker(lines[j]) ==> j + 5 <= i,
    ensures
        facet_scan(lines, p) is Err,
    decreases i - p,
{
    if p == i {
        assert(facet_scan(lines, p) == Err::<Seq<TriangleView>, ParseError>(
            ParseError::TruncatedFacet,
        ));
    } else if is_facet_marker(lines[p]) {
        assert(p + 5 <= i);
        if vertex_ok(lines[p + 2]) && vertex_ok(lines[p + 3]) && vertex_ok(lines[p + 4]) {
            lemma_truncated_fails_from(lines, i, p + 5);
        }
    } else {
        lemma_truncated_fails_from(lines, i, p + 1);
    }
}

} // verus!
