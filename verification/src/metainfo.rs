//! The location index: descriptors, raw records, node locations and
//! cached source files, with the bidirectional queries between points,
//! nodes and records.

use crate::analysis::Tuple;
use crate::csv_file::{spec_has_bad_node_field, spec_raw_ok, RawDiagnostic};
use crate::debug_file::DebugJson;
use crate::loc_file::{
    spec_contains_point, spec_debug_loc_ok, spec_loc_line_err, spec_loc_line_ok, DebugLoc, Loc,
};
use crate::source_file::SourceFile;
use crate::text::{copy_vec, spec_lines, spec_split, split_lines, str_eq};
use crate::LoadError;
use vstd::prelude::*;

verus! {

/// The first-seen order of the distinct values in `xs`.
pub open spec fn spec_first_seen(xs: Seq<Seq<char>>) -> Seq<Seq<char>>
    decreases xs.len(),
{
    if xs.len() == 0 {
        Seq::empty()
    } else {
        let rest = spec_first_seen(xs.drop_last());
        if rest.contains(xs.last()) {
            rest
        } else {
            rest.push(xs.last())
        }
    }
}

/// Whether one of the names reads `v`.
fn names_contains(xs: &Vec<String>, v: &str) -> (r: bool)
    ensures
        r == xs@.map_values(|s: String| s@).contains(v@),
{
    let ghost m = xs@.map_values(|s: String| s@);
    let mut i: usize = 0;
    while i < xs.len()
        invariant
            i <= xs@.len(),
            m == xs@.map_values(|s: String| s@),
            forall|j: int| 0 <= j < i ==> m[j] != v@,
        decreases xs@.len() - i,
    {
        if str_eq(xs[i].as_str(), v) {
            assert(m[i as int] == v@);
            return true;
        }
        i += 1;
    }
    proof {
        if m.contains(v@) {
            let j = choose|j: int| 0 <= j < m.len() && m[j] == v@;
            assert(m[j] != v@);
        }
    }
    false
}

/// The distinct names, in first-seen order.
pub fn first_seen(xs: &Vec<String>) -> (r: Vec<String>)
    ensures
        r@.map_values(|s: String| s@) == spec_first_seen(xs@.map_values(|s: String| s@)),
{
    let ghost views = xs@.map_values(|s: String| s@);
    let mut out: Vec<String> = Vec::new();
    let mut i: usize = 0;
    proof {
        assert(views.subrange(0, 0) =~= Seq::<Seq<char>>::empty());
        assert(out@.map_values(|s: String| s@) =~= spec_first_seen(views.subrange(0, 0)));
    }
    while i < xs.len()
        invariant
            i <= xs@.len(),
            views == xs@.map_values(|s: String| s@),
            out@.map_values(|s: String| s@) == spec_first_seen(views.subrange(0, i as int)),
        decreases xs@.len() - i,
    {
        proof {
            assert(views.subrange(0, i + 1).drop_last() =~= views.subrange(0, i as int));
            assert(views.subrange(0, i + 1).last() == views[i as int]);
        }
        if !names_contains(&out, xs[i].as_str()) {
            let ghost m0 = out@.map_values(|s: String| s@);
            out.push(xs[i].clone());
            proof {
                assert(out@.map_values(|s: String| s@) =~= m0.push(views[i as int]));
            }
        }
        i += 1;
    }
    proof {
        assert(views.subrange(0, views.len() as int) =~= views);
    }
    out
}

/// The distinct location files the descriptors declare, in first-seen
/// order.
pub fn loc_file_names(descriptors: &Vec<DebugJson>) -> (r: Vec<String>)
    ensures
        r@.map_values(|s: String| s@) == spec_first_seen(
            descriptors@.map_values(|d: DebugJson| d.loc_file@),
        ),
{
    let ghost views = descriptors@.map_values(|d: DebugJson| d.loc_file@);
    let mut names: Vec<String> = Vec::new();
    let mut i: usize = 0;
    while i < descriptors.len()
        invariant
            i <= descriptors@.len(),
            views == descriptors@.map_values(|d: DebugJson| d.loc_file@),
            names@.map_values(|s: String| s@) == views.subrange(0, i as int),
        decreases descriptors@.len() - i,
    {
        let ghost m0 = names@.map_values(|s: String| s@);
        names.push(descriptors[i].loc_file.clone());
        proof {
            assert(names@.map_values(|s: String| s@) =~= m0.push(views[i as int]));
            assert(m0.push(views[i as int]) =~= views.subrange(0, i + 1));
        }
        i += 1;
    }
    proof {
        assert(views.subrange(0, views.len() as int) =~= views);
    }
    let r = first_seen(&names);
    r
}

/// The distinct source files the locations reference, in first-seen
/// order.
pub fn source_file_names(locs: &Vec<DebugLoc>) -> (r: Vec<String>)
    ensures
        r@.map_values(|s: String| s@) == spec_first_seen(
            locs@.map_values(|d: DebugLoc| d.source_file@),
        ),
{
    let ghost views = locs@.map_values(|d: DebugLoc| d.source_file@);
    let mut names: Vec<String> = Vec::new();
    let mut i: usize = 0;
    while i < locs.len()
        invariant
            i <= locs@.len(),
            views == locs@.map_values(|d: DebugLoc| d.source_file@),
            names@.map_values(|s: String| s@) == views.subrange(0, i as int),
        decreases locs@.len() - i,
    {
        let ghost m0 = names@.map_values(|s: String| s@);
        names.push(locs[i].source_file.clone());
        proof {
            assert(names@.map_values(|s: String| s@) =~= m0.push(views[i as int]));
            assert(m0.push(views[i as int]) =~= views.subrange(0, i + 1));
        }
        i += 1;
    }
    proof {
        assert(views.subrange(0, views.len() as int) =~= views);
    }
    let r = first_seen(&names);
    r
}

/// Reads a whole data file for one descriptor: one record per line.
/// The first malformed line fails the load, as a malformed data file
/// is a startup error.
pub fn parse_data_file(descriptor: &DebugJson, content: &str) -> (r: Result<
    Vec<RawDiagnostic>,
    LoadError,
>)
    ensures
        ({
            let lines = spec_lines(content@);
            match r {
                Ok(ds) => {
                    &&& ds@.len() == lines.len()
                    &&& forall|k: int|
                        0 <= k < lines.len() ==> !spec_has_bad_node_field(
                            spec_split(#[trigger] lines[k], ','),
                            descriptor.fields_with_nodes@,
                        )
                    &&& forall|k: int|
                        0 <= k < lines.len() ==> spec_raw_ok(
                            ds@[k],
                            descriptor.fields_with_nodes@,
                            descriptor.name@,
                            #[trigger] lines[k],
                        )
                },
                Err(e) => {
                    &&& e == LoadError::BadNumber
                    &&& exists|k: int|
                        0 <= k < lines.len() && spec_has_bad_node_field(
                            spec_split(#[trigger] lines[k], ','),
                            descriptor.fields_with_nodes@,
                        )
                },
            }
        }),
{
    let lines = split_lines(content);
    let ghost lns = spec_lines(content@);
    assert(forall|k: int| 0 <= k < lns.len() ==> #[trigger] lns[k] == lines@[k]@);
    let mut out: Vec<RawDiagnostic> = Vec::new();
    let mut i: usize = 0;
    while i < lines.len()
        invariant
            i <= lines@.len(),
            lns == spec_lines(content@),
            lns.len() == lines@.len(),
            forall|k: int| 0 <= k < lns.len() ==> #[trigger] lns[k] == lines@[k]@,
            out@.len() == i,
            forall|k: int|
                0 <= k < i ==> !spec_has_bad_node_field(
                    spec_split(#[trigger] lns[k], ','),
                    descriptor.fields_with_nodes@,
                ),
            forall|k: int|
                0 <= k < i ==> spec_raw_ok(
                    out@[k],
                    descriptor.fields_with_nodes@,
                    descriptor.name@,
                    #[trigger] lns[k],
                ),
        decreases lines@.len() - i,
    {
        match RawDiagnostic::new(
            descriptor.fields_with_nodes.as_slice(),
            descriptor.name.as_str(),
            lines[i].as_str(),
        ) {
            Ok(d) => {
                out.push(d);
            },
            Err(e) => {
                assert(spec_has_bad_node_field(
                    spec_split(lns[i as int], ','),
                    descriptor.fields_with_nodes@,
                ));
                return Err(e);
            },
        }
        i += 1;
    }
    Ok(out)
}

/// Reads a whole location file: one node location per line. The first
/// malformed line fails the load, as a malformed location file is a
/// startup error.
pub fn parse_loc_file(content: &str) -> (r: Result<Vec<DebugLoc>, LoadError>)
    ensures
        ({
            let lines = spec_lines(content@);
            match r {
                Ok(ds) => {
                    &&& ds@.len() == lines.len()
                    &&& forall|k: int| 0 <= k < lines.len() ==> spec_loc_line_ok(#[trigger] lines[k])
                    &&& forall|k: int|
                        0 <= k < lines.len() ==> spec_debug_loc_ok(ds@[k], #[trigger] lines[k])
                },
                Err(e) => exists|k: int|
                    {
                        &&& 0 <= k < lines.len()
                        &&& !spec_loc_line_ok(#[trigger] lines[k])
                        &&& (forall|j: int| 0 <= j < k ==> spec_loc_line_ok(#[trigger] lines[j]))
                        &&& e == spec_loc_line_err(lines[k])
                    },
            }
        }),
{
    let lines = split_lines(content);
    let ghost lns = spec_lines(content@);
    assert(forall|k: int| 0 <= k < lns.len() ==> #[trigger] lns[k] == lines@[k]@);
    let mut out: Vec<DebugLoc> = Vec::new();
    let mut i: usize = 0;
    while i < lines.len()
        invariant
            i <= lines@.len(),
            lns == spec_lines(content@),
            lns.len() == lines@.len(),
            forall|k: int| 0 <= k < lns.len() ==> #[trigger] lns[k] == lines@[k]@,
            out@.len() == i,
            forall|k: int| 0 <= k < i ==> spec_loc_line_ok(#[trigger] lns[k]),
            forall|k: int| 0 <= k < i ==> spec_debug_loc_ok(out@[k], #[trigger] lns[k]),
        decreases lines@.len() - i,
    {
        match DebugLoc::from_str(lines[i].as_str()) {
            Ok(d) => {
                out.push(d);
            },
            Err(e) => {
                assert(!spec_loc_line_ok(lns[i as int]));
                assert(e == spec_loc_line_err(lns[i as int]));
                return Err(e);
            },
        }
        i += 1;
    }
    Ok(out)
}

/// The range of the first location registered for node `n`, walking
/// the location list in load order.
pub open spec fn spec_first_loc(locs: Seq<DebugLoc>, n: usize) -> Option<Loc>
    decreases locs.len(),
{
    if locs.len() == 0 {
        None
    } else if locs[0].node_id == n {
        Some(locs[0].loc)
    } else {
        spec_first_loc(locs.drop_first(), n)
    }
}

proof fn lemma_first_loc_at(locs: Seq<DebugLoc>, n: usize, k: int)
    requires
        0 <= k < locs.len(),
        locs[k].node_id == n,
        forall|j: int| 0 <= j < k ==> locs[j].node_id != n,
    ensures
        spec_first_loc(locs, n) == Some(locs[k].loc),
    decreases locs.len(),
{
    if k > 0 {
        lemma_first_loc_at(locs.drop_first(), n, k - 1);
    }
}

proof fn lemma_first_loc_none(locs: Seq<DebugLoc>, n: usize)
    requires
        forall|j: int| 0 <= j < locs.len() ==> locs[j].node_id != n,
    ensures
        spec_first_loc(locs, n) is None,
    decreases locs.len(),
{
    if locs.len() > 0 {
        lemma_first_loc_none(locs.drop_first(), n);
    }
}

/// Whether every node in `nodes` has a registered location.
pub open spec fn spec_all_resolvable(locs: Seq<DebugLoc>, nodes: Seq<usize>) -> bool {
    forall|k: int| 0 <= k < nodes.len() ==> spec_first_loc(locs, #[trigger] nodes[k]) is Some
}

/// One range per node, each node resolved to its first registered
/// location.
pub open spec fn spec_resolved_locs(locs: Seq<DebugLoc>, nodes: Seq<usize>) -> Seq<Loc> {
    Seq::new(nodes.len(), |k: int| spec_first_loc(locs, nodes[k])->Some_0)
}

/// Whether the two node-id lists share an element.
pub open spec fn spec_intersects(xs: Seq<usize>, ys: Seq<usize>) -> bool {
    exists|x: usize| xs.contains(x) && ys.contains(x)
}

/// Whether a raw record can be hydrated: every node it references has
/// a registered location.
pub open spec fn spec_hydratable(a: RawDiagnostic, locs: Seq<DebugLoc>) -> bool {
    spec_all_resolvable(locs, a.nodes@)
}

/// The indices, from `i` on, of records that belong to relation `rel`
/// and can be hydrated.
pub open spec fn spec_rel_indices(
    analyses: Seq<RawDiagnostic>,
    locs: Seq<DebugLoc>,
    rel: Seq<char>,
    i: nat,
) -> Seq<int>
    decreases analyses.len() - i,
{
    if i >= analyses.len() {
        Seq::empty()
    } else if analyses[i as int].name@ == rel && spec_hydratable(analyses[i as int], locs) {
        seq![i as int] + spec_rel_indices(analyses, locs, rel, i + 1)
    } else {
        spec_rel_indices(analyses, locs, rel, i + 1)
    }
}

/// The indices, from `i` on, of records whose node set intersects
/// `nodes` and that can be hydrated.
pub open spec fn spec_node_indices(
    analyses: Seq<RawDiagnostic>,
    locs: Seq<DebugLoc>,
    nodes: Seq<usize>,
    i: nat,
) -> Seq<int>
    decreases analyses.len() - i,
{
    if i >= analyses.len() {
        Seq::empty()
    } else if spec_intersects(analyses[i as int].nodes@, nodes) && spec_hydratable(
        analyses[i as int],
        locs,
    ) {
        seq![i as int] + spec_node_indices(analyses, locs, nodes, i + 1)
    } else {
        spec_node_indices(analyses, locs, nodes, i + 1)
    }
}

/// The node ids, from location `i` on, registered in `file` whose
/// range contains the 1-indexed point `(line, col)`.
pub open spec fn spec_nodes_at_from(
    locs: Seq<DebugLoc>,
    file: Seq<char>,
    line: usize,
    col: usize,
    i: nat,
) -> Seq<usize>
    decreases locs.len() - i,
{
    if i >= locs.len() {
        Seq::empty()
    } else if locs[i as int].source_file@ == file && spec_contains_point(
        locs[i as int].loc,
        line as int,
        col as int,
    ) {
        seq![locs[i as int].node_id] + spec_nodes_at_from(locs, file, line, col, i + 1)
    } else {
        spec_nodes_at_from(locs, file, line, col, i + 1)
    }
}

/// What a hydrated answer holds: one record per index in `idxs`, each
/// carrying its raw record's name and nodes, the nodes' resolved
/// ranges, and an unarmed occurrence cursor.
pub open spec fn spec_hydrated_ok(
    r: Seq<Tuple>,
    analyses: Seq<RawDiagnostic>,
    locs: Seq<DebugLoc>,
    idxs: Seq<int>,
) -> bool {
    &&& r.len() == idxs.len()
    &&& forall|k: int|
        0 <= k < idxs.len() ==> {
            let a = analyses[#[trigger] idxs[k]];
            &&& r[k].name@ == a.name@
            &&& r[k].nodes@ == a.nodes@
            &&& r[k].locs@ == spec_resolved_locs(locs, a.nodes@)
            &&& r[k].occurrence is None
        }
}

/// The ranges of the locations registered in `file`, in load order.
pub open spec fn spec_file_ranges(locs: Seq<DebugLoc>, file: Seq<char>) -> Seq<Loc>
    decreases locs.len(),
{
    if locs.len() == 0 {
        Seq::empty()
    } else {
        let rest = spec_file_ranges(locs.drop_last(), file);
        if locs.last().source_file@ == file {
            rest.push(locs.last().loc)
        } else {
            rest
        }
    }
}

proof fn lemma_nodes_at_drop_last(
    locs: Seq<DebugLoc>,
    file: Seq<char>,
    line: usize,
    col: usize,
    i: nat,
)
    requires
        locs.len() > 0,
        i <= locs.len() - 1,
    ensures
        spec_nodes_at_from(locs, file, line, col, i) == spec_nodes_at_from(
            locs.drop_last(),
            file,
            line,
            col,
            i,
        ) + (if locs.last().source_file@ == file && spec_contains_point(
            locs.last().loc,
            line as int,
            col as int,
        ) {
            seq![locs.last().node_id]
        } else {
            Seq::<usize>::empty()
        }),
    decreases locs.len() - i,
{
    let tail: Seq<usize> = if locs.last().source_file@ == file && spec_contains_point(
        locs.last().loc,
        line as int,
        col as int,
    ) {
        seq![locs.last().node_id]
    } else {
        Seq::<usize>::empty()
    };
    if i == locs.len() - 1 {
        assert(spec_nodes_at_from(locs, file, line, col, i + 1) =~= Seq::<usize>::empty());
        assert(spec_nodes_at_from(locs.drop_last(), file, line, col, i) =~= Seq::<
            usize,
        >::empty());
        assert(spec_nodes_at_from(locs, file, line, col, i) =~= tail);
        assert(spec_nodes_at_from(locs.drop_last(), file, line, col, i) + tail =~= tail);
    } else {
        lemma_nodes_at_drop_last(locs, file, line, col, i + 1);
        assert(locs.drop_last()[i as int] == locs[i as int]);
        if locs[i as int].source_file@ == file && spec_contains_point(
            locs[i as int].loc,
            line as int,
            col as int,
        ) {
            assert(spec_nodes_at_from(locs, file, line, col, i) =~= (spec_nodes_at_from(
                locs.drop_last(),
                file,
                line,
                col,
                i,
            ) + tail));
        } else {
            assert(spec_nodes_at_from(locs, file, line, col, i) =~= (spec_nodes_at_from(
                locs.drop_last(),
                file,
                line,
                col,
                i,
            ) + tail));
        }
    }
}

/// The point-query path and the per-character overlap path share the
/// containment rule: the number of nodes the point query finds in a
/// file equals the overlap level the renderer computes at that point
/// from the same file's ranges.
pub proof fn lemma_point_query_matches_overlap(
    locs: Seq<DebugLoc>,
    file: Seq<char>,
    line: usize,
    col: usize,
)
    ensures
        spec_nodes_at_from(locs, file, line, col, 0).len() == crate::source_view::spec_overlap_level(
            spec_file_ranges(locs, file),
            line as int,
            col as int,
        ),
    decreases locs.len(),
{
    if locs.len() > 0 {
        lemma_point_query_matches_overlap(locs.drop_last(), file, line, col);
        lemma_nodes_at_drop_last(locs, file, line, col, 0);
        let ranges = spec_file_ranges(locs, file);
        if locs.last().source_file@ == file {
            assert(ranges.drop_last() =~= spec_file_ranges(locs.drop_last(), file));
            assert(ranges.last() == locs.last().loc);
        }
    } else {
        assert(spec_nodes_at_from(locs, file, line, col, 0) =~= Seq::<usize>::empty());
    }
}

/// Whether a source file of that name is cached.
pub open spec fn spec_has_file(files: Seq<SourceFile>, name: Seq<char>) -> bool {
    exists|k: int| 0 <= k < files.len() && (#[trigger] files[k].name@) == name
}

/// The text of the first cached file of that name.
pub open spec fn spec_file_content(files: Seq<SourceFile>, name: Seq<char>) -> Option<
    Seq<char>,
>
    decreases files.len(),
{
    if files.len() == 0 {
        None
    } else if files[0].name@ == name {
        Some(files[0].content@)
    } else {
        spec_file_content(files.drop_first(), name)
    }
}

proof fn lemma_file_content_at(files: Seq<SourceFile>, name: Seq<char>, k: int)
    requires
        0 <= k < files.len(),
        files[k].name@ == name,
        forall|j: int| 0 <= j < k ==> files[j].name@ != name,
    ensures
        spec_file_content(files, name) == Some(files[k].content@),
    decreases files.len(),
{
    if k > 0 {
        lemma_file_content_at(files.drop_first(), name, k - 1);
    }
}

proof fn lemma_file_content_none(files: Seq<SourceFile>, name: Seq<char>)
    requires
        forall|j: int| 0 <= j < files.len() ==> files[j].name@ != name,
    ensures
        spec_file_content(files, name) is None,
    decreases files.len(),
{
    if files.len() > 0 {
        lemma_file_content_none(files.drop_first(), name);
    }
}

/// The first registered location of node `n`, if any.
fn first_loc(locs: &Vec<DebugLoc>, n: usize) -> (r: Option<Loc>)
    ensures
        r == spec_first_loc(locs@, n),
{
    let mut i: usize = 0;
    while i < locs.len()
        invariant
            i <= locs@.len(),
            forall|j: int| 0 <= j < i ==> locs@[j].node_id != n,
        decreases locs@.len() - i,
    {
        if locs[i].node_id == n {
            proof {
                lemma_first_loc_at(locs@, n, i as int);
            }
            return Some(locs[i].loc);
        }
        i += 1;
    }
    proof {
        lemma_first_loc_none(locs@, n);
    }
    None
}

/// One range per node, each resolved to its first registered location;
/// nothing when some node has none.
fn resolve_locs(locs: &Vec<DebugLoc>, nodes: &Vec<usize>) -> (r: Option<Vec<Loc>>)
    ensures
        r is Some <==> spec_all_resolvable(locs@, nodes@),
        r matches Some(v) ==> v@ == spec_resolved_locs(locs@, nodes@),
{
    let mut out: Vec<Loc> = Vec::new();
    let mut k: usize = 0;
    while k < nodes.len()
        invariant
            k <= nodes@.len(),
            out@.len() == k,
            forall|j: int|
                0 <= j < k ==> spec_first_loc(locs@, #[trigger] nodes@[j]) is Some,
            forall|j: int|
                0 <= j < k ==> out@[j] == spec_first_loc(locs@, #[trigger] nodes@[j])->Some_0,
        decreases nodes@.len() - k,
    {
        match first_loc(locs, nodes[k]) {
            Some(l) => {
                out.push(l);
            },
            None => {
                assert(spec_first_loc(locs@, nodes@[k as int]) is None);
                return None;
            },
        }
        k += 1;
    }
    proof {
        assert(out@ =~= spec_resolved_locs(locs@, nodes@));
    }
    Some(out)
}

/// Whether the slice holds `v`.
fn ids_contain(xs: &[usize], v: usize) -> (r: bool)
    ensures
        r == xs@.contains(v),
{
    let mut i: usize = 0;
    while i < xs.len()
        invariant
            i <= xs@.len(),
            forall|j: int| 0 <= j < i ==> xs@[j] != v,
        decreases xs@.len() - i,
    {
        if xs[i] == v {
            return true;
        }
        i += 1;
    }
    false
}

/// Whether the two node-id lists share an element.
pub fn intersects(xs: &[usize], ys: &[usize]) -> (r: bool)
    ensures
        r == spec_intersects(xs@, ys@),
{
    let mut i: usize = 0;
    while i < xs.len()
        invariant
            i <= xs@.len(),
            forall|j: int| 0 <= j < i ==> !ys@.contains(#[trigger] xs@[j]),
        decreases xs@.len() - i,
    {
        if ids_contain(ys, xs[i]) {
            assert(xs@.contains(xs@[i as int]));
            return true;
        }
        i += 1;
    }
    proof {
        assert forall|x: usize| !(xs@.contains(x) && ys@.contains(x)) by {
            if xs@.contains(x) {
                let j = choose|j: int| 0 <= j < xs@.len() && xs@[j] == x;
                assert(!ys@.contains(xs@[j]));
            }
        }
    }
    false
}

/// The location index: every loaded descriptor, raw record, node
/// location, and the cached source files. Built once at startup and
/// read-only afterwards.
pub struct MetaInfo {
    pub source_files: Vec<SourceFile>,
    pub debug_json: Vec<DebugJson>,
    pub analyses: Vec<RawDiagnostic>,
    pub debug_locs: Vec<DebugLoc>,
}

impl MetaInfo {
    /// An index over already-parsed parts.
    pub fn new(
        source_files: Vec<SourceFile>,
        debug_json: Vec<DebugJson>,
        analyses: Vec<RawDiagnostic>,
        debug_locs: Vec<DebugLoc>,
    ) -> (r: MetaInfo)
        ensures
            r.source_files == source_files,
            r.debug_json == debug_json,
            r.analyses == analyses,
            r.debug_locs == debug_locs,
    {
        MetaInfo { source_files, debug_json, analyses, debug_locs }
    }

    /// Whether a source file of that name is cached.
    pub fn has_source_file(&self, name: &str) -> (r: bool)
        ensures
            r == spec_has_file(self.source_files@, name@),
    {
        let mut i: usize = 0;
        while i < self.source_files.len()
            invariant
                i <= self.source_files@.len(),
                forall|j: int| 0 <= j < i ==> (#[trigger] self.source_files@[j].name@) != name@,
            decreases self.source_files@.len() - i,
        {
            if str_eq(self.source_files[i].name.as_str(), name) {
                assert(self.source_files@[i as int].name@ == name@);
                return true;
            }
            i += 1;
        }
        false
    }

    /// The text of the cached source file of that name, if one is.
    pub fn source_content(&self, name: &str) -> (r: Option<&String>)
        ensures
            r is Some <==> spec_has_file(self.source_files@, name@),
            r matches Some(c) ==> Some(c@) == spec_file_content(self.source_files@, name@),
    {
        let mut i: usize = 0;
        while i < self.source_files.len()
            invariant
                i <= self.source_files@.len(),
                forall|j: int| 0 <= j < i ==> (#[trigger] self.source_files@[j].name@) != name@,
            decreases self.source_files@.len() - i,
        {
            if str_eq(self.source_files[i].name.as_str(), name) {
                proof {
                    lemma_file_content_at(self.source_files@, name@, i as int);
                }
                return Some(&self.source_files[i].content);
            }
            i += 1;
        }
        proof {
            lemma_file_content_none(self.source_files@, name@);
        }
        None
    }

    /// Every record intersecting the given node set, hydrated: each of
    /// its nodes resolved to its first registered location. A record
    /// referencing a node with no location is dropped from the answer
    /// rather than failing the query.
    pub fn get_analyses(&self, nodes: &[usize]) -> (r: Vec<Tuple>)
        ensures
            spec_hydrated_ok(
                r@,
                self.analyses@,
                self.debug_locs@,
                spec_node_indices(self.analyses@, self.debug_locs@, nodes@, 0),
            ),
    {
        let ghost analyses = self.analyses@;
        let ghost locs = self.debug_locs@;
        let ghost ns = nodes@;
        let mut out: Vec<Tuple> = Vec::new();
        let ghost mut done: Seq<int> = Seq::empty();
        let mut i: usize = 0;
        proof {
            assert(spec_node_indices(analyses, locs, ns, 0) =~= done + spec_node_indices(
                analyses,
                locs,
                ns,
                0,
            ));
        }
        while i < self.analyses.len()
            invariant
                i <= self.analyses@.len(),
                analyses == self.analyses@,
                locs == self.debug_locs@,
                ns == nodes@,
                spec_node_indices(analyses, locs, ns, 0) == done + spec_node_indices(
                    analyses,
                    locs,
                    ns,
                    i as nat,
                ),
                out@.len() == done.len(),
                forall|k: int|
                    0 <= k < done.len() ==> {
                        let a = analyses[#[trigger] done[k]];
                        &&& 0 <= done[k] < analyses.len()
                        &&& a.name@ == out@[k].name@
                        &&& a.nodes@ == out@[k].nodes@
                        &&& out@[k].locs@ == spec_resolved_locs(locs, a.nodes@)
                        &&& out@[k].occurrence is None
                    },
            decreases self.analyses@.len() - i,
        {
            let d = &self.analyses[i];
            if intersects(d.nodes.as_slice(), nodes) {
                match resolve_locs(&self.debug_locs, &d.nodes) {
                    Some(resolved) => {
                        proof {
                            assert(spec_node_indices(analyses, locs, ns, i as nat) == seq![
                                i as int,
                            ] + spec_node_indices(analyses, locs, ns, (i + 1) as nat));
                            assert((done + spec_node_indices(analyses, locs, ns, i as nat)) =~= (
                            done.push(i as int) + spec_node_indices(
                                analyses,
                                locs,
                                ns,
                                (i + 1) as nat,
                            )));
                            done = done.push(i as int);
                        }
                        let t = Tuple::new(d.name.clone(), copy_vec(&d.nodes), resolved);
                        out.push(t);
                    },
                    None => {
                        proof {
                            assert(spec_node_indices(analyses, locs, ns, i as nat)
                                == spec_node_indices(analyses, locs, ns, (i + 1) as nat));
                        }
                    },
                }
            } else {
                proof {
                    assert(spec_node_indices(analyses, locs, ns, i as nat) == spec_node_indices(
                        analyses,
                        locs,
                        ns,
                        (i + 1) as nat,
                    ));
                }
            }
            i += 1;
        }
        proof {
            assert(spec_node_indices(analyses, locs, ns, i as nat) =~= Seq::<int>::empty());
            assert(spec_node_indices(analyses, locs, ns, 0) =~= done);
        }
        out
    }

    /// Every record of the relation named `relation`, hydrated: each of
    /// its nodes resolved to its first registered location. A record
    /// referencing a node with no location is dropped from the answer
    /// rather than failing the query.
    pub fn get_tuples_for_relation(&self, relation: &str) -> (r: Vec<Tuple>)
        ensures
            spec_hydrated_ok(
                r@,
                self.analyses@,
                self.debug_locs@,
                spec_rel_indices(self.analyses@, self.debug_locs@, relation@, 0),
            ),
    {
        let ghost analyses = self.analyses@;
        let ghost locs = self.debug_locs@;
        let ghost rel = relation@;
        let mut out: Vec<Tuple> = Vec::new();
        let ghost mut done: Seq<int> = Seq::empty();
        let mut i: usize = 0;
        proof {
            assert(spec_rel_indices(analyses, locs, rel, 0) =~= done + spec_rel_indices(
                analyses,
                locs,
                rel,
                0,
            ));
        }
        while i < self.analyses.len()
            invariant
                i <= self.analyses@.len(),
                analyses == self.analyses@,
                locs == self.debug_locs@,
                rel == relation@,
                spec_rel_indices(analyses, locs, rel, 0) == done + spec_rel_indices(
                    analyses,
                    locs,
                    rel,
                    i as nat,
                ),
                out@.len() == done.len(),
                forall|k: int|
                    0 <= k < done.len() ==> {
                        let a = analyses[#[trigger] done[k]];
                        &&& 0 <= done[k] < analyses.len()
                        &&& a.name@ == out@[k].name@
                        &&& a.nodes@ == out@[k].nodes@
                        &&& out@[k].locs@ == spec_resolved_locs(locs, a.nodes@)
                        &&& out@[k].occurrence is None
                    },
            decreases self.analyses@.len() - i,
        {
            let d = &self.analyses[i];
            if str_eq(d.name.as_str(), relation) {
                match resolve_locs(&self.debug_locs, &d.nodes) {
                    Some(resolved) => {
                        proof {
                            assert(spec_rel_indices(analyses, locs, rel, i as nat) == seq![
                                i as int,
                            ] + spec_rel_indices(analyses, locs, rel, (i + 1) as nat));
                            assert((done + spec_rel_indices(analyses, locs, rel, i as nat)) =~= (
                            done.push(i as int) + spec_rel_indices(
                                analyses,
                                locs,
                                rel,
                                (i + 1) as nat,
                            )));
                            done = done.push(i as int);
                        }
                        let t = Tuple::new(d.name.clone(), copy_vec(&d.nodes), resolved);
                        out.push(t);
                    },
                    None => {
                        proof {
                            assert(spec_rel_indices(analyses, locs, rel, i as nat)
                                == spec_rel_indices(analyses, locs, rel, (i + 1) as nat));
                        }
                    },
                }
            } else {
                proof {
                    assert(spec_rel_indices(analyses, locs, rel, i as nat) == spec_rel_indices(
                        analyses,
                        locs,
                        rel,
                        (i + 1) as nat,
                    ));
                }
            }
            i += 1;
        }
        proof {
            assert(spec_rel_indices(analyses, locs, rel, i as nat) =~= Seq::<int>::empty());
            assert(spec_rel_indices(analyses, locs, rel, 0) =~= done);
        }
        out
    }

    /// The node ids whose registered range in `file` contains the
    /// buffer point `(row, col)`, both 0-indexed and converted to the
    /// index's 1-indexed convention here, at the coordinate boundary.
    /// Queries against a file that is not cached degrade to no matches.
    pub fn nodes_at(&self, file: &str, row: usize, col: usize) -> (r: Vec<usize>)
        requires
            row < usize::MAX,
            col < usize::MAX,
        ensures
            spec_has_file(self.source_files@, file@) ==> r@ == spec_nodes_at_from(
                self.debug_locs@,
                file@,
                (row + 1) as usize,
                (col + 1) as usize,
                0,
            ),
            !spec_has_file(self.source_files@, file@) ==> r@.len() == 0,
    {
        let mut out: Vec<usize> = Vec::new();
        if !self.has_source_file(file) {
            return out;
        }
        let line = row + 1;
        let col1 = col + 1;
        let ghost locs = self.debug_locs@;
        let ghost f = file@;
        let ghost mut done: Seq<usize> = Seq::empty();
        let mut i: usize = 0;
        proof {
            assert(spec_nodes_at_from(locs, f, line, col1, 0) =~= done + spec_nodes_at_from(
                locs,
                f,
                line,
                col1,
                0,
            ));
        }
        while i < self.debug_locs.len()
            invariant
                i <= self.debug_locs@.len(),
                locs == self.debug_locs@,
                f == file@,
                spec_nodes_at_from(locs, f, line, col1, 0) == done + spec_nodes_at_from(
                    locs,
                    f,
                    line,
                    col1,
                    i as nat,
                ),
                out@ == done,
            decreases self.debug_locs@.len() - i,
        {
            let d = &self.debug_locs[i];
            if str_eq(d.source_file.as_str(), file) && d.loc.contains_point(line, col1) {
                proof {
                    assert(spec_nodes_at_from(locs, f, line, col1, i as nat) == seq![
                        locs[i as int].node_id,
                    ] + spec_nodes_at_from(locs, f, line, col1, (i + 1) as nat));
                    assert((done + spec_nodes_at_from(locs, f, line, col1, i as nat)) =~= (
                    done.push(locs[i as int].node_id) + spec_nodes_at_from(
                        locs,
                        f,
                        line,
                        col1,
                        (i + 1) as nat,
                    )));
                    done = done.push(locs[i as int].node_id);
                }
                out.push(d.node_id);
            } else {
                proof {
                    assert(spec_nodes_at_from(locs, f, line, col1, i as nat)
                        == spec_nodes_at_from(locs, f, line, col1, (i + 1) as nat));
                }
            }
            i += 1;
        }
        proof {
            assert(spec_nodes_at_from(locs, f, line, col1, i as nat) =~= Seq::<usize>::empty());
            assert(spec_nodes_at_from(locs, f, line, col1, 0) =~= done);
        }
        out
    }
}

} // verus!
