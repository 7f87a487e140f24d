//! Raw analysis records: one delimited line split into the node-id
//! fields the descriptor declares and an opaque remainder payload.

use crate::loc_file::spec_field_is_usize;
use crate::text::{join_with, parse_usize, spec_join, spec_num_value, spec_split, split_on};
use crate::LoadError;
use vstd::prelude::*;

verus! {

/// The fields at the declared node-id positions, in field order,
/// starting the walk at position `i`.
pub open spec fn spec_picked(fs: Seq<Seq<char>>, idxs: Seq<usize>, i: nat) -> Seq<Seq<char>>
    decreases fs.len() - i,
{
    if i >= fs.len() {
        Seq::empty()
    } else if idxs.contains(i as usize) {
        seq![fs[i as int]] + spec_picked(fs, idxs, i + 1)
    } else {
        spec_picked(fs, idxs, i + 1)
    }
}

/// The fields away from the declared node-id positions, in field
/// order, starting the walk at position `i`.
pub open spec fn spec_dropped(fs: Seq<Seq<char>>, idxs: Seq<usize>, i: nat) -> Seq<Seq<char>>
    decreases fs.len() - i,
{
    if i >= fs.len() {
        Seq::empty()
    } else if idxs.contains(i as usize) {
        spec_dropped(fs, idxs, i + 1)
    } else {
        seq![fs[i as int]] + spec_dropped(fs, idxs, i + 1)
    }
}

/// Whether some declared node field fails to read as a decimal
/// machine-sized numeral.
pub open spec fn spec_has_bad_node_field(fs: Seq<Seq<char>>, idxs: Seq<usize>) -> bool {
    exists|k: int|
        0 <= k < spec_picked(fs, idxs, 0).len() && !spec_field_is_usize(
            #[trigger] spec_picked(fs, idxs, 0)[k],
        )
}

/// What a record parsed from `line` holds: the declared name, the
/// values of the node fields in field order, and the other fields
/// joined back verbatim as the payload.
pub open spec fn spec_raw_ok(
    d: RawDiagnostic,
    idxs: Seq<usize>,
    name: Seq<char>,
    line: Seq<char>,
) -> bool {
    let fs = spec_split(line, ',');
    let picked = spec_picked(fs, idxs, 0);
    let dropped = spec_dropped(fs, idxs, 0);
    &&& d.name@ == name
    &&& d.nodes@.len() == picked.len()
    &&& forall|k: int|
        0 <= k < picked.len() ==> d.nodes@[k] == spec_num_value(#[trigger] picked[k])
    &&& d.rest@ == spec_join(dropped, ',')
}

/// Whether the slice holds `v`.
fn idx_contains(xs: &[usize], v: usize) -> (r: bool)
    ensures
        r == xs@.contains(v),
{
    let mut i: usize = 0;
    while i < xs.len()
        invariant
            i <= xs@.len(),
            forall|j: int| 0 <= j < i ==> xs@[j] != v,
        decreases xs@.len() - i,
    {
        if xs[i] == v {
            return true;
        }
        i += 1;
    }
    false
}

/// One analysis record as loaded: its relation name, the node ids read
/// from the declared field positions, and the remaining fields joined
/// back as an opaque payload, never interpreted.
#[derive(Clone, Debug)]
pub struct RawDiagnostic {
    pub name: String,
    pub nodes: Vec<usize>,
    pub rest: String,
}

impl RawDiagnostic {
    /// Reads one delimited record line `s`: the fields at the positions
    /// in `fields_with_nodes` become node ids, every other field goes
    /// verbatim into the payload. `BadNumber` exactly when a declared
    /// node field is not a machine-sized numeral.
    pub fn new(fields_with_nodes: &[usize], name: &str, s: &str) -> (r: Result<
        RawDiagnostic,
        LoadError,
    >)
        ensures
            match r {
                Ok(d) => !spec_has_bad_node_field(spec_split(s@, ','), fields_with_nodes@)
                    && spec_raw_ok(d, fields_with_nodes@, name@, s@),
                Err(e) => e == LoadError::BadNumber && spec_has_bad_node_field(
                    spec_split(s@, ','),
                    fields_with_nodes@,
                ),
            },
    {
        let fields = split_on(s, ',');
        let ghost fs = spec_split(s@, ',');
        let ghost idxs = fields_with_nodes@;
        assert(forall|k: int| 0 <= k < fs.len() ==> #[trigger] fs[k] == fields@[k]@);
        let mut nodes: Vec<usize> = Vec::new();
        let mut rest_fields: Vec<String> = Vec::new();
        let ghost mut done_picked: Seq<Seq<char>> = Seq::empty();
        let ghost mut done_dropped: Seq<Seq<char>> = Seq::empty();
        let mut i: usize = 0;
        proof {
            assert(spec_picked(fs, idxs, 0) =~= done_picked + spec_picked(fs, idxs, 0));
            assert(spec_dropped(fs, idxs, 0) =~= done_dropped + spec_dropped(fs, idxs, 0));
        }
        while i < fields.len()
            invariant
                i <= fields@.len(),
                fs == spec_split(s@, ','),
                fs.len() == fields@.len(),
                forall|k: int| 0 <= k < fs.len() ==> #[trigger] fs[k] == fields@[k]@,
                idxs == fields_with_nodes@,
                spec_picked(fs, idxs, 0) == done_picked + spec_picked(fs, idxs, i as nat),
                spec_dropped(fs, idxs, 0) == done_dropped + spec_dropped(fs, idxs, i as nat),
                nodes@.len() == done_picked.len(),
                forall|k: int|
                    0 <= k < done_picked.len() ==> spec_field_is_usize(#[trigger] done_picked[k]),
                forall|k: int|
                    0 <= k < done_picked.len() ==> nodes@[k] == spec_num_value(
                        #[trigger] done_picked[k],
                    ),
                rest_fields@.map_values(|f: String| f@) == done_dropped,
            decreases fields@.len() - i,
        {
            if idx_contains(fields_with_nodes, i) {
                match parse_usize(fields[i].as_str()) {
                    Some(v) => {
                        proof {
                            assert(spec_picked(fs, idxs, i as nat) == seq![fs[i as int]]
                                + spec_picked(fs, idxs, (i + 1) as nat));
                            assert((done_picked + spec_picked(fs, idxs, i as nat)) =~= (
                            done_picked.push(fs[i as int]) + spec_picked(fs, idxs, (i + 1) as nat)));
                            done_picked = done_picked.push(fs[i as int]);
                            assert(spec_dropped(fs, idxs, i as nat) == spec_dropped(
                                fs,
                                idxs,
                                (i + 1) as nat,
                            ));
                        }
                        nodes.push(v);
                    },
                    None => {
                        proof {
                            let picked = spec_picked(fs, idxs, 0);
                            assert(spec_picked(fs, idxs, i as nat) == seq![fs[i as int]]
                                + spec_picked(fs, idxs, (i + 1) as nat));
                            assert(picked.len() >= done_picked.len() + 1);
                            assert(picked[done_picked.len() as int] == fs[i as int]);
                            assert(!spec_field_is_usize(picked[done_picked.len() as int]));
                            assert(spec_has_bad_node_field(fs, idxs));
                        }
                        return Err(LoadError::BadNumber);
                    },
                }
            } else {
                proof {
                    assert(spec_dropped(fs, idxs, i as nat) == seq![fs[i as int]] + spec_dropped(
                        fs,
                        idxs,
                        (i + 1) as nat,
                    ));
                    assert((done_dropped + spec_dropped(fs, idxs, i as nat)) =~= (
                    done_dropped.push(fs[i as int]) + spec_dropped(fs, idxs, (i + 1) as nat)));
                    done_dropped = done_dropped.push(fs[i as int]);
                    assert(spec_picked(fs, idxs, i as nat) == spec_picked(fs, idxs, (i + 1) as nat));
                    assert(rest_fields@.push(fields@[i as int]).map_values(|f: String| f@)
                        =~= rest_fields@.map_values(|f: String| f@).push(fields@[i as int]@));
                }
                rest_fields.push(fields[i].clone());
            }
            i += 1;
        }
        proof {
            assert(spec_picked(fs, idxs, i as nat) =~= Seq::<Seq<char>>::empty());
            assert(spec_dropped(fs, idxs, i as nat) =~= Seq::<Seq<char>>::empty());
            assert(spec_picked(fs, idxs, 0) =~= done_picked);
            assert(spec_dropped(fs, idxs, 0) =~= done_dropped);
            reveal_strlit(",");
        }
        let rest = join_with(&rest_fields, ",");
        Ok(RawDiagnostic { name: name.to_owned(), nodes, rest })
    }
}

} // verus!
