//! The record projector: applies a mapping specification to every record, in
//! input order, producing one row of canonical JSON cell text per record.
//! Any resolution failure aborts the whole run at once: no row is skipped,
//! no default is substituted, and no record is retried.

use vstd::prelude::*;

use crate::errors::{Error, ErrorV};
use crate::mapping::{resolve_spec, FieldMapperV, HeaderMappings};
use crate::render::{json_text, to_json_text};
use crate::strutil::strs_view;
use crate::value::{elems_view, JVal, Value};

verus! {

broadcast use vstd::std_specs::vec::group_vec_axioms, vstd::seq::group_seq_axioms;

/// The header row: the column names in specification order.
pub open spec fn header_spec(hm: Seq<(Seq<char>, FieldMapperV)>) -> Seq<Seq<char>> {
    Seq::new(hm.len(), |i: int| hm[i].0)
}

/// One record's row from column `j` on: each mapper resolved against the
/// record, each resolved value rendered to its canonical JSON text. The
/// first failing column aborts the row with its error.
pub open spec fn row_spec(
    hm: Seq<(Seq<char>, FieldMapperV)>,
    j: int,
    record: JVal,
) -> Result<Seq<Seq<char>>, ErrorV>
    decreases hm.len() - j,
{
    if j >= hm.len() {
        Ok(Seq::empty())
    } else {
        match resolve_spec(hm[j].1, record) {
            Ok(v) => match row_spec(hm, j + 1, record) {
                Ok(rest) => Ok(seq![json_text(v)] + rest),
                Err(e) => Err(e),
            },
            Err(e) => Err(e),
        }
    }
}

/// The rows of the records from `i` on, in input order. The first failing
/// record aborts the run with its error.
pub open spec fn rows_spec(
    hm: Seq<(Seq<char>, FieldMapperV)>,
    records: Seq<JVal>,
    i: int,
) -> Result<Seq<Seq<Seq<char>>>, ErrorV>
    decreases records.len() - i,
{
    if i >= records.len() {
        Ok(Seq::empty())
    } else {
        match row_spec(hm, 0, records[i]) {
            Ok(row) => match rows_spec(hm, records, i + 1) {
                Ok(rest) => Ok(seq![row] + rest),
                Err(e) => Err(e),
            },
            Err(e) => Err(e),
        }
    }
}

/// The shapes of built rows.
pub open spec fn rows_view(rows: Seq<Vec<String>>) -> Seq<Seq<Seq<char>>> {
    Seq::new(rows.len(), |i: int| strs_view(rows[i]@))
}

impl HeaderMappings {
    /// The column names, in specification order: the header row.
    #[verifier::loop_isolation(false)]
    pub fn keys(&self) -> (r: Vec<String>)
        ensures
            strs_view(r@) == header_spec(self@),
    {
        let mut r: Vec<String> = Vec::new();
        let mut i: usize = 0;
        while i < self.entries.len()
            invariant
                i <= self.entries@.len(),
                r@.len() == i,
                forall|j: int| 0 <= j < i ==> r@[j]@ == self@[j].0,
            decreases self.entries@.len() - i,
        {
            r.push(self.entries[i].0.clone());
            i += 1;
        }
        proof {
            assert(strs_view(r@) =~~= header_spec(self@));
        }
        r
    }
}

/// Projects every record through the mapping specification, in input order:
/// on success there is exactly one row per record, each row has exactly one
/// cell of canonical JSON text per column, in column order. The first
/// failing (record, column) pair aborts the whole run with its error.
#[verifier::loop_isolation(false)]
pub fn project_rows(hm: &HeaderMappings, records: &Vec<Value>) -> (r: Result<
    Vec<Vec<String>>,
    Error,
>)
    ensures
        match r {
            Ok(rows) => rows_spec(hm@, elems_view(records@), 0) == Ok::<_, ErrorV>(
                rows_view(rows@),
            ) && rows@.len() == records@.len() && forall|k: int|
                0 <= k < rows@.len() ==> #[trigger] rows@[k]@.len() == hm@.len(),
            Err(e) => rows_spec(hm@, elems_view(records@), 0) == Err::<Seq<Seq<Seq<char>>>, _>(
                e@,
            ),
        },
{
    let ghost rv = elems_view(records@);
    let mut rows: Vec<Vec<String>> = Vec::new();
    let mut i: usize = 0;
    proof {
        assert(rows_view(rows@) =~~= Seq::<Seq<Seq<char>>>::empty());
    }
    while i < records.len()
        invariant
            i <= records@.len(),
            rows@.len() == i,
            forall|k: int| 0 <= k < i ==> #[trigger] rows@[k]@.len() == hm@.len(),
            rows_spec(hm@, rv, 0) == match rows_spec(hm@, rv, i as int) {
                Ok(rest) => Ok::<_, ErrorV>(rows_view(rows@) + rest),
                Err(e) => Err(e),
            },
        decreases records@.len() - i,
    {
        proof {
            assert(rv[i as int] == records@[i as int]@);
        }
        let ghost recv = rv[i as int];
        let mut cells: Vec<String> = Vec::new();
        let mut j: usize = 0;
        proof {
            assert(strs_view(cells@) =~~= Seq::<Seq<char>>::empty());
        }
        while j < hm.entries.len()
            invariant
                j <= hm.entries@.len(),
                cells@.len() == j,
                recv == records@[i as int]@,
                i < records@.len(),
                row_spec(hm@, 0, recv) == match row_spec(hm@, j as int, recv) {
                    Ok(rest) => Ok::<_, ErrorV>(strs_view(cells@) + rest),
                    Err(e) => Err(e),
                },
            decreases hm.entries@.len() - j,
        {
            proof {
                assert(hm@[j as int] == (hm.entries@[j as int].0@, hm.entries@[j as int].1@));
            }
            match hm.entries[j].1.resolve(&records[i]) {
                Ok(v) => {
                    let ghost old_cells = cells@;
                    let cell = to_json_text(&v);
                    let ghost cellv = cell@;
                    cells.push(cell);
                    proof {
                        match row_spec(hm@, j as int + 1, recv) {
                            Ok(rest) => {
                                assert(strs_view(cells@) + rest =~~= strs_view(old_cells) + (
                                seq![cellv] + rest));
                            },
                            Err(e) => {},
                        }
                    }
                },
                Err(e) => {
                    proof {
                        assert(rows_spec(hm@, rv, i as int) == Err::<Seq<Seq<Seq<char>>>, ErrorV>(
                            e@,
                        ));
                    }
                    return Err(e);
                },
            }
            j += 1;
        }
        proof {
            assert(row_spec(hm@, hm.entries@.len() as int, recv) == Ok::<_, ErrorV>(
                Seq::<Seq<char>>::empty(),
            ));
            assert(strs_view(cells@) + Seq::<Seq<char>>::empty() =~~= strs_view(cells@));
        }
        let ghost old_rows = rows@;
        let ghost rowv = strs_view(cells@);
        rows.push(cells);
        proof {
            match rows_spec(hm@, rv, i as int + 1) {
                Ok(rest) => {
                    assert(rows_view(rows@) + rest =~~= rows_view(old_rows) + (seq![rowv] + rest));
                },
                Err(e) => {},
            }
        }
        i += 1;
    }
    proof {
        assert(rows_spec(hm@, rv, records@.len() as int) == Ok::<_, ErrorV>(
            Seq::<Seq<Seq<char>>>::empty(),
        ));
        assert(rows_view(rows@) + Seq::<Seq<Seq<char>>>::empty() =~~= rows_view(rows@));
    }
    Ok(rows)
}

} // verus!
