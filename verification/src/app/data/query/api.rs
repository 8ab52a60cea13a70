//! The steps of a query that need no store: which rows to ask for, and what
//! to make of the rows that came.
use crate::app::data::error::{Error, Fault};
use crate::app::data::query::maps::{file_rows, tag_rows, Columnar, Columns, ManyToManyIds};
use crate::model::{FCol, Fid, Ids, TCol, Tid};
use crate::util::collections::bound;
use vstd::prelude::*;

verus! {

/// The ids of the files of a list of associations, each once, in the order
/// in which they first come.
pub open spec fn firsts(rows: Seq<Ids>) -> Seq<i64>
    decreases rows.len(),
{
    if rows.len() == 0 {
        Seq::<i64>::empty()
    } else {
        let before = firsts(rows.drop_last());
        if before.contains(rows.last().0) {
            before
        } else {
            before.push(rows.last().0)
        }
    }
}

/// The ids of the tags of a list of associations, each once, in the order in
/// which they first come.
pub open spec fn seconds(rows: Seq<Ids>) -> Seq<i64>
    decreases rows.len(),
{
    if rows.len() == 0 {
        Seq::<i64>::empty()
    } else {
        let before = seconds(rows.drop_last());
        if before.contains(rows.last().1) {
            before
        } else {
            before.push(rows.last().1)
        }
    }
}

/// Whether a map holds the associations of a list, and no other.
pub open spec fn associates(m: &ManyToManyIds, rows: Seq<Ids>) -> bool {
    &&& forall|f: i64, t: i64| #[trigger] bound(m.lefts(), f).contains(t) <==> rows.contains((f, t))
    &&& forall|f: i64| #[trigger] m.lefts().contains_key(f) <==> firsts(rows).contains(f)
    &&& forall|t: i64| #[trigger] m.rights().contains_key(t) <==> seconds(rows).contains(t)
}

/// A list holds what it held before a row was added, and the row.
proof fn lemma_rows_push(rows: Seq<Ids>, row: Ids, pair: Ids)
    ensures
        rows.push(row).contains(pair) <==> (rows.contains(pair) || pair == row),
{
    let more = rows.push(row);
    if more.contains(pair) {
        let k = choose|k: int| 0 <= k < more.len() && more[k] == pair;
        if k < rows.len() {
            assert(rows[k] == pair);
        }
    }
    if rows.contains(pair) {
        let k = choose|k: int| 0 <= k < rows.len() && rows[k] == pair;
        assert(more[k] == pair);
    }
    if pair == row {
        assert(more[rows.len() as int] == pair);
    }
}

/// The ids of the files and of the tags of a list of associations, each
/// once, and the map of the associations.
pub fn associate(rows: &Vec<Ids>) -> (r: (Vec<Fid>, Vec<Tid>, ManyToManyIds))
    ensures
        r.0@ == firsts(rows@),
        r.1@ == seconds(rows@),
        r.2.wf(),
        r.2.consistent(),
        associates(&r.2, rows@),
{
    let mut fids: Vec<Fid> = Vec::new();
    let mut tids: Vec<Tid> = Vec::new();
    let mut mtom = ManyToManyIds::new();
    let mut i: usize = 0;
    assert(rows@.take(0) =~= Seq::<Ids>::empty());
    while i < rows.len()
        invariant
            i <= rows@.len(),
            fids@ == firsts(rows@.take(i as int)),
            tids@ == seconds(rows@.take(i as int)),
            mtom.wf(),
            mtom.consistent(),
            associates(&mtom, rows@.take(i as int)),
        decreases rows@.len() - i,
    {
        let (fid, tid) = rows[i];
        let ghost before = mtom;
        let ghost done = rows@.take(i as int);
        let ghost next = rows@.take(i as int + 1);
        proof {
            assert(next.drop_last() =~= done);
            assert(next.last() == (fid, tid));
            assert(next =~= done.push((fid, tid)));
        }
        let (f, t) = mtom.map(fid, tid);
        if f {
            fids.push(fid);
        }
        if t {
            tids.push(tid);
        }
        proof {
            assert forall|a: i64, b: i64| #[trigger]
                bound(mtom.lefts(), a).contains(b) <==> next.contains((a, b)) by {
                lemma_rows_push(done, (fid, tid), (a, b));
                assert(bound(before.lefts(), a).contains(b) <==> done.contains((a, b)));
            }
            assert forall|a: i64| #[trigger]
                mtom.lefts().contains_key(a) <==> firsts(next).contains(a) by {
                assert(before.lefts().contains_key(a) <==> firsts(done).contains(a));
                let fs = firsts(done);
                if !fs.contains(fid) {
                    if fs.push(fid).contains(a) {
                        let k = choose|k: int| 0 <= k < fs.push(fid).len() && fs.push(fid)[k] == a;
                        if k < fs.len() {
                            assert(fs[k] == a);
                        }
                    }
                    if fs.contains(a) {
                        let k = choose|k: int| 0 <= k < fs.len() && fs[k] == a;
                        assert(fs.push(fid)[k] == a);
                    }
                    assert(fs.push(fid)[fs.len() as int] == fid);
                }
            }
            assert forall|b: i64| #[trigger]
                mtom.rights().contains_key(b) <==> seconds(next).contains(b) by {
                assert(before.rights().contains_key(b) <==> seconds(done).contains(b));
                let ts = seconds(done);
                if !ts.contains(tid) {
                    if ts.push(tid).contains(b) {
                        let k = choose|k: int| 0 <= k < ts.push(tid).len() && ts.push(tid)[k] == b;
                        if k < ts.len() {
                            assert(ts[k] == b);
                        }
                    }
                    if ts.contains(b) {
                        let k = choose|k: int| 0 <= k < ts.len() && ts[k] == b;
                        assert(ts.push(tid)[k] == b);
                    }
                    assert(ts.push(tid)[ts.len() as int] == tid);
                }
            }
            assert(before.lefts().contains_key(fid) <==> firsts(done).contains(fid));
            assert(before.rights().contains_key(tid) <==> seconds(done).contains(tid));
        }
        i += 1;
    }
    assert(rows@.take(i as int) =~= rows@);
    (fids, tids, mtom)
}

/// What a state that got the wrong rows reports.
pub open spec fn inconsistent() -> Fault {
    Fault::WrongState { state: "raw"@, operation: "columns"@ }
}

/// The error of a state that got the wrong rows.
fn wrong_columns() -> (e: Error)
    ensures
        e@ == inconsistent(),
{
    Error::WrongState { state: "raw".to_owned(), operation: "columns".to_owned() }
}

/// The columns of a result that needs no map of its associations. There is
/// to be one row for each file and one for each tag of the associations.
pub fn query_unassociated(map: Vec<Ids>, fcol: Vec<FCol>, tcol: Vec<TCol>) -> (r: Result<
    Columns,
    Error,
>)
    ensures
        match r {
            Ok(cols) => fcol@.len() == firsts(map@).len() && tcol@.len() == seconds(map@).len()
                && cols.file_col() == file_rows(fcol@) && cols.tag_col() == tag_rows(tcol@)
                && cols.pair_col() == map@,
            Err(e) => !(fcol@.len() == firsts(map@).len() && tcol@.len() == seconds(map@).len())
                && e@ == inconsistent(),
        },
{
    let (fids, tids, _) = associate(&map);
    if fcol.len() != fids.len() || tcol.len() != tids.len() {
        return Err(wrong_columns());
    }
    Ok(Columns::from_cols(fcol, tcol, map))
}

/// The columns of a result and the map of its associations. There is to be
/// one row for each file and one for each tag of the associations.
pub fn query_associated(map: Vec<Ids>, fcol: Vec<FCol>, tcol: Vec<TCol>) -> (r: Result<
    (Columns, ManyToManyIds),
    Error,
>)
    ensures
        match r {
            Ok((cols, mtom)) => fcol@.len() == firsts(map@).len() && tcol@.len() == seconds(
                map@,
            ).len() && cols.file_col() == file_rows(fcol@) && cols.tag_col() == tag_rows(tcol@)
                && cols.pair_col() == map@ && mtom.wf() && mtom.consistent() && associates(
                &mtom,
                map@,
            ),
            Err(e) => !(fcol@.len() == firsts(map@).len() && tcol@.len() == seconds(map@).len())
                && e@ == inconsistent(),
        },
{
    let (fids, tids, mtom) = associate(&map);
    if fcol.len() != fids.len() || tcol.len() != tids.len() {
        return Err(wrong_columns());
    }
    Ok((Columns::from_cols(fcol, tcol, map), mtom))
}

/// The ids of the files and of the tags that the rows of a result are to
/// name: those of its associations, each once.
pub fn query_columns(map: &Vec<Ids>) -> (r: (Vec<Fid>, Vec<Tid>))
    ensures
        r.0@ == firsts(map@),
        r.1@ == seconds(map@),
{
    let (fids, tids, _) = associate(map);
    (fids, tids)
}

} // verus!
