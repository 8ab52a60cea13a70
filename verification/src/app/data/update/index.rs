//! The index as an update sees it: what it holds for the paths that were
//! scanned, and what it holds once the plan of the update was carried out.
use crate::app::data::update::diff::{FileKey, PairKey, Side};
use vstd::prelude::*;

verus! {

/// The associations of a set whose files have their paths in a scope.
pub open spec fn pairs_in(pairs: Set<PairKey>, scope: Set<Seq<char>>) -> Set<PairKey> {
    pairs.filter(|k: PairKey| scope.contains(k.0.0))
}

/// The files of a set of associations.
pub open spec fn files_of(pairs: Set<PairKey>) -> Set<FileKey> {
    Set::new(|f: FileKey| exists|t: Seq<char>| pairs.contains((f, t)))
}

/// The tags of a set of associations.
pub open spec fn tags_of(pairs: Set<PairKey>) -> Set<Seq<char>> {
    Set::new(|t: Seq<char>| exists|f: FileKey| pairs.contains((f, t)))
}

/// What an index holds for a scope of paths: the associations of the files
/// with these paths, their files and their tags. This is the side of the
/// index in an update.
pub open spec fn scoped(index: Side, scope: Set<Seq<char>>) -> Side {
    let pairs = pairs_in(index.pairs, scope);
    Side { files: files_of(pairs), tags: tags_of(pairs), pairs }
}

/// Whether a side holds together: it has the file and the tag of each of its
/// associations, each of its files has an association, and no two of its
/// files have the same path.
pub open spec fn coherent(side: Side) -> bool {
    &&& forall|k: PairKey| #[trigger]
        side.pairs.contains(k) ==> side.files.contains(k.0) && side.tags.contains(k.1)
    &&& forall|f: FileKey| #[trigger] side.files.contains(f) ==> files_of(side.pairs).contains(f)
    &&& forall|a: FileKey, b: FileKey|
        side.files.contains(a) && side.files.contains(b) && a.0 == b.0 ==> a == b
}

/// Whether a path is the path of a file that an update deletes: one that
/// only the index has.
pub open spec fn deleted_path(db: Side, fs: Side, path: Seq<char>) -> bool {
    exists|d: FileKey| #[trigger] db.files.contains(d) && !fs.files.contains(d) && d.0 == path
}

/// What an index holds once the plan of an update was carried out. The
/// files with the paths of those that only the index side has are deleted,
/// then those that only the file system has are inserted. The tags of the
/// file system that the index does not hold are inserted; no tag is deleted
/// that the index holds. The associations that only the file system has are
/// inserted, and those that only the index side has are deleted.
pub open spec fn updated(index: Side, db: Side, fs: Side) -> Side {
    Side {
        files: index.files.filter(|f: FileKey| !deleted_path(db, fs, f.0)).union(
            fs.files.difference(db.files),
        ),
        tags: index.tags.union(fs.tags),
        pairs: index.pairs.union(fs.pairs.difference(db.pairs)).difference(
            db.pairs.difference(fs.pairs),
        ),
    }
}

/// After an update, the index holds for the paths that were scanned exactly
/// what the files hold: each file that was found is in the index once, and
/// its associations are those of its tags. What the index holds for other
/// paths stays as it was, the index still holds together, and an update of
/// the same files changes nothing more.
///
/// The index and the file system are to hold together, and the files that
/// were found are to have their paths in the scope.
pub proof fn lemma_update_consistent(index: Side, scope: Set<Seq<char>>, fs: Side)
    requires
        coherent(index),
        coherent(fs),
        forall|f: FileKey| #[trigger] fs.files.contains(f) ==> scope.contains(f.0),
        fs.tags == tags_of(fs.pairs),
    ensures
        scoped(updated(index, scoped(index, scope), fs), scope) == fs,
        forall|k: PairKey|
            !scope.contains(k.0.0) ==> (#[trigger] updated(
                index,
                scoped(index, scope),
                fs,
            ).pairs.contains(k) <==> index.pairs.contains(k)),
        forall|f: FileKey| #[trigger]
            fs.files.contains(f) ==> updated(index, scoped(index, scope), fs).files.contains(f),
        coherent(updated(index, scoped(index, scope), fs)),
        updated(updated(index, scoped(index, scope), fs), fs, fs) == updated(
            index,
            scoped(index, scope),
            fs,
        ),
{
    let db = scoped(index, scope);
    let after = updated(index, db, fs);
    // the associations in the scope are those of the file system
    assert forall|k: PairKey| pairs_in(after.pairs, scope).contains(k) <==> fs.pairs.contains(
        k,
    ) by {
        if fs.pairs.contains(k) {
            assert(fs.files.contains(k.0));
            assert(scope.contains(k.0.0));
        }
        if pairs_in(after.pairs, scope).contains(k) {
            assert(scope.contains(k.0.0));
            if index.pairs.contains(k) {
                assert(db.pairs.contains(k));
            }
        }
    }
    assert(pairs_in(after.pairs, scope) =~= fs.pairs);
    assert(files_of(fs.pairs) =~= fs.files) by {
        assert forall|f: FileKey| files_of(fs.pairs).contains(f) <==> fs.files.contains(f) by {
            if files_of(fs.pairs).contains(f) {
                let t = choose|t: Seq<char>| fs.pairs.contains((f, t));
                assert(fs.pairs.contains((f, t)));
            }
        }
    }
    assert(scoped(after, scope) == fs);
    // the files of the file system are in the index
    assert forall|f: FileKey| #[trigger] fs.files.contains(f) implies after.files.contains(f) by {
        if db.files.contains(f) {
            let t = choose|t: Seq<char>| db.pairs.contains((f, t));
            assert(index.pairs.contains((f, t)));
            assert(index.files.contains(f));
            if deleted_path(db, fs, f.0) {
                let d = choose|d: FileKey|
                    #[trigger] db.files.contains(d) && !fs.files.contains(d) && d.0 == f.0;
                let u = choose|u: Seq<char>| db.pairs.contains((d, u));
                assert(index.pairs.contains((d, u)));
                assert(index.files.contains(d));
                assert(d == f);
            }
        }
    }
    // the index still holds together
    assert forall|k: PairKey| #[trigger] after.pairs.contains(k) implies after.files.contains(
        k.0,
    ) && after.tags.contains(k.1) by {
        if fs.pairs.contains(k) {
            assert(fs.files.contains(k.0));
        } else {
            assert(index.pairs.contains(k));
            assert(index.files.contains(k.0));
            if deleted_path(db, fs, k.0.0) {
                let d = choose|d: FileKey|
                    #[trigger] db.files.contains(d) && !fs.files.contains(d) && d.0 == k.0.0;
                let u = choose|u: Seq<char>| db.pairs.contains((d, u));
                assert(index.pairs.contains((d, u)));
                assert(index.files.contains(d));
                assert(d == k.0);
                assert(scope.contains(k.0.0));
                assert(db.pairs.contains(k));
            }
        }
    }
    assert forall|f: FileKey| #[trigger] after.files.contains(f) implies files_of(
        after.pairs,
    ).contains(f) by {
        if fs.files.contains(f) {
            assert(files_of(fs.pairs).contains(f));
            let t = choose|t: Seq<char>| fs.pairs.contains((f, t));
            assert(after.pairs.contains((f, t)));
        } else {
            assert(index.files.contains(f));
            assert(!deleted_path(db, fs, f.0));
            assert(files_of(index.pairs).contains(f));
            let t = choose|t: Seq<char>| index.pairs.contains((f, t));
            if db.pairs.contains((f, t)) {
                assert(db.files.contains(f));
                assert(deleted_path(db, fs, f.0));
            }
            assert(after.pairs.contains((f, t)));
        }
    }
    assert forall|a: FileKey, b: FileKey|
        after.files.contains(a) && after.files.contains(b) && a.0 == b.0 implies a == b by {
        lemma_same_path(index, scope, fs, a, b);
        lemma_same_path(index, scope, fs, b, a);
    }
    assert(coherent(after));
    // an update of the same files changes nothing more
    let again = updated(after, fs, fs);
    assert(again.pairs =~= after.pairs);
    assert(again.tags =~= after.tags);
    assert(again.files =~= after.files) by {
        assert forall|f: FileKey| !deleted_path(fs, fs, f.0) by {}
    }
}

/// Of two files with one path that the index holds after an update, where
/// the first is one of the file system, the second is the first.
proof fn lemma_same_path(index: Side, scope: Set<Seq<char>>, fs: Side, a: FileKey, b: FileKey)
    requires
        coherent(index),
        coherent(fs),
        forall|f: FileKey| #[trigger] fs.files.contains(f) ==> scope.contains(f.0),
        updated(index, scoped(index, scope), fs).files.contains(a),
        updated(index, scoped(index, scope), fs).files.contains(b),
        a.0 == b.0,
    ensures
        fs.files.contains(a) || !fs.files.contains(b) ==> a == b,
{
    let db = scoped(index, scope);
    if fs.files.contains(a) && !fs.files.contains(b) {
        // b is a file of the index in the scope that the file system lacks
        assert(index.files.contains(b));
        assert(!deleted_path(db, fs, b.0));
        assert(files_of(index.pairs).contains(b));
        let t = choose|t: Seq<char>| index.pairs.contains((b, t));
        assert(scope.contains(a.0));
        assert(pairs_in(index.pairs, scope).contains((b, t)));
        assert(db.files.contains(b));
        assert(deleted_path(db, fs, b.0));
    }
}

} // verus!
