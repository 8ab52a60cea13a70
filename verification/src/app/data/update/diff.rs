//! What the index holds and what the files hold, side by side.
use crate::app::attr::file::{File, State};
use crate::app::data::query::maps::{Columnar, Columns, Maps};
use crate::app::meta::action::all_wf;
use crate::model::{file, tag, Ids};
use crate::util::collections;
use crate::util::collections::{lemma_diff_reaches, Error};
use crate::util::table::{Key, VecSet};
use vstd::prelude::*;

verus! {

/// The key of a file: its path and its kind.
pub type FileKey = (Seq<char>, int);

/// The key of an association: the key of a file and the name of a tag.
pub type PairKey = (FileKey, Seq<char>);

/// The three sets of one side: files, tags and associations, by their keys.
pub struct Side {
    pub files: Set<FileKey>,
    pub tags: Set<Seq<char>>,
    pub pairs: Set<PairKey>,
}

/// A side without anything.
pub open spec fn nothing() -> Side {
    Side {
        files: Set::<FileKey>::empty(),
        tags: Set::<Seq<char>>::empty(),
        pairs: Set::<PairKey>::empty(),
    }
}

/// The associations of one file with each tag of a list.
pub open spec fn pairs_of(key: FileKey, tags: Seq<Seq<char>>) -> Set<PairKey>
    decreases tags.len(),
{
    if tags.len() == 0 {
        Set::<PairKey>::empty()
    } else {
        pairs_of(key, tags.drop_last()).insert((key, tags.last()))
    }
}

/// A side with one more file of the file system: the file, its tags, and its
/// associations with them. `order` lists the tags of the file.
pub open spec fn with_file(side: Side, state: State, order: Seq<Seq<char>>) -> Side {
    Side {
        files: side.files.insert((state.path, state.kind)),
        tags: side.tags.union(state.tags),
        pairs: side.pairs.union(pairs_of((state.path, state.kind), order)),
    }
}

/// A side with one more association of the index: the file, the tag and the
/// association itself.
pub open spec fn with_pair(side: Side, file: FileKey, tag: Seq<char>) -> Side {
    Side {
        files: side.files.insert(file),
        tags: side.tags.insert(tag),
        pairs: side.pairs.insert((file, tag)),
    }
}

/// The side of the index for a list of associations by id: each id stands
/// for the key that the maps have for it. The first id that the maps do not
/// have is an error.
pub open spec fn indexed(maps: &Maps, rows: Seq<Ids>, acc: Side) -> Option<Side>
    decreases rows.len(),
{
    if rows.len() == 0 {
        Some(acc)
    } else if !maps.file_map().contains_key(rows[0].0 as int) || !maps.tag_map().contains_key(
        rows[0].1 as int,
    ) {
        None
    } else {
        let f = maps.file_map()[rows[0].0 as int];
        let t = maps.tag_map()[rows[0].1 as int];
        indexed(maps, rows.drop_first(), with_pair(acc, (f.path, f.kind), t.name))
    }
}

/// The sets of files, tags and associations that were found in the index
/// and in the file system.
pub struct Diff {
    files: collections::Diff<file::Ident>,
    tags: collections::Diff<tag::Ident>,
    filetags: collections::Diff<(file::Ident, tag::Ident)>,
}

impl Diff {
    /// The six sets are well formed.
    pub closed spec fn wf(&self) -> bool {
        self.files.wf() && self.tags.wf() && self.filetags.wf()
    }

    /// What was found in the index.
    pub closed spec fn db(&self) -> Side {
        Side { files: self.files.lefts(), tags: self.tags.lefts(), pairs: self.filetags.lefts() }
    }

    /// What was found in the file system.
    pub closed spec fn fs(&self) -> Side {
        Side {
            files: self.files.rights(),
            tags: self.tags.rights(),
            pairs: self.filetags.rights(),
        }
    }

    /// Nothing on either side.
    pub fn new() -> (d: Self)
        ensures
            d.wf(),
            d.db() == nothing(),
            d.fs() == nothing(),
    {
        Diff {
            files: collections::Diff::new(),
            tags: collections::Diff::new(),
            filetags: collections::Diff::new(),
        }
    }

    /// Gives back the room that the sets do not use.
    pub fn shrink_to_fit(&mut self)
        ensures
            final(self).wf() == old(self).wf(),
            final(self).db() == old(self).db(),
            final(self).fs() == old(self).fs(),
    {
        self.files.shrink_to_fit();
        self.tags.shrink_to_fit();
        self.filetags.shrink_to_fit();
    }

    /// The two sides for the rows of the index and the files of the file
    /// system: the index holds the associations of the rows, by the keys that
    /// the maps have for their ids; the file system holds the files with
    /// their tags.
    pub fn from_cols_and_attr(cols: &Columns, attr: &Vec<File>, maps: &Maps) -> (r: Result<
        Self,
        Error,
    >)
        requires
            maps.wf(),
            all_wf(attr@),
        ensures
            match indexed(maps, cols.pair_col(), nothing()) {
                Some(db) => r matches Ok(d) && d.wf() && d.db() == db && scanned(
                    d.fs(),
                    attr@,
                ),
                None => r matches Err(e) && e@ == Seq::<char>::empty(),
            },
    {
        let mut this = Self::new();
        let mut i: usize = 0;
        while i < attr.len()
            invariant
                i <= attr@.len(),
                all_wf(attr@),
                this.wf(),
                this.db() == nothing(),
                scanned(this.fs(), attr@.take(i as int)),
            decreases attr@.len() - i,
        {
            let ghost before = this.fs();
            assert(attr@[i as int].wf());
            this.add_tagfile(&attr[i]);
            proof {
                let next = attr@.take(i as int + 1);
                assert(next.drop_last() =~= attr@.take(i as int));
                assert(next.last() == attr@[i as int]);
            }
            i += 1;
        }
        assert(attr@.take(i as int) =~= attr@);
        let rows = cols.filetags();
        let mut k: usize = 0;
        assert(rows@.skip(0) =~= rows@);
        while k < rows.len()
            invariant
                k <= rows@.len(),
                maps.wf(),
                rows@ == cols.pair_col(),
                this.wf(),
                scanned(this.fs(), attr@),
                indexed(maps, rows@, nothing()) == indexed(maps, rows@.skip(k as int), this.db()),
            decreases rows@.len() - k,
        {
            let (fid, tid) = rows[k];
            proof {
                assert(rows@.skip(k as int)[0] == (fid, tid));
                assert(rows@.skip(k as int).drop_first() =~= rows@.skip(k + 1));
                maps.lemma_wf();
            }
            let f = match maps.fids().by_uid(&fid) {
                Ok(f) => f,
                Err(e) => {
                    return Err(e);
                },
            };
            let t = match maps.tids().by_uid(&tid) {
                Ok(t) => t,
                Err(e) => {
                    return Err(e);
                },
            };
            this.add_filetag(f.ident(), t.ident());
            k += 1;
        }
        this.shrink_to_fit();
        Ok(this)
    }

    /// Adds an association that was found in the index: the file, the tag
    /// and the association itself.
    pub fn add_filetag(&mut self, file: file::Ident, tag: tag::Ident)
        requires
            old(self).wf(),
        ensures
            final(self).wf(),
            final(self).db() == with_pair(old(self).db(), file@, tag@),
            final(self).fs() == old(self).fs(),
    {
        self.files.add_left(file.replica());
        self.tags.add_left(tag.replica());
        self.filetags.add_left((file, tag));
    }

    /// Adds a file that was found in the file system: the file, its tags,
    /// and its associations with them.
    pub fn add_tagfile(&mut self, file: &File)
        requires
            old(self).wf(),
            file.wf(),
        ensures
            final(self).wf(),
            final(self).db() == old(self).db(),
            final(self).fs() == with_file(old(self).fs(), file@, file.tag_order()),
    {
        let ghost before = self.fs();
        let pairs = file.mapping();
        let ghost key = (file@.path, file@.kind);
        let ghost order = file.tag_order();
        proof {
            file.lemma_tags();
            assert(order.take(0) =~= Seq::<Seq<char>>::empty());
            assert(before.pairs.union(Set::<PairKey>::empty()) =~= before.pairs);
            assert(before.tags.union(Set::<Seq<char>>::empty()) =~= before.tags);
            assert(order.take(0).to_set() =~= Set::<Seq<char>>::empty());
        }
        let mut i: usize = 0;
        while i < pairs.len()
            invariant
                i <= pairs@.len(),
                pairs@.len() == order.len(),
                forall|k: int| 0 <= k < pairs@.len() ==> (#[trigger] pairs@[k])@ == (key, order[k]),
                self.wf(),
                self.db() == old(self).db(),
                self.fs() == (Side {
                    files: before.files,
                    tags: before.tags.union(order.take(i as int).to_set()),
                    pairs: before.pairs.union(pairs_of(key, order.take(i as int))),
                }),
            decreases pairs@.len() - i,
        {
            let pair = (pairs[i].0.replica(), pairs[i].1.replica());
            let name = pairs[i].1.replica();
            proof {
                let done = order.take(i as int);
                let next = order.take(i as int + 1);
                assert(pairs@[i as int]@ == (key, order[i as int]));
                assert(next.drop_last() =~= done);
                assert(next.last() == order[i as int]);
                assert(next =~= done.push(order[i as int]));
                assert(next.to_set() =~= done.to_set().insert(order[i as int])) by {
                    assert forall|v: Seq<char>| next.contains(v) <==> (done.contains(v) || v
                        == order[i as int]) by {
                        if next.contains(v) {
                            let q = choose|q: int| 0 <= q < next.len() && next[q] == v;
                            if q < done.len() {
                                assert(done[q] == v);
                            }
                        }
                        if done.contains(v) {
                            let q = choose|q: int| 0 <= q < done.len() && done[q] == v;
                            assert(next[q] == v);
                        }
                        if v == order[i as int] {
                            assert(next[done.len() as int] == v);
                        }
                    }
                }
                assert(before.tags.union(done.to_set()).insert(order[i as int])
                    =~= before.tags.union(next.to_set()));
                assert(before.pairs.union(pairs_of(key, done)).insert((key, order[i as int]))
                    =~= before.pairs.union(pairs_of(key, next)));
            }
            self.filetags.add_right(pair);
            self.tags.add_right(name);
            i += 1;
        }
        self.files.add_right(file.ident());
        proof {
            assert(order.take(i as int) =~= order);
        }
    }

    /// The files to delete and the files to insert: those that only the
    /// index has, and those that only the file system has.
    pub fn file_diff(&self) -> (d: (VecSet<file::Ident>, VecSet<file::Ident>))
        requires
            self.wf(),
        ensures
            d.0.wf(),
            d.1.wf(),
            d.0@ == self.db().files.difference(self.fs().files),
            d.1@ == self.fs().files.difference(self.db().files),
    {
        self.files.diff()
    }

    /// The tags to delete and the tags to insert: those that only the index
    /// has, and those that only the file system has.
    pub fn tag_diff(&self) -> (d: (VecSet<tag::Ident>, VecSet<tag::Ident>))
        requires
            self.wf(),
        ensures
            d.0.wf(),
            d.1.wf(),
            d.0@ == self.db().tags.difference(self.fs().tags),
            d.1@ == self.fs().tags.difference(self.db().tags),
    {
        self.tags.diff()
    }

    /// The associations to delete and the associations to insert: those that
    /// only the index has, and those that only the file system has.
    pub fn filetag_diff(&self) -> (d: (
        VecSet<(file::Ident, tag::Ident)>,
        VecSet<(file::Ident, tag::Ident)>,
    ))
        requires
            self.wf(),
        ensures
            d.0.wf(),
            d.1.wf(),
            d.0@ == self.db().pairs.difference(self.fs().pairs),
            d.1@ == self.fs().pairs.difference(self.db().pairs),
    {
        self.filetags.diff()
    }
}

/// Whether a side holds the files of a list with their tags, and nothing
/// else.
pub open spec fn scanned(side: Side, files: Seq<File>) -> bool
    decreases files.len(),
{
    if files.len() == 0 {
        side == nothing()
    } else {
        exists|before: Side|
            scanned(before, files.drop_last()) && side == #[trigger] with_file(
                before,
                files.last()@,
                files.last().tag_order(),
            )
    }
}

/// Inserting what only the file system has and deleting what only the index
/// has turns what the index holds into what the file system holds: for
/// files, for tags and for associations.
pub proof fn lemma_update_reaches(db: Side, fs: Side)
    ensures
        db.files.union(fs.files.difference(db.files)).difference(db.files.difference(fs.files))
            == fs.files,
        db.tags.union(fs.tags.difference(db.tags)).difference(db.tags.difference(fs.tags))
            == fs.tags,
        db.pairs.union(fs.pairs.difference(db.pairs)).difference(db.pairs.difference(fs.pairs))
            == fs.pairs,
{
    lemma_diff_reaches(db.files, fs.files);
    lemma_diff_reaches(db.tags, fs.tags);
    lemma_diff_reaches(db.pairs, fs.pairs);
}

/// Where the index holds what the file system holds, nothing is inserted or
/// deleted.
pub proof fn lemma_update_settles(both: Side)
    ensures
        both.files.difference(both.files) == Set::<FileKey>::empty(),
        both.tags.difference(both.tags) == Set::<Seq<char>>::empty(),
        both.pairs.difference(both.pairs) == Set::<PairKey>::empty(),
{
    assert(both.files.difference(both.files) =~= Set::<FileKey>::empty());
    assert(both.tags.difference(both.tags) =~= Set::<Seq<char>>::empty());
    assert(both.pairs.difference(both.pairs) =~= Set::<PairKey>::empty());
}

} // verus!
