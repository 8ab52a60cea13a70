//! What a scan of the file system found.
use crate::app::attr::file::{File, State};
use crate::app::meta::action::{all_wf, states};
use crate::util::table::{shrink, views};
use vstd::prelude::*;

verus! {

/// The files that were found under a directory.
pub struct Walk {
    pub root: String,
    pub files: Vec<String>,
}

impl Walk {
    /// The walk of a directory that found the given paths.
    pub fn new(root: String, files: Vec<String>) -> (w: Self)
        ensures
            w.root == root,
            w.files == files,
    {
        Walk { root, files }
    }
}

/// What was found at a path that was to be scanned.
pub enum Scanned {
    /// A file whose attribute could be read.
    File(File),
    /// A directory, with the files under it whose attributes could be read.
    Directory { root: String, files: Vec<File> },
    /// Nothing that can be scanned.
    Nothing,
}

impl Scanned {
    /// The files that were found are well formed.
    pub open spec fn wf(&self) -> bool {
        match self {
            Scanned::File(file) => file.wf(),
            Scanned::Directory { root, files } => all_wf(files@),
            Scanned::Nothing => true,
        }
    }
}

/// The accumulated results of a scan: the files with their tags, the paths
/// of the files that were named, and the directories that were walked.
pub struct Scan {
    attributes: Vec<File>,
    directories: Vec<String>,
    files: Vec<String>,
}

/// A [`Scan`] as plain values.
pub struct Found {
    pub attributes: Seq<State>,
    pub directories: Seq<Seq<char>>,
    pub files: Seq<Seq<char>>,
}

impl View for Scan {
    type V = Found;

    closed spec fn view(&self) -> Found {
        Found {
            attributes: states(self.attributes@),
            directories: views(self.directories@),
            files: views(self.files@),
        }
    }
}

/// What a scan holds after one more path: a file adds itself and its path,
/// a directory adds the files under it and its own path.
pub open spec fn found_at(found: Found, scanned: Scanned) -> Found {
    match scanned {
        Scanned::File(file) => Found {
            attributes: found.attributes.push(file@),
            files: found.files.push(file@.path),
            ..found
        },
        Scanned::Directory { root, files } => Found {
            attributes: found.attributes + states(files@),
            directories: found.directories.push(root@),
            ..found
        },
        Scanned::Nothing => found,
    }
}

/// What a scan holds after a list of paths.
pub open spec fn found_all(found: Found, paths: Seq<Scanned>) -> Found
    decreases paths.len(),
{
    if paths.len() == 0 {
        found
    } else {
        found_at(found_all(found, paths.drop_last()), paths.last())
    }
}

impl Scan {
    /// The files of the scan are well formed.
    pub closed spec fn wf(&self) -> bool {
        all_wf(self.attributes@)
    }

    /// An empty scan.
    pub fn new() -> (s: Self)
        ensures
            s.wf(),
            s@ == (Found {
                attributes: Seq::<State>::empty(),
                directories: Seq::<Seq<char>>::empty(),
                files: Seq::<Seq<char>>::empty(),
            }),
    {
        let s = Scan { attributes: Vec::new(), directories: Vec::new(), files: Vec::new() };
        assert(s@.attributes =~= Seq::<State>::empty());
        assert(s@.directories =~= Seq::<Seq<char>>::empty());
        assert(s@.files =~= Seq::<Seq<char>>::empty());
        s
    }

    /// Gives back the room that the scan does not use.
    pub fn shrink_to_fit(&mut self)
        ensures
            final(self)@ == old(self)@,
            final(self).wf() == old(self).wf(),
    {
        shrink(&mut self.attributes);
        shrink(&mut self.directories);
        shrink(&mut self.files);
    }

    /// Takes the paths of the files that were named out of the scan.
    pub fn take_files(&mut self) -> (files: Vec<String>)
        ensures
            views(files@) == old(self)@.files,
            final(self)@ == (Found { files: Seq::<Seq<char>>::empty(), ..old(self)@ }),
            final(self).wf() == old(self).wf(),
    {
        let mut files: Vec<String> = Vec::new();
        std::mem::swap(&mut self.files, &mut files);
        assert(self@.files =~= Seq::<Seq<char>>::empty());
        files
    }

    /// Takes the files with their tags out of the scan.
    pub fn take_attributes(&mut self) -> (attributes: Vec<File>)
        ensures
            states(attributes@) == old(self)@.attributes,
            old(self).wf() ==> all_wf(attributes@),
            final(self).wf(),
            final(self)@ == (Found { attributes: Seq::<State>::empty(), ..old(self)@ }),
    {
        let mut attributes: Vec<File> = Vec::new();
        std::mem::swap(&mut self.attributes, &mut attributes);
        assert(self@.attributes =~= Seq::<State>::empty());
        attributes
    }

    /// Takes the directories that were walked out of the scan.
    pub fn take_directories(&mut self) -> (directories: Vec<String>)
        ensures
            views(directories@) == old(self)@.directories,
            final(self)@ == (Found { directories: Seq::<Seq<char>>::empty(), ..old(self)@ }),
            final(self).wf() == old(self).wf(),
    {
        let mut directories: Vec<String> = Vec::new();
        std::mem::swap(&mut self.directories, &mut directories);
        assert(self@.directories =~= Seq::<Seq<char>>::empty());
        directories
    }

    /// Adds a file that was named, and its path.
    pub fn scan_file(&mut self, file: File)
        requires
            old(self).wf(),
            file.wf(),
        ensures
            final(self).wf(),
            final(self)@ == found_at(old(self)@, Scanned::File(file)),
    {
        let ghost before = *self;
        self.files.push(file.path_str().to_owned());
        self.attributes.push(file);
        proof {
            assert(self@.attributes =~= before@.attributes.push(file@));
            assert(self@.files =~= before@.files.push(file@.path));
            assert forall|i: int| 0 <= i < self.attributes@.len() implies (
            #[trigger] self.attributes@[i]).wf() by {
                if i < before.attributes@.len() {
                    assert(self.attributes@[i] == before.attributes@[i]);
                }
            }
        }
    }

    /// Adds a directory that was walked, and the files under it.
    pub fn scan_directory(&mut self, root: String, files: Vec<File>)
        requires
            old(self).wf(),
            all_wf(files@),
        ensures
            final(self).wf(),
            final(self)@ == found_at(old(self)@, Scanned::Directory { root, files }),
    {
        let ghost before = *self;
        let mut files = files;
        let ghost added = files@;
        self.attributes.append(&mut files);
        self.directories.push(root);
        proof {
            assert(self.attributes@ =~= before.attributes@ + added);
            assert(self@.attributes =~= before@.attributes + states(added));
            assert(self@.directories =~= before@.directories.push(root@));
            assert forall|i: int| 0 <= i < self.attributes@.len() implies (
            #[trigger] self.attributes@[i]).wf() by {
                if i < before.attributes@.len() {
                    assert(self.attributes@[i] == before.attributes@[i]);
                } else {
                    assert(self.attributes@[i] == added[i - before.attributes@.len()]);
                }
            }
        }
    }

    /// Adds what was found at one path.
    pub fn scan_path(this: &mut Scan, scanned: Scanned)
        requires
            old(this).wf(),
            scanned.wf(),
        ensures
            final(this).wf(),
            final(this)@ == found_at(old(this)@, scanned),
    {
        match scanned {
            Scanned::File(file) => this.scan_file(file),
            Scanned::Directory { root, files } => this.scan_directory(root, files),
            Scanned::Nothing => {},
        }
    }

    /// The scan of a list of paths, from what was found at each.
    pub fn scan(paths: Vec<Scanned>) -> (s: Self)
        requires
            forall|i: int| 0 <= i < paths@.len() ==> (#[trigger] paths@[i]).wf(),
        ensures
            s.wf(),
            s@ == found_all(
                Found {
                    attributes: Seq::<State>::empty(),
                    directories: Seq::<Seq<char>>::empty(),
                    files: Seq::<Seq<char>>::empty(),
                },
                paths@,
            ),
    {
        let mut this = Scan::new();
        let ghost all = paths@;
        let ghost start = this@;
        let mut rest = crate::app::meta::api::reversed(paths);
        let ghost n = all.len() as int;
        assert(all.take(0) =~= Seq::<Scanned>::empty());
        while rest.len() > 0
            invariant
                this.wf(),
                n == all.len(),
                rest@.len() <= n,
                rest@ == all.skip(n - rest@.len()).reverse(),
                forall|i: int| 0 <= i < all.len() ==> (#[trigger] all[i]).wf(),
                this@ == found_all(start, all.take(n - rest@.len())),
            decreases rest@.len(),
        {
            let ghost m = rest@.len() as int;
            let ghost tail = all.skip(n - m);
            let scanned = rest.pop().unwrap();
            proof {
                assert(scanned == tail.reverse()[m - 1]);
                assert(tail.reverse()[m - 1] == tail[0]);
                assert(tail[0] == all[n - m]);
                assert(rest@ =~= all.skip(n - m + 1).reverse());
                let next = all.take(n - m + 1);
                assert(next.drop_last() =~= all.take(n - m));
                assert(next.last() == scanned);
                assert(all[n - m].wf());
            }
            Scan::scan_path(&mut this, scanned);
        }
        proof {
            assert(all.take(n) =~= all);
        }
        this.shrink_to_fit();
        this
    }
}

} // verus!
