//! Files as the index holds them.
use crate::model::{FCol, Fid, Kind};
use crate::util::table::Key;
use vstd::prelude::*;

verus! {

/// A file of the index, as plain values.
pub struct FileRow {
    pub id: int,
    pub kind: int,
    pub path: Seq<char>,
}

/// A row of the table of files.
#[derive(Debug, PartialEq, Eq, Hash)]
pub struct File {
    pub id: Fid,
    pub kind: Kind,
    pub path: String,
}

impl View for File {
    type V = FileRow;

    open spec fn view(&self) -> FileRow {
        FileRow { id: self.id as int, kind: self.kind as int, path: self.path@ }
    }
}

/// A file that is to be inserted: it has no id yet.
#[derive(Debug, PartialEq, Eq)]
pub struct Insert {
    pub kind: i64,
    pub path: String,
}

impl View for Insert {
    type V = (Seq<char>, int);

    open spec fn view(&self) -> (Seq<char>, int) {
        (self.path@, self.kind as int)
    }
}

/// A file with its id: what a result hands out.
#[derive(Debug, PartialEq, Eq, Hash)]
pub struct Borrow {
    pub id: Fid,
    pub kind: Kind,
    pub path: String,
}

impl View for Borrow {
    type V = FileRow;

    open spec fn view(&self) -> FileRow {
        FileRow { id: self.id as int, kind: self.kind as int, path: self.path@ }
    }
}

/// The natural key of a file: its path and its kind.
#[derive(Debug, PartialEq, Eq, Hash)]
pub struct Ident {
    pub path: String,
    pub kind: Kind,
}

impl View for Ident {
    type V = (Seq<char>, int);

    open spec fn view(&self) -> (Seq<char>, int) {
        (self.path@, self.kind as int)
    }
}

impl Key for Ident {
    fn same(&self, other: &Self) -> (r: bool) {
        self.kind == other.kind && self.path == other.path
    }

    fn replica(&self) -> (r: Self) {
        Ident { path: self.path.clone(), kind: self.kind }
    }
}

impl Borrow {
    /// The natural key of the file.
    pub fn ident(&self) -> (i: Ident)
        ensures
            i@ == (self@.path, self@.kind),
    {
        Ident { path: self.path.clone(), kind: self.kind }
    }

    /// A copy of the file.
    pub fn replica(&self) -> (r: Self)
        ensures
            r@ == self@,
    {
        Borrow { id: self.id, kind: self.kind, path: self.path.clone() }
    }
}

/// What has the three values of a file.
pub trait FileExt {
    /// The file, as plain values.
    spec fn row(&self) -> FileRow;

    /// The id of the file.
    fn id(&self) -> (id: Fid)
        ensures
            id == self.row().id,
    ;

    /// The kind of the file.
    fn kind(&self) -> (kind: Kind)
        ensures
            kind == self.row().kind,
    ;

    /// The path of the file.
    fn path(&self) -> (path: &str)
        ensures
            path@ == self.row().path,
    ;

    /// The file with its id, as a value of its own.
    fn borrow(&self) -> (b: Borrow)
        ensures
            b@ == self.row(),
    ;
}

impl FileExt for File {
    open spec fn row(&self) -> FileRow {
        self@
    }

    fn id(&self) -> (id: Fid) {
        self.id
    }

    fn kind(&self) -> (kind: Kind) {
        self.kind
    }

    fn path(&self) -> (path: &str) {
        self.path.as_str()
    }

    fn borrow(&self) -> (b: Borrow) {
        Borrow { id: self.id, kind: self.kind, path: self.path.clone() }
    }
}

impl FileExt for FCol {
    open spec fn row(&self) -> FileRow {
        FileRow { id: self.0 as int, kind: self.2 as int, path: self.1@ }
    }

    fn id(&self) -> (id: Fid) {
        self.0
    }

    fn kind(&self) -> (kind: Kind) {
        self.2
    }

    fn path(&self) -> (path: &str) {
        self.1.as_str()
    }

    fn borrow(&self) -> (b: Borrow) {
        Borrow { id: self.0, kind: self.2, path: self.1.clone() }
    }
}

} // verus!
