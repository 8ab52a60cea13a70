//! Tags as the index holds them.
use crate::model::{TCol, Tid};
use crate::util::table::Key;
use vstd::prelude::*;

verus! {

/// A tag of the index, as plain values.
pub struct TagRow {
    pub id: int,
    pub name: Seq<char>,
}

/// A row of the table of tags.
#[derive(Debug, PartialEq, Eq, Hash)]
pub struct Tag {
    pub id: i64,
    pub name: String,
}

impl View for Tag {
    type V = TagRow;

    open spec fn view(&self) -> TagRow {
        TagRow { id: self.id as int, name: self.name@ }
    }
}

/// A tag that is to be inserted: it has no id yet.
#[derive(Debug, PartialEq, Eq)]
pub struct Insert {
    pub name: String,
}

impl View for Insert {
    type V = Seq<char>;

    open spec fn view(&self) -> Seq<char> {
        self.name@
    }
}

/// A tag with its id: what a result hands out.
#[derive(Debug, PartialEq, Eq, Hash)]
pub struct Borrow {
    pub id: Tid,
    pub name: String,
}

impl View for Borrow {
    type V = TagRow;

    open spec fn view(&self) -> TagRow {
        TagRow { id: self.id as int, name: self.name@ }
    }
}

/// The natural key of a tag: its name.
#[derive(Debug, PartialEq, Eq, Hash)]
pub struct Ident {
    pub name: String,
}

impl View for Ident {
    type V = Seq<char>;

    open spec fn view(&self) -> Seq<char> {
        self.name@
    }
}

impl Key for Ident {
    fn same(&self, other: &Self) -> (r: bool) {
        self.name == other.name
    }

    fn replica(&self) -> (r: Self) {
        Ident { name: self.name.clone() }
    }
}

impl Borrow {
    /// The natural key of the tag.
    pub fn ident(&self) -> (i: Ident)
        ensures
            i@ == self@.name,
    {
        Ident { name: self.name.clone() }
    }

    /// A copy of the tag.
    pub fn replica(&self) -> (r: Self)
        ensures
            r@ == self@,
    {
        Borrow { id: self.id, name: self.name.clone() }
    }
}

/// What has the two values of a tag.
pub trait TagExt {
    /// The tag, as plain values.
    spec fn row(&self) -> TagRow;

    /// The id of the tag.
    fn id(&self) -> (id: Tid)
        ensures
            id == self.row().id,
    ;

    /// The name of the tag.
    fn name(&self) -> (name: &str)
        ensures
            name@ == self.row().name,
    ;

    /// The tag with its id, as a value of its own.
    fn borrow(&self) -> (b: Borrow)
        ensures
            b@ == self.row(),
    ;
}

impl TagExt for Tag {
    open spec fn row(&self) -> TagRow {
        self@
    }

    fn id(&self) -> (id: Tid) {
        self.id
    }

    fn name(&self) -> (name: &str) {
        self.name.as_str()
    }

    fn borrow(&self) -> (b: Borrow) {
        Borrow { id: self.id, name: self.name.clone() }
    }
}

impl TagExt for TCol {
    open spec fn row(&self) -> TagRow {
        TagRow { id: self.0 as int, name: self.1@ }
    }

    fn id(&self) -> (id: Tid) {
        self.0
    }

    fn name(&self) -> (name: &str) {
        self.1.as_str()
    }

    fn borrow(&self) -> (b: Borrow) {
        Borrow { id: self.0, name: self.1.clone() }
    }
}

} // verus!
