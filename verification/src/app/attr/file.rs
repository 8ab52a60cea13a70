//! A file and its tags, as they are kept in memory between a read and a
//! write of the attribute.
use crate::app::attr::api;
use crate::app::attr::api::{api_tag, comma, decoded, lists, sanitized, visible};
use crate::app::attr::error::{Error, Fault};
use crate::app::attr::tag::Tag;
use crate::model::{file, tag};
use crate::util::string::{append, append_str, collect, join, same_text, to_chars};
use crate::util::table::{Key, VecSet};
use std::path::Path;
use vstd::prelude::*;
use vstd::utf8::encode_utf8;

verus! {

/// The MD5 digest of a text, as 32 hexadecimal digits.
pub uninterp spec fn md5_hex(text: Seq<char>) -> Seq<char>;

/// The final component of a path, if it has one.
pub uninterp spec fn path_file_name(path: Seq<char>) -> Option<Seq<char>>;

/// A path without its final component, if it has one.
pub uninterp spec fn path_parent(path: Seq<char>) -> Option<Seq<char>>;

/// The view of a text that may be missing.
pub open spec fn text_of(s: Option<String>) -> Option<Seq<char>> {
    match s {
        Some(s) => Some(s@),
        None => None,
    }
}

/// `md5::compute` digests the bytes of the text; the digest is written in
/// lower-case hexadecimal digits.
#[verifier::external_body]
fn digest(text: &str) -> (hex: String)
    ensures
        hex@ == md5_hex(text@),
{
    format!("{:?}", md5::compute(text))
}

/// `Path::file_name` gives the final component of a path.
#[verifier::external_body]
fn final_component(path: &str) -> (name: Option<String>)
    ensures
        text_of(name) == path_file_name(path@),
{
    Path::new(path).file_name().and_then(|s| s.to_str()).map(|s| s.to_owned())
}

/// `Path::parent` gives a path without its final component.
#[verifier::external_body]
fn parent_of(path: &str) -> (parent: Option<String>)
    ensures
        text_of(parent) == path_parent(path@),
{
    Path::new(path).parent().and_then(|s| s.to_str()).map(|s| s.to_owned())
}

/// What is to be done with the attribute of a file.
#[derive(Debug, PartialEq, Eq)]
pub enum Store {
    /// Nothing: what is on disk is what is in memory.
    Keep,
    /// The attribute is to be set to this value.
    Write(Vec<u8>),
    /// The attribute is to be removed.
    Remove,
}

/// A file with its tags, as plain values.
pub struct State {
    pub path: Seq<char>,
    pub kind: int,
    pub tags: Set<Seq<char>>,
    pub dirty: bool,
}

impl State {
    /// The state after a tag is added.
    pub open spec fn added(self, tag: Seq<char>) -> Result<State, Fault> {
        match sanitized(tag) {
            Ok(t) => Ok(
                State {
                    tags: self.tags.insert(t),
                    dirty: self.dirty || !self.tags.contains(t),
                    ..self
                },
            ),
            Err(f) => Err(f),
        }
    }

    /// The state after a tag is taken away.
    pub open spec fn deleted(self, tag: Seq<char>) -> State {
        State { tags: self.tags.remove(tag), dirty: self.dirty || self.tags.contains(tag), ..self }
    }

    /// The state after a tag is renamed; where the new name is no tag, the
    /// old one is gone all the same.
    pub open spec fn merged(self, src: Seq<char>, dst: Seq<char>) -> State {
        if self.tags.contains(src) {
            match self.deleted(src).added(dst) {
                Ok(state) => state,
                Err(_) => self.deleted(src),
            }
        } else {
            self
        }
    }

    /// The state after the tags in memory were written.
    pub open spec fn saved(self) -> State {
        State { dirty: false, ..self }
    }
}

/// A file and its tags.
#[derive(Debug)]
pub struct File {
    path: String,
    kind: i64,
    tags: VecSet<Tag>,
    dirty: bool,
}

impl View for File {
    type V = State;

    closed spec fn view(&self) -> State {
        State { path: self.path@, kind: self.kind as int, tags: self.tags@, dirty: self.dirty }
    }
}

/// The name of the link to a file: the digest of the directory that it is
/// in, a dash and its own name. A path without a directory is digested as
/// `root::`, one without a name is named `node::`.
pub open spec fn link_name_of(path: Seq<char>) -> Seq<char> {
    md5_hex(
        match path_parent(path) {
            Some(p) => p,
            None => seq!['r', 'o', 'o', 't', ':', ':'],
        },
    ) + seq!['-'] + (match path_file_name(path) {
        Some(n) => n,
        None => seq!['n', 'o', 'd', 'e', ':', ':'],
    })
}

/// The path of `name` inside the directory `dir`.
pub open spec fn inside(dir: Seq<char>, name: Seq<char>) -> Seq<char> {
    if dir.len() == 0 {
        name
    } else if dir.last() == '/' {
        dir + name
    } else {
        dir + seq!['/'] + name
    }
}

/// What saving gives for a set of tags: the value that encodes them, or the
/// removal of the attribute where there is none.
pub open spec fn stores(store: Store, tags: Set<Seq<char>>) -> bool {
    match store {
        Store::Keep => false,
        Store::Remove => tags == Set::<Seq<char>>::empty(),
        Store::Write(bytes) => tags != Set::<Seq<char>>::empty() && exists|list: Seq<Seq<char>>|
            lists(list, tags) && bytes@ == encode_utf8(join(list, comma())),
    }
}

impl File {
    /// The set of tags is well formed.
    pub closed spec fn wf(&self) -> bool {
        self.tags.wf()
    }

    /// The tags, in the order in which they came.
    pub closed spec fn tag_order(&self) -> Seq<Seq<char>> {
        self.tags.order()
    }

    /// The order lists the tags, each once.
    pub proof fn lemma_tags(&self)
        requires
            self.wf(),
        ensures
            self.tag_order().no_duplicates(),
            self.tag_order().to_set() == self@.tags,
            self@.tags.finite(),
            self@.tags.len() == self.tag_order().len(),
    {
        self.tags.lemma_order();
    }

    /// Opens a file from what was read of it: its path, its kind and the
    /// value of its attribute, if it has one. A file without the attribute
    /// has the one tag that every file has.
    pub fn open(path: String, kind: i64, attribute: Option<Vec<u8>>) -> (r: Result<Self, Error>)
        ensures
            match attribute {
                Some(bytes) => match decoded(bytes@, comma()) {
                    Ok(set) => r matches Ok(f) && f.wf() && f@ == (State {
                        path: path@,
                        kind: kind as int,
                        tags: set,
                        dirty: false,
                    }),
                    Err(x) => r matches Err(e) && e@ == x,
                },
                None => r matches Ok(f) && f.wf() && f@ == (State {
                    path: path@,
                    kind: kind as int,
                    tags: set![api_tag()],
                    dirty: false,
                }),
            },
    {
        match api::read(attribute) {
            Ok(tags) => Ok(File { path, kind, tags, dirty: false }),
            Err(e) => Err(e),
        }
    }

    /// A copy of the file and its tags.
    pub fn replica(&self) -> (f: Self)
        requires
            self.wf(),
        ensures
            f.wf(),
            f@ == self@,
    {
        File {
            path: self.path.clone(),
            kind: self.kind,
            tags: self.tags.replica(),
            dirty: self.dirty,
        }
    }

    /// The path of the file.
    pub fn path(&self) -> (p: &str)
        ensures
            p@ == self@.path,
    {
        self.path.as_str()
    }

    /// The path of the file, as a text.
    pub fn path_str(&self) -> (p: &str)
        ensures
            p@ == self@.path,
    {
        self.path.as_str()
    }

    /// The kind of the file.
    pub fn kind(&self) -> (k: i64)
        ensures
            k == self@.kind,
    {
        self.kind
    }

    /// The tags of the file.
    pub fn tags(&self) -> (t: &VecSet<Tag>)
        ensures
            t@ == self@.tags,
            t.wf() == self.wf(),
            t.order() == self.tag_order(),
    {
        &self.tags
    }

    /// The tags of the file, in the order in which they came.
    pub fn iter(&self) -> (tags: Vec<&Tag>)
        requires
            self.wf(),
        ensures
            tags@.len() == self.tag_order().len(),
            forall|i: int| 0 <= i < tags@.len() ==> (#[trigger] tags@[i])@ == self.tag_order()[i],
    {
        let mut tags: Vec<&Tag> = Vec::new();
        let n = self.tags.len();
        let mut i: usize = 0;
        while i < n
            invariant
                i <= n,
                n == self.tags.order().len(),
                tags@.len() == i,
                forall|k: int| 0 <= k < i ==> (#[trigger] tags@[k])@ == self.tags.order()[k],
            decreases n - i,
        {
            tags.push(self.tags.get(i));
            i += 1;
        }
        tags
    }

    /// Whether the tags in memory differ from those on disk.
    pub fn is_dirty(&self) -> (d: bool)
        ensures
            d == self@.dirty,
    {
        self.dirty
    }

    /// The natural key of the file in the index: its path and its kind.
    pub fn ident(&self) -> (i: file::Ident)
        ensures
            i@ == (self@.path, self@.kind),
    {
        file::Ident { path: self.path.clone(), kind: self.kind }
    }

    /// The associations of the file: its key with the key of each tag.
    pub fn mapping(&self) -> (pairs: Vec<(file::Ident, tag::Ident)>)
        requires
            self.wf(),
        ensures
            pairs@.len() == self.tag_order().len(),
            forall|i: int|
                0 <= i < pairs@.len() ==> (#[trigger] pairs@[i])@ == (
                    (self@.path, self@.kind),
                    self.tag_order()[i],
                ),
    {
        let mut pairs: Vec<(file::Ident, tag::Ident)> = Vec::new();
        let n = self.tags.len();
        let mut i: usize = 0;
        while i < n
            invariant
                i <= n,
                n == self.tags.order().len(),
                pairs@.len() == i,
                forall|k: int|
                    0 <= k < i ==> (#[trigger] pairs@[k])@ == (
                        (self@.path, self@.kind),
                        self.tags.order()[k],
                    ),
            decreases n - i,
        {
            pairs.push((self.ident(), self.tags.get(i).ident()));
            i += 1;
        }
        pairs
    }

    /// The position of a tag among the tags of the file.
    fn find(&self, tag: &str) -> (r: Option<usize>)
        requires
            self.wf(),
        ensures
            r is Some <==> self@.tags.contains(tag@),
            r matches Some(i) ==> i < self.tags.order().len() && self.tags.order()[i as int]
                == tag@,
    {
        let n = self.tags.len();
        let mut i: usize = 0;
        proof {
            self.tags.lemma_order();
        }
        while i < n
            invariant
                i <= n,
                n == self.tags.order().len(),
                self.tags.wf(),
                forall|k: int| 0 <= k < i ==> self.tags.order()[k] != tag@,
            decreases n - i,
        {
            if same_text(self.tags.get(i).as_str(), tag) {
                proof {
                    self.tags.lemma_order();
                    assert(self.tags.order()[i as int] == tag@);
                    assert(self.tags.order().contains(tag@));
                }
                return Some(i);
            }
            i += 1;
        }
        proof {
            self.tags.lemma_order();
            assert(!self.tags.order().contains(tag@));
        }
        None
    }

    /// Renames a tag: where the file has `src`, it loses it and gains `dst`.
    /// Returns whether the tags in memory differ from those on disk.
    pub fn merge(&mut self, src: &str, dst: &str) -> (r: Result<bool, Error>)
        requires
            old(self).wf(),
        ensures
            final(self).wf(),
            ({
                let had = old(self)@.tags.contains(src@);
                if !had {
                    r == Ok::<bool, Error>(old(self)@.dirty) && final(self)@ == old(self)@
                } else {
                    match sanitized(dst@) {
                        Ok(t) => r == Ok::<bool, Error>(true) && final(self)@ == (State {
                            tags: old(self)@.tags.remove(src@).insert(t),
                            dirty: true,
                            ..old(self)@
                        }),
                        Err(f) => r matches Err(e) && e@ == f && final(self)@ == (State {
                            tags: old(self)@.tags.remove(src@),
                            dirty: true,
                            ..old(self)@
                        }),
                    }
                }
            }),
    {
        let had = self.has(src);
        proof {
            if !had {
                assert(self@.tags.remove(src@) =~= self@.tags);
            }
        }
        if self.del(src) && had {
            match self.add(dst) {
                Ok(_) => {},
                Err(e) => {
                    return Err(e);
                },
            }
        }
        Ok(self.dirty)
    }

    /// Takes every tag from the file.
    pub fn purge(&mut self)
        ensures
            final(self).wf(),
            final(self)@ == (State { tags: Set::<Seq<char>>::empty(), ..old(self)@ }),
    {
        self.tags.clear();
    }

    /// Makes the tags of the file those of `tags`. The file counts as
    /// changed if it had a tag before.
    pub fn set_tags(&mut self, tags: &VecSet<Tag>) -> (d: bool)
        requires
            old(self).wf(),
            tags.wf(),
        ensures
            final(self).wf(),
            d == (old(self)@.tags != Set::<Seq<char>>::empty()),
            final(self)@ == (State { tags: tags@, dirty: d, ..old(self)@ }),
    {
        self.dirty = !self.tags.is_empty();
        self.tags.clear();
        self.tags.extend(tags);
        assert(Set::<Seq<char>>::empty().union(tags@) =~= tags@);
        self.dirty
    }

    /// The final component of the path, if it has one.
    pub fn file_name(&self) -> (name: Option<String>)
        ensures
            text_of(name) == path_file_name(self@.path),
    {
        final_component(self.path.as_str())
    }

    /// The path without its final component, if it has one.
    pub fn base_name(&self) -> (name: Option<String>)
        ensures
            text_of(name) == path_parent(self@.path),
    {
        parent_of(self.path.as_str())
    }

    /// The name of the link to this file.
    pub fn link_name(&self) -> (name: String)
        ensures
            name@ == link_name_of(self@.path),
    {
        proof {
            reveal_strlit("root::");
            reveal_strlit("node::");
            assert("root::"@ =~= seq!['r', 'o', 'o', 't', ':', ':']);
            assert("node::"@ =~= seq!['n', 'o', 'd', 'e', ':', ':']);
        }
        let hex = match self.base_name() {
            Some(base) => digest(base.as_str()),
            None => digest("root::"),
        };
        let mut name = to_chars(hex.as_str());
        name.push('-');
        match self.file_name() {
            Some(file) => {
                append_str(&mut name, file.as_str());
            },
            None => {
                append_str(&mut name, "node::");
            },
        }
        collect(&name)
    }

    /// The path of the link to this file inside the directory `dst`.
    pub fn link_path(&self, dst: &str) -> (path: String)
        ensures
            path@ == inside(dst@, link_name_of(self@.path)),
    {
        let mut path = to_chars(dst);
        let name = to_chars(self.link_name().as_str());
        let n = path.len();
        if n > 0 && path[n - 1] != '/' {
            path.push('/');
        }
        append(&mut path, &name);
        assert(path@ =~= inside(dst@, link_name_of(self@.path)));
        collect(&path)
    }

    /// Whether the file has a tag.
    pub fn has(&self, tag: &str) -> (b: bool)
        requires
            self.wf(),
        ensures
            b == self@.tags.contains(tag@),
    {
        self.find(tag).is_some()
    }

    /// Adds a tag to the file. Returns whether the tags in memory differ
    /// from those on disk.
    pub fn add(&mut self, tag: &str) -> (r: Result<bool, Error>)
        requires
            old(self).wf(),
        ensures
            final(self).wf(),
            match sanitized(tag@) {
                Ok(t) => r == Ok::<bool, Error>(final(self)@.dirty) && final(self)@ == (State {
                    tags: old(self)@.tags.insert(t),
                    dirty: old(self)@.dirty || !old(self)@.tags.contains(t),
                    ..old(self)@
                }),
                Err(f) => r matches Err(e) && e@ == f && final(self)@ == old(self)@,
            },
    {
        let new = match Tag::new(tag) {
            Ok(new) => new,
            Err(e) => {
                return Err(e);
            },
        };
        if self.tags.insert(new) {
            self.dirty = true;
        }
        Ok(self.dirty)
    }

    /// Takes a tag from the file. Returns whether the tags in memory differ
    /// from those on disk.
    pub fn del(&mut self, tag: &str) -> (d: bool)
        requires
            old(self).wf(),
        ensures
            final(self).wf(),
            d == final(self)@.dirty,
            final(self)@ == (State {
                tags: old(self)@.tags.remove(tag@),
                dirty: old(self)@.dirty || old(self)@.tags.contains(tag@),
                ..old(self)@
            }),
    {
        match self.find(tag) {
            Some(i) => {
                let probe = self.tags.get(i).replica();
                self.tags.remove(&probe);
                self.dirty = true;
            },
            None => {
                assert(self.tags@.remove(tag@) =~= self.tags@);
            },
        }
        self.dirty
    }

    /// What is to be written where the tags in memory differ from those on
    /// disk; after it the two count as the same.
    pub fn save(&mut self) -> (store: Store)
        requires
            old(self).wf(),
        ensures
            final(self).wf(),
            final(self)@ == (State { dirty: false, ..old(self)@ }),
            if old(self)@.dirty {
                stores(store, old(self)@.tags)
            } else {
                store == Store::Keep
            },
    {
        if self.dirty {
            self.force_save()
        } else {
            Store::Keep
        }
    }

    /// What is to be written, whether or not the tags in memory differ from
    /// those on disk; after it the two count as the same.
    pub fn force_save(&mut self) -> (store: Store)
        requires
            old(self).wf(),
        ensures
            final(self).wf(),
            final(self)@ == (State { dirty: false, ..old(self)@ }),
            stores(store, old(self)@.tags),
    {
        self.dirty = false;
        match api::write(&self.tags) {
            Some(bytes) => Store::Write(bytes),
            None => Store::Remove,
        }
    }

    /// The path and the tags that users are shown, for people to read.
    pub fn format(&self) -> (s: String)
        requires
            self.wf(),
        ensures
            exists|list: Seq<Seq<char>>|
                lists(list, visible(self@.tags)) && s@ == self@.path + seq![' '] + join(
                    list,
                    comma(),
                ),
    {
        proof {
            reveal_strlit(",");
            assert(","@ =~= comma());
        }
        let tags = api::format(&self.tags, api::TAG_SEPERATOR);
        let mut out = to_chars(self.path.as_str());
        out.push(' ');
        append_str(&mut out, tags.as_str());
        proof {
            let list = choose|list: Seq<Seq<char>>|
                lists(list, visible(self@.tags)) && tags@ == join(list, comma());
            assert(out@ =~= self@.path + seq![' '] + join(list, comma()));
        }
        collect(&out)
    }
}

} // verus!
