//! Namespaces: a tag name is a list of segments with `::` between them.
use crate::util::string::{
    append,
    collect,
    join,
    join_chars,
    lemma_split_len,
    pieces,
    slice_of,
    split,
    split_chars,
    to_chars,
};
use vstd::prelude::*;

verus! {

/// The reserved word of tag names.
pub const RESERVED_TAG: &'static str = "tag";

/// The reserved word of the library's own tags.
pub const RESERVED_TDB: &'static str = "tdb";

/// The reserved word of file paths.
pub const RESERVED_PATH: &'static str = "path";

/// The reserved word of file kinds.
pub const RESERVED_KIND: &'static str = "kind";

/// What stands between two segments.
pub const NAMESPACE_SEP: &'static str = "::";

/// The characters of `tag`.
pub open spec fn word_tag() -> Seq<char> {
    seq!['t', 'a', 'g']
}

/// The characters of `tdb`.
pub open spec fn word_tdb() -> Seq<char> {
    seq!['t', 'd', 'b']
}

/// The characters of `path`.
pub open spec fn word_path() -> Seq<char> {
    seq!['p', 'a', 't', 'h']
}

/// The characters of `kind`.
pub open spec fn word_kind() -> Seq<char> {
    seq!['k', 'i', 'n', 'd']
}

/// The characters of `::`.
pub open spec fn separator() -> Seq<char> {
    seq![':', ':']
}

/// Whether a text is one of the four reserved words.
pub open spec fn is_reserved(s: Seq<char>) -> bool {
    s == word_path() || s == word_kind() || s == word_tag() || s == word_tdb()
}

/// A segment of a name.
#[derive(Debug, PartialEq, Eq)]
pub enum Namespace {
    /// The empty segment before a leading `::`.
    Root,
    /// A reserved word.
    Reserved(String),
    /// Any other segment.
    User(String),
}

/// A [`Namespace`] with its text as a sequence of characters.
pub enum Segment {
    Root,
    Reserved(Seq<char>),
    User(Seq<char>),
}

impl Segment {
    /// The text of a segment; the root has none.
    pub open spec fn text(self) -> Seq<char> {
        match self {
            Segment::Root => Seq::<char>::empty(),
            Segment::Reserved(s) => s,
            Segment::User(s) => s,
        }
    }
}

impl View for Namespace {
    type V = Segment;

    open spec fn view(&self) -> Segment {
        match self {
            Namespace::Root => Segment::Root,
            Namespace::Reserved(s) => Segment::Reserved(s@),
            Namespace::User(s) => Segment::User(s@),
        }
    }
}

impl Namespace {
    /// The text of the segment.
    pub fn as_str(&self) -> (s: &str)
        ensures
            s@ == self@.text(),
    {
        match self {
            Namespace::Root => {
                proof {
                    reveal_strlit("");
                }
                assert(""@ =~= Seq::<char>::empty());
                ""
            },
            Namespace::Reserved(s) => s.as_str(),
            Namespace::User(s) => s.as_str(),
        }
    }

    /// A copy of the segment.
    pub fn replica(&self) -> (r: Self)
        ensures
            r@ == self@,
    {
        match self {
            Namespace::Root => Namespace::Root,
            Namespace::Reserved(s) => Namespace::Reserved(s.clone()),
            Namespace::User(s) => Namespace::User(s.clone()),
        }
    }
}

/// The views of a list of segments.
pub open spec fn segments_of(slices: Seq<Namespace>) -> Seq<Segment> {
    slices.map_values(|n: Namespace| n@)
}

/// The texts of a list of segments.
pub open spec fn texts(segments: Seq<Segment>) -> Seq<Seq<char>> {
    segments.map_values(|s: Segment| s.text())
}

/// The segment that the first piece of a name is.
pub open spec fn head_segment(piece: Seq<char>) -> Segment {
    if piece.len() == 0 {
        Segment::Root
    } else if is_reserved(piece) {
        Segment::Reserved(piece)
    } else {
        Segment::User(piece)
    }
}

/// The segments that the pieces after the first are: the empty ones are left
/// out, and none is taken for a reserved word.
pub open spec fn tail_segments(parts: Seq<Seq<char>>) -> Seq<Segment>
    decreases parts.len(),
{
    if parts.len() == 0 {
        Seq::<Segment>::empty()
    } else if parts.last().len() == 0 {
        tail_segments(parts.drop_last())
    } else {
        tail_segments(parts.drop_last()).push(Segment::User(parts.last()))
    }
}

/// The segments of a name.
pub open spec fn segments(name: Seq<char>) -> Seq<Segment> {
    let parts = split(name, separator());
    seq![head_segment(parts[0])] + tail_segments(parts.skip(1))
}

/// A name with the root in front, and with the default reserved word after
/// it where the name starts with a segment of the user's.
pub open spec fn canonical(segs: Seq<Segment>, default: Seq<char>) -> Seq<Segment> {
    match segs[0] {
        Segment::Root => segs,
        Segment::Reserved(_) => seq![Segment::Root] + segs,
        Segment::User(_) => seq![Segment::Root, Segment::Reserved(default)] + segs,
    }
}

/// What follows the reserved word of a canonical name, behind a root of its
/// own.
pub open spec fn tagspace(segs: Seq<Segment>) -> Seq<Segment> {
    seq![Segment::Root] + segs.skip(2)
}

/// An expression with its shorthands written out: a single `:` in front
/// becomes `%::`, a single `:` at the end becomes `::%`. An expression of
/// fewer than two characters stays as it is.
pub open spec fn shorthand(exp: Seq<char>) -> Seq<char> {
    if exp.len() > 1 {
        let head = exp[0] == ':' && exp[1] != ':';
        let tail = exp[exp.len() - 1] == ':' && exp[exp.len() - 2] != ':';
        let i: int = if head { 1 } else { 0 };
        let j: int = if tail { exp.len() - 1 } else { exp.len() as int };
        (if head { seq!['%', ':', ':'] } else { Seq::<char>::empty() }) + exp.subrange(i, j) + (if tail {
            seq![':', ':', '%']
        } else {
            Seq::<char>::empty()
        })
    } else {
        exp
    }
}

/// Whether the characters are one of the four reserved words.
fn reserved(s: &Vec<char>) -> (b: bool)
    ensures
        b == is_reserved(s@),
{
    let n = s.len();
    if n == 3 {
        let b = s[0] == 't' && ((s[1] == 'a' && s[2] == 'g') || (s[1] == 'd' && s[2] == 'b'));
        proof {
            if s[0] == 't' && s[1] == 'a' && s[2] == 'g' {
                assert(s@ =~= word_tag());
            }
            if s[0] == 't' && s[1] == 'd' && s[2] == 'b' {
                assert(s@ =~= word_tdb());
            }
            if is_reserved(s@) {
                assert(word_path().len() == 4 && word_kind().len() == 4);
                if s@ == word_tag() {
                    assert(word_tag()[0] == 't' && word_tag()[1] == 'a' && word_tag()[2] == 'g');
                } else {
                    assert(word_tdb()[0] == 't' && word_tdb()[1] == 'd' && word_tdb()[2] == 'b');
                }
            }
        }
        b
    } else if n == 4 {
        let b = (s[0] == 'p' && s[1] == 'a' && s[2] == 't' && s[3] == 'h') || (s[0] == 'k' && s[1]
            == 'i' && s[2] == 'n' && s[3] == 'd');
        proof {
            if s[0] == 'p' && s[1] == 'a' && s[2] == 't' && s[3] == 'h' {
                assert(s@ =~= word_path());
            }
            if s[0] == 'k' && s[1] == 'i' && s[2] == 'n' && s[3] == 'd' {
                assert(s@ =~= word_kind());
            }
            if is_reserved(s@) {
                assert(word_tag().len() == 3 && word_tdb().len() == 3);
                if s@ == word_path() {
                    assert(word_path()[0] == 'p' && word_path()[1] == 'a' && word_path()[2] == 't'
                        && word_path()[3] == 'h');
                } else {
                    assert(word_kind()[0] == 'k' && word_kind()[1] == 'i' && word_kind()[2] == 'n'
                        && word_kind()[3] == 'd');
                }
            }
        }
        b
    } else {
        proof {
            assert(word_tag().len() == 3 && word_tdb().len() == 3 && word_path().len() == 4
                && word_kind().len() == 4);
        }
        false
    }
}

/// A name, as a list of segments.
#[derive(Debug)]
pub struct Namespec {
    borrow: String,
    slices: Vec<Namespace>,
}

impl View for Namespec {
    type V = Seq<Segment>;

    closed spec fn view(&self) -> Seq<Segment> {
        segments_of(self.slices@)
    }
}

impl Namespec {
    /// The text that the name was made from.
    pub closed spec fn source(&self) -> Seq<char> {
        self.borrow@
    }

    /// The segments of a name.
    pub fn new(name: &str) -> (n: Self)
        ensures
            n@ == segments(name@),
            n.source() == name@,
            n@.len() >= 1,
    {
        let slices = Self::segments_vec(name);
        Namespec { borrow: name.to_owned(), slices }
    }

    /// The name as a text: the texts of the segments with `::` between them.
    pub fn to_string(&self) -> (s: String)
        ensures
            s@ == join(texts(self@), separator()),
    {
        assert(self@.skip(0) =~= self@);
        self.to_string_from(0)
    }

    /// The segments from the position `from` on as a text: their texts with
    /// `::` between them.
    pub fn to_string_from(&self, from: usize) -> (s: String)
        requires
            from <= self@.len(),
        ensures
            s@ == join(texts(self@.skip(from as int)), separator()),
    {
        let mut parts: Vec<Vec<char>> = Vec::new();
        let mut i: usize = from;
        let ghost all = texts(segments_of(self.slices@).skip(from as int));
        while i < self.slices.len()
            invariant
                from <= i <= self.slices@.len(),
                all == texts(segments_of(self.slices@).skip(from as int)),
                pieces(parts@) == all.take(i - from),
            decreases self.slices@.len() - i,
        {
            let text = to_chars(self.slices[i].as_str());
            proof {
                assert(all.take(i - from + 1) =~= all.take(i - from).push(all[i - from]));
                assert(pieces(parts@.push(text)) =~= pieces(parts@).push(text@));
            }
            parts.push(text);
            i += 1;
        }
        proof {
            assert(all.take(i - from) =~= all);
            reveal_strlit("::");
            assert("::"@ =~= separator());
        }
        let sep = to_chars(NAMESPACE_SEP);
        collect(&join_chars(&parts, &sep))
    }

    /// The first segment.
    pub fn get_root(&self) -> (n: &Namespace)
        requires
            self@.len() >= 1,
        ensures
            n@ == self@[0],
    {
        &self.slices[0]
    }

    /// The second segment: in a canonical name, the reserved word.
    pub fn get_reserved(&self) -> (n: &Namespace)
        requires
            self@.len() >= 2,
        ensures
            n@ == self@[1],
    {
        &self.slices[1]
    }

    /// The last segment.
    pub fn get_leaf(&self) -> (n: &Namespace)
        requires
            self@.len() >= 1,
        ensures
            n@ == self@.last(),
    {
        &self.slices[self.slices.len() - 1]
    }

    /// The number of segments.
    pub fn len(&self) -> (n: usize)
        ensures
            n == self@.len(),
    {
        self.slices.len()
    }

    /// What follows the reserved word, behind a root of its own.
    pub fn to_tagspace(&self) -> (n: Namespec)
        requires
            self@.len() >= 2,
        ensures
            n@ == tagspace(self@),
            n.source() == self.source(),
    {
        let mut specs: Vec<Namespace> = Vec::new();
        specs.push(Namespace::Root);
        let mut i: usize = 2;
        assert(segments_of(specs@) =~= seq![Segment::Root] + self@.subrange(2, 2));
        while i < self.slices.len()
            invariant
                2 <= i <= self.slices@.len(),
                segments_of(specs@) == seq![Segment::Root] + segments_of(self.slices@).subrange(
                    2,
                    i as int,
                ),
            decreases self.slices@.len() - i,
        {
            let item = self.slices[i].replica();
            proof {
                let all = segments_of(self.slices@);
                assert(item@ == all[i as int]);
                assert(segments_of(specs@.push(item)) =~= segments_of(specs@).push(item@));
                assert(all.subrange(2, i as int + 1) =~= all.subrange(2, i as int).push(
                    all[i as int],
                ));
                assert(segments_of(specs@.push(item)) =~= seq![Segment::Root] + all.subrange(
                    2,
                    i as int + 1,
                ));
            }
            specs.push(item);
            i += 1;
        }
        proof {
            let all = segments_of(self.slices@);
            assert(all.subrange(2, i as int) =~= all.skip(2));
        }
        Namespec { borrow: self.borrow.clone(), slices: specs }
    }

    /// The name with the root in front, and with `default` as its reserved
    /// word where it starts with a segment of the user's.
    pub fn canonicalize_with_default(&self, default: &str) -> (n: Self)
        requires
            self@.len() >= 1,
        ensures
            n@ == canonical(self@, default@),
            n.source() == self.source(),
    {
        let mut specs: Vec<Namespace> = Vec::new();
        match &self.slices[0] {
            Namespace::Root => {},
            Namespace::Reserved(_) => {
                specs.push(Namespace::Root);
            },
            Namespace::User(_) => {
                specs.push(Namespace::Root);
                specs.push(Namespace::Reserved(default.to_owned()));
            },
        }
        let ghost prefix = segments_of(specs@);
        let mut i: usize = 0;
        assert(segments_of(specs@) =~= prefix + self@.take(0));
        while i < self.slices.len()
            invariant
                i <= self.slices@.len(),
                segments_of(specs@) == prefix + segments_of(self.slices@).take(i as int),
            decreases self.slices@.len() - i,
        {
            let item = self.slices[i].replica();
            proof {
                let all = segments_of(self.slices@);
                assert(item@ == all[i as int]);
                assert(segments_of(specs@.push(item)) =~= segments_of(specs@).push(item@));
                assert(all.take(i as int + 1) =~= all.take(i as int).push(all[i as int]));
                assert(segments_of(specs@.push(item)) =~= prefix + all.take(i as int + 1));
            }
            specs.push(item);
            i += 1;
        }
        proof {
            let all = segments_of(self.slices@);
            assert(all.take(i as int) =~= all);
            assert(self@[0] == self.slices@[0]@);
            match self@[0] {
                Segment::Root => {
                    assert(prefix + all =~= all);
                },
                Segment::Reserved(_) => {
                    assert(prefix =~= seq![Segment::Root]);
                },
                Segment::User(_) => {
                    assert(prefix =~= seq![Segment::Root, Segment::Reserved(default@)]);
                },
            }
        }
        Namespec { borrow: self.borrow.clone(), slices: specs }
    }

    /// The segments of a name, as a list.
    fn segments_vec(name: &str) -> (specs: Vec<Namespace>)
        ensures
            segments_of(specs@) == segments(name@),
            specs@.len() >= 1,
    {
        proof {
            reveal_strlit("::");
            assert("::"@ =~= separator());
            lemma_split_len(name@, separator());
        }
        let chars = to_chars(name);
        let sep = to_chars(NAMESPACE_SEP);
        let slices = split_chars(&chars, &sep);
        assert(slices@.len() == pieces(slices@).len());
        assert(pieces(slices@)[0] == slices@[0]@);
        let mut specs: Vec<Namespace> = Vec::new();
        if slices[0].len() == 0 {
            specs.push(Namespace::Root);
        } else if reserved(&slices[0]) {
            specs.push(Namespace::Reserved(collect(&slices[0])));
        } else {
            specs.push(Namespace::User(collect(&slices[0])));
        }
        let ghost parts = split(name@, separator());
        let ghost tail = parts.skip(1);
        assert(segments_of(specs@) =~= seq![head_segment(parts[0])] + tail_segments(tail.take(0)));
        let mut i: usize = 1;
        while i < slices.len()
            invariant
                1 <= i <= slices@.len(),
                parts == pieces(slices@),
                tail == parts.skip(1),
                specs@.len() >= 1,
                segments_of(specs@) == seq![head_segment(parts[0])] + tail_segments(
                    tail.take(i - 1),
                ),
            decreases slices@.len() - i,
        {
            proof {
                let t = tail.take(i as int);
                assert(t.drop_last() =~= tail.take(i - 1));
                assert(t.last() == parts[i as int]);
                assert(parts[i as int] == slices@[i as int]@);
            }
            if slices[i].len() != 0 {
                let item = Namespace::User(collect(&slices[i]));
                proof {
                    assert(segments_of(specs@.push(item)) =~= segments_of(specs@).push(item@));
                    assert(seq![head_segment(parts[0])] + tail_segments(tail.take(i as int)) =~= (
                    seq![head_segment(parts[0])] + tail_segments(tail.take(i - 1))).push(item@));
                }
                specs.push(item);
            }
            i += 1;
        }
        proof {
            assert(tail.take(i - 1) =~= tail);
        }
        specs
    }

    /// The segments of a name. Every name has some.
    pub fn parse(name: &str) -> (r: Option<Vec<Namespace>>)
        ensures
            r matches Some(specs) && segments_of(specs@) == segments(name@),
    {
        Some(Self::segments_vec(name))
    }

    /// Writes out the shorthands of an expression: a single `:` in front
    /// becomes `%::`, a single `:` at the end becomes `::%`.
    pub fn apply_shorthand_syntax(exp: &str) -> (s: String)
        ensures
            s@ == shorthand(exp@),
    {
        let chars = to_chars(exp);
        let len = chars.len();
        if len > 1 {
            let head = chars[0] == ':' && chars[1] != ':';
            let tail = chars[len - 1] == ':' && chars[len - 2] != ':';
            let i: usize = if head { 1 } else { 0 };
            let j: usize = if tail { len - 1 } else { len };
            let mut out: Vec<char> = Vec::new();
            if head {
                out.push('%');
                out.push(':');
                out.push(':');
            }
            let middle = slice_of(&chars, i, j);
            append(&mut out, &middle);
            if tail {
                out.push(':');
                out.push(':');
                out.push('%');
            }
            assert(out@ =~= shorthand(exp@));
            collect(&out)
        } else {
            exp.to_owned()
        }
    }

    /// The canonical form of a user's expression, with `tag` as the default
    /// reserved word, and what follows its reserved word.
    pub fn canonicalize_user_expression(exp: &str) -> (r: (Namespec, Namespec))
        requires
            canonical(segments(exp@), word_tag()).len() >= 2,
        ensures
            r.0@ == canonical(segments(exp@), word_tag()),
            r.1@ == tagspace(r.0@),
    {
        proof {
            reveal_strlit("tag");
            assert("tag"@ =~= word_tag());
        }
        let namespec = Namespec::new(exp);
        let canonical = namespec.canonicalize_with_default(RESERVED_TAG);
        let tagspace = canonical.to_tagspace();
        (canonical, tagspace)
    }

    /// The canonical form of a user's expression and what follows its
    /// reserved word, where the expression has a reserved word or a segment
    /// to stand in its place.
    pub fn try_canonicalize_user_expression(exp: &str) -> (r: Option<(Namespec, Namespec)>)
        ensures
            match r {
                Some(pair) => pair.0@ == canonical(segments(exp@), word_tag()) && pair.1@
                    == tagspace(pair.0@) && pair.0@.len() >= 2,
                None => canonical(segments(exp@), word_tag()).len() < 2,
            },
    {
        proof {
            reveal_strlit("tag");
            assert("tag"@ =~= word_tag());
        }
        let namespec = Namespec::new(exp);
        let canonical = namespec.canonicalize_with_default(RESERVED_TAG);
        if canonical.len() >= 2 {
            let tagspace = canonical.to_tagspace();
            Some((canonical, tagspace))
        } else {
            None
        }
    }
}

} // verus!
