//! Reading and writing the tags of a file as one attribute value.
use crate::app::attr::error::{Error, Fault};
use crate::app::attr::tag::Tag;
use crate::util::order::{is_permutation, key_views, lex_le, sort_order};
use crate::util::string::{
    collect,
    contains,
    includes,
    join,
    join_chars,
    lemma_split_join,
    pieces,
    split,
    split_chars,
    starts_with,
    to_chars,
};
use crate::util::table::{Key, VecSet};
use vstd::prelude::*;
use vstd::string::StrSliceExecFns;
use vstd::utf8::{decode_utf8, encode_utf8, valid_utf8};

verus! {

/// The key under which the tags of a file are kept.
pub const TAG_KEY: &'static str = "user.tag.list";

/// What stands between two tags in an attribute value.
pub const TAG_SEPERATOR: &'static str = ",";

/// The tag that every file has in memory.
pub const API_TAG: &'static str = "tdb::api::Entity";

/// The characters of the tag that every file has in memory.
pub open spec fn api_tag() -> Seq<char> {
    seq!['t', 'd', 'b', ':', ':', 'a', 'p', 'i', ':', ':', 'E', 'n', 't', 'i', 't', 'y']
}

/// What the names of the library's own tags begin with.
pub open spec fn ghost_prefix() -> Seq<char> {
    seq!['t', 'd', 'b', ':', ':']
}

/// The characters of the usual separator.
pub open spec fn comma() -> Seq<char> {
    seq![',']
}

/// Whether a name may be a tag: it is not empty and holds none of `{{`, `}}`
/// and `,`.
pub open spec fn valid_tag(tag: Seq<char>) -> bool {
    &&& tag.len() > 0
    &&& !includes(tag, seq!['{', '{'])
    &&& !includes(tag, seq!['}', '}'])
    &&& !includes(tag, seq![','])
}

/// What sanitizing a name gives: the name, where it may be a tag.
pub open spec fn sanitized(tag: Seq<char>) -> Result<Seq<char>, Fault> {
    if valid_tag(tag) {
        Ok(tag)
    } else {
        Err(Fault::InvalidTag { tag })
    }
}

/// Whether a tag is one of the library's own, which users are not shown.
pub open spec fn is_ghost(tag: Seq<char>) -> bool {
    ghost_prefix().is_prefix_of(tag)
}

/// Sanitizing what was sanitized changes nothing.
pub proof fn lemma_sanitize_idempotent(tag: Seq<char>)
    requires
        sanitized(tag) is Ok,
    ensures
        sanitized(sanitized(tag)->Ok_0) == sanitized(tag),
{
}

/// Checks a name: a tag is not empty and holds none of `{{`, `}}` and `,`.
pub fn sanitize(tag: &str) -> (r: Result<&str, Error>)
    ensures
        match sanitized(tag@) {
            Ok(t) => r matches Ok(s) && s@ == t,
            Err(f) => r matches Err(e) && e@ == f,
        },
{
    let chars = to_chars(tag);
    if valid_chars(&chars) {
        Ok(tag)
    } else {
        Err(Error::InvalidTag { tag: tag.to_owned() })
    }
}

/// Whether the characters may be a tag.
fn valid_chars(chars: &Vec<char>) -> (b: bool)
    ensures
        b == valid_tag(chars@),
{
    let mut open: Vec<char> = Vec::new();
    open.push('{');
    open.push('{');
    let mut close: Vec<char> = Vec::new();
    close.push('}');
    close.push('}');
    let mut sep: Vec<char> = Vec::new();
    sep.push(',');
    assert(open@ =~= seq!['{', '{']);
    assert(close@ =~= seq!['}', '}']);
    assert(sep@ =~= seq![',']);
    chars.len() > 0 && !contains(chars, &open) && !contains(chars, &close) && !contains(
        chars,
        &sep,
    )
}

/// Hands a tag back unless it is one of the library's own.
pub fn unghost(tag: &str) -> (r: Option<&str>)
    ensures
        match r {
            Some(t) => !is_ghost(tag@) && t@ == tag@,
            None => is_ghost(tag@),
        },
{
    let chars = to_chars(tag);
    if ghostly(&chars) {
        None
    } else {
        Some(tag)
    }
}

/// Whether the characters begin like the library's own tags.
fn ghostly(chars: &Vec<char>) -> (b: bool)
    ensures
        b == is_ghost(chars@),
{
    let mut prefix: Vec<char> = Vec::new();
    prefix.push('t');
    prefix.push('d');
    prefix.push('b');
    prefix.push(':');
    prefix.push(':');
    assert(prefix@ =~= ghost_prefix());
    starts_with(chars, &prefix)
}

/// The tags of a file that has none yet: the tag that every file has.
pub fn initial_tags() -> (set: VecSet<Tag>)
    ensures
        set.wf(),
        set@ == set![api_tag()],
{
    proof {
        reveal_strlit("tdb::api::Entity");
        assert("tdb::api::Entity"@ =~= api_tag());
        lemma_api_tag_valid();
    }
    let mut set: VecSet<Tag> = VecSet::new();
    match Tag::new(API_TAG) {
        Ok(tag) => {
            set.insert(tag);
        },
        Err(_) => {},
    }
    assert(set@ =~= set![api_tag()]);
    set
}

/// The tag that every file has is a valid tag.
pub proof fn lemma_api_tag_valid()
    ensures
        valid_tag(api_tag()),
        is_ghost(api_tag()),
{
    let t = api_tag();
    assert(t.len() == 16);
    assert forall|pat: Seq<char>|
        (pat == seq!['{', '{'] || pat == seq!['}', '}'] || pat == seq![',']) implies !includes(
        t,
        pat,
    ) by {
        assert forall|i: int| !crate::util::string::occurs_at(t, pat, i) by {
            if 0 <= i && i + pat.len() <= t.len() {
                assert(t.subrange(i, i + pat.len())[0] == t[i]);
                assert(pat[0] == '{' || pat[0] == '}' || pat[0] == ',');
                assert(t[i] != '{' && t[i] != '}' && t[i] != ',');
            }
        }
    }
    assert(t.subrange(0, 5) =~= ghost_prefix());
}

/// The tags that a list of names makes, added to `acc`. The first name that
/// may not be a tag is an error.
pub open spec fn collected(names: Seq<Seq<char>>, acc: Set<Seq<char>>) -> Result<
    Set<Seq<char>>,
    Fault,
>
    decreases names.len(),
{
    if names.len() == 0 {
        Ok(acc)
    } else if !valid_tag(names[0]) {
        Err(Fault::InvalidTag { tag: names[0] })
    } else {
        collected(names.drop_first(), acc.insert(names[0]))
    }
}

/// The tags that an attribute value holds: the value is UTF-8, cut at the
/// separator, and each piece is a tag. The tag that every file has is always
/// among them. A value that is no UTF-8 is refused like an empty tag, and so
/// is every value where the separator is empty: its first piece is empty.
pub open spec fn decoded(bytes: Seq<u8>, sep: Seq<char>) -> Result<Set<Seq<char>>, Fault> {
    if valid_utf8(bytes) && sep.len() > 0 {
        collected(split(decode_utf8(bytes), sep), set![api_tag()])
    } else {
        Err(Fault::InvalidTag { tag: Seq::<char>::empty() })
    }
}

/// Whether `list` holds the members of `set`, each once, in lexical order.
pub open spec fn lists(list: Seq<Seq<char>>, set: Set<Seq<char>>) -> bool {
    &&& list.no_duplicates()
    &&& list.to_set() == set
    &&& forall|i: int, j: int| 0 <= i < j < list.len() ==> lex_le(list[i], list[j])
}

/// The tags that users are shown: those that are valid and not the library's
/// own.
pub open spec fn visible(tags: Set<Seq<char>>) -> Set<Seq<char>> {
    tags.filter(|t: Seq<char>| !is_ghost(t) && valid_tag(t))
}

/// `String::from_utf8` turns bytes into a text where they are UTF-8, and
/// refuses them where they are not.
#[verifier::external_body]
fn text_of(bytes: Vec<u8>) -> (r: Option<String>)
    ensures
        r is Some <==> valid_utf8(bytes@),
        r matches Some(s) ==> s@ == decode_utf8(bytes@),
{
    String::from_utf8(bytes).ok()
}

/// Decodes an attribute value into tags.
pub fn decode(tags: Vec<u8>, sep: &str) -> (r: Result<VecSet<Tag>, Error>)
    ensures
        match decoded(tags@, sep@) {
            Ok(set) => r matches Ok(s) && s@ == set && s.wf(),
            Err(f) => r matches Err(e) && e@ == f,
        },
{
    let text = match text_of(tags) {
        Some(text) => text,
        None => {
            return Err(Error::InvalidTag { tag: String::new() });
        },
    };
    let chars = to_chars(text.as_str());
    let separator = to_chars(sep);
    if separator.len() == 0 {
        return Err(Error::InvalidTag { tag: String::new() });
    }
    let names = split_chars(&chars, &separator);
    let mut set = initial_tags();
    let mut i: usize = 0;
    let ghost all = pieces(names@);
    assert(all.skip(0) =~= all);
    while i < names.len()
        invariant
            i <= names@.len(),
            set.wf(),
            all == pieces(names@),
            valid_utf8(tags@),
            sep@.len() > 0,
            all == split(decode_utf8(tags@), sep@),
            collected(all, set![api_tag()]) == collected(all.skip(i as int), set@),
        decreases names@.len() - i,
    {
        let name = collect(&names[i]);
        proof {
            assert(all.skip(i as int)[0] == names@[i as int]@);
            assert(all.skip(i as int).drop_first() =~= all.skip(i + 1));
        }
        match Tag::new(name.as_str()) {
            Ok(tag) => {
                set.insert(tag);
            },
            Err(e) => {
                return Err(e);
            },
        }
        i += 1;
    }
    Ok(set)
}

/// The names of the tags, in lexical order; with `shown` only those that
/// users are shown.
fn listing(tags: &VecSet<Tag>, shown: bool) -> (list: Vec<Vec<char>>)
    requires
        tags.wf(),
    ensures
        lists(
            pieces(list@),
            if shown {
                visible(tags@)
            } else {
                tags@
            },
        ),
{
    let ghost target = if shown { visible(tags@) } else { tags@ };
    let ghost keep = |t: Seq<char>| !shown || (!is_ghost(t) && valid_tag(t));
    let mut names: Vec<Vec<char>> = Vec::new();
    let n = tags.len();
    let mut i: usize = 0;
    proof {
        tags.lemma_order();
    }
    while i < n
        invariant
            i <= n,
            n == tags.order().len(),
            tags.wf(),
            keep == (|t: Seq<char>| !shown || (!is_ghost(t) && valid_tag(t))),
            pieces(names@) == tags.order().take(i as int).filter(keep),
        decreases n - i,
    {
        let name = to_chars(tags.get(i).as_str());
        proof {
            let s = tags.order();
            assert(s.take(i as int + 1) =~= s.take(i as int).push(s[i as int]));
            crate::util::table::filter_push(s.take(i as int), s[i as int], keep);
        }
        if !shown || (!ghostly(&name) && valid_chars(&name)) {
            proof {
                assert(pieces(names@.push(name)) =~= pieces(names@).push(name@));
            }
            names.push(name);
        }
        i += 1;
    }
    proof {
        let s = tags.order();
        assert(s.take(n as int) =~= s);
        crate::util::table::filter_keeps_distinct(s, keep);
        assert(s.filter(keep).to_set() =~= target) by {
            assert forall|v: Seq<char>| s.filter(keep).contains(v) <==> target.contains(v) by {
                crate::util::table::filter_members(s, keep, v);
            }
        }
    }
    let order = sort_order(&names);
    let mut list: Vec<Vec<char>> = Vec::new();
    let mut k: usize = 0;
    let ghost unsorted = pieces(names@);
    assert(key_views(names@) =~= unsorted);
    while k < order.len()
        invariant
            k <= order@.len(),
            order@.len() == names@.len(),
            is_permutation(order@, names@.len() as nat),
            unsorted == pieces(names@),
            list@.len() == k,
            forall|j: int| 0 <= j < k ==> (#[trigger] list@[j])@ == unsorted[order@[j] as int],
        decreases order@.len() - k,
    {
        let mut copy: Vec<char> = Vec::new();
        crate::util::string::append(&mut copy, &names[order[k]]);
        assert(copy@ =~= names@[order@[k as int] as int]@);
        list.push(copy);
        k += 1;
    }
    proof {
        let sorted = pieces(list@);
        assert forall|a: int, b: int| 0 <= a < b < sorted.len() implies sorted[a] != sorted[b]
            && lex_le(sorted[a], sorted[b]) by {
            assert(sorted[a] == unsorted[order@[a] as int]);
            assert(sorted[b] == unsorted[order@[b] as int]);
            assert(order@[a] != order@[b]);
        }
        assert(sorted.to_set() =~= unsorted.to_set()) by {
            assert forall|v: Seq<char>| sorted.contains(v) <==> unsorted.contains(v) by {
                if sorted.contains(v) {
                    let j = choose|j: int| 0 <= j < sorted.len() && sorted[j] == v;
                    assert(unsorted[order@[j] as int] == v);
                }
                if unsorted.contains(v) {
                    let j = choose|j: int| 0 <= j < unsorted.len() && unsorted[j] == v;
                    lemma_permutation_onto(order@, unsorted.len(), j);
                    let q = choose|q: int| 0 <= q < order@.len() && order@[q] == j;
                    assert(sorted[q] == v);
                }
            }
        }
    }
    list
}

/// A permutation reaches every position.
pub proof fn lemma_permutation_onto(perm: Seq<usize>, n: nat, j: int)
    requires
        is_permutation(perm, n),
        0 <= j < n,
        n <= usize::MAX,
    ensures
        exists|q: int| 0 <= q < perm.len() && perm[q] == j,
{
    let image = perm.to_set();
    let all = Set::new(|v: usize| v < n);
    perm.unique_seq_to_set();
    lemma_below_len(n);
    let target = j as usize;
    if !image.contains(target) {
        let fewer = all.remove(target);
        assert(image.subset_of(fewer)) by {
            assert forall|v: usize| image.contains(v) implies fewer.contains(v) by {
                let q = choose|q: int| 0 <= q < perm.len() && perm[q] == v;
                assert(perm[q] < n);
            }
        }
        assert(all.contains(target));
        vstd::set_lib::lemma_len_subset(image, fewer);
        assert(false);
    }
    let q = choose|q: int| 0 <= q < perm.len() && perm[q] == target;
    assert(perm[q] == j);
}

/// There are `n` numbers below `n`.
proof fn lemma_below_len(n: nat)
    requires
        n <= usize::MAX + 1,
    ensures
        Set::new(|v: usize| v < n).finite(),
        Set::new(|v: usize| v < n).len() == n,
    decreases n,
{
    let s = Set::new(|v: usize| v < n);
    if n == 0 {
        assert(s =~= Set::<usize>::empty());
    } else {
        let m = (n - 1) as nat;
        lemma_below_len(m);
        let t = Set::new(|v: usize| v < m);
        assert(s =~= t.insert(m as usize));
    }
}

/// Formats the tags for users: the valid tags that are not the library's
/// own, in lexical order, with `sep` between them.
pub fn format(tags: &VecSet<Tag>, sep: &str) -> (s: String)
    requires
        tags.wf(),
    ensures
        exists|list: Seq<Seq<char>>| lists(list, visible(tags@)) && s@ == join(list, sep@),
{
    let list = listing(tags, true);
    let separator = to_chars(sep);
    collect(&join_chars(&list, &separator))
}

/// Encodes the tags as an attribute value: all of them, in lexical order,
/// with `sep` between them, as UTF-8.
pub fn encode(tags: &VecSet<Tag>, sep: &str) -> (bytes: Vec<u8>)
    requires
        tags.wf(),
    ensures
        exists|list: Seq<Seq<char>>|
            lists(list, tags@) && bytes@ == encode_utf8(join(list, sep@)),
{
    let list = listing(tags, false);
    let separator = to_chars(sep);
    let text = collect(&join_chars(&list, &separator));
    text.as_str().as_bytes_vec()
}

/// The tags of a file, from the attribute value that was read from it, if
/// there was one.
pub fn read_with_sep(attribute: Option<Vec<u8>>, sep: &str) -> (r: Result<VecSet<Tag>, Error>)
    ensures
        match attribute {
            Some(bytes) => match decoded(bytes@, sep@) {
                Ok(set) => r matches Ok(s) && s@ == set && s.wf(),
                Err(f) => r matches Err(e) && e@ == f,
            },
            None => r matches Ok(s) && s@ == set![api_tag()] && s.wf(),
        },
{
    match attribute {
        Some(tags) => decode(tags, sep),
        None => Ok(initial_tags()),
    }
}

/// The tags of a file, from the attribute value that was read from it, with
/// the usual separator.
pub fn read(attribute: Option<Vec<u8>>) -> (r: Result<VecSet<Tag>, Error>)
    ensures
        match attribute {
            Some(bytes) => match decoded(bytes@, comma()) {
                Ok(set) => r matches Ok(s) && s@ == set && s.wf(),
                Err(f) => r matches Err(e) && e@ == f,
            },
            None => r matches Ok(s) && s@ == set![api_tag()] && s.wf(),
        },
{
    proof {
        reveal_strlit(",");
        assert(","@ =~= comma());
    }
    read_with_sep(attribute, TAG_SEPERATOR)
}

/// The attribute value to write for the tags of a file; nothing where there
/// is no tag, and the attribute is to be removed.
pub fn write_with_sep(tags: &VecSet<Tag>, sep: &str) -> (r: Option<Vec<u8>>)
    requires
        tags.wf(),
    ensures
        match r {
            None => tags@ == Set::<Seq<char>>::empty(),
            Some(bytes) => tags@ != Set::<Seq<char>>::empty() && exists|list: Seq<Seq<char>>|
                lists(list, tags@) && bytes@ == encode_utf8(join(list, sep@)),
        },
{
    if tags.is_empty() {
        None
    } else {
        Some(encode(tags, sep))
    }
}

/// The attribute value to write for the tags of a file, with the usual
/// separator.
pub fn write(tags: &VecSet<Tag>) -> (r: Option<Vec<u8>>)
    requires
        tags.wf(),
    ensures
        match r {
            None => tags@ == Set::<Seq<char>>::empty(),
            Some(bytes) => tags@ != Set::<Seq<char>>::empty() && exists|list: Seq<Seq<char>>|
                lists(list, tags@) && bytes@ == encode_utf8(join(list, comma())),
        },
{
    proof {
        reveal_strlit(",");
        assert(","@ =~= comma());
    }
    write_with_sep(tags, TAG_SEPERATOR)
}

/// The attribute value that holds, with the separator `dst`, the tags that
/// `attribute` holds with the separator `src`.
pub fn migrate_seperator(attribute: Option<Vec<u8>>, src: &str, dst: &str) -> (r: Result<
    Option<Vec<u8>>,
    Error,
>)
    ensures
        match attribute {
            Some(bytes) => match decoded(bytes@, src@) {
                Ok(set) => r matches Ok(Some(out)) && exists|list: Seq<Seq<char>>|
                    lists(list, set) && out@ == encode_utf8(join(list, dst@)),
                Err(f) => r matches Err(e) && e@ == f,
            },
            None => r matches Ok(Some(out)) && exists|list: Seq<Seq<char>>|
                lists(list, set![api_tag()]) && out@ == encode_utf8(join(list, dst@)),
        },
{
    let ghost given = attribute;
    let tags = match read_with_sep(attribute, src) {
        Ok(tags) => tags,
        Err(e) => {
            return Err(e);
        },
    };
    proof {
        assert(tags@.contains(api_tag())) by {
            match given {
                Some(bytes) => {
                    lemma_collected_keeps(
                        split(decode_utf8(bytes@), src@),
                        set![api_tag()],
                        api_tag(),
                    );
                },
                None => {},
            }
        }
    }
    Ok(write_with_sep(&tags, dst))
}

/// Collecting keeps what was there.
pub proof fn lemma_collected_keeps(names: Seq<Seq<char>>, acc: Set<Seq<char>>, t: Seq<char>)
    requires
        acc.contains(t),
    ensures
        collected(names, acc) matches Ok(set) ==> set.contains(t),
    decreases names.len(),
{
    if names.len() > 0 && valid_tag(names[0]) {
        lemma_collected_keeps(names.drop_first(), acc.insert(names[0]), t);
    }
}

/// Collecting valid names adds them all.
pub proof fn lemma_collected_all(names: Seq<Seq<char>>, acc: Set<Seq<char>>)
    requires
        forall|i: int| 0 <= i < names.len() ==> valid_tag(#[trigger] names[i]),
    ensures
        collected(names, acc) == Ok::<Set<Seq<char>>, Fault>(acc.union(names.to_set())),
    decreases names.len(),
{
    if names.len() == 0 {
        assert(acc.union(names.to_set()) =~= acc);
    } else {
        let rest = names.drop_first();
        assert forall|i: int| 0 <= i < rest.len() implies valid_tag(#[trigger] rest[i]) by {
            assert(rest[i] == names[i + 1]);
        }
        lemma_collected_all(rest, acc.insert(names[0]));
        assert(acc.insert(names[0]).union(rest.to_set()) =~= acc.union(names.to_set())) by {
            assert forall|v: Seq<char>| names.contains(v) <==> (v == names[0] || rest.contains(
                v,
            )) by {
                if names.contains(v) {
                    let k = choose|k: int| 0 <= k < names.len() && names[k] == v;
                    if k > 0 {
                        assert(rest[k - 1] == v);
                    }
                }
                if rest.contains(v) {
                    let k = choose|k: int| 0 <= k < rest.len() && rest[k] == v;
                    assert(names[k + 1] == v);
                }
            }
        }
    }
}

/// What was written is what is read: where a set of valid tags holds the tag
/// that every file has, decoding any value that encodes the set gives the set
/// back. The separator is the usual one.
pub proof fn lemma_round_trip(tags: Set<Seq<char>>, list: Seq<Seq<char>>)
    requires
        tags.contains(api_tag()),
        forall|t: Seq<char>| tags.contains(t) ==> valid_tag(t),
        lists(list, tags),
    ensures
        decoded(encode_utf8(join(list, comma())), comma()) == Ok::<Set<Seq<char>>, Fault>(tags),
{
    let text = join(list, comma());
    vstd::utf8::encode_utf8_valid_utf8(text);
    vstd::utf8::encode_utf8_decode_utf8(text);
    assert(list.len() >= 1) by {
        assert(list.to_set().contains(api_tag()));
    }
    assert forall|i: int| 0 <= i < list.len() implies !includes(#[trigger] list[i], comma()) by {
        assert(list.to_set().contains(list[i]));
        assert(valid_tag(list[i]));
    }
    lemma_split_join(list, comma());
    assert forall|i: int| 0 <= i < list.len() implies valid_tag(#[trigger] list[i]) by {
        assert(list.to_set().contains(list[i]));
    }
    lemma_collected_all(list, set![api_tag()]);
    assert(set![api_tag()].union(list.to_set()) =~= tags);
}

} // verus!
