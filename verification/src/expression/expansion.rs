//! Macro expansion: `{{name}}` is replaced by the text that `name` stands
//! for, again and again, until no reference is left.
use crate::expression::error::{Error, Fault};
use crate::util::string::{
    append,
    collect,
    is_space,
    is_whitespace,
    matches_at,
    occurs_at,
    slice_of,
    to_chars,
    trimmed,
};
use crate::util::table::VecMap;
use vstd::prelude::*;

verus! {

/// The number of substitutions at which an expansion gives up, unless another
/// is set.
pub const RECURSION_LIMIT: usize = 128;

/// A set of macros with its delimiters, as plain values.
pub struct Rules {
    /// The number of substitutions at which an expansion gives up.
    pub limit: nat,
    /// What opens a reference.
    pub open: Seq<char>,
    /// What closes a reference.
    pub close: Seq<char>,
    /// What is put before each replacement.
    pub before: Seq<char>,
    /// What is put after each replacement.
    pub after: Seq<char>,
    /// The replacement of each name.
    pub map: Map<Seq<char>, Seq<char>>,
}

/// Whether a character may stand in a macro name.
pub open spec fn is_name_char(c: char) -> bool {
    ('a' <= c <= 'z') || ('A' <= c <= 'Z') || ('0' <= c <= '9') || c == '-' || c == '_'
}

/// Whether a text is a macro name: not empty, and made of letters, digits,
/// `-` and `_`.
pub open spec fn valid_identifier(id: Seq<char>) -> bool {
    id.len() > 0 && forall|i: int| 0 <= i < id.len() ==> is_name_char(#[trigger] id[i])
}

/// The first position at or after `i` where `stop` stands in `s`, or the
/// length of `s`.
pub open spec fn stop_from(s: Seq<char>, stop: char, i: int) -> int
    decreases s.len() - i,
{
    if i < 0 || i >= s.len() {
        s.len() as int
    } else if s[i] == stop {
        i
    } else {
        stop_from(s, stop, i + 1)
    }
}

/// Where the reference that starts at `i` ends, if one starts there: `open`,
/// then characters other than the first of `close`, then `close`.
pub open spec fn reference_at(s: Seq<char>, open: Seq<char>, close: Seq<char>, i: int) -> Option<
    int,
> {
    if occurs_at(s, open, i) && close.len() > 0 {
        let j = stop_from(s, close[0], i + open.len());
        if occurs_at(s, close, j) {
            Some(j + close.len())
        } else {
            None
        }
    } else {
        None
    }
}

/// The leftmost reference that starts at or after `i`: its start and its end.
pub open spec fn reference_from(s: Seq<char>, open: Seq<char>, close: Seq<char>, i: int) -> Option<
    (int, int),
>
    decreases s.len() - i,
{
    if i < 0 || i >= s.len() {
        None
    } else {
        match reference_at(s, open, close, i) {
            Some(e) => Some((i, e)),
            None => reference_from(s, open, close, i + 1),
        }
    }
}

/// The name inside a reference: what stands between the delimiters, without
/// the white space around it.
pub open spec fn identifier(text: Seq<char>, open: Seq<char>, close: Seq<char>) -> Seq<char> {
    trimmed(text.subrange(open.len() as int, text.len() - close.len()), |c: char| is_space(c))
}

/// `s` with `s[i..e]` replaced by `rep`.
pub open spec fn substituted(s: Seq<char>, i: int, e: int, rep: Seq<char>) -> Seq<char> {
    s.take(i) + rep + s.skip(e)
}

/// The expansion of `s` with `guard` as what is left of the limit.
///
/// The leftmost reference is resolved first. A name that is no identifier, or
/// that has no replacement, is an error. Each substitution takes one from the
/// guard; the substitution that would bring it to zero fails instead.
pub open spec fn expansion(rules: Rules, s: Seq<char>, guard: nat) -> Result<Seq<char>, Fault>
    decreases guard,
{
    match reference_from(s, rules.open, rules.close, 0) {
        None => Ok(s),
        Some((i, e)) => {
            let id = identifier(s.subrange(i, e), rules.open, rules.close);
            if !valid_identifier(id) {
                Err(Fault::InvalidIdentifier { id })
            } else if !rules.map.contains_key(id) {
                Err(Fault::UnknownExpansion { key: id })
            } else if guard <= 1 {
                Err(Fault::RecursionLimitReached { key: rules.map[id], limit: rules.limit })
            } else {
                expansion(
                    rules,
                    substituted(s, i, e, rules.before + rules.map[id] + rules.after),
                    (guard - 1) as nat,
                )
            }
        },
    }
}

/// A reference lies inside the text and holds both delimiters.
pub proof fn lemma_reference_at(s: Seq<char>, open: Seq<char>, close: Seq<char>, i: int)
    ensures
        reference_at(s, open, close, i) matches Some(e) ==> 0 <= i && i + open.len() + close.len()
            <= e <= s.len(),
{
    if occurs_at(s, open, i) && close.len() > 0 {
        lemma_stop_from(s, close[0], i + open.len());
    }
}

/// `stop_from` gives a position at or after the start, and no `stop` stands
/// before it.
pub proof fn lemma_stop_from(s: Seq<char>, stop: char, i: int)
    requires
        0 <= i <= s.len(),
    ensures
        i <= stop_from(s, stop, i) <= s.len(),
        stop_from(s, stop, i) < s.len() ==> s[stop_from(s, stop, i)] == stop,
        forall|k: int| i <= k < stop_from(s, stop, i) ==> s[k] != stop,
    decreases s.len() - i,
{
    if i < s.len() && s[i] != stop {
        lemma_stop_from(s, stop, i + 1);
    }
}

/// Whether a character may stand in a macro name.
fn name_char(c: char) -> (b: bool)
    ensures
        b == is_name_char(c),
{
    ('a' <= c && c <= 'z') || ('A' <= c && c <= 'Z') || ('0' <= c && c <= '9') || c == '-' || c
        == '_'
}

/// Whether the characters are a macro name.
fn valid_name(id: &Vec<char>) -> (b: bool)
    ensures
        b == valid_identifier(id@),
{
    if id.len() == 0 {
        return false;
    }
    let mut i: usize = 0;
    while i < id.len()
        invariant
            i <= id@.len(),
            forall|k: int| 0 <= k < i ==> is_name_char(#[trigger] id@[k]),
        decreases id@.len() - i,
    {
        if !name_char(id[i]) {
            return false;
        }
        i += 1;
    }
    true
}

/// Checks an identifier for validity: not empty, and made of letters, digits,
/// `-` and `_`.
pub fn validate_identifier(id: &str) -> (b: bool)
    ensures
        b == valid_identifier(id@),
{
    let chars = to_chars(id);
    valid_name(&chars)
}

/// `s[from..to]` without the white space around it.
fn trim(s: &Vec<char>, from: usize, to: usize) -> (r: Vec<char>)
    requires
        from <= to <= s@.len(),
    ensures
        r@ == trimmed(s@.subrange(from as int, to as int), |c: char| is_space(c)),
{
    let ghost drop = |c: char| is_space(c);
    let ghost t = s@.subrange(from as int, to as int);
    let mut i: usize = from;
    let mut j: usize = to;
    while i < j && is_whitespace(s[i])
        invariant
            from <= i <= j <= to <= s@.len(),
            j == to,
            t == s@.subrange(from as int, to as int),
            drop == (|c: char| is_space(c)),
            trimmed(t, drop) == trimmed(s@.subrange(i as int, j as int), drop),
        decreases j - i,
    {
        proof {
            let u = s@.subrange(i as int, j as int);
            assert(u[0] == s@[i as int]);
            assert(drop(u[0]));
            assert(u.drop_first() =~= s@.subrange(i + 1, j as int));
        }
        i += 1;
    }
    while i < j && is_whitespace(s[j - 1])
        invariant
            from <= i <= j <= to <= s@.len(),
            t == s@.subrange(from as int, to as int),
            drop == (|c: char| is_space(c)),
            i < j ==> !is_space(s@[i as int]),
            trimmed(t, drop) == trimmed(s@.subrange(i as int, j as int), drop),
        decreases j - i,
    {
        proof {
            let u = s@.subrange(i as int, j as int);
            assert(u[0] == s@[i as int]);
            assert(!drop(u[0]));
            assert(u.last() == s@[j - 1]);
            assert(drop(u.last()));
            assert(u.drop_last() =~= s@.subrange(i as int, j - 1));
        }
        j -= 1;
    }
    proof {
        let u = s@.subrange(i as int, j as int);
        if i < j {
            assert(u[0] == s@[i as int]);
            assert(u.last() == s@[j - 1]);
            assert(!drop(u[0]) && !drop(u.last()));
        }
    }
    slice_of(s, i, j)
}

/// Macros: a replacement for each name, the delimiters of a reference, what
/// is put around each replacement, and the limit on substitutions.
#[derive(Debug)]
pub struct Expansions {
    recursion_limit: usize,
    open: Vec<char>,
    close: Vec<char>,
    before: Vec<char>,
    after: Vec<char>,
    map: VecMap<String, String>,
}

impl View for Expansions {
    type V = Rules;

    closed spec fn view(&self) -> Rules {
        Rules {
            limit: self.recursion_limit as nat,
            open: self.open@,
            close: self.close@,
            before: self.before@,
            after: self.after@,
            map: self.map@.map_values(|v: String| v@),
        }
    }
}

impl Expansions {
    /// The closing delimiter is not empty, and no name has two replacements.
    pub closed spec fn wf(&self) -> bool {
        &&& self.close@.len() > 0
        &&& self.map.wf()
    }

    /// An empty set of macros with the given delimiters, no wrapper and the
    /// usual limit.
    pub fn new(delimiter: (&str, &str)) -> (e: Self)
        requires
            delimiter.1@.len() > 0,
        ensures
            e.wf(),
            e@ == (Rules {
                limit: RECURSION_LIMIT as nat,
                open: delimiter.0@,
                close: delimiter.1@,
                before: Seq::<char>::empty(),
                after: Seq::<char>::empty(),
                map: Map::<Seq<char>, Seq<char>>::empty(),
            }),
    {
        let map: VecMap<String, String> = VecMap::new();
        assert(map@.map_values(|v: String| v@) =~= Map::<Seq<char>, Seq<char>>::empty());
        Self::from_map(delimiter, map)
    }

    /// Sets what is put before and after each replacement.
    pub fn with_wrapper(self, wrapper: (&str, &str)) -> (e: Self)
        requires
            self.wf(),
        ensures
            e.wf(),
            e@ == (Rules { before: wrapper.0@, after: wrapper.1@, ..self@ }),
    {
        let mut this = self;
        this.before = to_chars(wrapper.0);
        this.after = to_chars(wrapper.1);
        this
    }

    /// Sets the number of substitutions at which an expansion gives up.
    pub fn with_recursion_limit(self, recursion_limit: usize) -> (e: Self)
        requires
            self.wf(),
        ensures
            e.wf(),
            e@ == (Rules { limit: recursion_limit as nat, ..self@ }),
    {
        let mut this = self;
        this.recursion_limit = recursion_limit;
        this
    }

    /// The macros of `map` with the given delimiters, no wrapper and the
    /// usual limit.
    pub fn from_map(delimiter: (&str, &str), map: VecMap<String, String>) -> (e: Self)
        requires
            delimiter.1@.len() > 0,
            map.wf(),
        ensures
            e.wf(),
            e@ == (Rules {
                limit: RECURSION_LIMIT as nat,
                open: delimiter.0@,
                close: delimiter.1@,
                before: Seq::<char>::empty(),
                after: Seq::<char>::empty(),
                map: map@.map_values(|v: String| v@),
            }),
    {
        let e = Expansions {
            recursion_limit: RECURSION_LIMIT,
            open: to_chars(delimiter.0),
            close: to_chars(delimiter.1),
            before: Vec::new(),
            after: Vec::new(),
            map,
        };
        e
    }

    /// Binds a name to a replacement, in place of the one that it had.
    pub fn add(&mut self, key: String, val: String)
        requires
            old(self).wf(),
        ensures
            final(self).wf(),
            final(self)@ == (Rules { map: old(self)@.map.insert(key@, val@), ..old(self)@ }),
    {
        let ghost before = self.map@;
        self.map.insert(key, val);
        proof {
            assert(before.insert(key@, val).map_values(|v: String| v@) =~= before.map_values(
                |v: String| v@,
            ).insert(key@, val@));
        }
    }

    /// The replacement of a name, if it has one.
    pub fn get(&self, key: &String) -> (r: Option<&String>)
        requires
            self.wf(),
        ensures
            r is Some <==> self@.map.contains_key(key@),
            r matches Some(v) ==> v@ == self@.map[key@],
    {
        self.map.get(key)
    }

    /// A copy of the macros.
    pub fn replica(&self) -> (e: Self)
        requires
            self.wf(),
        ensures
            e.wf(),
            e@ == self@,
    {
        let mut map: VecMap<String, String> = VecMap::new();
        let n = self.map.len();
        let mut i: usize = 0;
        proof {
            self.map.lemma_entries();
        }
        let ghost keys = self.map.keys();
        let ghost whole = self.map@;
        assert(map@ =~= whole.restrict(keys.take(0).to_set()));
        while i < n
            invariant
                i <= n,
                n == keys.len(),
                self.wf(),
                map.wf(),
                keys == self.map.keys(),
                whole == self.map@,
                map@ == whole.restrict(keys.take(i as int).to_set()),
            decreases n - i,
        {
            let key = self.map.key_at(i).clone();
            let val = self.map.value_at(i).clone();
            proof {
                self.map.lemma_entries();
                let k = keys[i as int];
                assert(whole[k] == val);
                let done = keys.take(i as int).to_set();
                let next = keys.take(i as int + 1).to_set();
                assert(keys.take(i as int + 1) =~= keys.take(i as int).push(k));
                assert(next =~= done.insert(k)) by {
                    assert forall|q: Seq<char>| next.contains(q) <==> (done.contains(q) || q
                        == k) by {
                        let a = keys.take(i as int);
                        let b = a.push(k);
                        if b.contains(q) {
                            let j = choose|j: int| 0 <= j < b.len() && b[j] == q;
                            if j < a.len() {
                                assert(a[j] == q);
                            }
                        }
                        if a.contains(q) {
                            let j = choose|j: int| 0 <= j < a.len() && a[j] == q;
                            assert(b[j] == q);
                        }
                        if q == k {
                            assert(b[a.len() as int] == q);
                        }
                    }
                }
                assert(whole.restrict(done).insert(k, val) =~= whole.restrict(next));
            }
            map.insert(key, val);
            i += 1;
        }
        proof {
            assert(keys.take(n as int) =~= keys);
            assert(whole.restrict(keys.to_set()) =~= whole);
        }
        let mut open: Vec<char> = Vec::new();
        append(&mut open, &self.open);
        let mut close: Vec<char> = Vec::new();
        append(&mut close, &self.close);
        let mut before: Vec<char> = Vec::new();
        append(&mut before, &self.before);
        let mut after: Vec<char> = Vec::new();
        append(&mut after, &self.after);
        assert(open@ =~= self.open@ && close@ =~= self.close@ && before@ =~= self.before@ && after@
            =~= self.after@);
        Expansions { recursion_limit: self.recursion_limit, open, close, before, after, map }
    }

    /// Adds the macros of `expansions`; where both have a name, the
    /// replacement of `expansions` stays.
    pub fn extend(self, expansions: Expansions) -> (e: Self)
        requires
            self.wf(),
            expansions.wf(),
        ensures
            e.wf(),
            e@ == (Rules { map: self@.map.union_prefer_right(expansions@.map), ..self@ }),
    {
        let mut this = self;
        let n = expansions.map.len();
        let mut i: usize = 0;
        proof {
            expansions.map.lemma_entries();
        }
        let ghost more = expansions.map@.map_values(|v: String| v@);
        let ghost keys = expansions.map.keys();
        proof {
            assert(keys.take(0).to_set() =~= Set::<Seq<char>>::empty());
            assert(self@.map.union_prefer_right(more.restrict(Set::<Seq<char>>::empty()))
                =~= self@.map);
        }
        while i < n
            invariant
                i <= n,
                n == keys.len(),
                this.wf(),
                expansions.wf(),
                keys == expansions.map.keys(),
                more == expansions.map@.map_values(|v: String| v@),
                this@ == (Rules {
                    map: self@.map.union_prefer_right(
                        more.restrict(keys.take(i as int).to_set()),
                    ),
                    ..self@
                }),
            decreases n - i,
        {
            let key = expansions.map.key_at(i).clone();
            let val = expansions.map.value_at(i).clone();
            proof {
                expansions.map.lemma_entries();
                let k = keys[i as int];
                assert(key@ == k);
                assert(expansions.map@[k] == val);
                let done = keys.take(i as int).to_set();
                let next = keys.take(i as int + 1).to_set();
                assert(keys.take(i as int + 1) =~= keys.take(i as int).push(k));
                assert(next =~= done.insert(k)) by {
                    assert forall|q: Seq<char>| next.contains(q) <==> (done.contains(q) || q
                        == k) by {
                        let a = keys.take(i as int);
                        let b = a.push(k);
                        if b.contains(q) {
                            let j = choose|j: int| 0 <= j < b.len() && b[j] == q;
                            if j < a.len() {
                                assert(a[j] == q);
                            }
                        }
                        if a.contains(q) {
                            let j = choose|j: int| 0 <= j < a.len() && a[j] == q;
                            assert(b[j] == q);
                        }
                        if q == k {
                            assert(b[a.len() as int] == q);
                        }
                    }
                }
                assert(more.contains_key(k) && more[k] == val@);
                assert(self@.map.union_prefer_right(more.restrict(done)).insert(k, val@)
                    =~= self@.map.union_prefer_right(more.restrict(next)));
            }
            this.add(key, val);
            i += 1;
        }
        proof {
            assert(keys.take(n as int) =~= keys);
            assert(more.restrict(keys.to_set()) =~= more);
        }
        this
    }

    /// Where the reference that starts at `i` ends, if one starts there.
    fn match_at(&self, s: &Vec<char>, i: usize) -> (r: Option<usize>)
        requires
            self.wf(),
        ensures
            r matches Some(e) ==> reference_at(s@, self@.open, self@.close, i as int) == Some(
                e as int,
            ),
            r is None ==> reference_at(s@, self@.open, self@.close, i as int) is None,
    {
        proof {
            lemma_reference_at(s@, self.open@, self.close@, i as int);
        }
        if !matches_at(s, &self.open, i) {
            return None;
        }
        let stop = self.close[0];
        let n = s.len();
        let mut j: usize = i + self.open.len();
        proof {
            lemma_stop_from(s@, stop, j as int);
        }
        while j < n && s[j] != stop
            invariant
                j <= n,
                n == s@.len(),
                stop_from(s@, stop, i + self.open@.len()) == stop_from(s@, stop, j as int),
            decreases n - j,
        {
            j += 1;
        }
        if matches_at(s, &self.close, j) {
            Some(j + self.close.len())
        } else {
            None
        }
    }

    /// The leftmost reference in `s`.
    fn find(&self, s: &Vec<char>) -> (r: Option<(usize, usize)>)
        requires
            self.wf(),
        ensures
            r matches Some((i, e)) ==> reference_from(s@, self@.open, self@.close, 0) == Some(
                (i as int, e as int),
            ) && i + self@.open.len() + self@.close.len() <= e <= s@.len(),
            r is None ==> reference_from(s@, self@.open, self@.close, 0) is None,
    {
        let n = s.len();
        let mut i: usize = 0;
        while i < n
            invariant
                i <= n,
                n == s@.len(),
                self.wf(),
                reference_from(s@, self@.open, self@.close, 0) == reference_from(
                    s@,
                    self@.open,
                    self@.close,
                    i as int,
                ),
            decreases n - i,
        {
            proof {
                lemma_reference_at(s@, self.open@, self.close@, i as int);
            }
            match self.match_at(s, i) {
                Some(e) => {
                    return Some((i, e));
                },
                None => {},
            }
            i += 1;
        }
        None
    }

    /// The name inside the reference `s[i..e]`, if it is an identifier.
    fn canonicalize_identifier(&self, s: &Vec<char>, i: usize, e: usize) -> (r: Result<
        String,
        Error,
    >)
        requires
            self.wf(),
            i + self@.open.len() + self@.close.len() <= e <= s@.len(),
        ensures
            ({
                let id = identifier(s@.subrange(i as int, e as int), self@.open, self@.close);
                if valid_identifier(id) {
                    r matches Ok(name) && name@ == id
                } else {
                    r matches Err(x) && x@ == (Fault::InvalidIdentifier { id })
                }
            }),
    {
        let from = i + self.open.len();
        let to = e - self.close.len();
        proof {
            let text = s@.subrange(i as int, e as int);
            assert(text.subrange(self.open@.len() as int, text.len() - self.close@.len())
                =~= s@.subrange(from as int, to as int));
        }
        let id = trim(s, from, to);
        let name = collect(&id);
        if valid_name(&id) {
            Ok(name)
        } else {
            Err(Error::InvalidIdentifier { id: name })
        }
    }

    /// The replacement for the reference `s[i..e]`.
    fn resolve_match(&self, s: &Vec<char>, i: usize, e: usize) -> (r: Result<&String, Error>)
        requires
            self.wf(),
            i + self@.open.len() + self@.close.len() <= e <= s@.len(),
        ensures
            ({
                let id = identifier(s@.subrange(i as int, e as int), self@.open, self@.close);
                if !valid_identifier(id) {
                    r matches Err(x) && x@ == (Fault::InvalidIdentifier { id })
                } else if !self@.map.contains_key(id) {
                    r matches Err(x) && x@ == (Fault::UnknownExpansion { key: id })
                } else {
                    r matches Ok(v) && v@ == self@.map[id]
                }
            }),
    {
        let key = match self.canonicalize_identifier(s, i, e) {
            Ok(key) => key,
            Err(x) => {
                return Err(x);
            },
        };
        match self.map.get(&key) {
            Some(v) => Ok(v),
            None => Err(Error::UnknownExpansion { key }),
        }
    }

    /// Expands a text: replaces the leftmost reference by what its name
    /// stands for, until no reference is left.
    pub fn expand(&self, expression: String) -> (r: Result<String, Error>)
        requires
            self.wf(),
        ensures
            match expansion(self@, expression@, self@.limit) {
                Ok(s) => r matches Ok(t) && t@ == s,
                Err(f) => r matches Err(e) && e@ == f,
            },
    {
        let mut s = to_chars(expression.as_str());
        let mut guard: usize = self.recursion_limit;
        loop
            invariant
                self.wf(),
                expansion(self@, expression@, self@.limit) == expansion(self@, s@, guard as nat),
            decreases guard,
        {
            let (i, e) = match self.find(&s) {
                None => {
                    return Ok(collect(&s));
                },
                Some(found) => found,
            };
            let val = match self.resolve_match(&s, i, e) {
                Ok(val) => val,
                Err(x) => {
                    return Err(x);
                },
            };
            if guard <= 1 {
                return Err(
                    Error::RecursionLimitReached { key: val.clone(), limit: self.recursion_limit },
                );
            }
            guard -= 1;
            let mut next = slice_of(&s, 0, i);
            append(&mut next, &self.before);
            let rep = to_chars(val.as_str());
            append(&mut next, &rep);
            append(&mut next, &self.after);
            let tail = slice_of(&s, e, s.len());
            append(&mut next, &tail);
            proof {
                assert(next@ =~= substituted(
                    s@,
                    i as int,
                    e as int,
                    self@.before + val@ + self@.after,
                ));
            }
            s = next;
        }
    }
}

/// A text without a reference expands to itself, whatever the macros are.
pub proof fn lemma_expansion_without_reference(rules: Rules, s: Seq<char>)
    requires
        reference_from(s, rules.open, rules.close, 0) is None,
    ensures
        expansion(rules, s, rules.limit) == Ok::<Seq<char>, Fault>(s),
{
}

/// Where no macro is defined, a text that expands at all expands to itself.
pub proof fn lemma_expansion_without_macros(rules: Rules, s: Seq<char>)
    requires
        rules.map == Map::<Seq<char>, Seq<char>>::empty(),
    ensures
        expansion(rules, s, rules.limit) matches Ok(t) ==> t == s,
{
}

/// A reference to a name of one letter, between `{{` and `}}`.
pub open spec fn reference_to(name: char) -> Seq<char> {
    seq!['{', '{', name, '}', '}']
}

/// Two macros that stand for each other are never expanded to an end:
/// whatever the limit is, the expansion of a reference to one of them fails
/// with the limit reached.
pub proof fn lemma_mutual_recursion(rules: Rules, a: char, b: char, guard: nat)
    requires
        is_name_char(a),
        is_name_char(b),
        rules.open == seq!['{', '{'],
        rules.close == seq!['}', '}'],
        rules.before == Seq::<char>::empty(),
        rules.after == Seq::<char>::empty(),
        rules.map.contains_key(seq![a]),
        rules.map.contains_key(seq![b]),
        rules.map[seq![a]] == reference_to(b),
        rules.map[seq![b]] == reference_to(a),
    ensures
        expansion(rules, reference_to(a), guard) matches Err(
            Fault::RecursionLimitReached { limit, .. },
        ) && limit == rules.limit,
    decreases guard,
{
    let s = reference_to(a);
    let drop = |c: char| is_space(c);
    assert(occurs_at(s, rules.open, 0)) by {
        assert(s.subrange(0, 2) =~= rules.open);
    }
    assert(stop_from(s, '}', 2) == 3) by {
        reveal_with_fuel(stop_from, 3);
    }
    assert(occurs_at(s, rules.close, 3)) by {
        assert(s.subrange(3, 5) =~= rules.close);
    }
    assert(reference_from(s, rules.open, rules.close, 0) == Some((0int, 5int)));
    let inner = s.subrange(0, 5).subrange(2, 3);
    assert(inner =~= seq![a]);
    assert(!is_space(a));
    assert(trimmed(seq![a], drop) == seq![a]);
    let id = identifier(s.subrange(0, 5), rules.open, rules.close);
    assert(id == seq![a]);
    assert(valid_identifier(id));
    if guard > 1 {
        let next = substituted(s, 0, 5, rules.before + rules.map[id] + rules.after);
        assert(next =~= reference_to(b));
        lemma_mutual_recursion(rules, b, a, (guard - 1) as nat);
    }
}

} // verus!
