//! Character-level helpers for strings.
use vstd::prelude::*;
use vstd::std_specs::iter::IteratorSpec;

verus! {

/// `String::push` appends one character.
pub assume_specification[ String::push ](s: &mut String, ch: char)
    ensures
        final(s)@ == old(s)@.push(ch),
;

/// The characters of a string, in order.
pub fn to_chars(s: &str) -> (v: Vec<char>)
    ensures
        v@ == s@,
{
    let mut v: Vec<char> = Vec::new();
    for c in it: s.chars()
        invariant
            v@ == it.seq().take(it.index()),
            it.seq() == s@,
    {
        v.push(c);
    }
    v
}

/// The string made of the characters `chars[from..to]`.
pub fn from_chars(chars: &Vec<char>, from: usize, to: usize) -> (s: String)
    requires
        from <= to <= chars@.len(),
    ensures
        s@ == chars@.subrange(from as int, to as int),
{
    let mut s = String::new();
    let mut i: usize = from;
    while i < to
        invariant
            from <= i <= to <= chars@.len(),
            s@ == chars@.subrange(from as int, i as int),
        decreases to - i,
    {
        s.push(chars[i]);
        assert(chars@.subrange(from as int, i as int + 1) =~= chars@.subrange(
            from as int,
            i as int,
        ).push(chars@[i as int]));
        i += 1;
    }
    s
}

/// The string made of all the characters of `chars`.
pub fn collect(chars: &Vec<char>) -> (s: String)
    ensures
        s@ == chars@,
{
    let s = from_chars(chars, 0, chars.len());
    assert(chars@.subrange(0, chars@.len() as int) =~= chars@);
    s
}

/// Appends the characters of `more` to `buf`.
pub fn append(buf: &mut Vec<char>, more: &Vec<char>)
    ensures
        final(buf)@ == old(buf)@ + more@,
{
    let mut i: usize = 0;
    while i < more.len()
        invariant
            i <= more@.len(),
            buf@ == old(buf)@ + more@.take(i as int),
        decreases more@.len() - i,
    {
        buf.push(more[i]);
        assert(more@.take(i as int + 1) =~= more@.take(i as int).push(more@[i as int]));
        assert(buf@ =~= old(buf)@ + more@.take(i as int + 1));
        i += 1;
    }
    assert(more@.take(i as int) =~= more@);
}

/// Appends the characters of a string to `buf`.
pub fn append_str(buf: &mut Vec<char>, more: &str)
    ensures
        final(buf)@ == old(buf)@ + more@,
{
    let chars = to_chars(more);
    append(buf, &chars);
}

/// Whether `pat` stands in `s` at position `i`.
pub open spec fn occurs_at(s: Seq<char>, pat: Seq<char>, i: int) -> bool {
    &&& 0 <= i
    &&& i + pat.len() <= s.len()
    &&& s.subrange(i, i + pat.len()) == pat
}

/// The first position at or after `i` where `pat` stands in `s`.
pub open spec fn first_from(s: Seq<char>, pat: Seq<char>, i: int) -> Option<int>
    decreases s.len() - i,
{
    if i < 0 || i + pat.len() > s.len() {
        None
    } else if occurs_at(s, pat, i) {
        Some(i)
    } else if i >= s.len() {
        None
    } else {
        first_from(s, pat, i + 1)
    }
}

/// The first position where `pat` stands in `s`.
pub open spec fn first_match(s: Seq<char>, pat: Seq<char>) -> Option<int> {
    first_from(s, pat, 0)
}

/// Whether `pat` stands somewhere in `s`.
pub open spec fn includes(s: Seq<char>, pat: Seq<char>) -> bool {
    exists|i: int| occurs_at(s, pat, i)
}

/// `first_from` finds the least position, and only a position.
pub proof fn lemma_first_from(s: Seq<char>, pat: Seq<char>, i: int)
    requires
        0 <= i,
    ensures
        first_from(s, pat, i) matches Some(k) ==> i <= k && occurs_at(s, pat, k) && forall|j: int|
            i <= j < k ==> !occurs_at(s, pat, j),
        first_from(s, pat, i) is None ==> forall|j: int| i <= j ==> !occurs_at(s, pat, j),
    decreases s.len() - i,
{
    if i + pat.len() > s.len() {
    } else if occurs_at(s, pat, i) {
    } else if i >= s.len() {
        assert(s.subrange(i, i + pat.len()) =~= pat);
    } else {
        lemma_first_from(s, pat, i + 1);
    }
}

/// `first_match` finds a position exactly when `pat` stands somewhere.
pub proof fn lemma_first_match(s: Seq<char>, pat: Seq<char>)
    ensures
        first_match(s, pat) is Some <==> includes(s, pat),
        first_match(s, pat) matches Some(k) ==> occurs_at(s, pat, k) && forall|j: int|
            0 <= j < k ==> !occurs_at(s, pat, j),
{
    lemma_first_from(s, pat, 0);
}

/// Whether `pat` stands in `s` at position `i`.
pub fn matches_at(s: &Vec<char>, pat: &Vec<char>, i: usize) -> (b: bool)
    ensures
        b == occurs_at(s@, pat@, i as int),
{
    if pat.len() > s.len() || i > s.len() - pat.len() {
        return false;
    }
    let mut j: usize = 0;
    while j < pat.len()
        invariant
            j <= pat@.len(),
            i + pat@.len() <= s@.len(),
            s@.len() <= usize::MAX,
            forall|k: int| 0 <= k < j ==> s@[i + k] == pat@[k],
        decreases pat@.len() - j,
    {
        if s[i + j] != pat[j] {
            assert(s@.subrange(i as int, i + pat@.len())[j as int] != pat@[j as int]);
            return false;
        }
        j += 1;
    }
    assert(s@.subrange(i as int, i + pat@.len()) =~= pat@);
    true
}

/// The first position at or after `from` where `pat` stands in `s`.
pub fn find_from(s: &Vec<char>, pat: &Vec<char>, from: usize) -> (r: Option<usize>)
    ensures
        r matches Some(k) ==> first_from(s@, pat@, from as int) == Some(k as int),
        r is None ==> first_from(s@, pat@, from as int) is None,
{
    if pat.len() > s.len() {
        return None;
    }
    let last: usize = s.len() - pat.len();
    let mut i: usize = from;
    while i <= last
        invariant
            last == s@.len() - pat@.len(),
            from <= i,
            first_from(s@, pat@, from as int) == first_from(s@, pat@, i as int),
        decreases last + 1 - i,
    {
        if matches_at(s, pat, i) {
            return Some(i);
        }
        if i == last {
            proof {
                if i >= s@.len() {
                } else {
                    assert(first_from(s@, pat@, i + 1) is None);
                }
            }
            return None;
        }
        i += 1;
    }
    None
}

/// Whether `pat` stands somewhere in `s`.
pub fn contains(s: &Vec<char>, pat: &Vec<char>) -> (b: bool)
    ensures
        b == includes(s@, pat@),
{
    proof {
        lemma_first_match(s@, pat@);
    }
    find_from(s, pat, 0).is_some()
}

/// Whether `s` begins with `pat`.
pub fn starts_with(s: &Vec<char>, pat: &Vec<char>) -> (b: bool)
    ensures
        b == pat@.is_prefix_of(s@),
{
    let b = matches_at(s, pat, 0);
    proof {
        if b {
            assert(s@.subrange(0, pat@.len() as int) == pat@);
        }
        if pat@.is_prefix_of(s@) {
            assert(s@.subrange(0, pat@.len() as int) =~= pat@);
        }
    }
    b
}

/// The pieces of `s` between the occurrences of `sep`, found from the left.
/// With an empty `sep` the only piece is `s`.
pub open spec fn split(s: Seq<char>, sep: Seq<char>) -> Seq<Seq<char>>
    decreases s.len(),
{
    if sep.len() == 0 {
        seq![s]
    } else {
        match first_match(s, sep) {
            None => seq![s],
            Some(i) => if 0 <= i && i + sep.len() <= s.len() {
                seq![s.take(i)] + split(s.skip(i + sep.len()), sep)
            } else {
                seq![s]
            },
        }
    }
}

/// The pieces of `parts`, with `sep` between each two.
pub open spec fn join(parts: Seq<Seq<char>>, sep: Seq<char>) -> Seq<char>
    decreases parts.len(),
{
    if parts.len() == 0 {
        Seq::<char>::empty()
    } else if parts.len() == 1 {
        parts[0]
    } else {
        parts[0] + sep + join(parts.drop_first(), sep)
    }
}

/// Splitting gives at least one piece.
pub proof fn lemma_split_len(s: Seq<char>, sep: Seq<char>)
    ensures
        split(s, sep).len() >= 1,
    decreases s.len(),
{
    if sep.len() > 0 {
        match first_match(s, sep) {
            Some(i) => {
                if 0 <= i && i + sep.len() <= s.len() {
                    lemma_split_len(s.skip(i + sep.len()), sep);
                }
            },
            None => {},
        }
    }
}

/// Whether two texts are the same.
pub fn same_text(a: &str, b: &str) -> (r: bool)
    ensures
        r == (a@ == b@),
{
    let x = to_chars(a);
    let y = to_chars(b);
    same_chars(&x, &y)
}

/// Whether two lists of characters are the same.
pub fn same_chars(a: &Vec<char>, b: &Vec<char>) -> (r: bool)
    ensures
        r == (a@ == b@),
{
    if a.len() != b.len() {
        return false;
    }
    let mut i: usize = 0;
    while i < a.len()
        invariant
            i <= a@.len(),
            a@.len() == b@.len(),
            forall|k: int| 0 <= k < i ==> a@[k] == b@[k],
        decreases a@.len() - i,
    {
        if a[i] != b[i] {
            return false;
        }
        i += 1;
    }
    assert(a@ =~= b@);
    true
}

/// Joining pieces that do not hold the separator, and splitting again, gives
/// the pieces back. The separator is a single character.
pub proof fn lemma_split_join(parts: Seq<Seq<char>>, sep: Seq<char>)
    requires
        sep.len() == 1,
        parts.len() >= 1,
        forall|i: int| 0 <= i < parts.len() ==> !includes(#[trigger] parts[i], sep),
    ensures
        split(join(parts, sep), sep) == parts,
    decreases parts.len(),
{
    let whole = join(parts, sep);
    let head = parts[0];
    lemma_first_match(whole, sep);
    if parts.len() == 1 {
        assert(whole == head);
        assert(split(whole, sep) =~= parts);
    } else {
        let rest = parts.drop_first();
        assert forall|i: int| 0 <= i < rest.len() implies !includes(#[trigger] rest[i], sep) by {
            assert(rest[i] == parts[i + 1]);
        }
        lemma_split_join(rest, sep);
        let n = head.len() as int;
        assert(whole == head + sep + join(rest, sep));
        assert(whole.subrange(n, n + 1) =~= sep);
        assert(occurs_at(whole, sep, n));
        let k = first_match(whole, sep)->Some_0;
        if k < n {
            assert(head.subrange(k, k + 1) =~= whole.subrange(k, k + 1));
            assert(occurs_at(head, sep, k));
        }
        assert(k == n);
        assert(whole.take(n) =~= head);
        assert(whole.skip(n + 1) =~= join(rest, sep));
        assert(seq![head] + rest =~= parts);
    }
}

/// The views of a list of pieces.
pub open spec fn pieces(parts: Seq<Vec<char>>) -> Seq<Seq<char>> {
    parts.map_values(|p: Vec<char>| p@)
}

/// Splits `s` at the occurrences of `sep`.
pub fn split_chars(s: &Vec<char>, sep: &Vec<char>) -> (parts: Vec<Vec<char>>)
    requires
        sep@.len() > 0,
    ensures
        pieces(parts@) == split(s@, sep@),
{
    let mut parts: Vec<Vec<char>> = Vec::new();
    let mut start: usize = 0;
    let _ = s.len();
    proof {
        assert(s@.skip(0) =~= s@);
        assert(pieces(parts@) + split(s@, sep@) =~= split(s@, sep@));
    }
    loop
        invariant
            sep@.len() > 0,
            start <= s@.len(),
            s@.len() <= usize::MAX,
            split(s@, sep@) == pieces(parts@) + split(s@.skip(start as int), sep@),
        decreases s@.len() - start,
    {
        let ghost rest = s@.skip(start as int);
        proof {
            lemma_first_match(rest, sep@);
            lemma_first_from_skip(s@, sep@, start as int, start as int);
            lemma_first_from(s@, sep@, start as int);
        }
        match find_from(s, sep, start) {
            None => {
                let piece = slice_of(s, start, s.len());
                proof {
                    assert(piece@ =~= rest);
                    assert(split(rest, sep@) == seq![rest]);
                    assert(pieces(parts@.push(piece)) =~= pieces(parts@) + seq![rest]);
                }
                parts.push(piece);
                return parts;
            },
            Some(k) => {
                let piece = slice_of(s, start, k);
                proof {
                    let i = k - start;
                    assert(first_match(rest, sep@) == Some(i));
                    assert(piece@ =~= rest.take(i));
                    assert(rest.skip(i + sep@.len()) =~= s@.skip(k + sep@.len()));
                    assert(split(rest, sep@) == seq![rest.take(i)] + split(
                        rest.skip(i + sep@.len()),
                        sep@,
                    ));
                    assert(pieces(parts@.push(piece)) =~= pieces(parts@) + seq![rest.take(i)]);
                    assert(pieces(parts@) + (seq![rest.take(i)] + split(
                        s@.skip(k + sep@.len()),
                        sep@,
                    )) =~= (pieces(parts@) + seq![rest.take(i)]) + split(
                        s@.skip(k + sep@.len()),
                        sep@,
                    ));
                }
                parts.push(piece);
                start = k + sep.len();
            },
        }
    }
}

/// Searching a suffix finds what searching the whole finds from that place.
pub proof fn lemma_first_from_skip(s: Seq<char>, pat: Seq<char>, start: int, i: int)
    requires
        0 <= start <= i,
        start <= s.len(),
    ensures
        first_from(s.skip(start), pat, i - start) == match first_from(s, pat, i) {
            Some(k) => Some(k - start),
            None => None,
        },
    decreases s.len() - i,
{
    let t = s.skip(start);
    if i + pat.len() > s.len() {
    } else {
        assert(t.subrange(i - start, i - start + pat.len()) =~= s.subrange(i, i + pat.len()));
        if occurs_at(s, pat, i) {
        } else if i >= s.len() {
        } else {
            lemma_first_from_skip(s, pat, start, i + 1);
        }
    }
}

/// A copy of `s[from..to]`.
pub fn slice_of(s: &Vec<char>, from: usize, to: usize) -> (r: Vec<char>)
    requires
        from <= to <= s@.len(),
    ensures
        r@ == s@.subrange(from as int, to as int),
{
    let mut r: Vec<char> = Vec::new();
    let mut i: usize = from;
    while i < to
        invariant
            from <= i <= to <= s@.len(),
            r@ == s@.subrange(from as int, i as int),
        decreases to - i,
    {
        r.push(s[i]);
        assert(s@.subrange(from as int, i as int + 1) =~= s@.subrange(from as int, i as int).push(
            s@[i as int],
        ));
        i += 1;
    }
    r
}

/// Joins `parts` with `sep` between each two.
pub fn join_chars(parts: &Vec<Vec<char>>, sep: &Vec<char>) -> (r: Vec<char>)
    ensures
        r@ == join(pieces(parts@), sep@),
{
    let mut r: Vec<char> = Vec::new();
    let n = parts.len();
    let mut i: usize = n;
    proof {
        assert(pieces(parts@).skip(n as int) =~= Seq::<Seq<char>>::empty());
    }
    while i > 0
        invariant
            n == parts@.len(),
            i <= n,
            r@ == join(pieces(parts@).skip(i as int), sep@),
        decreases i,
    {
        i -= 1;
        let mut piece: Vec<char> = Vec::new();
        append(&mut piece, &parts[i]);
        proof {
            let tail = pieces(parts@).skip(i as int);
            assert(tail.drop_first() =~= pieces(parts@).skip(i as int + 1));
            assert(tail[0] == parts@[i as int]@);
            assert(piece@ =~= parts@[i as int]@);
        }
        if i + 1 < n {
            append(&mut piece, sep);
            append(&mut piece, &r);
            proof {
                assert(piece@ =~= parts@[i as int]@ + sep@ + r@);
            }
        } else {
            proof {
                assert(pieces(parts@).skip(i as int).len() == 1);
            }
        }
        r = piece;
    }
    proof {
        assert(pieces(parts@).skip(0) =~= pieces(parts@));
    }
    r
}

/// `s` with `rep` in place of each occurrence of `pat`, found from the left.
/// With an empty `pat` nothing is replaced.
pub open spec fn replaced(s: Seq<char>, pat: Seq<char>, rep: Seq<char>) -> Seq<char>
    decreases s.len(),
{
    if pat.len() == 0 {
        s
    } else {
        match first_match(s, pat) {
            None => s,
            Some(i) => if 0 <= i && i + pat.len() <= s.len() {
                s.take(i) + rep + replaced(s.skip(i + pat.len()), pat, rep)
            } else {
                s
            },
        }
    }
}

/// Replaces each occurrence of `pat` in `s` by `rep`.
pub fn replace_all(s: &Vec<char>, pat: &Vec<char>, rep: &Vec<char>) -> (r: Vec<char>)
    requires
        pat@.len() > 0,
    ensures
        r@ == replaced(s@, pat@, rep@),
{
    let mut out: Vec<char> = Vec::new();
    let mut start: usize = 0;
    let _ = s.len();
    proof {
        assert(s@.skip(0) =~= s@);
        assert(out@ + replaced(s@, pat@, rep@) =~= replaced(s@, pat@, rep@));
    }
    loop
        invariant
            pat@.len() > 0,
            start <= s@.len(),
            s@.len() <= usize::MAX,
            replaced(s@, pat@, rep@) == out@ + replaced(s@.skip(start as int), pat@, rep@),
        decreases s@.len() - start,
    {
        let ghost rest = s@.skip(start as int);
        proof {
            lemma_first_match(rest, pat@);
            lemma_first_from_skip(s@, pat@, start as int, start as int);
            lemma_first_from(s@, pat@, start as int);
        }
        match find_from(s, pat, start) {
            None => {
                let tail = slice_of(s, start, s.len());
                proof {
                    assert(tail@ =~= rest);
                }
                append(&mut out, &tail);
                return out;
            },
            Some(k) => {
                let piece = slice_of(s, start, k);
                let ghost before = out@;
                append(&mut out, &piece);
                append(&mut out, rep);
                proof {
                    let i = k - start;
                    assert(first_match(rest, pat@) == Some(i));
                    assert(piece@ =~= rest.take(i));
                    assert(rest.skip(i + pat@.len()) =~= s@.skip(k + pat@.len()));
                    assert(before + (rest.take(i) + rep@ + replaced(
                        s@.skip(k + pat@.len()),
                        pat@,
                        rep@,
                    )) =~= out@ + replaced(s@.skip(k + pat@.len()), pat@, rep@));
                }
                start = k + pat.len();
            },
        }
    }
}

/// The digits of a number, in base ten.
pub open spec fn digits(n: nat) -> Seq<char>
    decreases n,
{
    if n < 10 {
        seq![digit_char(n)]
    } else {
        digits(n / 10).push(digit_char(n % 10))
    }
}

/// The character of a digit.
pub open spec fn digit_char(d: nat) -> char {
    if d == 0 {
        '0'
    } else if d == 1 {
        '1'
    } else if d == 2 {
        '2'
    } else if d == 3 {
        '3'
    } else if d == 4 {
        '4'
    } else if d == 5 {
        '5'
    } else if d == 6 {
        '6'
    } else if d == 7 {
        '7'
    } else if d == 8 {
        '8'
    } else {
        '9'
    }
}

/// The character of a digit.
fn digit(d: usize) -> (c: char)
    requires
        d < 10,
    ensures
        c == digit_char(d as nat),
{
    if d == 0 {
        '0'
    } else if d == 1 {
        '1'
    } else if d == 2 {
        '2'
    } else if d == 3 {
        '3'
    } else if d == 4 {
        '4'
    } else if d == 5 {
        '5'
    } else if d == 6 {
        '6'
    } else if d == 7 {
        '7'
    } else if d == 8 {
        '8'
    } else {
        '9'
    }
}

/// Writes a number in base ten.
pub fn to_decimal(n: usize) -> (r: Vec<char>)
    ensures
        r@ == digits(n as nat),
    decreases n,
{
    if n < 10 {
        let mut r: Vec<char> = Vec::new();
        r.push(digit(n));
        r
    } else {
        let mut r = to_decimal(n / 10);
        r.push(digit(n % 10));
        r
    }
}

/// The Unicode white space characters.
pub open spec fn is_space(c: char) -> bool {
    let n = c as u32;
    ||| 0x09 <= n <= 0x0d
    ||| n == 0x20
    ||| n == 0x85
    ||| n == 0xa0
    ||| n == 0x1680
    ||| 0x2000 <= n <= 0x200a
    ||| n == 0x2028
    ||| n == 0x2029
    ||| n == 0x202f
    ||| n == 0x205f
    ||| n == 0x3000
}

/// Whether a character is white space.
pub fn is_whitespace(c: char) -> (b: bool)
    ensures
        b == is_space(c),
{
    let n: u32 = c as u32;
    (0x09 <= n && n <= 0x0d) || n == 0x20 || n == 0x85 || n == 0xa0 || n == 0x1680 || (0x2000 <= n
        && n <= 0x200a) || n == 0x2028 || n == 0x2029 || n == 0x202f || n == 0x205f || n == 0x3000
}

/// `s` without the leading and trailing characters that `drop` holds of.
pub open spec fn trimmed(s: Seq<char>, drop: spec_fn(char) -> bool) -> Seq<char>
    decreases s.len(),
{
    if s.len() == 0 {
        s
    } else if drop(s[0]) {
        trimmed(s.drop_first(), drop)
    } else if drop(s.last()) {
        trimmed(s.drop_last(), drop)
    } else {
        s
    }
}

/// Trimming `s[i..j]` where the characters before `i` and from `j` on are
/// dropped gives what trimming `s` gives.
proof fn lemma_trimmed_range(s: Seq<char>, drop: spec_fn(char) -> bool, i: int, j: int)
    requires
        0 <= i <= j <= s.len(),
        forall|k: int| 0 <= k < i ==> drop(s[k]),
        forall|k: int| j <= k < s.len() ==> drop(s[k]),
        i < j ==> !drop(s[i]),
    ensures
        trimmed(s, drop) == trimmed(s.subrange(i, j), drop),
    decreases s.len(),
{
    if s.len() == 0 {
        assert(s.subrange(i, j) =~= s);
    } else if i > 0 {
        let t = s.drop_first();
        assert(t.subrange(i - 1, j - 1) =~= s.subrange(i, j));
        assert forall|k: int| 0 <= k < i - 1 implies drop(t[k]) by {
            assert(t[k] == s[k + 1]);
        }
        assert forall|k: int| j - 1 <= k < t.len() implies drop(t[k]) by {
            assert(t[k] == s[k + 1]);
        }
        lemma_trimmed_range(t, drop, i - 1, j - 1);
    } else if i == j {
        // every character is dropped
        assert(drop(s[0]));
        let t = s.drop_first();
        assert forall|k: int| 0 <= k < t.len() implies drop(t[k]) by {
            assert(t[k] == s[k + 1]);
        }
        lemma_trimmed_range(t, drop, 0, 0);
        assert(t.subrange(0, 0) =~= s.subrange(0, 0));
    } else if j < s.len() {
        assert(!drop(s[0]));
        let t = s.drop_last();
        assert(t.subrange(i, j) =~= s.subrange(i, j));
        lemma_trimmed_range(t, drop, i, j);
    } else {
        assert(s.subrange(i, j) =~= s);
    }
}

/// What `p` says of a character: the results that a call of it may give.
pub open spec fn holds<P: Fn(char) -> bool>(p: P) -> spec_fn(char) -> bool {
    |c: char| call_ensures(p, (c,), true)
}

/// Whether `p` can be called on every character and answers each in one way.
pub open spec fn decides<P: Fn(char) -> bool>(p: P) -> bool {
    &&& forall|c: char| call_requires(p, (c,))
    &&& forall|c: char| !(call_ensures(p, (c,), true) && call_ensures(p, (c,), false))
}

/// Strips from both ends of `s` the characters that `predicate` holds of.
pub fn strip_with<P: Fn(char) -> bool>(s: &str, predicate: P) -> (r: String)
    requires
        decides(predicate),
    ensures
        r@ == trimmed(s@, holds(predicate)),
{
    let chars = to_chars(s);
    let ghost drop = holds(predicate);
    let n: usize = chars.len();
    let mut i: usize = 0;
    let mut go: bool = true;
    while go && i < n
        invariant
            n == chars@.len(),
            i <= n,
            decides(predicate),
            drop == holds(predicate),
            forall|k: int| 0 <= k < i ==> drop(chars@[k]),
            !go ==> i < n && !drop(chars@[i as int]),
        decreases n - i, if go { 1int } else { 0int },
    {
        if predicate(chars[i]) {
            i += 1;
        } else {
            go = false;
        }
    }
    let mut j: usize = n;
    let mut go: bool = true;
    while go && j > i
        invariant
            n == chars@.len(),
            i <= j <= n,
            decides(predicate),
            drop == holds(predicate),
            forall|k: int| j <= k < n ==> drop(chars@[k]),
            !go ==> i < j && !drop(chars@[j - 1]),
            i < n ==> !drop(chars@[i as int]),
        decreases j, if go { 1int } else { 0int },
    {
        if predicate(chars[j - 1]) {
            j -= 1;
        } else {
            go = false;
        }
    }
    let r = from_chars(&chars, i, j);
    proof {
        let t = chars@.subrange(i as int, j as int);
        if i < j {
            assert(!drop(chars@[i as int]));
            assert(!drop(chars@[j - 1]));
            assert(t[0] == chars@[i as int]);
            assert(t.last() == chars@[j - 1]);
            assert(trimmed(t, drop) == t);
        } else {
            assert(t =~= Seq::<char>::empty());
        }
        lemma_trimmed_range(chars@, drop, i as int, j as int);
    }
    r
}

/// `s` with `esc` before each of its characters.
pub open spec fn escaped(s: Seq<char>, esc: char) -> Seq<char>
    decreases s.len(),
{
    if s.len() == 0 {
        s
    } else {
        escaped(s.drop_last(), esc).push(esc).push(s.last())
    }
}

/// Puts `esc` before each character of `s`.
pub fn escape_all(s: &str, esc: char) -> (r: String)
    ensures
        r@ == escaped(s@, esc),
{
    let chars = to_chars(s);
    let mut r = String::new();
    let mut i: usize = 0;
    while i < chars.len()
        invariant
            i <= chars@.len(),
            r@ == escaped(chars@.take(i as int), esc),
        decreases chars@.len() - i,
    {
        r.push(esc);
        r.push(chars[i]);
        proof {
            let t = chars@.take(i as int + 1);
            assert(t.drop_last() =~= chars@.take(i as int));
            assert(t.last() == chars@[i as int]);
        }
        i += 1;
    }
    assert(chars@.take(i as int) =~= chars@);
    r
}

/// Whether `predicate` holds of every character of `s`.
pub fn check_contents_with<P: Fn(char) -> bool>(s: &str, predicate: P) -> (b: bool)
    requires
        decides(predicate),
    ensures
        b == forall|i: int| 0 <= i < s@.len() ==> #[trigger] holds(predicate)(s@[i]),
{
    let chars = to_chars(s);
    let mut i: usize = 0;
    while i < chars.len()
        invariant
            i <= chars@.len(),
            decides(predicate),
            chars@ == s@,
            forall|k: int| 0 <= k < i ==> #[trigger] holds(predicate)(s@[k]),
        decreases chars@.len() - i,
    {
        if !predicate(chars[i]) {
            assert(!holds(predicate)(s@[i as int]));
            return false;
        }
        i += 1;
    }
    true
}

} // verus!
