//! Comparisons of a named variable with a number: `<var> <op> <number>`.
use crate::expression::error::{Error, Fault};
use crate::util::string::{from_chars, to_chars};
use crate::util::table::VecMap;
use vstd::prelude::*;

verus! {

/// One of the six comparisons.
#[derive(Debug, Clone, Copy, PartialEq, Eq, Structural)]
pub enum Comparator {
    Eq,
    Ne,
    Lt,
    Le,
    Ge,
    Gt,
}

/// The classes of characters that a comparison is made of.
#[derive(Debug, Clone, Copy, PartialEq, Eq, Structural)]
pub enum Class {
    /// The space character.
    Space,
    /// Letters, digits, `.`, `_` and `-`.
    Variable,
    /// The ten digits.
    Digit,
}

impl Class {
    /// Whether a character belongs to the class.
    pub open spec fn has(self, c: char) -> bool {
        match self {
            Class::Space => c == ' ',
            Class::Variable => ('a' <= c <= 'z') || ('A' <= c <= 'Z') || ('0' <= c <= '9') || c
                == '.' || c == '_' || c == '-',
            Class::Digit => '0' <= c <= '9',
        }
    }

    /// Whether a character belongs to the class.
    fn holds(self, c: char) -> (b: bool)
        ensures
            b == self.has(c),
    {
        match self {
            Class::Space => c == ' ',
            Class::Variable => ('a' <= c && c <= 'z') || ('A' <= c && c <= 'Z') || ('0' <= c && c
                <= '9') || c == '.' || c == '_' || c == '-',
            Class::Digit => '0' <= c && c <= '9',
        }
    }
}

/// Where the run of characters of `class` that starts at `i` ends.
pub open spec fn run_end(s: Seq<char>, class: Class, i: int) -> int
    decreases s.len() - i,
{
    if i < 0 || i >= s.len() {
        if i < 0 { i } else { s.len() as int }
    } else if class.has(s[i]) {
        run_end(s, class, i + 1)
    } else {
        i
    }
}

/// A run ends at or after its start, inside the text.
pub proof fn lemma_run_end(s: Seq<char>, class: Class, i: int)
    requires
        0 <= i <= s.len(),
    ensures
        i <= run_end(s, class, i) <= s.len(),
    decreases s.len() - i,
{
    if i < s.len() && class.has(s[i]) {
        lemma_run_end(s, class, i + 1);
    }
}

/// The operator that stands at `i`, and its length. The operators of two
/// characters come first.
pub open spec fn operator_at(s: Seq<char>, i: int) -> Option<(Comparator, int)> {
    if 0 <= i && i + 1 < s.len() && s[i] == '<' && s[i + 1] == '=' {
        Some((Comparator::Le, 2))
    } else if 0 <= i && i + 1 < s.len() && s[i] == '>' && s[i + 1] == '=' {
        Some((Comparator::Ge, 2))
    } else if 0 <= i && i + 1 < s.len() && s[i] == '=' && s[i + 1] == '=' {
        Some((Comparator::Eq, 2))
    } else if 0 <= i && i + 1 < s.len() && s[i] == '!' && s[i + 1] == '=' {
        Some((Comparator::Ne, 2))
    } else if 0 <= i < s.len() && s[i] == '<' {
        Some((Comparator::Lt, 1))
    } else if 0 <= i < s.len() && s[i] == '>' {
        Some((Comparator::Gt, 1))
    } else {
        None
    }
}

/// The parts of a comparison: where the variable, the operator and the
/// number start and end.
pub struct Capture {
    pub variable: (int, int),
    pub operator: (int, int),
    pub number: (int, int),
}

/// The parts of the comparison that `s` is: spaces, a variable, spaces, an
/// operator, spaces, a number, spaces, and nothing else.
pub open spec fn captured(s: Seq<char>) -> Option<Capture> {
    let a = run_end(s, Class::Space, 0);
    let b = run_end(s, Class::Variable, a);
    let c = run_end(s, Class::Space, b);
    match operator_at(s, c) {
        None => None,
        Some((_, n)) => {
            let d = run_end(s, Class::Space, c + n);
            let e = run_end(s, Class::Digit, d);
            let f = run_end(s, Class::Space, e);
            if a < b && d < e && f == s.len() {
                Some(Capture { variable: (a, b), operator: (c, c + n), number: (d, e) })
            } else {
                None
            }
        },
    }
}

/// The number that a sequence of digits writes, in base ten.
pub open spec fn decimal(digits: Seq<char>) -> nat
    decreases digits.len(),
{
    if digits.len() == 0 {
        0
    } else {
        (decimal(digits.drop_last()) * 10 + (digits.last() as u32 - '0' as u32)) as nat
    }
}

/// Whether every character is a digit.
pub open spec fn all_digits(s: Seq<char>) -> bool {
    forall|i: int| 0 <= i < s.len() ==> Class::Digit.has(#[trigger] s[i])
}

/// The operator that a text names.
pub open spec fn operator_of(s: Seq<char>) -> Option<Comparator> {
    if s == seq!['=', '='] {
        Some(Comparator::Eq)
    } else if s == seq!['!', '='] {
        Some(Comparator::Ne)
    } else if s == seq!['>', '='] {
        Some(Comparator::Ge)
    } else if s == seq!['<', '='] {
        Some(Comparator::Le)
    } else if s == seq!['>'] {
        Some(Comparator::Gt)
    } else if s == seq!['<'] {
        Some(Comparator::Lt)
    } else {
        None
    }
}

/// Whether `lhs <op> rhs` holds.
pub open spec fn holds(lhs: int, op: Comparator, rhs: int) -> bool {
    match op {
        Comparator::Eq => lhs == rhs,
        Comparator::Ne => lhs != rhs,
        Comparator::Ge => lhs >= rhs,
        Comparator::Le => lhs <= rhs,
        Comparator::Gt => lhs > rhs,
        Comparator::Lt => lhs < rhs,
    }
}

/// A compiled comparison, as plain values.
pub struct Relation {
    pub lhs: Seq<char>,
    pub op: Comparator,
    pub rhs: u64,
}

/// The comparison that a text is, if it is one and its number fits.
pub open spec fn relation_of(s: Seq<char>) -> Option<Relation> {
    match captured(s) {
        None => None,
        Some(cap) => {
            let number = decimal(s.subrange(cap.number.0, cap.number.1));
            match operator_at(s, cap.operator.0) {
                Some((op, _)) if number <= u64::MAX => Some(
                    Relation {
                        lhs: s.subrange(cap.variable.0, cap.variable.1),
                        op,
                        rhs: number as u64,
                    },
                ),
                _ => None,
            }
        },
    }
}

/// Where the run of characters of `class` that starts at `i` ends.
fn skip_run(s: &Vec<char>, class: Class, i: usize) -> (j: usize)
    requires
        i <= s@.len(),
    ensures
        j == run_end(s@, class, i as int),
        i <= j <= s@.len(),
{
    let mut j: usize = i;
    while j < s.len() && class.holds(s[j])
        invariant
            i <= j <= s@.len(),
            run_end(s@, class, i as int) == run_end(s@, class, j as int),
        decreases s@.len() - j,
    {
        j += 1;
    }
    j
}

/// The operator that stands at `i`, and its length.
fn take_operator(s: &Vec<char>, i: usize) -> (r: Option<(Comparator, usize)>)
    requires
        i <= s@.len(),
    ensures
        r matches Some((op, n)) ==> operator_at(s@, i as int) == Some((op, n as int)) && i + n
            <= s@.len() && 1 <= n <= 2,
        r is None ==> operator_at(s@, i as int) is None,
{
    let n = s.len();
    if i >= n {
        return None;
    }
    let c = s[i];
    let two = i + 1 < n && s[i + 1] == '=';
    if c == '<' && two {
        Some((Comparator::Le, 2))
    } else if c == '>' && two {
        Some((Comparator::Ge, 2))
    } else if c == '=' && two {
        Some((Comparator::Eq, 2))
    } else if c == '!' && two {
        Some((Comparator::Ne, 2))
    } else if c == '<' {
        Some((Comparator::Lt, 1))
    } else if c == '>' {
        Some((Comparator::Gt, 1))
    } else {
        None
    }
}

/// The parts of the comparison that `s` is.
fn capture_chars(s: &Vec<char>) -> (r: Option<((usize, usize), (usize, usize), (usize, usize))>)
    ensures
        match captured(s@) {
            None => r is None,
            Some(cap) => r matches Some(x) && x.0.0 == cap.variable.0 && x.0.1 == cap.variable.1
                && x.1.0 == cap.operator.0 && x.1.1 == cap.operator.1 && x.2.0 == cap.number.0
                && x.2.1 == cap.number.1 && x.0.0 < x.0.1 <= x.1.0 < x.1.1 <= x.2.0 < x.2.1
                <= s@.len(),
        },
{
    let len = s.len();
    let a = skip_run(s, Class::Space, 0);
    let b = skip_run(s, Class::Variable, a);
    let c = skip_run(s, Class::Space, b);
    match take_operator(s, c) {
        None => None,
        Some((_, n)) => {
            let d = skip_run(s, Class::Space, c + n);
            let e = skip_run(s, Class::Digit, d);
            let f = skip_run(s, Class::Space, e);
            if a < b && d < e && f == len {
                Some(((a, b), (c, c + n), (d, e)))
            } else {
                None
            }
        },
    }
}

/// The number that the digits `s[from..to]` write, if it fits.
fn parse_number(s: &Vec<char>, from: usize, to: usize) -> (r: Option<u64>)
    requires
        from <= to <= s@.len(),
        all_digits(s@.subrange(from as int, to as int)),
    ensures
        match r {
            Some(n) => n == decimal(s@.subrange(from as int, to as int)),
            None => decimal(s@.subrange(from as int, to as int)) > u64::MAX,
        },
{
    let mut acc: u64 = 0;
    let mut i: usize = from;
    while i < to
        invariant
            from <= i <= to <= s@.len(),
            all_digits(s@.subrange(from as int, to as int)),
            acc == decimal(s@.subrange(from as int, i as int)),
        decreases to - i,
    {
        let c = s[i];
        proof {
            assert(s@.subrange(from as int, to as int)[i - from] == c);
            let t = s@.subrange(from as int, i + 1);
            assert(t.drop_last() =~= s@.subrange(from as int, i as int));
            assert(t.last() == c);
        }
        let digit: u64 = (c as u32 - '0' as u32) as u64;
        if acc > (u64::MAX - digit) / 10 {
            proof {
                lemma_decimal_grows(s@, from as int, i + 1, to as int);
            }
            return None;
        }
        acc = acc * 10 + digit;
        i += 1;
    }
    Some(acc)
}

/// More digits never write a smaller number.
proof fn lemma_decimal_grows(s: Seq<char>, from: int, mid: int, to: int)
    requires
        0 <= from <= mid <= to <= s.len(),
        all_digits(s.subrange(from, to)),
    ensures
        decimal(s.subrange(from, mid)) <= decimal(s.subrange(from, to)),
    decreases to - mid,
{
    if mid < to {
        assert forall|i: int| 0 <= i < to - 1 - from implies Class::Digit.has(
            #[trigger] s.subrange(from, to - 1)[i],
        ) by {
            assert(s.subrange(from, to)[i] == s.subrange(from, to - 1)[i]);
        }
        lemma_decimal_grows(s, from, mid, to - 1);
        let t = s.subrange(from, to);
        assert(t.drop_last() =~= s.subrange(from, to - 1));
        assert(Class::Digit.has(t[to - 1 - from]));
    }
}

/// A compiled comparison.
#[derive(Debug)]
pub struct Comparison {
    op: Comparator,
    lhs: String,
    rhs: u64,
}

impl View for Comparison {
    type V = Relation;

    closed spec fn view(&self) -> Relation {
        Relation { lhs: self.lhs@, op: self.op, rhs: self.rhs }
    }
}

impl Comparison {
    /// The three parts of a comparison: the variable, the operator and the
    /// number, as they stand in the text.
    pub fn capture(expression: &str) -> (r: Result<(String, String, String), Error>)
        ensures
            match captured(expression@) {
                Some(cap) => r matches Ok(parts) && parts.0@ == expression@.subrange(
                    cap.variable.0,
                    cap.variable.1,
                ) && parts.1@ == expression@.subrange(cap.operator.0, cap.operator.1) && parts.2@
                    == expression@.subrange(cap.number.0, cap.number.1),
                None => r matches Err(e) && e@ == (Fault::FailedCapture {
                    expression: expression@,
                }),
            },
    {
        let chars = to_chars(expression);
        match capture_chars(&chars) {
            None => Err(Error::FailedCapture { expression: expression.to_owned() }),
            Some((v, o, n)) => Ok(
                (
                    from_chars(&chars, v.0, v.1),
                    from_chars(&chars, o.0, o.1),
                    from_chars(&chars, n.0, n.1),
                ),
            ),
        }
    }

    /// Compiles a comparison. A text that is no comparison, or whose number
    /// does not fit, is refused.
    pub fn new(expression: &str) -> (r: Result<Self, Error>)
        ensures
            match relation_of(expression@) {
                Some(rel) => r matches Ok(c) && c@ == rel,
                None => r matches Err(e) && e@ == (Fault::FailedCapture {
                    expression: expression@,
                }),
            },
    {
        let chars = to_chars(expression);
        let (v, o, n) = match capture_chars(&chars) {
            None => {
                return Err(Error::FailedCapture { expression: expression.to_owned() });
            },
            Some(parts) => parts,
        };
        let op = match take_operator(&chars, o.0) {
            Some((op, _)) => op,
            None => {
                return Err(Error::FailedCapture { expression: expression.to_owned() });
            },
        };
        proof {
            lemma_run_digits(chars@, n.0 as int);
        }
        match parse_number(&chars, n.0, n.1) {
            Some(rhs) => Ok(Comparison { op, lhs: from_chars(&chars, v.0, v.1), rhs }),
            None => Err(Error::FailedCapture { expression: expression.to_owned() }),
        }
    }
}

/// A run of digits holds only digits.
proof fn lemma_run_digits(s: Seq<char>, i: int)
    requires
        0 <= i <= s.len(),
    ensures
        all_digits(s.subrange(i, run_end(s, Class::Digit, i))),
    decreases s.len() - i,
{
    lemma_run_end(s, Class::Digit, i);
    let e = run_end(s, Class::Digit, i);
    if i < s.len() && Class::Digit.has(s[i]) {
        lemma_run_digits(s, i + 1);
        lemma_run_end(s, Class::Digit, i + 1);
        assert forall|k: int| 0 <= k < e - i implies Class::Digit.has(
            #[trigger] s.subrange(i, e)[k],
        ) by {
            if k > 0 {
                assert(s.subrange(i, e)[k] == s.subrange(i + 1, e)[k - 1]);
            }
        }
    }
}

/// The values of the variables that comparisons may name.
#[derive(Debug)]
pub struct Comparables {
    variables: VecMap<String, u64>,
}

impl View for Comparables {
    type V = Map<Seq<char>, u64>;

    closed spec fn view(&self) -> Map<Seq<char>, u64> {
        self.variables@
    }
}

impl Comparables {
    /// No variable has two values.
    pub closed spec fn wf(&self) -> bool {
        self.variables.wf()
    }

    /// The variables of `variables`.
    pub fn from_map(variables: VecMap<String, u64>) -> (c: Self)
        requires
            variables.wf(),
        ensures
            c.wf(),
            c@ == variables@,
    {
        Comparables { variables }
    }

    /// The value of a variable.
    pub fn variable(&self, variable: &str) -> (r: Result<u64, Error>)
        requires
            self.wf(),
        ensures
            match r {
                Ok(n) => self@.contains_key(variable@) && n == self@[variable@],
                Err(e) => !self@.contains_key(variable@) && e@ == (Fault::UnknownVariable {
                    variable: variable@,
                }),
            },
    {
        let name = variable.to_owned();
        match self.variables.get(&name) {
            Some(n) => Ok(*n),
            None => Err(Error::UnknownVariable { variable: name }),
        }
    }

    /// The number that a text of digits writes.
    pub fn literal(literal: &str) -> (r: Result<u64, Error>)
        ensures
            match r {
                Ok(n) => literal@.len() > 0 && all_digits(literal@) && n == decimal(literal@),
                Err(e) => !(literal@.len() > 0 && all_digits(literal@) && decimal(literal@)
                    <= u64::MAX) && e@ == (Fault::FailedCapture { expression: literal@ }),
            },
    {
        let chars = to_chars(literal);
        let n = chars.len();
        let end = skip_run(&chars, Class::Digit, 0);
        proof {
            lemma_run_digits(chars@, 0);
            assert(chars@.subrange(0, n as int) =~= chars@);
            if end < n {
                lemma_run_stops(chars@, Class::Digit, 0);
            }
        }
        if n == 0 || end < n {
            return Err(Error::FailedCapture { expression: literal.to_owned() });
        }
        match parse_number(&chars, 0, n) {
            Some(v) => Ok(v),
            None => Err(Error::FailedCapture { expression: literal.to_owned() }),
        }
    }

    /// The operator that a text names.
    pub fn operator(operator: &str) -> (r: Result<Comparator, Error>)
        ensures
            match operator_of(operator@) {
                Some(op) => r == Ok::<Comparator, Error>(op),
                None => r matches Err(e) && e@ == (Fault::UnknownOperator { operator: operator@ }),
            },
    {
        let s = to_chars(operator);
        let n = s.len();
        if n == 2 && s[1] == '=' {
            let c = s[0];
            if c == '=' {
                assert(s@ =~= seq!['=', '=']);
                return Ok(Comparator::Eq);
            } else if c == '!' {
                assert(s@ =~= seq!['!', '=']);
                return Ok(Comparator::Ne);
            } else if c == '>' {
                assert(s@ =~= seq!['>', '=']);
                return Ok(Comparator::Ge);
            } else if c == '<' {
                assert(s@ =~= seq!['<', '=']);
                return Ok(Comparator::Le);
            }
        } else if n == 1 {
            let c = s[0];
            if c == '>' {
                assert(s@ =~= seq!['>']);
                return Ok(Comparator::Gt);
            } else if c == '<' {
                assert(s@ =~= seq!['<']);
                return Ok(Comparator::Lt);
            }
        }
        proof {
            assert(seq!['=', '='].len() == 2 && seq!['!', '='].len() == 2 && seq!['>', '='].len()
                == 2 && seq!['<', '='].len() == 2 && seq!['>'].len() == 1 && seq!['<'].len() == 1);
            assert(seq!['=', '='][0] == '=' && seq!['=', '='][1] == '=');
            assert(seq!['!', '='][0] == '!' && seq!['!', '='][1] == '=');
            assert(seq!['>', '='][0] == '>' && seq!['>', '='][1] == '=');
            assert(seq!['<', '='][0] == '<' && seq!['<', '='][1] == '=');
            assert(seq!['>'][0] == '>');
            assert(seq!['<'][0] == '<');
        }
        Err(Error::UnknownOperator { operator: operator.to_owned() })
    }

    /// Performs a comparison of two numbers.
    pub fn operation(lhs: u64, op: Comparator, rhs: u64) -> (b: bool)
        ensures
            b == holds(lhs as int, op, rhs as int),
    {
        match op {
            Comparator::Eq => lhs == rhs,
            Comparator::Ne => lhs != rhs,
            Comparator::Ge => lhs >= rhs,
            Comparator::Le => lhs <= rhs,
            Comparator::Gt => lhs > rhs,
            Comparator::Lt => lhs < rhs,
        }
    }

    /// Evaluates a comparison on the values of the variables.
    pub fn evaluate(&self, comparison: &Comparison) -> (r: Result<bool, Error>)
        requires
            self.wf(),
        ensures
            match compared(self@, comparison@) {
                Ok(b) => r == Ok::<bool, Error>(b),
                Err(f) => r matches Err(e) && e@ == f,
            },
    {
        match self.variable(comparison.lhs.as_str()) {
            Ok(lhs) => Ok(Self::operation(lhs, comparison.op, comparison.rhs)),
            Err(e) => Err(e),
        }
    }
}

/// What a comparison gives on the values of the variables.
pub open spec fn compared(vars: Map<Seq<char>, u64>, rel: Relation) -> Result<bool, Fault> {
    if vars.contains_key(rel.lhs) {
        Ok(holds(vars[rel.lhs] as int, rel.op, rel.rhs as int))
    } else {
        Err(Fault::UnknownVariable { variable: rel.lhs })
    }
}

/// A run stops before a character that is not of its class.
proof fn lemma_run_stops(s: Seq<char>, class: Class, i: int)
    requires
        0 <= i <= s.len(),
        run_end(s, class, i) < s.len(),
    ensures
        !class.has(s[run_end(s, class, i)]),
    decreases s.len() - i,
{
    if i < s.len() && class.has(s[i]) {
        lemma_run_stops(s, class, i + 1);
    }
}

/// A type with values that comparisons may name.
pub trait Parameters {
    /// The values, by name.
    spec fn parameters_spec(&self) -> Map<Seq<char>, u64>;

    /// What the values need of `self`.
    spec fn parameters_ready(&self) -> bool;

    /// The values, by name.
    fn parameters(&self) -> (r: VecMap<String, u64>)
        requires
            self.parameters_ready(),
        ensures
            r.wf(),
            r@ == self.parameters_spec(),
    ;
}

} // verus!
