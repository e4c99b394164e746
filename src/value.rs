//! The generic configuration tree that every decoder reads, and the errors
//! that decoding reports.

use vstd::prelude::*;

verus! {

/// One node of a parsed configuration document.
#[derive(Debug, PartialEq)]
pub enum ConfigValue {
    Str(String),
    Int(i64),
    Bool(bool),
    /// A value of a kind that no field of the schema accepts (a float, a date),
    /// carried with its text.
    Other(String),
    Array(Vec<ConfigValue>),
    /// A table, as its entries in document order.
    Table(Vec<(String, ConfigValue)>),
}

/// Why a node could not be decoded.
#[derive(Debug, Clone, PartialEq, Eq)]
pub enum DecodeError {
    /// The node has none of the accepted shapes; holds the list of shapes.
    ShapeMismatch(String),
    /// The node has an accepted shape but a value outside the accepted ones.
    InvalidValue(String),
    /// An inheritance marker had `workspace = false` or a key it may not carry.
    InheritanceConflict(String),
    /// An inherited field has no value in the workspace defaults.
    MissingWorkspaceDefault(String),
    /// A version string did not parse, or carried a forbidden suffix.
    InvalidVersionFormat(String),
    /// A field stands where it has no meaning.
    ReservedFieldMisuse(String),
}

/// The error reported for a node of none of the accepted shapes.
pub fn shape_error(expected: &str) -> (r: DecodeError)
    ensures
        r matches DecodeError::ShapeMismatch(m) && m@ == expected@,
{
    DecodeError::ShapeMismatch(expected.to_string())
}

/// The error reported for a node of an accepted shape but a refused value.
pub fn value_error(expected: &str) -> (r: DecodeError)
    ensures
        r matches DecodeError::InvalidValue(m) && m@ == expected@,
{
    DecodeError::InvalidValue(expected.to_string())
}

/// Exact comparison of two strings by their characters.
pub fn str_eq(a: &str, b: &str) -> (r: bool)
    ensures
        r == (a@ == b@),
{
    let n = a.unicode_len();
    if n != b.unicode_len() {
        return false;
    }
    let mut i: usize = 0;
    while i < n
        invariant
            n == a@.len(),
            n == b@.len(),
            0 <= i <= n,
            a@.subrange(0, i as int) == b@.subrange(0, i as int),
        decreases n - i,
    {
        if a.get_char(i) != b.get_char(i) {
            return false;
        }
        assert(a@.subrange(0, i + 1) == a@.subrange(0, i as int).push(a@[i as int]));
        assert(b@.subrange(0, i + 1) == b@.subrange(0, i as int).push(b@[i as int]));
        i = i + 1;
    }
    assert(a@ == a@.subrange(0, n as int));
    assert(b@ == b@.subrange(0, n as int));
    true
}

/// The first entry of `key` in a table, if there is one.
pub open spec fn lookup(t: Seq<(String, ConfigValue)>, key: Seq<char>) -> Option<ConfigValue>
    decreases t.len(),
{
    if t.len() == 0 {
        None
    } else if t[0].0@ == key {
        Some(t[0].1)
    } else {
        lookup(t.drop_first(), key)
    }
}

/// Reads the first entry of `key` in a table.
pub fn table_get<'a>(t: &'a Vec<(String, ConfigValue)>, key: &str) -> (r: Option<&'a ConfigValue>)
    ensures
        r is Some <==> lookup(t@, key@) is Some,
        r is Some ==> *r->0 == lookup(t@, key@)->0,
        r is Some ==> exists|i: int| 0 <= i < t@.len() && *r->0 == t@[i].1,
{
    let mut i: usize = 0;
    assert(t@.subrange(0, t@.len() as int) =~= t@);
    while i < t.len()
        invariant
            0 <= i <= t@.len(),
            lookup(t@, key@) == lookup(t@.subrange(i as int, t@.len() as int), key@),
        decreases t@.len() - i,
    {
        let ghost rest = t@.subrange(i as int, t@.len() as int);
        assert(rest.drop_first() =~= t@.subrange(i + 1, t@.len() as int));
        if str_eq(t[i].0.as_str(), key) {
            return Some(&t[i].1);
        }
        i = i + 1;
    }
    None
}

/// The decimal text of a natural number.
pub open spec fn nat_text(n: nat) -> Seq<char>
    decreases n,
{
    if n < 10 {
        seq![digit_char(n)]
    } else {
        nat_text(n / 10).push(digit_char(n % 10))
    }
}

/// The character of a digit.
pub open spec fn digit_char(d: nat) -> char {
    if d == 0 { '0' } else if d == 1 { '1' } else if d == 2 { '2' } else if d == 3 { '3' }
    else if d == 4 { '4' } else if d == 5 { '5' } else if d == 6 { '6' } else if d == 7 { '7' }
    else if d == 8 { '8' } else { '9' }
}

/// The decimal text of an integer, with `-` before a negative one.
pub open spec fn int_text(n: int) -> Seq<char> {
    if n < 0 {
        seq!['-'] + nat_text((-n) as nat)
    } else {
        nat_text(n as nat)
    }
}

/// The value of a non-empty run of decimal digits.
pub open spec fn digits_value(s: Seq<char>) -> int
    decreases s.len(),
{
    if s.len() == 0 {
        0
    } else {
        digits_value(s.drop_last()) * 10 + (s.last() as int - '0' as int)
    }
}

/// Every character is a decimal digit.
pub open spec fn all_digits(s: Seq<char>) -> bool {
    forall|i: int| 0 <= i < s.len() ==> '0' <= #[trigger] s[i] && s[i] <= '9'
}

/// What reading an `i64` from text gives: an optional `+` or `-`, then one
/// or more digits whose signed value fits.
pub open spec fn i64_of_text(s: Seq<char>) -> Option<i64> {
    let neg = s.len() > 0 && s[0] == '-';
    let d = if s.len() > 0 && (s[0] == '+' || s[0] == '-') { s.drop_first() } else { s };
    let n = if neg { -digits_value(d) } else { digits_value(d) };
    if d.len() > 0 && all_digits(d) && i64::MIN <= n <= i64::MAX {
        Some(n as i64)
    } else {
        None
    }
}

/// The text of one digit.
fn digit_text(d: u64) -> (r: &'static str)
    requires
        d < 10,
    ensures
        r@ == seq![digit_char(d as nat)],
{
    proof {
        reveal_strlit("0");
        reveal_strlit("1");
        reveal_strlit("2");
        reveal_strlit("3");
        reveal_strlit("4");
        reveal_strlit("5");
        reveal_strlit("6");
        reveal_strlit("7");
        reveal_strlit("8");
        reveal_strlit("9");
    }
    let r = if d == 0 { "0" } else if d == 1 { "1" } else if d == 2 { "2" } else if d == 3 { "3" }
        else if d == 4 { "4" } else if d == 5 { "5" } else if d == 6 { "6" } else if d == 7 { "7" }
        else if d == 8 { "8" } else { "9" };
    assert(r@ =~= seq![digit_char(d as nat)]);
    r
}

/// The decimal text of a natural number.
pub fn nat_to_text(n: u64) -> (r: String)
    ensures
        r@ == nat_text(n as nat),
    decreases n,
{
    if n < 10 {
        digit_text(n).to_string()
    } else {
        let head = nat_to_text(n / 10);
        let r = head.concat(digit_text(n % 10));
        assert(r@ =~= nat_text(n as nat));
        r
    }
}

/// The decimal text of an integer, with `-` before a negative one.
pub fn int_to_text(n: i64) -> (r: String)
    ensures
        r@ == int_text(n as int),
{
    if n < 0 {
        let m: u64 = (0i128 - n as i128) as u64;
        let r = "-".to_string().concat(nat_to_text(m).as_str());
        proof {
            reveal_strlit("-");
            assert(r@ =~= int_text(n as int));
        }
        r
    } else {
        nat_to_text(n as u64)
    }
}

/// Relies on `str::parse::<i64>` (`FromStr` for `i64`): an optional `+` or
/// `-` sign followed by decimal digits, within range, else an error.
#[verifier::external_body]
pub(crate) fn text_to_i64(s: &str) -> (r: Option<i64>)
    ensures
        r == i64_of_text(s@),
{
    s.parse::<i64>().ok()
}

/// Looking a key up after one more entry: an earlier entry of the key
/// still wins.
pub proof fn lemma_lookup_push(t: Seq<(String, ConfigValue)>, e: (String, ConfigValue), k: Seq<char>)
    ensures
        lookup(t.push(e), k) == (if lookup(t, k) is Some {
            lookup(t, k)
        } else if e.0@ == k {
            Some(e.1)
        } else {
            None
        }),
    decreases t.len(),
{
    if t.len() == 0 {
        assert(t.push(e).drop_first() =~= t);
    } else {
        assert(t.push(e).drop_first() =~= t.drop_first().push(e));
        lemma_lookup_push(t.drop_first(), e, k);
    }
}

/// Appends an entry to a table.
pub fn put_entry(t: &mut Vec<(String, ConfigValue)>, key: &str, val: ConfigValue)
    ensures
        final(t)@.len() == old(t)@.len() + 1,
        final(t)@.subrange(0, old(t)@.len() as int) == old(t)@,
        final(t)@.last().0@ == key@,
        forall|k: Seq<char>|
            #[trigger] lookup(final(t)@, k) == (if lookup(old(t)@, k) is Some {
                lookup(old(t)@, k)
            } else if k == key@ {
                Some(val)
            } else {
                None
            }),
{
    let ghost t0 = t@;
    t.push((key.to_string(), val));
    proof {
        assert forall|k: Seq<char>|
            #[trigger] lookup(t@, k) == (if lookup(t0, k) is Some {
                lookup(t0, k)
            } else if k == key@ {
                Some(val)
            } else {
                None
            }) by {
            lemma_lookup_push(t0, t@.last(), k);
        }
        assert(t@.subrange(0, t0.len() as int) =~= t0);
    }
}

/// The order of texts: character by character, a proper prefix first (the
/// order of `String`).
pub open spec fn text_lt(a: Seq<char>, b: Seq<char>) -> bool
    decreases a.len(),
{
    if a.len() == 0 {
        b.len() > 0
    } else if b.len() == 0 {
        false
    } else if a[0] != b[0] {
        a[0] < b[0]
    } else {
        text_lt(a.drop_first(), b.drop_first())
    }
}

/// Of two different texts, one comes first.
pub proof fn lemma_text_lt_total(a: Seq<char>, b: Seq<char>)
    requires
        a != b,
    ensures
        text_lt(a, b) || text_lt(b, a),
    decreases a.len(),
{
    if a.len() == 0 && b.len() == 0 {
        assert(a =~= b);
    } else if a.len() == 0 || b.len() == 0 {
    } else if a[0] != b[0] {
        assert(a[0] < b[0] || b[0] < a[0]);
    } else {
        if a.drop_first() == b.drop_first() {
            assert(a =~= seq![a[0]] + a.drop_first());
            assert(b =~= seq![b[0]] + b.drop_first());
        }
        lemma_text_lt_total(a.drop_first(), b.drop_first());
    }
}

/// Whether `a` comes before `b` in the order of texts.
pub fn text_less(a: &str, b: &str) -> (r: bool)
    ensures
        r == text_lt(a@, b@),
{
    let n = a.unicode_len();
    let m = b.unicode_len();
    let mut i: usize = 0;
    assert(a@.subrange(0, n as int) =~= a@);
    assert(b@.subrange(0, m as int) =~= b@);
    while i < n && i < m
        invariant
            n == a@.len(),
            m == b@.len(),
            0 <= i <= n,
            i <= m,
            text_lt(a@, b@) == text_lt(a@.subrange(i as int, n as int), b@.subrange(i as int, m as int)),
        decreases n - i,
    {
        let c = a.get_char(i);
        let d = b.get_char(i);
        let ghost sa = a@.subrange(i as int, n as int);
        let ghost sb = b@.subrange(i as int, m as int);
        assert(sa[0] == c && sb[0] == d);
        if c != d {
            return c < d;
        }
        assert(sa.drop_first() =~= a@.subrange(i + 1, n as int));
        assert(sb.drop_first() =~= b@.subrange(i + 1, m as int));
        i = i + 1;
    }
    i < m
}

/// The position of the first entry of `key`, or -1.
pub open spec fn key_index(t: Seq<(String, ConfigValue)>, key: Seq<char>) -> int
    decreases t.len(),
{
    if t.len() == 0 {
        -1
    } else if t[0].0@ == key {
        0
    } else {
        let r = key_index(t.drop_first(), key);
        if r < 0 {
            -1
        } else {
            r + 1
        }
    }
}

/// The first entry of a key is the one at its position.
pub proof fn lemma_key_index(t: Seq<(String, ConfigValue)>, key: Seq<char>)
    ensures
        key_index(t, key) < t.len(),
        key_index(t, key) >= 0 ==> lookup(t, key) == Some(t[key_index(t, key)].1),
        key_index(t, key) < 0 ==> lookup(t, key) is None,
    decreases t.len(),
{
    if t.len() > 0 {
        lemma_key_index(t.drop_first(), key);
    }
}

} // verus!
