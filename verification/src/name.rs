//! Names of ephemeral databases.
//!
//! A database name is the test's identifier, an underscore and a 32-bit
//! suffix written in decimal. Before a name is put into an administrative
//! statement it is made a plain identifier: letters, digits and underscores,
//! not starting with a digit.

use vstd::prelude::*;
use vstd::std_specs::iter::IteratorSpec;

verus! {

/// `String::push` appends one character at the end of the string and leaves
/// what was there before untouched.
pub assume_specification[ String::push ](s: &mut String, c: char)
    ensures
        final(s)@ == old(s)@.push(c),
;

/// A fresh 32-bit value from `rand::random`, which draws it from the
/// thread-local generator of the `rand` crate. Nothing is claimed of the
/// value: two calls may give anything, equal values included. The call
/// panics only where the operating system cannot seed that generator.
#[verifier::external_body]
fn random_suffix() -> (suffix: u32) {
    rand::random::<u32>()
}

/// The characters an identifier is made of.
pub open spec fn is_word_char(c: char) -> bool {
    ('a' <= c && c <= 'z') || ('A' <= c && c <= 'Z') || is_digit_char(c) || c == '_'
}

/// The ten decimal digits.
pub open spec fn is_digit_char(c: char) -> bool {
    '0' <= c && c <= '9'
}

/// A name that can stand unquoted in `CREATE DATABASE` and `DROP DATABASE`:
/// not empty, made of ASCII letters, digits and underscores, and not starting
/// with a digit.
pub open spec fn valid_identifier(s: Seq<char>) -> bool {
    &&& s.len() > 0
    &&& !is_digit_char(s[0])
    &&& forall|i: int| 0 <= i < s.len() ==> is_word_char(#[trigger] s[i])
}

/// What a character becomes in a sanitized name: itself if an identifier may
/// hold it, an underscore otherwise.
pub open spec fn replaced_char(c: char) -> char {
    if is_word_char(c) {
        c
    } else {
        '_'
    }
}

/// `s` with every character that an identifier cannot hold replaced by an
/// underscore.
pub open spec fn replaced(s: Seq<char>) -> Seq<char> {
    Seq::new(s.len(), |i: int| replaced_char(s[i]))
}

/// The identifier that stands for `s`: `replaced(s)`, with one underscore in
/// front where that would be empty or start with a digit.
pub open spec fn sanitized(s: Seq<char>) -> Seq<char> {
    if s.len() == 0 || is_digit_char(s[0]) {
        seq!['_'] + replaced(s)
    } else {
        replaced(s)
    }
}

/// The character of the decimal digit `d`.
pub open spec fn digit(d: nat) -> char
    recommends
        d < 10,
{
    ((d + 48) as u8) as char
}

/// `n` in decimal, most significant digit first, without leading zeros.
pub open spec fn decimal_digits(n: nat) -> Seq<char>
    decreases n,
{
    if n < 10 {
        seq![digit(n)]
    } else {
        decimal_digits(n / 10).push(digit(n % 10))
    }
}

/// The number that a sequence of decimal digits stands for.
pub open spec fn decimal_value(s: Seq<char>) -> nat
    decreases s.len(),
{
    if s.len() == 0 {
        0
    } else {
        decimal_value(s.drop_last()) * 10 + ((s.last() as u8 - 48) as nat)
    }
}

/// The database name for a test identifier and a suffix:
/// the identifier, an underscore, the suffix in decimal.
pub open spec fn name_with_suffix(test_identifier: Seq<char>, suffix: u32) -> Seq<char> {
    test_identifier + seq!['_'] + decimal_digits(suffix as nat)
}

/// Reading the digits of `n` back gives `n`.
pub proof fn lemma_decimal_round_trip(n: nat)
    ensures
        decimal_value(decimal_digits(n)) == n,
        decimal_digits(n).len() > 0,
        forall|i: int|
            0 <= i < decimal_digits(n).len() ==> is_digit_char(#[trigger] decimal_digits(n)[i]),
    decreases n,
{
    if n < 10 {
        let s = decimal_digits(n);
        assert(s.drop_last() =~= Seq::<char>::empty());
        assert(decimal_value(s.drop_last()) == 0);
    } else {
        lemma_decimal_round_trip(n / 10);
        let s = decimal_digits(n);
        assert(s.drop_last() =~= decimal_digits(n / 10));
        assert(s.last() == digit(n % 10));
    }
}

/// Two suffixes that are written alike are the same suffix.
pub proof fn lemma_decimal_injective(a: nat, b: nat)
    requires
        decimal_digits(a) == decimal_digits(b),
    ensures
        a == b,
{
    lemma_decimal_round_trip(a);
    lemma_decimal_round_trip(b);
}

/// Names made for one test identifier are distinct exactly when their
/// suffixes are: no two invocations that drew different suffixes share a
/// database.
pub proof fn lemma_distinct_suffixes_distinct_names(
    test_identifier: Seq<char>,
    first: u32,
    second: u32,
)
    ensures
        name_with_suffix(test_identifier, first) == name_with_suffix(test_identifier, second)
            <==> first == second,
{
    let head = test_identifier + seq!['_'];
    let a = name_with_suffix(test_identifier, first);
    let b = name_with_suffix(test_identifier, second);
    if a == b {
        assert(a.skip(head.len() as int) =~= decimal_digits(first as nat));
        assert(b.skip(head.len() as int) =~= decimal_digits(second as nat));
        lemma_decimal_injective(first as nat, second as nat);
    }
}

/// Sanitizing always gives a valid identifier.
pub proof fn lemma_sanitized_is_valid(s: Seq<char>)
    ensures
        valid_identifier(sanitized(s)),
{
    let r = replaced(s);
    assert forall|i: int| 0 <= i < r.len() implies is_word_char(#[trigger] r[i]) by {}
    if s.len() == 0 || is_digit_char(s[0]) {
        let t = seq!['_'] + r;
        assert forall|i: int| 0 <= i < t.len() implies is_word_char(#[trigger] t[i]) by {
            if i > 0 {
                assert(t[i] == r[i - 1]);
            }
        }
    } else {
        assert(r[0] == replaced_char(s[0]));
    }
}

/// Sanitizing leaves a valid identifier as it is.
pub proof fn lemma_sanitized_keeps_valid(s: Seq<char>)
    requires
        valid_identifier(s),
    ensures
        sanitized(s) == s,
{
    assert(replaced(s) =~= s);
}

/// Sanitizing twice is sanitizing once.
pub proof fn lemma_sanitized_idempotent(s: Seq<char>)
    ensures
        sanitized(sanitized(s)) == sanitized(s),
{
    lemma_sanitized_is_valid(s);
    lemma_sanitized_keeps_valid(sanitized(s));
}

/// The name made for a valid test identifier is a valid identifier itself,
/// so sanitizing does not change it: the database is called exactly
/// `<identifier>_<suffix>`.
pub proof fn lemma_name_of_valid_identifier(test_identifier: Seq<char>, suffix: u32)
    requires
        valid_identifier(test_identifier),
    ensures
        valid_identifier(name_with_suffix(test_identifier, suffix)),
        sanitized(name_with_suffix(test_identifier, suffix)) == name_with_suffix(
            test_identifier,
            suffix,
        ),
{
    let digits = decimal_digits(suffix as nat);
    let name = name_with_suffix(test_identifier, suffix);
    lemma_decimal_round_trip(suffix as nat);
    assert(name[0] == test_identifier[0]);
    assert forall|i: int| 0 <= i < name.len() implies is_word_char(#[trigger] name[i]) by {
        if i < test_identifier.len() {
            assert(name[i] == test_identifier[i]);
        } else if i == test_identifier.len() {
            assert(name[i] == '_');
        } else {
            assert(name[i] == digits[i - test_identifier.len() - 1]);
        }
    }
    lemma_sanitized_keeps_valid(name);
}

/// Sanitizing keeps names apart: for one test identifier, whatever it holds,
/// the databases of two invocations have the same name only if the
/// invocations drew the same suffix.
pub proof fn lemma_distinct_suffixes_distinct_databases(
    test_identifier: Seq<char>,
    first: u32,
    second: u32,
)
    ensures
        sanitized(name_with_suffix(test_identifier, first)) == sanitized(
            name_with_suffix(test_identifier, second),
        ) <==> first == second,
{
    let a = name_with_suffix(test_identifier, first);
    let b = name_with_suffix(test_identifier, second);
    let head = test_identifier.len() + 1;
    lemma_decimal_round_trip(first as nat);
    lemma_decimal_round_trip(second as nat);
    assert(a[0] == b[0]) by {
        if test_identifier.len() > 0 {
            assert(a[0] == test_identifier[0]);
            assert(b[0] == test_identifier[0]);
        }
    }
    if sanitized(a) == sanitized(b) {
        assert(replaced(a) =~= replaced(b)) by {
            if is_digit_char(a[0]) {
                assert(replaced(a) =~= sanitized(a).skip(1));
                assert(replaced(b) =~= sanitized(b).skip(1));
            }
        }
        assert(replaced(a).skip(head as int) =~= decimal_digits(first as nat)) by {
            assert forall|i: int| 0 <= i < decimal_digits(first as nat).len() implies replaced(
                a,
            )[i + head] == decimal_digits(first as nat)[i] by {
                assert(a[i + head] == decimal_digits(first as nat)[i]);
            }
        }
        assert(replaced(b).skip(head as int) =~= decimal_digits(second as nat)) by {
            assert forall|i: int| 0 <= i < decimal_digits(second as nat).len() implies replaced(
                b,
            )[i + head] == decimal_digits(second as nat)[i] by {
                assert(b[i + head] == decimal_digits(second as nat)[i]);
            }
        }
        lemma_decimal_injective(first as nat, second as nat);
    }
}

fn word_char(c: char) -> (r: bool)
    ensures
        r == is_word_char(c),
{
    (c >= 'a' && c <= 'z') || (c >= 'A' && c <= 'Z') || (c >= '0' && c <= '9') || c == '_'
}

fn digit_char(c: char) -> (r: bool)
    ensures
        r == is_digit_char(c),
{
    c >= '0' && c <= '9'
}

/// Tells whether `name` can stand unquoted in an administrative statement.
pub fn is_identifier(name: &str) -> (r: bool)
    ensures
        r == valid_identifier(name@),
{
    broadcast use vstd::string::group_string_axioms;

    let mut it = name.chars();
    let ghost mut done: int = 0;
    let mut first = true;
    loop
        invariant
            0 <= done <= name@.len(),
            it.remaining() == name@.skip(done),
            first == (done == 0),
            done > 0 ==> !is_digit_char(name@[0]),
            forall|i: int| 0 <= i < done ==> is_word_char(#[trigger] name@[i]),
        ensures
            done == name@.len(),
            first == (done == 0),
            done > 0 ==> !is_digit_char(name@[0]),
            forall|i: int| 0 <= i < done ==> is_word_char(#[trigger] name@[i]),
        decreases name@.len() - done,
    {
        match it.next() {
            Some(c) => {
                assert(c == name@[done]);
                if !word_char(c) || (first && digit_char(c)) {
                    return false;
                }
                first = false;
                proof {
                    assert(name@.skip(done).drop_first() == name@.skip(done + 1));
                    done = done + 1;
                }
            },
            None => {
                break ;
            },
        }
    }
    !first
}

/// Makes `name` a valid identifier: every character that is not an ASCII
/// letter, a digit or an underscore becomes an underscore, and an underscore
/// is put in front where the name is empty or starts with a digit. A valid
/// identifier comes back unchanged.
pub fn sanitize(name: &str) -> (r: String)
    ensures
        r@ == sanitized(name@),
        valid_identifier(r@),
        valid_identifier(name@) ==> r@ == name@,
{
    broadcast use vstd::string::group_string_axioms;

    let mut out = String::new();
    let mut it = name.chars();
    let ghost mut done: int = 0;
    let ghost lead: Seq<char> = if name@.len() == 0 || is_digit_char(name@[0]) {
        seq!['_']
    } else {
        Seq::<char>::empty()
    };
    let mut first = true;
    loop
        invariant
            0 <= done <= name@.len(),
            it.remaining() == name@.skip(done),
            first == (done == 0),
            lead == if name@.len() == 0 || is_digit_char(name@[0]) {
                seq!['_']
            } else {
                Seq::<char>::empty()
            },
            first ==> out@ == Seq::<char>::empty(),
            !first ==> out@ == lead + replaced(name@.take(done)),
        ensures
            done == name@.len(),
            first == (done == 0),
            first ==> out@ == Seq::<char>::empty(),
            !first ==> out@ == lead + replaced(name@),
        decreases name@.len() - done,
    {
        match it.next() {
            Some(c) => {
                assert(c == name@[done]);
                if first && digit_char(c) {
                    out.push('_');
                }
                first = false;
                if word_char(c) {
                    out.push(c);
                } else {
                    out.push('_');
                }
                proof {
                    assert(name@.skip(done).drop_first() == name@.skip(done + 1));
                    assert(replaced(name@.take(done + 1)) =~= replaced(name@.take(done)).push(
                        replaced_char(name@[done]),
                    ));
                    assert(replaced(name@.take(0)) =~= Seq::<char>::empty());
                    assert(out@ =~= lead + replaced(name@.take(done + 1)));
                    done = done + 1;
                }
            },
            None => {
                assert(name@.take(done) == name@);
                break ;
            },
        }
    }
    if first {
        out.push('_');
        assert(replaced(name@) =~= Seq::<char>::empty());
        assert(out@ =~= seq!['_'] + replaced(name@));
    }
    proof {
        lemma_sanitized_is_valid(name@);
        if valid_identifier(name@) {
            lemma_sanitized_keeps_valid(name@);
        }
    }
    out
}

fn digit_of(d: u8) -> (c: char)
    requires
        d < 10,
    ensures
        c == digit(d as nat),
{
    (d + 48u8) as char
}

/// Appends `n` in decimal to `out`.
fn push_decimal(out: &mut String, n: u32)
    ensures
        final(out)@ == old(out)@ + decimal_digits(n as nat),
    decreases n,
{
    if n >= 10 {
        push_decimal(out, n / 10);
    }
    out.push(digit_of((n % 10) as u8));
    assert(final(out)@ =~= old(out)@ + decimal_digits(n as nat));
}

/// The database name for `test_identifier` and `suffix`:
/// `<test_identifier>_<suffix>`, the suffix in decimal.
pub fn database_name(test_identifier: &str, suffix: u32) -> (name: String)
    ensures
        name@ == name_with_suffix(test_identifier@, suffix),
{
    let mut name = String::from_str(test_identifier);
    name.push('_');
    push_decimal(&mut name, suffix);
    assert(name@ =~= name_with_suffix(test_identifier@, suffix));
    name
}

/// A database name for one invocation of the test `test_identifier`:
/// `<test_identifier>_<suffix>` with a random 32-bit suffix, so that
/// invocations running side by side pick different names but for a chance of
/// one in 2^32 per pair. It cannot fail; a clash shows when the database is
/// created.
pub fn test_db_name(test_identifier: &str) -> (name: String)
    ensures
        exists|suffix: u32| name@ == name_with_suffix(test_identifier@, suffix),
        valid_identifier(test_identifier@) ==> valid_identifier(name@),
{
    let suffix = random_suffix();
    proof {
        if valid_identifier(test_identifier@) {
            lemma_name_of_valid_identifier(test_identifier@, suffix);
        }
    }
    database_name(test_identifier, suffix)
}

} // verus!
