//! Text handling at the C boundary: escaping interior NULs, decimal rendering,
//! and UTF-8 validation of incoming C strings.
use vstd::prelude::*;
use vstd::string::*;
use vstd::utf8::valid_utf8;

verus! {

broadcast use vstd::string::group_string_axioms;

/// What one character becomes once escaped: NUL turns into the two characters
/// `\` and `0`; every other character stands for itself.
pub open spec fn escaped_char(c: char) -> Seq<char> {
    if c == '\0' {
        seq!['\\', '0']
    } else {
        seq![c]
    }
}

/// `s` with every NUL replaced by the two characters `\0`.
pub open spec fn escape_nul_chars(s: Seq<char>) -> Seq<char>
    decreases s.len(),
{
    if s.len() == 0 {
        Seq::empty()
    } else {
        escaped_char(s[0]) + escape_nul_chars(s.drop_first())
    }
}

/// Escaping reads one character at a time from the front: nothing for
/// nothing, a NUL becomes `\` then `0`, any other character is kept as is.
pub proof fn law_escape_one_character(c: char, s: Seq<char>)
    ensures
        escape_nul_chars(Seq::<char>::empty()) == Seq::<char>::empty(),
        c == '\0' ==> escape_nul_chars(seq![c] + s) == seq!['\\', '0'] + escape_nul_chars(s),
        c != '\0' ==> escape_nul_chars(seq![c] + s) == seq![c] + escape_nul_chars(s),
{
    assert((seq![c] + s).drop_first() =~= s);
    assert((seq![c] + s)[0] == c);
}

/// The number the decimal characters `cs` spell, most significant first.
pub open spec fn digits_value(cs: Seq<char>) -> int
    decreases cs.len(),
{
    if cs.len() == 0 {
        0
    } else {
        10 * digits_value(cs.drop_last()) + (cs.last() as int - 48)
    }
}

/// The digits of `n` are decimal digits, spell `n` back, and start with a
/// non-zero digit unless `n` is zero.
pub proof fn law_decimal_digits_spell_the_number(n: nat)
    ensures
        decimal_digits(n).len() >= 1,
        forall|i: int|
            0 <= i < decimal_digits(n).len() ==> '0' <= #[trigger] decimal_digits(n)[i] <= '9',
        digits_value(decimal_digits(n)) == n,
        n > 0 ==> decimal_digits(n)[0] != '0',
    decreases n,
{
    assert(digit_char(n as int % 10) as int == 48 + n as int % 10);
    if n < 10 {
        let d = decimal_digits(n);
        assert(d.drop_last() =~= Seq::<char>::empty());
        assert(digits_value(d.drop_last()) == 0);
    } else {
        law_decimal_digits_spell_the_number(n / 10);
        let d = decimal_digits(n);
        assert(d.drop_last() =~= decimal_digits(n / 10));
        assert(d[0] == decimal_digits(n / 10)[0]);
        assert forall|i: int| 0 <= i < d.len() implies '0' <= #[trigger] d[i] <= '9' by {
            if i < d.len() - 1 {
                assert(d[i] == decimal_digits(n / 10)[i]);
            }
        }
    }
}

/// A negative number renders as `-` and the digits of its magnitude; any
/// other number as its digits alone.
pub proof fn law_decimal_sign(v: int)
    ensures
        v < 0 ==> decimal_chars(v)[0] == '-' && decimal_chars(v).drop_first() == decimal_digits(
            (-v) as nat,
        ),
        v >= 0 ==> decimal_chars(v) == decimal_digits(v as nat),
        v >= 0 ==> digits_value(decimal_chars(v)) == v,
        v < 0 ==> digits_value(decimal_chars(v).drop_first()) == -v,
{
    if v < 0 {
        assert(decimal_chars(v).drop_first() =~= decimal_digits((-v) as nat));
        law_decimal_digits_spell_the_number((-v) as nat);
    } else {
        law_decimal_digits_spell_the_number(v as nat);
    }
}

/// Append one character to a `String`.
#[verifier::external_body]
pub(crate) fn push_char(s: &mut String, c: char)
    ensures
        final(s)@ == old(s)@.push(c),
{
    s.push(c);
}

/// Replace every NUL in `s` with `\0`, so that the text can cross into C
/// whole instead of being cut at the first NUL.
pub fn escape_nul(s: &str) -> (r: String)
    ensures
        r@ == escape_nul_chars(s@),
{
    let mut out = String::new();
    let mut it = s.chars();
    assert(vstd::std_specs::iter::IteratorSpec::remaining(&it) == s@);
    loop
        invariant
            escape_nul_chars(s@) == out@ + escape_nul_chars(
                vstd::std_specs::iter::IteratorSpec::remaining(&it),
            ),
            vstd::std_specs::iter::IteratorSpec::obeys_prophetic_iter_laws(&it),
            vstd::std_specs::iter::IteratorSpec::decrease(&it) is Some,
        ensures
            escape_nul_chars(s@) == out@,
        decreases vstd::std_specs::iter::IteratorSpec::decrease(&it)->0,
    {
        let ghost before = vstd::std_specs::iter::IteratorSpec::remaining(&it);
        match it.next() {
            Some(c) => {
                assert(before.len() > 0);
                assert(c == before[0]);
                if c == '\0' {
                    push_char(&mut out, '\\');
                    push_char(&mut out, '0');
                } else {
                    push_char(&mut out, c);
                }
                assert(escape_nul_chars(before) == escaped_char(c) + escape_nul_chars(
                    vstd::std_specs::iter::IteratorSpec::remaining(&it),
                ));
            },
            None => {
                assert(before.len() == 0);
                assert(out@ =~= out@ + escape_nul_chars(before));
                break ;
            },
        }
    }
    out
}

/// An escaped text holds no NUL.
pub proof fn law_escaped_has_no_nul(s: Seq<char>)
    ensures
        forall|i: int| 0 <= i < escape_nul_chars(s).len() ==> #[trigger] escape_nul_chars(s)[i]
            != '\0',
    decreases s.len(),
{
    if s.len() > 0 {
        law_escaped_has_no_nul(s.drop_first());
        let head = escaped_char(s[0]);
        let tail = escape_nul_chars(s.drop_first());
        assert forall|i: int| 0 <= i < escape_nul_chars(s).len() implies #[trigger] escape_nul_chars(
            s,
        )[i] != '\0' by {
            if i >= head.len() {
                assert(escape_nul_chars(s)[i] == tail[i - head.len()]);
            }
        }
    }
}

/// Text without NUL is left exactly as it was.
pub proof fn law_escape_keeps_nul_free_text(s: Seq<char>)
    requires
        forall|i: int| 0 <= i < s.len() ==> #[trigger] s[i] != '\0',
    ensures
        escape_nul_chars(s) == s,
    decreases s.len(),
{
    if s.len() > 0 {
        assert forall|i: int| 0 <= i < s.drop_first().len() implies #[trigger] s.drop_first()[i]
            != '\0' by {
            assert(s.drop_first()[i] == s[i + 1]);
        }
        law_escape_keeps_nul_free_text(s.drop_first());
        assert(s =~= seq![s[0]] + s.drop_first());
    }
}

/// Escaping fragment by fragment gives the escape of the whole: the
/// fragments a streaming callback sees, put together, are the escaped reply
/// that the transcript records.
pub proof fn law_escape_concatenates(a: Seq<char>, b: Seq<char>)
    ensures
        escape_nul_chars(a + b) == escape_nul_chars(a) + escape_nul_chars(b),
    decreases a.len(),
{
    if a.len() == 0 {
        assert(a + b =~= b);
        assert(escape_nul_chars(a) + escape_nul_chars(b) =~= escape_nul_chars(b));
    } else {
        law_escape_concatenates(a.drop_first(), b);
        assert((a + b).drop_first() =~= a.drop_first() + b);
        assert((a + b)[0] == a[0]);
        assert(escape_nul_chars(a + b) =~= escape_nul_chars(a) + escape_nul_chars(b));
    }
}

/// The decimal digit character of `d` (0..10).
pub open spec fn digit_char(d: int) -> char {
    (48 + d) as char
}

/// The decimal digits of `n`, most significant first, without leading zeros.
pub open spec fn decimal_digits(n: nat) -> Seq<char>
    decreases n,
{
    if n < 10 {
        seq![digit_char(n as int)]
    } else {
        decimal_digits(n / 10).push(digit_char(n as int % 10))
    }
}

/// The decimal rendering of an integer, with a leading `-` when negative.
pub open spec fn decimal_chars(v: int) -> Seq<char> {
    if v < 0 {
        seq!['-'] + decimal_digits((-v) as nat)
    } else {
        decimal_digits(v as nat)
    }
}

fn digit(d: u32) -> (c: char)
    requires
        d < 10,
    ensures
        c == digit_char(d as int),
{
    let b: u8 = 48u8 + (d as u8);
    b as char
}

/// The decimal rendering of `v`, as `i32`'s `Display` writes it.
pub fn decimal(v: i32) -> (r: String)
    ensures
        r@ == decimal_chars(v as int),
{
    let wide = v as i64;
    let mag: i64 = if wide < 0 {
        -wide
    } else {
        wide
    };
    let mut n: u32 = mag as u32;
    let ghost total = mag as nat;
    let mut rev: Vec<char> = Vec::new();
    let ghost mut tail: Seq<char> = Seq::empty();
    while n >= 10
        invariant
            decimal_digits(total) == decimal_digits(n as nat) + tail,
            tail == rev@.reverse(),
        decreases n,
    {
        let d = n % 10;
        let c = digit(d);
        proof {
            assert(decimal_digits(n as nat) == decimal_digits((n / 10) as nat).push(c));
            assert(decimal_digits(n as nat) + tail =~= decimal_digits((n / 10) as nat) + (seq![c]
                + tail));
            tail = seq![c] + tail;
        }
        let ghost prev = rev@;
        rev.push(c);
        assert(rev@.reverse() =~= seq![c] + prev.reverse());
        n = n / 10;
    }
    let first = digit(n);
    let mut out = String::new();
    if wide < 0 {
        push_char(&mut out, '-');
    }
    push_char(&mut out, first);
    let ghost head = out@;
    let mut i: usize = rev.len();
    while i > 0
        invariant
            i <= rev@.len(),
            out@ == head + rev@.reverse().subrange(0, rev@.len() - i),
        decreases i,
    {
        i = i - 1;
        push_char(&mut out, rev[i]);
        assert(rev@.reverse()[rev@.len() - 1 - i] == rev@[i as int]);
        assert(out@ =~= head + rev@.reverse().subrange(0, rev@.len() - i));
    }
    assert(rev@.reverse().subrange(0, rev@.len() as int) =~= rev@.reverse());
    assert(decimal_digits(n as nat) == seq![first]);
    if wide < 0 {
        assert(out@ =~= seq!['-'] + decimal_digits(total));
    } else {
        assert(out@ =~= decimal_digits(total));
    }
    out
}

/// Check a C string's bytes: valid UTF-8 gives the text, anything else `None`.
#[verifier::external_body]
pub(crate) fn str_from_utf8(bytes: &[u8]) -> (r: Option<&str>)
    ensures
        r is Some <==> valid_utf8(bytes@),
        r matches Some(s) ==> s.spec_bytes() == bytes@,
{
    std::str::from_utf8(bytes).ok()
}

/// `a` followed by `b`, as a new `String`.
pub fn concat(a: &str, b: &str) -> (r: String)
    ensures
        r@ == a@ + b@,
{
    let mut s = a.to_owned();
    s.append(b);
    s
}

} // verus!
