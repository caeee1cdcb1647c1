//! Text helpers: concatenation, truncation, decimal rendering and the
//! code-point order on strings.

use vstd::prelude::*;
use vstd::string::StrSliceExecFns;
use vstd::string::StringExecFns;

verus! {

/// The first `n` characters of `s`, or all of `s` when it is shorter.
pub open spec fn prefix(s: Seq<char>, n: nat) -> Seq<char> {
    if s.len() <= n {
        s
    } else {
        s.take(n as int)
    }
}

/// `s` comes strictly before `t` in the lexicographic order by code point, the
/// order of Rust's own `str`.
pub open spec fn text_before(s: Seq<char>, t: Seq<char>) -> bool
    decreases s.len(),
{
    if t.len() == 0 {
        false
    } else if s.len() == 0 {
        true
    } else if s[0] == t[0] {
        text_before(s.drop_first(), t.drop_first())
    } else {
        (s[0] as int) < (t[0] as int)
    }
}

/// Decimal digits of `n`, most significant first.
pub open spec fn decimal(n: nat) -> Seq<char>
    decreases n,
{
    if n < 10 {
        seq![digit(n)]
    } else {
        decimal(n / 10).push(digit(n % 10))
    }
}

/// The character that stands for a single decimal digit.
pub open spec fn digit(d: nat) -> char {
    ((48 + d) as u8) as char
}

/// Decimal rendering of a signed number.
pub open spec fn signed_decimal(n: int) -> Seq<char> {
    if n < 0 {
        seq!['-'] + decimal((-n) as nat)
    } else {
        decimal(n as nat)
    }
}

/// Whether two strings hold the same characters.
pub fn same_text(a: &String, b: &String) -> (r: bool)
    ensures
        r == (a@ == b@),
{
    *a == *b
}

/// An owned copy of a string slice.
pub fn owned(s: &str) -> (r: String)
    ensures
        r@ == s@,
{
    s.to_owned()
}

/// The characters of `s` in order.
pub fn characters(s: &str) -> (r: Vec<char>)
    ensures
        r@ == s@,
{
    let mut out: Vec<char> = Vec::new();
    for c in it: s.chars()
        invariant
            it.seq() == s@,
            out@ == s@.take(it.index() as int),
    {
        out.push(c);
    }
    out
}

/// The first `n` characters of `s` as an owned string.
pub fn take_chars(s: &str, n: usize) -> (r: String)
    ensures
        r@ == prefix(s@, n as nat),
{
    let len: usize = s.unicode_len();
    if len <= n {
        owned(s)
    } else {
        owned(s.substring_char(0, n))
    }
}


/// `String::push` of the standard library: the character is appended at the end.
pub assume_specification[ String::push ](s: &mut String, ch: char)
    ensures
        final(s)@ == old(s)@.push(ch),
;

/// The decimal digit character of `d`.
fn digit_char(d: u8) -> (c: char)
    requires
        d < 10,
    ensures
        c == digit(d as nat),
{
    (48 + d) as char
}

/// Renders an unsigned number in decimal.
pub fn render_u64(n: u64) -> (r: String)
    ensures
        r@ == decimal(n as nat),
    decreases n,
{
    let mut out: String = if n < 10 {
        String::new()
    } else {
        render_u64(n / 10)
    };
    out.push(digit_char((n % 10) as u8));
    assert(n < 10 ==> decimal(n as nat) =~= seq![digit(n as nat)]);
    out
}

/// Renders a signed number in decimal.
pub fn render_i64(n: i64) -> (r: String)
    ensures
        r@ == signed_decimal(n as int),
{
    if n >= 0 {
        render_u64(n as u64)
    } else {
        let magnitude: u64 = (-(n as i128)) as u64;
        let mut out: String = String::new();
        out.push('-');
        let digits = render_u64(magnitude);
        out.append(digits.as_str());
        out
    }
}

/// The code point of a character.
fn code_point(c: char) -> (r: u32)
    ensures
        r as int == c as int,
{
    c as u32
}

/// Whether `a` comes strictly before `b` by code point.
pub fn comes_before(a: &str, b: &str) -> (r: bool)
    ensures
        r == text_before(a@, b@),
{
    let s = characters(a);
    let t = characters(b);
    let mut i: usize = 0;
    proof {
        assert(a@.skip(0) =~= a@);
        assert(b@.skip(0) =~= b@);
    }
    while i < s.len() && i < t.len() && s[i] == t[i]
        invariant
            i <= s.len(),
            i <= t.len(),
            s@ == a@,
            t@ == b@,
            text_before(a@, b@) == text_before(a@.skip(i as int), b@.skip(i as int)),
        decreases s.len() - i,
    {
        proof {
            assert(a@.skip(i as int).drop_first() =~= a@.skip(i + 1));
            assert(b@.skip(i as int).drop_first() =~= b@.skip(i + 1));
        }
        i = i + 1;
    }
    if i >= t.len() {
        false
    } else if i >= s.len() {
        true
    } else {
        code_point(s[i]) < code_point(t[i])
    }
}

/// No text comes before itself.
pub proof fn text_order_irreflexive(s: Seq<char>)
    ensures
        !text_before(s, s),
    decreases s.len(),
{
    if s.len() > 0 {
        text_order_irreflexive(s.drop_first());
    }
}

/// The code-point order is transitive.
pub proof fn text_order_transitive(s: Seq<char>, t: Seq<char>, u: Seq<char>)
    requires
        text_before(s, t),
        text_before(t, u),
    ensures
        text_before(s, u),
    decreases s.len(),
{
    if s.len() > 0 && s[0] == t[0] && t[0] == u[0] {
        text_order_transitive(s.drop_first(), t.drop_first(), u.drop_first());
    }
}

/// Any two different texts are ordered one way or the other, never both.
pub proof fn text_order_total(s: Seq<char>, t: Seq<char>)
    ensures
        s == t || text_before(s, t) || text_before(t, s),
        !(text_before(s, t) && text_before(t, s)),
    decreases s.len(),
{
    if s.len() > 0 && t.len() > 0 && s[0] == t[0] {
        text_order_total(s.drop_first(), t.drop_first());
        if s.drop_first() == t.drop_first() {
            assert(s =~= seq![s[0]] + s.drop_first());
            assert(t =~= seq![t[0]] + t.drop_first());
        }
    } else if s.len() == 0 && t.len() == 0 {
        assert(s =~= t);
    }
}

/// A prefix is the start of its text: all of a short text, and the first `n` characters of a
/// longer one.
pub proof fn law_prefix_is_the_start(s: Seq<char>, n: nat)
    ensures
        prefix(s, n).len() == (if s.len() < n {
            s.len()
        } else {
            n
        }),
        forall|i: int| 0 <= i < prefix(s, n).len() ==> #[trigger] prefix(s, n)[i] == s[i],
{
}

/// The two texts agree up to `k`.
pub open spec fn agree_upto(s: Seq<char>, t: Seq<char>, k: int) -> bool {
    &&& k <= s.len()
    &&& k <= t.len()
    &&& forall|i: int| 0 <= i < k ==> #[trigger] s[i] == t[i]
}

/// One text comes before another exactly when the two agree up to some place and there the
/// first one is over while the other goes on, or has the lesser code point.
pub proof fn law_order_is_by_code_point(s: Seq<char>, t: Seq<char>)
    ensures
        text_before(s, t) <==> exists|k: int|
            0 <= k < t.len() && #[trigger] agree_upto(s, t, k) && (k == s.len() || (s[k] as int) < (
            t[k] as int)),
    decreases s.len(),
{
    if s.len() > 0 && t.len() > 0 && s[0] == t[0] {
        let (a, b) = (s.drop_first(), t.drop_first());
        law_order_is_by_code_point(a, b);
        if text_before(s, t) {
            let k = choose|k: int|
                0 <= k < b.len() && #[trigger] agree_upto(a, b, k) && (k == a.len() || (a[k] as int)
                    < (b[k] as int));
            assert forall|i: int| 0 <= i < k + 1 implies #[trigger] s[i] == t[i] by {
                if i > 0 {
                    assert(a[i - 1] == b[i - 1]);
                }
            }
            assert(agree_upto(s, t, k + 1));
        }
        if exists|k: int|
            0 <= k < t.len() && #[trigger] agree_upto(s, t, k) && (k == s.len() || (s[k] as int) < (
            t[k] as int)) {
            let k = choose|k: int|
                0 <= k < t.len() && #[trigger] agree_upto(s, t, k) && (k == s.len() || (s[k] as int)
                    < (t[k] as int));
            assert forall|i: int| 0 <= i < k - 1 implies #[trigger] a[i] == b[i] by {
                assert(s[i + 1] == t[i + 1]);
            }
            assert(agree_upto(a, b, k - 1));
        }
    } else if t.len() > 0 {
        if text_before(s, t) {
            assert(agree_upto(s, t, 0));
        }
        if exists|k: int|
            0 <= k < t.len() && #[trigger] agree_upto(s, t, k) && (k == s.len() || (s[k] as int) < (
            t[k] as int)) {
            let k = choose|k: int|
                0 <= k < t.len() && #[trigger] agree_upto(s, t, k) && (k == s.len() || (s[k] as int)
                    < (t[k] as int));
            if k > 0 {
                assert(s[0] == t[0]);
            }
        }
    }
}

/// The number that a run of decimal digits stands for.
pub open spec fn numeral(digits: Seq<char>) -> nat
    decreases digits.len(),
{
    if digits.len() == 0 {
        0
    } else {
        10 * numeral(digits.drop_last()) + (digits.last() as nat - '0' as nat) as nat
    }
}

/// A number is rendered in decimal digits that stand for it, without a leading zero.
pub proof fn law_decimal_stands_for_its_number(n: nat)
    ensures
        numeral(decimal(n)) == n,
        decimal(n).len() > 0,
        forall|i: int| 0 <= i < decimal(n).len() ==> '0' <= #[trigger] decimal(n)[i] <= '9',
        decimal(n).len() > 1 ==> decimal(n)[0] != '0',
        n > 0 ==> decimal(n)[0] != '0',
    decreases n,
{
    let all = decimal(n);
    if n < 10 {
        assert(all.drop_last() =~= Seq::<char>::empty());
        assert(numeral(all.drop_last()) == 0);
    } else {
        law_decimal_stands_for_its_number(n / 10);
        assert(all.drop_last() =~= decimal(n / 10));
        assert forall|i: int| 0 <= i < all.len() implies '0' <= #[trigger] all[i] <= '9' by {
            if i < all.len() - 1 {
                assert(all[i] == decimal(n / 10)[i]);
            }
        }
        assert(all[0] == decimal(n / 10)[0]);
    }
}

/// A number below zero is rendered behind a minus sign, and only such a number.
pub proof fn law_sign_is_rendered(n: int)
    ensures
        n < 0 ==> signed_decimal(n)[0] == '-' && numeral(signed_decimal(n).drop_first()) == -n,
        n >= 0 ==> signed_decimal(n)[0] != '-' && numeral(signed_decimal(n)) == n,
{
    if n < 0 {
        law_decimal_stands_for_its_number((-n) as nat);
        assert(signed_decimal(n).drop_first() =~= decimal((-n) as nat));
    } else {
        law_decimal_stands_for_its_number(n as nat);
    }
}

}
