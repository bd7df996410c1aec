//! Text helpers: everything the rest of the library does to strings.

use vstd::prelude::*;

verus! {

/// `String::push`: appends the given character to the end of the string.
pub assume_specification[ String::push ](s: &mut String, c: char)
    ensures
        final(s)@ == old(s)@.push(c),
;

/// The characters of a text, in order.
pub fn chars_of(s: &str) -> (r: Vec<char>)
    ensures
        r@ == s@,
{
    let mut out: Vec<char> = Vec::new();
    for c in it: s.chars()
        invariant
            out@ == it.seq().take(it.index()),
            it.seq() == s@,
    {
        out.push(c);
    }
    out
}

/// The text those characters spell.
pub fn text_of(chars: &Vec<char>, from: usize, to: usize) -> (r: String)
    requires
        from <= to <= chars@.len(),
    ensures
        r@ == chars@.subrange(from as int, to as int),
{
    let mut out = String::new();
    for i in from..to
        invariant
            from <= to <= chars@.len(),
            out@ == chars@.subrange(from as int, i as int),
    {
        out.push(chars[i]);
        assert(out@ =~= chars@.subrange(from as int, i + 1));
    }
    out
}

/// Whether two texts hold the same characters.
pub fn same_text(a: &str, b: &str) -> (r: bool)
    ensures
        r == (a@ == b@),
{
    let x = chars_of(a);
    let y = chars_of(b);
    if x.len() != y.len() {
        return false;
    }
    for i in 0..x.len()
        invariant
            x@ == a@,
            y@ == b@,
            x@.len() == y@.len(),
            forall|k: int| 0 <= k < i ==> x@[k] == y@[k],
    {
        if x[i] != y[i] {
            return false;
        }
    }
    assert(a@ =~= b@);
    true
}

// ----------------------------------------------------------------- blanks --

/// The characters that count as white space around a word (the Unicode
/// `White_Space` property).
pub open spec fn is_blank(c: char) -> bool {
    let n = c as int;
    ||| 0x09 <= n <= 0x0d
    ||| n == 0x20
    ||| n == 0x85
    ||| n == 0xa0
    ||| n == 0x1680
    ||| 0x2000 <= n <= 0x200a
    ||| n == 0x2028
    ||| n == 0x2029
    ||| n == 0x202f
    ||| n == 0x205f
    ||| n == 0x3000
}

fn blank(c: char) -> (r: bool)
    ensures
        r == is_blank(c),
{
    let n: u32 = c as u32;
    (0x09 <= n && n <= 0x0d) || n == 0x20 || n == 0x85 || n == 0xa0 || n == 0x1680 || (0x2000 <= n
        && n <= 0x200a) || n == 0x2028 || n == 0x2029 || n == 0x202f || n == 0x205f || n == 0x3000
}

/// `s` without its leading blanks.
pub open spec fn without_leading(s: Seq<char>) -> Seq<char>
    decreases s.len(),
{
    if s.len() > 0 && is_blank(s[0]) {
        without_leading(s.drop_first())
    } else {
        s
    }
}

/// `s` without its trailing blanks.
pub open spec fn without_trailing(s: Seq<char>) -> Seq<char>
    decreases s.len(),
{
    if s.len() > 0 && is_blank(s.last()) {
        without_trailing(s.drop_last())
    } else {
        s
    }
}

/// `s` without the blanks around it.
pub open spec fn trimmed(s: Seq<char>) -> Seq<char> {
    without_trailing(without_leading(s))
}

/// The text without the blanks around it.
pub fn trim(s: &str) -> (r: String)
    ensures
        r@ == trimmed(s@),
{
    let v = chars_of(s);
    let mut from: usize = 0;
    assert(v@.subrange(0, v@.len() as int) =~= v@);
    while from < v.len() && blank(v[from])
        invariant
            from <= v@.len(),
            without_leading(v@) == without_leading(v@.subrange(from as int, v@.len() as int)),
        decreases v@.len() - from,
    {
        assert(v@.subrange(from as int, v@.len() as int).drop_first() =~= v@.subrange(
            from + 1,
            v@.len() as int,
        ));
        from = from + 1;
    }
    let ghost rest = v@.subrange(from as int, v@.len() as int);
    let mut to: usize = v.len();
    while from < to && blank(v[to - 1])
        invariant
            from <= to <= v@.len(),
            without_trailing(rest) == without_trailing(v@.subrange(from as int, to as int)),
        decreases to,
    {
        assert(v@.subrange(from as int, to as int).drop_last() =~= v@.subrange(
            from as int,
            to - 1,
        ));
        to = to - 1;
    }
    text_of(&v, from, to)
}

/// Trimming a text with nothing blank at either end changes nothing.
pub proof fn lemma_trim_keeps_a_word(s: Seq<char>)
    requires
        s.len() > 0 ==> !is_blank(s[0]) && !is_blank(s.last()),
    ensures
        trimmed(s) == s,
{
}

/// Trimming drops one trailing blank and goes on from there.
pub proof fn lemma_trim_drops_a_trailing_blank(s: Seq<char>, c: char)
    requires
        is_blank(c),
        s.len() > 0,
        !is_blank(s[0]),
    ensures
        trimmed(s.push(c)) == trimmed(s),
{
    assert(s.push(c)[0] == s[0]);
    assert(s.push(c).drop_last() =~= s);
}

// --------------------------------------------------------------- prefixes --

pub open spec fn starts_with(s: Seq<char>, prefix: Seq<char>) -> bool {
    prefix.len() <= s.len() && s.take(prefix.len() as int) == prefix
}

/// What follows `prefix` in `s`, if `s` begins with it.
pub fn strip_prefix(s: &str, prefix: &str) -> (r: Option<String>)
    ensures
        r is Some <==> starts_with(s@, prefix@),
        r matches Some(rest) ==> rest@ == s@.skip(prefix@.len() as int),
{
    let v = chars_of(s);
    let p = chars_of(prefix);
    if p.len() > v.len() {
        return None;
    }
    for i in 0..p.len()
        invariant
            v@ == s@,
            p@ == prefix@,
            p@.len() <= v@.len(),
            forall|k: int| 0 <= k < i ==> p@[k] == v@[k],
    {
        if p[i] != v[i] {
            assert(s@.take(prefix@.len() as int)[i as int] == v@[i as int]);
            return None;
        }
    }
    assert(s@.take(prefix@.len() as int) =~= prefix@);
    Some(text_of(&v, p.len(), v.len()))
}

// ---------------------------------------------------------------- ordering --

/// Lexicographic order by code point: `a` comes strictly before `b`.
pub open spec fn text_before(a: Seq<char>, b: Seq<char>) -> bool
    decreases a.len(),
{
    if b.len() == 0 {
        false
    } else if a.len() == 0 {
        true
    } else if a[0] != b[0] {
        (a[0] as int) < (b[0] as int)
    } else {
        text_before(a.drop_first(), b.drop_first())
    }
}

fn code_point(c: char) -> (n: u32)
    ensures
        n == c as int,
{
    c as u32
}

/// Whether `a` comes strictly before `b`.
pub fn comes_before(a: &str, b: &str) -> (r: bool)
    ensures
        r == text_before(a@, b@),
{
    let x = chars_of(a);
    let y = chars_of(b);
    let mut i: usize = 0;
    assert(x@.skip(0) =~= x@);
    assert(y@.skip(0) =~= y@);
    loop
        invariant
            i <= x@.len(),
            i <= y@.len(),
            text_before(x@, y@) == text_before(x@.skip(i as int), y@.skip(i as int)),
            x@ == a@,
            y@ == b@,
        decreases x@.len() - i,
    {
        if i == y.len() {
            return false;
        }
        if i == x.len() {
            return true;
        }
        if x[i] != y[i] {
            return code_point(x[i]) < code_point(y[i]);
        }
        assert(x@.skip(i as int).drop_first() =~= x@.skip(i + 1));
        assert(y@.skip(i as int).drop_first() =~= y@.skip(i + 1));
        i = i + 1;
    }
}

/// The order is total: of two different texts one comes first.
pub proof fn lemma_text_order_is_total(a: Seq<char>, b: Seq<char>)
    ensures
        text_before(a, b) || text_before(b, a) || a == b,
    decreases a.len(),
{
    if a.len() == 0 || b.len() == 0 {
        assert(a.len() == 0 && b.len() == 0 ==> a =~= b);
    } else if a[0] == b[0] {
        lemma_text_order_is_total(a.drop_first(), b.drop_first());
        if a.drop_first() == b.drop_first() {
            assert(a =~= seq![a[0]] + a.drop_first());
            assert(b =~= seq![b[0]] + b.drop_first());
        }
    } else {
        assert((a[0] as int) < (b[0] as int) || (b[0] as int) < (a[0] as int));
    }
}

/// Nothing comes before itself, nor before what comes before it.
pub proof fn lemma_text_order_is_strict(a: Seq<char>, b: Seq<char>)
    ensures
        text_before(a, b) ==> !text_before(b, a),
        !text_before(a, a),
    decreases a.len(),
{
    if a.len() > 0 {
        lemma_text_order_is_strict(a.drop_first(), b.drop_first());
    }
}

pub proof fn lemma_text_order_is_transitive(a: Seq<char>, b: Seq<char>, c: Seq<char>)
    requires
        text_before(a, b),
        text_before(b, c),
    ensures
        text_before(a, c),
    decreases a.len(),
{
    if a.len() > 0 && a[0] == b[0] && b[0] == c[0] {
        lemma_text_order_is_transitive(a.drop_first(), b.drop_first(), c.drop_first());
    }
}

// ---------------------------------------------------------------- numerals --

/// The character of one digit.
pub open spec fn digit(d: int) -> char {
    if d == 0 {
        '0'
    } else if d == 1 {
        '1'
    } else if d == 2 {
        '2'
    } else if d == 3 {
        '3'
    } else if d == 4 {
        '4'
    } else if d == 5 {
        '5'
    } else if d == 6 {
        '6'
    } else if d == 7 {
        '7'
    } else if d == 8 {
        '8'
    } else {
        '9'
    }
}

/// `n` written out in `base`, without leading zeros.
pub open spec fn numeral(n: nat, base: nat) -> Seq<char>
    decreases n,
{
    if n < base || base < 2 {
        seq![digit(n as int)]
    } else {
        proof {
            assert(n / base < n) by (nonlinear_arith)
                requires
                    n >= base,
                    base >= 2,
            ;
        }
        numeral(n / base, base).push(digit((n % base) as int))
    }
}

/// `n` in decimal.
pub open spec fn decimal(n: nat) -> Seq<char> {
    numeral(n, 10)
}

fn digit_char(d: u64) -> (c: char)
    requires
        d < 10,
    ensures
        c == digit(d as int),
{
    match d {
        0 => '0',
        1 => '1',
        2 => '2',
        3 => '3',
        4 => '4',
        5 => '5',
        6 => '6',
        7 => '7',
        8 => '8',
        _ => '9',
    }
}

fn numeral_text(n: u64, base: u64) -> (r: String)
    requires
        2 <= base <= 10,
    ensures
        r@ == numeral(n as nat, base as nat),
    decreases n,
{
    if n < base {
        let mut s = String::new();
        s.push(digit_char(n));
        assert(s@ =~= seq![digit(n as int)]);
        s
    } else {
        assert(n / base < n) by (nonlinear_arith)
            requires
                n >= base,
                base >= 2,
        ;
        assert(n % base < base) by (nonlinear_arith)
            requires
                base >= 2,
        ;
        let mut s = numeral_text(n / base, base);
        s.push(digit_char(n % base));
        s
    }
}

/// `n` in decimal.
pub fn decimal_text(n: u64) -> (r: String)
    ensures
        r@ == decimal(n as nat),
{
    numeral_text(n, 10)
}

/// `n` in decimal, with a minus sign where it is negative.
pub open spec fn signed_decimal(n: int) -> Seq<char> {
    if n < 0 {
        "-"@ + decimal(-n as nat)
    } else {
        decimal(n as nat)
    }
}

/// `n` in decimal, with a minus sign where it is negative.
pub fn signed_decimal_text(n: i32) -> (r: String)
    ensures
        r@ == signed_decimal(n as int),
{
    if n < 0 {
        let mut s = "-".to_owned();
        s.append(&decimal_text((-(n as i64)) as u64));
        s
    } else {
        decimal_text(n as u64)
    }
}

/// `n` in octal, padded with zeros to four digits.
pub open spec fn octal4(n: nat) -> Seq<char> {
    let s = numeral(n, 8);
    if s.len() < 4 {
        Seq::new((4 - s.len()) as nat, |i: int| '0') + s
    } else {
        s
    }
}

/// `n` in octal, padded with zeros to four digits.
pub fn octal4_text(n: u32) -> (r: String)
    ensures
        r@ == octal4(n as nat),
{
    let s = numeral_text(n as u64, 8);
    let v = chars_of(&s);
    let mut out = String::new();
    let len: usize = v.len();
    if len < 4 {
        for i in len..4
            invariant
                out@ == Seq::new((i - len) as nat, |k: int| '0'),
        {
            out.push('0');
            assert(out@ =~= Seq::new((i + 1 - len) as nat, |k: int| '0'));
        }
    }
    out.append(&s);
    assert(out@ =~= octal4(n as nat));
    out
}

// -------------------------------------------------------------------- laws --

/// Trimming takes blanks off both ends and nothing else: what is left is a part
/// of the text with blanks before and behind it, and begins and ends with none.
pub proof fn law_trimming_takes_blanks_off_the_ends(s: Seq<char>) -> (r: (int, int))
    ensures
        0 <= r.0 <= r.1 <= s.len(),
        trimmed(s) == s.subrange(r.0, r.1),
        forall|k: int| 0 <= k < r.0 || r.1 <= k < s.len() ==> is_blank(#[trigger] s[k]),
        r.0 < r.1 ==> !is_blank(s[r.0]) && !is_blank(s[r.1 - 1]),
{
    let i = lemma_leading(s);
    let j = lemma_trailing(s.subrange(i, s.len() as int));
    let rest = s.subrange(i, s.len() as int);
    assert(rest.subrange(0, j) =~= s.subrange(i, i + j));
    assert forall|k: int| i + j <= k < s.len() implies is_blank(#[trigger] s[k]) by {
        assert(rest[k - i] == s[k]);
    }
    if j > 0 {
        assert(rest[0] == s[i] && rest[j - 1] == s[i + j - 1]);
    }
    (i, i + j)
}

proof fn lemma_leading(s: Seq<char>) -> (i: int)
    ensures
        0 <= i <= s.len(),
        without_leading(s) == s.subrange(i, s.len() as int),
        forall|k: int| 0 <= k < i ==> is_blank(#[trigger] s[k]),
        i < s.len() ==> !is_blank(s[i]),
    decreases s.len(),
{
    if s.len() > 0 && is_blank(s[0]) {
        let rest = s.drop_first();
        let i = lemma_leading(rest);
        assert(rest.subrange(i, rest.len() as int) =~= s.subrange(i + 1, s.len() as int));
        assert forall|k: int| 0 <= k < i + 1 implies is_blank(#[trigger] s[k]) by {
            if k > 0 {
                assert(rest[k - 1] == s[k]);
            }
        }
        if i < rest.len() {
            assert(rest[i] == s[i + 1]);
        }
        i + 1
    } else {
        assert(s.subrange(0, s.len() as int) =~= s);
        0
    }
}

proof fn lemma_trailing(s: Seq<char>) -> (j: int)
    ensures
        0 <= j <= s.len(),
        without_trailing(s) == s.subrange(0, j),
        forall|k: int| j <= k < s.len() ==> is_blank(#[trigger] s[k]),
        j > 0 ==> !is_blank(s[j - 1]),
    decreases s.len(),
{
    if s.len() > 0 && is_blank(s.last()) {
        let rest = s.drop_last();
        let j = lemma_trailing(rest);
        assert(rest.subrange(0, j) =~= s.subrange(0, j));
        assert forall|k: int| j <= k < s.len() implies is_blank(#[trigger] s[k]) by {
            if k < rest.len() {
                assert(rest[k] == s[k]);
            }
        }
        j
    } else {
        assert(s.subrange(0, s.len() as int) =~= s);
        s.len() as int
    }
}

/// Of the plain characters the blank, the tab and the line breaks are blanks and
/// no other.
pub proof fn law_plain_blanks(c: char)
    requires
        (c as int) < 0x80,
    ensures
        is_blank(c) <==> c == ' ' || 9 <= c as int <= 13,
{
}

/// Texts are told apart where they first differ: the one with the smaller
/// character there comes first.
pub proof fn law_the_first_difference_decides(a: Seq<char>, b: Seq<char>, k: int)
    requires
        0 <= k < a.len(),
        k < b.len(),
        forall|i: int| 0 <= i < k ==> #[trigger] a[i] == b[i],
        a[k] != b[k],
    ensures
        text_before(a, b) <==> (a[k] as int) < (b[k] as int),
    decreases k,
{
    if k > 0 {
        assert(a[0] == b[0]);
        assert forall|i: int| 0 <= i < k - 1 implies #[trigger] a.drop_first()[i]
            == b.drop_first()[i] by {
            assert(a[i + 1] == b[i + 1]);
        }
        assert(a.drop_first()[k - 1] == a[k] && b.drop_first()[k - 1] == b[k]);
        law_the_first_difference_decides(a.drop_first(), b.drop_first(), k - 1);
    }
}

/// What begins with a text comes after it.
pub proof fn law_a_beginning_comes_first(a: Seq<char>, b: Seq<char>)
    ensures
        text_before(a, a + b) <==> b.len() > 0,
        !text_before(a + b, a),
    decreases a.len(),
{
    if a.len() > 0 {
        assert((a + b).drop_first() =~= a.drop_first() + b);
        law_a_beginning_comes_first(a.drop_first(), b);
    } else {
        assert(a + b =~= b);
    }
}

/// The number that digits stand for in `base`.
pub open spec fn reads_as(s: Seq<char>, base: int) -> int
    decreases s.len(),
{
    if s.len() == 0 {
        0
    } else {
        reads_as(s.drop_last(), base) * base + (s.last() as int - '0' as int)
    }
}

/// A numeral stands for its number, has digits of its base alone, and does not
/// begin with a zero unless it is zero.
pub proof fn law_a_numeral_stands_for_its_number(n: nat, base: nat)
    requires
        2 <= base <= 10,
    ensures
        reads_as(numeral(n, base), base as int) == n,
        numeral(n, base).len() >= 1,
        forall|i: int|
            0 <= i < numeral(n, base).len() ==> 0 <= (#[trigger] numeral(n, base)[i]) as int
                - '0' as int <= base - 1,
        numeral(n, base)[0] == '0' ==> n == 0,
    decreases n,
{
    let s = numeral(n, base);
    if n < base {
        assert(s.drop_last() =~= seq![]);
        assert(reads_as(s.drop_last(), base as int) == 0);
        assert(0 * base == 0);
    } else {
        assert(n / base < n && n / base >= 1) by (nonlinear_arith)
            requires
                n >= base,
                base >= 2,
        ;
        law_a_numeral_stands_for_its_number(n / base, base);
        let init = numeral(n / base, base);
        assert(s.drop_last() =~= init);
        vstd::arithmetic::div_mod::lemma_fundamental_div_mod(n as int, base as int);
        vstd::arithmetic::div_mod::lemma_mod_bound(n as int, base as int);
        assert((n / base) * base == base * (n / base)) by (nonlinear_arith);
        assert forall|i: int| 0 <= i < s.len() implies 0 <= (#[trigger] s[i]) as int - '0' as int
            <= base - 1 by {
            if i < init.len() {
                assert(s[i] == init[i]);
            }
        }
    }
}

/// Decimal numerals are in base ten, with a minus sign before those of negative
/// numbers and no other sign.
pub proof fn law_decimals_stand_for_their_numbers(n: int)
    ensures
        n >= 0 ==> reads_as(signed_decimal(n), 10) == n && signed_decimal(n)[0] != '-',
        n < 0 ==> signed_decimal(n).len() >= 1 && signed_decimal(n)[0] == '-' && reads_as(
            signed_decimal(n).skip(1),
            10,
        ) == -n,
{
    reveal_strlit("-");
    let m = if n < 0 {
        -n
    } else {
        n
    } as nat;
    law_a_numeral_stands_for_its_number(m, 10);
    assert(0 <= decimal(m)[0] as int - '0' as int);
    if n < 0 {
        assert(("-"@ + decimal(m)).skip(1) =~= decimal(m));
    }
}

/// An octal of four digits stands for its number and has at least four, and no
/// more if four are enough.
pub proof fn law_octals_have_four_digits(n: nat)
    ensures
        reads_as(octal4(n), 8) == n,
        octal4(n).len() >= 4,
        n < 4096 ==> octal4(n).len() == 4,
{
    let s = numeral(n, 8);
    law_a_numeral_stands_for_its_number(n, 8);
    if s.len() < 4 {
        lemma_leading_zeros(s, (4 - s.len()) as nat);
    }
    if n < 4096 {
        reveal_with_fuel(numeral, 4);
    }
}

proof fn lemma_leading_zeros(s: Seq<char>, k: nat)
    ensures
        reads_as(Seq::new(k, |i: int| '0') + s, 8) == reads_as(s, 8),
    decreases s.len() + k,
{
    let zeros = Seq::new(k, |i: int| '0');
    let t = zeros + s;
    if s.len() > 0 {
        lemma_leading_zeros(s.drop_last(), k);
        assert(t.drop_last() =~= zeros + s.drop_last());
    } else if k > 0 {
        let fewer = Seq::new((k - 1) as nat, |i: int| '0');
        lemma_leading_zeros(s, (k - 1) as nat);
        assert(t.drop_last() =~= fewer + s);
        assert(t.last() == '0');
    } else {
        assert(t =~= s);
    }
}

} // verus!
