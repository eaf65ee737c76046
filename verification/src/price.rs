//! Price normalization: a free-form price string ("1 234,50 zł") becomes a
//! comparable amount in cents, with a fixed sentinel for unparsable input.

use vstd::prelude::*;

verus! {

/// Price recorded for an offer whose price string cannot be parsed:
/// 9 999 999 units, held in cents. Sorts such offers to the end of a
/// price-ascending list.
pub const SENTINEL_CENTS: u64 = 999_999_900;

pub open spec fn is_ascii_alpha(c: char) -> bool {
    (65 <= c as u32 && c as u32 <= 90) || (97 <= c as u32 && c as u32 <= 122)
}

pub open spec fn is_ascii_space(c: char) -> bool {
    c as u32 == 32 || c as u32 == 9 || c as u32 == 10 || c as u32 == 12 || c as u32 == 13
}

/// Characters the normalizer strips before parsing: letters, whitespace, and
/// everything outside ASCII (currency marks such as "zł", non-breaking
/// spaces used as thousands separators).
pub open spec fn is_strippable(c: char) -> bool {
    is_ascii_alpha(c) || is_ascii_space(c) || c as u32 >= 128
}

pub open spec fn is_digit(c: char) -> bool {
    48 <= c as u32 && c as u32 <= 57
}

pub open spec fn digit_val(c: char) -> nat
    recommends
        is_digit(c),
{
    (c as u32 - 48) as nat
}

/// A decimal separator as it may appear in the raw input.
pub open spec fn is_separator(c: char) -> bool {
    c == ',' || c == '.'
}

/// The input after stripping, with a decimal comma folded into a dot.
pub open spec fn normalized(s: Seq<char>) -> Seq<char> {
    s.filter(|c: char| !is_strippable(c)).map_values(
        |c: char|
            if c == ',' {
                '.'
            } else {
                c
            },
    )
}

pub open spec fn all_digits(t: Seq<char>) -> bool {
    forall|i: int| 0 <= i < t.len() ==> is_digit(#[trigger] t[i])
}

/// Value of a digit string read left to right.
pub open spec fn digits_value(t: Seq<char>) -> nat
    decreases t.len(),
{
    if t.len() == 0 {
        0
    } else {
        10 * digits_value(t.drop_last()) + digit_val(t.last())
    }
}

pub open spec fn first_dot_from(t: Seq<char>, i: int) -> int
    decreases t.len() - i,
{
    if i < 0 || i >= t.len() {
        t.len() as int
    } else if t[i] == '.' {
        i
    } else {
        first_dot_from(t, i + 1)
    }
}

/// Index of the first '.' in t, or t.len() when there is none.
pub open spec fn first_dot(t: Seq<char>) -> int {
    first_dot_from(t, 0)
}

pub open spec fn int_part(t: Seq<char>) -> Seq<char> {
    t.take(first_dot(t))
}

pub open spec fn frac_part(t: Seq<char>) -> Seq<char> {
    if first_dot(t) == t.len() {
        Seq::empty()
    } else {
        t.skip(first_dot(t) + 1)
    }
}

/// Cents contributed by up to two digits after the separator.
pub open spec fn frac_scale(f: Seq<char>) -> nat
    recommends
        f.len() <= 2,
{
    if f.len() == 0 {
        0
    } else if f.len() == 1 {
        digit_val(f[0]) * 10
    } else {
        digit_val(f[0]) * 10 + digit_val(f[1])
    }
}

/// Does t (already stripped and comma-folded) spell a decimal number the
/// normalizer accepts: digits, at most one dot, at most two digits after it,
/// and at least one digit overall?
pub open spec fn grammar_ok(t: Seq<char>) -> bool {
    &&& all_digits(int_part(t))
    &&& all_digits(frac_part(t))
    &&& frac_part(t).len() <= 2
    &&& int_part(t).len() + frac_part(t).len() >= 1
}

pub open spec fn cents_nat(t: Seq<char>) -> nat {
    digits_value(int_part(t)) * 100 + frac_scale(frac_part(t))
}

/// What `parse_price` returns: the decimal value of the stripped input in
/// cents, or the sentinel when the stripped input is not such a decimal or
/// its value does not fit.
pub open spec fn price_cents_spec(s: Seq<char>) -> u64 {
    let t = normalized(s);
    if grammar_ok(t) && cents_nat(t) <= u64::MAX {
        cents_nat(t) as u64
    } else {
        SENTINEL_CENTS
    }
}

/// The digits of s, in order, everything else dropped.
pub open spec fn digits_of(s: Seq<char>) -> Seq<char>
    decreases s.len(),
{
    if s.len() == 0 {
        Seq::empty()
    } else if is_digit(s.last()) {
        digits_of(s.drop_last()).push(s.last())
    } else {
        digits_of(s.drop_last())
    }
}

pub open spec fn first_sep_from(s: Seq<char>, i: int) -> int
    decreases s.len() - i,
{
    if i < 0 || i >= s.len() {
        s.len() as int
    } else if is_separator(s[i]) {
        i
    } else {
        first_sep_from(s, i + 1)
    }
}

/// Index of the first decimal separator in the raw input, or s.len().
pub open spec fn first_sep(s: Seq<char>) -> int {
    first_sep_from(s, 0)
}

/// The value, in cents, that a plain numeric string spells: the digits
/// before the separator (thousands spaces ignored) are the whole units, the
/// digits after it the fraction.
pub open spec fn plain_cents(s: Seq<char>) -> nat {
    let sep = first_sep(s);
    if sep == s.len() {
        digits_value(digits_of(s)) * 100
    } else {
        digits_value(digits_of(s.take(sep))) * 100 + frac_scale(s.skip(sep + 1))
    }
}

proof fn lemma_normalized_push(p: Seq<char>, c: char)
    ensures
        normalized(p.push(c)) == if is_strippable(c) {
            normalized(p)
        } else {
            normalized(p).push(
                if c == ',' {
                    '.'
                } else {
                    c
                },
            )
        },
{
    reveal(Seq::filter);
    let q = p.push(c);
    assert(q.drop_last() =~= p);
    let pred = |x: char| !is_strippable(x);
    let fold = |x: char|
        if x == ',' {
            '.'
        } else {
            x
        };
    if is_strippable(c) {
        assert(q.filter(pred) == p.filter(pred));
    } else {
        assert(q.filter(pred) == p.filter(pred).push(c));
        assert(q.filter(pred).map_values(fold) =~= p.filter(pred).map_values(fold).push(fold(c)));
    }
}

pub proof fn lemma_digits_value_prefix_le(t: Seq<char>, j: int)
    requires
        0 <= j <= t.len(),
    ensures
        digits_value(t.take(j)) <= digits_value(t),
    decreases t.len() - j,
{
    if j == t.len() {
        assert(t.take(j) =~= t);
    } else {
        assert(t.take(j + 1).drop_last() =~= t.take(j));
        assert(digits_value(t.take(j + 1)) == 10 * digits_value(t.take(j)) + digit_val(
            t.take(j + 1).last(),
        ));
        lemma_digits_value_prefix_le(t, j + 1);
    }
}

/// v is the value of the digits read so far and the next digit is d: adding
/// it overflows u64 exactly when v exceeds (u64::MAX - d) / 10.
proof fn lemma_digit_step_overflow(v: u64, d: u64)
    requires
        d <= 9,
    ensures
        v > (u64::MAX - d) / 10 <==> 10 * (v as nat) + d > u64::MAX,
{
    let m: int = u64::MAX - d;
    let q: int = m / 10;
    vstd::arithmetic::div_mod::lemma_fundamental_div_mod(m, 10);
    assert(m == 10 * q + m % 10);
}

/// v is the whole-unit value and f the fractional cents: turning v into
/// cents overflows u64 exactly when v exceeds (u64::MAX - f) / 100.
proof fn lemma_cents_overflow(v: u64, f: u64)
    requires
        f <= 99,
    ensures
        v > (u64::MAX - f) / 100 <==> 100 * (v as nat) + f > u64::MAX,
{
    let m: int = u64::MAX - f;
    let q: int = m / 100;
    vstd::arithmetic::div_mod::lemma_fundamental_div_mod(m, 100);
    assert(m == 100 * q + m % 100);
}

fn price_of_normalized(t: &Vec<char>) -> (r: u64)
    ensures
        r == (if grammar_ok(t@) && cents_nat(t@) <= u64::MAX {
            cents_nat(t@) as u64
        } else {
            SENTINEL_CENTS
        }),
{
    let len: usize = t.len();

    // Locate the first dot; everything before it is the whole-unit part.
    let mut fd: usize = 0;
    while fd < len && t[fd] != '.'
        invariant
            fd <= len,
            len == t@.len(),
            first_dot(t@) == first_dot_from(t@, fd as int),
        decreases len - fd,
    {
        fd = fd + 1;
    }
    assert(first_dot(t@) == fd as int);
    let dot_present: bool = fd < len;
    let frac_len: usize = if dot_present {
        len - fd - 1
    } else {
        0
    };
    proof {
        if dot_present {
            assert(frac_part(t@) =~= t@.skip(fd as int + 1));
        } else {
            assert(frac_part(t@) =~= Seq::<char>::empty());
        }
        assert(int_part(t@) =~= t@.take(fd as int));
    }

    // At most two digits after the separator.
    if frac_len > 2 {
        return SENTINEL_CENTS;
    }
    // At least one digit overall.
    if fd == 0 && frac_len == 0 {
        return SENTINEL_CENTS;
    }

    // Every kept character outside the dot must be a digit.
    let mut j: usize = 0;
    while j < fd
        invariant
            j <= fd <= len,
            len == t@.len(),
            int_part(t@) =~= t@.take(fd as int),
            forall|k: int| 0 <= k < j ==> is_digit(#[trigger] t@[k]),
        decreases fd - j,
    {
        let c = t[j];
        let u: u32 = c as u32;
        if !(48 <= u && u <= 57) {
            assert(!is_digit(int_part(t@)[j as int]));
            return SENTINEL_CENTS;
        }
        j = j + 1;
    }
    if dot_present {
        let mut j2: usize = fd + 1;
        while j2 < len
            invariant
                fd < len,
                fd + 1 <= j2 <= len,
                len == t@.len(),
                frac_part(t@) =~= t@.skip(fd as int + 1),
                forall|k: int| fd < k < j2 ==> is_digit(#[trigger] t@[k]),
            decreases len - j2,
        {
            let c = t[j2];
            let u: u32 = c as u32;
            if !(48 <= u && u <= 57) {
                assert(!is_digit(frac_part(t@)[j2 - fd - 1]));
                return SENTINEL_CENTS;
            }
            j2 = j2 + 1;
        }
    }
    assert(all_digits(int_part(t@))) by {
        assert(forall|k: int|
            0 <= k < int_part(t@).len() ==> is_digit(#[trigger] int_part(t@)[k]));
    }
    assert(all_digits(frac_part(t@))) by {
        if dot_present {
            assert(forall|k: int|
                0 <= k < frac_part(t@).len() ==> frac_part(t@)[k] == t@[k + fd + 1]
                    && is_digit(#[trigger] frac_part(t@)[k]));
        }
    }
    assert(grammar_ok(t@));

    // Fractional cents: zero, one, or two digits after the dot.
    let f: u64 = if frac_len == 0 {
        proof {
            assert(frac_scale(frac_part(t@)) == 0);
        }
        0
    } else if frac_len == 1 {
        let d0: u64 = (t[fd + 1] as u32 - 48) as u64;
        proof {
            assert(frac_part(t@)[0] == t@[fd as int + 1]);
        }
        d0 * 10
    } else {
        let d0: u64 = (t[fd + 1] as u32 - 48) as u64;
        let d1: u64 = (t[fd + 2] as u32 - 48) as u64;
        proof {
            assert(frac_part(t@)[0] == t@[fd as int + 1]);
            assert(frac_part(t@)[1] == t@[fd as int + 2]);
        }
        d0 * 10 + d1
    };
    assert(f == frac_scale(frac_part(t@)) && f <= 99);

    // Whole-unit value, read left to right with an overflow guard.
    let mut v: u64 = 0;
    let mut i: usize = 0;
    while i < fd
        invariant
            i <= fd <= len,
            len == t@.len(),
            f <= 99,
            grammar_ok(t@),
            int_part(t@) =~= t@.take(fd as int),
            f == frac_scale(frac_part(t@)),
            v == digits_value(t@.take(i as int)),
        decreases fd - i,
    {
        let c = t[i];
        let u: u32 = c as u32;
        assert(int_part(t@)[i as int] == t@[i as int]);
        assert(is_digit(int_part(t@)[i as int]));
        assert(is_digit(t@[i as int]));
        let d: u64 = (u - 48) as u64;
        proof {
            assert(t@.take(i as int + 1).drop_last() =~= t@.take(i as int));
            assert(digits_value(t@.take(i as int + 1)) == 10 * digits_value(t@.take(i as int))
                + digit_val(t@[i as int]));
            lemma_digit_step_overflow(v, d);
        }
        if v > (u64::MAX - d) / 10 {
            // The whole-unit part alone no longer fits: the cents cannot fit
            // either, so the price falls back to the sentinel.
            proof {
                assert(t@.take(fd as int).take(i as int + 1) =~= t@.take(i as int + 1));
                lemma_digits_value_prefix_le(t@.take(fd as int), i as int + 1);
                assert(digits_value(int_part(t@)) > u64::MAX);
                assert(cents_nat(t@) >= digits_value(int_part(t@)) * 100) by (nonlinear_arith)
                    requires cents_nat(t@) == digits_value(int_part(t@)) * 100 + frac_scale(frac_part(t@));
                assert(digits_value(int_part(t@)) * 100 >= digits_value(int_part(t@)))
                    by (nonlinear_arith);
                assert(cents_nat(t@) > u64::MAX);
            }
            return SENTINEL_CENTS;
        }
        v = v * 10 + d;
        i = i + 1;
    }
    assert(v == digits_value(int_part(t@)));

    proof {
        lemma_cents_overflow(v, f);
    }
    if v > (u64::MAX - f) / 100 {
        assert(cents_nat(t@) > u64::MAX);
        return SENTINEL_CENTS;
    }
    assert(cents_nat(t@) == 100 * (v as nat) + f);
    v * 100 + f
}

/// Normalizes a free-form price string into cents. Strips letters,
/// whitespace and non-ASCII characters, folds a decimal comma into a dot,
/// and parses the rest as a decimal with at most two digits after the
/// separator; any failure yields the sentinel instead of an error.
pub fn parse_price(input: &str) -> (r: Option<u64>)
    ensures
        r == Some(price_cents_spec(input@)),
{
    let t = normalize_chars(input);
    Some(price_of_normalized(&t))
}

fn normalize_chars(s: &str) -> (r: Vec<char>)
    ensures
        r@ == normalized(s@),
{
    let len: usize = s.unicode_len();
    let mut out: Vec<char> = Vec::new();
    let mut i: usize = 0;
    while i < len
        invariant
            len == s@.len(),
            i <= len,
            out@ == normalized(s@.take(i as int)),
        decreases len - i,
    {
        let c = s.get_char(i);
        let u: u32 = c as u32;
        let strippable: bool = (65 <= u && u <= 90) || (97 <= u && u <= 122) || u == 32 || u == 9
            || u == 10 || u == 12 || u == 13 || u >= 128;
        if !strippable {
            if c == ',' {
                out.push('.');
            } else {
                out.push(c);
            }
        }
        proof {
            lemma_normalized_push(s@.take(i as int), s@[i as int]);
            assert(s@.take(i as int + 1) =~= s@.take(i as int).push(s@[i as int]));
        }
        i = i + 1;
    }
    proof {
        assert(s@.take(len as int) =~= s@);
    }
    out
}

proof fn lemma_normalized_empty()
    ensures
        normalized(Seq::<char>::empty()) == Seq::<char>::empty(),
{
    reveal(Seq::filter);
    assert(normalized(Seq::<char>::empty()) =~= Seq::<char>::empty());
}

proof fn lemma_normalized_add(a: Seq<char>, b: Seq<char>)
    ensures
        normalized(a + b) == normalized(a) + normalized(b),
    decreases b.len(),
{
    if b.len() == 0 {
        lemma_normalized_empty();
        assert(a + b =~= a);
        assert(normalized(a) + normalized(b) =~= normalized(a));
    } else {
        let b0 = b.drop_last();
        let x = b.last();
        lemma_normalized_add(a, b0);
        assert(a + b =~= (a + b0).push(x));
        lemma_normalized_push(a + b0, x);
        assert(b =~= b0.push(x));
        lemma_normalized_push(b0, x);
        if is_strippable(x) {
            assert(normalized(b) == normalized(b0));
        } else {
            let y = if x == ',' {
                '.'
            } else {
                x
            };
            assert(normalized(a + b) == (normalized(a) + normalized(b0)).push(y));
            assert((normalized(a) + normalized(b0)).push(y) =~= normalized(a) + normalized(
                b0,
            ).push(y));
        }
    }
}

proof fn lemma_digits_only_has_digits(p: Seq<char>)
    ensures
        all_digits(digits_of(p)),
        digits_of(p).len() <= p.len(),
    decreases p.len(),
{
    if p.len() > 0 {
        lemma_digits_only_has_digits(p.drop_last());
    }
}

/// Stripping a string of digits and thousands spaces keeps exactly its digits.
proof fn lemma_normalized_digits_spaces(p: Seq<char>)
    requires
        forall|i: int| 0 <= i < p.len() ==> is_digit(#[trigger] p[i]) || p[i] == ' ',
    ensures
        normalized(p) == digits_of(p),
    decreases p.len(),
{
    if p.len() == 0 {
        lemma_normalized_empty();
    } else {
        let q = p.drop_last();
        let x = p.last();
        lemma_normalized_digits_spaces(q);
        assert(p =~= q.push(x));
        lemma_normalized_push(q, x);
        assert(is_digit(x) ==> !is_strippable(x) && x != ',');
    }
}

proof fn lemma_digits_of_all_digits(p: Seq<char>)
    requires
        all_digits(p),
    ensures
        digits_of(p) == p,
    decreases p.len(),
{
    if p.len() == 0 {
        assert(digits_of(p) =~= p);
    } else {
        lemma_digits_of_all_digits(p.drop_last());
        assert(digits_of(p) =~= p);
    }
}

proof fn lemma_digits_of_keeps_a_digit(p: Seq<char>, k: int)
    requires
        0 <= k < p.len(),
        is_digit(p[k]),
    ensures
        digits_of(p).len() >= 1,
    decreases p.len(),
{
    if k == p.len() - 1 {
    } else {
        lemma_digits_of_keeps_a_digit(p.drop_last(), k);
    }
}

proof fn lemma_first_dot_at(t: Seq<char>, i: int, j: int)
    requires
        0 <= i <= j <= t.len(),
        forall|k: int| i <= k < j ==> t[k] != '.',
        j == t.len() || t[j] == '.',
    ensures
        first_dot_from(t, i) == j,
    decreases j - i,
{
    if i < j {
        lemma_first_dot_at(t, i + 1, j);
    }
}

proof fn lemma_first_dot_props(t: Seq<char>, i: int)
    requires
        0 <= i <= t.len(),
    ensures
        i <= first_dot_from(t, i) <= t.len(),
        first_dot_from(t, i) < t.len() ==> t[first_dot_from(t, i)] == '.',
    decreases t.len() - i,
{
    if i < t.len() && t[i] != '.' {
        lemma_first_dot_props(t, i + 1);
    }
}

proof fn lemma_first_sep_props(s: Seq<char>, i: int)
    requires
        0 <= i <= s.len(),
    ensures
        i <= first_sep_from(s, i) <= s.len(),
        forall|k: int| i <= k < first_sep_from(s, i) ==> !is_separator(#[trigger] s[k]),
        first_sep_from(s, i) < s.len() ==> is_separator(s[first_sep_from(s, i)]),
    decreases s.len() - i,
{
    if i < s.len() && !is_separator(s[i]) {
        lemma_first_sep_props(s, i + 1);
    }
}

proof fn lemma_normalized_all_strippable(p: Seq<char>)
    requires
        forall|i: int| 0 <= i < p.len() ==> is_strippable(#[trigger] p[i]),
    ensures
        normalized(p) == Seq::<char>::empty(),
    decreases p.len(),
{
    if p.len() == 0 {
        lemma_normalized_empty();
    } else {
        lemma_normalized_all_strippable(p.drop_last());
        assert(p =~= p.drop_last().push(p.last()));
        lemma_normalized_push(p.drop_last(), p.last());
    }
}

/// Leading and trailing text that the normalizer strips — letters,
/// whitespace, and non-ASCII marks such as a currency suffix — never
/// changes the price: "1 234,50 zł" normalizes exactly as "1 234,50" does.
pub proof fn lemma_normalize_ignores_stripped_edges(
    pre: Seq<char>,
    core: Seq<char>,
    suf: Seq<char>,
)
    requires
        forall|i: int| 0 <= i < pre.len() ==> is_strippable(#[trigger] pre[i]),
        forall|i: int| 0 <= i < suf.len() ==> is_strippable(#[trigger] suf[i]),
    ensures
        price_cents_spec(pre + core + suf) == price_cents_spec(core),
{
    lemma_normalized_add(pre + core, suf);
    lemma_normalized_add(pre, core);
    lemma_normalized_all_strippable(pre);
    lemma_normalized_all_strippable(suf);
    assert(normalized(pre + core + suf) =~= normalized(core));
}

/// A plain numeric string — digits, optional thousands spaces, at most one
/// comma or dot decimal separator, at most two digits and no spaces after
/// it — normalizes to exactly the decimal value it spells, in cents, with
/// the comma read as a dot. Together with
/// `lemma_normalize_ignores_stripped_edges` this covers such a number
/// wrapped in whitespace or currency text.
pub proof fn lemma_normalize_plain_number(s: Seq<char>)
    requires
        forall|i: int|
            0 <= i < s.len() ==> is_digit(#[trigger] s[i]) || s[i] == ' ' || is_separator(s[i]),
        forall|i: int, j: int|
            0 <= i < j < s.len() && is_separator(#[trigger] s[i]) ==> is_digit(#[trigger] s[j]),
        forall|i: int| 0 <= i < s.len() && is_separator(#[trigger] s[i]) ==> s.len() - i - 1 <= 2,
        exists|i: int| 0 <= i < s.len() && is_digit(#[trigger] s[i]),
        plain_cents(s) <= u64::MAX,
    ensures
        price_cents_spec(s) == plain_cents(s),
{
    lemma_first_sep_props(s, 0);
    let sep = first_sep(s);
    let t = normalized(s);
    if sep == s.len() {
        // No separator: digits and spaces only.
        lemma_normalized_digits_spaces(s);
        lemma_digits_only_has_digits(s);
        assert(t == digits_of(s));
        assert(forall|k: int| 0 <= k < t.len() ==> #[trigger] t[k] != '.') by {
            assert(forall|k: int| 0 <= k < t.len() ==> is_digit(#[trigger] t[k]));
        }
        lemma_first_dot_at(t, 0, t.len() as int);
        assert(int_part(t) =~= t);
        assert(frac_part(t) =~= Seq::<char>::empty());
        let k = choose|i: int| 0 <= i < s.len() && is_digit(#[trigger] s[i]);
        lemma_digits_of_keeps_a_digit(s, k);
        assert(grammar_ok(t));
        assert(cents_nat(t) == plain_cents(s));
    } else {
        let a = s.take(sep);
        let m = seq![s[sep]];
        let b = s.skip(sep + 1);
        assert(s =~= a + m + b);
        lemma_normalized_add(a + m, b);
        lemma_normalized_add(a, m);
        lemma_normalized_digits_spaces(a);
        let d1 = digits_of(a);
        lemma_digits_only_has_digits(a);
        // The separator itself folds into a dot.
        lemma_normalized_empty();
        assert(m =~= Seq::<char>::empty().push(s[sep]));
        lemma_normalized_push(Seq::<char>::empty(), s[sep]);
        assert(!is_strippable(s[sep]));
        assert(normalized(m) =~= seq!['.']);
        // Everything after the separator is a digit.
        assert(all_digits(b)) by {
            assert(forall|k: int| 0 <= k < b.len() ==> b[k] == s[k + sep + 1] && is_digit(
                #[trigger] b[k],
            ));
        }
        lemma_normalized_digits_spaces(b);
        lemma_digits_of_all_digits(b);
        assert(t == d1 + seq!['.'] + b);
        assert(forall|k: int| 0 <= k < d1.len() ==> #[trigger] t[k] != '.') by {
            assert(forall|k: int|
                0 <= k < d1.len() ==> t[k] == d1[k] && is_digit(#[trigger] t[k]));
        }
        assert(t[d1.len() as int] == '.');
        lemma_first_dot_at(t, 0, d1.len() as int);
        assert(int_part(t) =~= d1);
        assert(frac_part(t) =~= b);
        // At least one digit lands in the whole or the fractional part.
        let k = choose|i: int| 0 <= i < s.len() && is_digit(#[trigger] s[i]);
        if k < sep {
            lemma_digits_of_keeps_a_digit(a, k);
        } else {
            assert(k != sep);
            assert(b[k - sep - 1] == s[k]);
        }
        assert(grammar_ok(t));
        assert(cents_nat(t) == plain_cents(s));
    }
}

/// Any input that fails numeric parsing after normalization — the stripped
/// text does not spell an accepted decimal, or its value does not fit —
/// normalizes to the sentinel, never to an error.
pub proof fn lemma_unparsable_is_sentinel(s: Seq<char>)
    requires
        !grammar_ok(normalized(s)) || cents_nat(normalized(s)) > u64::MAX,
    ensures
        price_cents_spec(s) == SENTINEL_CENTS,
{
}

/// A string with no digit at all — empty, or words such as "ask" — always
/// normalizes to the sentinel.
pub proof fn lemma_no_digit_is_sentinel(s: Seq<char>)
    requires
        forall|i: int| 0 <= i < s.len() ==> !is_digit(#[trigger] s[i]),
    ensures
        price_cents_spec(s) == SENTINEL_CENTS,
{
    let t = normalized(s);
    lemma_normalized_no_digit(s);
    lemma_first_dot_props(t, 0);
    if grammar_ok(t) {
        if int_part(t).len() >= 1 {
            assert(is_digit(int_part(t)[0]));
            assert(int_part(t)[0] == t[0]);
            assert(false);
        } else {
            assert(frac_part(t).len() >= 1);
            assert(is_digit(frac_part(t)[0]));
            assert(first_dot(t) < t.len());
            assert(frac_part(t)[0] == t[first_dot(t) + 1]);
            assert(false);
        }
    }
}

proof fn lemma_normalized_no_digit(s: Seq<char>)
    requires
        forall|i: int| 0 <= i < s.len() ==> !is_digit(#[trigger] s[i]),
    ensures
        forall|i: int| 0 <= i < normalized(s).len() ==> !is_digit(#[trigger] normalized(s)[i]),
    decreases s.len(),
{
    if s.len() == 0 {
        lemma_normalized_empty();
    } else {
        let q = s.drop_last();
        lemma_normalized_no_digit(q);
        assert(s =~= q.push(s.last()));
        lemma_normalized_push(q, s.last());
        assert(!is_digit(if s.last() == ',' {
            '.'
        } else {
            s.last()
        }));
    }
}

} // verus!
