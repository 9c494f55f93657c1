//! Searching, splitting and number formatting on character sequences.
//!
//! Titles are handled as `Vec<char>`; these helpers give the behaviour of
//! `str::find`, `str::split`, `str::starts_with`, `u16::from_str` and
//! decimal formatting on them, each against a spec function.

use vstd::prelude::*;

verus! {

/// Whether `sep` occurs in `s` at position `i`.
pub open spec fn matches_at(s: Seq<char>, i: int, sep: Seq<char>) -> bool {
    0 <= i && i + sep.len() <= s.len() && s.subrange(i, i + sep.len()) == sep
}

/// Position of the first occurrence of `sep` in `s`.
pub open spec fn find_seq(s: Seq<char>, sep: Seq<char>) -> Option<int>
    decreases s.len(),
{
    if sep.len() <= s.len() && s.take(sep.len() as int) == sep {
        Some(0)
    } else if s.len() == 0 {
        None
    } else {
        match find_seq(s.drop_first(), sep) {
            Some(i) => Some(i + 1),
            None => None,
        }
    }
}

/// Whether `sep` occurs in `s`.
pub open spec fn contains_seq(s: Seq<char>, sep: Seq<char>) -> bool {
    find_seq(s, sep) is Some
}

/// Whether `s` begins with `p`.
pub open spec fn starts_with_seq(s: Seq<char>, p: Seq<char>) -> bool {
    p.len() <= s.len() && s.take(p.len() as int) == p
}

/// A found position leaves room for the separator.
pub proof fn lemma_find_bounds(s: Seq<char>, sep: Seq<char>)
    ensures
        find_seq(s, sep) matches Some(i) ==> 0 <= i && i + sep.len() <= s.len() && matches_at(
            s,
            i,
            sep,
        ),
    decreases s.len(),
{
    if !(sep.len() <= s.len() && s.take(sep.len() as int) == sep) && s.len() > 0 {
        lemma_find_bounds(s.drop_first(), sep);
        if let Some(i) = find_seq(s.drop_first(), sep) {
            assert(s.subrange(i + 1, i + 1 + sep.len()) =~= s.drop_first().subrange(i, i + sep.len()));
        }
    }
}

/// The pieces of `s` between the occurrences of `sep`, as `str::split` gives them.
pub open spec fn split_seq(s: Seq<char>, sep: Seq<char>) -> Seq<Seq<char>>
    decreases s.len(),
{
    if sep.len() == 0 {
        seq![s]
    } else {
        match find_seq(s, sep) {
            None => seq![s],
            Some(i) => {
                proof {
                    lemma_find_bounds(s, sep);
                }
                seq![s.take(i)] + split_seq(s.skip(i + sep.len()), sep)
            },
        }
    }
}

/// A match at `j` means the search finds one at or before `j`.
pub proof fn lemma_find_first(s: Seq<char>, sep: Seq<char>, j: int)
    requires
        matches_at(s, j, sep),
    ensures
        find_seq(s, sep) matches Some(k) && k <= j,
    decreases s.len(),
{
    if !(sep.len() <= s.len() && s.take(sep.len() as int) == sep) {
        if j == 0 {
            assert(s.take(sep.len() as int) =~= s.subrange(0, sep.len() as int));
        }
        assert(matches_at(s.drop_first(), j - 1, sep)) by {
            assert(s.drop_first().subrange(j - 1, j - 1 + sep.len()) =~= s.subrange(j, j + sep.len()));
        }
        lemma_find_first(s.drop_first(), sep, j - 1);
    }
}

/// With no match starting inside `a`, the search in `a + b` is the search
/// in `b`, shifted by the length of `a`.
pub proof fn lemma_find_concat(a: Seq<char>, b: Seq<char>, sep: Seq<char>)
    requires
        sep.len() > 0,
        forall|i: int| 0 <= i < a.len() ==> !matches_at(a + b, i, sep),
    ensures
        find_seq(a + b, sep) == (match find_seq(b, sep) {
            Some(k) => Some(k + a.len()),
            None => None::<int>,
        }),
    decreases a.len(),
{
    if a.len() == 0 {
        assert(a + b =~= b);
    } else {
        let s = a + b;
        assert(!matches_at(s, 0, sep));
        if sep.len() <= s.len() && s.take(sep.len() as int) == sep {
            assert(s.subrange(0, sep.len() as int) =~= s.take(sep.len() as int));
        }
        assert(s.drop_first() =~= a.drop_first() + b);
        assert forall|i: int| 0 <= i < a.drop_first().len() implies !matches_at(a.drop_first() + b, i, sep) by {
            assert(!matches_at(s, i + 1, sep));
            if i + sep.len() <= (a.drop_first() + b).len() {
                assert((a.drop_first() + b).subrange(i, i + sep.len()) =~= s.subrange(i + 1, i + 1 + sep.len()));
            }
        }
        lemma_find_concat(a.drop_first(), b, sep);
    }
}

/// Searching from `a` on: a miss at `a` moves the search one step right.
proof fn lemma_find_step(s: Seq<char>, a: int, sep: Seq<char>)
    requires
        0 <= a < s.len(),
        sep.len() > 0,
    ensures
        matches_at(s, a, sep) ==> find_seq(s.skip(a), sep) == Some(0int),
        !matches_at(s, a, sep) ==> find_seq(s.skip(a), sep) == (match find_seq(s.skip(a + 1), sep) {
            Some(i) => Some(i + 1),
            None => None::<int>,
        }),
{
    assert(s.skip(a).drop_first() =~= s.skip(a + 1));
    if a + sep.len() <= s.len() {
        assert(s.skip(a).take(sep.len() as int) =~= s.subrange(a, a + sep.len()));
    }
}

/// Position of the first occurrence of `sep` in `s` at or after `start`.
pub fn find_from(s: &[char], start: usize, sep: &[char]) -> (r: Option<usize>)
    requires
        start <= s@.len(),
        sep@.len() > 0,
    ensures
        r is Some <==> find_seq(s@.skip(start as int), sep@) is Some,
        r matches Some(p) ==> start <= p && p + sep@.len() <= s@.len() && find_seq(
            s@.skip(start as int),
            sep@,
        ) == Some(p - start),
{
    let n = s.len();
    let mut a: usize = start;
    while a < s.len()
        invariant
            n == s@.len(),
            start <= a <= s@.len(),
            sep@.len() > 0,
            find_seq(s@.skip(start as int), sep@) == (match find_seq(s@.skip(a as int), sep@) {
                Some(i) => Some(i + (a - start)),
                None => None::<int>,
            }),
        decreases s@.len() - a,
    {
        proof {
            lemma_find_step(s@, a as int, sep@);
        }
        if sep.len() <= s.len() - a {
            let mut k: usize = 0;
            let mut same = true;
            while k < sep.len()
                invariant
                    n == s@.len(),
                    a < n,
                    a + sep@.len() <= n,
                    k <= sep@.len(),
                    same == (forall|j: int| 0 <= j < k ==> s@[a + j] == sep@[j]),
                decreases sep@.len() - k,
            {
                assert(a + k < s@.len());
                if s[a + k] != sep[k] {
                    same = false;
                }
                k = k + 1;
            }
            if same {
                assert(s@.subrange(a as int, a + sep@.len()) =~= sep@);
                proof {
                    lemma_find_bounds(s@.skip(start as int), sep@);
                }
                return Some(a);
            }
            assert(!matches_at(s@, a as int, sep@)) by {
                if matches_at(s@, a as int, sep@) {
                    let j = choose|j: int| 0 <= j < sep@.len() && s@[a + j] != sep@[j];
                    assert(s@.subrange(a as int, a + sep@.len())[j] == s@[a + j]);
                }
            }
        }
        a = a + 1;
    }
    assert(s@.skip(a as int).len() == 0);
    assert(find_seq(s@.skip(a as int), sep@) is None);
    None
}

/// Whether `sep` occurs in `s`.
pub fn contains_chars(s: &[char], sep: &[char]) -> (r: bool)
    requires
        sep@.len() > 0,
    ensures
        r == contains_seq(s@, sep@),
{
    assert(s@.skip(0) =~= s@);
    find_from(s, 0, sep).is_some()
}

/// Whether `s` begins with `p`.
pub fn starts_with_chars(s: &[char], p: &[char]) -> (r: bool)
    ensures
        r == starts_with_seq(s@, p@),
{
    if p.len() > s.len() {
        return false;
    }
    let mut k: usize = 0;
    while k < p.len()
        invariant
            p@.len() <= s@.len(),
            k <= p@.len(),
            forall|j: int| 0 <= j < k ==> s@[j] == p@[j],
        decreases p@.len() - k,
    {
        if s[k] != p[k] {
            assert(s@.take(p@.len() as int)[k as int] != p@[k as int]);
            return false;
        }
        k = k + 1;
    }
    assert(s@.take(p@.len() as int) =~= p@);
    true
}

/// The characters `s[from..to]`.
pub fn sub_chars(s: &[char], from: usize, to: usize) -> (r: Vec<char>)
    requires
        from <= to <= s@.len(),
    ensures
        r@ == s@.subrange(from as int, to as int),
{
    let mut r: Vec<char> = Vec::new();
    let mut i: usize = from;
    while i < to
        invariant
            from <= i <= to <= s@.len(),
            r@ == s@.subrange(from as int, i as int),
        decreases to - i,
    {
        r.push(s[i]);
        i = i + 1;
        assert(r@ =~= s@.subrange(from as int, i as int));
    }
    r
}

/// Splits `s` at every occurrence of `sep`.
pub fn split_chars(s: &[char], sep: &[char]) -> (r: Vec<Vec<char>>)
    requires
        sep@.len() > 0,
    ensures
        r@.len() == split_seq(s@, sep@).len(),
        forall|k: int| 0 <= k < r@.len() ==> (#[trigger] r@[k])@ == split_seq(s@, sep@)[k],
{
    let n = s.len();
    let mut r: Vec<Vec<char>> = Vec::new();
    let mut start: usize = 0;
    let ghost mut done: Seq<Seq<char>> = Seq::empty();
    assert(s@.skip(0) =~= s@);
    loop
        invariant
            n == s@.len(),
            start <= s@.len(),
            sep@.len() > 0,
            r@.len() == done.len(),
            forall|k: int| 0 <= k < r@.len() ==> (#[trigger] r@[k])@ == done[k],
            done + split_seq(s@.skip(start as int), sep@) == split_seq(s@, sep@),
        decreases s@.len() - start,
    {
        let ghost rest = s@.skip(start as int);
        proof {
            lemma_find_bounds(rest, sep@);
        }
        match find_from(s, start, sep) {
            None => {
                let piece = sub_chars(s, start, s.len());
                assert(piece@ =~= rest);
                proof {
                    done = done.push(piece@);
                }
                r.push(piece);
                return r;
            },
            Some(at) => {
                let piece = sub_chars(s, start, at);
                assert(piece@ =~= rest.take(at - start));
                assert(rest.skip(at - start + sep@.len()) =~= s@.skip(at + sep@.len()));
                proof {
                    assert(split_seq(rest, sep@) == seq![rest.take(at - start)] + split_seq(
                        rest.skip(at - start + sep@.len()),
                        sep@,
                    ));
                    done = done.push(piece@);
                    assert(done + split_seq(s@.skip(at + sep@.len()), sep@) =~= split_seq(s@, sep@));
                }
                r.push(piece);
                start = at + sep.len();
            },
        }
    }
}

/// Value of a decimal digit character.
pub open spec fn digit_spec(c: char) -> Option<nat> {
    if '0' <= c && c <= '9' {
        Some((c as u32 - '0' as u32) as nat)
    } else {
        None
    }
}

/// Value of a run of decimal digits.
pub open spec fn digits_value(s: Seq<char>) -> nat
    decreases s.len(),
{
    if s.len() == 0 {
        0
    } else {
        digits_value(s.drop_last()) * 10 + match digit_spec(s.last()) {
            Some(d) => d,
            None => 0,
        }
    }
}

/// Whether every character of `s` is a decimal digit.
pub open spec fn all_digits(s: Seq<char>) -> bool {
    forall|i: int| 0 <= i < s.len() ==> #[trigger] digit_spec(s[i]) is Some
}

/// What `u16::from_str` gives: an optional `+`, then one or more decimal
/// digits whose value fits in 16 bits.
pub open spec fn parse_u16_spec(s: Seq<char>) -> Option<u16> {
    let d = if s.len() > 0 && s[0] == '+' {
        s.drop_first()
    } else {
        s
    };
    if d.len() > 0 && all_digits(d) && digits_value(d) < 0x10000 {
        Some(digits_value(d) as u16)
    } else {
        None
    }
}

/// Parses a decimal `u16` (see [`parse_u16_spec`]).
pub fn parse_u16_chars(s: &[char]) -> (r: Option<u16>)
    ensures
        r == parse_u16_spec(s@),
{
    let start: usize = if s.len() > 0 && s[0] == '+' {
        1
    } else {
        0
    };
    let ghost d = s@.skip(start as int);
    assert(d =~= (if s@.len() > 0 && s@[0] == '+' { s@.drop_first() } else { s@ }));
    if start == s.len() {
        return None;
    }
    let mut value: u32 = 0;
    let mut i: usize = start;
    while i < s.len()
        invariant
            start <= i <= s@.len(),
            d == s@.skip(start as int),
            d == (if s@.len() > 0 && s@[0] == '+' { s@.drop_first() } else { s@ }),
            value < 0x10000,
            value == digits_value(s@.subrange(start as int, i as int)),
            all_digits(s@.subrange(start as int, i as int)),
        decreases s@.len() - i,
    {
        let c = s[i];
        let ghost prefix = s@.subrange(start as int, i + 1);
        assert(prefix.drop_last() =~= s@.subrange(start as int, i as int));
        if !('0' <= c && c <= '9') {
            assert(d[i - start] == c);
            assert(!all_digits(d)) by {
                assert(digit_spec(d[i - start]) is None);
            }
            return None;
        }
        value = value * 10 + (c as u32 - '0' as u32);
        if value >= 0x10000 {
            proof {
                assert(d.take(i + 1 - start) =~= prefix);
                if all_digits(d) {
                    lemma_digits_monotone(d, (i + 1 - start) as int);
                }
            }
            return None;
        }
        i = i + 1;
        assert(all_digits(s@.subrange(start as int, i as int))) by {
            assert forall|j: int| 0 <= j < i - start implies #[trigger] digit_spec(
                s@.subrange(start as int, i as int)[j],
            ) is Some by {
                if j < i - 1 - start {
                    assert(s@.subrange(start as int, i as int)[j] == s@.subrange(start as int, i - 1)[j]);
                }
            }
        }
    }
    assert(s@.subrange(start as int, s@.len() as int) =~= d);
    Some(value as u16)
}

/// A digit string is worth at least as much as each of its prefixes.
proof fn lemma_digits_monotone(d: Seq<char>, n: int)
    requires
        0 <= n <= d.len(),
        all_digits(d),
    ensures
        digits_value(d.take(n)) <= digits_value(d),
    decreases d.len() - n,
{
    if n < d.len() {
        lemma_digits_monotone(d, n + 1);
        assert(d.take(n + 1).drop_last() =~= d.take(n));
    } else {
        assert(d.take(n) =~= d);
    }
}

/// Decimal digits of `n`, without leading zeros (`"0"` for zero).
pub open spec fn dec_spec(n: nat) -> Seq<char>
    decreases n,
{
    if n < 10 {
        seq![(n + '0' as u32) as char]
    } else {
        dec_spec(n / 10).push(((n % 10) + '0' as u32) as char)
    }
}

/// The decimal form of `n` is a non-empty run of digits worth `n`, with
/// no leading zero unless `n` is zero.
pub proof fn lemma_dec_digits(n: nat)
    ensures
        dec_spec(n).len() >= 1,
        all_digits(dec_spec(n)),
        digits_value(dec_spec(n)) == n,
        n >= 1 ==> dec_spec(n)[0] != '0',
    decreases n,
{
    if n < 10 {
        let c = (n + '0' as u32) as char;
        assert(c as u32 == n + 48);
        assert(digit_spec(c) == Some(n));
        assert(dec_spec(n) == seq![c]);
        assert(seq![c].drop_last() =~= Seq::<char>::empty());
        assert(digits_value(Seq::<char>::empty()) == 0);
        assert(digits_value(seq![c]) == digits_value(seq![c].drop_last()) * 10 + n);
        assert(digit_spec(dec_spec(n)[0]) is Some);
    } else {
        lemma_dec_digits(n / 10);
        let p = dec_spec(n / 10);
        let c = ((n % 10) + '0' as u32) as char;
        assert(c as u32 == n % 10 + 48);
        assert(digit_spec(c) == Some(n % 10));
        let d = p.push(c);
        assert(d.drop_last() =~= p);
        assert(d[0] == p[0]);
        assert forall|i: int| 0 <= i < d.len() implies #[trigger] digit_spec(d[i]) is Some by {
            if i < p.len() {
                assert(d[i] == p[i]);
                assert(digit_spec(p[i]) is Some);
            }
        }
        assert(digits_value(d) == digits_value(p) * 10 + n % 10);
        assert(n == (n / 10) * 10 + n % 10);
    }
}

/// `u16::from_str` reads the decimal form of a 16-bit number back.
pub proof fn lemma_parse_dec(n: nat)
    requires
        n < 0x10000,
    ensures
        parse_u16_spec(dec_spec(n)) == Some(n as u16),
{
    lemma_dec_digits(n);
    assert(digit_spec(dec_spec(n)[0]) is Some);
}

/// A digit is none of `-`, `;`, `/` and `+`.
pub proof fn lemma_digit_chars(s: Seq<char>, i: int)
    requires
        all_digits(s),
        0 <= i < s.len(),
    ensures
        s[i] != '-' && s[i] != ';' && s[i] != '/' && s[i] != '+',
{
    assert(digit_spec(s[i]) is Some);
}

/// Decimal digits of `n`, padded with zeros on the left to `width` characters.
pub open spec fn dec_padded_spec(n: nat, width: nat) -> Seq<char> {
    let d = dec_spec(n);
    if d.len() >= width {
        d
    } else {
        Seq::new((width - d.len()) as nat, |i: int| '0') + d
    }
}

/// Ten to the power `k`.
pub open spec fn pow10(k: nat) -> nat
    decreases k,
{
    if k == 0 {
        1
    } else {
        10 * pow10((k - 1) as nat)
    }
}

/// A number below `10^k` has at most `k` decimal digits.
pub proof fn lemma_dec_len(n: nat, k: nat)
    requires
        k >= 1,
        n < pow10(k),
    ensures
        dec_spec(n).len() <= k,
    decreases k,
{
    if n >= 10 {
        assert(n / 10 < pow10((k - 1) as nat)) by (nonlinear_arith)
            requires
                n < pow10(k),
                k >= 1,
                pow10(k) == 10 * pow10((k - 1) as nat),
        ;
        if k == 1 {
            assert(pow10(0) == 1);
        } else {
            lemma_dec_len(n / 10, (k - 1) as nat);
        }
    }
}

/// Any 64-bit number has at most twenty decimal digits.
pub proof fn lemma_dec_len_u64(n: nat)
    requires
        n <= u64::MAX,
    ensures
        dec_spec(n).len() <= 20,
{
    reveal_with_fuel(pow10, 21);
    assert(pow10(20) == 100000000000000000000);
    lemma_dec_len(n, 20);
}

/// Writes `n` in decimal.
pub fn dec_chars(n: u64) -> (r: Vec<char>)
    ensures
        r@ == dec_spec(n as nat),
    decreases n,
{
    if n < 10 {
        let c = char_of_digit(n as u8);
        vec![c]
    } else {
        let mut r = dec_chars(n / 10);
        r.push(char_of_digit((n % 10) as u8));
        r
    }
}

/// The character of a decimal digit.
pub fn char_of_digit(d: u8) -> (c: char)
    requires
        d < 10,
    ensures
        c == ((d + '0' as u32) as char),
{
    match d {
        0 => '0',
        1 => '1',
        2 => '2',
        3 => '3',
        4 => '4',
        5 => '5',
        6 => '6',
        7 => '7',
        8 => '8',
        _ => '9',
    }
}

/// Writes `n` in decimal, zero-padded to `width` characters.
pub fn dec_padded(n: u64, width: usize) -> (r: Vec<char>)
    ensures
        r@ == dec_padded_spec(n as nat, width as nat),
{
    let d = dec_chars(n);
    if d.len() >= width {
        return d;
    }
    let mut r: Vec<char> = Vec::new();
    let pad = width - d.len();
    let mut i: usize = 0;
    while i < pad
        invariant
            i <= pad,
            r@ == Seq::new(i as nat, |k: int| '0'),
        decreases pad - i,
    {
        r.push('0');
        i = i + 1;
        assert(r@ =~= Seq::new(i as nat, |k: int| '0'));
    }
    let mut j: usize = 0;
    while j < d.len()
        invariant
            j <= d@.len(),
            r@ == Seq::new(pad as nat, |k: int| '0') + d@.take(j as int),
        decreases d@.len() - j,
    {
        r.push(d[j]);
        j = j + 1;
        assert(r@ =~= Seq::new(pad as nat, |k: int| '0') + d@.take(j as int));
    }
    assert(d@.take(d@.len() as int) =~= d@);
    r
}

/// Appends the characters of `src` to `dst`.
pub fn append_chars(dst: &mut Vec<char>, src: &[char])
    ensures
        final(dst)@ == old(dst)@ + src@,
{
    let mut i: usize = 0;
    while i < src.len()
        invariant
            i <= src@.len(),
            dst@ == old(dst)@ + src@.take(i as int),
        decreases src@.len() - i,
    {
        dst.push(src[i]);
        i = i + 1;
        assert(dst@ =~= old(dst)@ + src@.take(i as int));
    }
    assert(src@.take(src@.len() as int) =~= src@);
}

} // verus!
