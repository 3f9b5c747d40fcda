//! Characters, numbers written in digits, and the strings built from them.

use vstd::prelude::*;

verus! {

/// `String::push` appends one character to the end of the string.
pub assume_specification[ String::push ](s: &mut String, ch: char)
    ensures
        final(s)@ == old(s)@.push(ch),
;

/// The characters of `s`, in order.
pub fn chars_of(s: &str) -> (v: Vec<char>)
    ensures
        v@ == s@,
{
    let mut v: Vec<char> = Vec::new();
    for c in it: s.chars()
        invariant
            v@ == it.seq().take(it.index()),
            it.seq() == s@,
    {
        v.push(c);
    }
    v
}

/// The character that writes the digit `d`, for `d` below ten.
pub open spec fn digit_char(d: nat) -> char {
    if d == 0 {
        '0'
    } else if d == 1 {
        '1'
    } else if d == 2 {
        '2'
    } else if d == 3 {
        '3'
    } else if d == 4 {
        '4'
    } else if d == 5 {
        '5'
    } else if d == 6 {
        '6'
    } else if d == 7 {
        '7'
    } else if d == 8 {
        '8'
    } else {
        '9'
    }
}

/// The decimal digits of `n`, most significant first, without leading zeros.
pub open spec fn decimal(n: nat) -> Seq<char>
    decreases n,
{
    if n < 10 {
        seq![digit_char(n)]
    } else {
        decimal(n / 10).push(digit_char(n % 10))
    }
}

/// `n` in decimal, with a zero in front where one digit would do.
pub open spec fn padded2(n: nat) -> Seq<char> {
    if n < 10 {
        seq!['0'] + decimal(n)
    } else {
        decimal(n)
    }
}

/// `n` in decimal, with a minus sign in front where it is negative.
pub open spec fn signed_decimal(n: int) -> Seq<char> {
    if n < 0 {
        seq!['-'] + decimal((-n) as nat)
    } else {
        decimal(n as nat)
    }
}

/// The character for one decimal digit.
pub fn digit_to_char(d: u8) -> (c: char)
    requires
        d < 10,
    ensures
        c == digit_char(d as nat),
{
    if d == 0 {
        '0'
    } else if d == 1 {
        '1'
    } else if d == 2 {
        '2'
    } else if d == 3 {
        '3'
    } else if d == 4 {
        '4'
    } else if d == 5 {
        '5'
    } else if d == 6 {
        '6'
    } else if d == 7 {
        '7'
    } else if d == 8 {
        '8'
    } else {
        '9'
    }
}

/// Appends `n` in decimal to `out`.
pub fn push_decimal(out: &mut String, n: u128)
    ensures
        final(out)@ == old(out)@ + decimal(n as nat),
    decreases n,
{
    if n >= 10 {
        push_decimal(out, n / 10);
    }
    let d: u8 = (n % 10) as u8;
    out.push(digit_to_char(d));
    assert(out@ =~= old(out)@ + decimal(n as nat));
}

/// Appends `n` in decimal to `out`, in two digits at least.
pub fn push_padded2(out: &mut String, n: u32)
    ensures
        final(out)@ == old(out)@ + padded2(n as nat),
{
    if n < 10 {
        out.push('0');
    }
    push_decimal(out, n as u128);
    assert(out@ =~= old(out)@ + padded2(n as nat));
}

/// Appends `n` in decimal to `out`, with its sign where it is negative.
pub fn push_signed(out: &mut String, n: i64)
    ensures
        final(out)@ == old(out)@ + signed_decimal(n as int),
{
    if n < 0 {
        out.push('-');
        let m: u128 = (-(n as i128)) as u128;
        push_decimal(out, m);
    } else {
        push_decimal(out, n as u128);
    }
    assert(out@ =~= old(out)@ + signed_decimal(n as int));
}

/// `n` in decimal.
pub fn decimal_string(n: u128) -> (s: String)
    ensures
        s@ == decimal(n as nat),
{
    let mut s = String::new();
    push_decimal(&mut s, n);
    assert(s@ =~= decimal(n as nat));
    s
}

/// What the character `c` counts for as a digit: `0` to `9` for the ten
/// figures, ten to thirty-five for the letters of either case, and thirty-six
/// for every other character.
pub open spec fn digit_of(c: char) -> nat {
    let v = c as nat;
    if 48 <= v <= 57 {
        (v - 48) as nat
    } else if 97 <= v <= 122 {
        (v - 87) as nat
    } else if 65 <= v <= 90 {
        (v - 55) as nat
    } else {
        36
    }
}

/// Every character of `s` is a digit of base `radix`.
pub open spec fn all_digits(s: Seq<char>, radix: nat) -> bool {
    forall|i: int| 0 <= i < s.len() ==> digit_of(#[trigger] s[i]) < radix
}

/// The number that the digits `s` write in base `radix`.
pub open spec fn digits_value(s: Seq<char>, radix: nat) -> nat
    decreases s.len(),
{
    if s.len() == 0 {
        0
    } else {
        digits_value(s.drop_last(), radix) * radix + digit_of(s.last())
    }
}

/// The number that `s` writes in base `radix`, where it is a number of at
/// most `max`: an optional plus sign, then one digit or more and nothing else.
pub open spec fn unsigned_number(s: Seq<char>, radix: nat, max: nat) -> Option<nat> {
    let body = if s.len() > 0 && s[0] == '+' {
        s.skip(1)
    } else {
        s
    };
    if body.len() > 0 && all_digits(body, radix) && digits_value(body, radix) <= max {
        Some(digits_value(body, radix))
    } else {
        None
    }
}

/// The number in a field of a record: hexadecimal after the prefix `0x`,
/// decimal otherwise.
pub open spec fn unsigned_field(s: Seq<char>, max: nat) -> Option<nat> {
    if s.len() >= 2 && s[0] == '0' && s[1] == 'x' {
        unsigned_number(s.skip(2), 16, max)
    } else {
        unsigned_number(s, 10, max)
    }
}

/// What `c` counts for as a digit.
pub fn digit_value(c: char) -> (d: u8)
    ensures
        d == digit_of(c),
{
    let v: u32 = c as u32;
    if 48 <= v && v <= 57 {
        (v - 48) as u8
    } else if 97 <= v && v <= 122 {
        (v - 87) as u8
    } else if 65 <= v && v <= 90 {
        (v - 55) as u8
    } else {
        36
    }
}

/// A number is no smaller than the number that its first `k` digits write.
pub proof fn lemma_value_grows(s: Seq<char>, k: int, radix: nat)
    requires
        0 <= k <= s.len(),
        radix >= 1,
    ensures
        digits_value(s.take(k), radix) <= digits_value(s, radix),
    decreases s.len(),
{
    if k == s.len() {
        assert(s.take(k) =~= s);
    } else {
        let front = s.drop_last();
        lemma_value_grows(front, k, radix);
        assert(front.take(k) =~= s.take(k));
        assert(digits_value(front, radix) * radix >= digits_value(front, radix))
            by (nonlinear_arith)
            requires
                radix >= 1,
        ;
    }
}

/// Reads the characters of `v` from `start` on as a number in base `radix`.
pub fn parse_number(v: &Vec<char>, start: usize, radix: u8, max: u128) -> (r: Option<u128>)
    requires
        start <= v.len(),
        2 <= radix <= 36,
    ensures
        match r {
            Some(n) => unsigned_number(v@.skip(start as int), radix as nat, max as nat) == Some(
                n as nat,
            ),
            None => unsigned_number(v@.skip(start as int), radix as nat, max as nat) is None,
        },
{
    let ghost s = v@.skip(start as int);
    let mut first: usize = start;
    if first < v.len() && v[first] == '+' {
        first += 1;
    }
    let ghost body = v@.skip(first as int);
    assert(body =~= if s.len() > 0 && s[0] == '+' {
        s.skip(1)
    } else {
        s
    });
    if first == v.len() {
        return None;
    }
    let mut acc: u128 = 0;
    let mut i: usize = first;
    while i < v.len()
        invariant
            first <= i <= v.len(),
            2 <= radix <= 36,
            start <= v.len(),
            s == v@.skip(start as int),
            body == v@.skip(first as int),
            body == if s.len() > 0 && s[0] == '+' {
                s.skip(1)
            } else {
                s
            },
            acc == digits_value(body.take(i - first), radix as nat),
            all_digits(body.take(i - first), radix as nat),
            acc <= max,
        decreases v.len() - i,
    {
        let d: u8 = digit_value(v[i]);
        let ghost next = body.take(i - first + 1);
        assert(next.drop_last() =~= body.take(i - first));
        assert(next.last() == v@[i as int]);
        if d >= radix {
            assert(body[i - first] == v@[i as int]);
            return None;
        }
        let grown: Option<u128> = match acc.checked_mul(radix as u128) {
            Some(m) => m.checked_add(d as u128),
            None => None,
        };
        match grown {
            Some(g) => {
                if g > max {
                    proof {
                        lemma_value_grows(body, i - first + 1, radix as nat);
                    }
                    return None;
                }
                acc = g;
            },
            None => {
                proof {
                    lemma_value_grows(body, i - first + 1, radix as nat);
                }
                return None;
            },
        }
        i += 1;
    }
    assert(body.take(i - first) =~= body);
    Some(acc)
}

/// Reads a field of a record as a number of at most `max`.
pub fn parse_unsigned(s: &str, max: u128) -> (r: Option<u128>)
    ensures
        match r {
            Some(n) => unsigned_field(s@, max as nat) == Some(n as nat),
            None => unsigned_field(s@, max as nat) is None,
        },
{
    let v = chars_of(s);
    if v.len() >= 2 && v[0] == '0' && v[1] == 'x' {
        parse_number(&v, 2, 16, max)
    } else {
        assert(v@.skip(0) =~= v@);
        parse_number(&v, 0, 10, max)
    }
}

/// What the digits of a number in decimal are like: there is one at least,
/// each is a decimal digit, they write the number, and the first is no zero
/// unless the number is below ten. Numbers below a thousand have three
/// digits at most.
pub proof fn lemma_decimal_digits(n: nat)
    ensures
        decimal(n).len() >= 1,
        all_digits(decimal(n), 10),
        digits_value(decimal(n), 10) == n,
        n >= 10 ==> decimal(n)[0] != '0',
        n < 10 ==> decimal(n).len() == 1,
        10 <= n < 100 ==> decimal(n).len() == 2,
        100 <= n < 1000 ==> decimal(n).len() == 3,
    decreases n,
{
    if n < 10 {
        assert(digit_of(digit_char(n)) == n);
        assert(decimal(n).drop_last() =~= Seq::<char>::empty());
        assert(digits_value(decimal(n).drop_last(), 10) == 0);
    } else {
        let front = decimal(n / 10);
        lemma_decimal_digits(n / 10);
        assert(digit_of(digit_char(n % 10)) == n % 10);
        assert(decimal(n).drop_last() =~= front);
        assert(decimal(n)[0] == front[0]);
        assert forall|i: int| 0 <= i < decimal(n).len() implies digit_of(
            #[trigger] decimal(n)[i],
        ) < 10 by {
            if i < front.len() {
                assert(decimal(n)[i] == front[i]);
            }
        }
    }
}

/// A number written in decimal is read as itself.
pub proof fn lemma_decimal_parses(n: nat, max: nat)
    requires
        n <= max,
    ensures
        unsigned_field(decimal(n), max) == Some(n),
{
    lemma_decimal_digits(n);
    let s = decimal(n);
    assert(digit_of(s[0]) < 10);
    if s.len() >= 2 {
        assert(digit_of(s[1]) < 10);
    }
}

/// A decimal digit is the character that writes what it counts for.
pub proof fn lemma_digit_char_of(c: char)
    requires
        digit_of(c) < 10,
    ensures
        digit_char(digit_of(c)) == c,
{
    let v = c as nat;
    assert(48 <= v <= 57);
    if v == 48 {
        assert(c == '0');
    } else if v == 49 {
        assert(c == '1');
    } else if v == 50 {
        assert(c == '2');
    } else if v == 51 {
        assert(c == '3');
    } else if v == 52 {
        assert(c == '4');
    } else if v == 53 {
        assert(c == '5');
    } else if v == 54 {
        assert(c == '6');
    } else if v == 55 {
        assert(c == '7');
    } else if v == 56 {
        assert(c == '8');
    } else {
        assert(c == '9');
    }
}

/// Digits that begin with no zero write a number above zero.
pub proof fn lemma_value_positive(s: Seq<char>)
    requires
        s.len() >= 1,
        all_digits(s, 10),
        s[0] != '0',
    ensures
        digits_value(s, 10) >= 1,
    decreases s.len(),
{
    if s.len() == 1 {
        assert(s.drop_last() =~= Seq::<char>::empty());
        assert(digits_value(s.drop_last(), 10) == 0);
        assert(s.last() == s[0]);
        lemma_digit_char_of(s[0]);
    } else {
        let front = s.drop_last();
        assert(front[0] == s[0]);
        assert forall|i: int| 0 <= i < front.len() implies digit_of(#[trigger] front[i])
            < 10 by {
            assert(front[i] == s[i]);
        }
        lemma_value_positive(front);
    }
}

/// Decimal digits without a zero in front are the decimal digits of the
/// number that they write.
pub proof fn lemma_digits_are_decimal(s: Seq<char>)
    requires
        s.len() >= 1,
        all_digits(s, 10),
        s.len() > 1 ==> s[0] != '0',
    ensures
        decimal(digits_value(s, 10)) == s,
    decreases s.len(),
{
    let last = s.last();
    lemma_digit_char_of(last);
    if s.len() == 1 {
        assert(s.drop_last() =~= Seq::<char>::empty());
        assert(digits_value(s.drop_last(), 10) == 0);
        assert(decimal(digits_value(s, 10)) =~= s);
    } else {
        let front = s.drop_last();
        assert(front[0] == s[0]);
        assert forall|i: int| 0 <= i < front.len() implies digit_of(#[trigger] front[i])
            < 10 by {
            assert(front[i] == s[i]);
        }
        lemma_value_positive(front);
        lemma_digits_are_decimal(front);
        let v = digits_value(s, 10);
        assert(v / 10 == digits_value(front, 10));
        assert(v % 10 == digit_of(last));
        assert(decimal(v) =~= s);
    }
}

/// Where `sep` first stands, it stands, and it stands nowhere before.
pub proof fn lemma_first_index_found(s: Seq<char>, sep: char)
    ensures
        first_index(s, sep) <= s.len(),
        first_index(s, sep) < s.len() ==> s[first_index(s, sep) as int] == sep,
        forall|k: int| 0 <= k < first_index(s, sep) ==> s[k] != sep,
    decreases s.len(),
{
    if s.len() > 0 && s[0] != sep {
        let rest = s.drop_first();
        lemma_first_index_found(rest, sep);
        assert forall|k: int| 0 <= k < first_index(s, sep) implies s[k] != sep by {
            if k > 0 {
                assert(rest[k - 1] == s[k]);
            }
        }
    }
}

/// The pieces of a text, put together again with the separator between each
/// two, are the text: the text is its first piece where there is no other,
/// else its first piece, the separator, and the text of the other pieces.
pub proof fn lemma_split_shape(s: Seq<char>, sep: char) -> (rest: Seq<char>)
    ensures
        split(s, sep).len() >= 1,
        split(s, sep).len() == 1 ==> s == split(s, sep)[0],
        split(s, sep).len() > 1 ==> s == split(s, sep)[0] + seq![sep] + rest && split(rest, sep)
            == split(s, sep).skip(1),
        forall|k: int| 0 <= k < split(s, sep)[0].len() ==> split(s, sep)[0][k] != sep,
{
    lemma_first_index_found(s, sep);
    let i = first_index(s, sep) as int;
    if i >= s.len() {
        s
    } else {
        let rest = s.skip(i + 1);
        lemma_first_index_found(rest, sep);
        assert(split(rest, sep).len() >= 1) by {
            let j = first_index(rest, sep);
            if j >= rest.len() {
            } else {
            }
        }
        assert(s =~= s.take(i) + seq![sep] + rest);
        assert(split(s, sep).skip(1) =~= split(rest, sep));
        rest
    }
}

/// Where `sep` first stands in `s`, or the length of `s` where it does not.
pub open spec fn first_index(s: Seq<char>, sep: char) -> nat
    decreases s.len(),
{
    if s.len() == 0 || s[0] == sep {
        0
    } else {
        1 + first_index(s.drop_first(), sep)
    }
}

/// The pieces of `s` between the occurrences of `sep`: one more than there
/// are occurrences.
pub open spec fn split(s: Seq<char>, sep: char) -> Seq<Seq<char>>
    decreases s.len(),
{
    let i = first_index(s, sep);
    if i >= s.len() {
        seq![s]
    } else {
        seq![s.take(i as int)] + split(s.skip(i as int + 1), sep)
    }
}

/// The character sequences that the vectors of `parts` hold.
pub open spec fn views(parts: Seq<Vec<char>>) -> Seq<Seq<char>> {
    Seq::new(parts.len(), |i: int| parts[i]@)
}

/// `sep` first stands at `n`, where it stands there and nowhere before.
pub proof fn lemma_first_index(s: Seq<char>, sep: char, n: int)
    requires
        0 <= n <= s.len(),
        forall|k: int| 0 <= k < n ==> s[k] != sep,
        n == s.len() || s[n] == sep,
    ensures
        first_index(s, sep) == n,
    decreases n,
{
    if n > 0 {
        let rest = s.drop_first();
        assert forall|k: int| 0 <= k < n - 1 implies rest[k] != sep by {
            assert(rest[k] == s[k + 1]);
        }
        lemma_first_index(rest, sep, n - 1);
    }
}

/// Cuts `v` at every occurrence of `sep`.
pub fn split_chars(v: &Vec<char>, sep: char) -> (parts: Vec<Vec<char>>)
    ensures
        views(parts@) == split(v@, sep),
{
    let mut parts: Vec<Vec<char>> = Vec::new();
    let mut cur: Vec<char> = Vec::new();
    let mut start: usize = 0;
    let mut i: usize = 0;
    assert(v@.skip(0) =~= v@);
    assert(views(parts@) + split(v@, sep) =~= split(v@, sep));
    while i < v.len()
        invariant
            start <= i <= v.len(),
            cur@ == v@.subrange(start as int, i as int),
            forall|k: int| start <= k < i ==> v@[k] != sep,
            split(v@, sep) == views(parts@) + split(v@.skip(start as int), sep),
        decreases v.len() - i,
    {
        if v[i] == sep {
            proof {
                let rest = v@.skip(start as int);
                lemma_first_index(rest, sep, i - start);
                assert(rest.take(i - start) =~= cur@);
                assert(rest.skip(i - start + 1) =~= v@.skip(i + 1));
                assert(views(parts@.push(cur)) =~= views(parts@) + seq![cur@]);
                assert(views(parts@) + (seq![cur@] + split(v@.skip(i + 1), sep)) =~= views(
                    parts@.push(cur),
                ) + split(v@.skip(i + 1), sep));
            }
            parts.push(cur);
            cur = Vec::new();
            start = i + 1;
            assert(cur@ =~= v@.subrange(start as int, i + 1));
        } else {
            cur.push(v[i]);
            assert(cur@ =~= v@.subrange(start as int, i + 1));
        }
        i += 1;
    }
    proof {
        let rest = v@.skip(start as int);
        lemma_first_index(rest, sep, rest.len() as int);
        assert(rest =~= cur@);
        assert(views(parts@.push(cur)) =~= views(parts@) + seq![cur@]);
    }
    parts.push(cur);
    parts
}

} // verus!
