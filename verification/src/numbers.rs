//! Decimal formatting and parsing of integers, and the game's x-separated
//! integer lists.
//!
//! The client sends lists such as track shapes as `"1x2x3x4x"`: every value
//! followed by `x`, with a trailing `x`. An empty list is joined as `"x"`.

use vstd::prelude::*;

verus! {

pub open spec fn is_digit(c: char) -> bool {
    48 <= c as int && c as int <= 57
}

pub open spec fn digit_val(c: char) -> int {
    c as int - 48
}

pub open spec fn digit_char(d: int) -> char {
    if d == 0 {
        '0'
    } else if d == 1 {
        '1'
    } else if d == 2 {
        '2'
    } else if d == 3 {
        '3'
    } else if d == 4 {
        '4'
    } else if d == 5 {
        '5'
    } else if d == 6 {
        '6'
    } else if d == 7 {
        '7'
    } else if d == 8 {
        '8'
    } else {
        '9'
    }
}

pub open spec fn all_digits(s: Seq<char>) -> bool {
    forall|i: int| 0 <= i < s.len() ==> is_digit(#[trigger] s[i])
}

/// The numeric value of a digit string, most significant digit first.
pub open spec fn dec_val(s: Seq<char>) -> int
    decreases s.len(),
{
    if s.len() == 0 {
        0
    } else {
        dec_val(s.drop_last()) * 10 + digit_val(s.last())
    }
}

/// The canonical digit string of a non-negative integer.
pub open spec fn dec_digits(n: int) -> Seq<char>
    recommends
        n >= 0,
    decreases n,
{
    if n < 10 {
        seq![digit_char(if n >= 0 { n } else { 0 })]
    } else {
        dec_digits(n / 10).push(digit_char(n % 10))
    }
}

/// The canonical decimal string of an integer, `-` prefixed when negative.
pub open spec fn dec_str(n: int) -> Seq<char> {
    if n < 0 {
        seq!['-'] + dec_digits(-n)
    } else {
        dec_digits(n)
    }
}

proof fn lemma_digit_char_val(d: int)
    requires
        0 <= d <= 9,
    ensures
        is_digit(digit_char(d)),
        digit_val(digit_char(d)) == d,
{
}

pub proof fn lemma_dec_digits_ok(n: int)
    requires
        n >= 0,
    ensures
        dec_digits(n).len() >= 1,
        all_digits(dec_digits(n)),
        dec_val(dec_digits(n)) == n,
    decreases n,
{
    if n < 10 {
        lemma_digit_char_val(n);
        assert(dec_digits(n) =~= seq![digit_char(n)]);
        assert(dec_digits(n).drop_last() =~= Seq::<char>::empty());
        assert(dec_val(Seq::<char>::empty()) == 0);
        assert(dec_val(dec_digits(n)) == 0 * 10 + digit_val(digit_char(n)));
    } else {
        lemma_dec_digits_ok(n / 10);
        lemma_digit_char_val(n % 10);
        assert(dec_digits(n).drop_last() =~= dec_digits(n / 10));
        assert forall|i: int| 0 <= i < dec_digits(n).len() implies is_digit(
            #[trigger] dec_digits(n)[i],
        ) by {
            if i < dec_digits(n).len() - 1 {
                assert(dec_digits(n)[i] == dec_digits(n / 10)[i]);
            }
        }
    }
}

/// Ten to the `n`-th power.
pub open spec fn pow10(n: nat) -> int
    decreases n,
{
    if n == 0 {
        1
    } else {
        10 * pow10((n - 1) as nat)
    }
}

pub proof fn lemma_pow10_pos(n: nat)
    ensures
        pow10(n) >= 1,
    decreases n,
{
    if n > 0 {
        lemma_pow10_pos((n - 1) as nat);
    }
}

pub proof fn lemma_pow10_mono(a: nat, b: nat)
    requires
        a <= b,
    ensures
        pow10(a) <= pow10(b),
    decreases b,
{
    if a < b {
        lemma_pow10_mono(a, (b - 1) as nat);
        lemma_pow10_pos((b - 1) as nat);
    }
}

/// Ten to the sixteenth, written out.
pub proof fn lemma_pow10_16()
    ensures
        pow10(16) == 10000000000000000,
{
    assert(pow10(0) == 1);
    assert(pow10(1) == 10);
    assert(pow10(2) == 100);
    assert(pow10(3) == 1000);
    assert(pow10(4) == 10000);
    assert(pow10(5) == 100000);
    assert(pow10(6) == 1000000);
    assert(pow10(7) == 10000000);
    assert(pow10(8) == 100000000);
    assert(pow10(9) == 1000000000);
    assert(pow10(10) == 10000000000);
    assert(pow10(11) == 100000000000);
    assert(pow10(12) == 1000000000000);
    assert(pow10(13) == 10000000000000);
    assert(pow10(14) == 100000000000000);
    assert(pow10(15) == 1000000000000000);
}

pub open spec fn no_x(s: Seq<char>) -> bool {
    forall|i: int| 0 <= i < s.len() ==> (#[trigger] s[i]) != 'x'
}

/// `dec_str` produces a valid integer literal that reads back as `n`, and it
/// never holds the list separator `x`.
pub proof fn lemma_dec_str_ok(n: int)
    ensures
        dec_str(n).len() >= 1,
        valid_int_str(dec_str(n)),
        int_str_val(dec_str(n)) == n,
        no_x(dec_str(n)),
{
    if n < 0 {
        lemma_dec_digits_ok(-n);
        let s = dec_str(n);
        assert(s[0] == '-');
        assert(s.skip(1) =~= dec_digits(-n));
        assert(forall|i: int|
            1 <= i < s.len() ==> #[trigger] s[i] == dec_digits(-n)[i - 1]);
        assert(no_x(s));
    } else {
        lemma_dec_digits_ok(n);
        let s = dec_str(n);
        assert(s[0] != '-' && s[0] != '+') by {
            assert(is_digit(s[0]));
        }
        assert(s.skip(0) =~= s);
        assert(no_x(s)) by {
            assert(forall|i: int| 0 <= i < s.len() ==> is_digit(#[trigger] s[i]));
        }
    }
}

/// Does the string parse as an (optionally signed) decimal integer?
pub open spec fn valid_int_str(s: Seq<char>) -> bool {
    let t = int_str_body(s);
    s.len() > 0 && t.len() > 0 && all_digits(t)
}

/// The digit part of an integer literal, the sign stripped.
pub open spec fn int_str_body(s: Seq<char>) -> Seq<char> {
    if s.len() > 0 && (s[0] == '-' || s[0] == '+') {
        s.skip(1)
    } else {
        s
    }
}

/// The signed value of an integer literal.
pub open spec fn int_str_val(s: Seq<char>) -> int {
    if s.len() > 0 && s[0] == '-' {
        -dec_val(int_str_body(s))
    } else {
        dec_val(int_str_body(s))
    }
}

proof fn lemma_dec_val_nonneg(s: Seq<char>)
    requires
        all_digits(s),
    ensures
        dec_val(s) >= 0,
    decreases s.len(),
{
    if s.len() > 0 {
        assert(all_digits(s.drop_last())) by {
            assert(forall|i: int|
                0 <= i < s.len() - 1 ==> #[trigger] s.drop_last()[i] == s[i]);
        }
        lemma_dec_val_nonneg(s.drop_last());
    }
}

/// Appending digits never shrinks the value of a digit string.
proof fn lemma_dec_val_prefix_le(s: Seq<char>, i: int)
    requires
        all_digits(s),
        0 <= i <= s.len(),
    ensures
        dec_val(s.take(i)) <= dec_val(s),
    decreases s.len() - i,
{
    if i < s.len() {
        let t = s.take(i + 1);
        assert(t.drop_last() =~= s.take(i));
        assert(all_digits(s.take(i))) by {
            assert(forall|j: int|
                0 <= j < i ==> #[trigger] s.take(i)[j] == s[j]);
        }
        lemma_dec_val_nonneg(s.take(i));
        assert(dec_val(t) == dec_val(s.take(i)) * 10 + digit_val(s[i]));
        assert(dec_val(s.take(i)) * 10 >= dec_val(s.take(i)));
        assert(digit_val(s[i]) >= 0);
        lemma_dec_val_prefix_le(s, i + 1);
        assert(s.take(s.len() as int) =~= s);
    } else {
        assert(s.take(i) =~= s);
    }
}

/// Formats a non-negative integer as its decimal digit string.
fn u64_to_chars(n: u64) -> (r: Vec<char>)
    ensures
        r@ == dec_digits(n as int),
{
    let mut rev: Vec<char> = Vec::new();
    let mut m: u64 = n;
    // digits of n, least significant first
    while m >= 10
        invariant
            dec_digits(n as int) == dec_digits(m as int) + rev@.reverse(),
        decreases m,
    {
        let d: u64 = m % 10;
        let ghost prev = rev@;
        rev.push(digit_of(d));
        proof {
            assert(rev@.reverse() =~= seq![digit_char(d as int)] + prev.reverse());
            assert(dec_digits(m as int) =~= dec_digits((m / 10) as int).push(
                digit_char((m % 10) as int),
            ));
            assert(dec_digits((m / 10) as int).push(digit_char(d as int)) + prev.reverse()
                =~= dec_digits((m / 10) as int) + (seq![digit_char(d as int)]
                + prev.reverse()));
        }
        m = m / 10;
    }
    let ghost prev = rev@;
    rev.push(digit_of(m));
    proof {
        assert(dec_digits(m as int) =~= seq![digit_char(m as int)]);
        assert(rev@.reverse() =~= seq![digit_char(m as int)] + prev.reverse());
        assert(dec_digits(n as int) =~= dec_digits(m as int) + prev.reverse());
    }
    let mut r: Vec<char> = Vec::new();
    let mut i: usize = rev.len();
    while i > 0
        invariant
            i <= rev@.len(),
            r@ =~= rev@.subrange(i as int, rev@.len() as int).reverse(),
        decreases i,
    {
        i = i - 1;
        r.push(rev[i]);
        proof {
            assert(rev@.subrange(i as int, rev@.len() as int).reverse() =~= rev@.subrange(
                i + 1,
                rev@.len() as int,
            ).reverse().push(rev@[i as int]));
        }
    }
    proof {
        assert(rev@.subrange(0, rev@.len() as int) =~= rev@);
    }
    r
}

fn digit_of(d: u64) -> (c: char)
    requires
        d <= 9,
    ensures
        c == digit_char(d as int),
{
    match d {
        0 => '0',
        1 => '1',
        2 => '2',
        3 => '3',
        4 => '4',
        5 => '5',
        6 => '6',
        7 => '7',
        8 => '8',
        _ => '9',
    }
}

/// Formats a signed integer as its decimal string.
pub fn i64_to_chars(n: i64) -> (r: Vec<char>)
    ensures
        r@ == dec_str(n as int),
{
    if n >= 0 {
        u64_to_chars(n as u64)
    } else {
        let mag: u64 = if n == i64::MIN {
            9223372036854775808u64
        } else {
            (-n) as u64
        };
        let mut r: Vec<char> = Vec::new();
        r.push('-');
        let ds = u64_to_chars(mag);
        let mut j: usize = 0;
        while j < ds.len()
            invariant
                j <= ds@.len(),
                r@ == seq!['-'] + ds@.take(j as int),
        decreases ds@.len() - j,
        {
            r.push(ds[j]);
            proof {
                assert(seq!['-'] + ds@.take(j as int) + seq![ds@[j as int]] =~= seq!['-']
                    + ds@.take(j + 1));
            }
            j = j + 1;
        }
        proof {
            assert(ds@.take(ds@.len() as int) =~= ds@);
        }
        r
    }
}

/// Formats a signed 32-bit integer as its decimal string.
pub fn i32_to_chars(n: i32) -> (r: Vec<char>)
    ensures
        r@ == dec_str(n as int),
{
    i64_to_chars(n as i64)
}

pub open spec fn in_i32_range(v: int) -> bool {
    i32::MIN <= v <= i32::MAX
}

fn is_digit_exec(c: char) -> (r: bool)
    ensures
        r == is_digit(c),
{
    c >= '0' && c <= '9'
}

/// Parses an (optionally signed) decimal integer, exactly when the
/// characters form a valid literal whose value fits in `i32`.
#[verifier::loop_isolation(false)]
pub fn parse_i32_chars(p: &Vec<char>) -> (r: Option<i32>)
    ensures
        match r {
            Some(v) => valid_int_str(p@) && in_i32_range(int_str_val(p@)) && v as int
                == int_str_val(p@),
            None => !(valid_int_str(p@) && in_i32_range(int_str_val(p@))),
        },
{
    if p.len() == 0 {
        return None;
    }
    let first = p[0];
    let neg: bool = first == '-';
    let start: usize = if first == '-' || first == '+' {
        1
    } else {
        0
    };
    if p.len() == start {
        return None;
    }
    let ghost t = int_str_body(p@);
    proof {
        assert(t =~= p@.skip(start as int));
    }
    let limit: i64 = if neg {
        2147483648
    } else {
        2147483647
    };
    let mut acc: i64 = 0;
    let mut i: usize = start;
    while i < p.len()
        invariant
            start <= i <= p@.len(),
            start <= 1,
            t == p@.skip(start as int),
            t.len() == p@.len() - start,
            forall|j: int| 0 <= j < i - start ==> is_digit(#[trigger] t[j]),
            0 <= acc <= limit,
            limit <= 2147483648,
            acc == dec_val(t.take(i - start)),
        decreases p@.len() - i,
    {
        let c = p[i];
        proof {
            assert(t[i - start] == p@[i as int]);
        }
        if !is_digit_exec(c) {
            return None;
        }
        let d: i64 = (c as u32) as i64 - 48;
        let next: i64 = acc * 10 + d;
        proof {
            assert(t.take(i - start + 1).drop_last() =~= t.take(i - start));
            assert(dec_val(t.take(i - start + 1)) == acc * 10 + d);
        }
        if next > limit {
            proof {
                if all_digits(t) {
                    lemma_dec_val_prefix_le(t, i - start + 1);
                    assert(dec_val(t) >= next);
                    if neg {
                        assert(int_str_val(p@) == -dec_val(t));
                        assert(!in_i32_range(int_str_val(p@)));
                    } else {
                        assert(p@[0] != '-');
                        assert(int_str_val(p@) == dec_val(t));
                        assert(!in_i32_range(int_str_val(p@)));
                    }
                }
            }
            return None;
        }
        acc = next;
        i = i + 1;
    }
    proof {
        assert(t.take(t.len() as int) =~= t);
        assert(valid_int_str(p@));
        if neg {
            assert(int_str_val(p@) == -dec_val(t));
        } else {
            assert(p@[0] != '-');
            assert(int_str_val(p@) == dec_val(t));
        }
    }
    if neg {
        Some((-acc) as i32)
    } else {
        Some(acc as i32)
    }
}

/// The pieces of a character sequence split on `x`; splitting the empty
/// sequence gives one empty piece.
pub open spec fn split_on_x(s: Seq<char>) -> Seq<Seq<char>>
    decreases s.len(),
{
    if s.len() == 0 {
        seq![Seq::<char>::empty()]
    } else if s.last() == 'x' {
        split_on_x(s.drop_last()).push(Seq::<char>::empty())
    } else {
        let ps = split_on_x(s.drop_last());
        ps.update(ps.len() - 1, ps.last().push(s.last()))
    }
}

pub proof fn lemma_split_on_x_len(s: Seq<char>)
    ensures
        split_on_x(s).len() >= 1,
    decreases s.len(),
{
    if s.len() > 0 {
        lemma_split_on_x_len(s.drop_last());
    }
}

/// The input with one trailing `x` removed, if any.
pub open spec fn strip_trailing_x(s: Seq<char>) -> Seq<char> {
    if s.len() > 0 && s.last() == 'x' {
        s.drop_last()
    } else {
        s
    }
}

/// Is this piece a decimal literal whose value fits in `i32`?
pub open spec fn piece_ok(p: Seq<char>) -> bool {
    valid_int_str(p) && in_i32_range(int_str_val(p))
}

/// A list split on `x` failed to parse.
#[derive(Clone, Copy, Debug, PartialEq, Eq, Structural)]
pub struct ParseError;

/// Splits an x-separated list of `i32` values, as the client writes them:
/// one optional trailing `x` is dropped, the rest is split on `x` and every
/// piece must parse. The empty string and the lone separator `"x"` — the
/// join of the empty list — are both the empty list, so splitting inverts
/// joining for every list.
#[verifier::loop_isolation(false)]
pub fn split_x_separated(s: &str) -> (r: Result<Vec<i32>, ParseError>)
    ensures
        s@.len() == 0 ==> (r matches Ok(v) && v@.len() == 0),
        s@ == seq!['x'] ==> (r matches Ok(v) && v@.len() == 0),
        s@.len() > 0 && s@ != seq!['x'] ==> {
            let ps = split_on_x(strip_trailing_x(s@));
            match r {
                Ok(v) => v@.len() == ps.len() && forall|j: int|
                    0 <= j < ps.len() ==> piece_ok(#[trigger] ps[j]) && v@[j] as int
                        == int_str_val(ps[j]),
                Err(e) => exists|j: int| 0 <= j < ps.len() && !piece_ok(#[trigger] ps[j]),
            }
        },
        r is Ok <==> x_list_ok(s@),
        r matches Ok(v) ==> seq_i32_int(v@) =~= x_list_vals(s@),
{
    let cs = crate::strings::chars_vec(s);
    if cs.len() == 0 {
        let empty: Vec<i32> = Vec::new();
        return Ok(empty);
    }
    if cs.len() == 1 && cs[0] == 'x' {
        proof {
            assert(s@ =~= seq!['x']);
        }
        let empty: Vec<i32> = Vec::new();
        return Ok(empty);
    }
    let end: usize = if cs[cs.len() - 1] == 'x' {
        cs.len() - 1
    } else {
        cs.len()
    };
    let ghost t = strip_trailing_x(s@);
    proof {
        assert(t =~= s@.take(end as int));
    }
    let mut pieces: Vec<Vec<char>> = Vec::new();
    let mut cur: Vec<char> = Vec::new();
    let mut i: usize = 0;
    while i < end
        invariant
            i <= end <= cs@.len(),
            cs@ == s@,
            t == s@.take(end as int),
            pieces.deep_view().push(cur@) == split_on_x(t.take(i as int)),
        decreases end - i,
    {
        let c = cs[i];
        let ghost old_deep = pieces.deep_view();
        let ghost old_cur = cur@;
        proof {
            assert(t.take(i + 1).drop_last() =~= t.take(i as int));
            assert(t[i as int] == s@[i as int]);
        }
        if c == 'x' {
            pieces.push(cur);
            cur = Vec::new();
            proof {
                assert(pieces.deep_view() =~~= old_deep.push(old_cur));
                assert(pieces.deep_view().push(cur@) =~~= split_on_x(t.take(i + 1)));
            }
        } else {
            cur.push(c);
            proof {
                let ps = split_on_x(t.take(i as int));
                lemma_split_on_x_len(t.take(i as int));
                assert(ps.last() == old_cur);
                assert(ps.update(ps.len() - 1, ps.last().push(s@[i as int]))
                    =~~= pieces.deep_view().push(cur@));
            }
        }
        i = i + 1;
    }
    let ghost old_deep = pieces.deep_view();
    pieces.push(cur);
    proof {
        assert(t.take(end as int) =~= t);
        assert(pieces.deep_view() =~~= old_deep.push(cur@));
        assert(pieces.deep_view() =~~= split_on_x(t));
    }
    let mut out: Vec<i32> = Vec::new();
    let mut j: usize = 0;
    while j < pieces.len()
        invariant
            j <= pieces@.len(),
            pieces.deep_view() == split_on_x(t),
            out@.len() == j,
            forall|k: int| 0 <= k < j ==> piece_ok(#[trigger] pieces.deep_view()[k])
                && out@[k] as int == int_str_val(pieces.deep_view()[k]),
        decreases pieces@.len() - j,
    {
        proof {
            assert(pieces.deep_view()[j as int] =~= pieces@[j as int]@);
        }
        match parse_i32_chars(&pieces[j]) {
            Some(v) => {
                out.push(v);
            },
            None => {
                proof {
                    assert(!piece_ok(split_on_x(t)[j as int]));
                }
                return Err(ParseError);
            },
        }
        j = j + 1;
    }
    Ok(out)
}

/// A vector of machine integers viewed as mathematical integers.
pub open spec fn seq_i32_int(v: Seq<i32>) -> Seq<int> {
    v.map_values(|n: i32| n as int)
}

/// Every piece of the stripped input is a parsable `i32`; the empty input
/// and the lone separator are the empty list.
pub open spec fn x_list_ok(s: Seq<char>) -> bool {
    s.len() == 0 || s == seq!['x'] || {
        let ps = split_on_x(strip_trailing_x(s));
        forall|j: int| 0 <= j < ps.len() ==> piece_ok(#[trigger] ps[j])
    }
}

/// The parsed values of an x-separated list.
pub open spec fn x_list_vals(s: Seq<char>) -> Seq<int> {
    if s.len() == 0 || s == seq!['x'] {
        Seq::empty()
    } else {
        split_on_x(strip_trailing_x(s)).map_values(|p: Seq<char>| int_str_val(p))
    }
}

/// The pieces of a character sequence split on `,`; splitting the empty
/// sequence gives one empty piece.
pub open spec fn split_on_comma(s: Seq<char>) -> Seq<Seq<char>>
    decreases s.len(),
{
    if s.len() == 0 {
        seq![Seq::<char>::empty()]
    } else if s.last() == ',' {
        split_on_comma(s.drop_last()).push(Seq::<char>::empty())
    } else {
        let ps = split_on_comma(s.drop_last());
        ps.update(ps.len() - 1, ps.last().push(s.last()))
    }
}

pub proof fn lemma_split_on_comma_len(s: Seq<char>)
    ensures
        split_on_comma(s).len() >= 1,
    decreases s.len(),
{
    if s.len() > 0 {
        lemma_split_on_comma_len(s.drop_last());
    }
}

/// Every comma-separated piece parses as an `i32`. Note the empty input is
/// one empty piece, which does not parse.
pub open spec fn comma_list_ok(s: Seq<char>) -> bool {
    forall|j: int| 0 <= j < split_on_comma(s).len() ==> piece_ok(#[trigger] split_on_comma(s)[j])
}

/// The parsed values of a comma-separated list.
pub open spec fn comma_list_vals(s: Seq<char>) -> Seq<int> {
    split_on_comma(s).map_values(|p: Seq<char>| int_str_val(p))
}

/// Splits a comma-separated list of `i32` values: every piece between
/// commas must parse; there is no trailing-separator allowance and an empty
/// input fails.
#[verifier::loop_isolation(false)]
pub fn split_comma_separated(s: &str) -> (r: Result<Vec<i32>, ParseError>)
    ensures
        r is Ok <==> comma_list_ok(s@),
        r matches Ok(v) ==> v@.len() == split_on_comma(s@).len() && forall|j: int|
            0 <= j < v@.len() ==> v@[j] as int == int_str_val(split_on_comma(s@)[j]),
{
    let cs = crate::strings::chars_vec(s);
    let mut pieces: Vec<Vec<char>> = Vec::new();
    let mut cur: Vec<char> = Vec::new();
    let mut i: usize = 0;
    while i < cs.len()
        invariant
            i <= cs@.len(),
            cs@ == s@,
            pieces.deep_view().push(cur@) == split_on_comma(s@.take(i as int)),
        decreases cs@.len() - i,
    {
        let c = cs[i];
        let ghost old_deep = pieces.deep_view();
        let ghost old_cur = cur@;
        proof {
            assert(s@.take(i + 1).drop_last() =~= s@.take(i as int));
        }
        if c == ',' {
            pieces.push(cur);
            cur = Vec::new();
            proof {
                assert(pieces.deep_view() =~~= old_deep.push(old_cur));
                assert(pieces.deep_view().push(cur@) =~~= split_on_comma(s@.take(i + 1)));
            }
        } else {
            cur.push(c);
            proof {
                let ps = split_on_comma(s@.take(i as int));
                lemma_split_on_comma_len(s@.take(i as int));
                assert(ps.last() == old_cur);
                assert(ps.update(ps.len() - 1, ps.last().push(s@[i as int]))
                    =~~= pieces.deep_view().push(cur@));
            }
        }
        i = i + 1;
    }
    let ghost old_deep = pieces.deep_view();
    pieces.push(cur);
    proof {
        assert(s@.take(s@.len() as int) =~= s@);
        assert(pieces.deep_view() =~~= old_deep.push(cur@));
        assert(pieces.deep_view() =~~= split_on_comma(s@));
    }
    let mut out: Vec<i32> = Vec::new();
    let mut j: usize = 0;
    while j < pieces.len()
        invariant
            j <= pieces@.len(),
            pieces.deep_view() == split_on_comma(s@),
            out@.len() == j,
            forall|k: int|
                0 <= k < j ==> piece_ok(#[trigger] pieces.deep_view()[k]) && out@[k] as int
                    == int_str_val(pieces.deep_view()[k]),
        decreases pieces@.len() - j,
    {
        proof {
            assert(pieces.deep_view()[j as int] =~= pieces@[j as int]@);
        }
        match parse_i32_chars(&pieces[j]) {
            Some(v) => {
                out.push(v);
            },
            None => {
                proof {
                    assert(!piece_ok(split_on_comma(s@)[j as int]));
                }
                return Err(ParseError);
            },
        }
        j = j + 1;
    }
    Ok(out)
}

/// The x-separated rendering of a list: every value followed by `x`. The
/// empty list renders as `"x"`.
pub open spec fn joined_x(v: Seq<i32>) -> Seq<char> {
    if v.len() == 0 {
        seq!['x']
    } else {
        items_x(v)
    }
}

pub open spec fn items_x(v: Seq<i32>) -> Seq<char>
    decreases v.len(),
{
    if v.len() == 0 {
        Seq::<char>::empty()
    } else {
        items_x(v.drop_last()) + dec_str(v.last() as int) + seq!['x']
    }
}

/// Joins a list of `i32` values into the x-separated wire form.
pub fn join_x_separated(v: &Vec<i32>) -> (r: String)
    ensures
        r@ == joined_x(v@),
{
    if v.len() == 0 {
        let s = <String as vstd::string::StringExecFns>::from_str("x");
        proof {
            reveal_strlit("x");
            assert(s@ =~= seq!['x']);
        }
        return s;
    }
    let mut cs: Vec<char> = Vec::new();
    let mut i: usize = 0;
    while i < v.len()
        invariant
            i <= v@.len(),
            cs@ =~= items_x(v@.take(i as int)),
        decreases v@.len() - i,
    {
        let ds = i32_to_chars(v[i]);
        let mut k: usize = 0;
        let ghost base = cs@;
        while k < ds.len()
            invariant
                k <= ds@.len(),
                cs@ == base + ds@.take(k as int),
            decreases ds@.len() - k,
        {
            cs.push(ds[k]);
            proof {
                assert(base + ds@.take(k as int) + seq![ds@[k as int]] =~= base + ds@.take(
                    k + 1,
                ));
            }
            k = k + 1;
        }
        cs.push('x');
        proof {
            assert(ds@.take(ds@.len() as int) =~= ds@);
            assert(v@.take(i + 1).drop_last() =~= v@.take(i as int));
            assert(v@.take(i + 1).last() == v@[i as int]);
            assert(cs@ =~= items_x(v@.take(i as int)) + dec_str(v@[i as int] as int)
                + seq!['x']);
        }
        i = i + 1;
    }
    proof {
        assert(v@.take(v@.len() as int) =~= v@);
    }
    crate::strings::string_from_chars(&cs)
}

proof fn lemma_split_append_no_x(a: Seq<char>, b: Seq<char>)
    requires
        no_x(b),
    ensures
        split_on_x(a + b) == ({
            let ps = split_on_x(a);
            ps.update(ps.len() - 1, ps.last() + b)
        }),
    decreases b.len(),
{
    lemma_split_on_x_len(a);
    let ps = split_on_x(a);
    if b.len() == 0 {
        assert(a + b =~= a);
        assert(ps.last() + b =~= ps.last());
        assert(ps.update(ps.len() - 1, ps.last() + b) =~= ps);
    } else {
        let b0 = b.drop_last();
        assert(no_x(b0)) by {
            assert(forall|i: int| 0 <= i < b0.len() ==> #[trigger] b0[i] == b[i]);
        }
        lemma_split_append_no_x(a, b0);
        let q = split_on_x(a + b0);
        assert((a + b).len() > 0);
        assert((a + b).last() == b.last());
        assert(b.last() != 'x');
        assert((a + b).drop_last() =~= a + b0);
        let qq = q.update(q.len() - 1, q.last().push(b.last()));
        assert(split_on_x(a + b) == qq);
        assert(q == ps.update(ps.len() - 1, ps.last() + b0));
        assert(q.len() == ps.len());
        assert(q.last() == ps.last() + b0);
        assert(ps.last() + b0 + seq![b.last()] =~= ps.last() + b);
        assert(qq =~~= ps.update(ps.len() - 1, ps.last() + b));
    }
}

proof fn lemma_split_append_x(a: Seq<char>)
    ensures
        split_on_x(a + seq!['x']) == split_on_x(a).push(Seq::<char>::empty()),
{
    assert((a + seq!['x']).last() == 'x');
    assert((a + seq!['x']).drop_last() =~= a);
}

/// The non-empty half of the round trip, by induction on the list.
proof fn lemma_x_roundtrip_nonempty(v: Seq<i32>)
    requires
        v.len() >= 1,
    ensures
        joined_x(v).len() > 0,
        joined_x(v).last() == 'x',
        ({
            let ps = split_on_x(strip_trailing_x(joined_x(v)));
            ps.len() == v.len() && forall|j: int|
                0 <= j < ps.len() ==> piece_ok(#[trigger] ps[j]) && int_str_val(ps[j])
                    == v[j]
        }),
    decreases v.len(),
{
    let w = v.drop_last();
    let last = v.last() as int;
    lemma_dec_str_ok(last);
    assert(items_x(v) == items_x(w) + dec_str(last) + seq!['x']);
    assert(joined_x(v) =~= items_x(w) + dec_str(last) + seq!['x']);
    assert(joined_x(v).last() == 'x');
    let t = strip_trailing_x(joined_x(v));
    assert(t =~= items_x(w) + dec_str(last));
    if w.len() == 0 {
        assert(items_x(w) =~= Seq::<char>::empty());
        assert(t =~= Seq::<char>::empty() + dec_str(last));
        lemma_split_append_no_x(Seq::<char>::empty(), dec_str(last));
        let ps0 = split_on_x(Seq::<char>::empty());
        assert(ps0 =~= seq![Seq::<char>::empty()]);
        let ps = split_on_x(t);
        assert(ps =~= seq![Seq::<char>::empty() + dec_str(last)]);
        assert(ps[0] =~= dec_str(last));
        assert(int_str_val(ps[0]) == last);
        assert(in_i32_range(last));
    } else {
        lemma_x_roundtrip_nonempty(w);
        let tw = strip_trailing_x(joined_x(w));
        assert(joined_x(w) =~= items_x(w));
        assert(items_x(w).last() == 'x') by {
            assert(items_x(w) == items_x(w.drop_last()) + dec_str(w.last() as int)
                + seq!['x']);
        }
        assert(tw =~= items_x(w).drop_last());
        let psw = split_on_x(tw);
        assert(items_x(w) =~= tw + seq!['x']);
        lemma_split_append_x(tw);
        assert(split_on_x(items_x(w)) == psw.push(Seq::<char>::empty()));
        assert(t =~= items_x(w) + dec_str(last));
        lemma_split_append_no_x(items_x(w), dec_str(last));
        let q = split_on_x(items_x(w));
        let ps = split_on_x(t);
        assert(q.last() =~= Seq::<char>::empty());
        assert(q.last() + dec_str(last) =~= dec_str(last));
        assert(ps == q.update(q.len() - 1, q.last() + dec_str(last)));
        assert(ps.len() == psw.len() + 1);
        assert(forall|j: int| 0 <= j < psw.len() ==> #[trigger] ps[j] == psw[j]);
        assert(ps[ps.len() - 1] =~= dec_str(last));
        assert(int_str_val(ps[ps.len() - 1]) == last);
        assert(in_i32_range(last));
        assert(forall|j: int| 0 <= j < v.len() - 1 ==> #[trigger] v[j] == w[j]);
    }
}

/// Splitting is inverse to joining: for every list, the join parses back
/// to exactly the same values — the empty list by way of its `"x"` join.
pub proof fn lemma_x_roundtrip(v: Seq<i32>)
    ensures
        x_list_ok(joined_x(v)),
        x_list_vals(joined_x(v)) == seq_i32_int(v),
{
    if v.len() == 0 {
        assert(joined_x(v) == seq!['x']);
        assert(x_list_vals(joined_x(v)) =~= seq_i32_int(v));
    } else {
        lemma_x_roundtrip_nonempty(v);
        let s = joined_x(v);
        let ps = split_on_x(strip_trailing_x(s));
        assert(s != seq!['x']) by {
            if s == seq!['x'] {
                assert(strip_trailing_x(s) =~= Seq::<char>::empty());
                assert(ps =~= seq![Seq::<char>::empty()]);
                assert(piece_ok(ps[0]));
                assert(!valid_int_str(Seq::<char>::empty()));
            }
        }
        assert(x_list_ok(s));
        assert(x_list_vals(s) =~= seq_i32_int(v)) by {
            assert(forall|j: int|
                0 <= j < ps.len() ==> x_list_vals(s)[j] == int_str_val(#[trigger] ps[j]));
        }
    }
}

} // verus!
