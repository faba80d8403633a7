//! Decimal text: parsing the volume-level field as a signed integer, and
//! rendering live volume values back into the field, with an exact account
//! of both directions.

use vstd::prelude::*;

verus! {

pub open spec fn is_dec_digit(c: char) -> bool {
    '0' <= c && c <= '9'
}

pub open spec fn digit_val(c: char) -> int {
    c as int - '0' as int
}

/// The value of a digit string, most significant digit first.
pub open spec fn digits_val(s: Seq<char>) -> int
    decreases s.len(),
{
    if s.len() == 0 {
        0
    } else {
        digits_val(s.drop_last()) * 10 + digit_val(s.last())
    }
}

pub open spec fn all_dec_digits(s: Seq<char>) -> bool {
    forall|i: int| 0 <= i < s.len() ==> is_dec_digit(s[i])
}

/// The digit part of integer text: everything after an optional sign.
pub open spec fn int_text_body(s: Seq<char>) -> Seq<char> {
    if s.len() > 0 && (s[0] == '+' || s[0] == '-') {
        s.drop_first()
    } else {
        s
    }
}

/// Integer text as the standard parser accepts it: an optional sign
/// followed by one or more decimal digits and nothing else.
pub open spec fn int_text_valid(s: Seq<char>) -> bool {
    int_text_body(s).len() > 0 && all_dec_digits(int_text_body(s))
}

pub open spec fn int_text_val(s: Seq<char>) -> int {
    if s.len() > 0 && s[0] == '-' {
        -digits_val(int_text_body(s))
    } else {
        digits_val(int_text_body(s))
    }
}

/// A digit string has a non-negative value.
pub proof fn lemma_digits_val_nonneg(s: Seq<char>)
    requires
        all_dec_digits(s),
    ensures
        digits_val(s) >= 0,
    decreases s.len(),
{
    if s.len() > 0 {
        assert(all_dec_digits(s.drop_last())) by {
            assert(forall|i: int|
                0 <= i < s.len() - 1 ==> s.drop_last()[i] == s[i] && is_dec_digit(s[i]));
        }
        lemma_digits_val_nonneg(s.drop_last());
        assert(digit_val(s.last()) >= 0);
    }
}

/// Extending a digit string by one digit multiplies its value by ten and
/// adds the digit.
pub proof fn lemma_digits_val_take_step(s: Seq<char>, k: int)
    requires
        0 <= k < s.len(),
    ensures
        digits_val(s.take(k + 1)) == digits_val(s.take(k)) * 10 + digit_val(s[k]),
{
    assert(s.take(k + 1).drop_last() =~= s.take(k));
    assert(s.take(k + 1).last() == s[k]);
}

/// The value of a prefix never exceeds the value of the whole digit string.
pub proof fn lemma_digits_val_prefix(s: Seq<char>, k: int)
    requires
        all_dec_digits(s),
        0 <= k <= s.len(),
    ensures
        digits_val(s.take(k)) <= digits_val(s),
    decreases s.len() - k,
{
    if k == s.len() {
        assert(s.take(k) =~= s);
    } else {
        lemma_digits_val_take_step(s, k);
        assert(all_dec_digits(s.take(k))) by {
            assert(forall|i: int| 0 <= i < k ==> s.take(k)[i] == s[i] && is_dec_digit(s[i]));
        }
        lemma_digits_val_nonneg(s.take(k));
        assert(digits_val(s.take(k + 1)) >= digits_val(s.take(k)));
        lemma_digits_val_prefix(s, k + 1);
    }
}

/// Parses integer text exactly as the standard library does: `Some` for an
/// optional sign followed by digits whose value fits the type, `None` for
/// everything else.
pub fn parse_i32(s: &str) -> (r: Option<i32>)
    ensures
        match r {
            Some(v) => int_text_valid(s@) && i32::MIN <= int_text_val(s@) <= i32::MAX && v
                == int_text_val(s@),
            None => !(int_text_valid(s@) && i32::MIN <= int_text_val(s@) <= i32::MAX),
        },
{
    let n = s.unicode_len();
    if n == 0 {
        return None;
    }
    let c0 = s.get_char(0);
    let neg: bool = c0 == '-';
    let start: usize = if c0 == '-' || c0 == '+' {
        1
    } else {
        0
    };
    if start == n {
        // a bare sign has an empty digit part
        assert(int_text_body(s@).len() == 0);
        return None;
    }
    let ghost body = int_text_body(s@);
    proof {
        assert(body =~= s@.subrange(start as int, n as int));
    }
    let bound: u32 = if neg {
        2147483648u32
    } else {
        2147483647u32
    };
    let mut acc: u32 = 0;
    let mut i: usize = start;
    while i < n
        invariant
            start <= i <= n,
            n == s@.len(),
            start == 1 ==> (s@[0] == '+' || s@[0] == '-'),
            neg <==> (s@.len() > 0 && s@[0] == '-'),
            bound == if neg {
                2147483648u32
            } else {
                2147483647u32
            },
            body == int_text_body(s@),
            body =~= s@.subrange(start as int, n as int),
            all_dec_digits(body.take(i - start)),
            acc == digits_val(body.take(i - start)),
            acc <= bound,
        decreases n - i,
    {
        let c = s.get_char(i);
        let d: u32 = c as u32;
        if d < 48 || d > 57 {
            proof {
                assert(body[i - start] == c);
                assert(!is_dec_digit(c));
                assert(!all_dec_digits(body));
            }
            return None;
        }
        let dv: u32 = d - 48;
        proof {
            assert(body[i - start] == c);
            assert(is_dec_digit(c));
            assert(dv == digit_val(c));
            lemma_digits_val_take_step(body, i - start);
        }
        if acc > (bound - dv) / 10 {
            // the digits read so far already push the value outside range
            proof {
                assert(10 * acc + dv > bound) by {
                    assert(acc >= (bound - dv) / 10 + 1);
                    assert(((bound - dv) / 10 + 1) * 10 >= bound - dv + 1) by (nonlinear_arith);
                    assert(10 * acc >= 10 * ((bound - dv) / 10 + 1)) by (nonlinear_arith)
                        requires
                            acc >= (bound - dv) / 10 + 1,
                    ;
                }
                assert(digits_val(body.take(i - start + 1)) > bound);
                if int_text_valid(s@) {
                    lemma_digits_val_prefix(body, i - start + 1);
                    assert(digits_val(body) > bound);
                    if neg {
                        assert(int_text_val(s@) < i32::MIN);
                    } else {
                        assert(int_text_val(s@) > i32::MAX);
                    }
                }
            }
            return None;
        }
        proof {
            assert(acc <= (bound - dv) / 10);
            assert(acc * 10 <= ((bound - dv) / 10) * 10) by (nonlinear_arith)
                requires
                    acc <= (bound - dv) / 10,
            ;
            assert(((bound - dv) / 10) * 10 <= bound - dv);
            assert(all_dec_digits(body.take(i - start + 1))) by {
                assert(body.take(i - start + 1) =~= body.take(i - start).push(c));
                assert(forall|j: int|
                    0 <= j < i - start ==> #[trigger] body.take(i - start + 1)[j] == body.take(
                        i - start,
                    )[j]);
            }
        }
        acc = acc * 10 + dv;
        i = i + 1;
    }
    proof {
        assert(body.take(i - start) =~= body);
        assert(int_text_valid(s@));
        assert(digits_val(body) == acc);
    }
    if neg {
        if acc == 2147483648u32 {
            proof {
                assert(int_text_val(s@) == i32::MIN);
            }
            Some(i32::MIN)
        } else {
            let v: i32 = 0i32 - (acc as i32);
            proof {
                assert(int_text_val(s@) == -(acc as int));
            }
            Some(v)
        }
    } else {
        proof {
            assert(int_text_val(s@) == acc as int);
        }
        Some(acc as i32)
    }
}

/// The character for one decimal digit.
pub open spec fn dec_digit_char(d: int) -> char {
    if d == 0 {
        '0'
    } else if d == 1 {
        '1'
    } else if d == 2 {
        '2'
    } else if d == 3 {
        '3'
    } else if d == 4 {
        '4'
    } else if d == 5 {
        '5'
    } else if d == 6 {
        '6'
    } else if d == 7 {
        '7'
    } else if d == 8 {
        '8'
    } else {
        '9'
    }
}

/// The decimal rendering of a non-negative integer, no leading zeros
/// (a single zero for zero itself).
pub open spec fn dec_digits(n: int) -> Seq<char>
    decreases n,
{
    if n < 10 {
        seq![dec_digit_char(n)]
    } else {
        dec_digits(n / 10).push(dec_digit_char(n % 10))
    }
}

/// The decimal rendering of a signed integer, as the standard library
/// renders it: a minus sign for negative values, no plus sign.
pub open spec fn int_text(v: int) -> Seq<char> {
    if v < 0 {
        seq!['-'] + dec_digits(-v)
    } else {
        dec_digits(v)
    }
}

/// Appends one decimal digit character.
fn append_dec_digit(s: &mut String, d: u32)
    requires
        d < 10,
    ensures
        final(s)@ == old(s)@.push(dec_digit_char(d as int)),
{
    if d == 0 {
        s.append("0");
        proof {
            reveal_strlit("0");
            assert(s@ =~= old(s)@.push('0'));
        }
    } else if d == 1 {
        s.append("1");
        proof {
            reveal_strlit("1");
            assert(s@ =~= old(s)@.push('1'));
        }
    } else if d == 2 {
        s.append("2");
        proof {
            reveal_strlit("2");
            assert(s@ =~= old(s)@.push('2'));
        }
    } else if d == 3 {
        s.append("3");
        proof {
            reveal_strlit("3");
            assert(s@ =~= old(s)@.push('3'));
        }
    } else if d == 4 {
        s.append("4");
        proof {
            reveal_strlit("4");
            assert(s@ =~= old(s)@.push('4'));
        }
    } else if d == 5 {
        s.append("5");
        proof {
            reveal_strlit("5");
            assert(s@ =~= old(s)@.push('5'));
        }
    } else if d == 6 {
        s.append("6");
        proof {
            reveal_strlit("6");
            assert(s@ =~= old(s)@.push('6'));
        }
    } else if d == 7 {
        s.append("7");
        proof {
            reveal_strlit("7");
            assert(s@ =~= old(s)@.push('7'));
        }
    } else if d == 8 {
        s.append("8");
        proof {
            reveal_strlit("8");
            assert(s@ =~= old(s)@.push('8'));
        }
    } else {
        s.append("9");
        proof {
            reveal_strlit("9");
            assert(s@ =~= old(s)@.push('9'));
        }
    }
}

/// Appends the decimal rendering of `n`.
fn push_u32_dec(s: &mut String, n: u32)
    ensures
        final(s)@ == old(s)@ + dec_digits(n as int),
    decreases n,
{
    if n >= 10 {
        push_u32_dec(s, n / 10);
        append_dec_digit(s, n % 10);
        proof {
            assert(s@ =~= old(s)@ + dec_digits(n as int));
        }
    } else {
        append_dec_digit(s, n);
        proof {
            assert(s@ =~= old(s)@ + dec_digits(n as int));
        }
    }
}

/// Renders a signed integer as decimal text.
pub fn i32_to_string(v: i32) -> (r: String)
    ensures
        r@ == int_text(v as int),
{
    let mut s = String::new();
    if v < 0 {
        s.append("-");
        proof {
            reveal_strlit("-");
        }
        let m: u32 = (0i64 - (v as i64)) as u32;
        proof {
            assert(m as int == -(v as int));
        }
        push_u32_dec(&mut s, m);
        proof {
            assert(s@ =~= int_text(v as int));
        }
    } else {
        push_u32_dec(&mut s, v as u32);
        proof {
            assert(s@ =~= int_text(v as int));
        }
    }
    s
}

/// Rendering and parsing agree: decimal text of `n` is all digits and reads
/// back as `n`.
pub proof fn lemma_dec_digits_props(n: int)
    requires
        n >= 0,
    ensures
        all_dec_digits(dec_digits(n)),
        dec_digits(n).len() >= 1,
        digits_val(dec_digits(n)) == n,
        is_dec_digit(dec_digits(n)[0]),
    decreases n,
{
    if n < 10 {
        assert(dec_digits(n) =~= seq![dec_digit_char(n)]);
        assert(digit_val(dec_digit_char(n)) == n);
        assert(digits_val(dec_digits(n)) == digits_val(Seq::<char>::empty()) * 10 + n) by {
            assert(dec_digits(n).drop_last() =~= Seq::<char>::empty());
            assert(dec_digits(n).last() == dec_digit_char(n));
        }
    } else {
        lemma_dec_digits_props(n / 10);
        let d = dec_digits(n / 10);
        let c = dec_digit_char(n % 10);
        assert(dec_digits(n) == d.push(c));
        assert(d.push(c).drop_last() =~= d);
        assert(d.push(c).last() == c);
        assert(digits_val(d.push(c)) == digits_val(d) * 10 + digit_val(c));
        assert(digit_val(c) == n % 10);
        assert((n / 10) * 10 + n % 10 == n);
        assert(all_dec_digits(d.push(c))) by {
            assert(forall|i: int| 0 <= i < d.len() ==> d.push(c)[i] == d[i]);
            assert(d.push(c)[d.len() as int] == c);
        }
        assert(dec_digits(n)[0] == d[0]);
    }
}

/// Round trip for the volume field: what the library renders, its parser
/// accepts, with the same value.
pub proof fn lemma_int_text_round_trip(v: int)
    requires
        i32::MIN <= v <= i32::MAX,
    ensures
        int_text_valid(int_text(v)),
        int_text_val(int_text(v)) == v,
{
    if v < 0 {
        lemma_dec_digits_props(-v);
        let s = int_text(v);
        assert(s[0] == '-');
        assert(int_text_body(s) =~= dec_digits(-v));
        assert(int_text_val(s) == -digits_val(dec_digits(-v)));
    } else {
        lemma_dec_digits_props(v);
        let s = int_text(v);
        assert(is_dec_digit(s[0]));
        assert(s[0] != '+' && s[0] != '-');
        assert(int_text_body(s) =~= s);
    }
}

} // verus!
