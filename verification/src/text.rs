//! Decimal text: writing integers into strings and reading them back.
//!
//! The persistent record format and the datastore path both spell numbers in
//! ordinary decimal, so the specifications here are the shared vocabulary for
//! everything textual in the crate.

use vstd::arithmetic::div_mod::lemma_fundamental_div_mod;
use vstd::arithmetic::div_mod::lemma_mod_bound;
use vstd::prelude::*;

verus! {

/// The ten decimal digit characters.
pub open spec fn digit_char(d: int) -> char
    recommends
        0 <= d < 10,
{
    if d == 0 {
        '0'
    } else if d == 1 {
        '1'
    } else if d == 2 {
        '2'
    } else if d == 3 {
        '3'
    } else if d == 4 {
        '4'
    } else if d == 5 {
        '5'
    } else if d == 6 {
        '6'
    } else if d == 7 {
        '7'
    } else if d == 8 {
        '8'
    } else {
        '9'
    }
}

/// Whether a character is a decimal digit.
pub open spec fn is_digit(c: char) -> bool {
    48 <= c as int && c as int <= 57
}

/// Numeric value of a digit character.
pub open spec fn digit_val(c: char) -> int {
    c as int - 48
}

/// Decimal text of a natural number, most significant digit first.
pub open spec fn dec_digits(n: nat) -> Seq<char>
    decreases n,
{
    if n < 10 {
        seq![digit_char(n as int)]
    } else {
        dec_digits(n / 10).push(digit_char((n % 10) as int))
    }
}

/// Decimal text of an integer: a leading minus sign for negative values.
pub open spec fn int_text(v: int) -> Seq<char> {
    if v < 0 {
        seq!['-'] + dec_digits((-v) as nat)
    } else {
        dec_digits(v as nat)
    }
}

/// Value of a sequence of digit characters read as a decimal numeral.
pub open spec fn val_of(ds: Seq<char>) -> int
    decreases ds.len(),
{
    if ds.len() == 0 {
        0
    } else {
        val_of(ds.drop_last()) * 10 + digit_val(ds.last())
    }
}

/// Digit characters and their values correspond exactly.
pub proof fn lemma_digit_char_val(d: int)
    requires
        0 <= d < 10,
    ensures
        is_digit(digit_char(d)),
        digit_val(digit_char(d)) == d,
{
}

/// Decimal text is never empty and consists of digit characters only.
pub proof fn lemma_dec_digits_are_digits(n: nat)
    ensures
        dec_digits(n).len() >= 1,
        forall|i: int| 0 <= i < dec_digits(n).len() ==> is_digit(#[trigger] dec_digits(n)[i]),
    decreases n,
{
    if n < 10 {
        lemma_digit_char_val(n as int);
    } else {
        lemma_dec_digits_are_digits(n / 10);
        lemma_digit_char_val((n % 10) as int);
    }
}

/// Reading decimal text back yields the number it was written from.
pub proof fn lemma_val_of_dec_digits(n: nat)
    ensures
        val_of(dec_digits(n)) == n,
    decreases n,
{
    if n < 10 {
        lemma_digit_char_val(n as int);
        let ds = dec_digits(n);
        assert(ds == seq![digit_char(n as int)]);
        assert(ds.len() == 1);
        assert(ds.last() == digit_char(n as int));
        assert(ds.drop_last() =~= Seq::<char>::empty());
        assert(val_of(ds.drop_last()) == 0);
        assert(val_of(ds) == val_of(ds.drop_last()) * 10 + digit_val(ds.last()));
    } else {
        lemma_val_of_dec_digits(n / 10);
        lemma_digit_char_val((n % 10) as int);
        lemma_fundamental_div_mod(n as int, 10);
        let ds = dec_digits(n);
        assert(ds == dec_digits(n / 10).push(digit_char((n % 10) as int)));
        assert(ds.drop_last() =~= dec_digits(n / 10));
        assert(ds.last() == digit_char((n % 10) as int));
        assert(val_of(ds) == val_of(ds.drop_last()) * 10 + digit_val(ds.last()));
    }
}

/// Digit characters of a buffer that holds digits least significant first,
/// in the order they are written out (most significant first).
pub open spec fn rev_chars(ds: Seq<u8>) -> Seq<char>
    decreases ds.len(),
{
    if ds.len() == 0 {
        Seq::empty()
    } else {
        rev_chars(ds.drop_first()) + seq![digit_char(ds.first() as int)]
    }
}

/// Pushing one more (most significant so far) digit prepends its character.
pub proof fn lemma_rev_chars_push(ds: Seq<u8>, d: u8)
    ensures
        rev_chars(ds.push(d)) == seq![digit_char(d as int)] + rev_chars(ds),
    decreases ds.len(),
{
    let p = ds.push(d);
    if ds.len() == 0 {
        assert(p.first() == d);
        assert(p.drop_first() =~= Seq::<u8>::empty());
        assert(rev_chars(p) == rev_chars(p.drop_first()) + seq![digit_char(p.first() as int)]);
        assert(rev_chars(Seq::<u8>::empty()) == Seq::<char>::empty());
        assert(ds =~= Seq::<u8>::empty());
        assert(rev_chars(p) =~= seq![digit_char(d as int)] + rev_chars(ds));
    } else {
        lemma_rev_chars_push(ds.drop_first(), d);
        assert(p.first() == ds.first());
        assert(p.drop_first() =~= ds.drop_first().push(d));
        assert(rev_chars(p) == rev_chars(p.drop_first()) + seq![digit_char(p.first() as int)]);
        assert(rev_chars(ds) == rev_chars(ds.drop_first()) + seq![digit_char(ds.first() as int)]);
        assert(rev_chars(p) =~= seq![digit_char(d as int)] + rev_chars(ds));
    }
}

/// Appends one digit character to a string.
fn append_digit(s: &mut String, d: u8)
    requires
        d < 10,
    ensures
        final(s)@ == old(s)@ + seq![digit_char(d as int)],
{
    if d == 0 {
        proof {
            reveal_strlit("0");
        }
        s.append("0");
    } else if d == 1 {
        proof {
            reveal_strlit("1");
        }
        s.append("1");
    } else if d == 2 {
        proof {
            reveal_strlit("2");
        }
        s.append("2");
    } else if d == 3 {
        proof {
            reveal_strlit("3");
        }
        s.append("3");
    } else if d == 4 {
        proof {
            reveal_strlit("4");
        }
        s.append("4");
    } else if d == 5 {
        proof {
            reveal_strlit("5");
        }
        s.append("5");
    } else if d == 6 {
        proof {
            reveal_strlit("6");
        }
        s.append("6");
    } else if d == 7 {
        proof {
            reveal_strlit("7");
        }
        s.append("7");
    } else if d == 8 {
        proof {
            reveal_strlit("8");
        }
        s.append("8");
    } else {
        proof {
            reveal_strlit("9");
        }
        s.append("9");
    }
    proof {
        assert(s@ =~= old(s)@ + seq![digit_char(d as int)]);
    }
}

/// Appends the decimal text of an unsigned number to a string.
pub fn append_u64(s: &mut String, n: u64)
    ensures
        final(s)@ == old(s)@ + dec_digits(n as nat),
{
    let mut digs: Vec<u8> = Vec::new();
    let mut m: u64 = n;
    let d0: u8 = (m % 10) as u8;
    digs.push(d0);
    m = m / 10;
    proof {
        lemma_fundamental_div_mod(n as int, 10);
        lemma_mod_bound(n as int, 10);
        lemma_rev_chars_push(Seq::<u8>::empty(), d0);
        assert(digs@ =~= Seq::<u8>::empty().push(d0));
        assert(rev_chars(digs@) =~= seq![digit_char(d0 as int)]);
        if m > 0 {
            assert(n >= 10);
            assert(dec_digits(n as nat) == dec_digits((n as nat) / 10).push(
                digit_char(((n as nat) % 10) as int),
            ));
            assert(dec_digits(n as nat) =~= dec_digits(m as nat) + rev_chars(digs@));
        } else {
            assert(n < 10);
            assert(dec_digits(n as nat) == seq![digit_char(n as int)]);
            assert(dec_digits(n as nat) =~= rev_chars(digs@));
        }
    }
    while m > 0
        invariant
            digs@.len() >= 1,
            forall|i: int| 0 <= i < digs@.len() ==> #[trigger] digs@[i] < 10,
            dec_digits(n as nat) == (if m > 0 {
                dec_digits(m as nat)
            } else {
                Seq::<char>::empty()
            }) + rev_chars(digs@),
        decreases m,
    {
        let d: u8 = (m % 10) as u8;
        proof {
            lemma_fundamental_div_mod(m as int, 10);
            lemma_mod_bound(m as int, 10);
            lemma_rev_chars_push(digs@, d);
            if m >= 10 {
                assert(dec_digits(m as nat) =~= dec_digits((m / 10) as nat) + seq![
                    digit_char(d as int),
                ]);
            } else {
                assert(dec_digits(m as nat) =~= Seq::<char>::empty() + seq![
                    digit_char(d as int),
                ]);
            }
        }
        digs.push(d);
        m = m / 10;
        proof {
            assert(dec_digits(n as nat) =~= (if m > 0 {
                dec_digits(m as nat)
            } else {
                Seq::<char>::empty()
            }) + rev_chars(digs@));
        }
    }
    let mut i: usize = digs.len();
    proof {
        assert(digs@.subrange(i as int, digs@.len() as int) =~= Seq::<u8>::empty());
        assert(s@ =~= old(s)@ + rev_chars(digs@.subrange(i as int, digs@.len() as int)));
    }
    while i > 0
        invariant
            i <= digs@.len(),
            forall|k: int| 0 <= k < digs@.len() ==> #[trigger] digs@[k] < 10,
            dec_digits(n as nat) == rev_chars(digs@),
            s@ == old(s)@ + rev_chars(digs@.subrange(i as int, digs@.len() as int)),
        decreases i,
    {
        i = i - 1;
        proof {
            assert(digs@.subrange(i as int, digs@.len() as int).drop_first() =~= digs@.subrange(
                i as int + 1,
                digs@.len() as int,
            ));
        }
        append_digit(s, digs[i]);
        proof {
            assert(s@ =~= old(s)@ + rev_chars(digs@.subrange(i as int, digs@.len() as int)));
        }
    }
    proof {
        assert(digs@.subrange(0, digs@.len() as int) =~= digs@);
    }
}

/// Length of the run of digit characters starting at position `i`.
pub open spec fn digit_run(t: Seq<char>, i: int) -> int
    recommends
        0 <= i <= t.len(),
    decreases t.len() - i,
        when 0 <= i <= t.len()
{
    if i < t.len() && is_digit(t[i]) {
        1 + digit_run(t, i + 1)
    } else {
        0
    }
}

/// A digit run extends exactly to the first non-digit position.
pub proof fn lemma_digit_run_exact(t: Seq<char>, i: int, j: int)
    requires
        0 <= i <= j <= t.len(),
        forall|m: int| i <= m < j ==> is_digit(#[trigger] t[m]),
        j == t.len() || !is_digit(t[j]),
    ensures
        digit_run(t, i) == j - i,
    decreases j - i,
{
    if i < j {
        lemma_digit_run_exact(t, i + 1, j);
    }
}

/// Digit text never reads back as a negative value.
pub proof fn lemma_val_of_nonneg(ds: Seq<char>)
    requires
        forall|m: int| 0 <= m < ds.len() ==> is_digit(#[trigger] ds[m]),
    ensures
        val_of(ds) >= 0,
    decreases ds.len(),
{
    if ds.len() > 0 {
        assert(forall|m: int|
            0 <= m < ds.drop_last().len() ==> is_digit(#[trigger] ds.drop_last()[m]));
        lemma_val_of_nonneg(ds.drop_last());
    }
}

/// Reads an optionally minus-signed decimal numeral at position `i`: the
/// value and the position just past it, or nothing if no digit follows or
/// the value does not fit a 32-bit signed integer.
pub open spec fn spec_parse_int(t: Seq<char>, i: int) -> Option<(int, int)>
    recommends
        0 <= i <= t.len(),
{
    let neg = i < t.len() && t[i] == '-';
    let j = if neg {
        i + 1
    } else {
        i
    };
    let run = digit_run(t, j);
    if run == 0 {
        None
    } else {
        let v = val_of(t.subrange(j, j + run));
        if neg {
            if v <= 2147483648 {
                Some((-v, j + run))
            } else {
                None
            }
        } else {
            if v <= 2147483647 {
                Some((v, j + run))
            } else {
                None
            }
        }
    }
}

/// The decimal text of a value in 32-bit range, followed by anything that is
/// not a digit, reads back as exactly that value.
pub proof fn lemma_parse_int_text(t: Seq<char>, i: int, v: int)
    requires
        0 <= i,
        i + int_text(v).len() <= t.len(),
        t.subrange(i, i + int_text(v).len()) == int_text(v),
        -2147483648 <= v <= 2147483647,
        i + int_text(v).len() == t.len() || !is_digit(t[i + int_text(v).len()]),
    ensures
        spec_parse_int(t, i) == Some((v, i + int_text(v).len())),
{
    let mag: nat = if v < 0 {
        (-v) as nat
    } else {
        v as nat
    };
    let dd = dec_digits(mag);
    lemma_dec_digits_are_digits(mag);
    lemma_val_of_dec_digits(mag);
    let txt = int_text(v);
    assert forall|m: int| 0 <= m < txt.len() implies t[i + m] == txt[m] by {
        assert(t.subrange(i, i + txt.len() as int)[m] == txt[m]);
        assert(t.subrange(i, i + txt.len() as int)[m] == t[i + m]);
    }
    if v < 0 {
        assert(txt == seq!['-'] + dd);
        assert(txt[0] == '-');
        assert(t[i + 0] == txt[0]);
        let j = i + 1;
        assert forall|m: int| 0 <= m < dd.len() implies t[j + m] == dd[m] by {
            assert(t[i + (m + 1)] == txt[m + 1]);
            assert(txt[m + 1] == dd[m]);
        }
        assert forall|m: int| j <= m < j + dd.len() implies is_digit(t[m]) by {
            assert(t[j + (m - j)] == dd[m - j]);
            assert(is_digit(dd[m - j]));
        }
        assert(t.subrange(j, j + dd.len() as int) =~= dd);
        lemma_digit_run_exact(t, j, j + dd.len() as int);
        assert(digit_run(t, j) == dd.len());
        assert(val_of(t.subrange(j, j + dd.len() as int)) == mag);
        assert(mag <= 2147483648);
    } else {
        assert(txt == dd);
        assert(dd.len() >= 1);
        assert(is_digit(dd[0]));
        assert(t[i + 0] == dd[0]);
        assert(t[i] != '-');
        assert forall|m: int| i <= m < i + dd.len() implies is_digit(t[m]) by {
            assert(t[i + (m - i)] == dd[m - i]);
            assert(is_digit(dd[m - i]));
        }
        assert(t.subrange(i, i + dd.len() as int) =~= dd);
        lemma_digit_run_exact(t, i, i + dd.len() as int);
        assert(digit_run(t, i) == dd.len());
        assert(val_of(t.subrange(i, i + dd.len() as int)) == mag);
        assert(mag <= 2147483647);
    }
}

/// Whether the text of `s` carries exactly `pat` starting at position `from`.
pub fn has_at(s: &str, from: usize, pat: &str) -> (r: bool)
    requires
        from as int <= s@.len(),
    ensures
        r == (from + pat@.len() <= s@.len() && s@.subrange(
            from as int,
            from as int + pat@.len() as int,
        ) == pat@),
{
    let n: usize = pat.unicode_len();
    let len: usize = s.unicode_len();
    if n > len - from {
        return false;
    }
    let mut q: usize = 0;
    while q < n
        invariant
            q <= n,
            n as int == pat@.len(),
            len as int == s@.len(),
            from + n <= len,
            forall|m: int| 0 <= m < q ==> s@[from + m] == #[trigger] pat@[m],
        decreases n - q,
    {
        if s.get_char(from + q) != pat.get_char(q) {
            proof {
                assert(s@.subrange(from as int, from as int + pat@.len() as int)[q as int]
                    != pat@[q as int]);
            }
            return false;
        }
        q = q + 1;
    }
    proof {
        assert(s@.subrange(from as int, from as int + pat@.len() as int) =~= pat@);
    }
    true
}

/// Reads an optionally minus-signed decimal numeral out of `s` at position
/// `from`, exactly as `spec_parse_int` describes.
pub fn parse_i32(s: &str, from: usize) -> (r: Option<(i32, usize)>)
    requires
        from as int <= s@.len(),
    ensures
        (match r {
            Some(p) => spec_parse_int(s@, from as int) == Some((p.0 as int, p.1 as int)) && from
                <= p.1 && p.1 as int <= s@.len(),
            None => spec_parse_int(s@, from as int) is None,
        }),
{
    let len: usize = s.unicode_len();
    let neg: bool = from < len && s.get_char(from) == '-';
    let j: usize = if neg {
        from + 1
    } else {
        from
    };
    let mut k: usize = j;
    let mut acc: u64 = 0;
    let mut over: bool = false;
    loop
        invariant
            from <= j <= k <= len,
            len as int == s@.len(),
            j == (if neg {
                from + 1
            } else {
                from as int
            }),
            forall|m: int| j <= m < k ==> is_digit(#[trigger] s@[m]),
            !over ==> acc == val_of(s@.subrange(j as int, k as int)) && acc < 0x10_0000_0000,
            over ==> val_of(s@.subrange(j as int, k as int)) >= 0x1_0000_0000,
        ensures
            from <= j <= k <= len,
            len as int == s@.len(),
            k as int == len || !is_digit(s@[k as int]),
            forall|m: int| j <= m < k ==> is_digit(#[trigger] s@[m]),
            !over ==> acc == val_of(s@.subrange(j as int, k as int)) && acc < 0x10_0000_0000,
            over ==> val_of(s@.subrange(j as int, k as int)) >= 0x1_0000_0000,
        decreases len - k,
    {
        if k >= len {
            break;
        }
        let c: char = s.get_char(k);
        let u: u32 = c as u32;
        if !(48 <= u && u <= 57) {
            break;
        }
        proof {
            assert(s@.subrange(j as int, k as int + 1).drop_last() =~= s@.subrange(
                j as int,
                k as int,
            ));
            assert(s@.subrange(j as int, k as int + 1).last() == s@[k as int]);
            if over {
                lemma_val_of_nonneg(s@.subrange(j as int, k as int));
            }
        }
        let d: u8 = (u - 48) as u8;
        if !over {
            if acc >= 0x1_0000_0000 {
                over = true;
            } else {
                acc = acc * 10 + d as u64;
            }
        }
        k = k + 1;
    }
    if k == j {
        return None;
    }
    proof {
        lemma_digit_run_exact(s@, j as int, k as int);
    }
    if over {
        return None;
    }
    if neg {
        if acc > 2147483648 {
            None
        } else {
            let v: i32 = (-(acc as i64)) as i32;
            Some((v, k))
        }
    } else {
        if acc > 2147483647 {
            None
        } else {
            Some((acc as i32, k))
        }
    }
}

/// Appends the decimal text of a signed number to a string.
pub fn append_i32(s: &mut String, v: i32)
    ensures
        final(s)@ == old(s)@ + int_text(v as int),
{
    if v < 0 {
        proof {
            reveal_strlit("-");
        }
        s.append("-");
        assert(s@ =~= old(s)@ + seq!['-']);
    }
    let mag: u64 = if v < 0 {
        (-(v as i64)) as u64
    } else {
        v as u64
    };
    append_u64(s, mag);
    proof {
        if v < 0 {
            assert(s@ =~= old(s)@ + int_text(v as int));
        }
    }
}

} // verus!
