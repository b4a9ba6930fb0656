use vstd::prelude::*;
use vstd::string::*;

verus! {

/// The decimal digits of `n`, most significant first, without leading zeros
/// (zero itself is written as one digit).
pub open spec fn dec_seq(n: nat) -> Seq<char>
    decreases n,
{
    if n < 10 {
        seq![digit_char(n)]
    } else {
        dec_seq(n / 10).push(digit_char(n % 10))
    }
}

/// The character of the decimal digit `d` (for `d < 10`).
pub open spec fn digit_char(d: nat) -> char {
    if d == 0 { '0' }
    else if d == 1 { '1' }
    else if d == 2 { '2' }
    else if d == 3 { '3' }
    else if d == 4 { '4' }
    else if d == 5 { '5' }
    else if d == 6 { '6' }
    else if d == 7 { '7' }
    else if d == 8 { '8' }
    else { '9' }
}

/// A fixed-point number given in hundredths, written with two decimals
/// and a leading minus sign when negative (`-600` is `-6.00`).
pub open spec fn centi_seq(v: int) -> Seq<char> {
    let a: nat = if v < 0 { (-v) as nat } else { v as nat };
    let body = dec_seq(a / 100) + seq!['.', digit_char((a % 100) / 10), digit_char(a % 10)];
    if v < 0 { seq!['-'] + body } else { body }
}

/// The ids written in decimal and separated by commas.
pub open spec fn csv_seq(ids: Seq<u64>) -> Seq<char>
    decreases ids.len(),
{
    if ids.len() == 0 {
        Seq::empty()
    } else if ids.len() == 1 {
        dec_seq(ids[0] as nat)
    } else {
        csv_seq(ids.drop_last()) + seq![','] + dec_seq(ids.last() as nat)
    }
}

/// The lower-case form of a string, as the standard library computes it.
pub uninterp spec fn lower_of(s: Seq<char>) -> Seq<char>;

/// Relies on `str::to_lowercase`: its result depends on the characters of
/// the input alone.
#[verifier::external_body]
pub(crate) fn lowercase(s: &str) -> (r: String)
    ensures
        r@ == lower_of(s@),
{
    s.to_lowercase()
}

/// Character-wise equality of two strings.
pub fn str_eq(a: &str, b: &str) -> (r: bool)
    ensures
        r == (a@ == b@),
{
    let n = a.unicode_len();
    if n != b.unicode_len() {
        return false;
    }
    let mut i: usize = 0;
    while i < n
        invariant
            n == a@.len(),
            n == b@.len(),
            i <= n,
            forall|j: int| 0 <= j < i ==> a@[j] == b@[j],
        decreases n - i,
    {
        if a.get_char(i) != b.get_char(i) {
            return false;
        }
        i = i + 1;
    }
    assert(a@ =~= b@);
    true
}

fn digit_str(d: u64) -> (r: &'static str)
    requires
        d < 10,
    ensures
        r@ == seq![digit_char(d as nat)],
{
    if d == 0 {
        proof { reveal_strlit("0"); }
        "0"
    } else if d == 1 {
        proof { reveal_strlit("1"); }
        "1"
    } else if d == 2 {
        proof { reveal_strlit("2"); }
        "2"
    } else if d == 3 {
        proof { reveal_strlit("3"); }
        "3"
    } else if d == 4 {
        proof { reveal_strlit("4"); }
        "4"
    } else if d == 5 {
        proof { reveal_strlit("5"); }
        "5"
    } else if d == 6 {
        proof { reveal_strlit("6"); }
        "6"
    } else if d == 7 {
        proof { reveal_strlit("7"); }
        "7"
    } else if d == 8 {
        proof { reveal_strlit("8"); }
        "8"
    } else {
        proof { reveal_strlit("9"); }
        "9"
    }
}

/// The decimal digits of `n`, least significant digit last.
pub fn decimal_digits(n: u64) -> (r: Vec<u64>)
    ensures
        r@.len() >= 1,
        forall|i: int| 0 <= i < r@.len() ==> r@[i] < 10,
        r@.map_values(|d: u64| digit_char(d as nat)) == dec_seq(n as nat),
    decreases n,
{
    if n < 10 {
        let mut v: Vec<u64> = Vec::new();
        v.push(n);
        assert(v@.map_values(|d: u64| digit_char(d as nat)) =~= dec_seq(n as nat));
        v
    } else {
        let mut v = decimal_digits(n / 10);
        let ghost prev = v@;
        v.push(n % 10);
        assert(v@.map_values(|d: u64| digit_char(d as nat)) =~= prev.map_values(
            |d: u64| digit_char(d as nat),
        ).push(digit_char((n % 10) as nat)));
        v
    }
}

/// Appends the decimal form of `n` to `out`.
fn push_decimal(out: &mut String, n: u64)
    ensures
        final(out)@ == old(out)@ + dec_seq(n as nat),
{
    let digits = decimal_digits(n);
    let ghost start = out@;
    let mut i: usize = 0;
    while i < digits.len()
        invariant
            i <= digits@.len(),
            forall|k: int| 0 <= k < digits@.len() ==> digits@[k] < 10,
            digits@.map_values(|d: u64| digit_char(d as nat)) == dec_seq(n as nat),
            out@ == start + digits@.subrange(0, i as int).map_values(|d: u64| digit_char(d as nat)),
        decreases digits@.len() - i,
    {
        let s = digit_str(digits[i]);
        out.append(s);
        assert(digits@.subrange(0, i + 1).map_values(|d: u64| digit_char(d as nat)) =~= digits@.subrange(
            0,
            i as int,
        ).map_values(|d: u64| digit_char(d as nat)).push(digit_char(digits@[i as int] as nat)));
        i = i + 1;
    }
    assert(digits@.subrange(0, digits@.len() as int) =~= digits@);
}

/// The decimal form of `n`.
pub fn format_u64(n: u64) -> (r: String)
    ensures
        r@ == dec_seq(n as nat),
{
    let mut s = String::new();
    push_decimal(&mut s, n);
    assert(s@ =~= dec_seq(n as nat));
    s
}

/// The hundredths value `v` written with two decimals (`-600` is `-6.00`).
pub fn format_centi(v: i32) -> (r: String)
    ensures
        r@ == centi_seq(v as int),
{
    let mut s = String::new();
    let a: u64 = if v < 0 { (-(v as i64)) as u64 } else { v as u64 };
    if v < 0 {
        proof { reveal_strlit("-"); }
        s.append("-");
    }
    push_decimal(&mut s, a / 100);
    proof { reveal_strlit("."); }
    s.append(".");
    s.append(digit_str((a % 100) / 10));
    s.append(digit_str(a % 10));
    assert(s@ =~= centi_seq(v as int));
    s
}

/// The ids written in decimal and separated by commas (empty for no ids).
pub fn join_u64_csv(ids: &Vec<u64>) -> (r: String)
    ensures
        r@ == csv_seq(ids@),
{
    let mut s = String::new();
    let mut i: usize = 0;
    while i < ids.len()
        invariant
            i <= ids@.len(),
            s@ == csv_seq(ids@.subrange(0, i as int)),
        decreases ids@.len() - i,
    {
        if i > 0 {
            proof { reveal_strlit(","); }
            s.append(",");
        }
        push_decimal(&mut s, ids[i]);
        proof {
            let pre = ids@.subrange(0, i + 1);
            assert(pre.drop_last() =~= ids@.subrange(0, i as int));
        }
        i = i + 1;
    }
    assert(ids@.subrange(0, ids@.len() as int) =~= ids@);
    s
}

} // verus!
