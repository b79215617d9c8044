use vstd::prelude::*;
use vstd::string::StringExecFns;

verus! {

/// The character for one decimal digit value.
pub open spec fn dec_char(d: int) -> char {
    if d == 0 {
        '0'
    } else if d == 1 {
        '1'
    } else if d == 2 {
        '2'
    } else if d == 3 {
        '3'
    } else if d == 4 {
        '4'
    } else if d == 5 {
        '5'
    } else if d == 6 {
        '6'
    } else if d == 7 {
        '7'
    } else if d == 8 {
        '8'
    } else {
        '9'
    }
}

/// The digit value a decimal character stands for.
pub open spec fn char_val(c: char) -> nat {
    if c == '0' {
        0
    } else if c == '1' {
        1
    } else if c == '2' {
        2
    } else if c == '3' {
        3
    } else if c == '4' {
        4
    } else if c == '5' {
        5
    } else if c == '6' {
        6
    } else if c == '7' {
        7
    } else if c == '8' {
        8
    } else {
        9
    }
}

/// The decimal digit characters of `n`, most significant first,
/// without leading zeros (a lone zero for `n == 0`).
pub open spec fn dec_digits(n: nat) -> Seq<char>
    decreases n,
{
    if n < 10 {
        seq![dec_char(n as int)]
    } else {
        dec_digits(n / 10).push(dec_char((n % 10) as int))
    }
}

/// `dec_digits(n)` left-padded with `'0'` to at least five characters,
/// the fixed width of the frame-file numbering scheme.
pub open spec fn padded_digits(n: nat) -> Seq<char> {
    if dec_digits(n).len() >= 5 {
        dec_digits(n)
    } else {
        Seq::new((5 - dec_digits(n).len()) as nat, |i: int| '0') + dec_digits(n)
    }
}

/// The file name under which the frame with sequence index `index` is
/// persisted: `frame_` + the zero-padded index + `.png`.
pub open spec fn frame_filename_spec(index: u32) -> Seq<char> {
    "frame_"@ + padded_digits(index as nat) + ".png"@
}

/// The numeric value a sequence of decimal digit characters denotes.
pub open spec fn dec_val(s: Seq<char>) -> nat
    decreases s.len(),
{
    if s.len() == 0 {
        0
    } else {
        dec_val(s.drop_last()) * 10 + char_val(s.last())
    }
}

/// How many digit characters `n` has, range by range.
pub proof fn lemma_dec_digits_len(n: nat)
    ensures
        n < 10 ==> dec_digits(n).len() == 1,
        10 <= n < 100 ==> dec_digits(n).len() == 2,
        100 <= n < 1000 ==> dec_digits(n).len() == 3,
        1000 <= n < 10000 ==> dec_digits(n).len() == 4,
        10000 <= n < 100000 ==> dec_digits(n).len() == 5,
        100000 <= n ==> dec_digits(n).len() >= 5,
    decreases n,
{
    if n >= 10 {
        lemma_dec_digits_len(n / 10);
    }
}

/// Reading the character of a digit back gives the digit.
pub proof fn lemma_char_val_inverse(d: int)
    requires
        0 <= d < 10,
    ensures
        char_val(dec_char(d)) == d,
{
}

/// The digit string of `n` reads back as `n`.
pub proof fn lemma_dec_val_of_digits(n: nat)
    ensures
        dec_val(dec_digits(n)) == n,
    decreases n,
{
    if n < 10 {
        lemma_char_val_inverse(n as int);
        let s = seq![dec_char(n as int)];
        assert(dec_digits(n) == s);
        assert(s.drop_last() =~= Seq::<char>::empty());
        assert(s.last() == dec_char(n as int));
        assert(dec_val(Seq::<char>::empty()) == 0);
        assert(dec_val(s) == dec_val(s.drop_last()) * 10 + char_val(s.last()));
    } else {
        lemma_dec_val_of_digits(n / 10);
        lemma_char_val_inverse((n % 10) as int);
        vstd::arithmetic::div_mod::lemma_fundamental_div_mod(n as int, 10);
        let s = dec_digits(n / 10).push(dec_char((n % 10) as int));
        assert(dec_digits(n) == s);
        assert(s.drop_last() =~= dec_digits(n / 10));
        assert(s.last() == dec_char((n % 10) as int));
        assert(dec_val(s) == dec_val(s.drop_last()) * 10 + char_val(s.last()));
    }
}

/// Leading zeros do not change the value a digit string denotes.
pub proof fn lemma_dec_val_zero_prefix(z: Seq<char>, s: Seq<char>)
    requires
        forall|i: int| 0 <= i < z.len() ==> z[i] == '0',
    ensures
        dec_val(z + s) == dec_val(s),
    decreases s.len(),
{
    if s.len() == 0 {
        assert(z + s =~= z);
        lemma_dec_val_all_zeros(z);
    } else {
        assert((z + s).drop_last() =~= z + s.drop_last());
        assert((z + s).last() == s.last());
        lemma_dec_val_zero_prefix(z, s.drop_last());
    }
}

/// A string of zeros denotes zero.
pub proof fn lemma_dec_val_all_zeros(z: Seq<char>)
    requires
        forall|i: int| 0 <= i < z.len() ==> z[i] == '0',
    ensures
        dec_val(z) == 0,
    decreases z.len(),
{
    if z.len() > 0 {
        assert(z.last() == z[z.len() - 1]);
        lemma_dec_val_all_zeros(z.drop_last());
    }
}

/// The padded digit string of `n` still reads back as `n`: the frame
/// index is recoverable from the numeric part of the file name.
pub proof fn lemma_dec_val_of_padded(n: nat)
    ensures
        dec_val(padded_digits(n)) == n,
{
    lemma_dec_val_of_digits(n);
    if dec_digits(n).len() < 5 {
        let z = Seq::new((5 - dec_digits(n).len()) as nat, |i: int| '0');
        lemma_dec_val_zero_prefix(z, dec_digits(n));
    }
}

/// Padded digit strings are never shorter than five characters.
pub proof fn lemma_padded_digits_len(n: nat)
    ensures
        padded_digits(n).len() >= 5,
        n < 100000 ==> padded_digits(n).len() == 5,
{
    lemma_dec_digits_len(n);
}

/// A decimal digit character.
pub open spec fn is_dec_char(c: char) -> bool {
    c == '0' || c == '1' || c == '2' || c == '3' || c == '4' || c == '5' || c == '6' || c == '7'
        || c == '8' || c == '9'
}

/// A string of decimal digit characters.
pub open spec fn all_dec_chars(s: Seq<char>) -> bool {
    forall|i: int| 0 <= i < s.len() ==> is_dec_char(#[trigger] s[i])
}

/// `a` comes strictly before `b` in lexicographic order by code point,
/// the order in which directory listings and sequence patterns read
/// the frame files.
pub open spec fn lex_less(a: Seq<char>, b: Seq<char>) -> bool
    decreases a.len(),
{
    if a.len() == 0 {
        b.len() > 0
    } else if b.len() == 0 {
        false
    } else if a[0] != b[0] {
        (a[0] as u32) < (b[0] as u32)
    } else {
        lex_less(a.drop_first(), b.drop_first())
    }
}

/// Ten to the power `k`.
pub open spec fn pow10(k: nat) -> nat
    decreases k,
{
    if k == 0 {
        1
    } else {
        10 * pow10((k - 1) as nat)
    }
}

/// A digit string denotes less than ten to its length.
pub proof fn lemma_dec_val_bound(s: Seq<char>)
    ensures
        dec_val(s) < pow10(s.len()),
    decreases s.len(),
{
    if s.len() > 0 {
        lemma_dec_val_bound(s.drop_last());
    }
}

/// Splitting a digit string splits its value positionally.
pub proof fn lemma_dec_val_concat(x: Seq<char>, y: Seq<char>)
    ensures
        dec_val(x + y) == dec_val(x) * pow10(y.len()) + dec_val(y),
    decreases y.len(),
{
    if y.len() == 0 {
        assert(x + y =~= x);
        assert(pow10(y.len()) == 1);
        assert(dec_val(y) == 0);
        assert(dec_val(x) * 1 == dec_val(x)) by (nonlinear_arith);
    } else {
        lemma_dec_val_concat(x, y.drop_last());
        assert((x + y).drop_last() =~= x + y.drop_last());
        assert((x + y).last() == y.last());
        let p = pow10((y.len() - 1) as nat);
        let c = char_val(y.last());
        let d = dec_val(y.drop_last());
        let vx = dec_val(x);
        assert(pow10(y.len()) == 10 * p);
        assert(dec_val(x + y) == dec_val(x + y.drop_last()) * 10 + c);
        assert(dec_val(x + y.drop_last()) == vx * p + d);
        assert((vx * p + d) * 10 + c == vx * (10 * p) + (d * 10 + c)) by (nonlinear_arith);
        assert(vx * (10 * p) == vx * pow10(y.len()));
        assert(dec_val(y) == d * 10 + c);
        assert(dec_val(x + y) == vx * pow10(y.len()) + dec_val(y));
    }
}

/// For digit characters, the order of the digit values is the order
/// of the code points.
pub proof fn lemma_dec_char_order(c1: char, c2: char)
    requires
        is_dec_char(c1),
        is_dec_char(c2),
        char_val(c1) < char_val(c2),
    ensures
        (c1 as u32) < (c2 as u32),
{
}

/// The digit characters of `n` are digit characters.
pub proof fn lemma_dec_digits_all_dec(n: nat)
    ensures
        all_dec_chars(dec_digits(n)),
    decreases n,
{
    if n >= 10 {
        lemma_dec_digits_all_dec(n / 10);
    }
}

/// The padded digit string of `n` holds only digit characters.
pub proof fn lemma_padded_all_dec(n: nat)
    ensures
        all_dec_chars(padded_digits(n)),
{
    lemma_dec_digits_all_dec(n);
}

/// Of two equally long digit strings, the one denoting the smaller
/// value comes lexicographically first.
pub proof fn lemma_dec_lex(a: Seq<char>, b: Seq<char>)
    requires
        a.len() == b.len(),
        all_dec_chars(a),
        all_dec_chars(b),
        dec_val(a) < dec_val(b),
    ensures
        lex_less(a, b),
    decreases a.len(),
{
    if a.len() == 0 {
        assert(false);
    } else {
        let ta = a.drop_first();
        let tb = b.drop_first();
        assert(a =~= seq![a[0]] + ta);
        assert(b =~= seq![b[0]] + tb);
        lemma_dec_val_concat(seq![a[0]], ta);
        lemma_dec_val_concat(seq![b[0]], tb);
        assert(seq![a[0]].drop_last() =~= Seq::<char>::empty());
        assert(seq![b[0]].drop_last() =~= Seq::<char>::empty());
        assert(dec_val(Seq::<char>::empty()) == 0);
        assert(dec_val(seq![a[0]]) == char_val(a[0]));
        assert(dec_val(seq![b[0]]) == char_val(b[0]));
        let p = pow10(ta.len());
        lemma_dec_val_bound(ta);
        lemma_dec_val_bound(tb);
        if a[0] == b[0] {
            lemma_dec_lex(ta, tb);
        } else {
            if char_val(a[0]) >= char_val(b[0]) {
                assert(char_val(a[0]) * p >= (char_val(b[0]) + 1) * p) by (nonlinear_arith)
                    requires
                        char_val(a[0]) >= char_val(b[0]) + 1,
                        p >= 0,
                ;
                assert((char_val(b[0]) + 1) * p == char_val(b[0]) * p + p) by (nonlinear_arith);
                assert(false);
            }
            lemma_dec_char_order(a[0], b[0]);
        }
    }
}

/// A shared prefix does not disturb lexicographic order.
pub proof fn lemma_lex_prefix(x: Seq<char>, a: Seq<char>, b: Seq<char>)
    requires
        lex_less(a, b),
    ensures
        lex_less(x + a, x + b),
    decreases x.len(),
{
    if x.len() == 0 {
        assert(x + a =~= a);
        assert(x + b =~= b);
    } else {
        lemma_lex_prefix(x.drop_first(), a, b);
        assert((x + a).drop_first() =~= x.drop_first() + a);
        assert((x + b).drop_first() =~= x.drop_first() + b);
        assert((x + a)[0] == (x + b)[0]);
    }
}

/// Once two equally long strings are ordered and distinct, appending
/// anything to either side leaves them ordered: the deciding position
/// lies within the common length.
pub proof fn lemma_lex_extend(a: Seq<char>, b: Seq<char>, x: Seq<char>, y: Seq<char>)
    requires
        a.len() == b.len(),
        a != b,
        lex_less(a, b),
    ensures
        lex_less(a + x, b + y),
    decreases a.len(),
{
    if a.len() == 0 {
        assert(a =~= b);
        assert(false);
    } else {
        let ta = a.drop_first();
        let tb = b.drop_first();
        assert((a + x)[0] == a[0]);
        assert((b + y)[0] == b[0]);
        if a[0] == b[0] {
            if ta == tb {
                assert forall|i: int| 0 <= i < a.len() implies a[i] == b[i] by {
                    if i > 0 {
                        assert(ta[i - 1] == a[i]);
                        assert(tb[i - 1] == b[i]);
                    }
                }
                assert(a =~= b);
                assert(false);
            }
            lemma_lex_extend(ta, tb, x, y);
            assert((a + x).drop_first() =~= ta + x);
            assert((b + y).drop_first() =~= tb + y);
        }
    }
}

/// Within the fixed five-digit width of the naming scheme, a smaller
/// frame index persists under a lexicographically smaller file name:
/// listing the files in name order lists the frames in submission
/// order.
pub proof fn lemma_frame_filename_ordered(a: u32, b: u32)
    requires
        a < b,
        b < 100000,
    ensures
        lex_less(frame_filename_spec(a), frame_filename_spec(b)),
{
    reveal_strlit("frame_");
    reveal_strlit(".png");
    let pa = padded_digits(a as nat);
    let pb = padded_digits(b as nat);
    lemma_padded_digits_len(a as nat);
    lemma_padded_digits_len(b as nat);
    lemma_dec_val_of_padded(a as nat);
    lemma_dec_val_of_padded(b as nat);
    lemma_padded_all_dec(a as nat);
    lemma_padded_all_dec(b as nat);
    lemma_dec_lex(pa, pb);
    assert(pa != pb);
    lemma_lex_extend(pa, pb, ".png"@, ".png"@);
    lemma_lex_prefix("frame_"@, pa + ".png"@, pb + ".png"@);
    assert(frame_filename_spec(a) =~= "frame_"@ + (pa + ".png"@));
    assert(frame_filename_spec(b) =~= "frame_"@ + (pb + ".png"@));
}

/// Distinct frame indices persist under distinct file names.
pub proof fn lemma_frame_filename_injective(a: u32, b: u32)
    requires
        frame_filename_spec(a) == frame_filename_spec(b),
    ensures
        a == b,
{
    reveal_strlit("frame_");
    reveal_strlit(".png");
    let fa = frame_filename_spec(a);
    let fb = frame_filename_spec(b);
    let pa = padded_digits(a as nat);
    let pb = padded_digits(b as nat);
    assert(fa.len() == 6 + pa.len() + 4);
    assert(fb.len() == 6 + pb.len() + 4);
    assert(pa.len() == pb.len());
    assert forall|i: int| 0 <= i < pa.len() implies #[trigger] pa[i] == pb[i] by {
        assert(fa[6 + i] == pa[i]);
        assert(fb[6 + i] == pb[i]);
    }
    assert(pa =~= pb);
    lemma_dec_val_of_padded(a as nat);
    lemma_dec_val_of_padded(b as nat);
}

/// The decimal character for one digit value.
fn dec_char_str(d: u32) -> (r: &'static str)
    requires
        d < 10,
    ensures
        r@ == seq![dec_char(d as int)],
{
    proof {
        reveal_strlit("0");
        reveal_strlit("1");
        reveal_strlit("2");
        reveal_strlit("3");
        reveal_strlit("4");
        reveal_strlit("5");
        reveal_strlit("6");
        reveal_strlit("7");
        reveal_strlit("8");
        reveal_strlit("9");
    }
    let r = match d {
        0 => "0",
        1 => "1",
        2 => "2",
        3 => "3",
        4 => "4",
        5 => "5",
        6 => "6",
        7 => "7",
        8 => "8",
        _ => "9",
    };
    proof {
        assert(r@ =~= seq![dec_char(d as int)]);
    }
    r
}

/// Appends the decimal digits of `n`, most significant first.
fn push_dec(n: u32, s: &mut String)
    ensures
        final(s)@ == old(s)@ + dec_digits(n as nat),
    decreases n,
{
    if n >= 10 {
        push_dec(n / 10, s);
    }
    s.append(dec_char_str(n % 10));
    proof {
        if n < 10 {
            assert(old(s)@ + seq![dec_char((n % 10) as int)] =~= old(s)@ + dec_digits(
                n as nat,
            ));
        } else {
            assert(old(s)@ + dec_digits((n / 10) as nat) + seq![dec_char((n % 10) as int)]
                =~= old(s)@ + dec_digits(n as nat));
        }
    }
}

/// Builds the file name for the frame with sequence index `index`:
/// `frame_`, the index zero-padded to at least five decimal digits,
/// then `.png`.
pub fn frame_filename(index: u32) -> (r: String)
    ensures
        r@ == frame_filename_spec(index),
{
    proof {
        reveal_strlit("frame_");
        reveal_strlit(".png");
        reveal_strlit("0000");
        reveal_strlit("000");
        reveal_strlit("00");
        reveal_strlit("0");
        reveal_strlit("");
        lemma_dec_digits_len(index as nat);
    }
    let mut s = String::from_str("frame_");
    let pad: &'static str = if index < 10 {
        "0000"
    } else if index < 100 {
        "000"
    } else if index < 1000 {
        "00"
    } else if index < 10000 {
        "0"
    } else {
        ""
    };
    proof {
        let z = Seq::new((5 - dec_digits(index as nat).len()) as nat, |i: int| '0');
        if dec_digits(index as nat).len() < 5 {
            assert(pad@ =~= z);
        } else {
            assert(pad@ =~= Seq::<char>::empty());
        }
    }
    s.append(pad);
    push_dec(index, &mut s);
    s.append(".png");
    proof {
        if dec_digits(index as nat).len() < 5 {
            let z = Seq::new((5 - dec_digits(index as nat).len()) as nat, |i: int| '0');
            assert(s@ =~= "frame_"@ + (z + dec_digits(index as nat)) + ".png"@);
        } else {
            assert(s@ =~= "frame_"@ + dec_digits(index as nat) + ".png"@);
        }
    }
    s
}

} // verus!
