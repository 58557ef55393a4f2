use vstd::prelude::*;

verus! {

/// The decimal digits of `n`, as ASCII bytes.
pub open spec fn spec_decimal_digits(n: nat) -> Seq<u8>
    decreases n,
{
    if n < 10 {
        seq![(48 + n) as u8]
    } else {
        spec_decimal_digits(n / 10).push((48 + n % 10) as u8)
    }
}

/// The decimal text of `n`, a minus sign first when it is negative, as ASCII bytes.
pub open spec fn spec_decimal_i16(n: int) -> Seq<u8> {
    if n < 0 {
        seq![45u8] + spec_decimal_digits((-n) as nat)
    } else {
        spec_decimal_digits(n as nat)
    }
}

/// The decimal digits of `n`, as characters.
pub open spec fn spec_decimal_chars(n: nat) -> Seq<char>
    decreases n,
{
    if n < 10 {
        seq![(48 + n) as char]
    } else {
        spec_decimal_chars(n / 10).push((48 + n % 10) as char)
    }
}

pub proof fn lemma_decimal_digits_shape(n: nat)
    ensures
        spec_decimal_digits(n).len() >= 1,
        n < 100 ==> spec_decimal_digits(n).len() <= 2,
        n < 1000 ==> spec_decimal_digits(n).len() <= 3,
        n < 10000 ==> spec_decimal_digits(n).len() <= 4,
        n < 100000 ==> spec_decimal_digits(n).len() <= 5,
        forall|i: int|
            0 <= i < spec_decimal_digits(n).len() ==> 48 <= #[trigger] spec_decimal_digits(n)[i]
                <= 57,
    decreases n,
{
    if n >= 10 {
        lemma_decimal_digits_shape(n / 10);
    }
}

pub proof fn lemma_decimal_i16_shape(n: int)
    requires
        i16::MIN <= n <= i16::MAX,
    ensures
        1 <= spec_decimal_i16(n).len() <= 6,
        forall|i: int| 0 <= i < spec_decimal_i16(n).len() ==> #[trigger] spec_decimal_i16(n)[i] < 128,
        48 <= spec_decimal_i16(n).last() <= 57,
{
    if n < 0 {
        lemma_decimal_digits_shape((-n) as nat);
        let d = spec_decimal_digits((-n) as nat);
        assert(spec_decimal_i16(n).last() == d.last());
        assert forall|i: int| 0 <= i < spec_decimal_i16(n).len() implies #[trigger] spec_decimal_i16(n)[i] < 128 by {
            if i > 0 {
                assert(spec_decimal_i16(n)[i] == d[i - 1]);
            }
        }
    } else {
        lemma_decimal_digits_shape(n as nat);
    }
}

/// The decimal digits of `n` as ASCII bytes.
pub fn decimal_u32(n: u32) -> (r: Vec<u8>)
    ensures
        r@ == spec_decimal_digits(n as nat),
    decreases n,
{
    if n < 10 {
        let d: u8 = (48 + n) as u8;
        let v = vec![d];
        assert(v@ =~= spec_decimal_digits(n as nat));
        v
    } else {
        let mut v = decimal_u32(n / 10);
        let d: u8 = (48 + n % 10) as u8;
        v.push(d);
        v
    }
}

/// The decimal text of `n` as ASCII bytes, as `format!("{}", n)` writes it.
pub fn decimal_i16(n: i16) -> (r: Vec<u8>)
    ensures
        r@ == spec_decimal_i16(n as int),
{
    if n < 0 {
        let m: u32 = (0i32 - (n as i32)) as u32;
        let mut v: Vec<u8> = vec![45u8];
        let mut d = decimal_u32(m);
        v.append(&mut d);
        assert(v@ =~= spec_decimal_i16(n as int));
        v
    } else {
        decimal_u32(n as u32)
    }
}

fn digit_str(d: u32) -> (r: &'static str)
    requires
        d < 10,
    ensures
        r@ == seq![(48 + d) as char],
{
        if d == 0 {
            proof { reveal_strlit("0"); }
            "0"
        } else if d == 1 {
            proof { reveal_strlit("1"); }
            "1"
        } else if d == 2 {
            proof { reveal_strlit("2"); }
            "2"
        } else if d == 3 {
            proof { reveal_strlit("3"); }
            "3"
        } else if d == 4 {
            proof { reveal_strlit("4"); }
            "4"
        } else if d == 5 {
            proof { reveal_strlit("5"); }
            "5"
        } else if d == 6 {
            proof { reveal_strlit("6"); }
            "6"
        } else if d == 7 {
            proof { reveal_strlit("7"); }
            "7"
        } else if d == 8 {
            proof { reveal_strlit("8"); }
            "8"
        } else if d == 9 {
            proof { reveal_strlit("9"); }
            "9"
        } else {
            proof { reveal_strlit("9"); }
            "9"
        }
}

/// The decimal digits of `n`, as `n.to_string()` writes them.
pub fn decimal_string(n: u32) -> (r: String)
    ensures
        r@ == spec_decimal_chars(n as nat),
    decreases n,
{
    if n < 10 {
        let s = digit_str(n);
        let r = String::from_str(s);
        assert(r@ =~= spec_decimal_chars(n as nat));
        r
    } else {
        let mut r = decimal_string(n / 10);
        let s = digit_str(n % 10);
        r.append(s);
        assert(r@ =~= spec_decimal_chars(n as nat));
        r
    }
}

} // verus!
