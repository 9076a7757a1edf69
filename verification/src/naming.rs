use vstd::prelude::*;

verus! {

/// The decimal digits of `n`, most significant first, as ASCII bytes.
pub open spec fn decimal(n: nat) -> Seq<u8>
    decreases n,
{
    if n < 10 {
        seq![(48 + n) as u8]
    } else {
        decimal(n / 10).push((48 + n % 10) as u8)
    }
}

/// The name the stack gives the device registered with `index`: "net" and
/// the index in decimal.
pub open spec fn device_name_for(index: u32) -> Seq<u8> {
    seq![110u8, 101u8, 116u8] + decimal(index as nat)
}

/// `name` is what a C string in `buf` reads: the bytes before the first NUL.
pub open spec fn is_c_name(buf: Seq<u8>, name: Seq<u8>) -> bool {
    &&& name.len() < buf.len()
    &&& buf[name.len() as int] == 0
    &&& forall|j: int| 0 <= j < name.len() ==> buf[j] == name[j] && name[j] != 0
}

/// Powers of ten.
pub open spec fn pow10(k: nat) -> nat
    decreases k,
{
    if k == 0 {
        1
    } else {
        10 * pow10((k - 1) as nat)
    }
}

/// The ASCII decimal digits of `n`, most significant first.
pub fn decimal_digits(n: u32) -> (v: Vec<u8>)
    ensures
        v@ == decimal(n as nat),
    decreases n,
{
    if n < 10 {
        let d: u8 = n as u8;
        let mut v: Vec<u8> = Vec::new();
        v.push(48u8 + d);
        v
    } else {
        let mut v = decimal_digits(n / 10);
        let d: u8 = (n % 10) as u8;
        v.push(48u8 + d);
        v
    }
}

/// "net" followed by the decimal digits of `index`.
pub fn device_name(index: u32) -> (v: Vec<u8>)
    ensures
        v@ == device_name_for(index),
{
    let digits = decimal_digits(index);
    let mut v: Vec<u8> = Vec::new();
    v.push(110u8);
    v.push(101u8);
    v.push(116u8);
    let mut i: usize = 0;
    while i < digits.len()
        invariant
            0 <= i <= digits.len(),
            digits@ == decimal(index as nat),
            v@ == seq![110u8, 101u8, 116u8] + digits@.take(i as int),
        decreases digits.len() - i,
    {
        v.push(digits[i]);
        i = i + 1;
        assert(digits@.take(i as int) =~= digits@.take((i - 1) as int).push(digits@[i - 1]));
    }
    assert(digits@.take(i as int) =~= digits@);
    v
}

/// Every byte of a decimal rendering is an ASCII digit.
pub proof fn lemma_decimal_digits(n: nat)
    ensures
        decimal(n).len() >= 1,
        forall|j: int| 0 <= j < decimal(n).len() ==> 48 <= #[trigger] decimal(n)[j] <= 57,
    decreases n,
{
    if n >= 10 {
        lemma_decimal_digits(n / 10);
    }
}

/// A number below 10^k has at most k decimal digits.
pub proof fn lemma_decimal_len(n: nat, k: nat)
    requires
        k >= 1,
        n < pow10(k),
    ensures
        decimal(n).len() <= k,
    decreases k,
{
    if n >= 10 {
        let p = pow10((k - 1) as nat);
        assert(k - 1 >= 1) by {
            if k == 1 {
                assert(pow10(0) == 1);
            }
        }
        assert(n / 10 < p) by (nonlinear_arith)
            requires
                n < 10 * p,
        ;
        lemma_decimal_len(n / 10, (k - 1) as nat);
    }
}

/// Distinct numbers have distinct decimal renderings.
pub proof fn lemma_decimal_injective(a: nat, b: nat)
    requires
        decimal(a) == decimal(b),
    ensures
        a == b,
    decreases a,
{
    lemma_decimal_digits(a / 10);
    lemma_decimal_digits(b / 10);
    if a < 10 && b < 10 {
        assert(decimal(a)[0] == decimal(b)[0]);
        assert(decimal(a)[0] == 48 + a);
        assert(decimal(b)[0] == 48 + b);
    } else if a < 10 {
        assert(decimal(b).len() >= 2);
    } else if b < 10 {
        assert(decimal(a).len() >= 2);
    } else {
        let da = decimal(a);
        let db = decimal(b);
        assert(da.last() == db.last());
        assert(da.last() == 48 + a % 10);
        assert(db.last() == 48 + b % 10);
        assert(a % 10 == b % 10);
        assert(da.drop_last() =~= decimal(a / 10));
        assert(db.drop_last() =~= decimal(b / 10));
        lemma_decimal_injective(a / 10, b / 10);
        assert(a == 10 * (a / 10) + a % 10);
        assert(b == 10 * (b / 10) + b % 10);
    }
}

/// The name of every device index fits in a 16-byte buffer with its NUL.
pub proof fn lemma_device_name_fits(index: u32)
    ensures
        device_name_for(index).len() < 16,
        forall|j: int|
            0 <= j < device_name_for(index).len() ==> #[trigger] device_name_for(index)[j] != 0,
{
    assert(pow10(10) == 10000000000) by {
        reveal_with_fuel(pow10, 11);
    }
    lemma_decimal_len(index as nat, 10);
    lemma_decimal_digits(index as nat);
    assert forall|j: int| 0 <= j < device_name_for(index).len() implies #[trigger] device_name_for(
        index,
    )[j] != 0 by {
        if j >= 3 {
            assert(device_name_for(index)[j] == decimal(index as nat)[j - 3]);
        }
    }
}

/// Distinct device indices give distinct names.
pub proof fn lemma_device_name_injective(a: u32, b: u32)
    requires
        device_name_for(a) == device_name_for(b),
    ensures
        a == b,
{
    let p = seq![110u8, 101u8, 116u8];
    assert((p + decimal(a as nat)).skip(3) =~= decimal(a as nat));
    assert((p + decimal(b as nat)).skip(3) =~= decimal(b as nat));
    lemma_decimal_injective(a as nat, b as nat);
}

} // verus!
