use vstd::prelude::*;
use vstd::string::StringSliceAdditionalSpecFns;

verus! {

/// Whether `b` is the UTF-8 byte of an ASCII decimal digit.
pub open spec fn is_digit(b: u8) -> bool {
    48 <= b <= 57
}

/// The number that a run of decimal digits spells, most significant first.
pub open spec fn digits_value(s: Seq<u8>) -> int
    decreases s.len(),
{
    if s.len() == 0 {
        0
    } else {
        digits_value(s.drop_last()) * 10 + (s.last() - 48)
    }
}

/// The bytes of an amount after its optional leading `+` sign.
pub open spec fn unsigned_part(s: Seq<u8>) -> Seq<u8> {
    if s.len() > 0 && s[0] == 43u8 {
        s.drop_first()
    } else {
        s
    }
}

/// Whether `s` is the text of a `u64` amount: an optional `+`, then one or
/// more ASCII digits (leading zeros allowed) whose value fits in 64 bits.
/// This is the syntax that the standard library's `u64` parser accepts.
pub open spec fn is_amount_text(s: Seq<u8>) -> bool {
    let d = unsigned_part(s);
    &&& d.len() > 0
    &&& forall|i: int| 0 <= i < d.len() ==> is_digit(#[trigger] d[i])
    &&& digits_value(d) <= u64::MAX
}

/// The value of the amount text `s`.
pub open spec fn amount_value(s: Seq<u8>) -> int {
    digits_value(unsigned_part(s))
}

/// A run of digits is worth at least each of its prefixes.
pub proof fn lemma_prefix_value_le(s: Seq<u8>, k: int)
    requires
        0 <= k <= s.len(),
        forall|i: int| 0 <= i < s.len() ==> is_digit(#[trigger] s[i]),
    ensures
        0 <= digits_value(s.take(k)) <= digits_value(s),
    decreases s.len() - k,
{
    if k == s.len() {
        assert(s.take(k) =~= s);
        lemma_value_nonneg(s);
    } else {
        lemma_prefix_value_le(s, k + 1);
        let t = s.take(k + 1);
        assert(t.drop_last() =~= s.take(k));
        lemma_value_nonneg(s.take(k));
    }
}

/// A run of digits has a non-negative value.
pub proof fn lemma_value_nonneg(s: Seq<u8>)
    requires
        forall|i: int| 0 <= i < s.len() ==> is_digit(#[trigger] s[i]),
    ensures
        digits_value(s) >= 0,
    decreases s.len(),
{
    if s.len() > 0 {
        assert(is_digit(s[s.len() - 1]));
        lemma_value_nonneg(s.drop_last());
    }
}

/// Reads a token amount given as decimal text, as `str::parse::<u64>` does:
/// `Some` exactly for the texts that `is_amount_text` accepts, with their value.
pub fn parse_amount(text: &str) -> (r: Option<u64>)
    ensures
        r is Some <==> is_amount_text(text.spec_bytes()),
        r matches Some(v) ==> v == amount_value(text.spec_bytes()),
{
    let bytes = text.as_bytes();
    let ghost s = bytes@;
    let n = bytes.len();
    let mut start: usize = 0;
    if n > 0 && bytes[0] == 43u8 {
        start = 1;
    }
    let ghost d = unsigned_part(s);
    assert(d =~= s.subrange(start as int, n as int));
    if start == n {
        return None;
    }
    let mut acc: u64 = 0;
    let mut i: usize = start;
    while i < n
        invariant
            bytes@ == s,
            s == text.spec_bytes(),
            d == unsigned_part(s),
            n == s.len(),
            d =~= s.subrange(start as int, n as int),
            start <= i <= n,
            forall|j: int| 0 <= j < i - start ==> is_digit(#[trigger] d[j]),
            acc == digits_value(d.take(i - start)),
        decreases n - i,
    {
        let b = bytes[i];
        if b < 48 || b > 57 {
            assert(!is_digit(d[i - start]));
            return None;
        }
        let ghost k: int = i - start;
        assert(d.take(k + 1).drop_last() =~= d.take(k));
        assert(d.take(k + 1).last() == b);
        if acc > (u64::MAX - (b - 48) as u64) / 10 {
            proof {
                assert(digits_value(d.take(k + 1)) == acc * 10 + (b - 48));
                assert(digits_value(d.take(k + 1)) > u64::MAX) by (nonlinear_arith)
                    requires
                        acc > (u64::MAX - (b - 48) as u64) / 10,
                        digits_value(d.take(k + 1)) == acc * 10 + (b - 48),
                        0 <= b - 48 <= 9,
                ;
                if forall|j: int| 0 <= j < d.len() ==> is_digit(#[trigger] d[j]) {
                    lemma_prefix_value_le(d, k + 1);
                }
            }
            return None;
        }
        acc = acc * 10 + (b - 48) as u64;
        i = i + 1;
    }
    assert(d.take(n - start) =~= d);
    Some(acc)
}

} // verus!
