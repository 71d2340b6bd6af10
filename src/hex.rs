//! Fixed-width lowercase hexadecimal digits, as used on the wire.
use vstd::prelude::*;

verus! {

/// `16^n`.
pub open spec fn pow16(n: nat) -> nat
    decreases n,
{
    if n == 0 {
        1
    } else {
        16 * pow16((n - 1) as nat)
    }
}

/// A lowercase hexadecimal digit.
pub open spec fn is_hex_char(c: char) -> bool {
    ('0' <= c && c <= '9') || ('a' <= c && c <= 'f')
}

pub open spec fn all_hex(s: Seq<char>) -> bool {
    forall|i: int| 0 <= i < s.len() ==> #[trigger] is_hex_char(s[i])
}

/// The value of one hexadecimal digit.
pub open spec fn hex_char_value(c: char) -> nat {
    if '0' <= c && c <= '9' {
        (c as u32 - '0' as u32) as nat
    } else {
        (c as u32 - 'a' as u32 + 10) as nat
    }
}

/// The digit that stands for `d` (for `d < 16`).
pub open spec fn hex_char_of(d: nat) -> char {
    if d == 0 { '0' }
    else if d == 1 { '1' }
    else if d == 2 { '2' }
    else if d == 3 { '3' }
    else if d == 4 { '4' }
    else if d == 5 { '5' }
    else if d == 6 { '6' }
    else if d == 7 { '7' }
    else if d == 8 { '8' }
    else if d == 9 { '9' }
    else if d == 10 { 'a' }
    else if d == 11 { 'b' }
    else if d == 12 { 'c' }
    else if d == 13 { 'd' }
    else if d == 14 { 'e' }
    else { 'f' }
}

/// The number that a string of digits spells, most significant first.
pub open spec fn hex_value(s: Seq<char>) -> nat
    decreases s.len(),
{
    if s.len() == 0 {
        0
    } else {
        hex_value(s.drop_last()) * 16 + hex_char_value(s.last())
    }
}

/// The last `n` hexadecimal digits of `v`, most significant first.
pub open spec fn hex_of(v: nat, n: nat) -> Seq<char>
    decreases n,
{
    if n == 0 {
        Seq::empty()
    } else {
        hex_of(v / 16, (n - 1) as nat).push(hex_char_of(v % 16))
    }
}

pub proof fn lemma_hex_char_round_trip(d: nat)
    requires
        d < 16,
    ensures
        is_hex_char(hex_char_of(d)),
        hex_char_value(hex_char_of(d)) == d,
{
}

pub proof fn lemma_hex_char_value_bound(c: char)
    requires
        is_hex_char(c),
    ensures
        hex_char_value(c) < 16,
{
}

/// `hex_of` yields `n` digits.
pub proof fn lemma_hex_of_shape(v: nat, n: nat)
    ensures
        hex_of(v, n).len() == n,
        all_hex(hex_of(v, n)),
    decreases n,
{
    if n > 0 {
        lemma_hex_of_shape(v / 16, (n - 1) as nat);
        lemma_hex_char_round_trip(v % 16);
        let p = hex_of(v / 16, (n - 1) as nat);
        assert forall|i: int| 0 <= i < hex_of(v, n).len() implies #[trigger] is_hex_char(
            hex_of(v, n)[i],
        ) by {
            if i < p.len() {
                assert(hex_of(v, n)[i] == p[i]);
            }
        }
    }
}

/// Reading back the digits of a value that fits gives the value.
pub proof fn lemma_hex_round_trip(v: nat, n: nat)
    requires
        v < pow16(n),
    ensures
        hex_value(hex_of(v, n)) == v,
    decreases n,
{
    if n > 0 {
        let p = hex_of(v / 16, (n - 1) as nat);
        let c = hex_char_of(v % 16);
        assert(v / 16 < pow16((n - 1) as nat)) by (nonlinear_arith)
            requires
                v < 16 * pow16((n - 1) as nat),
        ;
        lemma_hex_round_trip(v / 16, (n - 1) as nat);
        lemma_hex_char_round_trip(v % 16);
        assert(hex_of(v, n).drop_last() =~= p);
        assert(hex_of(v, n).last() == c);
        assert(v == (v / 16) * 16 + v % 16);
    }
}

/// A string of `n` digits spells a value below `16^n`.
pub proof fn lemma_hex_value_bound(s: Seq<char>)
    requires
        all_hex(s),
    ensures
        hex_value(s) < pow16(s.len()),
    decreases s.len(),
{
    if s.len() > 0 {
        let q = s.drop_last();
        assert(all_hex(q)) by {
            assert forall|i: int| 0 <= i < q.len() implies #[trigger] is_hex_char(q[i]) by {
                assert(q[i] == s[i]);
            }
        }
        lemma_hex_value_bound(q);
        assert(is_hex_char(s[s.len() - 1]));
        lemma_hex_char_value_bound(s.last());
        let a = hex_value(q);
        let b = hex_char_value(s.last());
        let m = pow16(q.len());
        assert(a * 16 + b < 16 * m) by (nonlinear_arith)
            requires
                a < m,
                b < 16,
        ;
    }
}

pub proof fn lemma_pow16_facts()
    ensures
        pow16(2) == 0x100,
        pow16(16) == 0x1_0000_0000_0000_0000,
        pow16(32) == 0x1_0000_0000_0000_0000_0000_0000_0000_0000,
{
    reveal_with_fuel(pow16, 33);
}

pub proof fn lemma_pow16_monotonic(a: nat, b: nat)
    requires
        a <= b,
    ensures
        pow16(a) <= pow16(b),
    decreases b,
{
    if a < b {
        lemma_pow16_monotonic(a, (b - 1) as nat);
    }
}

/// The one-character string that holds the digit for `d`.
fn digit_str(d: u8) -> (r: &'static str)
    requires
        d < 16,
    ensures
        r@ == seq![hex_char_of(d as nat)],
{
    proof {
        reveal_strlit("0");
        reveal_strlit("1");
        reveal_strlit("2");
        reveal_strlit("3");
        reveal_strlit("4");
        reveal_strlit("5");
        reveal_strlit("6");
        reveal_strlit("7");
        reveal_strlit("8");
        reveal_strlit("9");
        reveal_strlit("a");
        reveal_strlit("b");
        reveal_strlit("c");
        reveal_strlit("d");
        reveal_strlit("e");
        reveal_strlit("f");
    }
    let r = if d == 0 { "0" }
    else if d == 1 { "1" }
    else if d == 2 { "2" }
    else if d == 3 { "3" }
    else if d == 4 { "4" }
    else if d == 5 { "5" }
    else if d == 6 { "6" }
    else if d == 7 { "7" }
    else if d == 8 { "8" }
    else if d == 9 { "9" }
    else if d == 10 { "a" }
    else if d == 11 { "b" }
    else if d == 12 { "c" }
    else if d == 13 { "d" }
    else if d == 14 { "e" }
    else { "f" };
    assert(r@ =~= seq![hex_char_of(d as nat)]);
    r
}

/// Appends the last `n` hexadecimal digits of `v` to `out`.
pub fn push_hex(out: &mut String, v: u128, n: usize)
    ensures
        final(out)@ == old(out)@ + hex_of(v as nat, n as nat),
    decreases n,
{
    if n > 0 {
        push_hex(out, v / 16, n - 1);
        let d = (v % 16) as u8;
        out.append(digit_str(d));
        proof {
            let p = hex_of((v / 16) as nat, (n - 1) as nat);
            assert(hex_of(v as nat, n as nat) == p.push(hex_char_of(d as nat)));
            assert(final(out)@ =~= old(out)@ + hex_of(v as nat, n as nat));
        }
    } else {
        assert(out@ =~= old(out)@ + hex_of(v as nat, n as nat));
    }
}

/// Reads the digits of `s` between `from` and `to` as one number.
pub fn parse_hex(s: &str, from: usize, to: usize) -> (r: Option<u128>)
    requires
        from <= to <= s@.len(),
        to - from <= 32,
    ensures
        r == (if all_hex(s@.subrange(from as int, to as int)) {
            Some(hex_value(s@.subrange(from as int, to as int)) as u128)
        } else {
            None::<u128>
        }),
{
    let mut acc: u128 = 0;
    let mut i: usize = from;
    while i < to
        invariant
            from <= i <= to <= s@.len(),
            to - from <= 32,
            all_hex(s@.subrange(from as int, i as int)),
            acc as nat == hex_value(s@.subrange(from as int, i as int)),
        decreases to - i,
    {
        let c = s.get_char(i);
        let ghost prefix = s@.subrange(from as int, i as int);
        let ghost next = s@.subrange(from as int, i + 1);
        assert(next.drop_last() =~= prefix);
        assert(next.last() == c);
        if !(('0' <= c && c <= '9') || ('a' <= c && c <= 'f')) {
            assert(!all_hex(s@.subrange(from as int, to as int))) by {
                assert(s@.subrange(from as int, to as int)[i - from] == c);
                assert(!is_hex_char(s@.subrange(from as int, to as int)[i - from]));
            }
            return None;
        }
        let d: u32 = if c <= '9' { c as u32 - '0' as u32 } else { c as u32 - 'a' as u32 + 10 };
        proof {
            lemma_hex_value_bound(prefix);
            lemma_pow16_monotonic(prefix.len(), 31);
            lemma_pow16_facts();
            reveal_with_fuel(pow16, 33);
        }
        acc = acc * 16 + d as u128;
        assert(all_hex(next)) by {
            assert forall|k: int| 0 <= k < next.len() implies #[trigger] is_hex_char(next[k]) by {
                if k < prefix.len() {
                    assert(next[k] == prefix[k]);
                }
            }
        }
        i = i + 1;
    }
    Some(acc)
}

} // verus!
