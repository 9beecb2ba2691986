//! Number formatting helpers: digit characters, digit counts and the
//! fixed-width (20 byte) textual rendering of integers in any base.
use vstd::prelude::*;
use vstd::arithmetic::div_mod::{lemma_div_decreases, lemma_fundamental_div_mod};

verus! {

/// The ASCII space that pads rendered numbers.
pub const SPACE: u8 = 32;

/// Width, in bytes, of every rendered number.
pub const RENDER_WIDTH: usize = 20;

/// The character of a single digit value: `0..=9` map to `'0'..='9'`,
/// larger values continue from `'A'`.
pub open spec fn hex_char(d: u8) -> u8 {
    if d < 10 {
        (d + 48) as u8
    } else {
        (d + 55) as u8
    }
}

/// The digits of `n` written in base `b`, least significant first.
/// Zero has the single digit `0`.
pub open spec fn base_digits(n: nat, b: nat) -> Seq<nat>
    decreases n,
{
    if b < 2 || n / b == 0 {
        seq![n % b]
    } else {
        proof {
            lemma_div_decreases(n as int, b as int);
        }
        seq![n % b] + base_digits(n / b, b)
    }
}

/// The character used for one digit; the digit is taken as a byte, as the
/// renderer does.
pub open spec fn digit_char(d: nat) -> u8 {
    hex_char(d as u8)
}

/// The characters of the digits of `n` in base `b`, least significant first.
pub open spec fn digit_chars(n: nat, b: nat) -> Seq<u8> {
    base_digits(n, b).map_values(|d: nat| digit_char(d))
}

/// `k` spaces.
pub open spec fn spaces(k: nat) -> Seq<u8> {
    Seq::new(k, |i: int| SPACE)
}

/// When `to_base` can render `n` in base `b`: the base makes progress (or
/// the number is zero in base one), the digits fit the 20 byte buffer, and
/// every digit, taken as a byte, has a character.
pub open spec fn to_base_fits(n: u64, b: u64) -> bool {
    &&& (b >= 2 || (b == 1 && n == 0))
    &&& base_digits(n as nat, b as nat).len() <= RENDER_WIDTH
    &&& forall|i: int|
        0 <= i < base_digits(n as nat, b as nat).len() ==> (#[trigger] base_digits(
            n as nat,
            b as nat,
        )[i] as u8) <= 200
}

/// The rendering of `n` in base `b`: its digits, most significant first,
/// followed by spaces up to 20 bytes.
pub open spec fn rendered(n: nat, b: nat) -> Seq<u8> {
    digit_chars(n, b).reverse() + spaces((RENDER_WIDTH - digit_chars(n, b).len()) as nat)
}

/// The number of decimal digits of `n`; zero has none.
pub open spec fn decimal_len(n: nat) -> nat
    decreases n,
{
    if n == 0 {
        0
    } else {
        1 + decimal_len(n / 10)
    }
}

/// The bytes of `s` that are not spaces, in order.
pub open spec fn strip_spaces(s: Seq<u8>) -> Seq<u8>
    decreases s.len(),
{
    if s.len() == 0 {
        Seq::empty()
    } else if s.last() == SPACE {
        strip_spaces(s.drop_last())
    } else {
        strip_spaces(s.drop_last()).push(s.last())
    }
}

// Technically this supports up-to base 26 :P
/// Converts a digit value into its ASCII character.
pub fn int_to_hex(number: u8) -> (c: u8)
    requires
        number <= 200,
    ensures
        c == hex_char(number),
{
    if number < 10 {
        number + 48
    } else {
        number - 10 + 65
    }
}

/// Given a number, how many decimal digits it has (zero has none).
pub fn digits(number: u32) -> (count: u8)
    ensures
        count == decimal_len(number as nat),
{
    let mut count: u8 = 0;
    let mut counter: u32 = number;
    proof {
        reveal_with_fuel(pow_nat, 11);
        lemma_decimal_len_le(number as nat, 10);
    }
    while counter > 0
        invariant
            count + decimal_len(counter as nat) == decimal_len(number as nat),
            decimal_len(number as nat) <= 10,
        decreases counter,
    {
        counter = counter / 10;
        count = count + 1;
    }
    count
}

/// A number below `10^k` has at most `k` decimal digits.
proof fn lemma_decimal_len_le(n: nat, k: nat)
    requires
        n < pow_nat(10, k),
    ensures
        decimal_len(n) <= k,
    decreases k,
{
    if n > 0 {
        if k == 0 {
            assert(pow_nat(10, 0) == 1);
        } else {
            let sub = pow_nat(10, (k - 1) as nat);
            assert(pow_nat(10, k) == 10 * sub);
            assert(n / 10 < sub);
            lemma_decimal_len_le(n / 10, (k - 1) as nat);
        }
    }
}

proof fn lemma_hex_char_not_space(d: u8)
    requires
        d <= 200,
    ensures
        hex_char(d) != SPACE,
{
}

/// One step of the digit recursion.
pub proof fn lemma_base_digits_step(n: nat, b: nat)
    requires
        b >= 2,
    ensures
        n / b == 0 ==> base_digits(n, b) == seq![n % b],
        n / b != 0 ==> base_digits(n, b) == seq![n % b] + base_digits(n / b, b),
        base_digits(n, b).len() >= 1,
{
}

/// Removing spaces distributes over concatenation.
proof fn lemma_strip_concat(a: Seq<u8>, b: Seq<u8>)
    ensures
        strip_spaces(a + b) == strip_spaces(a) + strip_spaces(b),
    decreases b.len(),
{
    if b.len() == 0 {
        assert(a + b =~= a);
    } else {
        lemma_strip_concat(a, b.drop_last());
        assert((a + b).drop_last() =~= a + b.drop_last());
        assert((a + b).last() == b.last());
    }
}

/// A run of spaces has no non-space bytes.
proof fn lemma_strip_spaces_only(k: nat)
    ensures
        strip_spaces(spaces(k)) == Seq::<u8>::empty(),
    decreases k,
{
    if k > 0 {
        assert(spaces(k).drop_last() =~= spaces((k - 1) as nat));
        lemma_strip_spaces_only((k - 1) as nat);
    }
}

/// Removing spaces from bytes that hold none changes nothing.
proof fn lemma_strip_none(s: Seq<u8>)
    requires
        forall|i: int| 0 <= i < s.len() ==> s[i] != SPACE,
    ensures
        strip_spaces(s) == s,
    decreases s.len(),
{
    if s.len() > 0 {
        lemma_strip_none(s.drop_last());
        assert(s.drop_last().push(s.last()) =~= s);
    }
}

/// Reverses the bytes of `arr` in place.
fn reverse(arr: &mut [u8])
    requires
        old(arr)@.len() >= 1,
    ensures
        final(arr)@ == old(arr)@.reverse(),
{
    let size = arr.len();
    let mut i: usize = 0;
    let mut r: usize = size - 1;
    while i < size / 2
        invariant
            size == arr@.len(),
            size == old(arr)@.len(),
            size >= 1,
            r == size - 1 - i,
            i <= size / 2,
            forall|k: int| 0 <= k < i ==> arr@[k] == old(arr)@[size - 1 - k],
            forall|k: int| 0 <= k < i ==> arr@[size - 1 - k] == old(arr)@[k],
            forall|k: int| i <= k < size - i ==> arr@[k] == old(arr)@[k],
        decreases size / 2 - i,
    {
        let temp = arr[i];
        arr[i] = arr[r];
        arr[r] = temp;
        r = r - 1;
        i = i + 1;
    }
    assert(arr@ =~= old(arr)@.reverse());
}

/// Moves every non-space byte to the front, keeping their order; the
/// spaces end up at the back.
fn compact(arr: &mut [u8])
    ensures
        final(arr)@ == strip_spaces(old(arr)@) + spaces(
            (old(arr)@.len() - strip_spaces(old(arr)@).len()) as nat,
        ),
{
    let ghost orig = arr@;
    let mut left: usize = 0;
    let mut right: usize = 0;
    let size = arr.len();
    while right < size && left < size
        invariant
            size == arr@.len(),
            orig.len() == size,
            left <= right <= size,
            arr@.subrange(0, left as int) == strip_spaces(orig.take(right as int)),
            forall|k: int| left <= k < right ==> arr@[k] == SPACE,
            forall|k: int| right <= k < size ==> arr@[k] == orig[k],
        decreases size - right,
    {
        assert(orig.take(right + 1).drop_last() =~= orig.take(right as int));
        if arr[left] == SPACE && arr[right] != SPACE {
            let ghost before = arr@;
            let temp = arr[left];
            arr[left] = arr[right];
            arr[right] = temp;
            right = right + 1;
            left = left + 1;
            assert(arr@.subrange(0, left as int) =~= before.subrange(0, left - 1).push(
                orig[right - 1],
            ));
        } else if arr[left] == SPACE {
            right = right + 1;
        } else {
            let ghost before = arr@;
            right = right + 1;
            left = left + 1;
            assert(arr@.subrange(0, left as int) =~= before.subrange(0, left - 1).push(
                orig[right - 1],
            ));
        }
    }
    assert(orig.take(size as int) =~= orig);
    assert(arr@ =~= arr@.subrange(0, left as int) + arr@.subrange(left as int, size as int));
    assert(arr@.subrange(left as int, size as int) =~= spaces((size - left) as nat));
}

/// Renders `number` in base `base`: the digits, most significant first,
/// followed by spaces up to 20 bytes.
pub fn to_base(number: u64, base: u64) -> (result: [u8; 20])
    requires
        to_base_fits(number, base),
    ensures
        result@ == rendered(number as nat, base as nat),
{
    let mut result: [u8; 20] = [SPACE; 20];
    let mut idx: usize = 0;
    let mut temp: u64 = number;
    let ghost all = base_digits(number as nat, base as nat);
    let ghost mut done: Seq<nat> = Seq::empty();
    loop
        invariant_except_break
            all == base_digits(number as nat, base as nat),
            to_base_fits(number, base),
            all == done + base_digits(temp as nat, base as nat),
            base >= 2 || temp == 0,
        invariant
            result@.len() == 20,
            idx == done.len(),
            idx <= 20,
            forall|k: int| 0 <= k < idx ==> result@[k] == digit_char(#[trigger] done[k]),
            forall|k: int| idx <= k < 20 ==> result@[k] == SPACE,
            forall|k: int| 0 <= k < idx ==> (done[k] as u8) <= 200,
        ensures
            all == done,
            idx == done.len(),
            idx >= 1,
        decreases temp,
    {
        let ghost old_temp = temp;
        let ghost rest = base_digits(temp as nat, base as nat);
        if base >= 2 {
            proof {
                lemma_base_digits_step(temp as nat, base as nat);
            }
        }
        assert(rest[0] == temp % base);
        assert(all[idx as int] == rest[0]);
        let element = temp % base;
        temp = temp / base;
        result[idx] = int_to_hex(element as u8);
        proof {
            done = done.push(element as nat);
        }
        idx = idx + 1;
        if temp == 0 {
            assert(all =~= done);
            break;
        }
        proof {
            assert(rest =~= seq![old_temp as nat % base as nat] + base_digits(temp as nat, base as nat));
            assert(all =~= done + base_digits(temp as nat, base as nat));
            lemma_div_decreases(old_temp as int, base as int);
        }
    }
    let ghost chars = digit_chars(number as nat, base as nat);
    assert(result@ =~= chars + spaces((20 - idx) as nat));
    reverse(&mut result);
    proof {
        assert((chars + spaces((20 - idx) as nat)).reverse() =~= spaces((20 - idx) as nat)
            + chars.reverse());
        assert forall|k: int| 0 <= k < chars.reverse().len() implies chars.reverse()[k]
            != SPACE by {
            let j = chars.len() - 1 - k;
            assert(chars.reverse()[k] == digit_char(done[j]));
            lemma_hex_char_not_space(done[j] as u8);
        }
        lemma_strip_concat(spaces((20 - idx) as nat), chars.reverse());
        lemma_strip_spaces_only((20 - idx) as nat);
        lemma_strip_none(chars.reverse());
        assert(Seq::<u8>::empty() + chars.reverse() =~= chars.reverse());
    }
    compact(&mut result);
    result
}

/// Renders `val` in decimal, padded with spaces to 20 bytes.
pub fn itoa_u64(val: u64) -> (result: [u8; 20])
    ensures
        result@ == rendered(val as nat, 10),
{
    proof {
        lemma_decimal_fits(val);
    }
    to_base(val, 10)
}

/// Renders `val` in decimal, padded with spaces to 20 bytes.
pub fn itoa_u32(val: u32) -> (result: [u8; 20])
    ensures
        result@ == rendered(val as nat, 10),
{
    proof {
        lemma_decimal_fits(val as u64);
    }
    to_base(val as u64, 10)
}

/// Renders `val` in decimal, padded with spaces to 20 bytes.
pub fn itoa_u16(val: u16) -> (result: [u8; 20])
    ensures
        result@ == rendered(val as nat, 10),
{
    proof {
        lemma_decimal_fits(val as u64);
    }
    to_base(val as u64, 10)
}

/// Renders `val` in decimal, padded with spaces to 20 bytes.
pub fn itoa_u8(val: u8) -> (result: [u8; 20])
    ensures
        result@ == rendered(val as nat, 10),
{
    proof {
        lemma_decimal_fits(val as u64);
    }
    to_base(val as u64, 10)
}

/// Every digit is below the base, and a number below `b^k` has at most
/// `k` digits.
proof fn lemma_base_digits_bounds(n: nat, b: nat, k: nat, bound: nat)
    requires
        b >= 2,
        k >= 1,
        n < bound,
        bound == pow_nat(b, k),
    ensures
        base_digits(n, b).len() <= k,
        forall|i: int| 0 <= i < base_digits(n, b).len() ==> #[trigger] base_digits(n, b)[i] < b,
    decreases k,
{
    lemma_base_digits_step(n, b);
    lemma_fundamental_div_mod(n as int, b as int);
    if n / b != 0 {
        if k == 1 {
            assert(pow_nat(b, 1) == b * pow_nat(b, 0));
            assert(pow_nat(b, 0) == 1);
            assert(bound == b) by (nonlinear_arith)
                requires
                    bound == b * pow_nat(b, 0),
                    pow_nat(b, 0) == 1,
            ;
            assert(false) by (nonlinear_arith)
                requires
                    n < b,
                    n / b != 0,
                    b >= 2,
            ;
        } else {
            let sub = pow_nat(b, (k - 1) as nat);
            assert(bound == b * sub);
            assert(n / b < sub) by (nonlinear_arith)
                requires
                    n < b * sub,
                    b >= 2,
            ;
            lemma_base_digits_bounds(n / b, b, (k - 1) as nat, sub);
            let rest = base_digits(n / b, b);
            assert forall|i: int| 0 <= i < base_digits(n, b).len() implies #[trigger] base_digits(
                n,
                b,
            )[i] < b by {
                if i > 0 {
                    assert(base_digits(n, b)[i] == rest[i - 1]);
                }
            }
        }
    }
}

/// `b` to the power `k`.
pub open spec fn pow_nat(b: nat, k: nat) -> nat
    decreases k,
{
    if k == 0 {
        1
    } else {
        b * pow_nat(b, (k - 1) as nat)
    }
}

/// Every 64 bit number renders in hexadecimal.
pub proof fn lemma_hex_fits(n: u64)
    ensures
        to_base_fits(n, 16),
{
    reveal_with_fuel(pow_nat, 17);
    assert(pow_nat(16, 16) == 0x1_0000_0000_0000_0000nat);
    lemma_base_digits_bounds(n as nat, 16, 16, pow_nat(16, 16));
}

/// Every 64 bit number renders in decimal.
pub proof fn lemma_decimal_fits(n: u64)
    ensures
        to_base_fits(n, 10),
{
    reveal_with_fuel(pow_nat, 21);
    assert(pow_nat(10, 20) == 100000000000000000000nat);
    lemma_base_digits_bounds(n as nat, 10, 20, pow_nat(10, 20));
}

/// The decimal digits of `n`, most significant first, with no padding.
pub fn decimal_text(n: u64) -> (r: Vec<u8>)
    ensures
        r@ == digit_chars(n as nat, 10).reverse(),
{
    let mut out: Vec<u8> = Vec::new();
    let mut t: u64 = n;
    loop
        invariant
            digit_chars(n as nat, 10).reverse() == digit_chars(t as nat, 10).reverse() + out@,
        decreases t,
    {
        let d = (t % 10) as u8;
        let c = int_to_hex(d);
        proof {
            lemma_base_digits_step(t as nat, 10);
            let ds = base_digits(t as nat, 10);
            let cs = digit_chars(t as nat, 10);
            if t / 10 == 0 {
                assert(cs =~= seq![c]);
                assert(cs.reverse() =~= seq![c]);
            } else {
                let rest = digit_chars((t / 10) as nat, 10);
                assert(cs =~= seq![c] + rest);
                assert(cs.reverse() =~= rest.reverse() + seq![c]);
            }
        }
        out.insert(0, c);
        if t / 10 == 0 {
            assert(digit_chars(n as nat, 10).reverse() =~= out@);
            return out;
        }
        t = t / 10;
    }
}

/// The next value of the first register of the xorshift+ generator, from
/// its registers `t` and `s`.
pub open spec fn xorshift_next(t: u64, s: u64) -> u64 {
    let a = t ^ (t << 23u64);
    let b = a ^ (a >> 18u64);
    b ^ (s ^ (s >> 5u64))
}

/// The xorshift+ pseudo-random generator: its two registers.
pub struct XorShift {
    pub regs: [u64; 2],
}

impl XorShift {
    /// The generator in its starting state.
    pub fn new() -> (r: XorShift)
        ensures
            r.regs@ == seq![0xFAE0u64, 0xFFAA_FFDCu64],
    {
        let r = XorShift { regs: [0xFAE0, 0xFFAA_FFDC] };
        assert(r.regs@ =~= seq![0xFAE0u64, 0xFFAA_FFDCu64]);
        r
    }

    /// The next pseudo-random number: the registers shift along, the new
    /// one mixed from both, and their sum wraps around.
    pub fn rand(&mut self) -> (r: u64)
        ensures
            final(self).regs@ == seq![old(self).regs@[1], xorshift_next(old(self).regs@[0], old(self).regs@[1])],
            r as int == (xorshift_next(old(self).regs@[0], old(self).regs@[1]) as int + old(self).regs@[1] as int)
                % 0x1_0000_0000_0000_0000int,
    {
        let mut t = self.regs[0];
        let s = self.regs[1];
        self.regs[0] = s;
        t = t ^ (t << 23u64);
        t = t ^ (t >> 18u64);
        t = t ^ (s ^ (s >> 5u64));
        self.regs[1] = t;
        assert(self.regs@ =~= seq![old(self).regs@[1], xorshift_next(old(self).regs@[0], old(self).regs@[1])]);
        t.wrapping_add(s)
    }

    /// Seeds the generator: the first register takes `val`.
    pub fn seed_rand(&mut self, val: u64)
        ensures
            final(self).regs@ == old(self).regs@.update(0, val),
    {
        self.regs[0] = val;
    }
}

} // verus!
