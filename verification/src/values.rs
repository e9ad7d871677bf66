//! Fixed-width bit vectors, the values carried on the ports of the
//! interpreter's primitive cells. Bit 0 is the least significant bit.

use vstd::prelude::*;
use vstd::arithmetic::power2::*;
use vstd::arithmetic::div_mod::*;

verus! {

/// A bit as a number.
pub open spec fn bit_val(b: bool) -> nat {
    if b {
        1
    } else {
        0
    }
}

/// The unsigned number that a little-endian bit sequence denotes.
pub open spec fn bits_val(s: Seq<bool>) -> nat
    decreases s.len(),
{
    if s.len() == 0 {
        0
    } else {
        bit_val(s[0]) + 2 * bits_val(s.drop_first())
    }
}

/// The `width` least significant bits of `n`, least significant first.
pub open spec fn nat_bits(n: nat, width: nat) -> Seq<bool>
    decreases width,
{
    if width == 0 {
        Seq::empty()
    } else {
        seq![n % 2 == 1] + nat_bits(n / 2, (width - 1) as nat)
    }
}

/// `width` cleared bits.
pub open spec fn zero_bits(width: nat) -> Seq<bool> {
    Seq::new(width, |i: int| false)
}

/// `nat_bits` yields exactly `width` bits.
pub proof fn lemma_nat_bits_len(n: nat, width: nat)
    ensures
        nat_bits(n, width).len() == width,
    decreases width,
{
    if width > 0 {
        lemma_nat_bits_len(n / 2, (width - 1) as nat);
    }
}

/// A bit sequence denotes a number below two to its length.
pub proof fn lemma_bits_val_bound(s: Seq<bool>)
    ensures
        bits_val(s) < pow2(s.len()),
    decreases s.len(),
{
    if s.len() == 0 {
        assert(pow2(0) == 1) by {
            lemma2_to64();
        }
    } else {
        lemma_bits_val_bound(s.drop_first());
        lemma_pow2_unfold(s.len());
    }
}

/// Reading back the `w` low bits of `n` gives `n` modulo two to the `w`.
pub proof fn lemma_bits_val_nat_bits(n: nat, width: nat)
    ensures
        bits_val(nat_bits(n, width)) == n % pow2(width),
    decreases width,
{
    if width == 0 {
        assert(pow2(0) == 1) by {
            lemma2_to64();
        }
    } else {
        let w1 = (width - 1) as nat;
        lemma_bits_val_nat_bits(n / 2, w1);
        let s = nat_bits(n, width);
        assert(s.drop_first() =~= nat_bits(n / 2, w1));
        lemma_pow2_unfold(width);
        lemma_pow2_pos(w1);
        lemma_mod_breakdown(n as int, 2, pow2(w1) as int);
    }
}

/// Appending a bit on top adds it at the weight of the new position.
pub proof fn lemma_bits_val_push(s: Seq<bool>, b: bool)
    ensures
        bits_val(s.push(b)) == bits_val(s) + if b {
            pow2(s.len())
        } else {
            0
        },
    decreases s.len(),
{
    if s.len() == 0 {
        assert(s.push(b).drop_first() =~= Seq::<bool>::empty());
        assert(s.push(b)[0] == b);
        assert(bits_val(s) == 0);
        assert(bits_val(s.push(b).drop_first()) == 0);
        assert(bits_val(s.push(b)) == bit_val(b));
        assert(pow2(0) == 1) by {
            lemma2_to64();
        }
    } else {
        let t = s.drop_first();
        lemma_bits_val_push(t, b);
        assert(s.push(b).drop_first() =~= t.push(b));
        assert(s.push(b)[0] == s[0]);
        lemma_pow2_unfold(s.len());
        let p1 = pow2(t.len());
        assert(bits_val(s.push(b)) == bit_val(s[0]) + 2 * bits_val(t.push(b)));
        assert(bits_val(s) == bit_val(s[0]) + 2 * bits_val(t));
        assert(pow2(s.len()) == 2 * p1);
    }
}

/// Shifting left by one bit doubles the number, modulo two to the width.
pub proof fn law_shift_left_doubles(s: Seq<bool>)
    requires
        s.len() >= 1,
    ensures
        bits_val(seq![false] + s.drop_last()) == (2 * bits_val(s)) % pow2(s.len()),
{
    let t = s.drop_last();
    assert((seq![false] + t).drop_first() =~= t);
    assert(s =~= t.push(s.last()));
    lemma_bits_val_push(t, s.last());
    lemma_bits_val_bound(t);
    lemma_pow2_unfold(s.len());
    let p = pow2(s.len());
    let x = 2 * bits_val(t);
    lemma_pow2_pos(s.len());
    if s.last() {
        assert(bits_val(s) == bits_val(t) + pow2(t.len()));
    } else {
        assert(bits_val(s) == bits_val(t));
    }
    if s.last() {
        lemma_mod_add_multiples_vanish(x as int, p as int);
    }
    lemma_small_mod(x as nat, p as nat);
}

/// Shifting right by one bit halves the number, rounding down.
pub proof fn law_shift_right_halves(s: Seq<bool>)
    requires
        s.len() >= 1,
    ensures
        bits_val(s.drop_first() + seq![false]) == bits_val(s) / 2,
{
    let t = s.drop_first();
    assert(t + seq![false] =~= t.push(false));
    lemma_bits_val_push(t, false);
    assert(bits_val(s) == bit_val(s[0]) + 2 * bits_val(t));
}

/// Reading back the bits that `from_init` makes gives the number modulo
/// two to the width.
pub proof fn law_from_init_round_trip(init: nat, width: nat)
    ensures
        bits_val(nat_bits(init, width)) == init % pow2(width),
        nat_bits(init, width).len() == width,
{
    lemma_bits_val_nat_bits(init, width);
    lemma_nat_bits_len(init, width);
}

/// A value on a port: a fixed number of bits.
#[derive(Debug)]
pub struct Value {
    pub vec: Vec<bool>,
}

impl View for Value {
    type V = Seq<bool>;

    open spec fn view(&self) -> Seq<bool> {
        self.vec@
    }
}

impl Clone for Value {
    fn clone(&self) -> (r: Self)
        ensures
            r@ == self@,
    {
        let mut v: Vec<bool> = Vec::new();
        let mut i: usize = 0;
        while i < self.vec.len()
            invariant
                i <= self@.len(),
                v@ == self@.take(i as int),
            decreases self@.len() - i,
        {
            v.push(self.vec[i]);
            assert(self@.take(i + 1) =~= self@.take(i as int).push(self@[i as int]));
            i = i + 1;
        }
        assert(self@.take(self@.len() as int) =~= self@);
        Value { vec: v }
    }
}

impl Value {
    /// The number this value denotes, read as unsigned.
    pub open spec fn val(&self) -> nat {
        bits_val(self@)
    }

    /// A value of `width` cleared bits.
    pub fn new(width: usize) -> (r: Value)
        ensures
            r@ == zero_bits(width as nat),
    {
        Value::zeroes(width)
    }

    /// A value of `width` cleared bits.
    pub fn zeroes(width: usize) -> (r: Value)
        ensures
            r@ == zero_bits(width as nat),
    {
        let mut v: Vec<bool> = Vec::new();
        let mut i: usize = 0;
        while i < width
            invariant
                i <= width,
                v@ == zero_bits(i as nat),
            decreases width - i,
        {
            v.push(false);
            assert(v@ =~= zero_bits((i + 1) as nat));
            i = i + 1;
        }
        Value { vec: v }
    }

    /// The `width` low bits of `init`, with cleared bits above bit 63.
    pub fn from_init(init: usize, width: usize) -> (r: Value)
        ensures
            r@ == nat_bits(init as nat, width as nat),
    {
        let mut v: Vec<bool> = Vec::new();
        let mut n: usize = init;
        let mut i: usize = 0;
        while i < width
            invariant
                i <= width,
                v@ + nat_bits(n as nat, (width - i) as nat) == nat_bits(init as nat, width as nat),
            decreases width - i,
        {
            let ghost rest = (width - i - 1) as nat;
            assert(nat_bits(n as nat, (width - i) as nat) == seq![n % 2 == 1] + nat_bits(
                (n / 2) as nat,
                rest,
            ));
            v.push(n % 2 == 1);
            n = n / 2;
            i = i + 1;
            assert(v@ + nat_bits(n as nat, (width - i) as nat) =~= nat_bits(
                init as nat,
                width as nat,
            ));
        }
        assert(v@ + nat_bits(n as nat, 0) =~= v@);
        Value { vec: v }
    }

    /// The number of bits of this value.
    pub fn width(&self) -> (r: usize)
        ensures
            r == self@.len(),
    {
        self.vec.len()
    }

    /// Keeps the `new_size` low bits; a value no wider is kept whole.
    pub fn truncate(&self, new_size: usize) -> (r: Value)
        ensures
            r@ == if new_size < self@.len() {
                self@.take(new_size as int)
            } else {
                self@
            },
    {
        let mut r = self.clone();
        if new_size < r.vec.len() {
            r.vec.truncate(new_size);
        }
        r
    }

    /// Zero-extends this value to `ext` bits.
    pub fn ext(&self, ext: usize) -> (r: Value)
        requires
            ext >= self@.len(),
        ensures
            r@ == self@ + zero_bits((ext - self@.len()) as nat),
    {
        let mut r = self.clone();
        let extra = ext - r.vec.len();
        let mut i: usize = 0;
        while i < extra
            invariant
                i <= extra,
                extra == ext - self@.len(),
                r@ == self@ + zero_bits(i as nat),
            decreases extra - i,
        {
            r.vec.push(false);
            assert(r@ =~= self@ + zero_bits((i + 1) as nat));
            i = i + 1;
        }
        r
    }

    /// The number this value denotes; defined for values of at most 64 bits.
    pub fn as_u64(&self) -> (r: u64)
        requires
            self@.len() <= 64,
        ensures
            r == self.val(),
    {
        let n = self.vec.len();
        let mut acc: u64 = 0;
        let mut i: usize = n;
        while i > 0
            invariant
                i <= n,
                n == self@.len(),
                n <= 64,
                acc == bits_val(self@.skip(i as int)),
            decreases i,
        {
            i = i - 1;
            proof {
                lemma_bits_val_bound(self@.skip(i + 1));
                if n - i - 1 < 63 {
                    lemma_pow2_strictly_increases((n - i - 1) as nat, 63);
                }
                lemma2_to64_rest();
            }
            let b: u64 = if self.vec[i] {
                1
            } else {
                0
            };
            acc = acc * 2 + b;
            assert(self@.skip(i as int).drop_first() =~= self@.skip(i + 1));
        }
        assert(self@.skip(0) =~= self@);
        acc
    }
}

} // verus!
