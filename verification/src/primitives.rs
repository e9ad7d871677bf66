//! The primitive cells of the Calyx standard library, and how a cell's
//! input ports update its output ports.

use vstd::prelude::*;
use crate::environment::{EnvModel, Environment};
use crate::errors::Error;
use crate::ids::{ids_view, Id};
use crate::values::{bits_val, nat_bits, zero_bits, Value};
use vstd::arithmetic::power2::pow2;

verus! {

/// A primitive computed from two operands.
pub trait ExecuteBinary {
    /// The operands on which the primitive is defined.
    spec fn bin_requires(left: Seq<bool>, right: Seq<bool>) -> bool;

    /// The bits the primitive computes.
    spec fn bin_spec(left: Seq<bool>, right: Seq<bool>) -> Seq<bool>;

    fn execute_bin(left: &Value, right: &Value) -> (out: Value)
        requires
            Self::bin_requires(left@, right@),
        ensures
            out@ == Self::bin_spec(left@, right@),
    ;
}

/// Whether `i` is the first entry named `name`.
pub open spec fn first_named(s: Seq<(Id, Value)>, name: Seq<char>, i: int) -> bool {
    &&& 0 <= i < s.len()
    &&& s[i].0@ == name
    &&& forall|j: int| 0 <= j < i ==> #[trigger] s[j].0@ != name
}

/// Whether some entry is named `name`.
pub open spec fn has_named(s: Seq<(Id, Value)>, name: Seq<char>) -> bool {
    exists|i: int| 0 <= i < s.len() && #[trigger] s[i].0@ == name
}

/// The value of the first entry named `name`.
pub open spec fn named_value(s: Seq<(Id, Value)>, name: Seq<char>) -> Seq<bool> {
    s[choose|i: int| first_named(s, name, i)].1@
}

/// The first entry named `name` is unique.
pub proof fn lemma_first_named_unique(s: Seq<(Id, Value)>, name: Seq<char>, i: int, j: int)
    requires
        first_named(s, name, i),
        first_named(s, name, j),
    ensures
        i == j,
{
    if i < j {
        assert(s[i].0@ != name);
    } else if j < i {
        assert(s[j].0@ != name);
    }
}

/// The index of the first entry named `name`.
fn find_named(s: &[(Id, Value)], name: &str) -> (r: usize)
    requires
        has_named(s@, name@),
    ensures
        first_named(s@, name@, r as int),
        s@[r as int].1@ == named_value(s@, name@),
{
    let mut i: usize = 0;
    while i < s.len()
        invariant
            i <= s@.len(),
            has_named(s@, name@),
            forall|j: int| 0 <= j < i ==> #[trigger] s@[j].0@ != name@,
        decreases s@.len() - i,
    {
        if s[i].0.is(name) {
            proof {
                let c = choose|k: int| first_named(s@, name@, k);
                assert(first_named(s@, name@, i as int));
                lemma_first_named_unique(s@, name@, c, i as int);
            }
            return i;
        }
        i = i + 1;
    }
    proof {
        let k = choose|k: int| 0 <= k < s@.len() && #[trigger] s@[k].0@ == name@;
        assert(s@[k].0@ != name@);
    }
    0
}

/// Addition wraps: the sum that `StdAdd` computes denotes the sum of the
/// operands modulo two to their width.
pub proof fn law_add_wraps(left: Seq<bool>, right: Seq<bool>)
    requires
        StdAdd::bin_requires(left, right),
    ensures
        bits_val(StdAdd::bin_spec(left, right)) == (bits_val(left) + bits_val(right)) % pow2(
            left.len(),
        ),
        StdAdd::bin_spec(left, right).len() == left.len(),
{
    crate::values::law_from_init_round_trip(bits_val(left) + bits_val(right), left.len());
}

/// Subtraction of a smaller number is exact: the difference that `StdSub`
/// computes denotes the difference of the operands.
pub proof fn law_sub_exact(left: Seq<bool>, right: Seq<bool>)
    requires
        StdSub::bin_requires(left, right),
    ensures
        bits_val(StdSub::bin_spec(left, right)) == bits_val(left) - bits_val(right),
        StdSub::bin_spec(left, right).len() == left.len(),
{
    let d = (bits_val(left) - bits_val(right)) as nat;
    crate::values::law_from_init_round_trip(d, left.len());
    crate::values::lemma_bits_val_bound(left);
    vstd::arithmetic::div_mod::lemma_small_mod(d, pow2(left.len()));
}

/// A comparison gives a one-bit value that denotes 1 when it holds and 0
/// when it does not.
pub proof fn law_flag(b: bool)
    ensures
        flag_bits(b).len() == 1,
        bits_val(flag_bits(b)) == if b {
            1nat
        } else {
            0nat
        },
{
    let n: nat = if b {
        1
    } else {
        0
    };
    crate::values::law_from_init_round_trip(n, 1);
    assert(pow2(1) == 2) by {
        vstd::arithmetic::power2::lemma2_to64();
    }
}

/// A primitive that reads its operands from the ports `left` and `right`
/// and writes its result to the port `out`.
pub trait Execute {
    /// The inputs on which the primitive is defined.
    spec fn exec_requires(inputs: Seq<(Id, Value)>) -> bool;

    /// The bits written to `out`.
    spec fn exec_spec(inputs: Seq<(Id, Value)>) -> Seq<bool>;

    fn execute(inputs: &[(Id, Value)], outputs: &[(Id, Value)]) -> (r: Vec<(Id, Value)>)
        requires
            Self::exec_requires(inputs@),
        ensures
            r@.len() == 1,
            r@[0].0@ == "out"@,
            r@[0].1@ == Self::exec_spec(inputs@),
    ;
}

impl<T: ExecuteBinary> Execute for T {
    open spec fn exec_requires(inputs: Seq<(Id, Value)>) -> bool {
        &&& has_named(inputs, "left"@)
        &&& has_named(inputs, "right"@)
        &&& T::bin_requires(named_value(inputs, "left"@), named_value(inputs, "right"@))
    }

    open spec fn exec_spec(inputs: Seq<(Id, Value)>) -> Seq<bool> {
        T::bin_spec(named_value(inputs, "left"@), named_value(inputs, "right"@))
    }

    fn execute(inputs: &[(Id, Value)], outputs: &[(Id, Value)]) -> (r: Vec<(Id, Value)>) {
        let l = find_named(inputs, "left");
        let r = find_named(inputs, "right");
        let out = T::execute_bin(&inputs[l].1, &inputs[r].1);
        let mut v: Vec<(Id, Value)> = Vec::new();
        v.push((Id::from_str("out"), out));
        v
    }
}

/// A standard register of a certain width.
///
/// The register keeps no account of clock cycles, and does not stop a read
/// before its `done` signal is high. Its one check is that it is written
/// only while its `write_en` signal is high. Rules on cycles, such as
/// holding `done` high for one cycle after a write, are the interpreter's.
#[derive(Debug)]
pub struct StdReg {
    pub width: u64,
    pub val: Value,
    pub done: bool,
    pub write_en: bool,
}

impl StdReg {
    /// A register of the given width, holding zero, with its signals low.
    pub fn new(width: u64) -> (r: StdReg)
        requires
            width <= usize::MAX,
        ensures
            r.width == width,
            r.val@ == zero_bits(width as nat),
            !r.done,
            !r.write_en,
    {
        StdReg { width, val: Value::new(width as usize), done: false, write_en: false }
    }

    /// Stores `input`, cut to the register's width, if `write_en` is high.
    pub fn load_value(&mut self, input: Value)
        requires
            old(self).write_en ==> old(self).width <= usize::MAX,
        ensures
            final(self).val@ == if old(self).write_en {
                if (old(self).width as int) < input@.len() {
                    input@.take(old(self).width as int)
                } else {
                    input@
                }
            } else {
                old(self).val@
            },
            final(self).width == old(self).width,
            final(self).done == old(self).done,
            final(self).write_en == old(self).write_en,
    {
        if self.write_en {
            self.val = input.truncate(self.width as usize);
        }
    }

    /// Stores the register's width in low bits of `input`, if `write_en` is high.
    pub fn load_u64(&mut self, input: u64)
        requires
            old(self).write_en ==> old(self).width <= usize::MAX && input <= usize::MAX,
        ensures
            final(self).val@ == if old(self).write_en {
                nat_bits(input as nat, old(self).width as nat)
            } else {
                old(self).val@
            },
            final(self).width == old(self).width,
            final(self).done == old(self).done,
            final(self).write_en == old(self).write_en,
    {
        if self.write_en {
            self.val = Value::from_init(input as usize, self.width as usize);
        }
    }

    /// Raises the `done` signal, after a value was loaded.
    pub fn set_done_high(&mut self)
        ensures
            final(self).done,
            final(self).width == old(self).width,
            final(self).val == old(self).val,
            final(self).write_en == old(self).write_en,
    {
        self.done = true
    }

    /// Lowers the `done` signal.
    pub fn set_done_low(&mut self)
        ensures
            !final(self).done,
            final(self).width == old(self).width,
            final(self).val == old(self).val,
            final(self).write_en == old(self).write_en,
    {
        self.done = false
    }

    /// Raises the `write_en` signal, a cycle before a load.
    pub fn set_write_en_high(&mut self)
        ensures
            final(self).write_en,
            final(self).width == old(self).width,
            final(self).val == old(self).val,
            final(self).done == old(self).done,
    {
        self.write_en = true
    }

    /// Lowers the `write_en` signal.
    pub fn set_write_en_low(&mut self)
        ensures
            !final(self).write_en,
            final(self).width == old(self).width,
            final(self).val == old(self).val,
            final(self).done == old(self).done,
    {
        self.write_en = false
    }

    /// The value in the register, whatever `done` says.
    pub fn read_value(&self) -> (r: Value)
        ensures
            r@ == self.val@,
    {
        self.val.clone()
    }

    /// The number in a register of at most 64 bits.
    pub fn read_u64(&self) -> (r: u64)
        requires
            self.val@.len() <= 64,
        ensures
            r == bits_val(self.val@),
    {
        self.val.as_u64()
    }
}

/// A cell that holds one value, fixed when the cell is made.
#[derive(Debug)]
pub struct StdConst {
    width: u64,
    val: Value,
}

impl StdConst {
    /// The width of the constant.
    pub closed spec fn spec_width(&self) -> u64 {
        self.width
    }

    /// The bits of the constant.
    pub closed spec fn spec_val(&self) -> Seq<bool> {
        self.val@
    }

    /// A constant of `val` cut to `width` bits.
    pub fn new(width: u64, val: Value) -> (r: StdConst)
        requires
            width <= usize::MAX,
        ensures
            r.spec_width() == width,
            r.spec_val() == if (width as int) < val@.len() {
                val@.take(width as int)
            } else {
                val@
            },
    {
        StdConst { width, val: val.truncate(width as usize) }
    }

    /// A constant of the `width` low bits of `val`.
    pub fn new_from_u64(width: u64, val: u64) -> (r: StdConst)
        requires
            width <= usize::MAX,
            val <= usize::MAX,
        ensures
            r.spec_width() == width,
            r.spec_val() == nat_bits(val as nat, width as nat),
    {
        StdConst { width, val: Value::from_init(val as usize, width as usize) }
    }

    /// The value of the constant.
    pub fn read_val(&self) -> (r: Value)
        ensures
            r@ == self.spec_val(),
    {
        self.val.clone()
    }

    /// The number of a constant of at most 64 bits.
    pub fn read_u64(&self) -> (r: u64)
        requires
            self.spec_val().len() <= 64,
        ensures
            r == bits_val(self.spec_val()),
    {
        self.val.as_u64()
    }
}

/// Shift left by one bit.
pub struct StdLsh {}

impl StdLsh {
    /// Drops the top bit and shifts a cleared bit in at the bottom.
    pub fn execute(val: Value) -> (r: Value)
        requires
            val@.len() >= 1,
        ensures
            r@ == seq![false] + val@.drop_last(),
    {
        let ghost bits = val@;
        let mut val = val;
        let n = val.vec.len();
        val.vec.remove(n - 1);
        val.vec.insert(0, false);
        assert(val@ =~= seq![false] + bits.drop_last());
        Value { vec: val.vec }
    }
}

/// Shift right by one bit.
pub struct StdRsh {}

impl StdRsh {
    /// Drops the bottom bit and shifts a cleared bit in at the top.
    pub fn execute(val: Value) -> (r: Value)
        requires
            val@.len() >= 1,
        ensures
            r@ == val@.drop_first() + seq![false],
    {
        let ghost bits = val@;
        let mut val = val;
        val.vec.remove(0);
        val.vec.push(false);
        assert(val@ =~= bits.drop_first() + seq![false]);
        Value { vec: val.vec }
    }
}

/// Unsigned addition, wrapping at the operands' width.
pub struct StdAdd {}

impl ExecuteBinary for StdAdd {
    /// Operands of one width of at most 64 bits, whose sum fits in a machine word.
    open spec fn bin_requires(left: Seq<bool>, right: Seq<bool>) -> bool {
        &&& left.len() == right.len()
        &&& left.len() <= 64
        &&& bits_val(left) + bits_val(right) <= usize::MAX
    }

    open spec fn bin_spec(left: Seq<bool>, right: Seq<bool>) -> Seq<bool> {
        nat_bits(bits_val(left) + bits_val(right), left.len())
    }

    fn execute_bin(left: &Value, right: &Value) -> (out: Value) {
        let left_64 = left.as_u64();
        let right_64 = right.as_u64();
        let init_val = left_64 + right_64;
        Value::from_init(init_val as usize, left.width())
    }
}

/// Unsigned subtraction of a number no greater.
pub struct StdSub {}

impl ExecuteBinary for StdSub {
    /// Operands of one width of at most 64 bits, the left one not the
    /// smaller, whose difference fits in a machine word.
    open spec fn bin_requires(left: Seq<bool>, right: Seq<bool>) -> bool {
        &&& left.len() == right.len()
        &&& left.len() <= 64
        &&& bits_val(left) >= bits_val(right)
        &&& bits_val(left) - bits_val(right) <= usize::MAX
    }

    open spec fn bin_spec(left: Seq<bool>, right: Seq<bool>) -> Seq<bool> {
        nat_bits((bits_val(left) - bits_val(right)) as nat, left.len())
    }

    fn execute_bin(left: &Value, right: &Value) -> (out: Value) {
        let left_64 = left.as_u64();
        let right_64 = right.as_u64();
        let init_val = left_64 - right_64;
        Value::from_init(init_val as usize, left.width())
    }
}

/// Keeps the low bits of a value.
pub struct StdSlice {}

impl StdSlice {
    /// The `width` low bits of `val`; a value no wider is kept whole.
    pub fn execute(val: Value, width: usize) -> (r: Value)
        ensures
            r@ == if width < val@.len() {
                val@.take(width as int)
            } else {
                val@
            },
    {
        val.truncate(width)
    }
}

/// Zero-extends a value.
pub struct StdPad {}

impl StdPad {
    /// `val` with cleared bits added on top up to `width` bits.
    pub fn execute(val: Value, width: usize) -> (r: Value)
        requires
            width >= val@.len(),
        ensures
            r@ == val@ + zero_bits((width - val@.len()) as nat),
    {
        val.ext(width)
    }
}

/// Bitwise negation.
pub struct StdNot {}

impl StdNot {
    /// Flips every bit.
    pub fn execute(val: Value) -> (r: Value)
        ensures
            r@ == Seq::new(val@.len(), |i: int| !val@[i]),
    {
        let mut v: Vec<bool> = Vec::new();
        let mut i: usize = 0;
        while i < val.vec.len()
            invariant
                i <= val@.len(),
                v@ == Seq::new(i as nat, |k: int| !val@[k]),
            decreases val@.len() - i,
        {
            v.push(!val.vec[i]);
            assert(v@ =~= Seq::new((i + 1) as nat, |k: int| !val@[k]));
            i = i + 1;
        }
        Value { vec: v }
    }
}

/// A bitwise operator on two values of one width.
pub enum BitOp {
    And,
    Or,
    Xor,
}

/// The bit that a bitwise operator gives.
pub open spec fn bit_op(op: BitOp, a: bool, b: bool) -> bool {
    match op {
        BitOp::And => a && b,
        BitOp::Or => a || b,
        BitOp::Xor => a != b,
    }
}

fn bitwise(op: BitOp, left: &Value, right: &Value) -> (r: Value)
    requires
        left@.len() == right@.len(),
    ensures
        r@ == Seq::new(left@.len(), |i: int| bit_op(op, left@[i], right@[i])),
{
    let mut v: Vec<bool> = Vec::new();
    let mut i: usize = 0;
    while i < left.vec.len()
        invariant
            i <= left@.len(),
            left@.len() == right@.len(),
            v@ == Seq::new(i as nat, |k: int| bit_op(op, left@[k], right@[k])),
        decreases left@.len() - i,
    {
        let a = left.vec[i];
        let b = right.vec[i];
        let c = match op {
            BitOp::And => a && b,
            BitOp::Or => a || b,
            BitOp::Xor => a != b,
        };
        v.push(c);
        assert(v@ =~= Seq::new((i + 1) as nat, |k: int| bit_op(op, left@[k], right@[k])));
        i = i + 1;
    }
    Value { vec: v }
}

/// Bitwise and.
pub struct StdAnd {}

impl ExecuteBinary for StdAnd {
    open spec fn bin_requires(left: Seq<bool>, right: Seq<bool>) -> bool {
        left.len() == right.len()
    }

    open spec fn bin_spec(left: Seq<bool>, right: Seq<bool>) -> Seq<bool> {
        Seq::new(left.len(), |i: int| left[i] && right[i])
    }

    fn execute_bin(left: &Value, right: &Value) -> (out: Value) {
        let r = bitwise(BitOp::And, left, right);
        assert(r@ =~= Seq::new(left@.len(), |i: int| left@[i] && right@[i]));
        r
    }
}

/// Bitwise or.
pub struct StdOr {}

impl ExecuteBinary for StdOr {
    open spec fn bin_requires(left: Seq<bool>, right: Seq<bool>) -> bool {
        left.len() == right.len()
    }

    open spec fn bin_spec(left: Seq<bool>, right: Seq<bool>) -> Seq<bool> {
        Seq::new(left.len(), |i: int| left[i] || right[i])
    }

    fn execute_bin(left: &Value, right: &Value) -> (out: Value) {
        let r = bitwise(BitOp::Or, left, right);
        assert(r@ =~= Seq::new(left@.len(), |i: int| left@[i] || right@[i]));
        r
    }
}

/// Bitwise exclusive or.
pub struct StdXor {}

impl ExecuteBinary for StdXor {
    open spec fn bin_requires(left: Seq<bool>, right: Seq<bool>) -> bool {
        left.len() == right.len()
    }

    open spec fn bin_spec(left: Seq<bool>, right: Seq<bool>) -> Seq<bool> {
        Seq::new(left.len(), |i: int| left[i] != right[i])
    }

    fn execute_bin(left: &Value, right: &Value) -> (out: Value) {
        let r = bitwise(BitOp::Xor, left, right);
        assert(r@ =~= Seq::new(left@.len(), |i: int| left@[i] != right@[i]));
        r
    }
}

/// A one-bit value: set when `b` holds.
pub open spec fn flag_bits(b: bool) -> Seq<bool> {
    nat_bits(if b {
        1
    } else {
        0
    }, 1)
}

fn flag(b: bool) -> (r: Value)
    ensures
        r@ == flag_bits(b),
{
    let init_val_usize: usize = if b {
        1
    } else {
        0
    };
    Value::from_init(init_val_usize, 1)
}

/// Unsigned greater-than, as a one-bit value.
pub struct StdGt {}

impl ExecuteBinary for StdGt {
    open spec fn bin_requires(left: Seq<bool>, right: Seq<bool>) -> bool {
        left.len() <= 64 && right.len() <= 64
    }

    open spec fn bin_spec(left: Seq<bool>, right: Seq<bool>) -> Seq<bool> {
        flag_bits(bits_val(left) > bits_val(right))
    }

    fn execute_bin(left: &Value, right: &Value) -> (out: Value) {
        flag(left.as_u64() > right.as_u64())
    }
}

/// Unsigned less-than, as a one-bit value.
pub struct StdLt {}

impl ExecuteBinary for StdLt {
    open spec fn bin_requires(left: Seq<bool>, right: Seq<bool>) -> bool {
        left.len() <= 64 && right.len() <= 64
    }

    open spec fn bin_spec(left: Seq<bool>, right: Seq<bool>) -> Seq<bool> {
        flag_bits(bits_val(left) < bits_val(right))
    }

    fn execute_bin(left: &Value, right: &Value) -> (out: Value) {
        flag(left.as_u64() < right.as_u64())
    }
}

/// Equality of the numbers, as a one-bit value.
pub struct StdEq {}

impl ExecuteBinary for StdEq {
    open spec fn bin_requires(left: Seq<bool>, right: Seq<bool>) -> bool {
        left.len() <= 64 && right.len() <= 64
    }

    open spec fn bin_spec(left: Seq<bool>, right: Seq<bool>) -> Seq<bool> {
        flag_bits(bits_val(left) == bits_val(right))
    }

    fn execute_bin(left: &Value, right: &Value) -> (out: Value) {
        flag(left.as_u64() == right.as_u64())
    }
}

/// Inequality of the numbers, as a one-bit value.
pub struct StdNeq {}

impl ExecuteBinary for StdNeq {
    open spec fn bin_requires(left: Seq<bool>, right: Seq<bool>) -> bool {
        left.len() <= 64 && right.len() <= 64
    }

    open spec fn bin_spec(left: Seq<bool>, right: Seq<bool>) -> Seq<bool> {
        flag_bits(bits_val(left) != bits_val(right))
    }

    fn execute_bin(left: &Value, right: &Value) -> (out: Value) {
        flag(left.as_u64() != right.as_u64())
    }
}

/// Unsigned greater-or-equal, as a one-bit value.
pub struct StdGe {}

impl ExecuteBinary for StdGe {
    open spec fn bin_requires(left: Seq<bool>, right: Seq<bool>) -> bool {
        left.len() <= 64 && right.len() <= 64
    }

    open spec fn bin_spec(left: Seq<bool>, right: Seq<bool>) -> Seq<bool> {
        flag_bits(bits_val(left) >= bits_val(right))
    }

    fn execute_bin(left: &Value, right: &Value) -> (out: Value) {
        flag(left.as_u64() >= right.as_u64())
    }
}

/// Unsigned less-or-equal, as a one-bit value.
pub struct StdLe {}

impl ExecuteBinary for StdLe {
    open spec fn bin_requires(left: Seq<bool>, right: Seq<bool>) -> bool {
        left.len() <= 64 && right.len() <= 64
    }

    open spec fn bin_spec(left: Seq<bool>, right: Seq<bool>) -> Seq<bool> {
        flag_bits(bits_val(left) <= bits_val(right))
    }

    fn execute_bin(left: &Value, right: &Value) -> (out: Value) {
        flag(left.as_u64() <= right.as_u64())
    }
}

/// The primitives that the interpreter updates, by their type names.
pub enum PrimKind {
    Reg,
    MemD1,
    Sqrt,
    Add,
    Sub,
    Mod,
    Mult,
    Div,
    Not,
    And,
    Or,
    Xor,
    Gt,
    Lt,
    Eq,
    Neq,
    Ge,
    Le,
    Other,
}

/// The primitive that a type name names.
pub open spec fn prim_kind(t: Seq<char>) -> PrimKind {
    if t == "std_reg"@ {
        PrimKind::Reg
    } else if t == "std_mem_d1"@ {
        PrimKind::MemD1
    } else if t == "std_sqrt"@ {
        PrimKind::Sqrt
    } else if t == "std_add"@ {
        PrimKind::Add
    } else if t == "std_sub"@ {
        PrimKind::Sub
    } else if t == "std_mod"@ {
        PrimKind::Mod
    } else if t == "std_mult"@ {
        PrimKind::Mult
    } else if t == "std_div"@ {
        PrimKind::Div
    } else if t == "std_not"@ {
        PrimKind::Not
    } else if t == "std_and"@ {
        PrimKind::And
    } else if t == "std_or"@ {
        PrimKind::Or
    } else if t == "std_xor"@ {
        PrimKind::Xor
    } else if t == "std_gt"@ {
        PrimKind::Gt
    } else if t == "std_lt"@ {
        PrimKind::Lt
    } else if t == "std_eq"@ {
        PrimKind::Eq
    } else if t == "std_neq"@ {
        PrimKind::Neq
    } else if t == "std_ge"@ {
        PrimKind::Ge
    } else if t == "std_le"@ {
        PrimKind::Le
    } else {
        PrimKind::Other
    }
}

/// The primitive that a type name names.
pub fn kind_of(t: &Id) -> (k: PrimKind)
    ensures
        k == prim_kind(t@),
{
    if t.is("std_reg") {
        PrimKind::Reg
    } else if t.is("std_mem_d1") {
        PrimKind::MemD1
    } else if t.is("std_sqrt") {
        PrimKind::Sqrt
    } else if t.is("std_add") {
        PrimKind::Add
    } else if t.is("std_sub") {
        PrimKind::Sub
    } else if t.is("std_mod") {
        PrimKind::Mod
    } else if t.is("std_mult") {
        PrimKind::Mult
    } else if t.is("std_div") {
        PrimKind::Div
    } else if t.is("std_not") {
        PrimKind::Not
    } else if t.is("std_and") {
        PrimKind::And
    } else if t.is("std_or") {
        PrimKind::Or
    } else if t.is("std_xor") {
        PrimKind::Xor
    } else if t.is("std_gt") {
        PrimKind::Gt
    } else if t.is("std_lt") {
        PrimKind::Lt
    } else if t.is("std_eq") {
        PrimKind::Eq
    } else if t.is("std_neq") {
        PrimKind::Neq
    } else if t.is("std_ge") {
        PrimKind::Ge
    } else if t.is("std_le") {
        PrimKind::Le
    } else {
        PrimKind::Other
    }
}

/// The operands on which a two-input primitive computes its output
/// without overflow.
pub open spec fn binary_defined(k: PrimKind, a: u64, b: u64) -> bool {
    match k {
        PrimKind::Add => a + b <= u64::MAX,
        PrimKind::Sub => a >= b,
        PrimKind::Mult => a * b <= u64::MAX,
        _ => true,
    }
}

/// The number that a two-input primitive puts on its output, or `None`
/// where it leaves the output as it is (a division by zero).
pub open spec fn binary_out(k: PrimKind, a: u64, b: u64) -> Option<u64> {
    match k {
        PrimKind::Add => Some((a + b) as u64),
        PrimKind::Sub => Some((a - b) as u64),
        PrimKind::Mod => if b != 0 {
            Some(a % b)
        } else {
            None
        },
        PrimKind::Mult => Some((a * b) as u64),
        PrimKind::Div => if b != 0 {
            Some(a / b)
        } else {
            None
        },
        PrimKind::And => Some(a & b),
        PrimKind::Or => Some(a | b),
        PrimKind::Xor => Some(a ^ b),
        PrimKind::Gt => Some(if a > b { 1 } else { 0 }),
        PrimKind::Lt => Some(if a < b { 1 } else { 0 }),
        PrimKind::Eq => Some(if a == b { 1 } else { 0 }),
        PrimKind::Neq => Some(if a != b { 1 } else { 0 }),
        PrimKind::Ge => Some(if a >= b { 1 } else { 0 }),
        PrimKind::Le => Some(if a <= b { 1 } else { 0 }),
        _ => None,
    }
}

/// The primitive that a known cell with a type name instantiates.
pub open spec fn cell_kind(m: EnvModel, comp: Seq<char>, cell: Seq<char>) -> PrimKind {
    prim_kind(m.cells[(comp, cell)].unwrap())
}

/// Whether updating the cell's outputs from its inputs is defined: the cell
/// is known, names a primitive that the interpreter updates, and every
/// port that the update reads holds a number.
pub open spec fn cell_step_defined(
    m: EnvModel,
    comp: Seq<char>,
    cell: Seq<char>,
    inputs: Seq<Seq<char>>,
    outputs: Seq<Seq<char>>,
) -> bool {
    &&& m.has_cell(comp, cell)
    &&& m.cells[(comp, cell)].is_some()
    &&& match cell_kind(m, comp, cell) {
        PrimKind::Reg => {
            &&& m.has(comp, cell, "write_en"@)
            &&& m.get(comp, cell, "write_en"@) != 0 ==> {
                &&& outputs.len() >= 1
                &&& inputs.len() >= 1
                &&& m.has(comp, inputs[0], "out"@)
            }
        },
        PrimKind::MemD1 => {
            &&& m.has(comp, cell, "write_en"@)
            &&& outputs.len() >= 1
            &&& m.get(comp, cell, "write_en"@) != 0 ==> {
                &&& inputs.len() >= 1
                &&& m.has(comp, inputs[0], "out"@)
                &&& (outputs[0] == "write_data"@ || m.has(comp, cell, "write_data"@))
            }
            &&& m.get(comp, cell, "write_en"@) == 0 ==> outputs[0] != "read_data"@
        },
        PrimKind::Sqrt => true,
        PrimKind::Not => {
            &&& outputs.len() >= 1
            &&& inputs.len() >= 1
            &&& m.has(comp, cell, inputs[0])
        },
        PrimKind::Other => false,
        k => {
            &&& outputs.len() >= 1
            &&& inputs.len() >= 2
            &&& m.has(comp, cell, inputs[0])
            &&& m.has(comp, cell, inputs[1])
            &&& binary_defined(k, m.get(comp, cell, inputs[0]), m.get(comp, cell, inputs[1]))
        },
    }
}

/// The environment after one update of the cell's outputs from its inputs.
///
/// A register with `write_en` high takes the `out` of the cell named by its
/// first input on its first output; if that output is `in`, the register
/// also shows it on `out` and raises `done`. A one-address memory with
/// `write_en` high does the same, stores the number on its `write_data`,
/// and gives it back when its first output is `read_data`; it always
/// raises `done`. A square root does nothing. The other primitives put on
/// their first output what they compute from their inputs.
pub open spec fn cell_step(
    m: EnvModel,
    comp: Seq<char>,
    cell: Seq<char>,
    inputs: Seq<Seq<char>>,
    outputs: Seq<Seq<char>>,
) -> EnvModel {
    match cell_kind(m, comp, cell) {
        PrimKind::Reg => if m.get(comp, cell, "write_en"@) != 0 {
            let m1 = m.put(comp, cell, outputs[0], m.get(comp, inputs[0], "out"@));
            if outputs[0] == "in"@ {
                m1.put(comp, cell, "out"@, m1.get(comp, cell, "in"@)).put(comp, cell, "done"@, 1)
            } else {
                m1
            }
        } else {
            m
        },
        PrimKind::MemD1 => {
            let written = m.get(comp, cell, "write_en"@) != 0;
            let m1 = if written {
                m.put(comp, cell, outputs[0], m.get(comp, inputs[0], "out"@))
            } else {
                m
            };
            let m2 = if outputs[0] == "read_data"@ {
                m1.put(comp, cell, outputs[0], m1.get(comp, cell, "write_data"@))
            } else {
                m1
            };
            m2.put(comp, cell, "done"@, 1)
        },
        PrimKind::Sqrt => m,
        PrimKind::Not => m.put(comp, cell, outputs[0], !m.get(comp, cell, inputs[0])),
        PrimKind::Other => m,
        k => match binary_out(k, m.get(comp, cell, inputs[0]), m.get(comp, cell, inputs[1])) {
            Some(v) => m.put(comp, cell, outputs[0], v),
            None => m,
        },
    }
}

/// Uses the cell's input ports to update its output ports.
pub fn update_cell_state(
    cell: &Id,
    inputs: &[Id],
    output: &[Id],
    env: &Environment,
    component: Id,
) -> (r: Result<Environment, Error>)
    requires
        cell_step_defined(env@, component@, cell@, ids_view(inputs@), ids_view(output@)),
    ensures
        r is Ok,
        r->Ok_0@ == cell_step(env@, component@, cell@, ids_view(inputs@), ids_view(output@)),
{
    let ghost ins = ids_view(inputs@);
    let ghost outs = ids_view(output@);
    let mut new_env = env.clone();
    let cell_type = match new_env.get_cell(&component, cell) {
        Some(c) => match c.prototype_name() {
            Some(t) => t,
            None => return Ok(new_env),
        },
        None => return Ok(new_env),
    };
    let kind = kind_of(&cell_type);
    match kind {
        PrimKind::Reg => {
            let write_en = Id::from_str("write_en");
            if new_env.get(&component, cell, &write_en) != 0 {
                let out = Id::from_str("out");
                let inp = Id::from_str("in");
                let done = Id::from_str("done");
                assert(ins[0] == inputs@[0]@);
                assert(outs[0] == output@[0]@);
                let v = env.get(&component, &inputs[0], &out);
                new_env.put(&component, cell, &output[0], v);
                if output[0].is("in") {
                    let v2 = new_env.get(&component, cell, &inp);
                    new_env.put(&component, cell, &out, v2);
                    new_env.put(&component, cell, &done, 1);
                }
            }
        },
        PrimKind::MemD1 => {
            let mut mem: Option<u64> = None;
            let write_en = Id::from_str("write_en");
            let done = Id::from_str("done");
            assert(outs[0] == output@[0]@);
            if new_env.get(&component, cell, &write_en) != 0 {
                let out = Id::from_str("out");
                let write_data = Id::from_str("write_data");
                assert(ins[0] == inputs@[0]@);
                let v = env.get(&component, &inputs[0], &out);
                new_env.put(&component, cell, &output[0], v);
                let data = new_env.get(&component, cell, &write_data);
                mem = Some(data);
            }
            if output[0].is("read_data") {
                let dat = match mem {
                    Some(num) => num,
                    None => 0,
                };
                new_env.put(&component, cell, &output[0], dat);
            }
            new_env.put(&component, cell, &done, 1);
        },
        PrimKind::Sqrt => {},
        PrimKind::Not => {
            assert(ins[0] == inputs@[0]@);
            assert(outs[0] == output@[0]@);
            let a = new_env.get(&component, cell, &inputs[0]);
            new_env.put(&component, cell, &output[0], !a);
        },
        PrimKind::Other => {},
        _ => {
            assert(ins[0] == inputs@[0]@);
            assert(ins[1] == inputs@[1]@);
            assert(outs[0] == output@[0]@);
            let a = new_env.get(&component, cell, &inputs[0]);
            let b = env.get(&component, cell, &inputs[1]);
            let res: Option<u64> = match kind {
                PrimKind::Add => Some(a + b),
                PrimKind::Sub => Some(a - b),
                PrimKind::Mod => if b != 0 {
                    Some(a % b)
                } else {
                    None
                },
                PrimKind::Mult => Some(a * b),
                PrimKind::Div => if b != 0 {
                    Some(a / b)
                } else {
                    None
                },
                PrimKind::And => Some(a & b),
                PrimKind::Or => Some(a | b),
                PrimKind::Xor => Some(a ^ b),
                PrimKind::Gt => Some(if a > b { 1 } else { 0 }),
                PrimKind::Lt => Some(if a < b { 1 } else { 0 }),
                PrimKind::Eq => Some(if a == b { 1 } else { 0 }),
                PrimKind::Neq => Some(if a != b { 1 } else { 0 }),
                PrimKind::Ge => Some(if a >= b { 1 } else { 0 }),
                PrimKind::Le => Some(if a <= b { 1 } else { 0 }),
                _ => None,
            };
            match res {
                Some(v) => new_env.put(&component, cell, &output[0], v),
                None => {},
            }
        },
    }
    Ok(new_env)
}

} // verus!
