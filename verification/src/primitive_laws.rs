//! What the primitives compute, stated on the numbers their operands and
//! input ports denote.

use vstd::prelude::*;
use crate::environment::EnvModel;
use crate::primitives::{
    cell_step, cell_step_defined, law_flag, prim_kind, PrimKind, ExecuteBinary, StdAnd, StdEq, StdGe, StdGt, StdLe,
    StdLt, StdNeq, StdOr, StdXor,
};
use crate::values::bits_val;

verus! {

/// Greater-than gives one bit, which denotes 1 exactly when the left
/// operand denotes a larger number than the right one; equal operands give 0.
pub proof fn law_gt(left: Seq<bool>, right: Seq<bool>)
    requires
        StdGt::bin_requires(left, right),
    ensures
        StdGt::bin_spec(left, right).len() == 1,
        bits_val(StdGt::bin_spec(left, right)) == if bits_val(left) > bits_val(right) {
            1nat
        } else {
            0nat
        },
{
    law_flag(bits_val(left) > bits_val(right));
}

/// Less-than gives one bit, which denotes 1 exactly when the left operand
/// denotes a smaller number than the right one.
pub proof fn law_lt(left: Seq<bool>, right: Seq<bool>)
    requires
        StdLt::bin_requires(left, right),
    ensures
        StdLt::bin_spec(left, right).len() == 1,
        bits_val(StdLt::bin_spec(left, right)) == if bits_val(left) < bits_val(right) {
            1nat
        } else {
            0nat
        },
{
    law_flag(bits_val(left) < bits_val(right));
}

/// Equality gives one bit, which denotes 1 exactly when both operands
/// denote the same number.
pub proof fn law_eq(left: Seq<bool>, right: Seq<bool>)
    requires
        StdEq::bin_requires(left, right),
    ensures
        StdEq::bin_spec(left, right).len() == 1,
        bits_val(StdEq::bin_spec(left, right)) == if bits_val(left) == bits_val(right) {
            1nat
        } else {
            0nat
        },
{
    law_flag(bits_val(left) == bits_val(right));
}

/// Inequality gives one bit, which denotes 1 exactly when the operands
/// denote different numbers.
pub proof fn law_neq(left: Seq<bool>, right: Seq<bool>)
    requires
        StdNeq::bin_requires(left, right),
    ensures
        StdNeq::bin_spec(left, right).len() == 1,
        bits_val(StdNeq::bin_spec(left, right)) == if bits_val(left) != bits_val(right) {
            1nat
        } else {
            0nat
        },
{
    law_flag(bits_val(left) != bits_val(right));
}

/// Greater-or-equal gives one bit, which denotes 1 exactly when the left
/// operand denotes a number no smaller than the right one.
pub proof fn law_ge(left: Seq<bool>, right: Seq<bool>)
    requires
        StdGe::bin_requires(left, right),
    ensures
        StdGe::bin_spec(left, right).len() == 1,
        bits_val(StdGe::bin_spec(left, right)) == if bits_val(left) >= bits_val(right) {
            1nat
        } else {
            0nat
        },
{
    law_flag(bits_val(left) >= bits_val(right));
}

/// Less-or-equal gives one bit, which denotes 1 exactly when the left
/// operand denotes a number no larger than the right one.
pub proof fn law_le(left: Seq<bool>, right: Seq<bool>)
    requires
        StdLe::bin_requires(left, right),
    ensures
        StdLe::bin_spec(left, right).len() == 1,
        bits_val(StdLe::bin_spec(left, right)) == if bits_val(left) <= bits_val(right) {
            1nat
        } else {
            0nat
        },
{
    law_flag(bits_val(left) <= bits_val(right));
}

/// The bitwise operators keep the width, and each bit of the result is
/// the `and`, the `or` or the exclusive `or` of the operands' bits there.
pub proof fn law_bitwise(left: Seq<bool>, right: Seq<bool>)
    requires
        left.len() == right.len(),
    ensures
        StdAnd::bin_spec(left, right).len() == left.len(),
        StdOr::bin_spec(left, right).len() == left.len(),
        StdXor::bin_spec(left, right).len() == left.len(),
        forall|i: int|
            0 <= i < left.len() ==> {
                &&& #[trigger] StdAnd::bin_spec(left, right)[i] == (left[i] && right[i])
                &&& StdOr::bin_spec(left, right)[i] == (left[i] || right[i])
                &&& StdXor::bin_spec(left, right)[i] == (left[i] != right[i])
            },
{
}

/// Updating a cell that computes from two input ports writes, on its first
/// output port and on no other port, the number it computes from the
/// numbers `a` and `b` on those inputs: 1 or 0 for a comparison, whether it
/// holds; the sum, difference or product; the remainder or quotient, or no
/// change at all when `b` is 0; the bitwise `and`, `or` or exclusive `or`.
/// A `std_not` writes the complement of its one input.
pub proof fn law_cell_step_computes(
    m: EnvModel,
    comp: Seq<char>,
    cell: Seq<char>,
    inputs: Seq<Seq<char>>,
    outputs: Seq<Seq<char>>,
)
    requires
        cell_step_defined(m, comp, cell, inputs, outputs),
    ensures
        ({
            let t = m.cells[(comp, cell)].unwrap();
            let a = m.get(comp, cell, inputs[0]);
            let b = m.get(comp, cell, inputs[1]);
            let r = cell_step(m, comp, cell, inputs, outputs);
            let o = outputs[0];
            &&& t == "std_gt"@ ==> r == m.put(comp, cell, o, if a > b { 1u64 } else { 0u64 })
            &&& t == "std_lt"@ ==> r == m.put(comp, cell, o, if a < b { 1u64 } else { 0u64 })
            &&& t == "std_eq"@ ==> r == m.put(comp, cell, o, if a == b { 1u64 } else { 0u64 })
            &&& t == "std_neq"@ ==> r == m.put(comp, cell, o, if a != b { 1u64 } else { 0u64 })
            &&& t == "std_ge"@ ==> r == m.put(comp, cell, o, if a >= b { 1u64 } else { 0u64 })
            &&& t == "std_le"@ ==> r == m.put(comp, cell, o, if a <= b { 1u64 } else { 0u64 })
            &&& t == "std_add"@ ==> a + b <= u64::MAX && r == m.put(comp, cell, o, (a + b) as u64)
            &&& t == "std_sub"@ ==> b <= a && r == m.put(comp, cell, o, (a - b) as u64)
            &&& t == "std_mult"@ ==> a * b <= u64::MAX && r == m.put(comp, cell, o, (a * b) as u64)
            &&& t == "std_mod"@ ==> r == if b == 0 {
                m
            } else {
                m.put(comp, cell, o, a % b)
            }
            &&& t == "std_div"@ ==> r == if b == 0 {
                m
            } else {
                m.put(comp, cell, o, a / b)
            }
            &&& t == "std_and"@ ==> r == m.put(comp, cell, o, a & b)
            &&& t == "std_or"@ ==> r == m.put(comp, cell, o, a | b)
            &&& t == "std_xor"@ ==> r == m.put(comp, cell, o, a ^ b)
            &&& t == "std_not"@ ==> r == m.put(comp, cell, o, !a)
        }),
{
    lemma_prim_kind_names();
}

/// Updating a register with `write_en` low changes nothing; with it high,
/// the register takes on its first output the `out` of the cell its first
/// input names, and when that output is `in` it also shows the number on
/// `out` and raises `done`. Updating a one-address memory raises `done`;
/// with `write_en` high it takes the number on its first output, unless
/// that is `read_data` or `done`, and asked for `read_data` it gives back
/// the number on `write_data`. A square root changes nothing.
pub proof fn law_cell_step_stateful(
    m: EnvModel,
    comp: Seq<char>,
    cell: Seq<char>,
    inputs: Seq<Seq<char>>,
    outputs: Seq<Seq<char>>,
)
    requires
        cell_step_defined(m, comp, cell, inputs, outputs),
    ensures
        ({
            let t = m.cells[(comp, cell)].unwrap();
            let r = cell_step(m, comp, cell, inputs, outputs);
            let we = m.get(comp, cell, "write_en"@);
            let o = outputs[0];
            let v = m.get(comp, inputs[0], "out"@);
            &&& t == "std_reg"@ && we == 0 ==> r == m
            &&& t == "std_reg"@ && we != 0 ==> {
                &&& r.get(comp, cell, o) == v
                &&& o == "in"@ ==> r.get(comp, cell, "out"@) == v && r.get(comp, cell, "done"@) == 1
            }
            &&& t == "std_mem_d1"@ ==> {
                &&& r.get(comp, cell, "done"@) == 1
                &&& we != 0 && o != "read_data"@ && o != "done"@ ==> r.get(comp, cell, o) == v
                &&& o == "read_data"@ ==> r.get(comp, cell, "read_data"@) == m.get(
                    comp,
                    cell,
                    "write_data"@,
                )
            }
            &&& t == "std_sqrt"@ ==> r == m
        }),
{
    lemma_prim_kind_names();
    reveal_strlit("in");
    reveal_strlit("out");
    reveal_strlit("done");
    reveal_strlit("read_data");
    reveal_strlit("write_data");
    assert("in"@.len() != "out"@.len());
    assert("in"@.len() != "done"@.len());
    assert("out"@[0] != "done"@[0]);
    assert("read_data"@.len() != "done"@.len());
    assert("read_data"@[0] != "write_data"@[0]);
}

/// The type names of the primitives name their kinds.
proof fn lemma_prim_kind_names()
    ensures
        prim_kind("std_reg"@) == PrimKind::Reg,
        prim_kind("std_mem_d1"@) == PrimKind::MemD1,
        prim_kind("std_sqrt"@) == PrimKind::Sqrt,
        prim_kind("std_add"@) == PrimKind::Add,
        prim_kind("std_sub"@) == PrimKind::Sub,
        prim_kind("std_mod"@) == PrimKind::Mod,
        prim_kind("std_mult"@) == PrimKind::Mult,
        prim_kind("std_div"@) == PrimKind::Div,
        prim_kind("std_not"@) == PrimKind::Not,
        prim_kind("std_and"@) == PrimKind::And,
        prim_kind("std_or"@) == PrimKind::Or,
        prim_kind("std_xor"@) == PrimKind::Xor,
        prim_kind("std_gt"@) == PrimKind::Gt,
        prim_kind("std_lt"@) == PrimKind::Lt,
        prim_kind("std_eq"@) == PrimKind::Eq,
        prim_kind("std_neq"@) == PrimKind::Neq,
        prim_kind("std_ge"@) == PrimKind::Ge,
        prim_kind("std_le"@) == PrimKind::Le,
{
    reveal_strlit("std_reg");
    reveal_strlit("std_mem_d1");
    reveal_strlit("std_sqrt");
    reveal_strlit("std_add");
    reveal_strlit("std_sub");
    reveal_strlit("std_mod");
    reveal_strlit("std_mult");
    reveal_strlit("std_div");
    reveal_strlit("std_not");
    reveal_strlit("std_and");
    reveal_strlit("std_or");
    reveal_strlit("std_xor");
    reveal_strlit("std_gt");
    reveal_strlit("std_lt");
    reveal_strlit("std_eq");
    reveal_strlit("std_neq");
    reveal_strlit("std_ge");
    reveal_strlit("std_le");
    assert("std_mem_d1"@.len() != "std_reg"@.len());
    assert("std_sqrt"@.len() != "std_reg"@.len());
    assert("std_sqrt"@.len() != "std_mem_d1"@.len());
    assert("std_add"@[4] != "std_reg"@[4]);
    assert("std_add"@.len() != "std_mem_d1"@.len());
    assert("std_add"@.len() != "std_sqrt"@.len());
    assert("std_sub"@[4] != "std_reg"@[4]);
    assert("std_sub"@.len() != "std_mem_d1"@.len());
    assert("std_sub"@.len() != "std_sqrt"@.len());
    assert("std_sub"@[4] != "std_add"@[4]);
    assert("std_mod"@[4] != "std_reg"@[4]);
    assert("std_mod"@.len() != "std_mem_d1"@.len());
    assert("std_mod"@.len() != "std_sqrt"@.len());
    assert("std_mod"@[4] != "std_add"@[4]);
    assert("std_mod"@[4] != "std_sub"@[4]);
    assert("std_mult"@.len() != "std_reg"@.len());
    assert("std_mult"@.len() != "std_mem_d1"@.len());
    assert("std_mult"@[4] != "std_sqrt"@[4]);
    assert("std_mult"@.len() != "std_add"@.len());
    assert("std_mult"@.len() != "std_sub"@.len());
    assert("std_mult"@.len() != "std_mod"@.len());
    assert("std_div"@[4] != "std_reg"@[4]);
    assert("std_div"@.len() != "std_mem_d1"@.len());
    assert("std_div"@.len() != "std_sqrt"@.len());
    assert("std_div"@[4] != "std_add"@[4]);
    assert("std_div"@[4] != "std_sub"@[4]);
    assert("std_div"@[4] != "std_mod"@[4]);
    assert("std_div"@.len() != "std_mult"@.len());
    assert("std_not"@[4] != "std_reg"@[4]);
    assert("std_not"@.len() != "std_mem_d1"@.len());
    assert("std_not"@.len() != "std_sqrt"@.len());
    assert("std_not"@[4] != "std_add"@[4]);
    assert("std_not"@[4] != "std_sub"@[4]);
    assert("std_not"@[4] != "std_mod"@[4]);
    assert("std_not"@.len() != "std_mult"@.len());
    assert("std_not"@[4] != "std_div"@[4]);
    assert("std_and"@[4] != "std_reg"@[4]);
    assert("std_and"@.len() != "std_mem_d1"@.len());
    assert("std_and"@.len() != "std_sqrt"@.len());
    assert("std_and"@[5] != "std_add"@[5]);
    assert("std_and"@[4] != "std_sub"@[4]);
    assert("std_and"@[4] != "std_mod"@[4]);
    assert("std_and"@.len() != "std_mult"@.len());
    assert("std_and"@[4] != "std_div"@[4]);
    assert("std_and"@[4] != "std_not"@[4]);
    assert("std_or"@.len() != "std_reg"@.len());
    assert("std_or"@.len() != "std_mem_d1"@.len());
    assert("std_or"@.len() != "std_sqrt"@.len());
    assert("std_or"@.len() != "std_add"@.len());
    assert("std_or"@.len() != "std_sub"@.len());
    assert("std_or"@.len() != "std_mod"@.len());
    assert("std_or"@.len() != "std_mult"@.len());
    assert("std_or"@.len() != "std_div"@.len());
    assert("std_or"@.len() != "std_not"@.len());
    assert("std_or"@.len() != "std_and"@.len());
    assert("std_xor"@[4] != "std_reg"@[4]);
    assert("std_xor"@.len() != "std_mem_d1"@.len());
    assert("std_xor"@.len() != "std_sqrt"@.len());
    assert("std_xor"@[4] != "std_add"@[4]);
    assert("std_xor"@[4] != "std_sub"@[4]);
    assert("std_xor"@[4] != "std_mod"@[4]);
    assert("std_xor"@.len() != "std_mult"@.len());
    assert("std_xor"@[4] != "std_div"@[4]);
    assert("std_xor"@[4] != "std_not"@[4]);
    assert("std_xor"@[4] != "std_and"@[4]);
    assert("std_xor"@.len() != "std_or"@.len());
    assert("std_gt"@.len() != "std_reg"@.len());
    assert("std_gt"@.len() != "std_mem_d1"@.len());
    assert("std_gt"@.len() != "std_sqrt"@.len());
    assert("std_gt"@.len() != "std_add"@.len());
    assert("std_gt"@.len() != "std_sub"@.len());
    assert("std_gt"@.len() != "std_mod"@.len());
    assert("std_gt"@.len() != "std_mult"@.len());
    assert("std_gt"@.len() != "std_div"@.len());
    assert("std_gt"@.len() != "std_not"@.len());
    assert("std_gt"@.len() != "std_and"@.len());
    assert("std_gt"@[4] != "std_or"@[4]);
    assert("std_gt"@.len() != "std_xor"@.len());
    assert("std_lt"@.len() != "std_reg"@.len());
    assert("std_lt"@.len() != "std_mem_d1"@.len());
    assert("std_lt"@.len() != "std_sqrt"@.len());
    assert("std_lt"@.len() != "std_add"@.len());
    assert("std_lt"@.len() != "std_sub"@.len());
    assert("std_lt"@.len() != "std_mod"@.len());
    assert("std_lt"@.len() != "std_mult"@.len());
    assert("std_lt"@.len() != "std_div"@.len());
    assert("std_lt"@.len() != "std_not"@.len());
    assert("std_lt"@.len() != "std_and"@.len());
    assert("std_lt"@[4] != "std_or"@[4]);
    assert("std_lt"@.len() != "std_xor"@.len());
    assert("std_lt"@[4] != "std_gt"@[4]);
    assert("std_eq"@.len() != "std_reg"@.len());
    assert("std_eq"@.len() != "std_mem_d1"@.len());
    assert("std_eq"@.len() != "std_sqrt"@.len());
    assert("std_eq"@.len() != "std_add"@.len());
    assert("std_eq"@.len() != "std_sub"@.len());
    assert("std_eq"@.len() != "std_mod"@.len());
    assert("std_eq"@.len() != "std_mult"@.len());
    assert("std_eq"@.len() != "std_div"@.len());
    assert("std_eq"@.len() != "std_not"@.len());
    assert("std_eq"@.len() != "std_and"@.len());
    assert("std_eq"@[4] != "std_or"@[4]);
    assert("std_eq"@.len() != "std_xor"@.len());
    assert("std_eq"@[4] != "std_gt"@[4]);
    assert("std_eq"@[4] != "std_lt"@[4]);
    assert("std_neq"@[4] != "std_reg"@[4]);
    assert("std_neq"@.len() != "std_mem_d1"@.len());
    assert("std_neq"@.len() != "std_sqrt"@.len());
    assert("std_neq"@[4] != "std_add"@[4]);
    assert("std_neq"@[4] != "std_sub"@[4]);
    assert("std_neq"@[4] != "std_mod"@[4]);
    assert("std_neq"@.len() != "std_mult"@.len());
    assert("std_neq"@[4] != "std_div"@[4]);
    assert("std_neq"@[5] != "std_not"@[5]);
    assert("std_neq"@[4] != "std_and"@[4]);
    assert("std_neq"@.len() != "std_or"@.len());
    assert("std_neq"@[4] != "std_xor"@[4]);
    assert("std_neq"@.len() != "std_gt"@.len());
    assert("std_neq"@.len() != "std_lt"@.len());
    assert("std_neq"@.len() != "std_eq"@.len());
    assert("std_ge"@.len() != "std_reg"@.len());
    assert("std_ge"@.len() != "std_mem_d1"@.len());
    assert("std_ge"@.len() != "std_sqrt"@.len());
    assert("std_ge"@.len() != "std_add"@.len());
    assert("std_ge"@.len() != "std_sub"@.len());
    assert("std_ge"@.len() != "std_mod"@.len());
    assert("std_ge"@.len() != "std_mult"@.len());
    assert("std_ge"@.len() != "std_div"@.len());
    assert("std_ge"@.len() != "std_not"@.len());
    assert("std_ge"@.len() != "std_and"@.len());
    assert("std_ge"@[4] != "std_or"@[4]);
    assert("std_ge"@.len() != "std_xor"@.len());
    assert("std_ge"@[5] != "std_gt"@[5]);
    assert("std_ge"@[4] != "std_lt"@[4]);
    assert("std_ge"@[4] != "std_eq"@[4]);
    assert("std_ge"@.len() != "std_neq"@.len());
    assert("std_le"@.len() != "std_reg"@.len());
    assert("std_le"@.len() != "std_mem_d1"@.len());
    assert("std_le"@.len() != "std_sqrt"@.len());
    assert("std_le"@.len() != "std_add"@.len());
    assert("std_le"@.len() != "std_sub"@.len());
    assert("std_le"@.len() != "std_mod"@.len());
    assert("std_le"@.len() != "std_mult"@.len());
    assert("std_le"@.len() != "std_div"@.len());
    assert("std_le"@.len() != "std_not"@.len());
    assert("std_le"@.len() != "std_and"@.len());
    assert("std_le"@[4] != "std_or"@[4]);
    assert("std_le"@.len() != "std_xor"@.len());
    assert("std_le"@[4] != "std_gt"@[4]);
    assert("std_le"@[5] != "std_lt"@[5]);
    assert("std_le"@[4] != "std_eq"@[4]);
    assert("std_le"@.len() != "std_neq"@.len());
    assert("std_le"@[4] != "std_ge"@[4]);
}

} // verus!
