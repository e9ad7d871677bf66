use calyx::environment::Environment;
use calyx::errors::Error;
use calyx::ids::Id;
use calyx::primitives::{
    kind_of, update_cell_state, Execute, ExecuteBinary, PrimKind, StdAdd, StdAnd, StdConst,
    StdEq, StdGe, StdGt, StdLe, StdLsh, StdLt, StdNeq, StdNot, StdOr, StdPad, StdReg, StdRsh,
    StdSlice, StdSub, StdXor,
};
use calyx::values::Value;

fn num(n: usize, w: usize) -> Value {
    Value::from_init(n, w)
}

fn id(s: &str) -> Id {
    Id::from_str(s)
}

#[test]
fn register_starts_empty() {
    let r = StdReg::new(8);
    assert_eq!(r.width, 8);
    assert_eq!(r.read_u64(), 0);
    assert_eq!(r.read_value().width(), 8);
    assert!(!r.done);
    assert!(!r.write_en);
}

#[test]
fn register_ignores_loads_while_write_en_low() {
    let mut r = StdReg::new(8);
    r.load_u64(42);
    assert_eq!(r.read_u64(), 0);
    r.load_value(num(7, 8));
    assert_eq!(r.read_u64(), 0);
}

#[test]
fn register_reads_back_what_was_loaded() {
    let mut r = StdReg::new(8);
    r.set_write_en_high();
    assert!(r.write_en);
    r.load_u64(42);
    assert_eq!(r.read_u64(), 42);
    r.load_u64(300);
    assert_eq!(r.read_u64(), 44);
    r.load_value(num(0x3ff, 10));
    assert_eq!(r.read_value().width(), 8);
    assert_eq!(r.read_u64(), 0xff);
    r.set_write_en_low();
    r.load_u64(1);
    assert_eq!(r.read_u64(), 0xff);
}

#[test]
fn register_done_signal() {
    let mut r = StdReg::new(1);
    r.set_done_high();
    assert!(r.done);
    r.set_done_low();
    assert!(!r.done);
}

#[test]
fn constant_is_cut_to_width() {
    let c = StdConst::new(4, num(0b10110, 5));
    assert_eq!(c.read_val().width(), 4);
    assert_eq!(c.read_u64(), 0b0110);
    let d = StdConst::new_from_u64(3, 13);
    assert_eq!(d.read_u64(), 5);
    assert_eq!(d.read_val().vec, vec![true, false, true]);
}

#[test]
fn shift_left_doubles_modulo_width() {
    let v = StdLsh::execute(num(13, 4));
    assert_eq!(v.width(), 4);
    assert_eq!(v.as_u64(), 10);
    let w = StdLsh::execute(num(1, 1));
    assert_eq!(w.vec, vec![false]);
}

#[test]
fn shift_right_halves() {
    let v = StdRsh::execute(num(13, 4));
    assert_eq!(v.width(), 4);
    assert_eq!(v.as_u64(), 6);
    assert_eq!(StdRsh::execute(num(8, 4)).as_u64(), 4);
}

#[test]
fn add_wraps_at_width() {
    assert_eq!(StdAdd::execute_bin(&num(7, 4), &num(12, 4)).as_u64(), 3);
    assert_eq!(StdAdd::execute_bin(&num(7, 4), &num(8, 4)).as_u64(), 15);
    assert_eq!(StdAdd::execute_bin(&num(7, 4), &num(8, 4)).width(), 4);
}

#[test]
fn sub_is_exact() {
    assert_eq!(StdSub::execute_bin(&num(12, 4), &num(7, 4)).as_u64(), 5);
    assert_eq!(StdSub::execute_bin(&num(12, 4), &num(12, 4)).as_u64(), 0);
}

#[test]
fn slice_and_pad() {
    assert_eq!(StdSlice::execute(num(13, 4), 2).as_u64(), 1);
    assert_eq!(StdSlice::execute(num(13, 4), 8).width(), 4);
    let p = StdPad::execute(num(13, 4), 8);
    assert_eq!(p.width(), 8);
    assert_eq!(p.as_u64(), 13);
}

#[test]
fn bitwise_operators() {
    assert_eq!(StdNot::execute(num(0b1010, 4)).as_u64(), 0b0101);
    assert_eq!(StdAnd::execute_bin(&num(0b1100, 4), &num(0b1010, 4)).as_u64(), 0b1000);
    assert_eq!(StdOr::execute_bin(&num(0b1100, 4), &num(0b1010, 4)).as_u64(), 0b1110);
    assert_eq!(StdXor::execute_bin(&num(0b1100, 4), &num(0b1010, 4)).as_u64(), 0b0110);
}

#[test]
fn comparisons_give_one_bit() {
    let a = num(5, 8);
    let b = num(9, 4);
    assert_eq!(StdGt::execute_bin(&a, &b).vec, vec![false]);
    assert_eq!(StdLt::execute_bin(&a, &b).vec, vec![true]);
    assert_eq!(StdEq::execute_bin(&a, &b).vec, vec![false]);
    assert_eq!(StdNeq::execute_bin(&a, &b).vec, vec![true]);
    assert_eq!(StdGe::execute_bin(&a, &a).vec, vec![true]);
    assert_eq!(StdLe::execute_bin(&b, &a).vec, vec![false]);
    assert_eq!(StdEq::execute_bin(&a, &num(5, 3)).vec, vec![true]);
}

#[test]
fn execute_reads_left_and_right() {
    let inputs = vec![(id("right"), num(2, 4)), (id("left"), num(5, 4)), (id("left"), num(1, 4))];
    let out = StdAdd::execute(&inputs, &[]);
    assert_eq!(out.len(), 1);
    assert_eq!(out[0].0.id, "out");
    assert_eq!(out[0].1.as_u64(), 7);
    let cmp = StdLt::execute(&inputs, &[]);
    assert_eq!(cmp[0].1.vec, vec![false]);
}

#[test]
fn kind_of_type_names() {
    assert!(matches!(kind_of(&id("std_reg")), PrimKind::Reg));
    assert!(matches!(kind_of(&id("std_mem_d1")), PrimKind::MemD1));
    assert!(matches!(kind_of(&id("std_le")), PrimKind::Le));
    assert!(matches!(kind_of(&id("std_mult")), PrimKind::Mult));
    assert!(matches!(kind_of(&id("my_component")), PrimKind::Other));
}

fn env_with(cell: &str, ty: &str, ports: &[(&str, u64)]) -> Environment {
    let mut env = Environment::new();
    env.add_cell(&id("main"), &id(cell), Some(id(ty)));
    for (p, v) in ports {
        env.put(&id("main"), &id(cell), &id(p), *v);
    }
    env
}

#[test]
fn update_adder_cell() {
    let env = env_with("a", "std_add", &[("left", 3), ("right", 4)]);
    let r = update_cell_state(&id("a"), &[id("left"), id("right")], &[id("out")], &env, id("main"));
    let e = r.unwrap();
    assert_eq!(e.get(&id("main"), &id("a"), &id("out")), 7);
    assert_eq!(e.get(&id("main"), &id("a"), &id("left")), 3);
    assert_eq!(env.lookup(&id("main"), &id("a"), &id("out")), None);
}

#[test]
fn update_arithmetic_cells() {
    let cases: [(&str, u64); 14] = [
        ("std_sub", 7),
        ("std_mod", 1),
        ("std_mult", 18),
        ("std_div", 4),
        ("std_and", 0),
        ("std_or", 11),
        ("std_xor", 11),
        ("std_gt", 1),
        ("std_lt", 0),
        ("std_eq", 0),
        ("std_neq", 1),
        ("std_ge", 1),
        ("std_le", 0),
        ("std_add", 11),
    ];
    for (ty, expected) in cases.iter() {
        let env = env_with("c", ty, &[("l", 9), ("r", 2)]);
        let e = update_cell_state(&id("c"), &[id("l"), id("r")], &[id("o")], &env, id("main"))
            .unwrap();
        assert_eq!(e.get(&id("main"), &id("c"), &id("o")), *expected, "{}", ty);
    }
}

#[test]
fn update_division_by_zero_leaves_output() {
    for ty in ["std_div", "std_mod"].iter() {
        let env = env_with("d", ty, &[("l", 8), ("r", 0), ("o", 99)]);
        let e = update_cell_state(&id("d"), &[id("l"), id("r")], &[id("o")], &env, id("main"))
            .unwrap();
        assert_eq!(e.get(&id("main"), &id("d"), &id("o")), 99);
    }
}

#[test]
fn update_not_cell() {
    let env = env_with("n", "std_not", &[("in", 0)]);
    let e = update_cell_state(&id("n"), &[id("in")], &[id("out")], &env, id("main")).unwrap();
    assert_eq!(e.get(&id("main"), &id("n"), &id("out")), u64::MAX);
}

#[test]
fn update_register_with_write_enable() {
    let mut env = env_with("r", "std_reg", &[("write_en", 1)]);
    env.add_cell(&id("main"), &id("src"), Some(id("std_const")));
    env.put(&id("main"), &id("src"), &id("out"), 42);
    let e = update_cell_state(&id("r"), &[id("src")], &[id("in")], &env, id("main")).unwrap();
    assert_eq!(e.get(&id("main"), &id("r"), &id("in")), 42);
    assert_eq!(e.get(&id("main"), &id("r"), &id("out")), 42);
    assert_eq!(e.get(&id("main"), &id("r"), &id("done")), 1);
}

#[test]
fn update_register_without_write_enable() {
    let env = env_with("r", "std_reg", &[("write_en", 0), ("out", 5)]);
    let e = update_cell_state(&id("r"), &[id("src")], &[id("in")], &env, id("main")).unwrap();
    assert_eq!(e.get(&id("main"), &id("r"), &id("out")), 5);
    assert_eq!(e.lookup(&id("main"), &id("r"), &id("done")), None);
}

#[test]
fn update_memory_reads_what_was_written() {
    let mut env = env_with("m", "std_mem_d1", &[("write_en", 1), ("write_data", 17)]);
    env.add_cell(&id("main"), &id("src"), None);
    env.put(&id("main"), &id("src"), &id("out"), 3);
    let e = update_cell_state(&id("m"), &[id("src")], &[id("read_data")], &env, id("main"))
        .unwrap();
    assert_eq!(e.get(&id("main"), &id("m"), &id("read_data")), 17);
    assert_eq!(e.get(&id("main"), &id("m"), &id("done")), 1);
    let e2 = update_cell_state(&id("m"), &[id("src")], &[id("addr0")], &env, id("main")).unwrap();
    assert_eq!(e2.get(&id("main"), &id("m"), &id("addr0")), 3);
    assert_eq!(e2.get(&id("main"), &id("m"), &id("done")), 1);
}

#[test]
fn update_sqrt_does_nothing() {
    let env = env_with("s", "std_sqrt", &[("in", 16)]);
    let e = update_cell_state(&id("s"), &[id("in")], &[id("out")], &env, id("main")).unwrap();
    assert_eq!(e.lookup(&id("main"), &id("s"), &id("out")), None);
    assert_eq!(e.get(&id("main"), &id("s"), &id("in")), 16);
    let _unused: Option<Error> = None;
}
