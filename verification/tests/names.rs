use calyx::structure::NameGenerator;

#[test]
fn name_generator_counts_per_prefix() {
    let mut g = NameGenerator::new();
    assert_eq!(g.gen_name("if"), "if0");
    assert_eq!(g.gen_name("if"), "if1");
    assert_eq!(g.gen_name("while"), "while0");
    assert_eq!(g.gen_name("if"), "if2");
    for _ in 0..8 {
        g.gen_name("if");
    }
    assert_eq!(g.gen_name("if"), "if11");
}
