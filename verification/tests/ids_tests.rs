use tiny_basic_compiler::ids::IdGenerator;

#[test]
pub fn test_ids_equal() {
    let mut id_generator = IdGenerator::new(0);
    let id_1 = id_generator.id();
    let id_2 = id_1;
    assert_eq!(id_1, id_2);
}

#[test]
pub fn test_ids_not_equal() {
    let mut id_generator = IdGenerator::new(0);
    let id_1 = id_generator.id();
    let id_2 = id_generator.id();
    assert_ne!(id_1, id_2);
}

#[test]
pub fn test_cant_compare_different_symbols() {
    let mut gen_1 = IdGenerator::new(1);
    let mut gen_2 = IdGenerator::new(2);
    let id_1 = gen_1.id();
    let id_2 = gen_2.id();
    assert_ne!(id_1, id_2);
}

#[test]
pub fn test_equal_scopes_are_the_callers_risk() {
    // Cross-generator distinctness holds only of generators with distinct
    // scopes: two generators under one scope issue colliding identifiers.
    let mut gen_1 = IdGenerator::new(7);
    let mut gen_2 = IdGenerator::new(7);
    let id_1 = gen_1.id();
    let id_2 = gen_2.id();
    assert_eq!(id_1, id_2);
}
