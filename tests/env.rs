use bytecode_parser::env::A;

#[test]
fn test_new() {
    let a = A::new([1, 2, 3, 4, 5, 6, 7, 8, 9, 0]);
    let b = &a.b;
    let c = b.get_data(0);
    assert!(c == 1)
}
