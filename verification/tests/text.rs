use raiden::text::u64_to_dec;
use raiden::ValueIdGen;

#[test]
fn test_u64_to_dec_renders_decimal() {
    assert_eq!(u64_to_dec(0), "0");
    assert_eq!(u64_to_dec(7), "7");
    assert_eq!(u64_to_dec(10), "10");
    assert_eq!(u64_to_dec(907), "907");
    assert_eq!(u64_to_dec(u64::MAX), "18446744073709551615");
}

#[test]
fn test_value_id_gen_counts_up() {
    let mut gen = ValueIdGen::new();
    assert_eq!(gen.generate(), 0);
    assert_eq!(gen.generate(), 1);
    assert_eq!(gen.generate(), 2);
}
