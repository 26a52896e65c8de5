use genetic::fitness::Fitness;
use genetic::genotype::Genotype;
use genetic::text::write_bytes;
use genetic::text::write_decimal;
use genetic::text::write_fixed;

#[test]
fn numbers_are_written_in_decimal() {
    for number in [0u64, 7, 10, 42, 100, 999, 1_000_000, u64::MAX] {
        let mut text = String::from("n=");
        write_decimal(&mut text, number);
        assert_eq!(text, format!("n={}", number));
    }
}

#[test]
fn fixed_width_keeps_leading_zeros_and_the_last_digits() {
    let mut text = String::new();
    write_fixed(&mut text, 34, 6);
    assert_eq!(text, "000034");
    write_fixed(&mut text, 0, 3);
    assert_eq!(text, "000034000");
    write_fixed(&mut text, 123_456, 0);
    assert_eq!(text, "000034000");
    write_fixed(&mut text, 123_456, 2);
    assert_eq!(text, "00003400056");
}

#[test]
fn bytes_are_written_as_the_characters_of_their_codes() {
    let mut text = String::from(">");
    write_bytes(&mut text, &b"s001&e020|m300".to_vec());
    assert_eq!(text, ">s001&e020|m300");
    let mut high = String::new();
    write_bytes(&mut high, &vec![0x41, 0xE9, 0xFF]);
    assert_eq!(high, "A\u{e9}\u{ff}");
    let mut nothing = String::from("x");
    write_bytes(&mut nothing, &vec![]);
    assert_eq!(nothing, "x");
}

#[test]
fn labels_put_the_parts_together() {
    assert_eq!(Fitness::Valid(u64::MAX).label(), "18446744073709.551615");
    assert_eq!(Fitness::Valid(1_000_000).label(), "1.000000");
    assert_eq!(Genotype::from(vec![], Fitness::Valid(5)).label(), ": 0.000005");
}
