use time_formatting::float::{float_form, ten_to_the, FloatForm, FloatParts};
use time_formatting::modifier::Padding;
use time_formatting::num_fmt;
use time_formatting::output::Output;
use time_formatting::ranged::{
    DecimalDigits, Digit, FiveDigits, FourDigits, RangedU16, RangedU32, RangedU8, SixDigits,
    SymmetricI16, SymmetricI32, SymmetricI8, ThreeDigits, TwoDigits,
};

fn written(format: impl FnOnce(&mut Output)) -> String {
    let mut output = Output::new(Vec::new());
    format(&mut output);
    assert_eq!(output.bytes_written(), output.as_slice().len());
    String::from_utf8(output.into_inner()).unwrap()
}

#[test]
fn ranged_new_answers_for_the_range() {
    assert_eq!(RangedU8::<1, 31>::new(0), None);
    assert_eq!(RangedU8::<1, 31>::new(1).unwrap().get(), 1);
    assert_eq!(RangedU8::<1, 31>::new(31).unwrap().get(), 31);
    assert_eq!(RangedU8::<1, 31>::new(32), None);
    assert_eq!(RangedU16::<0, 9_999>::new(10_000), None);
    assert_eq!(RangedU16::<0, 9_999>::new(9_999).unwrap().get(), 9_999);
    assert_eq!(RangedU32::<5, 9>::new(4), None);
    assert_eq!(RangedU32::<5, 9>::new(9).unwrap().get(), 9);
}

#[test]
fn ranged_narrow_answers_for_the_part() {
    let value = RangedU32::<0, 999_999>::new(10_000).unwrap();
    assert_eq!(value.narrow::<0, 9_999>(), None);
    assert_eq!(value.narrow::<0, 99_999>().unwrap().get(), 10_000);
    let value = RangedU16::<0, 9_999>::new(99).unwrap();
    assert_eq!(value.narrow::<0, 99>().unwrap().get(), 99);
    assert_eq!(value.narrow::<0, 98>(), None);
    assert_eq!(value.narrow::<0, 99>().unwrap().to_u8().get(), 99);
}

#[test]
fn ranged_expand_keeps_the_value() {
    assert_eq!(RangedU8::<1, 31>::new(7).unwrap().expand::<0, 99>().get(), 7);
    assert_eq!(RangedU16::<1, 366>::new(366).unwrap().expand::<0, 999>().get(), 366);
}

#[test]
fn symmetric_ranges() {
    assert_eq!(SymmetricI8::<99>::new(100), None);
    assert_eq!(SymmetricI8::<99>::new(-100), None);
    assert_eq!(SymmetricI8::<255>::new(-128).unwrap().abs().get(), 128);
    assert_eq!(SymmetricI16::<9_999>::new(-9_999).unwrap().abs().get(), 9_999);
    let year = SymmetricI32::<999_999>::new(-1).unwrap();
    assert!(year.is_negative());
    assert_eq!(year.get(), -1);
    assert_eq!(year.abs().get(), 1);
    assert!(!SymmetricI32::<999_999>::new(0).unwrap().is_negative());
}

#[test]
fn output_counts_what_is_written_behind_its_contents() {
    let mut output = Output::new(b"ab".to_vec());
    assert_eq!(output.bytes_written(), 0);
    output.write("cd");
    output.write_bytes(&[b'e', 0xff]);
    assert_eq!(output.bytes_written(), 4);
    assert_eq!(output.as_slice(), b"abcde\xff");
}

#[test]
fn output_writes_strings_as_utf8() {
    let mut output = Output::new(Vec::new());
    output.write("\u{20ac}");
    assert_eq!(output.bytes_written(), 3);
    assert_eq!(output.into_inner(), "\u{20ac}".as_bytes());
}

#[test]
fn output_writes_many_in_order() {
    assert_eq!(written(|o| o.write_many(["a", "", "bc", "d"])), "abcd");
    assert_eq!(written(|o| o.write_many([])), "");
    let one_by_one = written(|o| {
        o.write("a");
        o.write("bc");
    });
    assert_eq!(written(|o| o.write_many(["a", "bc"])), one_by_one);
}

#[test]
fn output_writes_conditionally() {
    assert_eq!(written(|o| o.write_if(true, "x")), "x");
    assert_eq!(written(|o| o.write_if(false, "x")), "");
    assert_eq!(written(|o| o.write_if_else(true, "x", "y")), "x");
    assert_eq!(written(|o| o.write_if_else(false, "x", "y")), "y");
}

#[test]
fn integers_are_padded_with_trailing_zeros() {
    assert_eq!(written(|o| o.format_int_padded(5, 3)), "500");
    assert_eq!(written(|o| o.format_int_padded(25, 3)), "250");
    assert_eq!(written(|o| o.format_int_padded(0, 2)), "00");
    assert_eq!(written(|o| o.format_int_padded(0, 0)), "0");
    assert_eq!(written(|o| o.format_int_padded(12_345, 3)), "12345");
    assert_eq!(written(|o| o.format_int_padded(u64::MAX, 22)), "1844674407370955161500");
}

#[test]
fn trailing_zeros_multiply_by_ten() {
    for value in [0, 1, 7, 42, 999_999_999] {
        let digits = value.to_string().len();
        for width in 0..15u8 {
            let text = written(|o| o.format_int_padded(value, width));
            assert_eq!(text.len(), digits.max(width as usize));
            let zeros = (text.len() - digits) as u32;
            assert_eq!(text.parse::<u64>(), Ok(value * 10u64.pow(zeros)));
        }
    }
}

#[test]
fn digits_with_padding() {
    let two = |v| TwoDigits::new(v).unwrap();
    let three = |v| ThreeDigits::new(v).unwrap();
    let four = |v| FourDigits::new(v).unwrap();
    assert_eq!(written(|o| o.format_single_digit(Digit::new(7).unwrap())), "7");
    assert_eq!(written(|o| o.format_two_digits(two(0), Padding::Space)), " 0");
    assert_eq!(written(|o| o.format_two_digits(two(5), Padding::Zero)), "05");
    assert_eq!(written(|o| o.format_two_digits(two(5), Padding::Unpadded)), "5");
    assert_eq!(written(|o| o.format_two_digits(two(99), Padding::Unpadded)), "99");
    assert_eq!(written(|o| o.format_three_digits(three(7), Padding::Space)), "  7");
    assert_eq!(written(|o| o.format_three_digits(three(70), Padding::Zero)), "070");
    assert_eq!(written(|o| o.format_three_digits(three(700), Padding::Unpadded)), "700");
    assert_eq!(written(|o| o.format_four_digits(four(0), Padding::Space)), "   0");
    assert_eq!(written(|o| o.format_four_digits(four(42), Padding::Zero)), "0042");
    assert_eq!(written(|o| o.format_four_digits(four(42), Padding::Unpadded)), "42");
    assert_eq!(written(|o| o.format_four_digits_pad_zero(four(1))), "0001");
    let five = FiveDigits::new(1_234).unwrap();
    assert_eq!(written(|o| o.format_five_digits_pad_zero(five)), "01234");
    let six = SixDigits::new(999_999).unwrap();
    assert_eq!(written(|o| o.format_six_digits_pad_zero(six)), "999999");
    let six = SixDigits::new(0).unwrap();
    assert_eq!(written(|o| o.format_six_digits_pad_zero(six)), "000000");
}

#[test]
fn numbers_without_padding_read_back() {
    for value in [0, 9, 10, 99, 100, 101, u64::MAX] {
        let text = written(|o| o.format_u64_pad_none(value));
        assert_eq!(text.parse::<u64>(), Ok(value));
        assert_eq!(text, value.to_string());
    }
    assert_eq!(written(|o| o.format_u128_pad_none(u128::MAX)), u128::MAX.to_string());
    assert_eq!(num_fmt::pad_none(0), b"0");
}

#[test]
fn padded_numbers_read_back_and_take_their_width() {
    for value in 0..=999u16 {
        let number = ThreeDigits::new(value).unwrap();
        for padding in [Padding::Space, Padding::Zero] {
            let text = written(|o| o.format_three_digits(number, padding));
            assert_eq!(text.len(), 3);
            assert_eq!(text.trim_start().parse::<u16>(), Ok(value));
        }
        let text = written(|o| o.format_three_digits(number, Padding::Unpadded));
        assert_eq!(text, value.to_string());
    }
}

#[test]
fn float_forms() {
    let digits = |d| DecimalDigits::new(d);
    assert_eq!(float_form(None), FloatForm::Whole);
    assert_eq!(float_form(digits(1)), FloatForm::Truncated { digits: 1 });
    assert_eq!(float_form(digits(8)), FloatForm::Truncated { digits: 8 });
    assert_eq!(float_form(digits(9)), FloatForm::Rendered { digits: 9 });
    assert_eq!(float_form(digits(255)), FloatForm::Rendered { digits: 255 });
}

#[test]
fn float_powers_of_ten() {
    for exponent in 1..=9u8 {
        let power = ten_to_the(DecimalDigits::new(exponent).unwrap());
        assert_eq!(power, Some(10u64.pow(exponent as u32)));
    }
    assert_eq!(ten_to_the(DecimalDigits::new(10).unwrap()), None);
}

#[test]
fn floats_are_padded_on_the_left() {
    let whole = FloatParts::Whole { int_part: 5 };
    assert_eq!(written(|o| o.format_float(&whole, 2, None)), "05");
    let truncated = FloatParts::Truncated { int_part: 5, frac_part: 25 };
    let digits = DecimalDigits::new(3);
    assert_eq!(written(|o| o.format_float(&truncated, 2, digits)), "05.025");
    let rendered = FloatParts::Rendered { text: b"5.250000000".to_vec() };
    let digits = DecimalDigits::new(9);
    assert_eq!(written(|o| o.format_float(&rendered, 1, digits)), "5.250000000");
    assert_eq!(written(|o| o.format_float(&rendered, 2, digits)), "05.250000000");
    assert_eq!(written(|o| o.format_float(&rendered, 4, digits)), "0005.250000000");
}

#[test]
fn rendered_floats_are_counted_in_full() {
    let rendered = FloatParts::Rendered { text: b"123.000000000".to_vec() };
    let mut output = Output::new(Vec::new());
    output.format_float(&rendered, 2, DecimalDigits::new(9));
    assert_eq!(output.bytes_written(), 13);
    assert_eq!(output.as_slice(), b"123.000000000");

    let rendered = FloatParts::Rendered { text: b"123.250000000".to_vec() };
    let mut output = Output::new(Vec::new());
    output.format_float(&rendered, 2, DecimalDigits::new(9));
    assert_eq!(output.bytes_written(), 13);
    assert_eq!(output.as_slice(), b"123.250000000");
}
