use colortool::number::check_float;
use colortool::spotread::{read_output, read_text, MeterError, Reading};
use colortool::text::{count_leading, find_end, find_words, starts_with, to_chars, Class};

fn reading(x: &str, y: &str, z: &str) -> Result<Option<Reading>, MeterError> {
    Ok(Some(Reading { x: x.to_string(), y: y.to_string(), z: z.to_string() }))
}

#[test]
fn white_space_is_what_unicode_says() {
    for c in '\0'..=char::MAX {
        assert_eq!(Class::Space.contains(c), c.is_whitespace(), "{:?}", c);
        assert_eq!(Class::Ink.contains(c), !c.is_whitespace(), "{:?}", c);
        assert_eq!(Class::Digit.contains(c), c.is_ascii_digit(), "{:?}", c);
    }
    assert!(Class::Comma.contains(','));
    assert!(!Class::Comma.contains('.'));
    assert!(!Class::InLine.contains('\n'));
    assert!(Class::InLine.contains('\r'));
}

#[test]
fn words_are_what_std_says() {
    for text in ["", " ", "a", " a", "a ", "ab  cd\te\u{2003}f", "\u{3000}x y\n", "Result is"] {
        let chars = to_chars(text);
        let found: Vec<String> = find_words(&chars, 0, chars.len())
            .iter()
            .map(|range| chars[range.0..range.1].iter().collect())
            .collect();
        let expected: Vec<String> = text.split_whitespace().map(str::to_string).collect();
        assert_eq!(found, expected);
    }
}

#[test]
fn margins_are_what_std_says() {
    for text in ["", " ", "a,", "a,,", ",", "  b ", "c , "] {
        let chars = to_chars(text);
        let length = chars.len();
        let end = find_end(&chars, 0, length, Class::Comma);
        assert_eq!(chars[..end].iter().collect::<String>(), text.trim_end_matches(','));
        let start = count_leading(&chars, 0, length, Class::Space);
        let end = find_end(&chars, start, length, Class::Space);
        assert_eq!(chars[start..end].iter().collect::<String>(), text.trim());
    }
}

#[test]
fn prefixes_are_found() {
    let chars = to_chars("abcd");
    assert!(starts_with(&chars, 1, 4, &to_chars("bc")));
    assert!(starts_with(&chars, 1, 4, &to_chars("")));
    assert!(!starts_with(&chars, 1, 2, &to_chars("bc")));
    assert!(!starts_with(&chars, 0, 4, &to_chars("bc")));
}

#[test]
fn numbers_are_what_std_says() {
    let parts = ["", "+", "-", "1", "20", ".", "e", "E", "x", "inf", "nan", "INFINITY", "é"];
    let mut accepted = 0;
    for a in parts {
        for b in parts {
            for c in parts {
                for d in parts {
                    let text = format!("{}{}{}{}", a, b, c, d);
                    let chars = to_chars(&text);
                    let valid = text.parse::<f64>().is_ok();
                    assert_eq!(check_float(&chars, 0, chars.len()), valid, "{:?}", text);
                    accepted += usize::from(valid);
                }
            }
        }
    }
    assert!(accepted > 100);
}

#[test]
fn numbers_with_fractions_and_exponents() {
    for text in ["3.5e-7", "-.5E+10", "5.", "+5.e3", "0.000001"] {
        let chars = to_chars(text);
        assert!(check_float(&chars, 0, chars.len()), "{}", text);
    }
    for text in ["", ".", "e5", "1e", "1e+", "1.2.3", "1,5", "--1", "0x10", "1_0"] {
        let chars = to_chars(text);
        assert!(!check_float(&chars, 0, chars.len()), "{}", text);
    }
}

#[test]
fn a_result_is_read() {
    let text = "\r\nPlace instrument on spot to be measured,\r\n\
                 Result is XYZ: 95.046834 100.000000 108.883047, D50 Lab: 100.0 0.0 0.0\r\n\
                 Result is XYZ: 1 2 3\n";
    assert_eq!(read_text(text), reading("95.046834", "100.000000", "108.883047"));
    assert_eq!(
        read_output(text.as_bytes().to_vec()),
        reading("95.046834", "100.000000", "108.883047")
    );
}

#[test]
fn text_without_a_result_says_nothing() {
    assert_eq!(read_text(""), Ok(None));
    assert_eq!(read_text("\n\n"), Ok(None));
    assert_eq!(read_text("The result is XYZ: 1 2 3"), Ok(None));
    assert_eq!(read_text("Result is XYZ:1 2 3"), Ok(None));
    assert_eq!(read_text("Result is XYZ: \n1 2 3"), Ok(None));
}

#[test]
fn only_the_first_three_values_count() {
    assert_eq!(read_text("Result is XYZ: 1,, 2 3 four"), reading("1", "2", "3"));
    assert_eq!(read_text("Result is XYZ:  1\u{2003}2 inf,"), reading("1", "2", "inf"));
}

#[test]
fn values_that_are_no_numbers_are_refused() {
    assert_eq!(read_text("Result is XYZ: 1 two 3"), Err(MeterError::InvalidValue));
    assert_eq!(read_text("Result is XYZ: , 2 3"), Err(MeterError::InvalidValue));
    assert_eq!(read_text("Result is XYZ: x"), Err(MeterError::InvalidValue));
}

#[test]
fn missing_values_are_refused() {
    assert_eq!(read_text("Result is XYZ: 1"), Err(MeterError::MissingValue));
    assert_eq!(read_text("Result is XYZ: 1 2\n3"), Err(MeterError::MissingValue));
}

#[test]
fn output_that_is_not_utf8_is_refused() {
    assert_eq!(read_output(vec![b'a', 0xc3]), Err(MeterError::NotUtf8));
    assert_eq!(read_output("Größe".as_bytes().to_vec()), Ok(None));
}

#[test]
fn a_report_is_read_wherever_it_stands() {
    for before in ["", "\n", "noise\n", "Result is XYZ\n\n"] {
        for tail in ["", ",", ", D50 Lab: 1 2 3", " trailing", ",\r"] {
            for after in ["", "\n", "\nResult is XYZ: bad"] {
                let text = format!("{}Result is XYZ: -1e3 .5 NaN{}{}", before, tail, after);
                assert_eq!(read_text(&text), reading("-1e3", ".5", "NaN"), "{:?}", text);
            }
        }
    }
}

#[test]
fn margins_gaps_and_commas_make_no_difference() {
    let text = "Ready\n\t  Result is XYZ: \u{2003} 1,,  \t2e1,\t3.5,,, Yxy: 1, 2\r\n\
                Result is XYZ: 7 8 9\n";
    assert_eq!(read_text(text), reading("1", "2e1", "3.5"));
    assert_eq!(read_text("Result is XYZ:  1 2 3"), reading("1", "2", "3"));
}
