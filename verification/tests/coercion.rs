use data_table::coercion::parse_value;
use data_table::error::TableError;
use data_table::render::value_cell;
use data_table::table::DataTable;
use data_table::text::{equals_lowered, parse_bool, parse_decimal, render_integer, same_text, to_small_letter};
use data_table::value::{ColumnType, Value};

fn invalid(expected: ColumnType, input: &str) -> Result<Value, TableError> {
    Err(TableError::InvalidFormat { expected, input: input.to_string() })
}

#[test]
fn text_is_taken_as_it_is() {
    assert_eq!(parse_value(ColumnType::Text, "hello"), Ok(Value::Text("hello".to_string())));
    assert_eq!(parse_value(ColumnType::Text, ""), Ok(Value::Text(String::new())));
    assert_eq!(parse_value(ColumnType::Text, "  12 "), Ok(Value::Text("  12 ".to_string())));
}

#[test]
fn char_is_exactly_one_character() {
    assert_eq!(parse_value(ColumnType::Char, "x"), Ok(Value::Char('x')));
    assert_eq!(parse_value(ColumnType::Char, " "), Ok(Value::Char(' ')));
    assert_eq!(parse_value(ColumnType::Char, "é"), Ok(Value::Char('é')));
    assert_eq!(parse_value(ColumnType::Char, ""), invalid(ColumnType::Char, ""));
    assert_eq!(parse_value(ColumnType::Char, "xy"), invalid(ColumnType::Char, "xy"));
}

#[test]
fn numb_is_a_signed_integer_in_base_ten() {
    assert_eq!(parse_value(ColumnType::Numb, "42"), Ok(Value::Numb(42)));
    assert_eq!(parse_value(ColumnType::Numb, "-7"), Ok(Value::Numb(-7)));
    assert_eq!(parse_value(ColumnType::Numb, "+5"), Ok(Value::Numb(5)));
    assert_eq!(parse_value(ColumnType::Numb, "0"), Ok(Value::Numb(0)));
    assert_eq!(parse_value(ColumnType::Numb, "-0"), Ok(Value::Numb(0)));
    assert_eq!(parse_value(ColumnType::Numb, "007"), Ok(Value::Numb(7)));
    for bad in ["", "-", "+", "1 ", " 1", "12a", "a12", "1.5", "--1", "+-1", "1-", "0x10", "１２", "1_000"] {
        assert_eq!(parse_value(ColumnType::Numb, bad), invalid(ColumnType::Numb, bad));
    }
}

#[test]
fn numb_must_fit_in_64_bits() {
    assert_eq!(parse_decimal("9223372036854775807"), Some(i64::MAX));
    assert_eq!(parse_decimal("+9223372036854775807"), Some(i64::MAX));
    assert_eq!(parse_decimal("9223372036854775808"), None);
    assert_eq!(parse_decimal("-9223372036854775808"), Some(i64::MIN));
    assert_eq!(parse_decimal("-9223372036854775809"), None);
    assert_eq!(parse_decimal("00000000000000000000000009223372036854775807"), Some(i64::MAX));
    assert_eq!(parse_decimal("99999999999999999999999999999999999999999999"), None);
    assert_eq!(parse_decimal("-99999999999999999999999999999999999999999999"), None);
    assert_eq!(parse_decimal("170141183460469231731687303715884105728"), None);
}

#[test]
fn parse_decimal_agrees_with_the_standard_parser() {
    for s in ["0", "1", "-1", "+1", "10", "123456789", "-123456789", "", "+", "-", "٣", "1e3", "\u{2212}1", "1\n"] {
        assert_eq!(parse_decimal(s), s.parse::<i64>().ok());
    }
}

#[test]
fn bool_is_a_word_for_a_truth_value() {
    for yes in ["true", "TRUE", "True", "tRuE", "1"] {
        assert_eq!(parse_value(ColumnType::Bool, yes), Ok(Value::Bool(true)));
    }
    for no in ["false", "FALSE", "False", "fAlSe", "0"] {
        assert_eq!(parse_value(ColumnType::Bool, no), Ok(Value::Bool(false)));
    }
    for bad in ["", "yes", "no", "t", "f", "2", "01", "true ", " false", "truee", "tru", "ｔｒｕｅ"] {
        assert_eq!(parse_value(ColumnType::Bool, bad), invalid(ColumnType::Bool, bad));
    }
    assert_eq!(parse_bool("TRUE"), Some(true));
    assert_eq!(parse_bool("0"), Some(false));
    assert_eq!(parse_bool("maybe"), None);
}

#[test]
fn parse_input_goes_by_the_type_of_the_column() {
    let mut t = DataTable::new();
    t.add_column(vec![
        ("id", ColumnType::Numb),
        ("name", ColumnType::Text),
        ("ok", ColumnType::Bool),
        ("c", ColumnType::Char),
    ])
    .unwrap();
    assert_eq!(t._parse_input_to_value_type(0, "1"), Ok(Value::Numb(1)));
    assert_eq!(t._parse_input_to_value_type(1, "1"), Ok(Value::Text("1".to_string())));
    assert_eq!(t._parse_input_to_value_type(2, "1"), Ok(Value::Bool(true)));
    assert_eq!(t._parse_input_to_value_type(3, "1"), Ok(Value::Char('1')));
    assert_eq!(t._parse_input_to_value_type(0, "one"), invalid(ColumnType::Numb, "one"));
    assert_eq!(t._parse_input_to_value_type(2, "one"), invalid(ColumnType::Bool, "one"));
    assert_eq!(t._parse_input_to_value_type(3, "one"), invalid(ColumnType::Char, "one"));
}

#[test]
fn integers_are_written_in_base_ten() {
    assert_eq!(render_integer(0), "0");
    assert_eq!(render_integer(7), "7");
    assert_eq!(render_integer(10), "10");
    assert_eq!(render_integer(-1), "-1");
    assert_eq!(render_integer(1234567890), "1234567890");
    assert_eq!(render_integer(i64::MAX), "9223372036854775807");
    assert_eq!(render_integer(i64::MIN), "-9223372036854775808");
}

#[test]
fn written_integers_read_back_as_themselves() {
    for n in [0i64, 1, -1, 9, 10, 99, 100, -100, 4096, i64::MAX, i64::MIN, i64::MIN + 1] {
        assert_eq!(parse_decimal(&render_integer(n)), Some(n));
        assert_eq!(render_integer(n), n.to_string());
    }
}

#[test]
fn texts_are_the_same_when_their_characters_are() {
    assert!(same_text("", ""));
    assert!(same_text("abc", "abc"));
    assert!(same_text("héllo", "héllo"));
    assert!(!same_text("abc", "abd"));
    assert!(!same_text("abc", "ab"));
    assert!(!same_text("abc", "ABC"));
    assert!(!same_text("", " "));
}

#[test]
fn words_are_compared_without_regard_to_ascii_case() {
    assert!(equals_lowered("TeXt", "text"));
    assert!(equals_lowered("text", "text"));
    assert!(equals_lowered("", ""));
    assert!(!equals_lowered("text", "Text"));
    assert!(!equals_lowered("tex", "text"));
    assert!(!equals_lowered("texts", "text"));
    assert!(!equals_lowered("TÉXT", "téxt"));
    assert_eq!(to_small_letter('A'), 'a');
    assert_eq!(to_small_letter('Z'), 'z');
    assert_eq!(to_small_letter('a'), 'a');
    assert_eq!(to_small_letter('@'), '@');
    assert_eq!(to_small_letter('['), '[');
    assert_eq!(to_small_letter('É'), 'É');
    assert_eq!(to_small_letter('\u{212A}'), 'k');
}

#[test]
fn words_compare_as_their_lower_case_does() {
    let words = ["true", "false", "1", "0", "text", "numb", "bool", "char", "kolom", "row"];
    let inputs = [
        "TRUE", "True", "FALSE", "fAlse", "1", "0", "Text", "NUMB", "BooL", "CHAR", "Kolom", "ROW", "rows", "",
        "\u{212A}olom", "fal\u{017F}e", "\u{0130}", "tr\u{00DC}e", "ｔｒｕｅ", "TEXT ", "t e x t",
    ];
    for input in inputs {
        for word in words {
            assert_eq!(equals_lowered(input, word), input.to_lowercase() == word);
        }
    }
}

#[test]
fn shown_values_read_back_by_the_type_they_fit() {
    let cases = [
        (ColumnType::Text, Value::Text("some text".to_string())),
        (ColumnType::Text, Value::Text(String::new())),
        (ColumnType::Char, Value::Char('x')),
        (ColumnType::Char, Value::Char('é')),
        (ColumnType::Numb, Value::Numb(0)),
        (ColumnType::Numb, Value::Numb(-15)),
        (ColumnType::Numb, Value::Numb(i64::MIN)),
        (ColumnType::Bool, Value::Bool(true)),
        (ColumnType::Bool, Value::Bool(false)),
    ];
    for (coltype, value) in cases {
        assert_eq!(parse_value(coltype, &value_cell(&value)), Ok(value));
    }
}
