use item_crud::item::{ItemFormData, ItemValidationErr, ValidatedItem};
use item_crud::number::{spells_finite_decimal, spells_number, FINITE_LIMIT};
use item_crud::text::{chars_of, is_space_char, trimmed_len};

fn form(name: &str, price: &str) -> ItemFormData {
    ItemFormData { name: name.to_string(), price: price.to_string() }
}

fn name_passes(name: &str) -> bool {
    ItemFormData::validate_name(name.to_string()).is_ok()
}

fn price_passes(price: &str) -> bool {
    ItemFormData::validate_price(price.to_string()).is_ok()
}

#[test]
fn names_of_one_character_or_none_fail() {
    for name in ["", "a", " ", "\t", "7", "\u{e9}", "\u{3042}", "\u{1f600}"] {
        assert!(name.chars().count() <= 1);
        assert_eq!(
            ItemFormData::validate_name(name.to_string()),
            Err(ItemValidationErr::InvalidName),
            "{:?}",
            name
        );
    }
}

#[test]
fn names_of_two_visible_characters_pass() {
    let names =
        ["ab", "Widget", "a b", "  ab  ", "\ta\u{a0}b\n", "\u{e9}\u{e9}", "x\u{3000}y", "12"];
    for name in names {
        let checked = ItemFormData::validate_name(name.to_string());
        assert_eq!(checked, Ok(name.to_string()), "{:?}", name);
    }
}

#[test]
fn names_that_trim_to_one_character_or_none_fail() {
    let names =
        ["  ", " a", "a ", "   a   ", "\u{a0}a\u{3000}", "\n\n\n", "\u{2003}\u{2028}", " \u{e9} "];
    for name in names {
        assert!(name.chars().count() > 1);
        assert_eq!(
            ItemFormData::validate_name(name.to_string()),
            Err(ItemValidationErr::InvalidName),
            "{:?}",
            name
        );
    }
}

#[test]
fn name_length_counts_characters_not_bytes() {
    assert_eq!("\u{e9}".len(), 2);
    assert!(!name_passes("\u{e9}"));
    assert_eq!("\u{1f600}".len(), 4);
    assert!(!name_passes("\u{1f600}"));
    assert!(name_passes("\u{1f600}\u{1f600}"));
}

#[test]
fn name_rule_agrees_with_trim_on_every_short_text() {
    let alphabet = [' ', '\t', '\u{a0}', '\u{3000}', 'a', '\u{e9}', '\u{200b}', '0'];
    let mut texts = vec![String::new()];
    let mut from = 0;
    for _ in 0..5 {
        let upto = texts.len();
        for i in from..upto {
            for c in alphabet {
                let mut longer = texts[i].clone();
                longer.push(c);
                texts.push(longer);
            }
        }
        from = upto;
    }
    assert_eq!(texts.len(), 1 + 8 + 64 + 512 + 4096 + 32768);
    for text in &texts {
        assert_eq!(name_passes(text), text.trim().chars().count() > 1, "{:?}", text);
        assert_eq!(trimmed_len(&chars_of(text)), text.trim().chars().count(), "{:?}", text);
    }
}

#[test]
fn whitespace_is_what_the_standard_library_trims() {
    let mut count = 0;
    for code in 0..=0x10ffffu32 {
        if let Some(c) = char::from_u32(code) {
            assert_eq!(is_space_char(c), c.is_whitespace(), "U+{:04X}", code);
            if is_space_char(c) {
                count += 1;
            }
        }
    }
    assert_eq!(count, 25);
}

#[test]
fn trimmed_len_of_given_texts() {
    assert_eq!(trimmed_len(&chars_of("")), 0);
    assert_eq!(trimmed_len(&chars_of("   ")), 0);
    assert_eq!(trimmed_len(&chars_of(" a ")), 1);
    assert_eq!(trimmed_len(&chars_of("  a b  ")), 3);
    assert_eq!(trimmed_len(&chars_of("Widget")), 6);
    assert_eq!(trimmed_len(&chars_of("\u{2028}x\u{e9}y\u{2029}")), 3);
}

#[test]
fn chars_of_gives_every_character_in_order() {
    assert_eq!(chars_of(""), Vec::<char>::new());
    assert_eq!(chars_of("a\u{e9}\u{1f600}z"), vec!['a', '\u{e9}', '\u{1f600}', 'z']);
}

/// What the price rule stands for: the text parses as a number that the
/// store can hold.
fn stores_as_finite(price: &str) -> bool {
    price.parse::<f32>().map_or(false, |number| number.is_finite())
}

#[test]
fn prices_that_spell_a_finite_number_pass() {
    for price in [
        "9.99", "0", "-1", "12.5", "15", "+3", "1e5", "1E5", "1e+5", "1e-5", ".5", "5.", "+.5e-3",
        "1.e5", "007", "0.0", "-0", "1e38", "3.4e38", "-3.4028235e38", "1e-999", "0e999",
        "0.000000000000000000000000001", "123456789012345678901234567890",
    ] {
        assert!(stores_as_finite(price), "{:?}", price);
        let checked = ItemFormData::validate_price(price.to_string());
        assert_eq!(checked, Ok(price.to_string()), "{:?}", price);
    }
}

#[test]
fn prices_that_spell_no_number_fail() {
    for price in [
        "", "x", " ", ".", "+", "-", "e5", "1e", "1e+", ".e5", "+.", "1_000", " 1", "1 ", "0x10",
        "1.2.3", "--1", "+-1", "infinit", "infinityy", "in", "na", "nane", "1e5.5", "1,5", "12.5f",
        "\u{661}", "\u{ff11}", "1\u{a0}", "$5", "1e5e5", "i", "n", "+", "e",
    ] {
        assert!(price.parse::<f64>().is_err(), "{:?}", price);
        assert_eq!(
            ItemFormData::validate_price(price.to_string()),
            Err(ItemValidationErr::InvalidPrice),
            "{:?}",
            price
        );
    }
}

#[test]
fn prices_that_are_not_finite_fail() {
    for price in [
        "inf", "INF", "-inf", "+Infinity", "infinity", "iNfInItY", "nan", "NaN", "-nan", "+NAN",
        "1e39", "1e999", "-1e999", "3.5e38", "-4e38", "1e99999999999999999999999999999999999999999",
        "1000000000000000000000000000000000000000", "0.1e40", "100e37",
    ] {
        assert!(price.parse::<f64>().is_ok(), "{:?}", price);
        assert!(!stores_as_finite(price), "{:?}", price);
        assert_eq!(
            ItemFormData::validate_price(price.to_string()),
            Err(ItemValidationErr::InvalidPrice),
            "{:?}",
            price
        );
    }
}

#[test]
fn the_limit_is_where_single_precision_ends() {
    assert_eq!(FINITE_LIMIT, 340282356779733661637539395458142568448);
    assert_eq!(FINITE_LIMIT, (1u128 << 103) * ((1u128 << 25) - 1));
    let limit = "340282356779733661637539395458142568448";
    let below = "340282356779733661637539395458142568447";
    assert!(!stores_as_finite(limit) && !price_passes(limit));
    assert!(stores_as_finite(below) && price_passes(below));
    assert_eq!(below.parse::<f32>(), Ok(f32::MAX));
    for (text, finite) in [
        ("340282356779733661637539395458142568447.99999999999", true),
        ("340282356779733661637539395458142568448.00000000000", false),
        ("-340282356779733661637539395458142568447.9", true),
        ("-340282356779733661637539395458142568448", false),
        ("3.40282356779733661637539395458142568447e38", true),
        ("3.40282356779733661637539395458142568448e38", false),
        ("3.40282356779733661637539395458142568447999e+38", true),
        ("340282356779733661637539395458142568448000e-3", false),
        ("340282356779733661637539395458142568447999e-3", true),
        ("0.00340282356779733661637539395458142568447e41", true),
        ("0.00340282356779733661637539395458142568448e41", false),
        ("34028235677973366163753939545814256844.7e1", true),
        ("34028235677973366163753939545814256844.8e1", false),
        ("340282346638528859811704183484516925440", true),
        ("340282366920938463463374607431768211455", false),
        ("340282366920938463463374607431768211456", false),
        ("0000000000000000000000000000000000000000000000001", true),
        ("0.0000000000000000000000000000000000000000000000001", true),
        ("0e340282366920938463463374607431768211456", true),
        ("0.000e+340282366920938463463374607431768211456", true),
        ("1e340282366920938463463374607431768211456", false),
        ("1e-340282366920938463463374607431768211456", true),
        ("1e0000000000000000000000000000000000000000000000038", true),
        ("1e0000000000000000000000000000000000000000000000039", false),
        ("99999999999999999999999999999999999999999999999999e-12", true),
        ("99999999999999999999999999999999999999999999999999e-11", false),
    ] {
        assert_eq!(stores_as_finite(text), finite, "{:?}", text);
        assert_eq!(price_passes(text), finite, "{:?}", text);
    }
}

#[test]
fn price_rule_agrees_with_float_parsing_near_the_limit() {
    let mut seed: u64 = 0x2545f4914f6cdd1d;
    let mut next = move |bound: u64| {
        seed ^= seed << 13;
        seed ^= seed >> 7;
        seed ^= seed << 17;
        seed % bound
    };
    let around = "340282356779733661637539395458142568448";
    let mut finite = 0;
    let mut beyond = 0;
    for _ in 0..20000 {
        // A run of digits that agrees with the limit for a while.
        let agree = next(41) as usize;
        let length = 1 + next(45) as usize;
        let mut digits = String::new();
        for at in 0..length {
            if at < agree && at < around.len() {
                digits.push_str(&around[at..at + 1]);
            } else {
                digits.push_str(&next(10).to_string());
            }
        }
        // A decimal point somewhere, and the exponent that makes up for it.
        let point = next(length as u64 + 1) as usize;
        let exponent = 39 - point as i64 - 1 + next(3) as i64;
        let text = match next(4) {
            0 => format!("{}.{}e{}", &digits[..point], &digits[point..], exponent),
            1 => format!("-{}.{}E{:+}", &digits[..point], &digits[point..], exponent),
            2 if point < length => {
                let places = (length - point) as i64;
                format!("{}{}e{}", &digits[..point], &digits[point..], exponent - places)
            }
            _ => format!("{}.{}e+{:03}", &digits[..point], &digits[point..], exponent),
        };
        let expected = stores_as_finite(&text);
        assert_eq!(price_passes(&text), expected, "{:?}", text);
        if expected {
            finite += 1;
        } else {
            beyond += 1;
        }
    }
    assert!(finite > 2000 && beyond > 2000, "{} {}", finite, beyond);
}

#[test]
fn price_rule_agrees_with_float_parsing_on_every_short_text() {
    let alphabet = ['0', '7', '+', '-', '.', 'e', 'E', 'i', 'n', 'f', 'a', ' ', 'x'];
    let mut texts = vec![String::new()];
    let mut from = 0;
    for _ in 0..5 {
        let upto = texts.len();
        for i in from..upto {
            for c in alphabet {
                let mut longer = texts[i].clone();
                longer.push(c);
                texts.push(longer);
            }
        }
        from = upto;
    }
    assert_eq!(texts.len(), 1 + 13 + 169 + 2197 + 28561 + 371293);
    let mut passing = 0;
    let mut words = 0;
    let mut beyond = 0;
    for text in &texts {
        let expected = stores_as_finite(text);
        assert_eq!(price_passes(text), expected, "{:?}", text);
        if expected {
            passing += 1;
        } else if text.parse::<f64>().is_ok() {
            if text.to_lowercase().contains('n') {
                words += 1;
            } else {
                beyond += 1;
            }
        }
    }
    assert!(passing > 100 && words == 6 && beyond > 10, "{} {} {}", passing, words, beyond);
}

#[test]
fn words_and_their_neighbours_spell_no_price() {
    let words = ["inf", "infinity", "nan", "Inf", "iNfInItY", "NAN", "INFINITY"];
    let signs = ["", "+", "-", "++", " "];
    let tails = ["", "0", "y", " ", "e1", "."];
    for word in words {
        for sign in signs {
            for tail in tails {
                let text = format!("{}{}{}", sign, word, tail);
                assert!(!price_passes(&text), "{:?}", text);
                assert!(!stores_as_finite(&text), "{:?}", text);
                let cut = &text[..text.len() - 1];
                assert!(!price_passes(cut), "{:?}", cut);
            }
        }
    }
}

#[test]
fn numbers_and_signs_are_told_apart() {
    for text in ["1.5e3", "7", ".5", "5.", "1E-2", "1e999"] {
        assert!(spells_number(&chars_of(text)), "{:?}", text);
    }
    for text in ["1.5e3", "7", ".5", "5.", "1E-2", "-1.5e3", "+7", "-0.0e-0"] {
        assert!(spells_finite_decimal(&chars_of(text)), "{:?}", text);
    }
    for text in ["-1.5e3", "+7", "inf", "Infinity", "NaN", "", "+", "e", "1e", "1f", "/", ":"] {
        assert!(!spells_number(&chars_of(text)), "{:?}", text);
    }
    for text in ["inf", "-inf", "+nan", "1e999", "-1e39", "", "+", "1:", "@nf", "1\u{65e}"] {
        assert!(!spells_finite_decimal(&chars_of(text)), "{:?}", text);
    }
}

#[test]
fn both_errors_are_collected_name_first() {
    assert_eq!(
        ItemFormData::validate(&form("", "x")),
        Err(vec![ItemValidationErr::InvalidName, ItemValidationErr::InvalidPrice])
    );
}

#[test]
fn each_field_is_checked_on_its_own() {
    let name_only = Err(vec![ItemValidationErr::InvalidName]);
    let price_only = Err(vec![ItemValidationErr::InvalidPrice]);
    assert_eq!(ItemFormData::validate(&form("", "9.99")), name_only);
    assert_eq!(ItemFormData::validate(&form("Widget", "")), price_only);
    assert_eq!(ItemFormData::validate(&form(" a ", "1e")), Err(vec![
        ItemValidationErr::InvalidName,
        ItemValidationErr::InvalidPrice
    ]));
}

#[test]
fn a_valid_form_comes_back_with_its_fields_unchanged() {
    let checked: ValidatedItem = ItemFormData::validate(&form("  Widget ", "12.50")).unwrap();
    assert_eq!(checked.name(), "  Widget ");
    assert_eq!(checked.price(), "12.50");
    assert_eq!(checked, ItemFormData::validate(&form("  Widget ", "12.50")).unwrap());
    assert_ne!(checked, ItemFormData::validate(&form("Widget", "12.50")).unwrap());
}

#[test]
fn error_messages() {
    assert_eq!(ItemValidationErr::InvalidName.message(), "Name is required");
    assert_eq!(ItemValidationErr::InvalidPrice.message(), "Invalid Price");
}

#[test]
fn default_form_is_empty_and_fails_both_rules() {
    let empty = ItemFormData::default();
    assert_eq!(empty, form("", ""));
    assert_eq!(
        ItemFormData::validate(&empty),
        Err(vec![ItemValidationErr::InvalidName, ItemValidationErr::InvalidPrice])
    );
}
