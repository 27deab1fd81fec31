use remux_server::number::{read_i64, write_decimal};
use remux_server::text::{
    ascii_lowered, ascii_raised, chars_of, is_whitespace, lines_of, replaced, rfind_in, split_on,
    text_of, trimmed, with_unified_newlines,
};

const SAMPLES: [&str; 12] = [
    "",
    "a",
    "\n",
    "a\n",
    "a\n\n",
    "\r\n",
    "a\r\nb\rc\n\rd",
    " \u{2003}x\u{a0}y\t",
    "a,b,,c,",
    "Grüße, 🎯 ÄÖ",
    "\u{FEFF}x",
    "--->-->",
];

fn string_of(chars: &[char]) -> String {
    chars.iter().collect()
}

#[test]
fn white_space_is_what_unicode_calls_so() {
    for c in '\0'..=char::MAX {
        assert_eq!(is_whitespace(c), c.is_whitespace());
    }
}

#[test]
fn lines_are_those_of_std() {
    for s in SAMPLES {
        let chars = chars_of(s);
        let got: Vec<String> = lines_of(&chars).iter().map(|l| string_of(l)).collect();
        let want: Vec<&str> = s.lines().collect();
        assert_eq!(got, want);
    }
}

#[test]
fn parts_are_those_of_std() {
    for s in SAMPLES {
        for separator in [",", "\n\n", "-->"] {
            let chars = chars_of(s);
            let pattern = chars_of(separator);
            let got: Vec<String> =
                split_on(&chars, &pattern).iter().map(|l| string_of(l)).collect();
            let want: Vec<&str> = s.split(separator).collect();
            assert_eq!(got, want);
        }
    }
}

#[test]
fn trimming_is_that_of_std() {
    for s in SAMPLES {
        assert_eq!(string_of(trimmed(&chars_of(s))), s.trim());
    }
}

#[test]
fn newlines_are_unified() {
    for s in SAMPLES {
        assert_eq!(
            string_of(&with_unified_newlines(&chars_of(s))),
            s.replace("\r\n", "\n").replace('\r', "\n")
        );
    }
}

#[test]
fn characters_are_replaced() {
    for s in SAMPLES {
        assert_eq!(string_of(&replaced(&chars_of(s), ',', '.')), s.replace(',', "."));
    }
}

#[test]
fn letters_of_ascii_change_case() {
    for s in SAMPLES {
        assert_eq!(string_of(&ascii_lowered(&chars_of(s))), s.to_ascii_lowercase());
        assert_eq!(ascii_raised(s), s.to_ascii_uppercase());
    }
}

#[test]
fn last_occurrences_are_found() {
    assert_eq!(rfind_in(&chars_of("abab"), &chars_of("ab")), Some(2));
    assert_eq!(rfind_in(&chars_of("abab"), &chars_of("c")), None);
    assert_eq!(rfind_in(&chars_of("a"), &chars_of("ab")), None);
}

#[test]
fn texts_are_made_of_their_characters() {
    for s in SAMPLES {
        assert_eq!(text_of(&chars_of(s)), s);
    }
}

#[test]
fn numbers_are_read_as_std_does() {
    for s in [
        "", "0", "-0", "+0", "007", "+", "-", "--1", "1 ", "١", "9223372036854775807",
        "9223372036854775808", "-9223372036854775808", "-9223372036854775809",
        "000000000000000000000000012", "1e3",
    ] {
        assert_eq!(read_i64(&chars_of(s)), s.parse::<i64>().ok());
    }
}

#[test]
fn numbers_are_written_in_decimal() {
    for n in [0usize, 7, 10, 99, 100, 18_446_744_073_709_551_615] {
        assert_eq!(string_of(&write_decimal(n)), n.to_string());
    }
}
