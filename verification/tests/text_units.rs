use table_qa::text::{format_count, is_numeric, trim};

#[test]
fn numeric_recognition_matches_float_parsing() {
    let cases = [
        "1", "-1", "+1", "1.", "1.5", ".5", "-.5", "+.5", ".", "", "+", "-", "1e3", "1E3",
        "1e+3", "1e-3", "1.e3", ".5e-2", "1e", "e3", "1e+", "5e", "1.2.3", "inf", "INF", "Inf",
        "-inf", "+inf", "infinity", "Infinity", "-INFINITY", "nan", "NaN", "NAN", "-nan",
        "nana", "infin", "1,000", "1_000", "$5", "5%", " 1", "1 ", "0x10", "12abc", "abc",
        "--1", "++1", "1-", "0", "007", "9999999999999999999999999999e9999",
    ];
    for case in cases {
        assert_eq!(
            is_numeric(case),
            case.parse::<f64>().is_ok(),
            "disagreement on {:?}",
            case
        );
    }
}

#[test]
fn trimming_matches_standard_trim() {
    let cases = [
        "", " ", "  a  ", "\t1.5\n", "a b", " a b ", "\u{3000}x\u{a0}", "\u{2028}\u{2029}",
        "no-ws", " \r\n mixed \u{205f}", "\u{1680}\u{2000}\u{200a}y",
    ];
    for case in cases {
        assert_eq!(trim(case), case.trim(), "disagreement on {:?}", case);
    }
}

#[test]
fn counts_format_as_plain_integers() {
    assert_eq!(format_count(0), "0");
    assert_eq!(format_count(7), "7");
    assert_eq!(format_count(10), "10");
    assert_eq!(format_count(12345), "12345");
    assert_eq!(format_count(1000000), "1000000");
}
