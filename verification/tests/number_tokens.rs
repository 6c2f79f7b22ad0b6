//! The number-token grammar: exactly the texts a JSON writer may emit for a
//! number, cross-checked against a real JSON reader on the accepted side.

use edge_to_edge::models::check_number_token;

#[test]
fn accepts_the_texts_a_json_writer_emits() {
    let good = [
        "0", "-0", "9", "240", "1.5", "240.0", "-12.25", "0.001", "1e30", "-1e-2", "10.25E+3",
        "7e2",
    ];
    for t in good {
        assert!(check_number_token(t), "rejected {t}");
        assert!(serde_json::from_str::<f64>(t).is_ok(), "serde rejected {t}");
    }
}

#[test]
fn rejects_what_is_not_one_number() {
    let bad = [
        "", "-", "+5", "00", "01", "-01", "1.", ".5", "5e", "5e+", "1.5.5", "1,5", " 1", "1 ",
        "--1", "1e2e3", "1e", "e5", "abc", "0x10", "NaN", "null",
    ];
    for t in bad {
        assert!(!check_number_token(t), "accepted {t}");
    }
}
