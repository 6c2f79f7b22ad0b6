//! The wire encoding: camelCase keys, exact texts, and round trips that
//! reproduce the record, cross-checked against a real JSON reader.

use edge_to_edge::Error;
use edge_to_edge::KeyboardInfo;
use edge_to_edge::SafeAreaInsets;
use edge_to_edge::wire::decode_keyboard_info;
use edge_to_edge::wire::decode_safe_area_insets;
use edge_to_edge::wire::encode_keyboard_info;
use edge_to_edge::wire::encode_safe_area_insets;

fn token_of(x: f64) -> String {
    serde_json::to_string(&x).unwrap()
}

#[test]
fn insets_encode_exact_text() {
    let v = SafeAreaInsets {
        top: token_of(1.5),
        right: token_of(2.5),
        bottom: token_of(3.5),
        left: token_of(4.5),
    };
    let s = encode_safe_area_insets(&v).unwrap();
    assert_eq!(s, "{\"top\":1.5,\"right\":2.5,\"bottom\":3.5,\"left\":4.5}");
}

#[test]
fn insets_round_trip() {
    let v = SafeAreaInsets {
        top: token_of(1.5),
        right: token_of(2.5),
        bottom: token_of(3.5),
        left: token_of(4.5),
    };
    let s = encode_safe_area_insets(&v).unwrap();
    let back = decode_safe_area_insets(&s).unwrap();
    assert_eq!(back.top, v.top);
    assert_eq!(back.right, v.right);
    assert_eq!(back.bottom, v.bottom);
    assert_eq!(back.left, v.left);
    assert_eq!(serde_json::from_str::<f64>(&back.top).unwrap(), 1.5);
    assert_eq!(serde_json::from_str::<f64>(&back.right).unwrap(), 2.5);
    assert_eq!(serde_json::from_str::<f64>(&back.bottom).unwrap(), 3.5);
    assert_eq!(serde_json::from_str::<f64>(&back.left).unwrap(), 4.5);
}

#[test]
fn insets_text_is_json_with_camel_case_keys() {
    let v = SafeAreaInsets {
        top: token_of(1.5),
        right: token_of(2.5),
        bottom: token_of(3.5),
        left: token_of(4.5),
    };
    let s = encode_safe_area_insets(&v).unwrap();
    let parsed: serde_json::Value = serde_json::from_str(&s).unwrap();
    assert_eq!(parsed["top"].as_f64().unwrap(), 1.5);
    assert_eq!(parsed["right"].as_f64().unwrap(), 2.5);
    assert_eq!(parsed["bottom"].as_f64().unwrap(), 3.5);
    assert_eq!(parsed["left"].as_f64().unwrap(), 4.5);
}

#[test]
fn default_insets_encode_as_zero_object() {
    let s = encode_safe_area_insets(&SafeAreaInsets::default()).unwrap();
    assert_eq!(s, "{\"top\":0.0,\"right\":0.0,\"bottom\":0.0,\"left\":0.0}");
    let parsed: serde_json::Value = serde_json::from_str(&s).unwrap();
    assert_eq!(parsed["top"].as_f64().unwrap(), 0.0);
}

#[test]
fn keyboard_encode_exact_text() {
    let v = KeyboardInfo { keyboard_height: token_of(240.0), is_visible: true };
    let s = encode_keyboard_info(&v).unwrap();
    assert_eq!(s, "{\"keyboardHeight\":240.0,\"isVisible\":true}");
}

#[test]
fn keyboard_round_trip() {
    let v = KeyboardInfo { keyboard_height: token_of(240.0), is_visible: true };
    let s = encode_keyboard_info(&v).unwrap();
    let back = decode_keyboard_info(&s).unwrap();
    assert_eq!(back.keyboard_height, v.keyboard_height);
    assert_eq!(back.is_visible, v.is_visible);
    assert_eq!(serde_json::from_str::<f64>(&back.keyboard_height).unwrap(), 240.0);
    let hidden = KeyboardInfo { keyboard_height: token_of(0.0), is_visible: false };
    let s2 = encode_keyboard_info(&hidden).unwrap();
    let back2 = decode_keyboard_info(&s2).unwrap();
    assert_eq!(back2.keyboard_height, "0.0");
    assert!(!back2.is_visible);
}

#[test]
fn keyboard_text_is_json_with_camel_case_keys() {
    let v = KeyboardInfo { keyboard_height: token_of(240.0), is_visible: true };
    let s = encode_keyboard_info(&v).unwrap();
    let parsed: serde_json::Value = serde_json::from_str(&s).unwrap();
    assert_eq!(parsed["keyboardHeight"].as_f64().unwrap(), 240.0);
    assert_eq!(parsed["isVisible"].as_bool().unwrap(), true);
}

#[test]
fn negative_and_exponent_tokens_round_trip() {
    let v = SafeAreaInsets {
        top: token_of(-12.25),
        right: token_of(1e30),
        bottom: token_of(0.0),
        left: token_of(33.0),
    };
    let s = encode_safe_area_insets(&v).unwrap();
    let back = decode_safe_area_insets(&s).unwrap();
    assert_eq!(back.top, v.top);
    assert_eq!(back.right, v.right);
    assert_eq!(back.bottom, v.bottom);
    assert_eq!(back.left, v.left);
}

#[test]
fn encode_rejects_a_field_that_is_no_number() {
    let v = SafeAreaInsets {
        top: String::from("abc"),
        right: token_of(0.0),
        bottom: token_of(0.0),
        left: token_of(0.0),
    };
    let e = encode_safe_area_insets(&v).unwrap_err();
    assert!(matches!(e, Error::Serialization { .. }));
    let k = KeyboardInfo { keyboard_height: String::new(), is_visible: false };
    let e2 = encode_keyboard_info(&k).unwrap_err();
    assert!(matches!(e2, Error::Serialization { .. }));
}

#[test]
fn decode_rejects_malformed_texts() {
    let bad = [
        "",
        "{}",
        "nonsense",
        "{\"top\":1.5,\"right\":2.5,\"bottom\":3.5,\"left\":4.5",
        "{\"top\":1.5,\"right\":2.5,\"bottom\":3.5,\"left\":4.5}extra",
        "{\"top\":,\"right\":2.5,\"bottom\":3.5,\"left\":4.5}",
        "{\"top\":abc,\"right\":2.5,\"bottom\":3.5,\"left\":4.5}",
        "{\"top\":01,\"right\":2.5,\"bottom\":3.5,\"left\":4.5}",
        "{\"top\":1.,\"right\":2.5,\"bottom\":3.5,\"left\":4.5}",
        "{\"left\":4.5,\"top\":1.5,\"right\":2.5,\"bottom\":3.5}",
        "{\"top\": 1.5,\"right\":2.5,\"bottom\":3.5,\"left\":4.5}",
    ];
    for s in bad {
        let e = decode_safe_area_insets(s).unwrap_err();
        assert!(matches!(e, Error::Serialization { .. }));
    }
}

#[test]
fn decode_rejects_malformed_keyboard_texts() {
    let bad = [
        "",
        "{\"keyboardHeight\":240.0}",
        "{\"keyboardHeight\":240.0,\"isVisible\":maybe}",
        "{\"keyboardHeight\":240.0,\"isVisible\":true",
        "{\"keyboardHeight\":240.0,\"isVisible\":false}}",
        "{\"isVisible\":true,\"keyboardHeight\":240.0}",
    ];
    for s in bad {
        let e = decode_keyboard_info(s).unwrap_err();
        assert!(matches!(e, Error::Serialization { .. }));
    }
}

#[test]
fn decode_reads_a_literal_text() {
    let v = decode_safe_area_insets("{\"top\":0.0,\"right\":16.5,\"bottom\":-1e-2,\"left\":7.0}")
        .unwrap();
    assert_eq!(v.top, "0.0");
    assert_eq!(v.right, "16.5");
    assert_eq!(v.bottom, "-1e-2");
    assert_eq!(v.left, "7.0");
    let k = decode_keyboard_info("{\"keyboardHeight\":320.5,\"isVisible\":false}").unwrap();
    assert_eq!(k.keyboard_height, "320.5");
    assert!(!k.is_visible);
}

#[test]
fn error_carries_its_message() {
    let e = decode_safe_area_insets("nonsense").unwrap_err();
    assert!(!e.message().is_empty());
}
