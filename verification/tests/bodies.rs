//! The bodies the components put on the bus, and the decimal text of a total.

use brenn_component_demo::body::{decimal_text, state_body, total_body};

#[test]
fn decimal_text_of_edge_values() {
    assert_eq!(decimal_text(0), "0");
    assert_eq!(decimal_text(7), "7");
    assert_eq!(decimal_text(9), "9");
    assert_eq!(decimal_text(10), "10");
    assert_eq!(decimal_text(100), "100");
    assert_eq!(decimal_text(1234567890), "1234567890");
    assert_eq!(decimal_text(u64::MAX), u64::MAX.to_string());
}

#[test]
fn decimal_text_agrees_with_std_on_a_sweep() {
    let mut n: u64 = 1;
    while n < u64::MAX / 3 {
        assert_eq!(decimal_text(n), n.to_string());
        assert_eq!(decimal_text(n - 1), (n - 1).to_string());
        n = n * 3 + 1;
    }
}

#[test]
fn total_body_is_the_doctype_body() {
    assert_eq!(total_body(0), r#"{"total":0}"#);
    assert_eq!(total_body(42), r#"{"total":42}"#);
    assert_eq!(total_body(u64::MAX), format!(r#"{{"total":{}}}"#, u64::MAX));
}

#[test]
fn total_body_is_what_serde_json_writes_for_the_total_object() {
    for n in [0u64, 1, 9, 10, 99, 12345, u64::MAX] {
        let mut object = serde_json::Map::new();
        object.insert("total".to_string(), serde_json::Value::from(n));
        let written = serde_json::to_string(&serde_json::Value::Object(object)).unwrap();
        assert_eq!(total_body(n), written);
    }
}

#[test]
fn total_body_reads_back_as_its_total() {
    for n in [0u64, 3, 5, 6, 4096, u64::MAX] {
        let value: serde_json::Value = serde_json::from_str(&total_body(n)).unwrap();
        assert_eq!(value.get("total").and_then(|t| t.as_u64()), Some(n));
    }
}

#[test]
fn different_totals_publish_different_bodies() {
    let bodies: Vec<String> = (0u64..200).map(total_body).collect();
    for i in 0..bodies.len() {
        for j in (i + 1)..bodies.len() {
            assert_ne!(bodies[i], bodies[j]);
        }
    }
}

#[test]
fn state_body_names_the_display() {
    assert_eq!(state_body(0), r#"{"display":0}"#);
    assert_eq!(state_body(4096), r#"{"display":4096}"#);
    let value: serde_json::Value = serde_json::from_str(&state_body(17)).unwrap();
    assert_eq!(value.get("display").and_then(|d| d.as_u64()), Some(17));
}
