use std::cell::Cell;

use mozlog_json::drain::{gcp_from_env_value, AttrSource, MozLogJson, Record, Sink};
use mozlog_json::util::{level_to_gcp_severity, level_to_severity, Level};
use mozlog_json::value::Value;

struct BufSink {
    buf: String,
}

impl Sink for BufSink {
    fn write_str(&mut self, s: &str) -> Result<(), ()> {
        self.buf.push_str(s);
        Ok(())
    }
}

fn record(msg: &str, level: Level, pairs: Vec<(String, Value)>) -> Record {
    Record {
        msg: String::from(msg),
        level,
        pairs,
    }
}

#[test]
fn severity_table_mozlog() {
    assert_eq!(level_to_severity(Level::Critical), 2);
    assert_eq!(level_to_severity(Level::Error), 3);
    assert_eq!(level_to_severity(Level::Warning), 4);
    assert_eq!(level_to_severity(Level::Info), 6);
    assert_eq!(level_to_severity(Level::Debug), 7);
    assert_eq!(level_to_severity(Level::Trace), 7);
}

#[test]
fn severity_table_gcp() {
    assert_eq!(level_to_gcp_severity(Level::Critical), 600);
    assert_eq!(level_to_gcp_severity(Level::Error), 500);
    assert_eq!(level_to_gcp_severity(Level::Warning), 400);
    assert_eq!(level_to_gcp_severity(Level::Info), 200);
    assert_eq!(level_to_gcp_severity(Level::Debug), 100);
    assert_eq!(level_to_gcp_severity(Level::Trace), 100);
}

#[test]
fn gcp_toggle_parsing() {
    assert!(gcp_from_env_value(&Some(String::from("true"))));
    assert!(!gcp_from_env_value(&Some(String::from("false"))));
    assert!(!gcp_from_env_value(&Some(String::from("TRUE"))));
    assert!(!gcp_from_env_value(&Some(String::from(""))));
    assert!(!gcp_from_env_value(&None));
}

#[test]
fn gcp_mode_uses_lowercase_severity_key_and_gcp_scale() {
    let drain = MozLogJson::new(BufSink { buf: String::new() })
        .enable_gcp()
        .pid(1)
        .build();
    let rec = record("m", Level::Info, Vec::new());
    let out = drain.encode_log_text(&rec, &Vec::new(), 0);
    assert_eq!(
        out,
        "{\"Timestamp\":0,\"Pid\":1,\"severity\":200,\"Fields\":{\"msg\":\"m\"}}"
    );
    assert!(out.contains("\"severity\":200"));
    assert!(!out.contains("\"Severity\""));
}

#[test]
fn mozlog_mode_uses_capital_severity_key_and_mozlog_scale() {
    let drain = MozLogJson::new(BufSink { buf: String::new() }).pid(1).build();
    let rec = record("m", Level::Warning, Vec::new());
    let out = drain.encode_log_text(&rec, &Vec::new(), 0);
    assert!(out.contains("\"Severity\":4"));
    assert!(!out.contains("\"severity\""));
}

#[test]
fn identical_configurations_give_byte_identical_output() {
    let build = || {
        MozLogJson::new(BufSink { buf: String::new() })
            .logger_name(String::from("svc"))
            .hostname(String::from("h"))
            .pid(42)
            .add_key_value(AttrSource {
                pairs: vec![(String::from("v"), Value::Str(String::from("1.0")))],
            })
            .build()
    };
    let a = build();
    let b = build();
    let rec = record("same", Level::Debug, vec![(String::from("k"), Value::I32(-3))]);
    let lv = vec![AttrSource {
        pairs: vec![(String::from("ctx"), Value::Bool(false))],
    }];
    let out_a = a.encode_log_text(&rec, &lv, 777);
    let out_b = b.encode_log_text(&rec, &lv, 777);
    assert_eq!(out_a, out_b);
}

#[test]
fn splice_result_parses_as_json_with_expected_keys() {
    let drain = MozLogJson::new(BufSink { buf: String::new() })
        .logger_name(String::from("svc"))
        .msg_type(String::from("t"))
        .pid(9)
        .build();
    let rec = record(
        "hello \"quoted\" \\ text",
        Level::Error,
        vec![(String::from("k"), Value::Str(String::from("v\nwith\tescapes")))],
    );
    let lv = vec![AttrSource {
        pairs: vec![(String::from("ctx"), Value::U64(5))],
    }];
    let out = drain.encode_log_text(&rec, &lv, 123456789);
    let parsed: serde_json::Value = serde_json::from_str(&out).unwrap();
    let obj = parsed.as_object().unwrap();
    let mut keys: Vec<&str> = obj.keys().map(|k| k.as_str()).collect();
    keys.sort();
    assert_eq!(
        keys,
        vec!["Fields", "Logger", "Pid", "Severity", "Timestamp", "Type"]
    );
    assert_eq!(obj["Logger"], serde_json::Value::String(String::from("svc")));
    assert_eq!(obj["Pid"], serde_json::Value::from(9u32));
    assert_eq!(obj["Severity"], serde_json::Value::from(3u8));
    assert_eq!(obj["Timestamp"], serde_json::Value::from(123456789i64));
    let fields = obj["Fields"].as_object().unwrap();
    assert_eq!(fields.len(), 3);
    assert_eq!(
        fields["msg"],
        serde_json::Value::String(String::from("hello \"quoted\" \\ text"))
    );
    assert_eq!(fields["ctx"], serde_json::Value::from(5u64));
    assert_eq!(
        fields["k"],
        serde_json::Value::String(String::from("v\nwith\tescapes"))
    );
}

#[test]
fn pretty_splice_parses_as_json_too() {
    let drain = MozLogJson::new(BufSink { buf: String::new() })
        .set_pretty(true)
        .pid(2)
        .build();
    let rec = record("m", Level::Info, vec![(String::from("a"), Value::U8(1))]);
    let out = drain.encode_log_text(&rec, &Vec::new(), 4);
    let parsed: serde_json::Value = serde_json::from_str(&out).unwrap();
    let obj = parsed.as_object().unwrap();
    assert_eq!(obj["Fields"]["a"], serde_json::Value::from(1u8));
}

#[test]
fn lazy_value_evaluated_exactly_once_per_log_call() {
    let counter = Cell::new(0u32);
    let render = || {
        counter.set(counter.get() + 1);
        format!("render-{}", counter.get())
    };
    let mut drain = MozLogJson::new(BufSink { buf: String::new() }).pid(1).build();
    let rec = record("m", Level::Info, Vec::new());
    let lazy = vec![(String::from("lazy"), render)];

    drain.log_at_lazy(&rec, &Vec::new(), &lazy, 0).unwrap();
    assert_eq!(counter.get(), 1);
    assert!(drain.sink.buf.contains("\"lazy\":\"render-1\""));

    let before = drain.sink.buf.len();
    drain.log_at_lazy(&rec, &Vec::new(), &lazy, 0).unwrap();
    assert_eq!(counter.get(), 2);
    let second = &drain.sink.buf[before..];
    assert!(second.contains("\"lazy\":\"render-2\""));
    assert!(!second.contains("render-1"));
}

#[test]
fn duplicate_keys_are_preserved_not_merged() {
    let drain = MozLogJson::new(BufSink { buf: String::new() }).pid(1).build();
    let rec = record(
        "m",
        Level::Info,
        vec![
            (String::from("k"), Value::U8(1)),
            (String::from("k"), Value::U8(2)),
        ],
    );
    let out = drain.encode_log_text(&rec, &Vec::new(), 0);
    assert!(out.contains("\"k\":1,\"k\":2"));
}

#[test]
fn message_containing_placeholder_text_is_carried_as_content() {
    let drain = MozLogJson::new(BufSink { buf: String::new() }).pid(1).build();
    let rec = record("before 00PLACEHOLDER00 after", Level::Info, Vec::new());
    let out = drain.encode_log_text(&rec, &Vec::new(), 0);
    assert!(out.contains("before 00PLACEHOLDER00 after"));
}

#[test]
fn placeholder_collision_in_envelope_replaces_both_occurrences() {
    // The splice substitutes every occurrence of the quoted marker in the
    // envelope pass, so a configured string equal to the marker is also
    // replaced - the price of the textual substitution strategy.
    let drain = MozLogJson::new(BufSink { buf: String::new() })
        .logger_name(String::from("00PLACEHOLDER00"))
        .pid(1)
        .build();
    let rec = record("m", Level::Info, Vec::new());
    let out = drain.encode_log_text(&rec, &Vec::new(), 0);
    assert_eq!(
        out,
        "{\"Logger\":{\"msg\":\"m\",\"Timestamp\":0,\"Pid\":1,\"Severity\":6,\"Fields\":{\"msg\":\"m\"}}"
    );
}

#[test]
fn builder_configuration_is_order_independent() {
    let a = MozLogJson::new(BufSink { buf: String::new() })
        .set_pretty(true)
        .pid(3)
        .logger_name(String::from("x"))
        .build();
    let b = MozLogJson::new(BufSink { buf: String::new() })
        .logger_name(String::from("x"))
        .pid(3)
        .set_pretty(true)
        .build();
    let rec = record("m", Level::Info, Vec::new());
    assert_eq!(
        a.encode_log_text(&rec, &Vec::new(), 1),
        b.encode_log_text(&rec, &Vec::new(), 1)
    );
}

#[test]
fn log_uses_the_current_clock() {
    let mut drain = MozLogJson::new(BufSink { buf: String::new() }).pid(1).build();
    let rec = record("m", Level::Info, Vec::new());
    assert!(drain.log(&rec, &Vec::new()).is_ok());
    let line = drain.sink.buf.trim_end();
    let parsed: serde_json::Value = serde_json::from_str(line).unwrap();
    assert!(parsed["Timestamp"].is_i64());
    assert!(parsed["Timestamp"].as_i64().unwrap() > 0);
}
