use mozlog_json::drain::{AttrSource, LogError, MozLogJson, MozLogJsonBuilder, Record, Sink};
use mozlog_json::util::Level;
use mozlog_json::value::Value;

struct BufSink {
    buf: String,
}

impl Sink for BufSink {
    fn write_str(&mut self, s: &str) -> Result<(), ()> {
        self.buf.push_str(s);
        Ok(())
    }
}

fn record(msg: &str, level: Level, pairs: Vec<(String, Value)>) -> Record {
    Record {
        msg: String::from(msg),
        level,
        pairs,
    }
}

#[test]
fn scenario_example_line() {
    let drain = MozLogJson::new(BufSink { buf: String::new() })
        .logger_name(String::from("svc"))
        .pid(42)
        .build();
    let rec = record(
        "started",
        Level::Info,
        vec![(String::from("port"), Value::U16(8080))],
    );
    let out = drain.encode_log_text(&rec, &Vec::new(), 1234567890000000000);
    assert_eq!(
        out,
        "{\"Logger\":\"svc\",\"Timestamp\":1234567890000000000,\"Pid\":42,\"Severity\":6,\"Fields\":{\"msg\":\"started\",\"port\":8080}}"
    );
}

#[test]
fn log_at_writes_line_and_newline() {
    let mut drain = MozLogJson::new(BufSink { buf: String::new() })
        .logger_name(String::from("svc"))
        .pid(42)
        .build();
    let rec = record(
        "started",
        Level::Info,
        vec![(String::from("port"), Value::U16(8080))],
    );
    let r = drain.log_at(&rec, &Vec::new(), 1234567890000000000);
    assert!(r.is_ok());
    assert_eq!(
        drain.sink.buf,
        "{\"Logger\":\"svc\",\"Timestamp\":1234567890000000000,\"Pid\":42,\"Severity\":6,\"Fields\":{\"msg\":\"started\",\"port\":8080}}\n"
    );
}

#[test]
fn newlines_can_be_disabled() {
    let mut drain = MozLogJson::new(BufSink { buf: String::new() })
        .set_newlines(false)
        .pid(1)
        .build();
    let rec = record("m", Level::Info, Vec::new());
    drain.log_at(&rec, &Vec::new(), 5).unwrap();
    assert!(!drain.sink.buf.ends_with('\n'));
}

#[test]
fn envelope_order_with_all_static_fields() {
    let drain = MozLogJson::new(BufSink { buf: String::new() })
        .logger_name(String::from("log"))
        .msg_type(String::from("ty"))
        .hostname(String::from("host"))
        .pid(7)
        .build();
    let rec = record("hi", Level::Error, Vec::new());
    let out = drain.encode_log_text(&rec, &Vec::new(), 9);
    assert_eq!(
        out,
        "{\"Logger\":\"log\",\"Type\":\"ty\",\"Hostname\":\"host\",\"Timestamp\":9,\"Pid\":7,\"Severity\":3,\"Fields\":{\"msg\":\"hi\"}}"
    );
}

#[test]
fn custom_sources_come_first_in_attachment_order() {
    let drain = MozLogJson::new(BufSink { buf: String::new() })
        .add_key_value(AttrSource {
            pairs: vec![(String::from("a"), Value::U8(1))],
        })
        .add_key_value(AttrSource {
            pairs: vec![(String::from("b"), Value::Bool(true))],
        })
        .pid(1)
        .build();
    let rec = record("m", Level::Info, Vec::new());
    let out = drain.encode_log_text(&rec, &Vec::new(), 2);
    assert_eq!(
        out,
        "{\"a\":1,\"b\":true,\"Timestamp\":2,\"Pid\":1,\"Severity\":6,\"Fields\":{\"msg\":\"m\"}}"
    );
}

#[test]
fn fields_order_msg_then_logger_context_then_call_site() {
    let drain = MozLogJson::new(BufSink { buf: String::new() }).pid(1).build();
    let logger_values = vec![
        AttrSource {
            pairs: vec![
                (String::from("l1"), Value::U8(1)),
                (String::from("l2"), Value::U8(2)),
            ],
        },
        AttrSource {
            pairs: vec![(String::from("l3"), Value::U8(3))],
        },
    ];
    let rec = record(
        "m",
        Level::Info,
        vec![
            (String::from("c1"), Value::U8(4)),
            (String::from("l1"), Value::U8(5)),
        ],
    );
    let out = drain.encode_log_text(&rec, &logger_values, 0);
    assert_eq!(
        out,
        "{\"Timestamp\":0,\"Pid\":1,\"Severity\":6,\"Fields\":{\"msg\":\"m\",\"l1\":1,\"l2\":2,\"l3\":3,\"c1\":4,\"l1\":5}}"
    );
}

#[test]
fn scalar_values_render_as_json_scalars() {
    let drain = MozLogJson::new(BufSink { buf: String::new() }).pid(1).build();
    let rec = record(
        "m",
        Level::Info,
        vec![
            (String::from("t"), Value::Bool(true)),
            (String::from("f"), Value::Bool(false)),
            (String::from("u"), Value::Unit),
            (String::from("n"), Value::Absent),
            (String::from("c"), Value::Char('x')),
            (String::from("i"), Value::I64(-17)),
            (String::from("z"), Value::U64(0)),
            (String::from("min"), Value::I64(i64::MIN)),
            (String::from("max"), Value::U64(u64::MAX)),
            (String::from("s"), Value::Str(String::from("he\"llo"))),
        ],
    );
    let out = drain.encode_log_text(&rec, &Vec::new(), 0);
    assert_eq!(
        out,
        "{\"Timestamp\":0,\"Pid\":1,\"Severity\":6,\"Fields\":{\"msg\":\"m\",\"t\":true,\"f\":false,\"u\":null,\"n\":null,\"c\":\"x\",\"i\":-17,\"z\":0,\"min\":-9223372036854775808,\"max\":18446744073709551615,\"s\":\"he\\\"llo\"}}"
    );
}

#[test]
fn negative_timestamp_renders_with_sign() {
    let drain = MozLogJson::new(BufSink { buf: String::new() }).pid(1).build();
    let rec = record("m", Level::Info, Vec::new());
    let out = drain.encode_log_text(&rec, &Vec::new(), -5);
    assert!(out.contains("\"Timestamp\":-5,"));
}

#[test]
fn pretty_mode_matches_pretty_printer_layout() {
    let drain = MozLogJson::new(BufSink { buf: String::new() })
        .set_pretty(true)
        .pid(1)
        .build();
    let rec = record("m", Level::Info, Vec::new());
    let out = drain.encode_log_text(&rec, &Vec::new(), 5);
    assert_eq!(
        out,
        "{\n  \"Timestamp\": 5,\n  \"Pid\": 1,\n  \"Severity\": 6,\n  \"Fields\": {\n  \"msg\": \"m\"\n}}"
    );
}

#[test]
fn io_error_on_first_write_leaves_nothing() {
    struct FailingSink {
        buf: String,
        fail_at: usize,
        writes: usize,
    }
    impl Sink for FailingSink {
        fn write_str(&mut self, s: &str) -> Result<(), ()> {
            self.writes += 1;
            if self.writes >= self.fail_at {
                return Err(());
            }
            self.buf.push_str(s);
            Ok(())
        }
    }
    let mut drain = MozLogJson::new(FailingSink {
        buf: String::new(),
        fail_at: 1,
        writes: 0,
    })
    .pid(1)
    .build();
    let rec = record("m", Level::Info, Vec::new());
    let r = drain.log_at(&rec, &Vec::new(), 0);
    assert_eq!(r, Err(LogError::IoError));
    assert_eq!(drain.sink.buf, "");
    assert_eq!(drain.sink.writes, 1);
}

#[test]
fn io_error_on_second_write_stops_after_failure_point() {
    struct FailingSink {
        buf: String,
        fail_at: usize,
        writes: usize,
    }
    impl Sink for FailingSink {
        fn write_str(&mut self, s: &str) -> Result<(), ()> {
            self.writes += 1;
            if self.writes >= self.fail_at {
                return Err(());
            }
            self.buf.push_str(s);
            Ok(())
        }
    }
    let mut drain = MozLogJson::new(FailingSink {
        buf: String::new(),
        fail_at: 2,
        writes: 0,
    })
    .pid(1)
    .build();
    let rec = record("m", Level::Info, Vec::new());
    let r = drain.log_at(&rec, &Vec::new(), 0);
    assert_eq!(r, Err(LogError::IoError));
    assert_eq!(
        drain.sink.buf,
        "{\"Timestamp\":0,\"Pid\":1,\"Severity\":6,\"Fields\":{\"msg\":\"m\"}}"
    );
    assert!(!drain.sink.buf.ends_with('\n'));
}

#[test]
fn builder_new_defaults() {
    let b = MozLogJsonBuilder::new(BufSink { buf: String::new() });
    let d = b.build();
    assert!(d.newlines);
    assert!(!d.pretty);
    assert!(!d.gcp);
    assert_eq!(d.pid, 0);
    assert!(d.logger_name.is_none());
    assert!(d.msg_type.is_none());
    assert!(d.hostname.is_none());
    assert_eq!(d.values.len(), 0);
}

#[test]
fn default_encoder_writes_minimal_envelope() {
    let mut drain = MozLogJson::default(BufSink { buf: String::new() });
    let rec = record("m", Level::Info, Vec::new());
    drain.log_at(&rec, &Vec::new(), 3).unwrap();
    assert_eq!(
        drain.sink.buf,
        "{\"Timestamp\":3,\"Pid\":0,\"Severity\":6,\"Fields\":{\"msg\":\"m\"}}\n"
    );
}

#[test]
fn placeholder_serializes_without_escapes() {
    assert_eq!(
        mozlog_json::drain::placeholder_quoted(),
        "\"00PLACEHOLDER00\""
    );
}

#[test]
fn number_value_accepts_json_number_text() {
    assert!(matches!(mozlog_json::value::number_value(String::from("0")), Some(Value::Num(_))));
    assert!(matches!(mozlog_json::value::number_value(String::from("-0")), Some(Value::Num(_))));
    assert!(matches!(mozlog_json::value::number_value(String::from("3.25")), Some(Value::Num(_))));
    assert!(matches!(
        mozlog_json::value::number_value(String::from("-120.0625")),
        Some(Value::Num(_))
    ));
    assert!(matches!(
        mozlog_json::value::number_value(String::from("10000000000000000000000")),
        Some(Value::Num(_))
    ));
    assert!(mozlog_json::value::number_value(String::from("")).is_none());
    assert!(mozlog_json::value::number_value(String::from("-")).is_none());
    assert!(mozlog_json::value::number_value(String::from("NaN")).is_none());
    assert!(mozlog_json::value::number_value(String::from("inf")).is_none());
    assert!(mozlog_json::value::number_value(String::from("01")).is_none());
    assert!(mozlog_json::value::number_value(String::from("1.")).is_none());
    assert!(mozlog_json::value::number_value(String::from(".5")).is_none());
    assert!(mozlog_json::value::number_value(String::from("1.2.3")).is_none());
    assert!(mozlog_json::value::number_value(String::from("1x")).is_none());
}

#[test]
fn number_values_serialize_unquoted() {
    let drain = MozLogJson::new(BufSink { buf: String::new() }).pid(1).build();
    let f = mozlog_json::value::number_value(String::from("3.25")).unwrap();
    let rec = record("m", Level::Info, vec![(String::from("ratio"), f)]);
    let out = drain.encode_log_text(&rec, &Vec::new(), 0);
    assert_eq!(
        out,
        "{\"Timestamp\":0,\"Pid\":1,\"Severity\":6,\"Fields\":{\"msg\":\"m\",\"ratio\":3.25}}"
    );
}
