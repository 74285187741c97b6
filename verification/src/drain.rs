//! The envelope encoder: configuration, the two-pass protocol that writes
//! one JSON object per log event, and the sink interface.

use vstd::prelude::*;
use crate::json::{
    json_str_of, push_entry, push_pairs, render_pairs, spec_entries, spec_entry, spec_map_text,
};
use crate::json::{json_quote, plain_json_char};
use crate::splice::{placeholder_text, quoted_placeholder, spec_splice, splice_fields};
use crate::util::{level_to_gcp_severity, level_to_severity, spec_gcp_severity, spec_severity, Level};
use crate::value::{clone_value, spec_dec_int, spec_dec_nat, Value};

verus! {

/// Why a log call failed: the event could not be represented in the output
/// format, or the sink rejected the write.
#[derive(Clone, Copy, PartialEq, Eq, Structural, Debug)]
pub enum LogError {
    EncodeError,
    IoError,
}

/// An output sink for encoded log lines, implemented by the surrounding
/// program (a file, a socket, a test buffer).
pub trait Sink {
    /// The text the sink has accepted so far, in the sink's own model of
    /// itself. The library's guarantees about written content hold only of
    /// implementations whose model is faithful to their writes; under the
    /// default — the empty text — `write_str`'s contract is satisfiable
    /// only by failing every write of nonempty text.
    open spec fn content(&self) -> Seq<char> {
        Seq::<char>::empty()
    }

    /// Writes `s` after everything written before; on failure the event is
    /// abandoned by the caller.
    fn write_str(&mut self, s: &str) -> (r: Result<(), ()>)
        ensures
            r is Ok ==> final(self).content() == old(self).content() + s@,
    ;
}

/// An ordered, immutable provider of key-value pairs attached at one point
/// of a logger hierarchy. Keys are not deduplicated: a later pair with the
/// same key simply stands later in the output object.
pub struct AttrSource {
    pub pairs: Vec<(String, Value)>,
}

/// One log event: message text, severity level, and the call-site
/// key-value pairs in call order.
pub struct Record {
    pub msg: String,
    pub level: Level,
    pub pairs: Vec<(String, Value)>,
}

/// The rendered key/value-text pairs of a run of attribute sources, in
/// attachment order, duplicates preserved.
pub open spec fn spec_sources_pairs(values: Seq<AttrSource>) -> Seq<(Seq<char>, Seq<char>)>
    decreases values.len(),
{
    if values.len() == 0 {
        Seq::empty()
    } else {
        render_pairs(values[0].pairs@) + spec_sources_pairs(values.drop_first())
    }
}

/// Attribute sources render source by source, in order.
pub proof fn lemma_sources_concat(a: Seq<AttrSource>, b: Seq<AttrSource>)
    ensures
        spec_sources_pairs(a + b) == spec_sources_pairs(a) + spec_sources_pairs(b),
    decreases a.len(),
{
    if a.len() == 0 {
        assert(a + b =~= b);
        assert(spec_sources_pairs(a) + spec_sources_pairs(b) =~= spec_sources_pairs(b));
    } else {
        assert((a + b)[0] == a[0]);
        assert((a + b).drop_first() =~= a.drop_first() + b);
        lemma_sources_concat(a.drop_first(), b);
        assert(spec_sources_pairs(a + b) =~= spec_sources_pairs(a) + spec_sources_pairs(b));
    }
}

/// One attribute source renders to its own pairs.
pub proof fn lemma_sources_singleton(src: AttrSource)
    ensures
        spec_sources_pairs(seq![src]) == render_pairs(src.pairs@),
{
    let single = seq![src];
    assert(single.drop_first() =~= Seq::<AttrSource>::empty());
    assert(spec_sources_pairs(single.drop_first()) =~= Seq::<(Seq<char>, Seq<char>)>::empty());
    assert(spec_sources_pairs(single) =~= render_pairs(src.pairs@) + Seq::<
        (Seq<char>, Seq<char>),
    >::empty());
    assert(render_pairs(src.pairs@) + Seq::<(Seq<char>, Seq<char>)>::empty() =~= render_pairs(
        src.pairs@,
    ));
}

/// The optional envelope entry an optional configuration string produces.
pub open spec fn spec_opt_entry(key: Seq<char>, v: Option<String>) -> Seq<(Seq<char>, Seq<char>)> {
    match v {
        Option::Some(s) => seq![(key, json_str_of(s@))],
        Option::None => Seq::empty(),
    }
}

/// The severity entry: MozLog `Severity` or GCP `severity`, by the mode.
pub open spec fn spec_severity_pair(gcp: bool, level: Level) -> (Seq<char>, Seq<char>) {
    if gcp {
        ("severity"@, spec_dec_nat(spec_gcp_severity(level) as nat))
    } else {
        ("Severity"@, spec_dec_nat(spec_severity(level) as nat))
    }
}

/// The JSON encoder: owns the sink and the static attribute sources, and
/// writes one JSON object per log event.
pub struct MozLogJson<S: Sink> {
    pub sink: S,
    pub newlines: bool,
    pub pretty: bool,
    pub gcp: bool,
    pub pid: u32,
    pub logger_name: Option<String>,
    pub msg_type: Option<String>,
    pub hostname: Option<String>,
    pub values: Vec<AttrSource>,
}

/// The static run of the envelope: custom sources in attachment order,
/// then Logger, Type and Hostname where configured.
pub open spec fn spec_static_pairs<S: Sink>(d: MozLogJson<S>) -> Seq<(Seq<char>, Seq<char>)> {
    spec_sources_pairs(d.values@) + spec_opt_entry("Logger"@, d.logger_name) + spec_opt_entry(
        "Type"@,
        d.msg_type,
    ) + spec_opt_entry("Hostname"@, d.hostname)
}

/// The envelope's rendered pairs, in configuration order: the static run,
/// then Timestamp, Pid and the severity entry.
pub open spec fn spec_envelope_pairs<S: Sink>(d: MozLogJson<S>, ts: i64, level: Level) -> Seq<
    (Seq<char>, Seq<char>),
> {
    spec_static_pairs(d) + seq![
        ("Timestamp"@, spec_dec_int(ts as int)),
        ("Pid"@, spec_dec_nat(d.pid as nat)),
    ] + seq![spec_severity_pair(d.gcp, level)]
}

/// The envelope-pass text: the full envelope object with the quoted
/// placeholder in the `Fields` value position.
pub open spec fn spec_placeholder_payload<S: Sink>(d: MozLogJson<S>, ts: i64, level: Level) -> Seq<
    char,
> {
    spec_map_text(
        spec_envelope_pairs(d, ts, level) + seq![("Fields"@, json_str_of(placeholder_text()))],
        d.pretty,
    )
}

/// The fields-pass pairs: the message entry, then the logger-context
/// sources in attachment order, then the call-site pairs in call order.
pub open spec fn spec_fields_pairs(
    msg: Seq<char>,
    logger_values: Seq<AttrSource>,
    call_pairs: Seq<(String, Value)>,
) -> Seq<(Seq<char>, Seq<char>)> {
    seq![("msg"@, json_str_of(msg))] + spec_sources_pairs(logger_values) + render_pairs(call_pairs)
}

/// The fields-pass text: an opened map over the fields pairs that is never
/// closed — the envelope's own closing brace closes it after the splice.
pub open spec fn spec_fields_text(
    msg: Seq<char>,
    logger_values: Seq<AttrSource>,
    call_pairs: Seq<(String, Value)>,
    pretty: bool,
) -> Seq<char> {
    seq!['{'] + spec_entries(spec_fields_pairs(msg, logger_values, call_pairs), pretty, true)
}

/// The spliced log text for one event, without the trailing newline.
pub open spec fn spec_log_text<S: Sink>(
    d: MozLogJson<S>,
    rec: Record,
    logger_values: Seq<AttrSource>,
    ts: i64,
) -> Seq<char> {
    spec_splice(
        spec_placeholder_payload(d, ts, rec.level),
        spec_fields_text(rec.msg@, logger_values, rec.pairs@, d.pretty),
    )
}

/// Everything the sink receives for one event: the spliced text, and one
/// newline when the encoder is configured to write them.
pub open spec fn spec_log_line<S: Sink>(
    d: MozLogJson<S>,
    rec: Record,
    logger_values: Seq<AttrSource>,
    ts: i64,
) -> Seq<char> {
    spec_log_text(d, rec, logger_values, ts) + if d.newlines {
        seq!['\n']
    } else {
        Seq::<char>::empty()
    }
}

/// Appends the entry an optional configuration string produces, if any.
fn push_opt_entry(
    out: &mut String,
    key: &str,
    v: &Option<String>,
    pretty: bool,
    first: bool,
) -> (still_first: bool)
    ensures
        final(out)@ == old(out)@ + spec_entries(spec_opt_entry(key@, *v), pretty, first),
        still_first == (first && v is None),
{
    match v {
        Option::Some(name) => {
            let val = Value::Str(name.clone());
            push_entry(out, key, &val, pretty, first);
            proof {
                crate::json::lemma_entries_singleton((key@, json_str_of(name@)), pretty, first);
                assert(spec_opt_entry(key@, *v) =~= seq![(key@, json_str_of(name@))]);
            }
            false
        },
        Option::None => {
            proof {
                assert(old(out)@ + spec_entries(spec_opt_entry(key@, *v), pretty, first)
                    =~= old(out)@);
            }
            first
        },
    }
}

/// Appends one map entry per pair of every source, source by source.
fn push_sources(
    out: &mut String,
    values: &Vec<AttrSource>,
    pretty: bool,
    first: bool,
) -> (still_first: bool)
    ensures
        final(out)@ == old(out)@ + spec_entries(spec_sources_pairs(values@), pretty, first),
        still_first == (first && spec_sources_pairs(values@).len() == 0),
{
    let ghost base = old(out)@;
    let ghost mut done: Seq<(Seq<char>, Seq<char>)> = Seq::empty();
    proof {
        assert(out@ =~= base + spec_entries(done, pretty, first));
    }
    let mut cur = first;
    let mut i: usize = 0;
    while i < values.len()
        invariant
            i <= values.len(),
            done == spec_sources_pairs(values@.take(i as int)),
            out@ == base + spec_entries(done, pretty, first),
            cur == (first && done.len() == 0),
        decreases values.len() - i,
    {
        let src = &values[i];
        let ghost part = render_pairs(src.pairs@);
        let still = push_pairs(out, &src.pairs, pretty, cur);
        proof {
            crate::json::lemma_entries_concat(done, part, pretty, first);
            assert(values@.take(i + 1 as int) =~= values@.take(i as int) + seq![
                values@[i as int],
            ]);
            lemma_sources_concat(values@.take(i as int), seq![values@[i as int]]);
            lemma_sources_singleton(values@[i as int]);
            done = done + part;
            assert(out@ =~= base + spec_entries(done, pretty, first));
        }
        cur = still;
        i = i + 1;
    }
    proof {
        assert(values@.take(values@.len() as int) =~= values@);
    }
    cur
}

/// The placeholder marker as an owned string.
fn placeholder_string() -> (r: String)
    ensures
        r@ == placeholder_text(),
{
    let r = String::from_str("00PLACEHOLDER00");
    proof {
        reveal_strlit("00PLACEHOLDER00");
        assert(r@ =~= placeholder_text());
    }
    r
}

/// Observes how the backend serializes the placeholder marker: all its
/// characters pass the escaper unchanged, so its serialization is exactly
/// the quoted marker that the splice later searches for.
pub fn placeholder_quoted() -> (r: String)
    ensures
        r@ == quoted_placeholder(),
        json_str_of(placeholder_text()) == quoted_placeholder(),
{
    let ph = placeholder_string();
    let q = json_quote(ph.as_str());
    proof {
        assert(forall|i: int|
            0 <= i < placeholder_text().len() ==> plain_json_char(#[trigger] placeholder_text()[i]));
        assert(q@ =~= quoted_placeholder());
    }
    q
}

impl<S: Sink> MozLogJson<S> {
    /// Pass 1: serializes the envelope, with the quoted placeholder
    /// standing in the `Fields` value position.
    #[verifier::rlimit(100)]
    pub fn encode_placeholder(&self, level: Level, ts: i64) -> (r: String)
        ensures
            r@ == spec_placeholder_payload(*self, ts, level),
    {
        let pretty = self.pretty;
        let mut out = String::new();
        proof {
            reveal_strlit("{");
        }
        out.append("{");
        let ghost base = seq!['{'];
        let ghost mut done: Seq<(Seq<char>, Seq<char>)> = Seq::empty();
        let first1 = push_sources(&mut out, &self.values, pretty, true);
        proof {
            done = spec_sources_pairs(self.values@);
            assert(out@ =~= base + spec_entries(done, pretty, true));
        }
        let first2 = push_opt_entry(&mut out, "Logger", &self.logger_name, pretty, first1);
        proof {
            crate::json::lemma_entries_concat(
                done,
                spec_opt_entry("Logger"@, self.logger_name),
                pretty,
                true,
            );
            vstd::seq_lib::lemma_concat_associative(
                base,
                spec_entries(done, pretty, true),
                spec_entries(spec_opt_entry("Logger"@, self.logger_name), pretty, first1),
            );
            done = done + spec_opt_entry("Logger"@, self.logger_name);
        }
        let first3 = push_opt_entry(&mut out, "Type", &self.msg_type, pretty, first2);
        proof {
            crate::json::lemma_entries_concat(
                done,
                spec_opt_entry("Type"@, self.msg_type),
                pretty,
                true,
            );
            vstd::seq_lib::lemma_concat_associative(
                base,
                spec_entries(done, pretty, true),
                spec_entries(spec_opt_entry("Type"@, self.msg_type), pretty, first2),
            );
            done = done + spec_opt_entry("Type"@, self.msg_type);
        }
        let first4 = push_opt_entry(&mut out, "Hostname", &self.hostname, pretty, first3);
        proof {
            crate::json::lemma_entries_concat(
                done,
                spec_opt_entry("Hostname"@, self.hostname),
                pretty,
                true,
            );
            vstd::seq_lib::lemma_concat_associative(
                base,
                spec_entries(done, pretty, true),
                spec_entries(spec_opt_entry("Hostname"@, self.hostname), pretty, first3),
            );
            done = done + spec_opt_entry("Hostname"@, self.hostname);
        }
        let vts = Value::I64(ts);
        push_entry(&mut out, "Timestamp", &vts, pretty, first4);
        proof {
            let p = ("Timestamp"@, spec_dec_int(ts as int));
            crate::json::lemma_entries_concat(done, seq![p], pretty, true);
            crate::json::lemma_entries_singleton(p, pretty, first4);
            vstd::seq_lib::lemma_concat_associative(
                base,
                spec_entries(done, pretty, true),
                spec_entry(p.0, p.1, pretty, first4),
            );
            done = done + seq![p];
        }
        let vpid = Value::U32(self.pid);
        push_entry(&mut out, "Pid", &vpid, pretty, false);
        proof {
            let p = ("Pid"@, spec_dec_nat(self.pid as nat));
            crate::json::lemma_entries_concat(done, seq![p], pretty, true);
            crate::json::lemma_entries_singleton(p, pretty, false);
            vstd::seq_lib::lemma_concat_associative(
                base,
                spec_entries(done, pretty, true),
                spec_entry(p.0, p.1, pretty, false),
            );
            done = done + seq![p];
        }
        if self.gcp {
            let v = Value::U16(level_to_gcp_severity(level));
            push_entry(&mut out, "severity", &v, pretty, false);
        } else {
            let v = Value::U8(level_to_severity(level));
            push_entry(&mut out, "Severity", &v, pretty, false);
        }
        proof {
            let p = spec_severity_pair(self.gcp, level);
            crate::json::lemma_entries_concat(done, seq![p], pretty, true);
            crate::json::lemma_entries_singleton(p, pretty, false);
            vstd::seq_lib::lemma_concat_associative(
                base,
                spec_entries(done, pretty, true),
                spec_entry(p.0, p.1, pretty, false),
            );
            done = done + seq![p];
            assert(done =~= spec_envelope_pairs(*self, ts, level));
        }
        let ph = placeholder_string();
        let vph = Value::Str(ph);
        push_entry(&mut out, "Fields", &vph, pretty, false);
        proof {
            let p = ("Fields"@, json_str_of(placeholder_text()));
            crate::json::lemma_entries_concat(done, seq![p], pretty, true);
            crate::json::lemma_entries_singleton(p, pretty, false);
            vstd::seq_lib::lemma_concat_associative(
                base,
                spec_entries(done, pretty, true),
                spec_entry(p.0, p.1, pretty, false),
            );
            done = done + seq![p];
        }
        if pretty {
            proof {
                reveal_strlit("\n}");
            }
            out.append("\n}");
        } else {
            proof {
                reveal_strlit("}");
            }
            out.append("}");
        }
        proof {
            assert(done.len() > 0);
            assert(out@ =~= spec_map_text(done, pretty));
        }
        out
    }

    /// Pass 2: serializes the fields map — the message entry, the
    /// logger-context sources, then the call-site pairs — without closing
    /// the map.
    pub fn encode_fields(&self, rec: &Record, logger_values: &Vec<AttrSource>) -> (r: String)
        ensures
            r@ == spec_fields_text(rec.msg@, logger_values@, rec.pairs@, self.pretty),
    {
        let pretty = self.pretty;
        let mut out = String::new();
        proof {
            reveal_strlit("{");
        }
        out.append("{");
        let ghost base = seq!['{'];
        let ghost mut done: Seq<(Seq<char>, Seq<char>)> = Seq::empty();
        let vmsg = Value::Str(rec.msg.clone());
        push_entry(&mut out, "msg", &vmsg, pretty, true);
        proof {
            let p = ("msg"@, json_str_of(rec.msg@));
            crate::json::lemma_entries_singleton(p, pretty, true);
            done = seq![p];
            assert(out@ =~= base + spec_entries(done, pretty, true));
        }
        push_sources(&mut out, logger_values, pretty, false);
        proof {
            crate::json::lemma_entries_concat(
                done,
                spec_sources_pairs(logger_values@),
                pretty,
                true,
            );
            done = done + spec_sources_pairs(logger_values@);
            assert(out@ =~= base + spec_entries(done, pretty, true));
        }
        push_pairs(&mut out, &rec.pairs, pretty, false);
        proof {
            crate::json::lemma_entries_concat(done, render_pairs(rec.pairs@), pretty, true);
            done = done + render_pairs(rec.pairs@);
            assert(out@ =~= base + spec_entries(done, pretty, true));
            assert(done =~= spec_fields_pairs(rec.msg@, logger_values@, rec.pairs@));
        }
        out
    }

    /// Both passes and the splice: the full log text for one event,
    /// without the trailing newline.
    pub fn encode_log_text(&self, rec: &Record, logger_values: &Vec<AttrSource>, ts: i64) -> (r:
        String)
        ensures
            r@ == spec_log_text(*self, *rec, logger_values@, ts),
    {
        let payload = self.encode_placeholder(rec.level, ts);
        let fields = self.encode_fields(rec, logger_values);
        splice_fields(payload.as_str(), fields.as_str())
    }

    /// Encodes the event at the given timestamp and writes it to the sink:
    /// the spliced object, then one newline when configured. On a sink
    /// failure the event is lost and nothing more is written for it.
    pub fn log_at(&mut self, rec: &Record, logger_values: &Vec<AttrSource>, ts: i64) -> (r: Result<
        (),
        LogError,
    >)
        ensures
            r is Ok ==> final(self).sink.content() == old(self).sink.content() + spec_log_line(
                *old(self),
                *rec,
                logger_values@,
                ts,
            ),
            r is Err ==> r == Result::<(), LogError>::Err(LogError::IoError),
            final(self).newlines == old(self).newlines,
            final(self).pretty == old(self).pretty,
            final(self).gcp == old(self).gcp,
            final(self).pid == old(self).pid,
            final(self).logger_name == old(self).logger_name,
            final(self).msg_type == old(self).msg_type,
            final(self).hostname == old(self).hostname,
            final(self).values == old(self).values,
    {
        let text = self.encode_log_text(rec, logger_values, ts);
        match self.sink.write_str(text.as_str()) {
            Result::Ok(_) => {},
            Result::Err(_) => {
                return Result::Err(LogError::IoError);
            },
        }
        if self.newlines {
            proof {
                reveal_strlit("\n");
            }
            match self.sink.write_str("\n") {
                Result::Ok(_) => {},
                Result::Err(_) => {
                    return Result::Err(LogError::IoError);
                },
            }
        }
        proof {
            assert(final(self).sink.content() =~= old(self).sink.content() + spec_log_line(
                *old(self),
                *rec,
                logger_values@,
                ts,
            ));
        }
        Result::Ok(())
    }

    /// Encodes the event with the lazy call-site pairs rendered — each
    /// rendering function called exactly once, during this call — appended
    /// after the record's own pairs, and writes it to the sink.
    pub fn log_at_lazy<F: Fn() -> String>(
        &mut self,
        rec: &Record,
        logger_values: &Vec<AttrSource>,
        lazy: &Vec<(String, F)>,
        ts: i64,
    ) -> (r: Result<(), LogError>)
        requires
            forall|i: int| 0 <= i < lazy@.len() ==> #[trigger] call_requires(lazy@[i].1, ()),
        ensures
            r is Ok ==> exists|rec2: Record|
                #[trigger] spec_lazy_extended(*rec, lazy@, rec2) && final(self).sink.content()
                    == old(self).sink.content() + spec_log_line(
                    *old(self),
                    rec2,
                    logger_values@,
                    ts,
                ),
            r is Err ==> r == Result::<(), LogError>::Err(LogError::IoError),
            final(self).newlines == old(self).newlines,
            final(self).pretty == old(self).pretty,
            final(self).gcp == old(self).gcp,
            final(self).pid == old(self).pid,
            final(self).logger_name == old(self).logger_name,
            final(self).msg_type == old(self).msg_type,
            final(self).hostname == old(self).hostname,
            final(self).values == old(self).values,
    {
        let mut rendered = render_lazy(lazy);
        let mut pairs: Vec<(String, Value)> = Vec::new();
        let mut i: usize = 0;
        while i < rec.pairs.len()
            invariant
                i <= rec.pairs@.len(),
                pairs@.len() == i,
                forall|k: int| 0 <= k < i ==> pairs@[k] == rec.pairs@[k],
            decreases rec.pairs@.len() - i,
        {
            let p = &rec.pairs[i];
            pairs.push((p.0.clone(), clone_value(&p.1)));
            i = i + 1;
        }
        pairs.append(&mut rendered);
        let rec2 = Record { msg: rec.msg.clone(), level: rec.level, pairs };
        let res = self.log_at(&rec2, logger_values, ts);
        proof {
            assert(spec_lazy_extended(*rec, lazy@, rec2));
        }
        res
    }

    /// Encodes the event at the current time and writes it to the sink.
    /// When the clock stands outside the representable nanosecond range,
    /// the event cannot be encoded.
    pub fn log(&mut self, rec: &Record, logger_values: &Vec<AttrSource>) -> (r: Result<
        (),
        LogError,
    >)
        ensures
            r is Ok ==> exists|ts: i64|
                final(self).sink.content() == old(self).sink.content() + spec_log_line(
                    *old(self),
                    *rec,
                    logger_values@,
                    ts,
                ),
            r == Result::<(), LogError>::Err(LogError::EncodeError) ==> *final(self) == *old(
                self,
            ),
            final(self).newlines == old(self).newlines,
            final(self).pretty == old(self).pretty,
            final(self).gcp == old(self).gcp,
            final(self).pid == old(self).pid,
            final(self).logger_name == old(self).logger_name,
            final(self).msg_type == old(self).msg_type,
            final(self).hostname == old(self).hostname,
            final(self).values == old(self).values,
    {
        match now_timestamp_nanos() {
            Option::Some(ts) => self.log_at(rec, logger_values, ts),
            Option::None => Result::Err(LogError::EncodeError),
        }
    }
}

impl<S: Sink> MozLogJson<S> {
    /// An encoder over `sink` with every configuration default.
    pub fn default(sink: S) -> (r: MozLogJson<S>)
        ensures
            r.sink == sink,
            r.newlines == true,
            r.pretty == false,
            r.gcp == false,
            r.pid == 0u32,
            r.logger_name is None,
            r.msg_type is None,
            r.hostname is None,
            r.values@ =~= Seq::<AttrSource>::empty(),
    {
        MozLogJsonBuilder::new(sink).build()
    }

    /// A builder for a custom encoder over `sink`.
    pub fn new(sink: S) -> (r: MozLogJsonBuilder<S>)
        ensures
            r.sink == sink,
            r.newlines == true,
            r.pretty == false,
            r.gcp == false,
            r.pid == 0u32,
            r.logger_name is None,
            r.msg_type is None,
            r.hostname is None,
            r.values@ =~= Seq::<AttrSource>::empty(),
    {
        MozLogJsonBuilder::new(sink)
    }
}

/// Accumulates the optional encoder configuration and finalizes it into an
/// immutable encoder.
pub struct MozLogJsonBuilder<S: Sink> {
    pub sink: S,
    pub newlines: bool,
    pub pretty: bool,
    pub gcp: bool,
    pub pid: u32,
    pub logger_name: Option<String>,
    pub msg_type: Option<String>,
    pub hostname: Option<String>,
    pub values: Vec<AttrSource>,
}

impl<S: Sink> MozLogJsonBuilder<S> {
    /// A builder over `sink` with the defaults: newline after every
    /// record, compact output, MozLog severities, no static fields.
    pub fn new(sink: S) -> (r: Self)
        ensures
            r.sink == sink,
            r.newlines == true,
            r.pretty == false,
            r.gcp == false,
            r.pid == 0u32,
            r.logger_name is None,
            r.msg_type is None,
            r.hostname is None,
            r.values@ =~= Seq::<AttrSource>::empty(),
    {
        MozLogJsonBuilder {
            sink,
            newlines: true,
            pretty: false,
            gcp: false,
            pid: 0u32,
            logger_name: Option::None,
            msg_type: Option::None,
            hostname: Option::None,
            values: Vec::new(),
        }
    }

    /// Finalizes the configuration; every field carries over unchanged.
    pub fn build(self) -> (r: MozLogJson<S>)
        ensures
            r.sink == self.sink,
            r.newlines == self.newlines,
            r.pretty == self.pretty,
            r.gcp == self.gcp,
            r.pid == self.pid,
            r.logger_name == self.logger_name,
            r.msg_type == self.msg_type,
            r.hostname == self.hostname,
            r.values == self.values,
    {
        MozLogJson {
            sink: self.sink,
            newlines: self.newlines,
            pretty: self.pretty,
            gcp: self.gcp,
            pid: self.pid,
            logger_name: self.logger_name,
            msg_type: self.msg_type,
            hostname: self.hostname,
            values: self.values,
        }
    }

    /// Switches the output to GCP field naming and severity scale.
    pub fn enable_gcp(self) -> (r: Self)
        ensures
            r == (MozLogJsonBuilder { gcp: true, ..self }),
    {
        MozLogJsonBuilder { gcp: true, ..self }
    }

    /// Sets whether a newline is written after every record.
    pub fn set_newlines(self, enabled: bool) -> (r: Self)
        ensures
            r == (MozLogJsonBuilder { newlines: enabled, ..self }),
    {
        MozLogJsonBuilder { newlines: enabled, ..self }
    }

    /// Sets whether records are pretty-printed.
    pub fn set_pretty(self, enabled: bool) -> (r: Self)
        ensures
            r == (MozLogJsonBuilder { pretty: enabled, ..self }),
    {
        MozLogJsonBuilder { pretty: enabled, ..self }
    }

    /// Sets the process id written as the `Pid` envelope field.
    pub fn pid(self, pid: u32) -> (r: Self)
        ensures
            r == (MozLogJsonBuilder { pid, ..self }),
    {
        MozLogJsonBuilder { pid, ..self }
    }

    /// Appends one custom attribute source to the envelope.
    pub fn add_key_value(self, value: AttrSource) -> (r: Self)
        ensures
            r.values@ == self.values@.push(value),
            r.sink == self.sink,
            r.newlines == self.newlines,
            r.pretty == self.pretty,
            r.gcp == self.gcp,
            r.pid == self.pid,
            r.logger_name == self.logger_name,
            r.msg_type == self.msg_type,
            r.hostname == self.hostname,
    {
        let mut values = self.values;
        values.push(value);
        MozLogJsonBuilder { values, ..self }
    }

    /// Sets the `Logger` envelope field.
    pub fn logger_name(self, logger_name: String) -> (r: Self)
        ensures
            r == (MozLogJsonBuilder { logger_name: Option::Some(logger_name), ..self }),
    {
        MozLogJsonBuilder { logger_name: Option::Some(logger_name), ..self }
    }

    /// Sets the `Type` envelope field.
    pub fn msg_type(self, msg_type: String) -> (r: Self)
        ensures
            r == (MozLogJsonBuilder { msg_type: Option::Some(msg_type), ..self }),
    {
        MozLogJsonBuilder { msg_type: Option::Some(msg_type), ..self }
    }

    /// Sets the `Hostname` envelope field.
    pub fn hostname(self, hostname: String) -> (r: Self)
        ensures
            r == (MozLogJsonBuilder { hostname: Option::Some(hostname), ..self }),
    {
        MozLogJsonBuilder { hostname: Option::Some(hostname), ..self }
    }
}

/// Whether an environment toggle value enables GCP mode: exactly the text
/// `true` does; any other value, or none, keeps the MozLog defaults.
pub open spec fn spec_gcp_toggle(v: Option<String>) -> bool {
    match v {
        Option::Some(s) => s@ == "true"@,
        Option::None => false,
    }
}

/// Decides GCP mode from the value of the environment toggle.
pub fn gcp_from_env_value(v: &Option<String>) -> (r: bool)
    ensures
        r == spec_gcp_toggle(*v),
{
    match v {
        Option::Some(s) => {
            let t = String::from_str("true");
            *s == t
        },
        Option::None => false,
    }
}

/// Renders a run of lazily-evaluated formatted values: each rendering
/// function is called exactly once, at this point, and its text becomes a
/// string value under the pair's key, in order.
pub fn render_lazy<F: Fn() -> String>(lazy: &Vec<(String, F)>) -> (r: Vec<(String, Value)>)
    requires
        forall|i: int| 0 <= i < lazy@.len() ==> #[trigger] call_requires(lazy@[i].1, ()),
    ensures
        r@.len() == lazy@.len(),
        forall|i: int|
            0 <= i < lazy@.len() ==> (#[trigger] r@[i]).0 == lazy@[i].0 && exists|s: String|
                call_ensures(lazy@[i].1, (), s) && r@[i].1 == Value::Str(s),
{
    let mut r: Vec<(String, Value)> = Vec::new();
    let mut i: usize = 0;
    while i < lazy.len()
        invariant
            i <= lazy@.len(),
            r@.len() == i,
            forall|k: int| 0 <= k < lazy@.len() ==> #[trigger] call_requires(lazy@[k].1, ()),
            forall|k: int|
                0 <= k < i ==> (#[trigger] r@[k]).0 == lazy@[k].0 && exists|s: String|
                    call_ensures(lazy@[k].1, (), s) && r@[k].1 == Value::Str(s),
        decreases lazy@.len() - i,
    {
        let pair = &lazy[i];
        let key = pair.0.clone();
        let rendered = (pair.1)();
        r.push((key, Value::Str(rendered)));
        i = i + 1;
    }
    r
}

/// `rec2` is `rec` with one string pair per lazy pair appended: the same
/// key, and a value some single call of the pair's rendering function can
/// return.
pub open spec fn spec_lazy_extended<F: Fn() -> String>(
    rec: Record,
    lazy: Seq<(String, F)>,
    rec2: Record,
) -> bool {
    &&& rec2.msg@ == rec.msg@
    &&& rec2.level == rec.level
    &&& rec2.pairs@.len() == rec.pairs@.len() + lazy.len()
    &&& forall|i: int| 0 <= i < rec.pairs@.len() ==> rec2.pairs@[i] == rec.pairs@[i]
    &&& forall|i: int|
        0 <= i < lazy.len() ==> (#[trigger] rec2.pairs@[rec.pairs@.len() + i]).0 == lazy[i].0
            && exists|s: String|
            call_ensures(lazy[i].1, (), s) && rec2.pairs@[rec.pairs@.len() + i].1 == Value::Str(s)
}

/// Relies on chrono's `From<SystemTime>` conversion for `DateTime<Utc>`
/// and on `DateTime::timestamp_nanos_opt`: the current time as nanoseconds
/// since the Unix epoch, where that fits an `i64`, and `None` where it does
/// not. The conversion, unlike `Utc::now`, handles a system clock standing
/// before the epoch without failing. Nothing is promised of the value: it
/// depends on the clock.
#[verifier::external_body]
fn now_timestamp_nanos() -> (r: Option<i64>) {
    chrono::DateTime::<chrono::Utc>::from(std::time::SystemTime::now()).timestamp_nanos_opt()
}

} // verus!
