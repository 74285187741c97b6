//! Properties of the encoder, stated and proved over the same spec
//! functions its contracts use.

use vstd::prelude::*;
use crate::drain::{
    spec_envelope_pairs, spec_fields_pairs, spec_log_line, spec_opt_entry, spec_severity_pair,
    spec_sources_pairs, spec_static_pairs, AttrSource, MozLogJson, Record, Sink,
};
use crate::json::{json_str_of, render_pairs};
use crate::util::{spec_gcp_severity, spec_severity, Level};
use crate::value::{spec_dec_nat, spec_json_value, Value};

verus! {

/// The fields object holds exactly one entry per attribute pair plus the
/// message entry, in the order: `msg` first, then the logger-context
/// sources in attachment order, then the call-site pairs in call order —
/// duplicates preserved, nothing merged.
pub proof fn lemma_fields_order(
    msg: Seq<char>,
    logger_values: Seq<AttrSource>,
    call_pairs: Seq<(String, Value)>,
)
    ensures
        spec_fields_pairs(msg, logger_values, call_pairs).len() == 1 + spec_sources_count(
            logger_values,
        ) + call_pairs.len(),
        spec_fields_pairs(msg, logger_values, call_pairs).len() == 1 + spec_sources_pairs(
            logger_values,
        ).len() + call_pairs.len(),
        spec_fields_pairs(msg, logger_values, call_pairs)[0] == ("msg"@, json_str_of(msg)),
        forall|i: int|
            0 <= i < spec_sources_pairs(logger_values).len() ==> spec_fields_pairs(
                msg,
                logger_values,
                call_pairs,
            )[1 + i] == spec_sources_pairs(logger_values)[i],
        forall|j: int|
            0 <= j < call_pairs.len() ==> spec_fields_pairs(msg, logger_values, call_pairs)[1
                + spec_sources_pairs(logger_values).len() + j] == (
                call_pairs[j].0@,
                spec_json_value(call_pairs[j].1),
            ),
{
    lemma_sources_pairs_count(logger_values);
    let fp = spec_fields_pairs(msg, logger_values, call_pairs);
    let sp = spec_sources_pairs(logger_values);
    let rp = render_pairs(call_pairs);
    assert(rp.len() == call_pairs.len());
    assert(fp.len() == 1 + sp.len() + rp.len());
    assert forall|j: int| 0 <= j < call_pairs.len() implies fp[1 + sp.len() + j] == (
        call_pairs[j].0@,
        spec_json_value(call_pairs[j].1),
    ) by {
        assert(fp[1 + sp.len() + j] == rp[j]);
        assert(rp[j] == (call_pairs[j].0@, spec_json_value(call_pairs[j].1)));
    }
}

/// The total number of key-value pairs a run of attribute sources
/// renders: one rendered pair per attached pair.
pub open spec fn spec_sources_count(values: Seq<AttrSource>) -> nat
    decreases values.len(),
{
    if values.len() == 0 {
        0
    } else {
        values[0].pairs@.len() + spec_sources_count(values.drop_first())
    }
}

/// A run of sources renders to exactly as many entries as it holds pairs.
pub proof fn lemma_sources_pairs_count(values: Seq<AttrSource>)
    ensures
        spec_sources_pairs(values).len() == spec_sources_count(values),
    decreases values.len(),
{
    if values.len() > 0 {
        lemma_sources_pairs_count(values.drop_first());
    }
}

/// Configuration determines the output: two encoders whose configurations
/// agree — same flags, same pid, same optional names, same rendered custom
/// sources — produce the same text for the same event at the same clock.
pub proof fn lemma_config_determinism<S1: Sink, S2: Sink>(
    a: MozLogJson<S1>,
    b: MozLogJson<S2>,
    rec: Record,
    logger_values: Seq<AttrSource>,
    ts: i64,
)
    requires
        a.newlines == b.newlines,
        a.pretty == b.pretty,
        a.gcp == b.gcp,
        a.pid == b.pid,
        a.logger_name.deep_view() == b.logger_name.deep_view(),
        a.msg_type.deep_view() == b.msg_type.deep_view(),
        a.hostname.deep_view() == b.hostname.deep_view(),
        spec_sources_pairs(a.values@) == spec_sources_pairs(b.values@),
    ensures
        spec_log_line(a, rec, logger_values, ts) == spec_log_line(b, rec, logger_values, ts),
{
    lemma_opt_entry_congruence("Logger"@, a.logger_name, b.logger_name);
    lemma_opt_entry_congruence("Type"@, a.msg_type, b.msg_type);
    lemma_opt_entry_congruence("Hostname"@, a.hostname, b.hostname);
    assert(spec_static_pairs(a) == spec_static_pairs(b));
    assert(spec_envelope_pairs(a, ts, rec.level) == spec_envelope_pairs(b, ts, rec.level));
}

/// Two optional configuration strings with the same text produce the same
/// optional envelope entry.
proof fn lemma_opt_entry_congruence(key: Seq<char>, x: Option<String>, y: Option<String>)
    requires
        x.deep_view() == y.deep_view(),
    ensures
        spec_opt_entry(key, x) == spec_opt_entry(key, y),
{
    match (x, y) {
        (Option::Some(s), Option::Some(t)) => {
            assert(x.deep_view() == Option::Some(s.deep_view()));
            assert(y.deep_view() == Option::Some(t.deep_view()));
            assert(s@ == t@);
            assert(spec_opt_entry(key, x) =~= spec_opt_entry(key, y));
        },
        (Option::None, Option::None) => {
        },
        (Option::Some(s), Option::None) => {
            assert(x.deep_view() == Option::Some(s.deep_view()));
            assert(false);
        },
        (Option::None, Option::Some(t)) => {
            assert(y.deep_view() == Option::Some(t.deep_view()));
            assert(false);
        },
    }
}

/// The GCP toggle selects the severity entry: in GCP mode the envelope's
/// last entry is `severity` on the GCP scale and no envelope key is
/// `Severity`; otherwise the last entry is `Severity` on the MozLog scale
/// and no envelope key is `severity` — provided the custom sources use
/// neither key themselves.
pub proof fn lemma_gcp_toggle<S: Sink>(d: MozLogJson<S>, ts: i64, level: Level)
    requires
        forall|i: int|
            0 <= i < spec_sources_pairs(d.values@).len() ==> spec_sources_pairs(d.values@)[i].0
                != "Severity"@ && spec_sources_pairs(d.values@)[i].0 != "severity"@,
    ensures
        spec_envelope_pairs(d, ts, level).len() > 0,
        spec_envelope_pairs(d, ts, level).last() == spec_severity_pair(d.gcp, level),
        d.gcp ==> spec_severity_pair(d.gcp, level) == (
            "severity"@,
            spec_dec_nat(spec_gcp_severity(level) as nat),
        ),
        !d.gcp ==> spec_severity_pair(d.gcp, level) == (
            "Severity"@,
            spec_dec_nat(spec_severity(level) as nat),
        ),
        d.gcp ==> forall|i: int|
            0 <= i < spec_envelope_pairs(d, ts, level).len() ==> spec_envelope_pairs(
                d,
                ts,
                level,
            )[i].0 != "Severity"@,
        !d.gcp ==> forall|i: int|
            0 <= i < spec_envelope_pairs(d, ts, level).len() ==> spec_envelope_pairs(
                d,
                ts,
                level,
            )[i].0 != "severity"@,
{
    let ps = spec_envelope_pairs(d, ts, level);
    let sp = spec_static_pairs(d);
    let src = spec_sources_pairs(d.values@);
    reveal_strlit("Logger");
    reveal_strlit("Type");
    reveal_strlit("Hostname");
    reveal_strlit("Timestamp");
    reveal_strlit("Pid");
    reveal_strlit("Severity");
    reveal_strlit("severity");
    assert("Logger"@.len() == 6);
    assert("Severity"@.len() == 8);
    assert("severity"@.len() == 8);
    assert("Logger"@ != "Severity"@ && "Logger"@ != "severity"@);
    assert("Type"@ != "Severity"@ && "Type"@ != "severity"@);
    assert("Hostname"@ != "Severity"@) by {
        assert("Hostname"@[0] == 'H' && "Severity"@[0] == 'S');
    }
    assert("Hostname"@ != "severity"@) by {
        assert("Hostname"@[0] == 'H' && "severity"@[0] == 's');
    }
    assert("Timestamp"@ != "Severity"@ && "Timestamp"@ != "severity"@);
    assert("Pid"@ != "Severity"@ && "Pid"@ != "severity"@);
    assert("Severity"@ != "severity"@) by {
        assert("Severity"@[0] == 'S' && "severity"@[0] == 's');
    }
    assert(ps.last() == spec_severity_pair(d.gcp, level));
    assert forall|i: int| 0 <= i < sp.len() implies sp[i].0 != "Severity"@ && sp[i].0
        != "severity"@ by {
        if i < src.len() {
            assert(sp[i] == src[i]);
        } else {
            let j = i - src.len();
            let opts = spec_opt_entry("Logger"@, d.logger_name) + spec_opt_entry(
                "Type"@,
                d.msg_type,
            ) + spec_opt_entry("Hostname"@, d.hostname);
            assert(sp[i] == opts[j]);
            assert(opts[j].0 == "Logger"@ || opts[j].0 == "Type"@ || opts[j].0 == "Hostname"@);
        }
    }
    assert forall|i: int| 0 <= i < ps.len() - 1 implies ps[i].0 != "Severity"@ && ps[i].0
        != "severity"@ by {
        if i < sp.len() {
            assert(ps[i] == sp[i]);
        } else {
            let j = i - sp.len();
            assert(ps[i].0 == "Timestamp"@ || ps[i].0 == "Pid"@);
        }
    }
    if d.gcp {
        assert forall|i: int| 0 <= i < ps.len() implies ps[i].0 != "Severity"@ by {
            if i < ps.len() - 1 {
            } else {
                assert(ps[i].0 == "severity"@);
            }
        }
    } else {
        assert forall|i: int| 0 <= i < ps.len() implies ps[i].0 != "severity"@ by {
            if i < ps.len() - 1 {
            } else {
                assert(ps[i].0 == "Severity"@);
            }
        }
    }
}

} // verus!
