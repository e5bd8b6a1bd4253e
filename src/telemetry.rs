use vstd::prelude::*;
use vstd::string::*;
use crate::filter::{
    FilterSet, Rule, covers, lemma_cover_conflict, lemma_sole_cover, lemma_uncovered_default, passes,
    targets_distinct,
};
use crate::level::{Severity, Threshold, admits};
use crate::pipeline::{Layer, Pipeline, Sink, deliveries};

verus! {

/// How spans and log records leave the process.
#[derive(Clone, Copy, Debug, PartialEq, Eq, Structural)]
pub enum ExportMode {
    /// One export per finished record, in order.
    Simple,
    /// Records are buffered and exported in the background.
    Batched,
}

/// Compression applied to exported traces.
#[derive(Clone, Copy, Debug, PartialEq, Eq, Structural)]
pub enum Compression {
    Zstd,
}

/// Settings of the log and trace providers.
#[derive(Debug)]
pub struct TelemetryConfig {
    /// Service name carried by the resource descriptor of both providers.
    pub service_name: &'static str,
    /// Collector endpoint of the trace exporter.
    pub trace_endpoint: &'static str,
    pub trace_compression: Option<Compression>,
    pub export_mode: ExportMode,
}

/// The provider settings: the service is named `ota-server`, traces go to a
/// local collector with Zstandard compression, and every record is exported as
/// soon as it is finished.
pub fn telemetry_config() -> (r: TelemetryConfig)
    ensures
        r.service_name@ == "ota-server"@,
        r.trace_endpoint@ == "http://localhost:4317"@,
        r.trace_compression == Some(Compression::Zstd),
        r.export_mode == ExportMode::Simple,
{
    TelemetryConfig {
        service_name: "ota-server",
        trace_endpoint: "http://localhost:4317",
        trace_compression: Some(Compression::Zstd),
        export_mode: ExportMode::Simple,
    }
}

/// Transport and HTTP-client libraries whose internal chatter is silenced.
pub open spec fn transport_targets() -> Seq<Seq<char>> {
    seq!["hyper"@, "tonic"@, "h2"@, "reqwest"@]
}

/// Overrides of the filter in front of the telemetry log bridge.
pub open spec fn telemetry_log_rules() -> Seq<(Seq<char>, Threshold)> {
    seq![
        ("hyper"@, Threshold::Off),
        ("tonic"@, Threshold::Off),
        ("h2"@, Threshold::Off),
        ("reqwest"@, Threshold::Off),
    ]
}

/// Overrides of the console filter: the same silencing, and the telemetry
/// bridge's own debug output.
pub open spec fn console_rules() -> Seq<(Seq<char>, Threshold)> {
    telemetry_log_rules().push(("opentelemetry"@, Threshold::Debug))
}

/// The default threshold of both standard filters.
pub open spec fn standard_default() -> Threshold {
    Threshold::Info
}

/// The layers of the standard pipeline: the telemetry log bridge, then the console.
pub open spec fn is_standard(layers: Seq<Layer>) -> bool {
    &&& layers.len() == 2
    &&& layers[0].sink == Sink::TelemetryLogs
    &&& layers[0].filter.default == standard_default()
    &&& layers[0].filter.rules() == telemetry_log_rules()
    &&& layers[1].sink == Sink::Console
    &&& layers[1].filter.default == standard_default()
    &&& layers[1].filter.rules() == console_rules()
}

fn silenced(target: &str) -> (r: Rule)
    ensures
        r.rule() == (target@, Threshold::Off),
{
    Rule { target: String::from_str(target), threshold: Threshold::Off }
}

/// No two standard overrides name the same target.
proof fn lemma_standard_targets_distinct()
    ensures
        targets_distinct(telemetry_log_rules()),
        targets_distinct(console_rules()),
{
    reveal_strlit("hyper");
    reveal_strlit("tonic");
    reveal_strlit("h2");
    reveal_strlit("reqwest");
    reveal_strlit("opentelemetry");
    let rules = console_rules();
    assert forall|i: int, j: int|
        0 <= i < rules.len() && 0 <= j < rules.len() && i != j implies #[trigger] rules[i].0
            != #[trigger] rules[j].0 by {
        assert(rules[i].0[0] != rules[j].0[0] || rules[i].0.len() != rules[j].0.len());
    }
    let short = telemetry_log_rules();
    assert forall|i: int, j: int|
        0 <= i < short.len() && 0 <= j < short.len() && i != j implies #[trigger] short[i].0
            != #[trigger] short[j].0 by {
        assert(short[i] == rules[i] && short[j] == rules[j]);
    }
}

/// The filter in front of the telemetry log bridge.
pub fn telemetry_log_filter() -> (r: FilterSet)
    ensures
        r.wf(),
        r.default == standard_default(),
        r.rules() == telemetry_log_rules(),
{
    let directives = vec![silenced("hyper"), silenced("tonic"), silenced("h2"), silenced("reqwest")];
    let r = FilterSet { default: Threshold::Info, directives };
    proof {
        reveal_strlit("hyper");
        reveal_strlit("tonic");
        reveal_strlit("h2");
        reveal_strlit("reqwest");
        assert(r.rules() =~= telemetry_log_rules());
        lemma_standard_targets_distinct();
    }
    r
}

/// The filter in front of the console.
pub fn console_filter() -> (r: FilterSet)
    ensures
        r.wf(),
        r.default == standard_default(),
        r.rules() == console_rules(),
{
    let mut directives = vec![silenced("hyper"), silenced("tonic"), silenced("h2"), silenced("reqwest")];
    directives.push(
        Rule { target: String::from_str("opentelemetry"), threshold: Threshold::Debug },
    );
    let r = FilterSet { default: Threshold::Info, directives };
    proof {
        reveal_strlit("hyper");
        reveal_strlit("tonic");
        reveal_strlit("h2");
        reveal_strlit("reqwest");
        reveal_strlit("opentelemetry");
        assert(r.rules() =~= console_rules());
        lemma_standard_targets_distinct();
    }
    r
}

/// The standard pipeline: the telemetry log bridge, then the console.
pub fn standard_pipeline() -> (r: Pipeline)
    ensures
        r.wf(),
        is_standard(r.layers@),
{
    let p = Pipeline::new().with_layer(Sink::TelemetryLogs, telemetry_log_filter()).with_layer(
        Sink::Console,
        console_filter(),
    );
    assert(p.layers@[0].sink != p.layers@[1].sink);
    p
}

/// Only the silencing rule for its own library covers a transport source.
proof fn lemma_transport_sole_cover(rules: Seq<(Seq<char>, Threshold)>, source: Seq<char>, k: int)
    requires
        rules == telemetry_log_rules() || rules == console_rules(),
        0 <= k < transport_targets().len(),
        covers(transport_targets()[k], source),
    ensures
        rules[k].0 == transport_targets()[k],
        forall|j: int| 0 <= j < rules.len() && j != k ==> !covers(#[trigger] rules[j].0, source),
{
    reveal_strlit("hyper");
    reveal_strlit("tonic");
    reveal_strlit("h2");
    reveal_strlit("reqwest");
    reveal_strlit("opentelemetry");
    let t = transport_targets()[k];
    assert(rules[k].0 == t);
    assert forall|j: int| 0 <= j < rules.len() && j != k implies !covers(
        #[trigger] rules[j].0,
        source,
    ) by {
        if rules[j].0[0] != t[0] {
            lemma_cover_conflict(t, rules[j].0, source, 0);
        } else {
            lemma_cover_conflict(t, rules[j].0, source, 1);
        }
    }
}

/// An event from a silenced transport library passes neither standard filter,
/// whatever its severity, and so reaches no sink of the standard pipeline.
pub proof fn lemma_transport_noise_suppressed(layers: Seq<Layer>, source: Seq<char>, level: Severity)
    requires
        is_standard(layers),
        exists|k: int| 0 <= k < transport_targets().len() && covers(transport_targets()[k], source),
    ensures
        !passes(standard_default(), telemetry_log_rules(), source, level),
        !passes(standard_default(), console_rules(), source, level),
        deliveries(layers, source, level) == Seq::<Sink>::empty(),
{
    let k = choose|k: int| 0 <= k < transport_targets().len() && covers(transport_targets()[k], source);
    lemma_transport_sole_cover(telemetry_log_rules(), source, k);
    lemma_transport_sole_cover(console_rules(), source, k);
    lemma_sole_cover(standard_default(), telemetry_log_rules(), source, k);
    lemma_sole_cover(standard_default(), console_rules(), source, k);
    let l1 = layers.drop_last();
    assert(l1.drop_last().len() == 0);
    assert(deliveries(l1.drop_last(), source, level) == Seq::<Sink>::empty());
    assert(l1.last() == layers[0]);
    assert(deliveries(l1, source, level) == Seq::<Sink>::empty());
    assert(layers.last() == layers[1]);
}

/// An event at or above the default threshold from a source that no override
/// covers reaches the telemetry log bridge once and the console once, in that
/// order.
pub proof fn lemma_ordinary_events_reach_both_sinks(
    layers: Seq<Layer>,
    source: Seq<char>,
    level: Severity,
)
    requires
        is_standard(layers),
        forall|j: int| 0 <= j < console_rules().len() ==> !covers(#[trigger] console_rules()[j].0, source),
        admits(standard_default(), level),
    ensures
        deliveries(layers, source, level) == seq![Sink::TelemetryLogs, Sink::Console],
{
    let log_rules = telemetry_log_rules();
    assert forall|j: int| 0 <= j < log_rules.len() implies !covers(#[trigger] log_rules[j].0, source) by {
        assert(log_rules[j] == console_rules()[j]);
    }
    lemma_uncovered_default(standard_default(), log_rules, source);
    lemma_uncovered_default(standard_default(), console_rules(), source);
    let l1 = layers.drop_last();
    assert(l1.drop_last().len() == 0);
    assert(deliveries(l1.drop_last(), source, level) == Seq::<Sink>::empty());
    assert(l1.last() == layers[0]);
    assert(layers.last() == layers[1]);
    assert(deliveries(l1, source, level) =~= seq![Sink::TelemetryLogs]);
    assert(deliveries(layers, source, level) =~= seq![Sink::TelemetryLogs, Sink::Console]);
}

} // verus!
