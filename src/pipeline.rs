use vstd::prelude::*;
use crate::error::StartupError;
use crate::filter::{FilterSet, covers, lemma_uncovered_default, passes};
use crate::level::{Severity, admits};

verus! {

/// Where accepted events go.
#[derive(Clone, Copy, Debug, PartialEq, Eq, Structural)]
pub enum Sink {
    /// Bridged into the telemetry log exporter.
    TelemetryLogs,
    /// Human-readable lines on the console.
    Console,
}

/// A sink with the filter that guards it.
#[derive(Debug)]
pub struct Layer {
    pub sink: Sink,
    pub filter: FilterSet,
}

/// Whether a layer lets an event through.
pub open spec fn layer_accepts(l: Layer, source: Seq<char>, level: Severity) -> bool {
    passes(l.filter.default, l.filter.rules(), source, level)
}

/// The sinks that receive an event, one entry per accepting layer, in layer order.
pub open spec fn deliveries(layers: Seq<Layer>, source: Seq<char>, level: Severity) -> Seq<Sink>
    decreases layers.len(),
{
    if layers.len() == 0 {
        Seq::empty()
    } else {
        let last = layers.last();
        let before = deliveries(layers.drop_last(), source, level);
        if layer_accepts(last, source, level) {
            before.push(last.sink)
        } else {
            before
        }
    }
}

/// How often `x` occurs in `s`.
pub open spec fn occurrences(s: Seq<Sink>, x: Sink) -> nat
    decreases s.len(),
{
    if s.len() == 0 {
        0
    } else {
        occurrences(s.drop_last(), x) + if s.last() == x {
            1nat
        } else {
            0nat
        }
    }
}

/// Every filter of the layers is well formed.
pub open spec fn filters_wf(layers: Seq<Layer>) -> bool {
    forall|i: int| 0 <= i < layers.len() ==> (#[trigger] layers[i]).filter.wf()
}

/// Every filter is well formed and no sink is registered twice.
pub open spec fn layers_wf(layers: Seq<Layer>) -> bool {
    &&& filters_wf(layers)
    &&& forall|i: int, j: int|
        0 <= i < layers.len() && 0 <= j < layers.len() && i != j ==> (#[trigger] layers[i]).sink
            != (#[trigger] layers[j]).sink
}

/// The ordered layers of the event pipeline.
#[derive(Debug)]
pub struct Pipeline {
    pub layers: Vec<Layer>,
}

impl Pipeline {
    pub open spec fn wf(&self) -> bool {
        layers_wf(self.layers@)
    }

    /// A pipeline without layers.
    pub fn new() -> (r: Pipeline)
        ensures
            r.wf(),
            r.layers@.len() == 0,
    {
        Pipeline { layers: Vec::new() }
    }

    /// Appends a layer.
    pub fn with_layer(self, sink: Sink, filter: FilterSet) -> (r: Pipeline)
        ensures
            r.layers@ == self.layers@.push(Layer { sink, filter }),
    {
        let mut layers = self.layers;
        layers.push(Layer { sink, filter });
        Pipeline { layers }
    }

    /// The sinks that receive an event from `source` at `level`.
    pub fn dispatch(&self, source: &str, level: Severity) -> (r: Vec<Sink>)
        requires
            filters_wf(self.layers@),
        ensures
            r@ == deliveries(self.layers@, source@, level),
    {
        let mut out: Vec<Sink> = Vec::new();
        let mut i: usize = 0;
        while i < self.layers.len()
            invariant
                i <= self.layers.len(),
                filters_wf(self.layers@),
                out@ == deliveries(self.layers@.subrange(0, i as int), source@, level),
            decreases self.layers.len() - i,
        {
            let ghost prefix = self.layers@.subrange(0, i as int + 1);
            assert(prefix.drop_last() =~= self.layers@.subrange(0, i as int));
            assert(prefix.last() == self.layers@[i as int]);
            let layer = &self.layers[i];
            if layer.filter.enabled(source, level) {
                out.push(layer.sink);
            }
            i += 1;
        }
        assert(self.layers@.subrange(0, self.layers@.len() as int) =~= self.layers@);
        out
    }
}

/// What installing `p` does to the process-wide slot: it takes the pipeline when
/// empty (success), and is left as it was otherwise (failure).
pub open spec fn install_outcome(current: Option<Seq<Layer>>, p: Seq<Layer>) -> (
    Option<Seq<Layer>>,
    bool,
) {
    match current {
        None => (Some(p), true),
        Some(q) => (Some(q), false),
    }
}

/// What an event emitted against the slot reaches: nothing before installation.
pub open spec fn emitted(current: Option<Seq<Layer>>, source: Seq<char>, level: Severity) -> Seq<
    Sink,
> {
    match current {
        None => Seq::empty(),
        Some(q) => deliveries(q, source, level),
    }
}

/// The process-wide event pipeline, installed at most once.
#[derive(Debug)]
pub struct Subscriber {
    installed: Option<Pipeline>,
}

impl Subscriber {
    /// The installed layers, if any.
    pub closed spec fn current(&self) -> Option<Seq<Layer>> {
        match self.installed {
            None => None,
            Some(p) => Some(p.layers@),
        }
    }

    /// Whether every installed filter is well formed.
    pub closed spec fn wf(&self) -> bool {
        match self.installed {
            None => true,
            Some(p) => filters_wf(p.layers@),
        }
    }

    /// An empty slot.
    pub fn new() -> (r: Subscriber)
        ensures
            r.wf(),
            r.current() == None::<Seq<Layer>>,
    {
        Subscriber { installed: None }
    }

    /// Installs `p`; a second installation is refused and changes nothing.
    pub fn install(&mut self, p: Pipeline) -> (r: Result<(), StartupError>)
        requires
            old(self).wf(),
            filters_wf(p.layers@),
        ensures
            final(self).wf(),
            (final(self).current(), r is Ok) == install_outcome(old(self).current(), p.layers@),
            r matches Err(e) ==> e is SubscriberInstall,
    {
        if self.installed.is_some() {
            return Err(StartupError::SubscriberInstall);
        }
        self.installed = Some(p);
        Ok(())
    }

    /// Whether a pipeline is installed.
    pub fn is_installed(&self) -> (r: bool)
        ensures
            r == self.current() is Some,
    {
        self.installed.is_some()
    }

    /// The sinks that receive an event; none before installation.
    pub fn emit(&self, source: &str, level: Severity) -> (r: Vec<Sink>)
        requires
            self.wf(),
        ensures
            r@ == emitted(self.current(), source@, level),
    {
        match &self.installed {
            None => Vec::new(),
            Some(p) => p.dispatch(source, level),
        }
    }
}

/// Appending one sink adds one occurrence of it and none of any other.
pub proof fn lemma_occurrences_push(s: Seq<Sink>, x: Sink, y: Sink)
    ensures
        occurrences(s.push(x), y) == occurrences(s, y) + if x == y {
            1nat
        } else {
            0nat
        },
{
    assert(s.push(x).drop_last() =~= s);
}

/// The deliveries of a non-empty pipeline: those of all but its last layer,
/// then the last layer's sink if it accepts.
proof fn lemma_deliveries_step(layers: Seq<Layer>, source: Seq<char>, level: Severity, y: Sink)
    requires
        layers.len() > 0,
    ensures
        occurrences(deliveries(layers, source, level), y) == occurrences(
            deliveries(layers.drop_last(), source, level),
            y,
        ) + if layer_accepts(layers.last(), source, level) && layers.last().sink == y {
            1nat
        } else {
            0nat
        },
{
    let before = deliveries(layers.drop_last(), source, level);
    lemma_occurrences_push(before, layers.last().sink, y);
}

/// A sink that no layer names receives nothing.
pub proof fn lemma_unregistered_sink(layers: Seq<Layer>, x: Sink, source: Seq<char>, level: Severity)
    requires
        forall|i: int| 0 <= i < layers.len() ==> (#[trigger] layers[i]).sink != x,
    ensures
        occurrences(deliveries(layers, source, level), x) == 0,
    decreases layers.len(),
{
    if layers.len() > 0 {
        let init = layers.drop_last();
        assert forall|i: int| 0 <= i < init.len() implies (#[trigger] init[i]).sink != x by {
            assert(init[i] == layers[i]);
        }
        lemma_unregistered_sink(init, x, source, level);
        assert(layers.last() == layers[layers.len() - 1]);
        lemma_deliveries_step(layers, source, level, x);
    }
}

/// In a pipeline where no sink is registered twice, an event reaches each sink
/// at most once, and reaches the sink of layer `k` exactly once when that layer
/// accepts it.
pub proof fn lemma_delivered_at_most_once(
    layers: Seq<Layer>,
    k: int,
    source: Seq<char>,
    level: Severity,
)
    requires
        layers_wf(layers),
        0 <= k < layers.len(),
    ensures
        occurrences(deliveries(layers, source, level), layers[k].sink) == if layer_accepts(
            layers[k],
            source,
            level,
        ) {
            1nat
        } else {
            0nat
        },
    decreases layers.len(),
{
    let init = layers.drop_last();
    let n = layers.len() - 1;
    assert(layers.last() == layers[n]);
    lemma_deliveries_step(layers, source, level, layers[k].sink);
    assert forall|i: int| 0 <= i < init.len() implies (#[trigger] init[i]).filter.wf() by {
        assert(init[i] == layers[i]);
    }
    assert forall|i: int, j: int|
        0 <= i < init.len() && 0 <= j < init.len() && i != j implies (#[trigger] init[i]).sink
            != (#[trigger] init[j]).sink by {
        assert(init[i] == layers[i] && init[j] == layers[j]);
    }
    if k == n {
        assert forall|i: int| 0 <= i < init.len() implies (#[trigger] init[i]).sink
            != layers[k].sink by {
            assert(init[i] == layers[i]);
        }
        lemma_unregistered_sink(init, layers[k].sink, source, level);
    } else {
        assert(init[k] == layers[k]);
        lemma_delivered_at_most_once(init, k, source, level);
    }
}

/// An event at or above a layer's default threshold, from a source that no
/// override of that layer's filter covers, reaches that layer's sink exactly
/// once, provided no sink is registered twice.
pub proof fn lemma_default_level_events_delivered_once(
    layers: Seq<Layer>,
    k: int,
    source: Seq<char>,
    level: Severity,
)
    requires
        layers_wf(layers),
        0 <= k < layers.len(),
        forall|j: int|
            0 <= j < layers[k].filter.rules().len() ==> !covers(
                #[trigger] layers[k].filter.rules()[j].0,
                source,
            ),
        admits(layers[k].filter.default, level),
    ensures
        occurrences(deliveries(layers, source, level), layers[k].sink) == 1,
{
    lemma_uncovered_default(layers[k].filter.default, layers[k].filter.rules(), source);
    lemma_delivered_at_most_once(layers, k, source, level);
}

/// Installing twice into an empty slot: the second installation is refused and
/// leaves the first pipeline in place, so with distinct sinks no event reaches
/// any sink more than once.
pub proof fn lemma_second_install_refused(
    first: Seq<Layer>,
    second: Seq<Layer>,
    source: Seq<char>,
    level: Severity,
)
    requires
        layers_wf(first),
    ensures
        install_outcome(None, first).1,
        !install_outcome(install_outcome(None, first).0, second).1,
        install_outcome(install_outcome(None, first).0, second).0 == Some(first),
        forall|k: int|
            0 <= k < first.len() ==> occurrences(
                emitted(install_outcome(install_outcome(None, first).0, second).0, source, level),
                #[trigger] first[k].sink,
            ) <= 1,
{
    assert forall|k: int| 0 <= k < first.len() implies occurrences(
        emitted(install_outcome(install_outcome(None, first).0, second).0, source, level),
        #[trigger] first[k].sink,
    ) <= 1 by {
        lemma_delivered_at_most_once(first, k, source, level);
    }
}

} // verus!
