use vstd::prelude::*;
use vstd::string::*;
use crate::level::{Severity, Threshold, admits, threshold_name};

verus! {

/// Whether a directive written for `target` applies to events from `source`:
/// the target is a prefix of the source name (`hyper` covers `hyper::proto`).
pub open spec fn covers(target: Seq<char>, source: Seq<char>) -> bool {
    target.len() <= source.len() && source.subrange(0, target.len() as int) == target
}

/// Rule `i` is the most specific one that covers `source`: it covers it, and no
/// covering rule has a longer target.
pub open spec fn governs(rules: Seq<(Seq<char>, Threshold)>, source: Seq<char>, i: int) -> bool {
    &&& 0 <= i < rules.len()
    &&& covers(rules[i].0, source)
    &&& forall|j: int|
        0 <= j < rules.len() && #[trigger] covers(rules[j].0, source) ==> rules[j].0.len()
            <= rules[i].0.len()
}

/// No two rules name the same target.
pub open spec fn targets_distinct(rules: Seq<(Seq<char>, Threshold)>) -> bool {
    forall|i: int, j: int|
        0 <= i < rules.len() && 0 <= j < rules.len() && i != j ==> #[trigger] rules[i].0
            != #[trigger] rules[j].0
}

/// The threshold that governs events from `source`: that of the most specific
/// covering rule, or the default where no rule covers the source.
pub open spec fn effective_threshold(
    default: Threshold,
    rules: Seq<(Seq<char>, Threshold)>,
    source: Seq<char>,
) -> Threshold {
    if exists|i: int| governs(rules, source, i) {
        rules[choose|i: int| governs(rules, source, i)].1
    } else {
        default
    }
}

/// Whether an event from `source` at `level` passes the filter.
pub open spec fn passes(
    default: Threshold,
    rules: Seq<(Seq<char>, Threshold)>,
    source: Seq<char>,
    level: Severity,
) -> bool {
    admits(effective_threshold(default, rules, source), level)
}

/// One rule of a filter: events from sources under `target` need `threshold`.
#[derive(Debug)]
pub struct Rule {
    pub target: String,
    pub threshold: Threshold,
}

impl Rule {
    /// The rule as the pair that the filter's model holds.
    pub open spec fn rule(&self) -> (Seq<char>, Threshold) {
        (self.target@, self.threshold)
    }

    /// The directive in its textual form, `target=level`.
    pub fn render(&self) -> (r: String)
        ensures
            r@ == self.target@ + "="@ + threshold_name(self.threshold),
    {
        let r = self.target.clone().concat("=");
        r.concat(self.threshold.name())
    }
}

/// A per-sink filter: a default threshold and a list of per-source overrides.
#[derive(Debug)]
pub struct FilterSet {
    pub default: Threshold,
    pub directives: Vec<Rule>,
}

impl FilterSet {
    /// The overrides as (target, threshold) pairs, in order.
    pub open spec fn rules(&self) -> Seq<(Seq<char>, Threshold)> {
        self.directives@.map_values(|d: Rule| d.rule())
    }

    /// A filter never holds two overrides for one target.
    pub open spec fn wf(&self) -> bool {
        targets_distinct(self.rules())
    }

    /// A filter with the given default and no overrides.
    pub fn new(default: Threshold) -> (r: FilterSet)
        ensures
            r.wf(),
            r.default == default,
            r.rules() == Seq::<(Seq<char>, Threshold)>::empty(),
    {
        let r = FilterSet { default, directives: Vec::new() };
        assert(r.rules() =~= Seq::<(Seq<char>, Threshold)>::empty());
        r
    }

    /// Adds an override; one for a target already present replaces it in place.
    pub fn with_directive(self, target: String, threshold: Threshold) -> (r: FilterSet)
        requires
            self.wf(),
        ensures
            r.wf(),
            r.default == self.default,
            (exists|k: int| 0 <= k < self.rules().len() && self.rules()[k].0 == target@) ==> (
            exists|k: int|
                0 <= k < self.rules().len() && self.rules()[k].0 == target@ && r.rules()
                    == self.rules().update(k, (target@, threshold))),
            !(exists|k: int| 0 <= k < self.rules().len() && self.rules()[k].0 == target@)
                ==> r.rules() == self.rules().push((target@, threshold)),
    {
        let mut directives = self.directives;
        let n = directives.len();
        let mut i: usize = 0;
        while i < n
            invariant
                n == directives.len(),
                directives@ == self.directives@,
                self.wf(),
                i <= n,
                forall|k: int| 0 <= k < i ==> self.rules()[k].0 != target@,
            decreases n - i,
        {
            if directives[i].target == target {
                directives.set(i, Rule { target, threshold });
                let r = FilterSet { default: self.default, directives };
                assert(r.rules() =~= self.rules().update(i as int, (target@, threshold)));
                assert forall|a: int, b: int|
                    0 <= a < r.rules().len() && 0 <= b < r.rules().len() && a != b
                        implies #[trigger] r.rules()[a].0 != #[trigger] r.rules()[b].0 by {
                    assert(self.rules()[i as int].0 == target@);
                    assert(r.rules()[a].0 == self.rules()[a].0);
                    assert(r.rules()[b].0 == self.rules()[b].0);
                    assert(self.rules()[a].0 != self.rules()[b].0);
                }
                assert(self.rules()[i as int].0 == target@);
                return r;
            }
            i += 1;
        }
        directives.push(Rule { target, threshold });
        let r = FilterSet { default: self.default, directives };
        assert(r.rules() =~= self.rules().push((target@, threshold)));
        r
    }

    /// The threshold that governs events from `source`.
    pub fn threshold_for(&self, source: &str) -> (r: Threshold)
        requires
            self.wf(),
        ensures
            r == effective_threshold(self.default, self.rules(), source@),
    {
        let ghost rules = self.rules();
        let n = self.directives.len();
        let mut best: Option<usize> = None;
        let mut best_len: usize = 0;
        let mut i: usize = 0;
        while i < n
            invariant
                n == self.directives.len(),
                rules == self.rules(),
                rules.len() == n,
                i <= n,
                match best {
                    None => forall|j: int| 0 <= j < i ==> !covers(#[trigger] rules[j].0, source@),
                    Some(b) => {
                        &&& b < i
                        &&& covers(rules[b as int].0, source@)
                        &&& best_len == rules[b as int].0.len()
                        &&& forall|j: int|
                            0 <= j < i && #[trigger] covers(rules[j].0, source@) ==> rules[j].0.len()
                                <= best_len
                    },
                },
            decreases n - i,
        {
            let t = self.directives[i].target.as_str();
            if covers_text(t, source) {
                let len = t.unicode_len();
                let better = match best {
                    None => true,
                    Some(_) => len > best_len,
                };
                if better {
                    best = Some(i);
                    best_len = len;
                }
            }
            i += 1;
        }
        match best {
            None => {
                assert(!exists|i: int| governs(rules, source@, i));
                self.default
            },
            Some(b) => {
                assert(governs(rules, source@, b as int));
                proof {
                    lemma_governing_unique(rules, source@, b as int);
                }
                self.directives[b].threshold
            },
        }
    }

    /// Whether an event from `source` at `level` passes this filter.
    pub fn enabled(&self, source: &str, level: Severity) -> (r: bool)
        requires
            self.wf(),
        ensures
            r == passes(self.default, self.rules(), source@, level),
    {
        self.threshold_for(source).admits(level)
    }

    /// The overrides in their textual form, in order.
    pub fn rendered_directives(&self) -> (r: Vec<String>)
        ensures
            r@.len() == self.rules().len(),
            forall|k: int|
                0 <= k < r@.len() ==> #[trigger] r@[k]@ == self.rules()[k].0 + "="@
                    + threshold_name(self.rules()[k].1),
    {
        let mut out: Vec<String> = Vec::new();
        let mut i: usize = 0;
        while i < self.directives.len()
            invariant
                i <= self.directives.len(),
                out@.len() == i,
                forall|k: int|
                    0 <= k < i ==> #[trigger] out@[k]@ == self.rules()[k].0 + "="@
                        + threshold_name(self.rules()[k].1),
            decreases self.directives.len() - i,
        {
            out.push(self.directives[i].render());
            i += 1;
        }
        out
    }
}

/// Whether `target` is a prefix of `source`.
pub fn covers_text(target: &str, source: &str) -> (r: bool)
    ensures
        r == covers(target@, source@),
{
    let tn = target.unicode_len();
    let sn = source.unicode_len();
    if tn > sn {
        return false;
    }
    let mut i: usize = 0;
    while i < tn
        invariant
            tn == target@.len(),
            sn == source@.len(),
            tn <= sn,
            i <= tn,
            forall|k: int| 0 <= k < i ==> source@[k] == target@[k],
        decreases tn - i,
    {
        if target.get_char(i) != source.get_char(i) {
            assert(source@.subrange(0, tn as int)[i as int] != target@[i as int]);
            return false;
        }
        i += 1;
    }
    assert(source@.subrange(0, tn as int) =~= target@);
    true
}

/// Among rules with distinct targets at most one governs a given source.
pub proof fn lemma_governing_unique(rules: Seq<(Seq<char>, Threshold)>, source: Seq<char>, i: int)
    requires
        targets_distinct(rules),
        governs(rules, source, i),
    ensures
        forall|k: int| governs(rules, source, k) ==> k == i,
{
    assert forall|k: int| governs(rules, source, k) implies k == i by {
        assert(covers(rules[k].0, source));
        assert(covers(rules[i].0, source));
        assert(rules[k].0 =~= rules[i].0);
    }
}

/// A character of a covering target is the character of the source at the same place.
proof fn lemma_cover_char(target: Seq<char>, source: Seq<char>, m: int)
    requires
        covers(target, source),
        0 <= m < target.len(),
    ensures
        source[m] == target[m],
{
    assert(source.subrange(0, target.len() as int)[m] == source[m]);
}

/// Two targets that differ at a place within both cannot both cover one source.
pub proof fn lemma_cover_conflict(a: Seq<char>, b: Seq<char>, source: Seq<char>, m: int)
    requires
        covers(a, source),
        0 <= m < a.len(),
        0 <= m < b.len(),
        a[m] != b[m],
    ensures
        !covers(b, source),
{
    lemma_cover_char(a, source, m);
    if covers(b, source) {
        lemma_cover_char(b, source, m);
    }
}

/// Where exactly one rule covers a source, that rule's threshold governs it.
pub proof fn lemma_sole_cover(
    default: Threshold,
    rules: Seq<(Seq<char>, Threshold)>,
    source: Seq<char>,
    k: int,
)
    requires
        0 <= k < rules.len(),
        covers(rules[k].0, source),
        forall|j: int| 0 <= j < rules.len() && j != k ==> !covers(#[trigger] rules[j].0, source),
    ensures
        effective_threshold(default, rules, source) == rules[k].1,
{
    assert(governs(rules, source, k));
    let c = choose|i: int| governs(rules, source, i);
    assert(c == k);
}

/// Where no rule covers a source, the default threshold governs it.
pub proof fn lemma_uncovered_default(
    default: Threshold,
    rules: Seq<(Seq<char>, Threshold)>,
    source: Seq<char>,
)
    requires
        forall|j: int| 0 <= j < rules.len() ==> !covers(#[trigger] rules[j].0, source),
    ensures
        effective_threshold(default, rules, source) == default,
{
}

} // verus!
