use vstd::prelude::*;
use crate::error::StartupError;
use crate::filter::FilterSet;
use crate::level::{Threshold, threshold_name};
use crate::telemetry::{console_rules, telemetry_log_rules};

verus! {

#[verifier::external_type_specification]
#[verifier::external_body]
pub struct ExEnvFilter(tracing_subscriber::filter::EnvFilter);

#[verifier::external_type_specification]
#[verifier::external_body]
pub struct ExDirective(tracing_subscriber::filter::Directive);

#[verifier::external_type_specification]
#[verifier::external_body]
pub struct ExParseError(tracing_subscriber::filter::ParseError);

/// Every character is ASCII.
pub open spec fn is_ascii_text(s: Seq<char>) -> bool {
    forall|i: int| 0 <= i < s.len() ==> ((#[trigger] s[i]) as u32) < 128
}

/// An ASCII letter or digit.
pub open spec fn is_ascii_alnum(c: char) -> bool {
    ('a' <= c && c <= 'z') || ('A' <= c && c <= 'Z') || ('0' <= c && c <= '9')
}

/// ASCII whitespace: space, tab, line feed, vertical tab, form feed, carriage return.
pub open spec fn is_ascii_space(c: char) -> bool {
    c == ' ' || c == '\t' || c == '\n' || c == '\x0B' || c == '\x0C' || c == '\r'
}

/// A character that ends or changes the meaning of a directive's target.
pub open spec fn is_target_delimiter(c: char) -> bool {
    c == '=' || c == '[' || c == ',' || is_ascii_space(c)
}

/// A target the runtime reads back as a plain target: non-empty ASCII that
/// starts with a letter, a digit, `-`, `:` or `_`, and holds no `=`, `[`, `,`
/// or whitespace.
pub open spec fn directive_target_ok(t: Seq<char>) -> bool {
    &&& t.len() > 0
    &&& is_ascii_text(t)
    &&& (is_ascii_alnum(t[0]) || t[0] == '-' || t[0] == ':' || t[0] == '_')
    &&& forall|i: int| 0 <= i < t.len() ==> !is_target_delimiter(#[trigger] t[i])
}

/// `s` is `target=level` with a plain target and one of the six level names.
pub open spec fn is_directive_text(s: Seq<char>) -> bool {
    exists|t: Seq<char>, th: Threshold|
        #[trigger] directive_target_ok(t) && s == t + "="@ + #[trigger] threshold_name(th)
}

/// `s` is one of the six level names.
pub open spec fn is_threshold_name(s: Seq<char>) -> bool {
    exists|th: Threshold| s == #[trigger] threshold_name(th)
}

/// Relies on `EnvFilter::new`: a filter from directive text, parsed leniently
/// (it never fails). The text is a single level name, on which the parser
/// slices nothing but whole ASCII characters.
#[verifier::external_body]
fn env_filter_new(directives: &str) -> tracing_subscriber::filter::EnvFilter
    requires
        is_threshold_name(directives@),
{
    tracing_subscriber::filter::EnvFilter::new(directives)
}

/// Relies on `Directive::from_str`: parses one directive. On ASCII text the
/// parser never splits a character, and `target=level` with a plain target
/// and a level name parses.
#[verifier::external_body]
fn parse_directive(
    text: &str,
) -> (r: Result<tracing_subscriber::filter::Directive, tracing_subscriber::filter::ParseError>)
    requires
        is_ascii_text(text@),
    ensures
        is_directive_text(text@) ==> r is Ok,
{
    text.parse::<tracing_subscriber::filter::Directive>()
}

/// Relies on `EnvFilter::add_directive`: adds one parsed directive to a filter.
#[verifier::external_body]
fn add_directive(
    filter: tracing_subscriber::filter::EnvFilter,
    directive: tracing_subscriber::filter::Directive,
) -> tracing_subscriber::filter::EnvFilter {
    filter.add_directive(directive)
}

/// Whether `t` is a plain directive target.
pub fn target_accepted(t: &str) -> (r: bool)
    ensures
        r == directive_target_ok(t@),
{
    let n = t.unicode_len();
    if n == 0 {
        return false;
    }
    let first = t.get_char(0);
    let first_ok = ('a' <= first && first <= 'z') || ('A' <= first && first <= 'Z') || ('0'
        <= first && first <= '9') || first == '-' || first == ':' || first == '_';
    if !first_ok {
        return false;
    }
    let mut i: usize = 0;
    while i < n
        invariant
            n == t@.len(),
            i <= n,
            forall|k: int| 0 <= k < i ==> ((#[trigger] t@[k]) as u32) < 128 && !is_target_delimiter(t@[k]),
        decreases n - i,
    {
        let c = t.get_char(i);
        if (c as u32) >= 128 || c == '=' || c == '[' || c == ',' || c == ' ' || c == '\t' || c
            == '\n' || c == '\x0B' || c == '\x0C' || c == '\r' {
            assert(!directive_target_ok(t@)) by {
                assert(t@[i as int] == c);
            }
            return false;
        }
        i += 1;
    }
    true
}

/// The runtime filter for `f`: its default threshold, then each of its
/// overrides in order, each handed over in its `target=level` form. It is built
/// exactly when every override names a plain target; otherwise the result is an
/// installation error.
pub fn to_env_filter(f: &FilterSet) -> (r: Result<tracing_subscriber::filter::EnvFilter, StartupError>)
    ensures
        r is Ok <==> forall|k: int|
            0 <= k < f.rules().len() ==> directive_target_ok(#[trigger] f.rules()[k].0),
        r matches Err(e) ==> e is SubscriberInstall,
{
    let n = f.directives.len();
    let mut j: usize = 0;
    while j < n
        invariant
            n == f.directives@.len(),
            n == f.rules().len(),
            j <= n,
            forall|k: int| 0 <= k < j ==> directive_target_ok(#[trigger] f.rules()[k].0),
        decreases n - j,
    {
        if !target_accepted(f.directives[j].target.as_str()) {
            assert(f.rules()[j as int].0 == f.directives@[j as int].target@);
            return Err(StartupError::SubscriberInstall);
        }
        assert(f.rules()[j as int].0 == f.directives@[j as int].target@);
        j += 1;
    }
    let texts = f.rendered_directives();
    let mut filter = env_filter_new(f.default.name());
    let mut i: usize = 0;
    while i < texts.len()
        invariant
            i <= texts.len(),
            texts@.len() == f.rules().len(),
            forall|k: int| 0 <= k < f.rules().len() ==> directive_target_ok(#[trigger] f.rules()[k].0),
            forall|k: int|
                0 <= k < texts@.len() ==> #[trigger] texts@[k]@ == f.rules()[k].0 + "="@
                    + threshold_name(f.rules()[k].1),
        decreases texts.len() - i,
    {
        let ghost t = f.rules()[i as int].0;
        let ghost th = f.rules()[i as int].1;
        proof {
            assert(directive_target_ok(t));
            lemma_directive_text_ascii(t, th);
        }
        match parse_directive(texts[i].as_str()) {
            Ok(d) => {
                filter = add_directive(filter, d);
            },
            Err(_) => {
                assert(is_directive_text(texts@[i as int]@));
                return Err(StartupError::SubscriberInstall);
            },
        }
        i += 1;
    }
    Ok(filter)
}

/// The text of a directive with a plain target is ASCII.
proof fn lemma_directive_text_ascii(t: Seq<char>, th: Threshold)
    requires
        directive_target_ok(t),
    ensures
        is_ascii_text(t + "="@ + threshold_name(th)),
{
    reveal_strlit("=");
    reveal_strlit("trace");
    reveal_strlit("debug");
    reveal_strlit("info");
    reveal_strlit("warn");
    reveal_strlit("error");
    reveal_strlit("off");
    let s = t + "="@ + threshold_name(th);
    assert forall|i: int| 0 <= i < s.len() implies ((#[trigger] s[i]) as u32) < 128 by {
        if i < t.len() {
            assert(s[i] == t[i]);
        } else if i == t.len() {
            assert(s[i] == '=');
        } else {
            assert(s[i] == threshold_name(th)[i - t.len() - 1]);
        }
    }
}

/// Every override of both standard filters names a plain target, so both
/// convert to runtime filters.
pub proof fn lemma_standard_targets_plain()
    ensures
        forall|k: int|
            0 <= k < telemetry_log_rules().len() ==> directive_target_ok(
                #[trigger] telemetry_log_rules()[k].0,
            ),
        forall|k: int|
            0 <= k < console_rules().len() ==> directive_target_ok(#[trigger] console_rules()[k].0),
{
    reveal_strlit("hyper");
    reveal_strlit("tonic");
    reveal_strlit("h2");
    reveal_strlit("reqwest");
    reveal_strlit("opentelemetry");
    let rules = console_rules();
    assert forall|k: int| 0 <= k < rules.len() implies directive_target_ok(#[trigger] rules[k].0) by {
        let t = rules[k].0;
        assert forall|i: int| 0 <= i < t.len() implies ((#[trigger] t[i]) as u32) < 128
            && !is_target_delimiter(t[i]) by {}
    }
    let short = telemetry_log_rules();
    assert forall|k: int| 0 <= k < short.len() implies directive_target_ok(#[trigger] short[k].0) by {
        assert(short[k] == rules[k]);
    }
}

} // verus!
