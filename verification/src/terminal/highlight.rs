//! Terminal output highlighting model.
//!
//! Highlighting is applied **only to plain text lines** and is suppressed while
//! the alternate screen buffer is active (see
//! [`AltScreenTracker`](crate::terminal::altscreen::AltScreenTracker)), so it
//! never corrupts full-screen TUIs like `vim`, `top`, or `htop`.

use vstd::prelude::*;
use vstd::string::*;

use crate::pattern;
use crate::pattern::Pattern;
use crate::terminal::error::TerminalError;

verus! {

/// A logical style applied to a matched span. Mapped to concrete colors by the
/// frontend, so themes stay a UI concern.
#[derive(Debug, Clone, Copy, PartialEq, Eq, Structural)]
pub enum HighlightStyle {
    Info,
    Warning,
    Error,
    Success,
    /// IP / MAC / network identifiers.
    Address,
    Accent,
}

impl HighlightStyle {
    /// What [`HighlightStyle::name`] says.
    pub open spec fn name_text(self) -> Seq<char> {
        match self {
            HighlightStyle::Info => "Info"@,
            HighlightStyle::Warning => "Warning"@,
            HighlightStyle::Error => "Error"@,
            HighlightStyle::Success => "Success"@,
            HighlightStyle::Address => "Address"@,
            HighlightStyle::Accent => "Accent"@,
        }
    }

    /// The name of the style.
    pub fn name(&self) -> (r: &'static str)
        ensures
            r@ == self.name_text(),
    {
        match self {
            HighlightStyle::Info => "Info",
            HighlightStyle::Warning => "Warning",
            HighlightStyle::Error => "Error",
            HighlightStyle::Success => "Success",
            HighlightStyle::Address => "Address",
            HighlightStyle::Accent => "Accent",
        }
    }
}

/// A single highlight rule (can be toggled off).
#[derive(Debug)]
pub struct HighlightRule {
    pub name: String,
    pub pattern: String,
    pub style: HighlightStyle,
    pub enabled: bool,
}

impl Clone for HighlightRule {
    fn clone(&self) -> (r: Self)
        ensures
            r == *self,
    {
        HighlightRule {
            name: self.name.clone(),
            pattern: self.pattern.clone(),
            style: self.style,
            enabled: self.enabled,
        }
    }
}

/// A named collection of rules (e.g. a vendor preset).
#[derive(Debug)]
pub struct HighlightProfile {
    pub name: String,
    pub rules: Vec<HighlightRule>,
}

impl Clone for HighlightProfile {
    fn clone(&self) -> (r: Self)
        ensures
            r.name == self.name,
            r.rules@ == self.rules@,
    {
        let rules = self.rules.clone();
        assert(rules@ =~= self.rules@);
        HighlightProfile { name: self.name.clone(), rules }
    }
}

struct CompiledRule {
    style: HighlightStyle,
    pattern: Pattern,
}

/// A span of a line that matched a rule, in bytes.
#[derive(Debug, Clone, Copy, PartialEq, Eq, Structural)]
pub struct HighlightSpan {
    pub start: usize,
    pub end: usize,
    pub style: HighlightStyle,
}

/// Whether two spans share a byte.
pub open spec fn overlap(a: HighlightSpan, b: HighlightSpan) -> bool {
    a.start < b.end && b.start < a.end
}

fn overlaps(a: &HighlightSpan, b: &HighlightSpan) -> (r: bool)
    ensures
        r == overlap(*a, *b),
{
    a.start < b.end && b.start < a.end
}

/// The matches of a rule as spans of its style.
pub open spec fn styled(style: HighlightStyle, matches: Seq<(usize, usize)>) -> Seq<
    HighlightSpan,
> {
    Seq::new(
        matches.len(),
        |i: int| HighlightSpan { start: matches[i].0, end: matches[i].1, style },
    )
}

/// The spans that all rules match, rule by rule.
pub open spec fn candidates(
    styles: Seq<HighlightStyle>,
    matches: Seq<Seq<(usize, usize)>>,
) -> Seq<HighlightSpan>
    decreases styles.len(),
{
    if styles.len() == 0 {
        Seq::empty()
    } else {
        candidates(styles.drop_last(), matches.drop_last()) + styled(
            styles.last(),
            matches[styles.len() - 1],
        )
    }
}

/// Whether a span shares a byte with one of these.
pub open spec fn collides(spans: Seq<HighlightSpan>, span: HighlightSpan) -> bool {
    exists|i: int| 0 <= i < spans.len() && overlap(#[trigger] spans[i], span)
}

/// The spans that stay: each one that does not collide with an earlier one that
/// stays.
pub open spec fn chosen(spans: Seq<HighlightSpan>) -> Seq<HighlightSpan>
    decreases spans.len(),
{
    if spans.len() == 0 {
        Seq::empty()
    } else {
        let earlier = chosen(spans.drop_last());
        if collides(earlier, spans.last()) {
            earlier
        } else {
            earlier.push(spans.last())
        }
    }
}

/// How many of these spans, from the left, begin no later than `start`.
pub open spec fn place_of(spans: Seq<HighlightSpan>, start: usize) -> int
    decreases spans.len(),
{
    if spans.len() == 0 || spans.last().start <= start {
        spans.len() as int
    } else {
        place_of(spans.drop_last(), start)
    }
}

/// The spans ordered by where they begin; those that begin at the same place
/// keep their order.
pub open spec fn by_start(spans: Seq<HighlightSpan>) -> Seq<HighlightSpan>
    decreases spans.len(),
{
    if spans.len() == 0 {
        Seq::empty()
    } else {
        let sorted = by_start(spans.drop_last());
        sorted.insert(place_of(sorted, spans.last().start), spans.last())
    }
}

/// The highlighting of a line on which the rules have these matches.
pub open spec fn highlighting(
    styles: Seq<HighlightStyle>,
    matches: Seq<Seq<(usize, usize)>>,
) -> Seq<HighlightSpan> {
    by_start(chosen(candidates(styles, matches)))
}

/// The elements of nested vectors.
pub open spec fn nested(v: Seq<Vec<(usize, usize)>>) -> Seq<Seq<(usize, usize)>> {
    Seq::new(v.len(), |i: int| v[i]@)
}

fn insert_by_start(sorted: &mut Vec<HighlightSpan>, span: HighlightSpan)
    ensures
        final(sorted)@ == old(sorted)@.insert(place_of(old(sorted)@, span.start), span),
{
    let mut at: usize = sorted.len();
    assert(sorted@.take(sorted@.len() as int) =~= sorted@);
    while at > 0 && sorted[at - 1].start > span.start
        invariant
            at <= sorted@.len(),
            *sorted == *old(sorted),
            place_of(sorted@, span.start) == place_of(sorted@.take(at as int), span.start),
        decreases at,
    {
        assert(sorted@.take(at as int).drop_last() =~= sorted@.take(at - 1));
        at = at - 1;
    }
    sorted.insert(at, span);
}

/// The highlighting of a line, from the matches that each rule has on it: the
/// first rule wins on overlap, and the spans come out in order.
pub fn spans_of_matches(styles: &Vec<HighlightStyle>, matches: &Vec<Vec<(usize, usize)>>) -> (r:
    Vec<HighlightSpan>)
    requires
        styles@.len() == matches@.len(),
    ensures
        r@ == highlighting(styles@, nested(matches@)),
{
    let ghost all = nested(matches@);
    let mut kept: Vec<HighlightSpan> = Vec::new();
    assert(styles@.take(0) =~= Seq::empty());
    for k in 0..styles.len()
        invariant
            styles@.len() == matches@.len(),
            all == nested(matches@),
            kept@ == chosen(candidates(styles@.take(k as int), all.take(k as int))),
    {
        let rule_matches: &Vec<(usize, usize)> = &matches[k];
        let style: HighlightStyle = styles[k];
        let ghost before = candidates(styles@.take(k as int), all.take(k as int));
        let ghost mine = styled(style, rule_matches@);
        assert(before + mine.take(0) =~= before);
        for j in 0..rule_matches.len()
            invariant
                mine == styled(style, rule_matches@),
                kept@ == chosen(before + mine.take(j as int)),
        {
            let candidate = HighlightSpan {
                start: rule_matches[j].0,
                end: rule_matches[j].1,
                style,
            };
            let mut hit: bool = false;
            for i in 0..kept.len()
                invariant
                    hit == exists|q: int| 0 <= q < i && overlap(#[trigger] kept@[q], candidate),
            {
                if overlaps(&kept[i], &candidate) {
                    hit = true;
                }
            }
            assert((before + mine.take(j + 1)).drop_last() =~= before + mine.take(j as int));
            assert((before + mine.take(j + 1)).last() == candidate);
            if !hit {
                kept.push(candidate);
            }
        }
        assert(mine.take(mine.len() as int) =~= mine);
        assert(styles@.take(k + 1).drop_last() =~= styles@.take(k as int));
        assert(all.take(k + 1).drop_last() =~= all.take(k as int));
    }
    assert(styles@.take(styles@.len() as int) =~= styles@);
    assert(all.take(all.len() as int) =~= all);
    let mut sorted: Vec<HighlightSpan> = Vec::new();
    assert(kept@.take(0) =~= Seq::empty());
    for k in 0..kept.len()
        invariant
            sorted@ == by_start(kept@.take(k as int)),
    {
        assert(kept@.take(k + 1).drop_last() =~= kept@.take(k as int));
        insert_by_start(&mut sorted, kept[k]);
    }
    assert(kept@.take(kept@.len() as int) =~= kept@);
    sorted
}

/// What a highlighter needs of a rule: its style and its pattern.
pub open spec fn style_and_pattern(rule: HighlightRule) -> (HighlightStyle, Seq<char>) {
    (rule.style, rule.pattern@)
}

/// The enabled ones of these rules, in order.
pub open spec fn enabled_rules(rules: Seq<HighlightRule>) -> Seq<(HighlightStyle, Seq<char>)>
    decreases rules.len(),
{
    if rules.len() == 0 {
        Seq::empty()
    } else if rules.last().enabled {
        enabled_rules(rules.drop_last()).push(style_and_pattern(rules.last()))
    } else {
        enabled_rules(rules.drop_last())
    }
}

/// Whether `at` is the first enabled rule that has an error.
pub open spec fn is_first_bad_rule(
    rules: Seq<HighlightRule>,
    errors: Seq<Option<Seq<char>>>,
    at: int,
) -> bool {
    &&& 0 <= at < rules.len()
    &&& rules[at].enabled
    &&& errors[at] is Some
    &&& forall|i: int| 0 <= i < at && #[trigger] rules[i].enabled ==> errors[i] is None
}

/// The outcome of compiling these rules, of which each has this error or none:
/// the first enabled rule with an error is reported.
pub open spec fn rules_verdict(
    rules: Seq<HighlightRule>,
    errors: Seq<Option<Seq<char>>>,
    error: Option<TerminalError>,
) -> bool {
    match error {
        None => forall|i: int| 0 <= i < rules.len() && #[trigger] rules[i].enabled ==> errors[i]
            is None,
        Some(TerminalError::BadRegex { name, source }) => exists|at: int|
            {
                &&& #[trigger] is_first_bad_rule(rules, errors, at)
                &&& name == rules[at].name
                &&& errors[at] == Some(source@)
            },
        Some(_) => false,
    }
}

/// The errors as characters.
pub open spec fn error_texts(errors: Seq<Option<String>>) -> Seq<Option<Seq<char>>> {
    Seq::new(
        errors.len(),
        |i: int|
            match errors[i] {
                Some(why) => Some(why@),
                None => None,
            },
    )
}

/// What to report when the patterns of these rules have these compile errors.
pub fn check_rules(rules: &Vec<HighlightRule>, errors: &Vec<Option<String>>) -> (r: Result<
    (),
    TerminalError,
>)
    requires
        rules@.len() == errors@.len(),
    ensures
        rules_verdict(rules@, error_texts(errors@), r.err()),
{
    for k in 0..rules.len()
        invariant
            rules@.len() == errors@.len(),
            forall|i: int|
                0 <= i < k && #[trigger] rules@[i].enabled ==> error_texts(errors@)[i] is None,
    {
        if rules[k].enabled {
            if let Some(why) = &errors[k] {
                assert(is_first_bad_rule(rules@, error_texts(errors@), k as int));
                return Err(
                    TerminalError::BadRegex { name: rules[k].name.clone(), source: why.clone() },
                );
            }
        }
    }
    Ok(())
}

/// The compile errors of the patterns of these rules.
pub open spec fn pattern_errors(rules: Seq<HighlightRule>) -> Seq<Option<Seq<char>>> {
    Seq::new(rules.len(), |i: int| pattern::error_in(rules[i].pattern@))
}

/// Compiles enabled rules and produces highlight spans for plain text lines.
pub struct LineHighlighter {
    rules: Vec<CompiledRule>,
}

impl View for LineHighlighter {
    type V = Seq<(HighlightStyle, Seq<char>)>;

    /// The style and the pattern of each rule in use.
    closed spec fn view(&self) -> Seq<(HighlightStyle, Seq<char>)> {
        Seq::new(self.rules@.len(), |i: int| (self.rules@[i].style, self.rules@[i].pattern@))
    }
}

/// The matches that each of these rules has on a line.
pub open spec fn matches_on(rules: Seq<(HighlightStyle, Seq<char>)>, line: Seq<char>) -> Seq<
    Seq<(usize, usize)>,
> {
    Seq::new(rules.len(), |i: int| pattern::all_matches(rules[i].1, line))
}

/// The styles of these rules.
pub open spec fn styles_of(rules: Seq<(HighlightStyle, Seq<char>)>) -> Seq<HighlightStyle> {
    Seq::new(rules.len(), |i: int| rules[i].0)
}

impl LineHighlighter {
    /// Compile the enabled rules from a profile. The first enabled rule whose
    /// pattern does not compile is reported.
    pub fn from_profile(profile: &HighlightProfile) -> (r: Result<LineHighlighter, TerminalError>)
        ensures
            rules_verdict(profile.rules@, pattern_errors(profile.rules@), r.err()),
            r matches Ok(highlighter) ==> highlighter@ == enabled_rules(profile.rules@),
            r matches Ok(highlighter) ==> highlighter@ == profile.rules@.filter(
                |rule: HighlightRule| rule.enabled,
            ).map_values(|rule: HighlightRule| (rule.style, rule.pattern@)),
            r is Ok <==> forall|i: int|
                0 <= i < profile.rules@.len() && #[trigger] profile.rules@[i].enabled
                    ==> pattern::regex_error(profile.rules@[i].pattern@, usize::BITS as nat)
                    is None,
            r matches Err(e) ==> (e matches TerminalError::BadRegex { name, source } && exists|
                at: int,
            |
                {
                    &&& 0 <= at < profile.rules@.len()
                    &&& #[trigger] profile.rules@[at].enabled
                    &&& name == profile.rules@[at].name
                    &&& pattern::regex_error(profile.rules@[at].pattern@, usize::BITS as nat)
                        == Some(source@)
                    &&& forall|i: int|
                        0 <= i < at && #[trigger] profile.rules@[i].enabled
                            ==> pattern::regex_error(
                            profile.rules@[i].pattern@,
                            usize::BITS as nat,
                        ) is None
                }),
    {
        let all: &Vec<HighlightRule> = &profile.rules;
        let mut rules: Vec<CompiledRule> = Vec::new();
        let mut errors: Vec<Option<String>> = Vec::new();
        let ghost mut clean: bool = true;
        let ghost mut used: Seq<(HighlightStyle, Seq<char>)> = Seq::empty();
        for k in 0..all.len()
            invariant
                all@ == profile.rules@,
                errors@.len() == k,
                forall|i: int|
                    0 <= i < k && #[trigger] all@[i].enabled ==> error_texts(errors@)[i]
                        == pattern::error_in(all@[i].pattern@),
                used == Seq::new(
                    rules@.len(),
                    |i: int| (rules@[i].style, rules@[i].pattern@),
                ),
                clean == (forall|i: int|
                    0 <= i < k && #[trigger] all@[i].enabled ==> pattern::error_in(all@[i].pattern@)
                        is None),
                clean ==> used == enabled_rules(all@.take(k as int)),
        {
            let ghost errors_before = errors@;
            assert(all@.take(k + 1).drop_last() =~= all@.take(k as int));
            if all[k].enabled {
                match Pattern::compile(all[k].pattern.as_str()) {
                    Ok(pattern) => {
                        rules.push(CompiledRule { style: all[k].style, pattern });
                        errors.push(None);
                        proof {
                            used = used.push(style_and_pattern(all@[k as int]));
                        }
                    },
                    Err(why) => {
                        errors.push(Some(why));
                        proof {
                            clean = false;
                        }
                    },
                }
            } else {
                errors.push(None);
            }
            proof {
                assert forall|i: int| 0 <= i < k implies error_texts(errors@)[i] == error_texts(
                    errors_before,
                )[i] by {}
                assert(all@[k as int].enabled || !all@[k as int].enabled);
                assert(used =~= Seq::new(
                    rules@.len(),
                    |i: int| (rules@[i].style, rules@[i].pattern@),
                ));
            }
        }
        assert(all@.take(all@.len() as int) =~= all@);
        match check_rules(all, &errors) {
            Ok(()) => {
                assert forall|i: int| 0 <= i < all@.len() && #[trigger] all@[i].enabled implies
                    pattern::error_in(all@[i].pattern@) is None by {
                    assert(error_texts(errors@)[i] is None);
                }
                let r = LineHighlighter { rules };
                assert(r@ =~= used);
                proof {
                    law_rules_in_use_are_the_enabled_ones(all@);
                }
                Ok(r)
            },
            Err(e) => {
                proof {
                    let at = choose|at: int| #[trigger]
                        is_first_bad_rule(all@, error_texts(errors@), at) && e
                            == (TerminalError::BadRegex {
                            name: all@[at].name,
                            source: e->source,
                        }) && error_texts(errors@)[at] == Some(e->source@);
                    assert(all@[at].enabled);
                    assert(is_first_bad_rule(all@, pattern_errors(all@), at));
                    assert(pattern_errors(all@)[at] is Some);
                    assert forall|i: int| 0 <= i < at && #[trigger] all@[i].enabled implies
                        pattern::regex_error(all@[i].pattern@, usize::BITS as nat) is None by {
                        assert(pattern_errors(all@)[i] is None);
                    }
                }
                Err(e)
            },
        }
    }

    /// Return non-overlapping spans for a single plain-text line.
    ///
    /// `line` must not contain escape sequences: callers gate this on
    /// `AltScreenTracker::in_alt_screen()` being false and on the chunk being
    /// cooked text. First matching rule wins on overlap.
    pub fn spans(&self, line: &str) -> (r: Vec<HighlightSpan>)
        ensures
            r@ == highlighting(styles_of(self@), matches_on(self@, line@)),
            forall|i: int|
                0 <= i < r@.len() ==> pattern::is_range_of(
                    line@,
                    (#[trigger] r@[i].start, r@[i].end),
                ),
            all_successive(matches_on(self@, line@)),
    {
        let mut styles: Vec<HighlightStyle> = Vec::new();
        let mut matches: Vec<Vec<(usize, usize)>> = Vec::new();
        for k in 0..self.rules.len()
            invariant
                styles@ == styles_of(self@).take(k as int),
                nested(matches@) == matches_on(self@, line@).take(k as int),
                all_in_range(nested(matches@), line@),
                all_successive(nested(matches@)),
        {
            let ghost before = nested(matches@);
            let found: Vec<(usize, usize)> = self.rules[k].pattern.find_iter(line);
            styles.push(self.rules[k].style);
            matches.push(found);
            assert(nested(matches@) =~= before.push(found@));
        }
        assert(styles@ =~= styles_of(self@));
        assert(nested(matches@) =~= matches_on(self@, line@));
        proof {
            lemma_highlighting_in_range(styles@, nested(matches@), line@);
        }
        spans_of_matches(&styles, &matches)
    }
}

/// Whether a rule is enabled and has this name, pattern and style.
pub open spec fn is_builtin_rule(
    rule: HighlightRule,
    name: Seq<char>,
    pattern: Seq<char>,
    style: HighlightStyle,
) -> bool {
    &&& rule.name@ == name
    &&& rule.pattern@ == pattern
    &&& rule.style == style
    &&& rule.enabled
}

/// Built-in highlight presets. Network-vendor presets (Cisco, MikroTik, Huawei,
/// Juniper, Eltex, ZTE, ...) are added here as additional [`HighlightProfile`]s.
pub fn builtin_profiles() -> (r: Vec<HighlightProfile>)
    ensures
        r@.len() == 1,
        r@[0].name@ == "generic-network"@,
        r@[0].rules@.len() == 5,
        is_builtin_rule(
            r@[0].rules@[0],
            "ipv4"@,
            r"\b(?:\d{1,3}\.){3}\d{1,3}\b"@,
            HighlightStyle::Address,
        ),
        is_builtin_rule(
            r@[0].rules@[1],
            "mac"@,
            r"\b(?:[0-9A-Fa-f]{2}[:-]){5}[0-9A-Fa-f]{2}\b"@,
            HighlightStyle::Address,
        ),
        is_builtin_rule(
            r@[0].rules@[2],
            "error"@,
            r"(?i)\b(error|failed|down|denied)\b"@,
            HighlightStyle::Error,
        ),
        is_builtin_rule(
            r@[0].rules@[3],
            "warning"@,
            r"(?i)\b(warn(?:ing)?|deprecated)\b"@,
            HighlightStyle::Warning,
        ),
        is_builtin_rule(
            r@[0].rules@[4],
            "up-ok"@,
            r"(?i)\b(up|ok|success|established)\b"@,
            HighlightStyle::Success,
        ),
{
    let rules: Vec<HighlightRule> = vec![
        HighlightRule {
            name: "ipv4".to_string(),
            pattern: r"\b(?:\d{1,3}\.){3}\d{1,3}\b".to_string(),
            style: HighlightStyle::Address,
            enabled: true,
        },
        HighlightRule {
            name: "mac".to_string(),
            pattern: r"\b(?:[0-9A-Fa-f]{2}[:-]){5}[0-9A-Fa-f]{2}\b".to_string(),
            style: HighlightStyle::Address,
            enabled: true,
        },
        HighlightRule {
            name: "error".to_string(),
            pattern: r"(?i)\b(error|failed|down|denied)\b".to_string(),
            style: HighlightStyle::Error,
            enabled: true,
        },
        HighlightRule {
            name: "warning".to_string(),
            pattern: r"(?i)\b(warn(?:ing)?|deprecated)\b".to_string(),
            style: HighlightStyle::Warning,
            enabled: true,
        },
        HighlightRule {
            name: "up-ok".to_string(),
            pattern: r"(?i)\b(up|ok|success|established)\b".to_string(),
            style: HighlightStyle::Success,
            enabled: true,
        },
    ];
    vec![HighlightProfile { name: "generic-network".to_string(), rules }]
}

// ---------------------------------------------------------------------------
// Laws
// ---------------------------------------------------------------------------

/// Whether every match can be cut out of the line.
pub open spec fn all_in_range(matches: Seq<Seq<(usize, usize)>>, line: Seq<char>) -> bool {
    forall|i: int, j: int|
        0 <= i < matches.len() && 0 <= j < matches[i].len() ==> pattern::is_range_of(
            line,
            #[trigger] matches[i][j],
        )
}

/// Whether the matches of each rule come one behind the other.
pub open spec fn all_successive(matches: Seq<Seq<(usize, usize)>>) -> bool {
    forall|i: int| 0 <= i < matches.len() ==> pattern::successive(#[trigger] matches[i])
}

proof fn lemma_place_of(spans: Seq<HighlightSpan>, start: usize)
    requires
        forall|i: int, j: int| 0 <= i <= j < spans.len() ==> spans[i].start <= spans[j].start,
    ensures
        0 <= place_of(spans, start) <= spans.len(),
        forall|i: int| 0 <= i < place_of(spans, start) ==> #[trigger] spans[i].start <= start,
        forall|i: int|
            place_of(spans, start) <= i < spans.len() ==> #[trigger] spans[i].start > start,
    decreases spans.len(),
{
    if spans.len() > 0 && spans.last().start > start {
        let shorter = spans.drop_last();
        lemma_place_of(shorter, start);
        assert forall|i: int| 0 <= i < place_of(spans, start) implies #[trigger] spans[i].start
            <= start by {
            assert(shorter[i].start <= start);
        }
        assert forall|i: int| place_of(spans, start) <= i < spans.len() implies #[trigger] spans[i].start
            > start by {
            if i < shorter.len() {
                assert(shorter[i].start > start);
            }
        }
    }
}

proof fn lemma_by_start_sorted(spans: Seq<HighlightSpan>)
    ensures
        by_start(spans).len() == spans.len(),
        forall|i: int, j: int|
            0 <= i <= j < by_start(spans).len() ==> by_start(spans)[i].start <= by_start(
                spans,
            )[j].start,
    decreases spans.len(),
{
    if spans.len() > 0 {
        let sorted = by_start(spans.drop_last());
        lemma_by_start_sorted(spans.drop_last());
        lemma_place_of(sorted, spans.last().start);
        let at = place_of(sorted, spans.last().start);
        let r = by_start(spans);
        assert forall|i: int, j: int| 0 <= i <= j < r.len() implies r[i].start <= r[j].start by {
            let a = if i < at { i } else { i - 1 };
            let b = if j < at { j } else { j - 1 };
            if i != at && j != at {
                assert(sorted[a].start <= sorted[b].start);
            }
        }
    }
}

/// Sorting keeps the spans.
proof fn lemma_by_start_members(spans: Seq<HighlightSpan>)
    ensures
        forall|i: int|
            0 <= i < by_start(spans).len() ==> spans.contains(#[trigger] by_start(spans)[i]),
        forall|i: int|
            0 <= i < spans.len() ==> by_start(spans).contains(#[trigger] spans[i]),
    decreases spans.len(),
{
    if spans.len() > 0 {
        let shorter = spans.drop_last();
        let sorted = by_start(shorter);
        lemma_by_start_members(shorter);
        lemma_by_start_sorted(shorter);
        lemma_place_of(sorted, spans.last().start);
        let at = place_of(sorted, spans.last().start);
        let r = by_start(spans);
        assert forall|i: int| 0 <= i < r.len() implies spans.contains(#[trigger] r[i]) by {
            if i == at {
                assert(spans[spans.len() - 1] == r[i]);
            } else {
                let a = if i < at { i } else { i - 1 };
                assert(shorter.contains(sorted[a]));
                let k = choose|k: int| 0 <= k < shorter.len() && shorter[k] == sorted[a];
                assert(spans[k] == r[i]);
            }
        }
        assert forall|i: int| 0 <= i < spans.len() implies r.contains(#[trigger] spans[i]) by {
            if i == spans.len() - 1 {
                assert(r[at] == spans[i]);
            } else {
                assert(sorted.contains(shorter[i]));
                let k = choose|k: int| 0 <= k < sorted.len() && sorted[k] == shorter[i];
                assert(r[if k < at { k } else { k + 1 }] == spans[i]);
            }
        }
    }
}

/// Whether no two of these spans share a byte.
pub open spec fn disjoint(spans: Seq<HighlightSpan>) -> bool {
    forall|i: int, j: int|
        0 <= i < spans.len() && 0 <= j < spans.len() && i != j ==> !overlap(
            #[trigger] spans[i],
            #[trigger] spans[j],
        )
}

proof fn lemma_chosen_disjoint(spans: Seq<HighlightSpan>)
    ensures
        disjoint(chosen(spans)),
    decreases spans.len(),
{
    if spans.len() > 0 {
        lemma_chosen_disjoint(spans.drop_last());
    }
}

proof fn lemma_chosen_members(spans: Seq<HighlightSpan>)
    ensures
        forall|i: int|
            0 <= i < chosen(spans).len() ==> spans.contains(#[trigger] chosen(spans)[i]),
    decreases spans.len(),
{
    if spans.len() > 0 {
        let shorter = spans.drop_last();
        lemma_chosen_members(shorter);
        assert forall|i: int| 0 <= i < chosen(spans).len() implies spans.contains(
            #[trigger] chosen(spans)[i],
        ) by {
            if i < chosen(shorter).len() {
                assert(shorter.contains(chosen(shorter)[i]));
                let k = choose|k: int| 0 <= k < shorter.len() && shorter[k] == chosen(shorter)[i];
                assert(spans[k] == chosen(spans)[i]);
            } else {
                assert(spans[spans.len() - 1] == chosen(spans)[i]);
            }
        }
    }
}

proof fn lemma_by_start_disjoint(spans: Seq<HighlightSpan>)
    requires
        disjoint(spans),
    ensures
        disjoint(by_start(spans)),
    decreases spans.len(),
{
    if spans.len() > 0 {
        let shorter = spans.drop_last();
        let last = spans.last();
        let sorted = by_start(shorter);
        lemma_by_start_disjoint(shorter);
        lemma_by_start_members(shorter);
        lemma_by_start_sorted(shorter);
        lemma_place_of(sorted, last.start);
        let at = place_of(sorted, last.start);
        let r = by_start(spans);
        assert forall|k: int| 0 <= k < sorted.len() implies !overlap(#[trigger] sorted[k], last)
            && !overlap(last, sorted[k]) by {
            assert(shorter.contains(sorted[k]));
            let q = choose|q: int| 0 <= q < shorter.len() && shorter[q] == sorted[k];
            assert(!overlap(spans[q], spans[spans.len() - 1]));
        }
        assert forall|i: int, j: int|
            0 <= i < r.len() && 0 <= j < r.len() && i != j implies !overlap(
            #[trigger] r[i],
            #[trigger] r[j],
        ) by {
            let a = if i < at { i } else { i - 1 };
            let b = if j < at { j } else { j - 1 };
            if i == at {
                assert(!overlap(last, sorted[b]));
            } else if j == at {
                assert(!overlap(sorted[a], last));
            } else {
                assert(!overlap(sorted[a], sorted[b]));
            }
        }
    }
}

proof fn lemma_candidates_in_range(
    styles: Seq<HighlightStyle>,
    matches: Seq<Seq<(usize, usize)>>,
    line: Seq<char>,
)
    requires
        styles.len() == matches.len(),
        all_in_range(matches, line),
    ensures
        forall|i: int|
            0 <= i < candidates(styles, matches).len() ==> pattern::is_range_of(
                line,
                (#[trigger] candidates(styles, matches)[i].start, candidates(styles, matches)[i].end),
            ),
    decreases styles.len(),
{
    if styles.len() > 0 {
        let shorter = matches.drop_last();
        assert forall|i: int, j: int|
            0 <= i < shorter.len() && 0 <= j < shorter[i].len() implies pattern::is_range_of(
            line,
            #[trigger] shorter[i][j],
        ) by {
            assert(shorter[i][j] == matches[i][j]);
        }
        lemma_candidates_in_range(styles.drop_last(), shorter, line);
        let earlier = candidates(styles.drop_last(), shorter);
        let mine = styled(styles.last(), matches[styles.len() - 1]);
        let all = candidates(styles, matches);
        assert forall|i: int| 0 <= i < all.len() implies pattern::is_range_of(
            line,
            (#[trigger] all[i].start, all[i].end),
        ) by {
            if i < earlier.len() {
                assert(all[i] == earlier[i]);
            } else {
                assert(all[i] == mine[i - earlier.len()]);
                assert(pattern::is_range_of(
                    line,
                    matches[styles.len() - 1][i - earlier.len()],
                ));
            }
        }
    }
}

proof fn lemma_highlighting_in_range(
    styles: Seq<HighlightStyle>,
    matches: Seq<Seq<(usize, usize)>>,
    line: Seq<char>,
)
    requires
        styles.len() == matches.len(),
        all_in_range(matches, line),
    ensures
        forall|i: int|
            0 <= i < highlighting(styles, matches).len() ==> pattern::is_range_of(
                line,
                (
                    #[trigger] highlighting(styles, matches)[i].start,
                    highlighting(styles, matches)[i].end,
                ),
            ),
{
    let all = candidates(styles, matches);
    let kept = chosen(all);
    let r = by_start(kept);
    lemma_candidates_in_range(styles, matches, line);
    lemma_chosen_members(all);
    lemma_by_start_members(kept);
    assert forall|i: int| 0 <= i < r.len() implies pattern::is_range_of(
        line,
        (#[trigger] r[i].start, r[i].end),
    ) by {
        assert(kept.contains(r[i]));
        let k = choose|k: int| 0 <= k < kept.len() && kept[k] == r[i];
        assert(all.contains(kept[k]));
        let q = choose|q: int| 0 <= q < all.len() && all[q] == kept[k];
        assert(all[q] == r[i]);
    }
}

/// The spans of a line never overlap.
pub proof fn law_spans_do_not_overlap(
    styles: Seq<HighlightStyle>,
    matches: Seq<Seq<(usize, usize)>>,
)
    ensures
        disjoint(highlighting(styles, matches)),
{
    lemma_chosen_disjoint(candidates(styles, matches));
    lemma_by_start_disjoint(chosen(candidates(styles, matches)));
}

/// The spans of a line come in the order in which they begin.
pub proof fn law_spans_are_ordered(styles: Seq<HighlightStyle>, matches: Seq<Seq<(usize, usize)>>)
    ensures
        forall|i: int, j: int|
            0 <= i <= j < highlighting(styles, matches).len() ==> highlighting(
                styles,
                matches,
            )[i].start <= highlighting(styles, matches)[j].start,
{
    lemma_by_start_sorted(chosen(candidates(styles, matches)));
}

proof fn lemma_chosen_or_collides(spans: Seq<HighlightSpan>, at: int)
    requires
        0 <= at < spans.len(),
    ensures
        chosen(spans).contains(spans[at]) || collides(chosen(spans.take(at)), spans[at]),
        forall|i: int|
            0 <= i < chosen(spans.take(at)).len() ==> chosen(spans).contains(
                #[trigger] chosen(spans.take(at))[i],
            ),
    decreases spans.len(),
{
    let shorter = spans.drop_last();
    let r = chosen(spans);
    if at < shorter.len() {
        lemma_chosen_or_collides(shorter, at);
        assert(shorter.take(at) =~= spans.take(at));
        let early = chosen(spans.take(at));
        assert forall|span: HighlightSpan| chosen(shorter).contains(span) implies r.contains(
            span,
        ) by {
            let k = choose|k: int| 0 <= k < chosen(shorter).len() && chosen(shorter)[k] == span;
            assert(r[k] == span);
        }
    } else {
        assert(spans.take(at) =~= shorter);
        if !collides(chosen(shorter), spans[at]) {
            assert(r[chosen(shorter).len() as int] == spans[at]);
        }
        assert forall|i: int| 0 <= i < chosen(shorter).len() implies r.contains(
            #[trigger] chosen(shorter)[i],
        ) by {
            assert(r[i] == chosen(shorter)[i]);
        }
    }
}

/// A match is highlighted unless it shares a byte with a highlighted match of an
/// earlier rule, or an earlier one of its own rule.
pub proof fn law_earlier_match_wins(
    styles: Seq<HighlightStyle>,
    matches: Seq<Seq<(usize, usize)>>,
    at: int,
)
    requires
        0 <= at < candidates(styles, matches).len(),
    ensures
        highlighting(styles, matches).contains(candidates(styles, matches)[at]) || exists|
            earlier: int,
        |
            {
                &&& 0 <= earlier < at
                &&& overlap(
                    #[trigger] candidates(styles, matches)[earlier],
                    candidates(styles, matches)[at],
                )
                &&& highlighting(styles, matches).contains(candidates(styles, matches)[earlier])
            },
{
    let all = candidates(styles, matches);
    let kept = chosen(all);
    let r = highlighting(styles, matches);
    lemma_chosen_or_collides(all, at);
    lemma_by_start_members(kept);
    if kept.contains(all[at]) {
        let k = choose|k: int| 0 <= k < kept.len() && kept[k] == all[at];
        assert(r.contains(kept[k]));
    } else {
        let early = chosen(all.take(at));
        let i = choose|i: int| 0 <= i < early.len() && overlap(#[trigger] early[i], all[at]);
        lemma_chosen_members(all.take(at));
        assert(all.take(at).contains(early[i]));
        let q = choose|q: int| 0 <= q < all.take(at).len() && #[trigger] all.take(at)[q] == early[i];
        assert(all[q] == early[i]);
        assert(kept.contains(early[i]));
        let k = choose|k: int| 0 <= k < kept.len() && kept[k] == early[i];
        assert(r.contains(kept[k]));
    }
}

/// How many matches the rules before `rule` have.
spec fn matches_before(
    styles: Seq<HighlightStyle>,
    matches: Seq<Seq<(usize, usize)>>,
    rule: int,
) -> int {
    candidates(styles.take(rule), matches.take(rule)).len() as int
}

proof fn lemma_matches_before(
    styles: Seq<HighlightStyle>,
    matches: Seq<Seq<(usize, usize)>>,
    rule: int,
    later: int,
)
    requires
        styles.len() == matches.len(),
        0 <= rule < later <= styles.len(),
    ensures
        matches_before(styles, matches, rule) + matches[rule].len() <= matches_before(
            styles,
            matches,
            later,
        ),
    decreases later,
{
    assert(styles.take(later).drop_last() =~= styles.take(later - 1));
    assert(matches.take(later).drop_last() =~= matches.take(later - 1));
    if rule < later - 1 {
        lemma_matches_before(styles, matches, rule, later - 1);
    }
}

proof fn lemma_candidate_at(
    styles: Seq<HighlightStyle>,
    matches: Seq<Seq<(usize, usize)>>,
    rule: int,
    at: int,
)
    requires
        styles.len() == matches.len(),
        0 <= rule < styles.len(),
        0 <= at < matches[rule].len(),
    ensures
        matches_before(styles, matches, rule) + at < candidates(styles, matches).len(),
        candidates(styles, matches)[matches_before(styles, matches, rule) + at] == styled(
            styles[rule],
            matches[rule],
        )[at],
    decreases styles.len(),
{
    let fewer = styles.drop_last();
    let others = matches.drop_last();
    if rule < fewer.len() {
        lemma_candidate_at(fewer, others, rule, at);
        assert(fewer.take(rule) =~= styles.take(rule));
        assert(others.take(rule) =~= matches.take(rule));
    } else {
        assert(fewer =~= styles.take(rule));
        assert(others =~= matches.take(rule));
    }
}

proof fn lemma_candidate_has_rule(
    styles: Seq<HighlightStyle>,
    matches: Seq<Seq<(usize, usize)>>,
    place: int,
) -> (found: (int, int))
    requires
        styles.len() == matches.len(),
        0 <= place < candidates(styles, matches).len(),
    ensures
        0 <= found.0 < styles.len(),
        0 <= found.1 < matches[found.0].len(),
        place == matches_before(styles, matches, found.0) + found.1,
    decreases styles.len(),
{
    let fewer = styles.drop_last();
    let others = matches.drop_last();
    let earlier = candidates(fewer, others);
    if place < earlier.len() {
        let found = lemma_candidate_has_rule(fewer, others, place);
        assert(fewer.take(found.0) =~= styles.take(found.0));
        assert(others.take(found.0) =~= matches.take(found.0));
        found
    } else {
        let last = styles.len() - 1;
        assert(fewer =~= styles.take(last));
        assert(others =~= matches.take(last));
        (last, place - earlier.len())
    }
}

/// First matching rule wins: where the matches of each rule come one behind the
/// other, a match is highlighted unless it shares a byte with a highlighted
/// match of an earlier rule.
pub proof fn law_first_rule_wins(
    styles: Seq<HighlightStyle>,
    matches: Seq<Seq<(usize, usize)>>,
    rule: int,
    at: int,
)
    requires
        styles.len() == matches.len(),
        all_successive(matches),
        0 <= rule < styles.len(),
        0 <= at < matches[rule].len(),
    ensures
        highlighting(styles, matches).contains(styled(styles[rule], matches[rule])[at]) || exists|
            winner: int,
            place: int,
        |
            {
                &&& 0 <= winner < rule
                &&& 0 <= place < matches[winner].len()
                &&& overlap(
                    #[trigger] styled(styles[winner], matches[winner])[place],
                    styled(styles[rule], matches[rule])[at],
                )
                &&& highlighting(styles, matches).contains(
                    styled(styles[winner], matches[winner])[place],
                )
            },
{
    let all = candidates(styles, matches);
    let r = highlighting(styles, matches);
    let mine = matches_before(styles, matches, rule) + at;
    lemma_candidate_at(styles, matches, rule, at);
    law_earlier_match_wins(styles, matches, mine);
    if !r.contains(all[mine]) {
        let earlier = choose|earlier: int|
            {
                &&& 0 <= earlier < mine
                &&& overlap(#[trigger] all[earlier], all[mine])
                &&& r.contains(all[earlier])
            };
        let (winner, place) = lemma_candidate_has_rule(styles, matches, earlier);
        lemma_candidate_at(styles, matches, winner, place);
        if rule < winner {
            lemma_matches_before(styles, matches, rule, winner);
        }
        if winner == rule {
            assert(pattern::successive(matches[rule]));
            assert(matches[rule][place].1 <= matches[rule][at].0);
        }
        assert(overlap(
            styled(styles[winner], matches[winner])[place],
            styled(styles[rule], matches[rule])[at],
        ));
    }
}

/// The rules in use are the enabled ones of a profile and no others, each with
/// its style and pattern, in the order of the profile.
pub proof fn law_rules_in_use_are_the_enabled_ones(rules: Seq<HighlightRule>)
    ensures
        enabled_rules(rules) == rules.filter(|rule: HighlightRule| rule.enabled).map_values(
            |rule: HighlightRule| (rule.style, rule.pattern@),
        ),
        forall|k: int|
            0 <= k < rules.len() && (#[trigger] rules[k]).enabled ==> enabled_rules(rules).contains(
                (rules[k].style, rules[k].pattern@),
            ),
        forall|i: int|
            0 <= i < enabled_rules(rules).len() ==> exists|k: int|
                {
                    &&& 0 <= k < rules.len()
                    &&& (#[trigger] rules[k]).enabled
                    &&& #[trigger] enabled_rules(rules)[i] == (rules[k].style, rules[k].pattern@)
                },
        (forall|k: int| 0 <= k < rules.len() ==> !(#[trigger] rules[k]).enabled)
            ==> enabled_rules(rules).len() == 0,
        (forall|k: int| 0 <= k < rules.len() ==> (#[trigger] rules[k]).enabled) ==> enabled_rules(
            rules,
        ).len() == rules.len(),
    decreases rules.len(),
{
    reveal(Seq::filter);
    let on = |rule: HighlightRule| rule.enabled;
    let used = |rule: HighlightRule| (rule.style, rule.pattern@);
    let all = enabled_rules(rules);
    if rules.len() == 0 {
        assert(all =~= rules.filter(on).map_values(used));
    } else {
        let fewer = rules.drop_last();
        let earlier = enabled_rules(fewer);
        law_rules_in_use_are_the_enabled_ones(fewer);
        assert(all =~= rules.filter(on).map_values(used));
        assert forall|k: int| 0 <= k < rules.len() && (#[trigger] rules[k]).enabled implies all.contains(
            (rules[k].style, rules[k].pattern@),
        ) by {
            if k < fewer.len() {
                assert(fewer[k].enabled);
                let i = choose|i: int|
                    0 <= i < earlier.len() && earlier[i] == (fewer[k].style, fewer[k].pattern@);
                assert(all[i] == earlier[i]);
            } else {
                assert(all[earlier.len() as int] == (rules[k].style, rules[k].pattern@));
            }
        }
        assert forall|i: int| 0 <= i < all.len() implies exists|k: int|
            {
                &&& 0 <= k < rules.len()
                &&& (#[trigger] rules[k]).enabled
                &&& #[trigger] all[i] == (rules[k].style, rules[k].pattern@)
            } by {
            if i < earlier.len() {
                assert(all[i] == earlier[i]);
                let k = choose|k: int|
                    {
                        &&& 0 <= k < fewer.len()
                        &&& (#[trigger] fewer[k]).enabled
                        &&& earlier[i] == (fewer[k].style, fewer[k].pattern@)
                    };
                assert(rules[k].enabled && all[i] == (rules[k].style, rules[k].pattern@));
            } else {
                let last = rules.len() - 1;
                assert(rules[last].enabled && all[i] == (rules[last].style, rules[last].pattern@));
            }
        }
        if forall|k: int| 0 <= k < rules.len() ==> !(#[trigger] rules[k]).enabled {
            assert forall|k: int| 0 <= k < fewer.len() implies !(#[trigger] fewer[k]).enabled by {
                assert(!rules[k].enabled);
            }
            assert(!rules[rules.len() - 1].enabled);
        }
        if forall|k: int| 0 <= k < rules.len() ==> (#[trigger] rules[k]).enabled {
            assert forall|k: int| 0 <= k < fewer.len() implies (#[trigger] fewer[k]).enabled by {
                assert(rules[k].enabled);
            }
            assert(rules[rules.len() - 1].enabled);
        }
    }
}

/// Switching a rule off is the same as leaving it out of the profile.
pub proof fn law_disabled_rule_might_as_well_be_absent(rules: Seq<HighlightRule>, at: int)
    requires
        0 <= at < rules.len(),
        !rules[at].enabled,
    ensures
        enabled_rules(rules) == enabled_rules(rules.remove(at)),
    decreases rules.len(),
{
    let fewer = rules.drop_last();
    if at == rules.len() - 1 {
        assert(rules.remove(at) =~= fewer);
    } else {
        law_disabled_rule_might_as_well_be_absent(fewer, at);
        assert(rules.remove(at).drop_last() =~= fewer.remove(at));
        assert(rules.remove(at).last() == rules.last());
    }
}

/// Without rules in use nothing is highlighted, on any line.
pub proof fn law_no_rules_no_highlighting(rules: Seq<HighlightRule>, line: Seq<char>)
    requires
        forall|k: int| 0 <= k < rules.len() ==> !(#[trigger] rules[k]).enabled,
    ensures
        highlighting(
            styles_of(enabled_rules(rules)),
            matches_on(enabled_rules(rules), line),
        ).len() == 0,
{
    law_rules_in_use_are_the_enabled_ones(rules);
}

/// Every rule brings its own style and the matches of its own pattern.
pub proof fn law_rule_brings_its_matches(
    rules: Seq<(HighlightStyle, Seq<char>)>,
    line: Seq<char>,
    k: int,
)
    requires
        0 <= k < rules.len(),
    ensures
        styles_of(rules).len() == rules.len(),
        matches_on(rules, line).len() == rules.len(),
        styles_of(rules)[k] == rules[k].0,
        matches_on(rules, line)[k] == pattern::all_matches(rules[k].1, line),
{
}

/// No byte of a line is highlighted twice.
pub proof fn law_no_byte_is_highlighted_twice(
    styles: Seq<HighlightStyle>,
    matches: Seq<Seq<(usize, usize)>>,
    i: int,
    j: int,
    byte: int,
)
    requires
        0 <= i < highlighting(styles, matches).len(),
        0 <= j < highlighting(styles, matches).len(),
        highlighting(styles, matches)[i].start <= byte < highlighting(styles, matches)[i].end,
        highlighting(styles, matches)[j].start <= byte < highlighting(styles, matches)[j].end,
    ensures
        i == j,
{
    law_spans_do_not_overlap(styles, matches);
    let r = highlighting(styles, matches);
    if i != j {
        assert(!overlap(r[i], r[j]));
    }
}

/// What is highlighted is a match of one of the rules, from its beginning to its
/// end and in the style of that rule.
pub proof fn law_every_span_is_a_match(
    styles: Seq<HighlightStyle>,
    matches: Seq<Seq<(usize, usize)>>,
    i: int,
)
    requires
        styles.len() == matches.len(),
        0 <= i < highlighting(styles, matches).len(),
    ensures
        exists|rule: int, at: int|
            {
                &&& 0 <= rule < styles.len()
                &&& 0 <= at < matches[rule].len()
                &&& highlighting(styles, matches)[i].start == (#[trigger] matches[rule][at]).0
                &&& highlighting(styles, matches)[i].end == matches[rule][at].1
                &&& highlighting(styles, matches)[i].style == styles[rule]
            },
{
    let all = candidates(styles, matches);
    let kept = chosen(all);
    let r = highlighting(styles, matches);
    lemma_chosen_members(all);
    lemma_by_start_members(kept);
    assert(kept.contains(r[i]));
    let k = choose|k: int| 0 <= k < kept.len() && kept[k] == r[i];
    assert(all.contains(kept[k]));
    let q = choose|q: int| 0 <= q < all.len() && all[q] == kept[k];
    let (rule, at) = lemma_candidate_has_rule(styles, matches, q);
    lemma_candidate_at(styles, matches, rule, at);
    assert(r[i].start == matches[rule][at].0);
}

/// Where the matches of each rule come one behind the other, a match that no
/// highlighted match of an earlier rule reaches into is highlighted: two ranges
/// reach into each other where each begins before the other ends.
pub proof fn law_match_yields_only_to_earlier_rules(
    styles: Seq<HighlightStyle>,
    matches: Seq<Seq<(usize, usize)>>,
    rule: int,
    at: int,
)
    requires
        styles.len() == matches.len(),
        forall|i: int, j: int, k: int|
            0 <= i < matches.len() && 0 <= j < k < matches[i].len() ==> (
            #[trigger] matches[i][j]).1 <= (#[trigger] matches[i][k]).0,
        0 <= rule < styles.len(),
        0 <= at < matches[rule].len(),
        forall|earlier: int, place: int|
            0 <= earlier < rule && 0 <= place < matches[earlier].len() && (
            #[trigger] matches[earlier][place]).0 < matches[rule][at].1 && matches[rule][at].0
                < matches[earlier][place].1 ==> !highlighting(styles, matches).contains(
                (HighlightSpan {
                    start: matches[earlier][place].0,
                    end: matches[earlier][place].1,
                    style: styles[earlier],
                }),
            ),
    ensures
        highlighting(styles, matches).contains(
            (HighlightSpan {
                start: matches[rule][at].0,
                end: matches[rule][at].1,
                style: styles[rule],
            }),
        ),
{
    assert(all_successive(matches)) by {
        assert forall|i: int| 0 <= i < matches.len() implies pattern::successive(
            #[trigger] matches[i],
        ) by {
            assert forall|j: int, k: int| 0 <= j < k < matches[i].len() implies (
            #[trigger] matches[i][j]).1 <= (#[trigger] matches[i][k]).0 by {}
        }
    }
    law_first_rule_wins(styles, matches, rule, at);
    let mine = styled(styles[rule], matches[rule])[at];
    let r = highlighting(styles, matches);
    if !r.contains(mine) {
        let (winner, place) = choose|winner: int, place: int|
            {
                &&& 0 <= winner < rule
                &&& 0 <= place < matches[winner].len()
                &&& overlap(#[trigger] styled(styles[winner], matches[winner])[place], mine)
                &&& r.contains(styled(styles[winner], matches[winner])[place])
            };
        assert(matches[winner][place].0 < matches[rule][at].1);
    }
}

/// A rule of the built-in profile is enabled and has the name, the pattern and
/// the style that it is said to have.
pub proof fn law_builtin_rule(
    rule: HighlightRule,
    name: Seq<char>,
    pattern: Seq<char>,
    style: HighlightStyle,
)
    requires
        is_builtin_rule(rule, name, pattern, style),
    ensures
        rule.enabled,
        rule.name@ == name,
        rule.pattern@ == pattern,
        rule.style == style,
{
}

/// A profile is refused for the first enabled rule that has an error, and
/// accepted where no enabled rule has one.
pub proof fn law_first_bad_rule_is_reported(
    rules: Seq<HighlightRule>,
    errors: Seq<Option<Seq<char>>>,
    error: Option<TerminalError>,
)
    requires
        rules.len() == errors.len(),
        rules_verdict(rules, errors, error),
    ensures
        error is None <==> forall|i: int|
            0 <= i < rules.len() && #[trigger] rules[i].enabled ==> errors[i] is None,
        error matches Some(e) ==> exists|at: int|
            {
                &&& 0 <= at < rules.len()
                &&& #[trigger] rules[at].enabled
                &&& errors[at] is Some
                &&& e matches TerminalError::BadRegex { name, source }
                &&& name == rules[at].name
                &&& errors[at] == Some(source@)
                &&& forall|i: int| 0 <= i < at && #[trigger] rules[i].enabled ==> errors[i] is None
            },
{
    if let Some(e) = error {
        let at = choose|at: int|
            {
                &&& #[trigger] is_first_bad_rule(rules, errors, at)
                &&& e->BadRegex_name == rules[at].name
                &&& errors[at] == Some(e->source@)
            };
        assert(rules[at].enabled);
    }
}

/// Of two highlighted spans, one ends before the other begins: they never begin
/// before each other's end.
pub proof fn law_spans_keep_apart(
    styles: Seq<HighlightStyle>,
    matches: Seq<Seq<(usize, usize)>>,
    i: int,
    j: int,
)
    requires
        0 <= i < j < highlighting(styles, matches).len(),
    ensures
        highlighting(styles, matches)[i].start >= highlighting(styles, matches)[j].end
            || highlighting(styles, matches)[j].start >= highlighting(styles, matches)[i].end,
{
    law_spans_do_not_overlap(styles, matches);
    let r = highlighting(styles, matches);
    assert(!overlap(r[i], r[j]));
}

} // verus!
