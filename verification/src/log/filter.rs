//! The filter compiler: from a handler's matchers to a decision over
//! (category, severity).
//!
//! A matcher accepts an event when the event's severity reaches the matcher's
//! threshold and the matcher either names no category or names exactly the
//! event's category. A handler accepts an event when one of its matchers does.
//! Nothing else lets an event through: a handler whose matchers all name a
//! category rejects every event of another category.
//!
//! A category is a target name, compared as a whole and letter for letter.
//! Any text can be one, white space and brackets included, but for two
//! kinds: the empty text, and text that holds `,`, `=` or `[`, the three
//! characters that end a target name where `tracing` filters are written
//! out. A matcher that names such a category is invalid and accepts nothing.
//!
//! The compiled form keeps one threshold per category, the least one among the
//! matchers that name it, and one threshold for the matchers without category.

use vstd::prelude::*;
use crate::log::{AdvancedLogLevel, AdvancedLogMatcher, MatcherView};
use crate::log::text::{chars_of, same_chars};

verus! {

/// The characters that a category may not hold: `,`, `=` and `[`.
pub open spec fn is_reserved(c: char) -> bool {
    c == ',' || c == '=' || c == '['
}

/// A category that a matcher can name: not empty and free of the three
/// reserved characters. White space, `]`, `{`, `}` and every other character
/// may stand in it.
pub open spec fn category_well_formed(category: Seq<char>) -> bool {
    &&& category.len() > 0
    &&& forall|i: int| 0 <= i < category.len() ==> !is_reserved(#[trigger] category[i])
}

/// Whether matcher `m` belongs to the rule set kept under `key`: the matchers
/// without category under `None`, those with the well-formed category `c`
/// under `Some(c)`. A matcher with a malformed category belongs to none.
pub open spec fn applies_to(m: MatcherView, key: Option<Seq<char>>) -> bool {
    match m.category {
        None => key is None,
        Some(c) => category_well_formed(c) && key == Some(c),
    }
}

/// Whether one matcher accepts an event of the given category and severity.
pub open spec fn matcher_accepts(
    m: MatcherView,
    category: Option<Seq<char>>,
    severity: AdvancedLogLevel,
) -> bool {
    &&& severity.reaches(m.level)
    &&& match m.category {
        None => true,
        Some(c) => category_well_formed(c) && category == Some(c),
    }
}

/// Whether a handler with these matchers accepts the event: some matcher does.
pub open spec fn matchers_accept(
    matchers: Seq<MatcherView>,
    category: Option<Seq<char>>,
    severity: AdvancedLogLevel,
) -> bool {
    exists|i: int| 0 <= i < matchers.len() && matcher_accepts(#[trigger] matchers[i], category, severity)
}

/// The lower of two thresholds.
pub open spec fn lower(a: AdvancedLogLevel, b: AdvancedLogLevel) -> AdvancedLogLevel {
    if a.rank() <= b.rank() {
        a
    } else {
        b
    }
}

/// The least threshold among the matchers that belong to `key`, if any does.
pub open spec fn least_level(matchers: Seq<MatcherView>, key: Option<Seq<char>>) -> Option<
    AdvancedLogLevel,
>
    decreases matchers.len(),
{
    if matchers.len() == 0 {
        None
    } else {
        let rest = least_level(matchers.drop_last(), key);
        if applies_to(matchers.last(), key) {
            match rest {
                None => Some(matchers.last().level),
                Some(t) => Some(lower(t, matchers.last().level)),
            }
        } else {
            rest
        }
    }
}

/// Mathematical form of a compiled filter.
pub struct FilterView {
    /// Threshold for events of any category, from the matchers without one.
    pub fallback: Option<AdvancedLogLevel>,
    /// Threshold of each category that some matcher names.
    pub thresholds: Map<Seq<char>, AdvancedLogLevel>,
}

impl FilterView {
    /// The decision of the compiled filter.
    pub open spec fn accepts(self, category: Option<Seq<char>>, severity: AdvancedLogLevel) -> bool {
        ||| self.fallback matches Some(t) && severity.reaches(t)
        ||| category matches Some(c) && self.thresholds.contains_key(c) && severity.reaches(
            self.thresholds[c],
        )
    }
}

/// What compiling `matchers` gives.
pub open spec fn compiled(matchers: Seq<MatcherView>) -> FilterView {
    FilterView {
        fallback: least_level(matchers, None),
        thresholds: Map::new(
            |c: Seq<char>| least_level(matchers, Some(c)) is Some,
            |c: Seq<char>| least_level(matchers, Some(c))->0,
        ),
    }
}

/// The threshold kept for one category.
pub struct CategoryRule {
    pub category: Vec<char>,
    pub threshold: AdvancedLogLevel,
}

/// A compiled filter. No category occurs in two of its rules.
pub struct LogFilter {
    fallback: Option<AdvancedLogLevel>,
    rules: Vec<CategoryRule>,
}

/// The thresholds that a list of rules stands for.
pub open spec fn rule_map(rules: Seq<CategoryRule>) -> Map<Seq<char>, AdvancedLogLevel>
    decreases rules.len(),
{
    if rules.len() == 0 {
        Map::empty()
    } else {
        rule_map(rules.drop_last()).insert(rules.last().category@, rules.last().threshold)
    }
}

/// No category occurs twice.
pub open spec fn distinct_categories(rules: Seq<CategoryRule>) -> bool {
    forall|i: int, j: int|
        0 <= i < j < rules.len() ==> (#[trigger] rules[i]).category@ != (#[trigger] rules[j]).category@
}

/// A category is in the map exactly when a rule names it.
pub proof fn lemma_rule_map_domain(rules: Seq<CategoryRule>, c: Seq<char>)
    ensures
        rule_map(rules).contains_key(c) <==> exists|i: int|
            0 <= i < rules.len() && (#[trigger] rules[i]).category@ == c,
    decreases rules.len(),
{
    if rules.len() > 0 {
        let front = rules.drop_last();
        lemma_rule_map_domain(front, c);
        if rule_map(rules).contains_key(c) {
            if rules.last().category@ == c {
                assert(rules[rules.len() - 1].category@ == c);
            } else {
                let i = choose|i: int| 0 <= i < front.len() && (#[trigger] front[i]).category@ == c;
                assert(rules[i].category@ == c);
            }
        }
        if exists|i: int| 0 <= i < rules.len() && (#[trigger] rules[i]).category@ == c {
            let i = choose|i: int| 0 <= i < rules.len() && (#[trigger] rules[i]).category@ == c;
            if i < rules.len() - 1 {
                assert(front[i].category@ == c);
            }
        }
    }
}

/// Where no category occurs twice, the map holds each rule's threshold.
pub proof fn lemma_rule_map_value(rules: Seq<CategoryRule>, k: int)
    requires
        distinct_categories(rules),
        0 <= k < rules.len(),
    ensures
        rule_map(rules).contains_key(rules[k].category@),
        rule_map(rules)[rules[k].category@] == rules[k].threshold,
    decreases rules.len(),
{
    let front = rules.drop_last();
    if k < rules.len() - 1 {
        assert(distinct_categories(front)) by {
            assert forall|i: int, j: int| 0 <= i < j < front.len() implies (#[trigger] front[i]).category@
                != (#[trigger] front[j]).category@ by {
                assert(rules[i].category@ != rules[j].category@);
            }
        }
        lemma_rule_map_value(front, k);
        assert(front[k] == rules[k]);
        assert(rules[k].category@ != rules[rules.len() - 1].category@);
    }
}

/// `least_level` finds a threshold exactly when some matcher belongs to `key`.
pub proof fn lemma_least_level_some(matchers: Seq<MatcherView>, key: Option<Seq<char>>)
    ensures
        least_level(matchers, key) is Some <==> exists|i: int|
            0 <= i < matchers.len() && applies_to(#[trigger] matchers[i], key),
    decreases matchers.len(),
{
    if matchers.len() > 0 {
        let front = matchers.drop_last();
        lemma_least_level_some(front, key);
        if least_level(matchers, key) is Some {
            if applies_to(matchers.last(), key) {
                assert(applies_to(matchers[matchers.len() - 1], key));
            } else {
                let i = choose|i: int| 0 <= i < front.len() && applies_to(#[trigger] front[i], key);
                assert(applies_to(matchers[i], key));
            }
        }
        if exists|i: int| 0 <= i < matchers.len() && applies_to(#[trigger] matchers[i], key) {
            let i = choose|i: int| 0 <= i < matchers.len() && applies_to(#[trigger] matchers[i], key);
            if i < matchers.len() - 1 {
                assert(applies_to(front[i], key));
            }
        }
    }
}

/// A severity reaches the least threshold of `key` exactly when it reaches
/// the threshold of some matcher that belongs to `key`.
pub proof fn lemma_least_level_reached(
    matchers: Seq<MatcherView>,
    key: Option<Seq<char>>,
    severity: AdvancedLogLevel,
)
    ensures
        (least_level(matchers, key) matches Some(t) && severity.reaches(t)) <==> exists|i: int|
            0 <= i < matchers.len() && applies_to(#[trigger] matchers[i], key) && severity.reaches(
                matchers[i].level,
            ),
    decreases matchers.len(),
{
    if matchers.len() > 0 {
        let front = matchers.drop_last();
        let last = matchers.last();
        lemma_least_level_reached(front, key, severity);
        let reached = least_level(matchers, key) matches Some(t) && severity.reaches(t);
        let witnessed = exists|i: int|
            0 <= i < matchers.len() && applies_to(#[trigger] matchers[i], key) && severity.reaches(
                matchers[i].level,
            );
        if reached {
            if applies_to(last, key) && severity.reaches(last.level) {
                assert(applies_to(matchers[matchers.len() - 1], key));
            } else {
                let i = choose|i: int|
                    0 <= i < front.len() && applies_to(#[trigger] front[i], key) && severity.reaches(
                        front[i].level,
                    );
                assert(applies_to(matchers[i], key) && severity.reaches(matchers[i].level));
            }
            assert(witnessed);
        }
        if witnessed {
            let i = choose|i: int|
                0 <= i < matchers.len() && applies_to(#[trigger] matchers[i], key) && severity.reaches(
                    matchers[i].level,
                );
            if i < matchers.len() - 1 {
                assert(applies_to(front[i], key) && severity.reaches(front[i].level));
            }
            assert(reached);
        }
    }
}

/// The compiled filter decides as the matchers do: it accepts an event
/// exactly when some matcher accepts it.
pub proof fn lemma_compiled_accepts(
    matchers: Seq<MatcherView>,
    category: Option<Seq<char>>,
    severity: AdvancedLogLevel,
)
    ensures
        compiled(matchers).accepts(category, severity) == matchers_accept(
            matchers,
            category,
            severity,
        ),
{
    lemma_least_level_reached(matchers, None, severity);
    lemma_least_level_reached(matchers, category, severity);
    let by_fallback = least_level(matchers, None) matches Some(t) && severity.reaches(t);
    let by_category = category is Some && (least_level(matchers, category) matches Some(t)
        && severity.reaches(t));
    assert(compiled(matchers).accepts(category, severity) == (by_fallback || by_category));
    if by_fallback {
        let i = choose|i: int|
            0 <= i < matchers.len() && applies_to(#[trigger] matchers[i], None) && severity.reaches(
                matchers[i].level,
            );
        assert(matcher_accepts(matchers[i], category, severity));
    } else if by_category {
        let i = choose|i: int|
            0 <= i < matchers.len() && applies_to(#[trigger] matchers[i], category)
                && severity.reaches(matchers[i].level);
        assert(matcher_accepts(matchers[i], category, severity));
    }
    if matchers_accept(matchers, category, severity) {
        let i = choose|i: int|
            0 <= i < matchers.len() && matcher_accepts(#[trigger] matchers[i], category, severity);
        if matchers[i].category is None {
            assert(applies_to(matchers[i], None) && severity.reaches(matchers[i].level));
        } else {
            assert(applies_to(matchers[i], category) && severity.reaches(matchers[i].level));
        }
    }
}

/// A threshold lets through exactly the severities at or above it: a matcher
/// with threshold `s2` rejects every event below `s2`, whatever its category,
/// and accepts the events at `s2` and above that carry its category.
pub proof fn law_threshold_monotonic(
    m: MatcherView,
    category: Option<Seq<char>>,
    below: AdvancedLogLevel,
    above: AdvancedLogLevel,
)
    requires
        below.rank() < m.level.rank(),
        m.level.rank() <= above.rank(),
    ensures
        !matcher_accepts(m, category, below),
        !compiled(seq![m]).accepts(category, below),
        matcher_accepts(m, category, above) <==> (applies_to(m, None) || (category is Some
            && applies_to(m, category))),
        compiled(seq![m]).accepts(category, above) == matcher_accepts(m, category, above),
{
    let single = seq![m];
    lemma_compiled_accepts(single, category, below);
    lemma_compiled_accepts(single, category, above);
    assert(single[0] == m);
    if matchers_accept(single, category, below) {
        let i = choose|i: int|
            0 <= i < single.len() && matcher_accepts(#[trigger] single[i], category, below);
        assert(single[i] == m);
    }
    if matchers_accept(single, category, above) {
        let i = choose|i: int|
            0 <= i < single.len() && matcher_accepts(#[trigger] single[i], category, above);
        assert(single[i] == m);
    }
    if matcher_accepts(m, category, above) {
        assert(matcher_accepts(single[0], category, above));
    }
}

/// One matcher decides by equality and order alone: a handler whose only
/// matcher has threshold `t` and names the well-formed category `c` accepts
/// an event exactly when the event's category is `c`, as a whole and letter
/// for letter, and its severity is at least `t`. A handler whose only
/// matcher names no category accepts exactly the events at `t` and above.
pub proof fn law_single_matcher_decides(
    m: MatcherView,
    category: Option<Seq<char>>,
    severity: AdvancedLogLevel,
)
    requires
        m.category matches Some(c) ==> category_well_formed(c),
    ensures
        compiled(seq![m]).accepts(category, severity) <==> (severity.reaches(m.level) && (
        m.category is None || m.category == category)),
        matchers_accept(seq![m], category, severity) == compiled(seq![m]).accepts(
            category,
            severity,
        ),
{
    let single = seq![m];
    lemma_compiled_accepts(single, category, severity);
    assert(single[0] == m);
    if matchers_accept(single, category, severity) {
        let i = choose|i: int|
            0 <= i < single.len() && matcher_accepts(#[trigger] single[i], category, severity);
        assert(single[i] == m);
    }
    if severity.reaches(m.level) && (m.category is None || m.category == category) {
        assert(matcher_accepts(single[0], category, severity));
    }
}

/// A matcher that names category `c` accepts only events whose category is
/// exactly `c`: an event of another category, be it a prefix or an extension
/// of `c`, or an event without category, is rejected.
pub proof fn law_category_exact(
    m: MatcherView,
    c: Seq<char>,
    category: Option<Seq<char>>,
    severity: AdvancedLogLevel,
)
    requires
        m.category == Some(c),
        category != Some(c),
    ensures
        !matcher_accepts(m, category, severity),
        !compiled(seq![m]).accepts(category, severity),
{
    let single = seq![m];
    lemma_compiled_accepts(single, category, severity);
    if matchers_accept(single, category, severity) {
        let i = choose|i: int|
            0 <= i < single.len() && matcher_accepts(#[trigger] single[i], category, severity);
        assert(single[i] == m);
    }
}

/// Fail closed: a handler whose matchers all name a category rejects every
/// event whose category is none of them, however severe the event.
pub proof fn law_fail_closed(
    matchers: Seq<MatcherView>,
    category: Option<Seq<char>>,
    severity: AdvancedLogLevel,
)
    requires
        forall|i: int| 0 <= i < matchers.len() ==> (#[trigger] matchers[i]).category is Some,
        forall|i: int| 0 <= i < matchers.len() ==> (#[trigger] matchers[i]).category != category,
    ensures
        !matchers_accept(matchers, category, severity),
        !compiled(matchers).accepts(category, severity),
{
    lemma_compiled_accepts(matchers, category, severity);
    if matchers_accept(matchers, category, severity) {
        let i = choose|i: int|
            0 <= i < matchers.len() && matcher_accepts(#[trigger] matchers[i], category, severity);
        assert(matchers[i].category is Some);
        assert(matchers[i].category != category);
    }
}

/// Where several matchers of one handler name the same category, the least
/// of their thresholds decides.
pub proof fn law_least_threshold_wins(
    matchers: Seq<MatcherView>,
    i: int,
    category: Seq<char>,
    severity: AdvancedLogLevel,
)
    requires
        0 <= i < matchers.len(),
        matchers[i].category == Some(category),
        category_well_formed(category),
        severity.reaches(matchers[i].level),
    ensures
        compiled(matchers).accepts(Some(category), severity),
{
    lemma_compiled_accepts(matchers, Some(category), severity);
    assert(matcher_accepts(matchers[i], Some(category), severity));
}

/// Decides `is_reserved`.
pub fn reserved(c: char) -> (r: bool)
    ensures
        r == is_reserved(c),
{
    c == ',' || c == '=' || c == '['
}

/// Decides `category_well_formed`.
pub fn well_formed(category: &Vec<char>) -> (r: bool)
    ensures
        r == category_well_formed(category@),
{
    if category.len() == 0 {
        return false;
    }
    let mut i: usize = 0;
    while i < category.len()
        invariant
            i <= category.len(),
            forall|j: int| 0 <= j < i ==> !is_reserved(#[trigger] category@[j]),
        decreases category.len() - i,
    {
        if reserved(category[i]) {
            return false;
        }
        i += 1;
    }
    true
}

/// The key of a rule set, as a mathematical value.
pub open spec fn key_view(key: Option<&Vec<char>>) -> Option<Seq<char>> {
    match key {
        None => None,
        Some(c) => Some(c@),
    }
}

/// Decides `applies_to` for one matcher.
fn belongs(matcher: &AdvancedLogMatcher, key: Option<&Vec<char>>) -> (r: bool)
    ensures
        r == applies_to(matcher@, key_view(key)),
{
    match &matcher.category {
        None => key.is_none(),
        Some(name) => {
            match key {
                None => false,
                Some(wanted) => {
                    let chars = chars_of(name.as_str());
                    well_formed(&chars) && same_chars(&chars, wanted)
                },
            }
        },
    }
}

/// The least threshold among the matchers that belong to `key`.
pub fn least_for(matchers: &Vec<AdvancedLogMatcher>, key: Option<&Vec<char>>) -> (least: Option<
    AdvancedLogLevel,
>)
    ensures
        least == least_level(matchers.deep_view(), key_view(key)),
{
    let ghost all = matchers.deep_view();
    let mut least: Option<AdvancedLogLevel> = None;
    let mut i: usize = 0;
    while i < matchers.len()
        invariant
            i <= matchers.len(),
            all == matchers.deep_view(),
            least == least_level(all.take(i as int), key_view(key)),
        decreases matchers.len() - i,
    {
        proof {
            assert(all.take(i + 1).drop_last() == all.take(i as int));
            assert(all.take(i + 1).last() == matchers[i as int]@);
        }
        if belongs(&matchers[i], key) {
            let level = matchers[i].level;
            least = match least {
                None => Some(level),
                Some(t) => if t.rank_value() <= level.rank_value() {
                    Some(t)
                } else {
                    Some(level)
                },
            };
        }
        i += 1;
    }
    proof {
        assert(all.take(matchers.len() as int) == all);
    }
    least
}

impl View for LogFilter {
    type V = FilterView;

    closed spec fn view(&self) -> FilterView {
        FilterView { fallback: self.fallback, thresholds: rule_map(self.rules@) }
    }
}

impl LogFilter {
    #[verifier::type_invariant]
    spec fn well_formed(self) -> bool {
        distinct_categories(self.rules@)
    }

    /// Compiles the matchers of one handler.
    pub fn compile(matchers: &Vec<AdvancedLogMatcher>) -> (filter: LogFilter)
        ensures
            filter@ == compiled(matchers.deep_view()),
    {
        let ghost all = matchers.deep_view();
        let fallback = least_for(matchers, None);
        let mut rules: Vec<CategoryRule> = Vec::new();
        let mut i: usize = 0;
        while i < matchers.len()
            invariant
                i <= matchers.len(),
                all == matchers.deep_view(),
                distinct_categories(rules@),
                forall|k: int|
                    0 <= k < rules.len() ==> least_level(all, Some((#[trigger] rules[k]).category@))
                        == Some(rules[k].threshold),
                forall|j: int|
                    0 <= j < i && (#[trigger] all[j]).category is Some && category_well_formed(
                        all[j].category->0,
                    ) ==> rule_map(rules@).contains_key(all[j].category->0),
            decreases matchers.len() - i,
        {
            if let Some(name) = &matchers[i].category {
                let chars = chars_of(name.as_str());
                if well_formed(&chars) && !Self::has_rule(&rules, &chars) {
                    let found = least_for(matchers, Some(&chars));
                    proof {
                        lemma_least_level_some(all, Some(chars@));
                        assert(applies_to(all[i as int], Some(chars@)));
                        lemma_rule_map_domain(rules@, chars@);
                    }
                    if let Some(threshold) = found {
                        let ghost before = rules@;
                        rules.push(CategoryRule { category: chars, threshold });
                        proof {
                            assert(rules@.drop_last() == before);
                            assert forall|j: int|
                                0 <= j < i + 1 && (#[trigger] all[j]).category is Some
                                    && category_well_formed(
                                    all[j].category->0,
                                ) implies rule_map(rules@).contains_key(all[j].category->0) by {
                                if j < i {
                                    assert(rule_map(before).contains_key(all[j].category->0));
                                }
                            }
                        }
                    }
                }
            }
            i += 1;
        }
        let filter = LogFilter { fallback, rules };
        proof {
            let built = rule_map(filter.rules@);
            let wanted = compiled(all).thresholds;
            assert forall|c: Seq<char>| built.contains_key(c) == wanted.contains_key(c) by {
                lemma_rule_map_domain(filter.rules@, c);
                lemma_least_level_some(all, Some(c));
                if wanted.contains_key(c) {
                    let j = choose|j: int| 0 <= j < all.len() && applies_to(#[trigger] all[j], Some(c));
                    assert(all[j].category->0 == c);
                }
            }
            assert forall|c: Seq<char>| built.contains_key(c) implies built[c] == wanted[c] by {
                lemma_rule_map_domain(filter.rules@, c);
                let k = choose|k: int|
                    0 <= k < filter.rules.len() && (#[trigger] filter.rules[k]).category@ == c;
                lemma_rule_map_value(filter.rules@, k);
            }
            assert(built =~= wanted);
        }
        filter
    }

    /// Whether some rule names `category`.
    fn has_rule(rules: &Vec<CategoryRule>, category: &Vec<char>) -> (r: bool)
        ensures
            r == rule_map(rules@).contains_key(category@),
    {
        let mut k: usize = 0;
        while k < rules.len()
            invariant
                k <= rules.len(),
                forall|j: int| 0 <= j < k ==> (#[trigger] rules[j]).category@ != category@,
            decreases rules.len() - k,
        {
            if same_chars(&rules[k].category, category) {
                proof {
                    lemma_rule_map_domain(rules@, category@);
                }
                return true;
            }
            k += 1;
        }
        proof {
            lemma_rule_map_domain(rules@, category@);
        }
        false
    }

    /// Decides whether an event of the given category and severity passes.
    pub fn accepts(&self, category: Option<&Vec<char>>, severity: AdvancedLogLevel) -> (r: bool)
        ensures
            r == self@.accepts(key_view(category), severity),
    {
        proof {
            use_type_invariant(self);
        }
        if let Some(t) = self.fallback {
            if severity.at_least(&t) {
                return true;
            }
        }
        match category {
            None => false,
            Some(c) => {
                let mut k: usize = 0;
                while k < self.rules.len()
                    invariant
                        k <= self.rules.len(),
                        distinct_categories(self.rules@),
                        category == Some(c),
                        !(self.fallback matches Some(t) && severity.reaches(t)),
                        forall|j: int| 0 <= j < k ==> (#[trigger] self.rules[j]).category@ != c@,
                    decreases self.rules.len() - k,
                {
                    if same_chars(&self.rules[k].category, c) {
                        proof {
                            lemma_rule_map_value(self.rules@, k as int);
                        }
                        return severity.at_least(&self.rules[k].threshold);
                    }
                    k += 1;
                }
                proof {
                    lemma_rule_map_domain(self.rules@, c@);
                }
                false
            },
        }
    }
}

} // verus!
