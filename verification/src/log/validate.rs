//! What is wrong with a configuration. No configuration is refused: a
//! matcher with a malformed category accepts nothing, and a handler without
//! matchers accepts nothing. Each such place is reported here, so that it can
//! be shown to whoever wrote the configuration.

use vstd::prelude::*;
use crate::log::{AdvancedLogConfig, AdvancedLogHandler, ConfigView, HandlerView, MatcherView};
use crate::log::filter::{category_well_formed, well_formed};
use crate::log::router::routes_of;
use crate::log::text::chars_of;

verus! {

/// One finding.
#[derive(Debug, Clone, Copy, PartialEq, Eq, Structural)]
pub enum ConfigDiagnostic {
    /// The handler at this index has no matcher and accepts nothing.
    NoMatchers { handler: usize },
    /// The matcher at this index of this handler names a category that is
    /// empty or holds one of `,`, `=` and `[`; it accepts nothing.
    MalformedCategory { handler: usize, matcher: usize },
}

/// Mathematical form of a finding.
pub enum DiagnosticView {
    NoMatchers { handler: nat },
    MalformedCategory { handler: nat, matcher: nat },
}

impl View for ConfigDiagnostic {
    type V = DiagnosticView;

    open spec fn view(&self) -> DiagnosticView {
        match self {
            ConfigDiagnostic::NoMatchers { handler } => DiagnosticView::NoMatchers {
                handler: *handler as nat,
            },
            ConfigDiagnostic::MalformedCategory { handler, matcher } => {
                DiagnosticView::MalformedCategory {
                    handler: *handler as nat,
                    matcher: *matcher as nat,
                }
            },
        }
    }
}

impl DeepView for ConfigDiagnostic {
    type V = DiagnosticView;

    open spec fn deep_view(&self) -> DiagnosticView {
        self@
    }
}

/// A matcher that names a category which no event can carry.
pub open spec fn is_malformed(m: MatcherView) -> bool {
    m.category matches Some(c) && !category_well_formed(c)
}

/// The findings on the matchers of handler `handler`, in their order.
pub open spec fn matcher_findings(matchers: Seq<MatcherView>, handler: nat) -> Seq<DiagnosticView>
    decreases matchers.len(),
{
    if matchers.len() == 0 {
        Seq::empty()
    } else {
        let rest = matcher_findings(matchers.drop_last(), handler);
        if is_malformed(matchers.last()) {
            rest.push(
                DiagnosticView::MalformedCategory {
                    handler,
                    matcher: (matchers.len() - 1) as nat,
                },
            )
        } else {
            rest
        }
    }
}

/// The findings on one handler.
pub open spec fn handler_findings(h: HandlerView, handler: nat) -> Seq<DiagnosticView> {
    if h.matchers.len() == 0 {
        seq![DiagnosticView::NoMatchers { handler }]
    } else {
        matcher_findings(h.matchers, handler)
    }
}

/// The findings on a list of handlers, in their order.
pub open spec fn handlers_findings(handlers: Seq<HandlerView>) -> Seq<DiagnosticView>
    decreases handlers.len(),
{
    if handlers.len() == 0 {
        Seq::empty()
    } else {
        handlers_findings(handlers.drop_last()) + handler_findings(
            handlers.last(),
            (handlers.len() - 1) as nat,
        )
    }
}

/// The findings on a configuration. One without handlers has none: the
/// default handler takes their place.
pub open spec fn findings(config: ConfigView) -> Seq<DiagnosticView> {
    match config.handlers {
        Some(handlers) => handlers_findings(handlers),
        None => Seq::empty(),
    }
}

/// Appends the findings on one handler.
fn push_handler_findings(
    out: &mut Vec<ConfigDiagnostic>,
    handler: &AdvancedLogHandler,
    index: usize,
)
    ensures
        final(out).deep_view() == old(out).deep_view() + handler_findings(handler@, index as nat),
{
    let ghost before = out.deep_view();
    let ghost matchers = handler@.matchers;
    if handler.matchers.len() == 0 {
        out.push(ConfigDiagnostic::NoMatchers { handler: index });
        proof {
            assert(out.deep_view() =~= before + handler_findings(handler@, index as nat));
        }
        return;
    }
    let mut j: usize = 0;
    proof {
        assert(out.deep_view() =~= before + matcher_findings(matchers.take(0), index as nat));
    }
    while j < handler.matchers.len()
        invariant
            j <= handler.matchers.len(),
            matchers == handler@.matchers,
            matchers.len() == handler.matchers.len(),
            out.deep_view() == before + matcher_findings(matchers.take(j as int), index as nat),
        decreases handler.matchers.len() - j,
    {
        let ghost so_far = out.deep_view();
        proof {
            assert(matchers.take(j + 1).drop_last() =~= matchers.take(j as int));
            assert(matchers.take(j + 1).last() == handler.matchers[j as int]@);
        }
        let malformed = match &handler.matchers[j].category {
            Some(name) => {
                let chars = chars_of(name.as_str());
                !well_formed(&chars)
            },
            None => false,
        };
        if malformed {
            out.push(ConfigDiagnostic::MalformedCategory { handler: index, matcher: j });
            proof {
                assert(out.deep_view() =~= so_far.push(
                    DiagnosticView::MalformedCategory { handler: index as nat, matcher: j as nat },
                ));
                assert(out.deep_view() =~= before + matcher_findings(
                    matchers.take(j + 1),
                    index as nat,
                ));
            }
        }
        j += 1;
    }
    proof {
        assert(matchers.take(handler.matchers.len() as int) =~= matchers);
    }
}

/// Lists what is wrong with a configuration, handler by handler and matcher
/// by matcher.
pub fn config_diagnostics(config: &AdvancedLogConfig) -> (out: Vec<ConfigDiagnostic>)
    ensures
        out.deep_view() == findings(config@),
{
    let mut out: Vec<ConfigDiagnostic> = Vec::new();
    match &config.handlers {
        None => {
            proof {
                assert(out.deep_view() =~= findings(config@));
            }
        },
        Some(handlers) => {
            let ghost all = handlers.deep_view();
            let mut i: usize = 0;
            proof {
                assert(out.deep_view() =~= handlers_findings(all.take(0)));
            }
            while i < handlers.len()
                invariant
                    i <= handlers.len(),
                    all == handlers.deep_view(),
                    all.len() == handlers.len(),
                    out.deep_view() == handlers_findings(all.take(i as int)),
                decreases handlers.len() - i,
            {
                proof {
                    assert(all.take(i + 1).drop_last() =~= all.take(i as int));
                    assert(all.take(i + 1).last() == handlers[i as int]@);
                }
                push_handler_findings(&mut out, &handlers[i], i);
                i += 1;
            }
            proof {
                assert(all.take(handlers.len() as int) =~= all);
            }
        },
    }
    out
}

/// The findings on the matchers of one handler are exactly its malformed
/// matchers.
pub proof fn lemma_matcher_findings(matchers: Seq<MatcherView>, handler: nat, j: int)
    requires
        0 <= j < matchers.len(),
    ensures
        is_malformed(matchers[j]) <==> matcher_findings(matchers, handler).contains(
            DiagnosticView::MalformedCategory { handler, matcher: j as nat },
        ),
    decreases matchers.len(),
{
    let wanted = DiagnosticView::MalformedCategory { handler, matcher: j as nat };
    let front = matchers.drop_last();
    let rest = matcher_findings(front, handler);
    let all = matcher_findings(matchers, handler);
    lemma_matcher_findings_bound(front, handler);
    if j < matchers.len() - 1 {
        lemma_matcher_findings(front, handler, j);
        if rest.contains(wanted) {
            let k = choose|k: int| 0 <= k < rest.len() && rest[k] == wanted;
            assert(all[k] == wanted);
        }
        if all.contains(wanted) {
            let k = choose|k: int| 0 <= k < all.len() && all[k] == wanted;
            if k < rest.len() {
                assert(rest[k] == wanted);
            }
        }
    } else {
        if is_malformed(matchers[j]) {
            assert(all[all.len() - 1] == wanted);
        }
        if all.contains(wanted) {
            let k = choose|k: int| 0 <= k < all.len() && all[k] == wanted;
            if k < rest.len() {
                assert(rest[k] == wanted);
            }
        }
    }
}

/// Every finding on the matchers of a handler names one of its matchers.
pub proof fn lemma_matcher_findings_bound(matchers: Seq<MatcherView>, handler: nat)
    ensures
        forall|k: int|
            0 <= k < matcher_findings(matchers, handler).len() ==> (#[trigger] matcher_findings(
                matchers,
                handler,
            )[k] matches DiagnosticView::MalformedCategory { handler: h, matcher: m } && h
                == handler && m < matchers.len()),
    decreases matchers.len(),
{
    if matchers.len() > 0 {
        let front = matchers.drop_last();
        lemma_matcher_findings_bound(front, handler);
        let rest = matcher_findings(front, handler);
        let all = matcher_findings(matchers, handler);
        assert forall|k: int| 0 <= k < all.len() implies (#[trigger] all[k] matches DiagnosticView::MalformedCategory {
            handler: h,
            matcher: m,
        } && h == handler && m < matchers.len()) by {
            if k < rest.len() {
                assert(all[k] == rest[k]);
            }
        }
    }
}

/// A list of handlers without findings holds no handler without matchers.
pub proof fn law_clean_config_has_no_idle_handler(handlers: Seq<HandlerView>, i: int)
    requires
        handlers_findings(handlers).len() == 0,
        0 <= i < handlers.len(),
    ensures
        handlers[i].matchers.len() > 0,
    decreases handlers.len(),
{
    let front = handlers.drop_last();
    assert(handlers_findings(front).len() == 0);
    assert(handler_findings(handlers.last(), (handlers.len() - 1) as nat).len() == 0);
    if i < handlers.len() - 1 {
        assert(front[i] == handlers[i]);
        law_clean_config_has_no_idle_handler(front, i);
    }
}

/// A list of handlers without findings holds no matcher with a malformed
/// category: every matcher accepts the events that it describes.
pub proof fn law_clean_config_has_no_dead_rule(handlers: Seq<HandlerView>, i: int, j: int)
    requires
        handlers_findings(handlers).len() == 0,
        0 <= i < handlers.len(),
        0 <= j < handlers[i].matchers.len(),
    ensures
        !is_malformed(handlers[i].matchers[j]),
    decreases handlers.len(),
{
    let front = handlers.drop_last();
    let last = handlers.last();
    assert(handlers_findings(front).len() == 0);
    assert(handler_findings(last, (handlers.len() - 1) as nat).len() == 0);
    if i < handlers.len() - 1 {
        assert(front[i] == handlers[i]);
        law_clean_config_has_no_dead_rule(front, i, j);
    } else {
        let at = (handlers.len() - 1) as nat;
        lemma_matcher_findings(last.matchers, at, j);
        if is_malformed(last.matchers[j]) {
            assert(matcher_findings(last.matchers, at).contains(
                DiagnosticView::MalformedCategory { handler: at, matcher: j as nat },
            ));
        }
    }
}

/// A router is never empty: whatever the configuration, at least one handler
/// is compiled from it.
pub proof fn law_router_never_empty(config: ConfigView)
    ensures
        routes_of(config).len() >= 1,
{
}

} // verus!
