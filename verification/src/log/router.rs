//! The router: the handlers compiled from a configuration, and the dispatch
//! of one event to every handler that accepts it.
//!
//! Dispatch decides and renders; it does not write. For each accepting
//! handler, in the order of the configuration, it hands back the handler's
//! index and the rendered line. Whoever holds the destinations delivers them.

use vstd::prelude::*;
use crate::log::{
    AdvancedLogConfig,
    AdvancedLogEmitter,
    AdvancedLogFormatter,
    AdvancedLogHandler,
    AdvancedLogLevel,
    AdvancedLogMatcher,
    ConfigView,
    ConsoleEmitterConfig,
    EmitterView,
    FileEmitterConfig,
    FormatterType,
    HandlerView,
    MatcherView,
    StreamType,
};
use crate::log::event::{EventView, LogEvent};
use crate::log::filter::{compiled, key_view, FilterView, LogFilter};
use crate::log::formatter::{
    default_field_names,
    render,
    FormatterView,
    JsonConfig,
    JsonFieldNames,
    JsonFormatter,
    LineFormatter,
    PlainFormatter,
};
use crate::log::text::chars_of;

verus! {

/// The handler used where a configuration names none: every category at
/// `level` and above (at `Info` where `level` is absent), as coloured plain
/// lines on standard output.
pub open spec fn default_handler(level: Option<AdvancedLogLevel>) -> HandlerView {
    HandlerView {
        matchers: seq![
            MatcherView {
                level: match level {
                    Some(l) => l,
                    None => AdvancedLogLevel::Info,
                },
                category: None,
            },
        ],
        formatter: AdvancedLogFormatter {
            formatter_type: FormatterType::Plain,
            colored: Some(true),
        },
        emitter: EmitterView::Console(StreamType::Stdout),
    }
}

/// The handlers that a configuration stands for: its own, or the default
/// handler where it has none.
pub open spec fn effective_handlers(config: ConfigView) -> Seq<HandlerView> {
    match config.handlers {
        Some(handlers) => if handlers.len() > 0 {
            handlers
        } else {
            seq![default_handler(config.level)]
        },
        None => seq![default_handler(config.level)],
    }
}

/// Whether a handler's lines are coloured: only where it asks for colour and
/// writes to a console. Lines for a file are never coloured.
pub open spec fn effective_color(formatter: AdvancedLogFormatter, emitter: EmitterView) -> bool {
    emitter is Console && formatter.colored == Some(true)
}

/// The formatter of a handler.
pub open spec fn formatter_of(handler: HandlerView) -> FormatterView {
    match handler.formatter.formatter_type {
        FormatterType::Plain => FormatterView::Plain {
            colored: effective_color(handler.formatter, handler.emitter),
        },
        FormatterType::Json => FormatterView::Json {
            colored: effective_color(handler.formatter, handler.emitter),
            names: default_field_names(),
        },
    }
}

/// Mathematical form of a compiled handler.
pub struct RouteView {
    pub filter: FilterView,
    pub formatter: FormatterView,
    pub emitter: EmitterView,
}

/// What compiling one handler gives.
pub open spec fn route_of(handler: HandlerView) -> RouteView {
    RouteView {
        filter: compiled(handler.matchers),
        formatter: formatter_of(handler),
        emitter: handler.emitter,
    }
}

/// What compiling a configuration gives: one compiled handler for each
/// effective handler, in order.
pub open spec fn routes_of(config: ConfigView) -> Seq<RouteView> {
    effective_handlers(config).map_values(|h: HandlerView| route_of(h))
}

/// A compiled handler: its filter, its formatter and its destination.
pub struct RouteHandler {
    pub filter: LogFilter,
    pub formatter: LineFormatter,
    pub emitter: AdvancedLogEmitter,
}

impl View for RouteHandler {
    type V = RouteView;

    open spec fn view(&self) -> RouteView {
        RouteView { filter: self.filter@, formatter: self.formatter@, emitter: self.emitter@ }
    }
}

impl DeepView for RouteHandler {
    type V = RouteView;

    open spec fn deep_view(&self) -> RouteView {
        self@
    }
}

/// A copy of an emitter.
pub fn copy_emitter(emitter: &AdvancedLogEmitter) -> (copy: AdvancedLogEmitter)
    ensures
        copy@ == emitter@,
{
    match emitter {
        AdvancedLogEmitter::Console(console) => AdvancedLogEmitter::Console(
            ConsoleEmitterConfig { stream: console.stream },
        ),
        AdvancedLogEmitter::File(file) => AdvancedLogEmitter::File(
            FileEmitterConfig { path: file.path.clone() },
        ),
    }
}

/// The default handler as a configuration value.
pub fn default_log_handler(level: Option<AdvancedLogLevel>) -> (handler: AdvancedLogHandler)
    ensures
        handler@ == default_handler(level),
{
    let threshold = match level {
        Some(l) => l,
        None => AdvancedLogLevel::Info,
    };
    let mut matchers: Vec<AdvancedLogMatcher> = Vec::new();
    matchers.push(AdvancedLogMatcher { level: threshold, category: None });
    let handler = AdvancedLogHandler {
        matchers,
        formatter: AdvancedLogFormatter {
            formatter_type: FormatterType::Plain,
            colored: Some(true),
        },
        emitter: AdvancedLogEmitter::Console(ConsoleEmitterConfig { stream: StreamType::Stdout }),
    };
    proof {
        assert(handler@.matchers =~= default_handler(level).matchers);
    }
    handler
}

impl RouteHandler {
    /// Compiles one handler.
    pub fn build(handler: &AdvancedLogHandler) -> (route: RouteHandler)
        ensures
            route@ == route_of(handler@),
    {
        let console = match &handler.emitter {
            AdvancedLogEmitter::Console(_) => true,
            AdvancedLogEmitter::File(_) => false,
        };
        let colored = console && match handler.formatter.colored {
            Some(wanted) => wanted,
            None => false,
        };
        let formatter = match handler.formatter.formatter_type {
            FormatterType::Plain => LineFormatter::Plain(PlainFormatter::new(colored)),
            FormatterType::Json => LineFormatter::Json(
                JsonFormatter::new(
                    JsonConfig { ansi: colored, field_names: JsonFieldNames::default() },
                ),
            ),
        };
        RouteHandler {
            filter: LogFilter::compile(&handler.matchers),
            formatter,
            emitter: copy_emitter(&handler.emitter),
        }
    }
}

/// The handlers compiled from one configuration. A router does not change
/// once it is made.
pub struct LogRouter {
    handlers: Vec<RouteHandler>,
}

impl View for LogRouter {
    type V = Seq<RouteView>;

    closed spec fn view(&self) -> Seq<RouteView> {
        self.handlers.deep_view()
    }
}

/// One line for one destination.
#[derive(Debug, Clone, PartialEq)]
pub struct Delivery {
    /// Index of the handler that accepted the event.
    pub handler: usize,
    /// The line in that handler's layout.
    pub line: String,
}

/// Mathematical form of a delivery.
pub struct DeliveryView {
    pub handler: nat,
    pub line: Seq<char>,
}

impl View for Delivery {
    type V = DeliveryView;

    open spec fn view(&self) -> DeliveryView {
        DeliveryView { handler: self.handler as nat, line: self.line@ }
    }
}

impl DeepView for Delivery {
    type V = DeliveryView;

    open spec fn deep_view(&self) -> DeliveryView {
        self@
    }
}

/// Whether a compiled handler accepts an event.
pub open spec fn route_accepts(route: RouteView, e: EventView) -> bool {
    route.filter.accepts(e.category, e.severity())
}

/// The deliveries of one event: for each handler that accepts it, in the
/// order of the handlers, the handler's index and the line in its layout.
pub open spec fn deliveries(routes: Seq<RouteView>, e: EventView) -> Seq<DeliveryView>
    decreases routes.len(),
{
    if routes.len() == 0 {
        Seq::empty()
    } else {
        let rest = deliveries(routes.drop_last(), e);
        let last = routes.last();
        if route_accepts(last, e) {
            rest.push(
                DeliveryView { handler: (routes.len() - 1) as nat, line: render(last.formatter, e) },
            )
        } else {
            rest
        }
    }
}

impl LogRouter {
    /// The router of the given compiled handlers, in their order.
    pub fn new(handlers: Vec<RouteHandler>) -> (router: LogRouter)
        ensures
            router@ == handlers.deep_view(),
    {
        LogRouter { handlers }
    }

    /// Number of handlers.
    pub fn handler_count(&self) -> (n: usize)
        ensures
            n == self@.len(),
    {
        self.handlers.len()
    }

    /// The destination of handler `index`, if there is such a handler.
    pub fn emitter(&self, index: usize) -> (emitter: Option<&AdvancedLogEmitter>)
        ensures
            match emitter {
                Some(found) => index < self@.len() && found@ == self@[index as int].emitter,
                None => index >= self@.len(),
            },
    {
        if index < self.handlers.len() {
            Some(&self.handlers[index].emitter)
        } else {
            None
        }
    }

    /// Hands `event` to every handler: for each one that accepts it, the
    /// handler's index and the rendered line, in the order of the handlers.
    pub fn dispatch(&self, event: &LogEvent) -> (out: Vec<Delivery>)
        ensures
            out.deep_view() == deliveries(self@, event@),
    {
        let severity = event.level.to_tracing_level();
        let category: Option<Vec<char>> = match &event.category {
            Some(name) => Some(chars_of(name.as_str())),
            None => None,
        };
        let key: Option<&Vec<char>> = match &category {
            Some(chars) => Some(chars),
            None => None,
        };
        let mut out: Vec<Delivery> = Vec::new();
        let mut i: usize = 0;
        proof {
            assert(out.deep_view() =~= deliveries(self@.take(0), event@));
        }
        while i < self.handlers.len()
            invariant
                i <= self.handlers.len(),
                severity == event@.severity(),
                key_view(key) == event@.category,
                out.deep_view() == deliveries(self@.take(i as int), event@),
            decreases self.handlers.len() - i,
        {
            let route = &self.handlers[i];
            proof {
                assert(self@.take(i + 1).drop_last() =~= self@.take(i as int));
                assert(self@.take(i + 1).last() == route@);
            }
            if route.filter.accepts(key, severity) {
                let line = route.formatter.format(event);
                out.push(Delivery { handler: i, line });
                proof {
                    assert(out.deep_view() =~= deliveries(self@.take(i + 1), event@));
                }
            }
            i += 1;
        }
        proof {
            assert(self@.take(self.handlers.len() as int) =~= self@);
        }
        out
    }
}

/// A second router was offered to a slot that already holds one.
#[derive(Debug, Clone, Copy, PartialEq, Eq, Structural)]
pub struct InstallConflict;

/// The slot of the active router. It is filled at most once: the first
/// router that is installed stays for good.
pub struct RouterSlot {
    active: Option<LogRouter>,
}

impl View for RouterSlot {
    type V = Option<Seq<RouteView>>;

    closed spec fn view(&self) -> Option<Seq<RouteView>> {
        match self.active {
            Some(router) => Some(router@),
            None => None,
        }
    }
}

/// The slot after `router` was offered to it: an empty slot takes the router,
/// a filled one keeps what it has.
pub open spec fn installed(active: Option<Seq<RouteView>>, router: Seq<RouteView>) -> Option<
    Seq<RouteView>,
> {
    match active {
        Some(_) => active,
        None => Some(router),
    }
}

/// What an event gives when it is reported to a slot: the deliveries of the
/// active router, nothing where the slot is empty.
pub open spec fn emitted(active: Option<Seq<RouteView>>, e: EventView) -> Seq<DeliveryView> {
    match active {
        Some(routes) => deliveries(routes, e),
        None => Seq::empty(),
    }
}

impl RouterSlot {
    /// An empty slot.
    pub fn new() -> (slot: RouterSlot)
        ensures
            slot@ is None,
    {
        RouterSlot { active: None }
    }

    /// Offers a router to the slot. An empty slot takes it. A filled slot
    /// stays exactly as it is, and the call reports the conflict.
    pub fn install(&mut self, router: LogRouter) -> (result: Result<(), InstallConflict>)
        ensures
            final(self)@ == installed(old(self)@, router@),
            result is Ok <==> old(self)@ is None,
            old(self)@ is Some ==> *final(self) == *old(self),
    {
        if self.active.is_some() {
            Err(InstallConflict)
        } else {
            self.active = Some(router);
            Ok(())
        }
    }

    /// Compiles `config` and offers the router to the slot.
    pub fn configure(&mut self, config: &AdvancedLogConfig) -> (result: Result<(), InstallConflict>)
        ensures
            final(self)@ == installed(old(self)@, routes_of(config@)),
            result is Ok <==> old(self)@ is None,
            old(self)@ is Some ==> *final(self) == *old(self),
    {
        if self.active.is_some() {
            Err(InstallConflict)
        } else {
            self.install(crate::log::ten_configure_log(config))
        }
    }

    /// The active router, if one was installed.
    pub fn router(&self) -> (router: Option<&LogRouter>)
        ensures
            match router {
                Some(active) => self@ == Some(active@),
                None => self@ is None,
            },
    {
        self.active.as_ref()
    }

    /// Reports one event to the active router. Nothing is to be written where
    /// no router was installed.
    pub fn emit(&self, event: &LogEvent) -> (out: Vec<Delivery>)
        ensures
            out.deep_view() == emitted(self@, event@),
    {
        match &self.active {
            Some(router) => router.dispatch(event),
            None => {
                let out: Vec<Delivery> = Vec::new();
                proof {
                    assert(out.deep_view() =~= Seq::<DeliveryView>::empty());
                }
                out
            },
        }
    }
}

/// Whether some delivery goes to handler `index`.
pub open spec fn delivered_to(made: Seq<DeliveryView>, index: int) -> bool {
    exists|k: int| 0 <= k < made.len() && (#[trigger] made[k]).handler == index
}

/// Handlers do not affect each other. Every delivery goes to a handler that
/// accepts the event by its own filter, and holds the line in that handler's
/// own layout; every handler that accepts the event gets a delivery; and the
/// deliveries come in the order of the handlers, one for each at most.
pub proof fn law_handler_isolation(routes: Seq<RouteView>, e: EventView)
    ensures
        forall|k: int|
            0 <= k < deliveries(routes, e).len() ==> {
                let made = #[trigger] deliveries(routes, e)[k];
                &&& made.handler < routes.len()
                &&& route_accepts(routes[made.handler as int], e)
                &&& made.line == render(routes[made.handler as int].formatter, e)
            },
        forall|i: int|
            0 <= i < routes.len() ==> (route_accepts(#[trigger] routes[i], e) <==> delivered_to(
                deliveries(routes, e),
                i,
            )),
        forall|j: int, k: int|
            0 <= j < k < deliveries(routes, e).len() ==> (#[trigger] deliveries(routes, e)[j]).handler
                < (#[trigger] deliveries(routes, e)[k]).handler,
        deliveries(routes, e).len() <= routes.len(),
    decreases routes.len(),
{
    if routes.len() > 0 {
        let front = routes.drop_last();
        let last = routes.last();
        let before = deliveries(front, e);
        let made = deliveries(routes, e);
        law_handler_isolation(front, e);
        assert forall|k: int| 0 <= k < made.len() implies {
            let d = #[trigger] made[k];
            &&& d.handler < routes.len()
            &&& route_accepts(routes[d.handler as int], e)
            &&& d.line == render(routes[d.handler as int].formatter, e)
        } by {
            if k < before.len() {
                assert(made[k] == before[k]);
                assert(front[before[k].handler as int] == routes[before[k].handler as int]);
            }
        }
        assert forall|i: int| 0 <= i < routes.len() implies (route_accepts(#[trigger] routes[i], e)
            <==> delivered_to(made, i)) by {
            if i < front.len() {
                assert(front[i] == routes[i]);
                if delivered_to(before, i) {
                    let k = choose|k: int| 0 <= k < before.len() && (#[trigger] before[k]).handler == i;
                    assert(made[k].handler == i);
                }
                if delivered_to(made, i) {
                    let k = choose|k: int| 0 <= k < made.len() && (#[trigger] made[k]).handler == i;
                    assert(before[k].handler == i);
                }
            } else {
                if route_accepts(last, e) {
                    assert(made[made.len() - 1].handler == i);
                }
                if delivered_to(made, i) {
                    let k = choose|k: int| 0 <= k < made.len() && (#[trigger] made[k]).handler == i;
                    if k < before.len() {
                        assert(before[k].handler < front.len());
                    }
                }
            }
        }
        assert forall|j: int, k: int| 0 <= j < k < made.len() implies (#[trigger] made[j]).handler < (
        #[trigger] made[k]).handler by {
            assert(made[j] == before[j]);
            if k < before.len() {
                assert(made[k] == before[k]);
            } else {
                assert(before[j].handler < front.len());
            }
        }
    }
}

/// A configuration without handlers gives exactly one handler: it writes
/// coloured plain lines to standard output and accepts an event exactly when
/// the event's severity reaches the configured level, or `Info` where none is
/// configured, whatever the event's category.
pub proof fn law_default_config(config: ConfigView, e: EventView)
    requires
        config.handlers is None || config.handlers->0.len() == 0,
    ensures
        routes_of(config).len() == 1,
        routes_of(config)[0].emitter == EmitterView::Console(StreamType::Stdout),
        routes_of(config)[0].formatter == (FormatterView::Plain { colored: true }),
        route_accepts(routes_of(config)[0], e) <==> e.severity().reaches(
            match config.level {
                Some(level) => level,
                None => AdvancedLogLevel::Info,
            },
        ),
        deliveries(routes_of(config), e).len() == if route_accepts(routes_of(config)[0], e) {
            1nat
        } else {
            0nat
        },
{
    let handler = default_handler(config.level);
    let routes = routes_of(config);
    assert(effective_handlers(config) =~= seq![handler]);
    assert(routes[0] == route_of(handler));
    crate::log::filter::lemma_compiled_accepts(handler.matchers, e.category, e.severity());
    let m = handler.matchers[0];
    if crate::log::filter::matchers_accept(handler.matchers, e.category, e.severity()) {
        let i = choose|i: int|
            0 <= i < handler.matchers.len() && crate::log::filter::matcher_accepts(
                #[trigger] handler.matchers[i],
                e.category,
                e.severity(),
            );
        assert(handler.matchers[i] == m);
    }
    if e.severity().reaches(m.level) {
        assert(crate::log::filter::matcher_accepts(handler.matchers[0], e.category, e.severity()));
    }
    assert(routes.drop_last() =~= Seq::<RouteView>::empty());
    assert(deliveries(routes.drop_last(), e) =~= Seq::<DeliveryView>::empty());
}

/// The first router stays: once a slot holds a router, offering another one
/// changes nothing, and events are routed as before.
pub proof fn law_first_install_wins(
    first: Seq<RouteView>,
    second: Seq<RouteView>,
    e: EventView,
)
    ensures
        installed(installed(None, first), second) == Some(first),
        emitted(installed(installed(None, first), second), e) == deliveries(first, e),
{
}

} // verus!
