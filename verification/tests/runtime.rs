use fish_bot::connection::{
    heartbeat_message_with, heartbeat_tick, registration_message_with, sync_ack_message_with,
    upgrade_headers, HeartbeatAction,
};
use fish_bot::dispatch::{
    record_outcome, select_event_handlers, select_message_handlers, Dispatch, Dispatcher, HandlerOutcome,
    PendingQueue, QueueStrategy, RuntimeConfig,
};
use fish_bot::registry::{publish_step, ActorBusHandle, PluginManager, PublishStep};
use fish_bot::routing::{
    record_route, EventHandlerSpec, HandlerSpec, PluginRoutes, RouteHint, RoutingTable,
};
use fish_bot::rule::MatchList;
use fish_bot::telemetry::{Counter, Telemetry};


fn plugins() -> Vec<PluginRoutes> {
    vec![
        PluginRoutes {
            handlers: vec![
                HandlerSpec::exact("ping", MatchList::from("/ping")),
                HandlerSpec::prefix("admin", MatchList::from("/admin")),
            ],
            event_handlers: vec![EventHandlerSpec::new("order_create", "oc")],
        },
        PluginRoutes {
            handlers: vec![
                HandlerSpec::keyword("hello", MatchList::from("hello")),
                HandlerSpec::fallback("all"),
                HandlerSpec::exact("ping2", MatchList::from("/ping")),
            ],
            event_handlers: vec![EventHandlerSpec::new("order_create", "oc2"), EventHandlerSpec::new("x", "x")],
        },
    ]
}

fn ids(ts: &[fish_bot::routing::RouteTarget]) -> Vec<(usize, String)> {
    ts.iter().map(|t| (t.plugin, t.handler_id.clone())).collect()
}

#[test]
fn t4_2_router_builds_empty_tables() {
    let t = RoutingTable::new(&[]);
    let o = t.route_message("anything");
    assert!(o.targets.is_empty());
    assert!(t.route_system("x").is_empty());
}

#[test]
fn routes_exact_prefix_keyword_and_fallback_in_order() {
    let t = RoutingTable::new(&plugins());
    let o = t.route_message(" /ping ");
    assert_eq!(ids(&o.targets), vec![(0, "ping".into()), (1, "ping2".into()), (1, "all".into())]);
    assert_eq!(o.exact_hits, 2);
    assert_eq!(o.fallback_hits, 1);
    let o = t.route_message("/admin hello");
    assert_eq!(ids(&o.targets), vec![(0, "admin".into()), (1, "hello".into()), (1, "all".into())]);
    assert_eq!(o.prefix_hits, 1);
    assert_eq!(o.keyword_hits, 1);
    let o = t.route_message(" /admin");
    assert_eq!(ids(&o.targets), vec![(1, "all".into())]);
}

#[test]
fn routes_system_events_by_type() {
    let t = RoutingTable::new(&plugins());
    assert_eq!(ids(&t.route_system("order_create")), vec![(0, "oc".into()), (1, "oc2".into())]);
    assert!(t.route_system("none").is_empty());
}

#[test]
fn record_route_counts() {
    let t = RoutingTable::new(&plugins());
    let tel = Telemetry::new();
    let bumps = record_route(&tel, &t.route_message(" /ping "));
    assert_eq!(bumps[0], (Counter::MessagesReceived, 1));
    assert_eq!(bumps[1], (Counter::ExactRouteHits, 2));
    assert_eq!(bumps.last(), Some(&(Counter::HandlerDispatches, 3)));
    assert!(!bumps.iter().any(|(c, _)| *c == Counter::UnmatchedMessages));
    let s = tel.snapshot();
    assert_eq!(s.messages_received, 1);
    assert_eq!(s.exact_route_hits, 2);
    assert_eq!(s.handler_dispatches, 3);
    assert_eq!(s.unmatched_messages, 0);
    let empty = RoutingTable::new(&[]);
    let bumps = record_route(&tel, &empty.route_message("x"));
    assert!(bumps.contains(&(Counter::UnmatchedMessages, 1)));
    assert_eq!(tel.snapshot().unmatched_messages, 1);
}

#[test]
fn selects_handlers_of_a_plugin() {
    let hs = vec![
        HandlerSpec::exact("a", MatchList::from("/a")),
        HandlerSpec::regex("r", "^x"),
        HandlerSpec::fallback("f"),
        HandlerSpec::exact("a", MatchList::from("/b")),
    ];
    assert_eq!(select_message_handlers(&hs, Some("a"), "zzz"), vec![3]);
    assert_eq!(select_message_handlers(&hs, Some("r"), "xy"), vec![1]);
    assert!(select_message_handlers(&hs, Some("r"), "y").is_empty());
    assert!(select_message_handlers(&hs, Some("missing"), "x").is_empty());
    assert_eq!(select_message_handlers(&hs, None, "/a"), vec![0, 2]);
    let es = vec![EventHandlerSpec::new("t", "a"), EventHandlerSpec::new("u", "a"), EventHandlerSpec::new("t", "b")];
    assert_eq!(select_event_handlers(&es, Some("a"), "t"), vec![0, 1]);
    assert_eq!(select_event_handlers(&es, None, "t"), vec![0, 2]);
}

#[test]
fn bounded_queue_drops_oldest() {
    let mut q: PendingQueue<u32> = PendingQueue::new();
    assert_eq!(q.push_bounded(1, 2), None);
    assert_eq!(q.push_bounded(2, 2), None);
    assert_eq!(q.push_bounded(3, 2), Some(1));
    assert_eq!(q.len(), 2);
    assert_eq!(q.pop_front(), Some(2));
    assert_eq!(q.pop_front(), Some(3));
    assert_eq!(q.pop_front(), None);
}

#[test]
fn dispatcher_runs_drops_or_queues() {
    let tel = Telemetry::new();
    let mut d: Dispatcher<u32> = Dispatcher::new(&RuntimeConfig::default());
    let (run, bumps) = d.dispatch(&tel, true, 1);
    assert!(matches!(run, Dispatch::Run(1)));
    assert_eq!(bumps, vec![(Counter::HandlerStarted, 1)]);
    let (dropped, bumps) = d.dispatch(&tel, false, 2);
    assert!(matches!(dropped, Dispatch::Dropped(2)));
    assert_eq!(bumps, vec![(Counter::HandlerStarted, 1), (Counter::DropNewestDrops, 1)]);
    let cfg = RuntimeConfig { concurrency: 1, timeout_ms: 10, queue_strategy: QueueStrategy::DropOldest(1) };
    let mut d: Dispatcher<u32> = Dispatcher::new(&cfg);
    let (queued, bumps) = d.dispatch(&tel, false, 3);
    assert!(matches!(queued, Dispatch::Queued(None)));
    assert_eq!(bumps, vec![(Counter::HandlerStarted, 1), (Counter::DropOldestEnqueues, 1)]);
    let (queued, bumps) = d.dispatch(&tel, false, 4);
    assert!(matches!(queued, Dispatch::Queued(Some(3))));
    assert_eq!(
        bumps,
        vec![(Counter::HandlerStarted, 1), (Counter::DropOldestEnqueues, 1), (Counter::DropOldestOldestDiscards, 1)]
    );
    assert_eq!(d.next_queued(), Some(4));
    assert_eq!(d.next_queued(), None);
    let s = tel.snapshot();
    assert_eq!(s.handler_started, 4);
    assert_eq!(s.drop_newest_drops, 1);
    assert_eq!(s.drop_oldest_enqueues, 2);
    assert_eq!(s.drop_oldest_oldest_discards, 1);
}

#[test]
fn t2_14_new_empty_manager() {
    let mgr: PluginManager<u32> = PluginManager::new();
    assert_eq!(mgr.len(), 0);
    assert!(mgr.is_empty());
}

#[test]
fn manager_keeps_first_plugin_of_each_id() {
    let mgr = PluginManager::from_plugins(vec![("a".into(), 1), ("b".into(), 2), ("a".into(), 3)]);
    assert_eq!(mgr.len(), 2);
    assert_eq!(mgr.get("a"), Some(&1));
    assert_eq!(mgr.get("b"), Some(&2));
    assert_eq!(mgr.get("c"), None);
}

#[test]
fn bus_lists_subscribers_of_a_topic() {
    let mut bus: ActorBusHandle<&str> = ActorBusHandle::runtime_default();
    bus.subscribe("t1".into(), "h1");
    bus.subscribe("t2".into(), "h2");
    bus.subscribe("t1".into(), "h3");
    let subs = bus.subscribers_of("t1");
    assert_eq!(subs, vec![0, 2]);
    assert_eq!(*bus.handler(2), "h3");
    assert!(bus.subscribers_of("none").is_empty());
}

#[test]
fn handshake_frames_have_their_fields() {
    let reg = registration_message_with("tok", "dev", "mid1");
    assert_eq!(reg.get_str("lwp"), Some("/reg"));
    let h = reg.get("headers").unwrap();
    assert_eq!(h.get_str("token"), Some("tok"));
    assert_eq!(h.get_str("did"), Some("dev"));
    assert_eq!(h.get_str("app-key"), Some("444e9908a51d1cb236a27862abc769c9"));
    let ack = sync_ack_message_with(1700000000000, "m");
    let item = ack.get("body").unwrap().get_index(0).unwrap();
    assert_eq!(item.get("pts").unwrap().as_u64(), Some(1700000000000000));
    assert_eq!(item.get("timestamp").unwrap().as_u64(), Some(1700000000000));
    let hb = heartbeat_message_with("m2");
    assert_eq!(hb.to_text().unwrap(), r#"{"headers":{"mid":"m2"},"lwp":"/!"}"#);
}

#[test]
fn heartbeat_ticks() {
    assert_eq!(heartbeat_tick(20_000_000_001, 0), HeartbeatAction::Stop);
    assert_eq!(heartbeat_tick(20_000_000_000, 14_999_999_999), HeartbeatAction::Skip);
    assert_eq!(heartbeat_tick(0, 15_000_000_000), HeartbeatAction::Send);
}

#[test]
fn upgrade_headers_add_cookie_unless_blank() {
    assert_eq!(upgrade_headers("  ").len(), 8);
    let hs = upgrade_headers("a=b");
    assert_eq!(hs.len(), 9);
    assert_eq!(hs[8], ("Cookie".to_string(), "a=b".to_string()));
}

#[test]
fn route_hints_keep_their_patterns() {
    let h = HandlerSpec::keyword("k", MatchList::from(vec!["x", "y"]));
    assert!(matches!(&h.route, RouteHint::Keyword(ps) if ps.len() == 2));
    assert_eq!(h.timeout_ms, 5000);
}

#[test]
fn outcomes_go_to_their_counters() {
    let tel = Telemetry::new();
    assert_eq!(record_outcome(&tel, HandlerOutcome::Succeeded, false), Counter::HandlerSucceeded);
    assert_eq!(record_outcome(&tel, HandlerOutcome::Failed, false), Counter::HandlerFailed);
    record_outcome(&tel, HandlerOutcome::TimedOut, false);
    record_outcome(&tel, HandlerOutcome::TimedOut, true);
    record_outcome(&tel, HandlerOutcome::Succeeded, true);
    record_outcome(&tel, HandlerOutcome::Succeeded, true);
    let s = tel.snapshot();
    assert_eq!((s.handler_succeeded, s.handler_failed, s.handler_timed_out), (1, 1, 1));
    assert_eq!((s.queued_handler_succeeded, s.queued_handler_failed, s.queued_handler_timed_out), (2, 0, 1));
}

#[test]
fn prefilter_lets_through_exactly_what_the_rule_accepts() {
    let make = || {
        vec![
            HandlerSpec::exact("e", MatchList::from(vec!["/ping", "/p"])),
            HandlerSpec::prefix("p", MatchList::from("/admin")),
            HandlerSpec::keyword("k", MatchList::from("alert")),
        ]
    };
    let handlers = make();
    let table = RoutingTable::new(&[PluginRoutes { handlers: make(), event_handlers: vec![] }]);
    for text in ["/ping", "  /p  ", "/pong", "/admin x", "x /admin", "red alert!", "alarm", ""] {
        let routed = table.route_message(text);
        for h in &handlers {
            let passed = routed.targets.iter().any(|t| t.handler_id == h.id);
            assert_eq!(passed, h.rule.as_ref().unwrap().check_text(text), "handler {} on {:?}", h.id, text);
        }
    }
}

#[test]
fn subscribing_appends_to_the_topic_only() {
    let mut bus: ActorBusHandle<u8> = ActorBusHandle::new();
    bus.subscribe("a".into(), 1);
    bus.subscribe("b".into(), 2);
    let before_b = bus.subscribers_of("b");
    bus.subscribe("a".into(), 3);
    assert_eq!(bus.subscribers_of("a"), vec![0, 2]);
    assert_eq!(bus.subscribers_of("b"), before_b);
}

#[test]
fn publish_steps_follow_subscribers_until_a_failure() {
    let mut bus: ActorBusHandle<u8> = ActorBusHandle::new();
    bus.subscribe("t".into(), 1);
    bus.subscribe("u".into(), 2);
    bus.subscribe("t".into(), 3);
    let ps = bus.subscribers_of("t");
    assert_eq!(publish_step(&ps, 0, true), PublishStep::Deliver(0));
    assert_eq!(publish_step(&ps, 1, true), PublishStep::Deliver(2));
    assert_eq!(publish_step(&ps, 2, true), PublishStep::Done);
    assert_eq!(publish_step(&ps, 1, false), PublishStep::Stop);
    assert_eq!(publish_step(&bus.subscribers_of("none"), 0, true), PublishStep::Done);
}
