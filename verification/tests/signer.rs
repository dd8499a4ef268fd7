use wmjtyd_signer::indicator::ichimoku_cloud::{
    cloud_fields_line, cloud_signals, monitor_step, CloudFields, product_of, CloudError, CloudReading, MonitorOutcome, ProductStates, Signal,
};
use wmjtyd_signer::indicator::{ichimoku_cloud_indicator, influx_query, signer_kind, Indicator, SignerKind};
use wmjtyd_signer::indicator_trait::result::InfluxQuery;
use wmjtyd_signer::util::dynamic_config::{
    changed_config_path, parse_signer_config, plan_reconfigure, reconfigure, ConfigError,
};
use wmjtyd_signer::util::string_tool::{ipc_uri_to_ident, str_eq, trim_end_matches, trim_start_matches};
use wmjtyd_signer::websocket::config::ApplicationConfig;
use wmjtyd_signer::websocket::relay::{feed_step, FeedEvent, FeedStep, SocketAction, SubscriberTable};
use wmjtyd_signer::websocket::session::{
    classify_request, fileNamePartData, handle_request, session_step, Action, ClientRequest, Params,
    SessionStep, SocketEvent,
};

#[test]
fn ipc_ident_strips_path_and_extension() {
    assert_eq!(ipc_uri_to_ident("ipc:///tmp/binance_spot_kline_BTCUSDT_1m.ipc"), "binance_spot_kline_BTCUSDT_1m");
}

#[test]
fn ipc_ident_strips_repeated_prefix_and_suffix() {
    assert_eq!(ipc_uri_to_ident("ipc:///tmp/ipc:///tmp/abc.ipc.ipc"), "abc");
}

#[test]
fn ipc_ident_keeps_other_text() {
    assert_eq!(ipc_uri_to_ident("tcp://host/abc.ipcx"), "tcp://host/abc.ipcx");
    assert_eq!(ipc_uri_to_ident(""), "");
    assert_eq!(ipc_uri_to_ident("ipc:///tmp/.ipc"), "");
}

#[test]
fn ipc_ident_is_idempotent_on_example() {
    let once = ipc_uri_to_ident("ipc:///tmp/okx_swap.ipc");
    assert_eq!(ipc_uri_to_ident(once), once);
}

#[test]
fn ipc_ident_handles_non_ascii() {
    assert_eq!(ipc_uri_to_ident("ipc:///tmp/黑风.ipc"), "黑风");
}

#[test]
fn trim_matches_like_std() {
    for (s, p) in [("aaab", "a"), ("abab", "ab"), ("", "x"), ("xyz", ""), ("ababa", "aba")] {
        assert_eq!(trim_start_matches(s, p), s.trim_start_matches(p));
        assert_eq!(trim_end_matches(s, p), s.trim_end_matches(p));
    }
}

#[test]
fn str_eq_compares_characters() {
    assert!(str_eq("abc", "abc"));
    assert!(!str_eq("abc", "abd"));
    assert!(!str_eq("abc", "ab"));
    assert!(str_eq("", ""));
}

fn params(period: Option<&str>) -> Params {
    Params {
        exchange: "binance".to_string(),
        market_type: "spot".to_string(),
        msg_type: "kline".to_string(),
        symbols: "BTCUSDT".to_string(),
        period: period.map(|p| p.to_string()),
        date: "20220101".to_string(),
        day: None,
    }
}

#[test]
fn file_name_with_period() {
    assert_eq!(fileNamePartData(&params(Some("1m"))), "binance_spot_kline_BTCUSDT_1m");
}

#[test]
fn file_name_without_period() {
    assert_eq!(fileNamePartData(&params(None)), "binance_spot_kline_BTCUSDT");
    assert_eq!(fileNamePartData(&params(Some(""))), "binance_spot_kline_BTCUSDT");
}

fn action(name: &str, echo: Option<i64>) -> Action {
    Action { action: name.to_string(), params: "{\"exchange\":\"binance\"}".to_string(), echo }
}

#[test]
fn requests_are_classified() {
    assert_eq!(classify_request(&action("subscribe", None)), ClientRequest::Subscribe);
    assert_eq!(classify_request(&action("unsubscribe", None)), ClientRequest::Unsubscribe);
    assert_eq!(classify_request(&action("subscribe", Some(3))), ClientRequest::FileQuery);
    assert_eq!(classify_request(&action("hello", None)), ClientRequest::Other);
}

#[test]
fn subscribe_request_adds_client() {
    let r = handle_request(&action("subscribe", None), 7, "tx");
    assert!(matches!(r.feed, Some(SocketAction::Add(7, "tx"))));
    assert!(r.query.is_none());
    assert_eq!(r.text, "hello world");
}

#[test]
fn unsubscribe_request_removes_client() {
    let r = handle_request(&action("unsubscribe", None), 7, "tx");
    assert!(matches!(r.feed, Some(SocketAction::Remove(7))));
    assert_eq!(r.text, "hello world");
}

#[test]
fn query_request_hands_on_params() {
    let r = handle_request(&action("subscribe", Some(1)), 7, "tx");
    assert!(r.feed.is_none());
    assert_eq!(r.query.as_deref(), Some("{\"exchange\":\"binance\"}"));
    let r = handle_request(&action("other", None), 7, "tx");
    assert!(r.feed.is_none() && r.query.is_none());
    assert_eq!(r.text, "hello world");
}

#[test]
fn session_steps() {
    assert!(matches!(session_step(SocketEvent::Text("hi".to_string())), SessionStep::Request(t) if t == "hi"));
    assert!(matches!(session_step(SocketEvent::Binary), SessionStep::Note(t) if t == "client sent binary data"));
    assert!(matches!(session_step(SocketEvent::Ping), SessionStep::Note(t) if t == "socket ping"));
    assert!(matches!(session_step(SocketEvent::Pong), SessionStep::Note(t) if t == "socket pong"));
    assert!(matches!(session_step(SocketEvent::Close), SessionStep::End(t) if t == "client disconnected"));
    assert!(matches!(session_step(SocketEvent::Failed), SessionStep::End(t) if t == "client disconnected"));
}

#[test]
fn feed_broadcasts_text() {
    let step = feed_step(FeedEvent::Payload("{\"a\":1} 黑".as_bytes().to_vec()));
    assert!(step == FeedStep::Broadcast("{\"a\":1} 黑".to_string()));
}

#[test]
fn feed_broadcasts_empty_and_multibyte_text() {
    assert!(feed_step(FeedEvent::Payload(vec![])) == FeedStep::Broadcast(String::new()));
    assert!(feed_step(FeedEvent::Payload(vec![0xe9, 0xbb, 0x91])) == FeedStep::Broadcast("黑".to_string()));
}

#[test]
fn feed_stops_on_error_or_end() {
    assert!(feed_step(FeedEvent::Failed) == FeedStep::Stop);
    assert!(feed_step(FeedEvent::Ended) == FeedStep::Stop);
}

#[test]
fn subscriber_table_add_and_remove() {
    let mut t: SubscriberTable<&str> = SubscriberTable::new();
    t.apply(SocketAction::Add(1, "a"));
    t.apply(SocketAction::Add(2, "b"));
    t.apply(SocketAction::Add(1, "c"));
    assert_eq!(t.len(), 2);
    let mut senders: Vec<&str> = t.senders().copied().collect();
    senders.sort();
    assert_eq!(senders, vec!["b", "c"]);
    t.apply(SocketAction::Remove(1));
    assert!(!t.contains(1));
    assert!(t.contains(2));
    t.apply(SocketAction::Remove(5));
    assert_eq!(t.len(), 1);
}

#[test]
fn cloud_signals_labels() {
    let c = cloud_signals(4, Some(Signal::Buy), Some(Signal::Sell)).ok().unwrap();
    assert_eq!(c.s1_action, "buy");
    assert_eq!(c.s2_action, "sell");
    let c = cloud_signals(5, Some(Signal::Idle), Some(Signal::Buy)).ok().unwrap();
    assert_eq!(c.s1_action, "no");
    assert_eq!(c.s2_action, "buy");
}

#[test]
fn cloud_signals_errors() {
    assert_eq!(cloud_signals(0, None, None).err(), Some(CloudError::TenkanSenMissing));
    assert_eq!(cloud_signals(1, None, None).err(), Some(CloudError::KijunSenMissing));
    assert_eq!(cloud_signals(2, None, None).err(), Some(CloudError::SenkouSpanAMissing));
    assert_eq!(cloud_signals(3, Some(Signal::Buy), Some(Signal::Buy)).err(), Some(CloudError::SenkouSpanBMissing));
    assert_eq!(cloud_signals(4, None, Some(Signal::Buy)).err(), Some(CloudError::NoAction1));
    assert_eq!(cloud_signals(4, Some(Signal::Sell), None).err(), Some(CloudError::NoAction2));
}

#[test]
fn cloud_error_messages() {
    assert_eq!(CloudError::TenkanSenMissing.message(), "tenkan_sen is None");
    assert_eq!(CloudError::KijunSenMissing.message(), "kijun_sen is None");
    assert_eq!(CloudError::SenkouSpanAMissing.message(), "senkou_span_a is None");
    assert_eq!(CloudError::SenkouSpanBMissing.message(), "senkou_span_b is None");
    assert_eq!(CloudError::NoAction1.message(), "no action 1");
    assert_eq!(CloudError::NoAction2.message(), "no action 2");
}

#[test]
fn product_states_put_take() {
    let mut s: ProductStates<u32> = ProductStates::new();
    assert!(!s.contains("btc"));
    s.put("btc".to_string(), 1);
    s.put("eth".to_string(), 2);
    s.put("btc".to_string(), 3);
    assert_eq!(s.len(), 2);
    assert_eq!(s.take("btc"), Some(3));
    assert!(!s.contains("btc"));
    assert_eq!(s.take("btc"), None);
    assert!(s.contains("eth"));
    assert_eq!(s.take("eth"), Some(2));
    assert_eq!(s.len(), 0);
}

#[test]
fn product_of_socket_path() {
    assert_eq!(product_of("ipc:///tmp/binance_spot.ipc"), "binance_spot");
}

fn names(v: &[String]) -> Vec<&str> {
    v.iter().map(|s| s.as_str()).collect()
}

#[test]
fn plan_starts_new_and_stops_removed() {
    let running = vec!["a".to_string(), "b".to_string()];
    let config = vec![
        ("b".to_string(), vec!["ipc:///tmp/x.ipc".to_string()]),
        ("c".to_string(), vec!["ipc:///tmp/y.ipc".to_string()]),
    ];
    let plan = plan_reconfigure(&running, config);
    assert_eq!(plan.start.len(), 1);
    assert_eq!(plan.start[0].0, "c");
    assert_eq!(plan.start[0].1, vec!["ipc:///tmp/y.ipc".to_string()]);
    assert_eq!(names(&plan.stop), vec!["a"]);
}

#[test]
fn reconfigure_reads_json() {
    let running = vec!["ichimoku_cloud".to_string(), "old".to_string()];
    let plan = reconfigure(&running, "{\"new\": [\"ipc:///tmp/a.ipc\"], \"ichimoku_cloud\": []}").ok().unwrap();
    assert_eq!(plan.start.len(), 1);
    assert_eq!(plan.start[0].0, "new");
    assert_eq!(plan.start[0].1, vec!["ipc:///tmp/a.ipc".to_string()]);
    assert_eq!(names(&plan.stop), vec!["old"]);
}

#[test]
fn parse_config_orders_by_name() {
    let cfg = parse_signer_config("{\"b\": [\"x\"], \"a\": [\"y\", \"z\"]}").ok().unwrap();
    assert_eq!(cfg.len(), 2);
    assert_eq!(cfg[0].0, "a");
    assert_eq!(cfg[0].1, vec!["y".to_string(), "z".to_string()]);
    assert_eq!(cfg[1].0, "b");
}

#[test]
fn parse_config_rejects_bad_json() {
    assert_eq!(parse_signer_config("[1, 2]").err(), Some(ConfigError::Deserialize));
    assert_eq!(parse_signer_config("not json").err(), Some(ConfigError::Deserialize));
    assert_eq!(ConfigError::Deserialize.message(), "failed to deserialize the configuration file");
}

#[test]
fn signer_kinds() {
    assert_eq!(signer_kind("ichimoku_cloud"), Some(SignerKind::IchimokuCloud));
    assert_eq!(signer_kind("macd"), None);
}

#[test]
fn influx_query_line() {
    assert_eq!(influx_query("t", "a=1,b=2", "x=3", "1700"), "t,a=1,b=2 x=3 1700");
}

struct Line(&'static str);

impl InfluxQuery for Line {
    fn serialize(&self) -> String {
        self.0.to_string()
    }
}

#[test]
fn indicator_line() {
    let ind = Indicator {
        table_name: "tbl".to_string(),
        exchange: "ex".to_string(),
        market_type: "spot".to_string(),
        msg_type: "kline".to_string(),
        symbol: "BTC".to_string(),
        signer_type: "ichimoku_cloud".to_string(),
        data: Line(" open=1 1600000000"),
    };
    assert_eq!(
        InfluxQuery::serialize(&ind),
        "tbl,exchange=ex,market_type=spot,msg_type=kline,symbol=BTC  open=1 1600000000\n"
    );
    assert_eq!(ind.influx_line("f=1 2"), "tbl,exchange=ex,market_type=spot,msg_type=kline,symbol=BTC f=1 2\n");
}

#[test]
fn ichimoku_indicator_constants() {
    let ind = ichimoku_cloud_indicator(5u8);
    assert_eq!(ind.table_name, "kline_ichimoku_monitor_v4");
    assert_eq!(ind.exchange, "name");
    assert_eq!(ind.market_type, "sudo");
    assert_eq!(ind.msg_type, "ccc");
    assert_eq!(ind.symbol, "ccc");
    assert_eq!(ind.signer_type, "ichimoku_cloud");
    assert_eq!(ind.data, 5);
}

#[test]
fn application_config_holds_settings() {
    let c = ApplicationConfig {
        log_dir: "log".to_string(),
        log_level: "info".to_string(),
        record_dir: "rec".to_string(),
        host: "127.0.0.1".to_string(),
        port: 8080,
    };
    assert_eq!(c.clone(), c);
}

#[test]
fn ipc_ident_of_socket_path_gives_name_back() {
    for name in ["binance_spot", "a", "", "ipc:///tm", "x.ip", "黑风雷"] {
        let uri = format!("ipc:///tmp/{}.ipc", name);
        assert_eq!(ipc_uri_to_ident(&uri), name);
        assert_eq!(ipc_uri_to_ident(ipc_uri_to_ident(&uri)), ipc_uri_to_ident(&uri));
    }
}

#[test]
fn carried_out_plan_runs_configured_signals() {
    let running = vec!["a".to_string(), "b".to_string(), "d".to_string()];
    let config = vec![
        ("b".to_string(), vec![]),
        ("c".to_string(), vec!["ipc:///tmp/c.ipc".to_string()]),
        ("e".to_string(), vec![]),
    ];
    let plan = plan_reconfigure(&running, config.clone());
    let mut after: Vec<String> = running.iter().filter(|n| !plan.stop.contains(n)).cloned().collect();
    for (name, _) in &plan.start {
        assert!(!running.contains(name));
        after.push(name.clone());
    }
    for n in &plan.stop {
        assert!(running.contains(n));
    }
    after.sort();
    let mut wanted: Vec<String> = config.iter().map(|e| e.0.clone()).collect();
    wanted.sort();
    assert_eq!(after, wanted);
}

#[test]
fn subscribe_then_unsubscribe_leaves_client_out() {
    let mut t: SubscriberTable<u8> = SubscriberTable::new();
    t.apply(SocketAction::Add(9, 1));
    let sub = handle_request(&action("subscribe", None), 4, 2u8);
    t.apply(sub.feed.unwrap());
    assert!(t.contains(4));
    let unsub = handle_request(&action("unsubscribe", None), 4, 3u8);
    t.apply(unsub.feed.unwrap());
    assert!(!t.contains(4));
    assert!(t.contains(9));
    assert_eq!(t.len(), 1);
}

fn reading(n: usize, s1: Option<Signal>, s2: Option<Signal>) -> CloudReading<f64> {
    CloudReading { values: (0..n).map(|i| i as f64 + 0.5).collect(), s1, s2 }
}

#[test]
fn monitor_starts_new_product_then_records() {
    let mut states: ProductStates<u32> = ProductStates::new();
    let init = |c: &u32| Some(*c * 10);
    let next = |s: u32, c: &u32| (s + *c, reading(4, Some(Signal::Buy), Some(Signal::Idle)));
    let r = monitor_step(&mut states, "ipc:///tmp/btc.ipc", &1, init, next);
    assert!(matches!(r, MonitorOutcome::Started));
    let r = monitor_step(&mut states, "ipc:///tmp/btc.ipc", &2, init, next);
    match r {
        MonitorOutcome::Recorded(values, sig) => {
            assert_eq!(values, vec![0.5, 1.5, 2.5, 3.5]);
            assert_eq!(sig.s1_action, "buy");
            assert_eq!(sig.s2_action, "no");
        }
        _ => panic!("expected a record"),
    }
    assert_eq!(states.take("btc"), Some(12));
}

#[test]
fn monitor_reports_init_failure_and_short_results() {
    let mut states: ProductStates<u32> = ProductStates::new();
    let r = monitor_step(&mut states, "ipc:///tmp/eth.ipc", &1u32, |_c: &u32| None, |s: u32, _c: &u32| (s, reading(4, None, None)));
    assert!(matches!(r, MonitorOutcome::InitFailed));
    assert_eq!(states.len(), 0);
    states.put("eth".to_string(), 0);
    let r = monitor_step(&mut states, "ipc:///tmp/eth.ipc", &1u32, |_c: &u32| None, |s: u32, _c: &u32| (s, reading(2, None, None)));
    assert!(matches!(r, MonitorOutcome::Rejected(CloudError::SenkouSpanAMissing)));
    let r = monitor_step(&mut states, "ipc:///tmp/eth.ipc", &1u32, |_c: &u32| None, |s: u32, _c: &u32| (s, reading(4, Some(Signal::Sell), None)));
    assert!(matches!(r, MonitorOutcome::Rejected(CloudError::NoAction2)));
    assert_eq!(states.len(), 1);
}

#[test]
fn reloading_unchanged_config_changes_nothing() {
    let content = "{\"a\": [\"ipc:///tmp/a.ipc\"], \"b\": []}";
    let first = reconfigure(&vec!["old".to_string()], content).ok().unwrap();
    let running: Vec<String> = first.start.iter().map(|e| e.0.clone()).collect();
    assert_eq!(names(&first.stop), vec!["old"]);
    let second = reconfigure(&running, content).ok().unwrap();
    assert!(second.start.is_empty());
    assert!(second.stop.is_empty());
}

#[test]
fn config_with_repeated_name_starts_it_once() {
    let plan = reconfigure(&vec![], "{\"a\": [\"x\"], \"a\": [\"y\"]}").ok().unwrap();
    assert_eq!(plan.start.len(), 1);
    assert_eq!(plan.start[0].0, "a");
}

#[test]
fn changed_path_only_on_modification() {
    assert_eq!(changed_config_path(true, Some("conf/signer.json".to_string())), Some("conf/signer.json".to_string()));
    assert_eq!(changed_config_path(false, Some("conf/signer.json".to_string())), None);
    assert_eq!(changed_config_path(false, None), None);
}

#[test]
fn table_follows_last_change_per_client() {
    let mut t: SubscriberTable<char> = SubscriberTable::new();
    for a in [
        SocketAction::Add(1, 'a'),
        SocketAction::Add(2, 'b'),
        SocketAction::Remove(1),
        SocketAction::Add(3, 'c'),
        SocketAction::Add(2, 'd'),
        SocketAction::Remove(7),
    ] {
        t.apply(a);
    }
    assert!(!t.contains(1));
    let mut senders: Vec<char> = t.senders().copied().collect();
    senders.sort();
    assert_eq!(senders, vec!['c', 'd']);
}

#[test]
fn client_ids_name_each_client_once() {
    let mut t: SubscriberTable<&str> = SubscriberTable::new();
    t.apply(SocketAction::Add(1, "a"));
    t.apply(SocketAction::Add(2, "a"));
    t.apply(SocketAction::Add(3, "c"));
    t.apply(SocketAction::Add(1, "b"));
    t.apply(SocketAction::Remove(3));
    let mut ids = t.client_ids();
    ids.sort();
    assert_eq!(ids, vec![1, 2]);
    assert_eq!(t.get(1), Some(&"b"));
    assert_eq!(t.get(2), Some(&"a"));
    assert_eq!(t.get(3), None);
}

#[test]
fn cloud_record_layout() {
    let f = CloudFields {
        open: "1.5".to_string(),
        high: "2".to_string(),
        low: "1".to_string(),
        close: "1.75".to_string(),
        volume: "100".to_string(),
        tenkan_sen: "1.2".to_string(),
        kijun_sen: "1.3".to_string(),
        senkou_span_a: "1.4".to_string(),
        senkou_span_b: "1.6".to_string(),
        s1_action: "buy".to_string(),
        s2_action: "no".to_string(),
        timestamp: "1650000000".to_string(),
    };
    let open = 1.5f64;
    assert_eq!(
        cloud_fields_line(&f),
        format!(
            "{} {} {}00000",
            "",
            format!(
                "open={},high={},low={},close={},volume={},tenkan_sen={},kijun_sen={},senkou_span_a={},senkou_span_b={},s1=\"{}\",s2=\"{}\"",
                open, 2f64, 1f64, 1.75f64, 100f64, 1.2f64, 1.3f64, 1.4f64, 1.6f64, "buy", "no"
            ),
            1650000000i64
        )
    );
}
