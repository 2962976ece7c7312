use healthchecker::api::{info_response, priority_order_response, reload_response, reset_response};
use healthchecker::config::{build_members, ConfigError, Pool};
use healthchecker::digits::{dec_u16, dec_u8};
use healthchecker::ip::IpV4;
use healthchecker::member::Member;
use healthchecker::poller::{
    finish_cycle, plan_cycle, probe_url, socket_string, startup_jitter, CycleAction, PollerVerdict,
};
use healthchecker::probe::{
    contains_bytes, http_verdict, status_matches, tcp_verdict, HTTPOptions, HTTPReceive, HttpEvent,
    PollType,
};
use healthchecker::resolve::{resolve_first_v4, ResolveError, ResolveOutcome};
use healthchecker::table::{members_equal, HealthTable};

fn member(host: &str, ip: IpV4, healthy: bool, cancel: bool) -> Member {
    Member {
        host: String::from(host),
        ip,
        healthy,
        cancel,
    }
}

#[test]
fn test_the_tests() {}

#[test]
fn main_test_the_tests() {}

#[test]
fn decimal_rendering() {
    assert_eq!(dec_u8(0), "0");
    assert_eq!(dec_u8(7), "7");
    assert_eq!(dec_u8(255), "255");
    assert_eq!(dec_u16(8080), "8080");
    assert_eq!(dec_u16(65535), "65535");
    assert_eq!(dec_u16(1000), "1000");
}

#[test]
fn dotted_quad_rendering() {
    assert_eq!(IpV4::new(127, 0, 0, 1).dotted(), "127.0.0.1");
    assert_eq!(IpV4::new(10, 42, 250, 9).dotted(), "10.42.250.9");
    assert_eq!(IpV4::loopback().dotted(), "127.0.0.1");
}

#[test]
fn probe_target_strings() {
    assert_eq!(socket_string(&String::from("app.example"), 443), "app.example:443");
    assert_eq!(
        probe_url(true, &String::from("app.example"), 8443, &String::from("/healthz")),
        "https://app.example:8443/healthz"
    );
    assert_eq!(
        probe_url(false, &String::from("app.example"), 80, &String::from("/")),
        "http://app.example:80/"
    );
}

#[test]
fn resolver_picks_first_ipv4() {
    let candidates = vec![
        None,
        Some(IpV4::new(10, 0, 0, 1)),
        Some(IpV4::new(10, 0, 0, 2)),
    ];
    let got = resolve_first_v4(&ResolveOutcome::Candidates(candidates));
    assert_eq!(got, Ok(IpV4::new(10, 0, 0, 1)));
}

#[test]
fn resolver_signals_recoverable_errors() {
    assert_eq!(
        resolve_first_v4(&ResolveOutcome::LookupFailed),
        Err(ResolveError::LookupFailed)
    );
    let v6_only = vec![None, None];
    assert_eq!(
        resolve_first_v4(&ResolveOutcome::Candidates(v6_only)),
        Err(ResolveError::NoIpv4Candidate)
    );
    assert_eq!(
        resolve_first_v4(&ResolveOutcome::Candidates(Vec::new())),
        Err(ResolveError::NoIpv4Candidate)
    );
}

#[test]
fn member_construction_masks_failed_lookup() {
    let host = String::from("db.example");
    let ok = Member::new(&host, Ok(IpV4::new(192, 168, 1, 20)));
    assert_eq!(ok.ip, IpV4::new(192, 168, 1, 20));
    assert!(!ok.healthy);
    assert!(!ok.cancel);
    assert_eq!(ok.host, "db.example");

    let masked = Member::new(&host, Err(ResolveError::LookupFailed));
    assert_eq!(masked.ip, IpV4::new(127, 0, 0, 1));
    assert!(!masked.healthy);

    let v6_only = Member::new(&host, Err(ResolveError::NoIpv4Candidate));
    assert_eq!(v6_only.ip, IpV4::new(127, 0, 0, 1));
    assert!(!v6_only.healthy);
}

#[test]
fn member_equality_ignores_health_state() {
    let ip = IpV4::new(10, 1, 1, 1);
    let a = member("web.example", ip, false, false);
    let b = member("web.example", ip, true, true);
    // reflexive, symmetric, and blind to healthy/cancel
    assert!(a == a);
    assert!(a == b);
    assert!(b == a);
    let c = member("web.example", IpV4::new(10, 1, 1, 2), false, false);
    assert!(a != c);
    let d = member("other.example", ip, false, false);
    assert!(a != d);
}

#[test]
fn identical_member_sets_do_not_replace() {
    let ip = IpV4::new(10, 1, 1, 1);
    let pool = String::from("svc");
    let mut table = HealthTable::new();
    table.apply_pool(&pool, vec![member("web.example", ip, false, false)]);
    // a probe cycle marks the member healthy
    table.set_health(&pool, &String::from("web.example"), ip, true);
    assert_eq!(table.query_first_healthy(&pool), Some(ip));

    // same (host, ip) set, different health snapshot: no replacement
    let rebuilt = vec![member("web.example", ip, false, false)];
    assert!(members_equal(table.pool_members(0), &rebuilt));
    table.apply_pool(&pool, rebuilt);
    assert_eq!(table.query_first_healthy(&pool), Some(ip));

    // a changed member set is replaced wholesale, dropping health state
    let changed = vec![member("web.example", IpV4::new(10, 1, 1, 9), false, false)];
    table.apply_pool(&pool, changed);
    assert_eq!(table.query_first_healthy(&pool), None);
}

#[test]
fn tcp_probe_verdicts() {
    // a reachable listening port accepts the connect attempt
    assert!(tcp_verdict(true));
    // a refused or closed port fails it
    assert!(!tcp_verdict(false));
}

#[test]
fn http_status_code_verdicts() {
    let up = HTTPReceive::StatusCodes(vec![200, 201]);
    let ok = HttpEvent::Response {
        status: 200,
        body: None,
    };
    let unavailable = HttpEvent::Response {
        status: 503,
        body: None,
    };
    assert!(http_verdict(&up, &ok));
    assert!(!http_verdict(&up, &unavailable));
    assert!(!http_verdict(&up, &HttpEvent::TransportError));
    assert!(status_matches(&vec![200, 201], 201));
    assert!(!status_matches(&vec![200, 201], 404));
    assert!(!status_matches(&Vec::new(), 200));
}

#[test]
fn http_body_match_verdicts() {
    let up = HTTPReceive::BodyString(String::from("OK"));
    let healthy_body = HttpEvent::Response {
        status: 200,
        body: Some(b"system: OK, ready".to_vec()),
    };
    let down_body = HttpEvent::Response {
        status: 200,
        body: Some(b"DOWN".to_vec()),
    };
    let unread_body = HttpEvent::Response {
        status: 200,
        body: None,
    };
    assert!(http_verdict(&up, &healthy_body));
    assert!(!http_verdict(&up, &down_body));
    // a body that could not be read after a successful status line
    assert!(!http_verdict(&up, &unread_body));
    assert!(!http_verdict(&up, &HttpEvent::TransportError));
}

#[test]
fn byte_containment_edges() {
    assert!(contains_bytes(b"abc", b""));
    assert!(contains_bytes(b"", b""));
    assert!(!contains_bytes(b"ab", b"abc"));
    assert!(contains_bytes(b"xxabcx", b"abc"));
    assert!(!contains_bytes(b"axbxc", b"abc"));
    assert!(contains_bytes(b"abc", b"abc"));
}

#[test]
fn config_validation() {
    let tcp_pool = Pool {
        name: String::from("svc"),
        port: 443,
        interval: 30,
        members: vec![String::from("web.example")],
        poll_type: PollType::TCP,
        http_options: None,
        fallback_ip: None,
    };
    assert_eq!(tcp_pool.validate(), Ok(()));

    let bad_http_pool = Pool {
        name: String::from("svc"),
        port: 443,
        interval: 30,
        members: vec![String::from("web.example")],
        poll_type: PollType::HTTP,
        http_options: None,
        fallback_ip: None,
    };
    assert_eq!(bad_http_pool.validate(), Err(ConfigError::MissingHTTPOptions));

    let http_pool = Pool {
        name: String::from("svc"),
        port: 443,
        interval: 30,
        members: vec![String::from("web.example")],
        poll_type: PollType::HTTP,
        http_options: Some(HTTPOptions {
            https_enabled: true,
            https_require_validity: None,
            send: String::from("/healthz"),
            receive_up: HTTPReceive::StatusCodes(vec![200]),
        }),
        fallback_ip: None,
    };
    assert_eq!(http_pool.validate(), Ok(()));
}

#[test]
fn built_member_list_order_and_fallback() {
    let hosts = vec![String::from("a.example"), String::from("b.example")];
    let resolutions = vec![
        Ok(IpV4::new(10, 0, 0, 1)),
        Err(ResolveError::LookupFailed),
    ];
    let fallback = Some(IpV4::new(10, 9, 9, 9));
    let ms = build_members(&hosts, &resolutions, fallback);
    assert_eq!(ms.len(), 3);
    assert_eq!(ms[0].host, "a.example");
    assert_eq!(ms[0].ip, IpV4::new(10, 0, 0, 1));
    assert!(!ms[0].healthy);
    assert_eq!(ms[1].host, "b.example");
    assert_eq!(ms[1].ip, IpV4::new(127, 0, 0, 1));
    assert!(!ms[1].healthy);
    // the synthetic fallback comes last and starts healthy
    assert_eq!(ms[2].host, "fallback");
    assert_eq!(ms[2].ip, IpV4::new(10, 9, 9, 9));
    assert!(ms[2].healthy);
    assert!(!ms[2].cancel);
}

#[test]
fn query_returns_earliest_healthy_in_order() {
    let pool = String::from("svc");
    let mut table = HealthTable::new();
    table.apply_pool(
        &pool,
        vec![
            member("a.example", IpV4::new(10, 0, 0, 1), false, false),
            member("b.example", IpV4::new(10, 0, 0, 2), true, false),
            member("c.example", IpV4::new(10, 0, 0, 3), true, false),
        ],
    );
    assert_eq!(table.query_first_healthy(&pool), Some(IpV4::new(10, 0, 0, 2)));

    // marking the first member healthy moves the answer forward
    table.set_health(&pool, &String::from("a.example"), IpV4::new(10, 0, 0, 1), true);
    assert_eq!(table.query_first_healthy(&pool), Some(IpV4::new(10, 0, 0, 1)));

    // no healthy member at all: not found
    for h in ["a.example", "b.example", "c.example"] {
        table.set_health(&pool, &String::from(h), IpV4::new(9, 9, 9, 9), false);
    }
    assert_eq!(table.query_first_healthy(&pool), None);

    // unknown pool: not found
    assert_eq!(table.query_first_healthy(&String::from("nope")), None);
}

#[test]
fn set_health_targets_only_the_matching_member() {
    let pool = String::from("svc");
    let mut table = HealthTable::new();
    table.apply_pool(
        &pool,
        vec![
            member("a.example", IpV4::new(10, 0, 0, 1), false, false),
            member("b.example", IpV4::new(10, 0, 0, 2), false, false),
        ],
    );
    table.set_health(&pool, &String::from("b.example"), IpV4::new(10, 0, 9, 2), true);
    let ms = table.pool_members(0);
    assert!(!ms[0].healthy);
    assert_eq!(ms[0].ip, IpV4::new(10, 0, 0, 1));
    assert!(ms[1].healthy);
    assert_eq!(ms[1].ip, IpV4::new(10, 0, 9, 2));

    // a pool or host reconfigured away is silently ignored
    table.set_health(&String::from("gone"), &String::from("a.example"), IpV4::new(1, 1, 1, 1), true);
    table.set_health(&pool, &String::from("gone.example"), IpV4::new(1, 1, 1, 1), true);
    assert_eq!(table.num_pools(), 1);
    assert_eq!(table.pool_members(0).len(), 2);
}

#[test]
fn cancellation_stops_poller_and_clears_flag() {
    let pool = String::from("svc");
    let host = String::from("a.example");
    let ip = IpV4::new(10, 0, 0, 1);
    let mut table = HealthTable::new();
    table.apply_pool(&pool, vec![member("a.example", ip, false, false)]);

    // reload flags every member for cooperative cancellation
    let (status, body) = reload_response(&mut table);
    assert_eq!(status, 200);
    assert_eq!(body, "Config reloaded");

    // the next completed cycle observes the flag, stops, and clears it
    let verdict = finish_cycle(&mut table, &pool, &host, ip, true);
    assert_eq!(verdict, PollerVerdict::Stop);
    assert!(!table.pool_members(0)[0].cancel);

    // the cycle's health write still landed before the poller stopped
    assert!(table.pool_members(0)[0].healthy);

    // with the flag cleared, the following cycle continues
    let verdict = finish_cycle(&mut table, &pool, &host, ip, true);
    assert_eq!(verdict, PollerVerdict::Continue);
}

#[test]
fn check_cancel_reads_and_clears() {
    let pool = String::from("svc");
    let host = String::from("a.example");
    let mut table = HealthTable::new();
    table.apply_pool(&pool, vec![member("a.example", IpV4::new(10, 0, 0, 1), false, true)]);
    assert!(table.check_cancel(&pool, &host));
    assert!(!table.check_cancel(&pool, &host));
    // missing pool or host reads false
    assert!(!table.check_cancel(&String::from("gone"), &host));
    assert!(!table.check_cancel(&pool, &String::from("gone.example")));
}

#[test]
fn reset_installs_synthetic_healthy_member() {
    let pool = String::from("p");
    let mut table = HealthTable::new();
    table.apply_pool(
        &pool,
        vec![member("a.example", IpV4::new(10, 0, 0, 1), false, false)],
    );
    let (status, body) = reset_response(&mut table, &pool);
    assert_eq!(status, 200);
    assert_eq!(body, "OK");
    assert_eq!(table.query_first_healthy(&pool), Some(IpV4::new(1, 2, 3, 4)));

    // reset also creates a previously unknown pool
    let fresh = String::from("q");
    let mut table2 = HealthTable::new();
    table2.reset(&fresh);
    assert_eq!(table2.query_first_healthy(&fresh), Some(IpV4::new(1, 2, 3, 4)));
    assert_eq!(table2.pool_members(0)[0].host, "localhost");
}

#[test]
fn api_responses_over_the_table() {
    let pool = String::from("svc");
    let mut table = HealthTable::new();

    let (status, body) = priority_order_response(&table, &pool);
    assert_eq!((status, body.as_str()), (404, "Pool not found"));
    let (status, body) = info_response(&table, &pool);
    assert_eq!((status, body.as_str()), (404, "Not Found"));

    table.apply_pool(&pool, vec![member("a.example", IpV4::new(10, 0, 0, 7), false, false)]);
    let (status, body) = priority_order_response(&table, &pool);
    assert_eq!((status, body.as_str()), (404, "No healthy members and no fallback IP"));
    let (status, body) = info_response(&table, &pool);
    assert_eq!((status, body.as_str()), (404, "No healthy members and no fallback"));

    table.set_health(&pool, &String::from("a.example"), IpV4::new(10, 0, 0, 7), true);
    let (status, body) = priority_order_response(&table, &pool);
    assert_eq!((status, body.as_str()), (200, "10.0.0.7"));
    let (status, body) = info_response(&table, &pool);
    assert_eq!((status, body.as_str()), (200, "10.0.0.7"));
}

#[test]
fn startup_jitter_stays_within_interval() {
    for _ in 0..100 {
        assert!(startup_jitter(30) <= 30);
    }
    assert_eq!(startup_jitter(0), 0);
}

#[test]
fn cycle_plan_follows_resolution() {
    let ip = IpV4::new(10, 0, 0, 1);
    assert_eq!(plan_cycle(&Ok(ip)), CycleAction::Probe(ip));
    assert_eq!(
        plan_cycle(&Err(ResolveError::LookupFailed)),
        CycleAction::SkipProbe
    );
    assert_eq!(
        plan_cycle(&Err(ResolveError::NoIpv4Candidate)),
        CycleAction::SkipProbe
    );
}

#[test]
fn one_cycle_round_trip_marks_target_healthy() {
    // load a configuration with one TCP pool
    let conf = Pool {
        name: String::from("svc"),
        port: 9090,
        interval: 5,
        members: vec![String::from("target.example")],
        poll_type: PollType::TCP,
        http_options: None,
        fallback_ip: None,
    };
    assert_eq!(conf.validate(), Ok(()));

    // seed the table from the configuration
    let resolved = IpV4::new(10, 20, 30, 40);
    let ms = build_members(&conf.members, &vec![Ok(resolved)], conf.fallback_ip);
    let mut table = HealthTable::new();
    table.apply_pool(&conf.name, ms);
    assert_eq!(table.query_first_healthy(&conf.name), None);

    // one cycle against a known-healthy target: resolve, probe, record
    let resolution = resolve_first_v4(&ResolveOutcome::Candidates(vec![Some(resolved)]));
    let action = plan_cycle(&resolution);
    assert_eq!(action, CycleAction::Probe(resolved));
    let healthy = tcp_verdict(true);
    let verdict = finish_cycle(
        &mut table,
        &conf.name,
        &conf.members[0],
        resolved,
        healthy,
    );
    assert_eq!(verdict, PollerVerdict::Continue);

    // the dumped table shows the target healthy with its resolved address
    assert_eq!(table.num_pools(), 1);
    assert_eq!(table.pool_name(0), "svc");
    let dumped = table.pool_members(0);
    assert_eq!(dumped.len(), 1);
    assert_eq!(dumped[0].host, "target.example");
    assert!(dumped[0].healthy);
    assert_eq!(dumped[0].ip, resolved);
    assert_eq!(table.query_first_healthy(&conf.name), Some(resolved));
}
