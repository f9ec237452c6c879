use ce_test::bootstrap::{bootstrap_url, id_of_address, peer_id, peer_id_in, PeerIdError};
use ce_test::command::Output;
use ce_test::harness::{
    alive_command, api_url, board_descriptor, data_dir, force_kill_command, kill_command,
    node_args, Harness, TestNode,
};
use ce_test::poll::{
    expired_message, health_attempt, no_token_message, not_healthy_message, poll, token_attempt,
    token_of, Attempt, Poll, ATTEMPTS, PAUSE_MILLIS,
};

fn node() -> TestNode {
    TestNode {
        node_id: "ab12".to_string(),
        api: "http://127.0.0.1:8080".to_string(),
        peer_id: "12D3KooWx".to_string(),
        p2p_port: 4001,
    }
}

fn document(text: &str) -> serde_json::Value {
    serde_json::from_str(text).unwrap()
}

#[test]
fn address_of_a_node() {
    assert_eq!(node().dial_addr(), "/ip4/127.0.0.1/tcp/4001/p2p/12D3KooWx");
    assert_eq!(api_url(8080), "http://127.0.0.1:8080");
    assert_eq!(api_url(0), "http://127.0.0.1:0");
    assert_eq!(bootstrap_url("http://127.0.0.1:8080"), "http://127.0.0.1:8080/bootstrap");
}

#[test]
fn peer_id_comes_back_out_of_the_address() {
    let address = node().dial_addr();
    assert_eq!(id_of_address(Some(&address), String::new()).unwrap(), "12D3KooWx");
}

#[test]
fn arguments_of_a_node() {
    assert_eq!(
        node_args("/tmp/d", 8080, 4001, &None),
        [
            "--data-dir", "/tmp/d", "start", "--no-economy", "--foreground", "--no-mdns",
            "--api-port", "8080", "--port", "4001"
        ]
    );
    assert_eq!(
        node_args("/tmp/d", 1, 65535, &Some(node().dial_addr())),
        [
            "--data-dir", "/tmp/d", "start", "--no-economy", "--foreground", "--no-mdns",
            "--api-port", "1", "--port", "65535", "--bootstrap",
            "/ip4/127.0.0.1/tcp/4001/p2p/12D3KooWx"
        ]
    );
}

#[test]
fn command_of_a_node() {
    let h = Harness::new(7, 0, Some("/opt/ce".to_string()));
    let c = h.node_command("/tmp/d", 8080, 4001, &None);
    assert_eq!(c.program, "/opt/ce");
    assert_eq!(c.args.len(), 10);
    assert_eq!(c.dir, None);
    assert_eq!(
        c.env,
        [
            ("CE_NO_AUTOBOOTSTRAP".to_string(), "1".to_string()),
            ("TMPDIR".to_string(), "/tmp".to_string())
        ]
    );
    assert_eq!(c.output, Output::Silent);
}

#[test]
fn command_that_ends_a_node() {
    let c = kill_command(4242);
    assert_eq!(c.program, "kill");
    assert_eq!(c.args, ["4242"]);
    assert_eq!(c.dir, None);
    assert!(c.env.is_empty());
    assert_eq!(c.output, Output::Shown);
}

#[test]
fn command_that_looks_for_a_process() {
    let c = alive_command(4242);
    assert_eq!(c.program, "kill");
    assert_eq!(c.args, ["-0", "4242"]);
    assert_eq!(c.output, Output::Silent);
}

#[test]
fn command_that_ends_a_process_by_force() {
    let c = force_kill_command(4242);
    assert_eq!(c.program, "kill");
    assert_eq!(c.args, ["-9", "4242"]);
    assert_eq!(c.dir, None);
    assert!(c.env.is_empty());
    assert_eq!(c.output, Output::Silent);
}

#[test]
fn data_directories_lie_under_the_temporary_one() {
    let sep = std::path::MAIN_SEPARATOR;
    assert_eq!(data_dir("/tmp", "ce-test-7-0-0"), format!("/tmp{sep}ce-test-7-0-0"));
    assert_eq!(data_dir("/tmp/", "ce-test-7-0-0"), "/tmp/ce-test-7-0-0");
    let h = Harness::new(7, 0, None);
    let g = Harness::new(7, 1, None);
    assert_ne!(data_dir("/tmp", &h.node_dir()), data_dir("/tmp", &g.node_dir()));
}

#[test]
fn program_defaults_to_ce() {
    assert_eq!(Harness::new(7, 0, None).ce_bin(), "ce");
    assert_eq!(Harness::new(7, 0, Some("x".to_string())).ce_bin(), "x");
}

#[test]
fn every_node_has_its_own_directory() {
    let mut h = Harness::new(4242, 3, None);
    let a = h.node_dir();
    assert_eq!(a, "ce-test-4242-3-0");
    assert_eq!(h.node_dir(), a);
    h.own(a.clone());
    let b = h.board_dir("unoq");
    assert_eq!(b, "ce-test-arduino-4242-3-1-unoq");
    h.own(b.clone());
    let c = h.node_dir();
    assert_eq!(c, "ce-test-4242-3-2");
    assert!(a != b && b != c && a != c);
}

#[test]
fn two_harnesses_of_a_process_share_no_directory() {
    let mut g = Harness::new(4242, 0, None);
    let mut h = Harness::new(4242, 1, None);
    let mut all = Vec::new();
    for _ in 0..12 {
        for harness in [&mut g, &mut h] {
            let dir = harness.node_dir();
            all.push(harness.board_dir("unoq"));
            all.push(dir.clone());
            harness.own(dir);
        }
    }
    assert_eq!(all[1], "ce-test-4242-0-0");
    assert_eq!(all[3], "ce-test-4242-1-0");
    assert_eq!(all[0], "ce-test-arduino-4242-0-0-unoq");
    assert_eq!(all[2], "ce-test-arduino-4242-1-0-unoq");
    for (i, a) in all.iter().enumerate() {
        assert!(!all[i + 1..].contains(a), "{a}");
    }
}

#[test]
fn digits_of_two_numbers_do_not_run_together() {
    let mut g = Harness::new(7, 1, None);
    let h = Harness::new(7, 11, None);
    for _ in 0..11 {
        let dir = g.node_dir();
        g.own(dir);
    }
    assert_eq!(g.node_dir(), "ce-test-7-1-11");
    assert_eq!(h.node_dir(), "ce-test-7-11-0");
    assert_eq!(g.board_dir("0-x"), "ce-test-arduino-7-1-11-0-x");
    assert_eq!(h.board_dir("x"), "ce-test-arduino-7-11-0-x");
}

#[test]
fn descriptor_of_a_board() {
    let text = board_descriptor("unoq");
    assert_eq!(
        text,
        r#"{"name":"emulated-unoq","arch":"native","has_os":true,"has_crypto":true}"#
    );
    assert_eq!(document(&text)["name"], "emulated-unoq");
}

#[test]
fn peer_id_of_an_answer() {
    assert_eq!(peer_id(br#"{"peers":["/p2p/12D3"]}"#).unwrap(), "12D3");
    assert_eq!(peer_id(br#"{"peers":["/ip4/1.2.3.4/tcp/9/p2p/12D3","x"]}"#).unwrap(), "12D3");
    assert_eq!(peer_id(br#"{"peers":["plain"]}"#).unwrap(), "plain");
}

#[test]
fn answers_without_a_peer() {
    for text in [
        r#"{"peers":[]}"#,
        r#"{"peers":{"0":"/p2p/x"}}"#,
        r#"{"peers":[7]}"#,
        r#"{}"#,
        r#"["/p2p/x"]"#,
        "null",
    ] {
        match peer_id(text.as_bytes()) {
            Err(PeerIdError::NoPeer(shown)) => assert_eq!(shown, text),
            other => panic!("{other:?}"),
        }
        match peer_id_in(&document(text)) {
            Err(e) => {
                assert_eq!(e.message(), format!("no peers[0] in /bootstrap: {text}"));
                assert_eq!(e.cause(), None);
            }
            Ok(id) => panic!("{id}"),
        }
    }
}

#[test]
fn answers_that_are_no_json() {
    for body in ["", "{", "{} x", "peers"] {
        let e = peer_id(body.as_bytes()).unwrap_err();
        assert_eq!(e.message(), "error decoding response body");
        let reason = serde_json::from_str::<serde_json::Value>(body).unwrap_err().to_string();
        assert_eq!(e.cause(), Some(reason.as_str()));
        match e {
            PeerIdError::NotJson(why) => assert_eq!(why, reason),
            other => panic!("{other:?}"),
        }
    }
}

#[test]
fn peer_id_in_a_document() {
    assert_eq!(peer_id_in(&document(r#"{"peers":["/p2p/a/p2p/b"]}"#)).unwrap(), "b");
    match id_of_address(None, "{}".to_string()) {
        Err(PeerIdError::NoPeer(shown)) => assert_eq!(shown, "{}"),
        other => panic!("{other:?}"),
    }
}

#[test]
fn tokens_are_trimmed() {
    assert_eq!(token_of("  secret\r\n"), "secret");
    assert_eq!(token_of("\u{2003}a b\u{a0}\u{3000}"), "a b");
    assert_eq!(token_of(" \t\n"), "");
    assert_eq!(token_of("\u{200b}x"), "\u{200b}x");
}

#[test]
fn white_space_is_that_of_unicode() {
    for c in ['\t', '\n', '\u{b}', '\u{c}', '\r', ' ', '\u{85}', '\u{a0}', '\u{1680}', '\u{2000}',
        '\u{200a}', '\u{2028}', '\u{2029}', '\u{202f}', '\u{205f}', '\u{3000}'] {
        assert_eq!(token_of(&c.to_string()), "");
    }
    for c in ['\u{8}', '\u{e}', '\u{1f}', '\u{84}', '\u{200b}', '\u{180e}', '\u{feff}', 'a'] {
        assert_eq!(token_of(&c.to_string()), c.to_string());
    }
}

#[test]
fn a_token_ends_the_wait() {
    match token_attempt(5, Some("secret\n".to_string())) {
        Attempt::Got(token) => assert_eq!(token, "secret"),
        other => panic!("{other:?}"),
    }
    assert!(matches!(token_attempt(ATTEMPTS - 1, Some("s".to_string())), Attempt::Got(_)));
    assert!(matches!(token_attempt(0, Some(" \n".to_string())), Attempt::Retry(1)));
    assert!(matches!(token_attempt(0, None), Attempt::Retry(1)));
    assert!(matches!(token_attempt(ATTEMPTS - 1, None), Attempt::Spent));
    assert_eq!(no_token_message("/tmp/d/api.token"), "no api.token at /tmp/d/api.token");
}

#[test]
fn a_healthy_answer_ends_the_wait() {
    assert!(matches!(health_attempt(0, Some(true)), Attempt::Got(())));
    assert!(matches!(health_attempt(0, Some(false)), Attempt::Retry(1)));
    assert!(matches!(health_attempt(41, None), Attempt::Retry(42)));
    assert!(matches!(health_attempt(ATTEMPTS - 1, Some(false)), Attempt::Spent));
    assert!(matches!(health_attempt(u32::MAX, None), Attempt::Spent));
    assert_eq!(not_healthy_message(), "node API not healthy");
}

#[test]
fn a_node_has_thirty_seconds() {
    let mut made = 0;
    let mut looks = 0u64;
    loop {
        looks += 1;
        match health_attempt(made, None) {
            Attempt::Retry(n) => made = n,
            _ => break,
        }
    }
    assert_eq!(looks, 300);
    assert_eq!(looks * PAUSE_MILLIS, 30_000);
}

#[test]
fn a_condition_counts_before_the_clock() {
    assert_eq!(poll(true, 10, 0), Poll::Ready);
    assert_eq!(poll(false, 0, 0), Poll::Expired);
    assert_eq!(poll(false, 99, 100), Poll::Again);
    assert_eq!(poll(false, 100, 100), Poll::Expired);
    assert_eq!(expired_message("2s"), "assert_eventually timed out after 2s");
}
