use sorcerer::config::Config;
use sorcerer::errors::SorcererError;
use sorcerer::names::apprentice_name_of;
use sorcerer::names::container_name_for;
use sorcerer::names::env_entry;
use sorcerer::names::grpc_addr;
use sorcerer::names::is_valid_apprentice_name;
use sorcerer::names::listen_addr;
use sorcerer::names::port_env_entry;
use sorcerer::names::port_from_env;
use sorcerer::ports::PortAllocator;
use sorcerer::registry::ApprenticeRecord;
use sorcerer::registry::Registry;
use sorcerer::registry::summary_fraction;
use sorcerer::render::format_chat_line_for_pager;
use sorcerer::render::pad_to_width;
use sorcerer::runtime::RuntimeEndpoint;
use sorcerer::runtime::runtime_candidates;
use sorcerer::text::lines_of;
use sorcerer::text::parse_u16;
use sorcerer::text::replace_str;
use sorcerer::text::trim_str;
use sorcerer::text::u64_to_string;
use sorcerer::worker::ApprenticeState;
use sorcerer::worker::LifecycleState;
use sorcerer::worker::SpellResponse;
use sorcerer::worker::kill_ack;
use sorcerer::worker::spell_verdict;

#[test]
fn test_name_rule() {
    assert!(is_valid_apprentice_name("alice"));
    assert!(is_valid_apprentice_name("bob123"));
    assert!(is_valid_apprentice_name("agent-with-dashes"));
    assert!(is_valid_apprentice_name("test_agent"));
    assert!(is_valid_apprentice_name("a"));
    assert!(is_valid_apprentice_name("A123456789012345678901234567890_"));
    assert!(!is_valid_apprentice_name(""));
    assert!(!is_valid_apprentice_name("invalid name with spaces"));
    assert!(!is_valid_apprentice_name("name\nwith\nnewlines"));
    assert!(!is_valid_apprentice_name("a123456789012345678901234567890_x"));
    assert!(!is_valid_apprentice_name("dot.name"));
}

#[test]
fn test_ports_strictly_increase() {
    let mut alloc = PortAllocator::new(50100);
    let p1 = alloc.allocate();
    let p2 = alloc.allocate();
    let p3 = alloc.allocate();
    assert_eq!(p1, 50100);
    assert_eq!(p2, 50101);
    assert_eq!(p3, 50102);
    assert!(p1 < p2 && p2 < p3);
}

#[test]
fn test_observe_guards_future_allocations() {
    let mut alloc = PortAllocator::new(50100);
    alloc.observe(50102);
    let p = alloc.allocate();
    assert_eq!(p, 50103);
    assert!(p > 50102);

    let mut alloc = PortAllocator::new(50200);
    alloc.observe(50100);
    assert_eq!(alloc.allocate(), 50200);
}

#[test]
fn test_create_then_create_same_name() {
    let mut reg = Registry::new();
    let mut alloc = PortAllocator::new(50100);

    let plan = reg.summon_plan(&mut alloc, "alice").unwrap();
    assert_eq!(plan.port, 50100);
    reg.summon_commit("alice", "cid-1".to_string(), plan.port);

    let again = reg.summon_plan(&mut alloc, "alice");
    match again {
        Err(SorcererError::AlreadyExists(name)) => {
            assert_eq!(name, "alice");
        }
        _ => panic!("second create of the same name must be refused"),
    }
}

#[test]
fn test_create_invalid_name_refused() {
    let reg = Registry::new();
    let mut alloc = PortAllocator::new(50100);
    let r = reg.summon_plan(&mut alloc, "invalid name with spaces");
    match r {
        Err(SorcererError::InvalidName) => {}
        _ => panic!("invalid name must be refused"),
    }
    // The refusal reserves no port.
    let mut reg2 = Registry::new();
    let plan = reg2.summon_plan(&mut alloc, "ok").unwrap();
    assert_eq!(plan.port, 50100);
}

#[test]
fn test_summon_plan_layout() {
    let reg = Registry::new();
    let mut alloc = PortAllocator::new(50100);
    let plan = reg.summon_plan(&mut alloc, "alice").unwrap();
    assert_eq!(plan.container_name, "apprentice-alice");
    assert_eq!(plan.env.len(), 2);
    assert_eq!(plan.env[0], "APPRENTICE_NAME=alice");
    assert_eq!(plan.env[1], "GRPC_PORT=50100");
    assert_eq!(plan.addr, "http://127.0.0.1:50100");
}

#[test]
fn test_remove_nonexistent_leaves_registry_unchanged() {
    let mut reg = Registry::new();
    let mut alloc = PortAllocator::new(50100);
    let plan = reg.summon_plan(&mut alloc, "alice").unwrap();
    reg.summon_commit("alice", "cid-1".to_string(), plan.port);
    assert_eq!(reg.len(), 1);

    let r = reg.remove("nonexistent");
    match r {
        Err(e @ SorcererError::NotFound(_)) => {
            assert_eq!(e.message(), "Apprentice nonexistent not found");
        }
        _ => panic!("removing an unknown name must yield NotFound"),
    }
    assert_eq!(reg.len(), 1);
    assert!(reg.contains_name("alice"));
}

#[test]
fn test_remove_existing_always_deletes_record() {
    let mut reg = Registry::new();
    let mut alloc = PortAllocator::new(50100);
    for name in ["alice", "bob", "carol"] {
        let plan = reg.summon_plan(&mut alloc, name).unwrap();
        reg.summon_commit(name, format!("cid-{name}"), plan.port);
    }
    let rec = reg.remove("bob").unwrap();
    assert_eq!(rec.name, "bob");
    assert_eq!(rec.container_id, "cid-bob");
    assert!(!reg.contains_name("bob"));
    assert!(reg.contains_name("alice"));
    assert!(reg.contains_name("carol"));
    assert_eq!(reg.len(), 2);
}

#[test]
fn test_batch_create_partial_failure_summary() {
    let mut reg = Registry::new();
    let mut alloc = PortAllocator::new(50100);

    // "b" is already registered, so the middle item of the batch fails.
    let plan = reg.summon_plan(&mut alloc, "b").unwrap();
    reg.summon_commit("b", "cid-b".to_string(), plan.port);

    let names = ["a", "b", "c"];
    let total = names.len();
    let mut successes = 0;
    let mut outcomes = Vec::new();
    for name in names {
        match reg.summon_plan(&mut alloc, name) {
            Ok(plan) => {
                reg.summon_commit(name, format!("cid-{name}"), plan.port);
                successes += 1;
                outcomes.push((name, true));
            }
            Err(_) => {
                outcomes.push((name, false));
            }
        }
    }
    assert_eq!(outcomes, vec![("a", true), ("b", false), ("c", true)]);
    assert!(reg.contains_name("a"));
    assert!(reg.contains_name("c"));
    assert_eq!(summary_fraction(successes, total), "2/3");
}

#[test]
fn test_cast_target_errors() {
    let mut reg = Registry::new();
    match reg.cast_target("ghost") {
        Err(e @ SorcererError::NotFound(_)) => {
            assert_eq!(e.message(), "Apprentice ghost not found");
        }
        _ => panic!("unknown worker must be NotFound"),
    }
    reg.upsert(ApprenticeRecord {
        name: "silent".to_string(),
        container_id: "cid".to_string(),
        port: 50110,
        connected: false,
    });
    match reg.cast_target("silent") {
        Err(e @ SorcererError::NotConnected(_)) => {
            assert_eq!(e.message(), "Apprentice silent is not connected");
        }
        _ => panic!("unreachable worker must be NotConnected"),
    }
    reg.upsert(ApprenticeRecord {
        name: "silent".to_string(),
        container_id: "cid".to_string(),
        port: 50110,
        connected: true,
    });
    assert_eq!(reg.cast_target("silent").unwrap(), 50110);
}

#[test]
fn test_list_excludes_unreachable_workers() {
    let mut reg = Registry::new();
    reg.upsert(ApprenticeRecord {
        name: "up".to_string(),
        container_id: "c1".to_string(),
        port: 50100,
        connected: true,
    });
    reg.upsert(ApprenticeRecord {
        name: "down".to_string(),
        container_id: "c2".to_string(),
        port: 50101,
        connected: false,
    });
    reg.upsert(ApprenticeRecord {
        name: "up2".to_string(),
        container_id: "c3".to_string(),
        port: 50102,
        connected: true,
    });
    assert_eq!(reg.list_connected(), vec!["up".to_string(), "up2".to_string()]);
}

#[test]
fn test_discovery_upsert_replaces_in_place() {
    let mut reg = Registry::new();
    reg.upsert(ApprenticeRecord {
        name: "alice".to_string(),
        container_id: "old".to_string(),
        port: 50100,
        connected: false,
    });
    reg.upsert(ApprenticeRecord {
        name: "alice".to_string(),
        container_id: "new".to_string(),
        port: 50105,
        connected: true,
    });
    assert_eq!(reg.len(), 1);
    assert_eq!(reg.cast_target("alice").unwrap(), 50105);
}

#[test]
fn test_chat_log_bounded_in_whole_turns() {
    let mut st = ApprenticeState::new("alice".to_string(), false, None);
    for i in 0..3 {
        st.begin_cast();
        st.record_success(&format!("q{i}"), &format!("a{i}"), "t".to_string());
    }
    assert_eq!(st.chat_history.len(), 6);

    for i in 3..60 {
        st.begin_cast();
        st.record_success(&format!("q{i}"), &format!("a{i}"), "t".to_string());
    }
    // min(2 * 60, 100)
    assert_eq!(st.chat_history.len(), 100);
    // The oldest surviving entry opens a whole turn: turn 10 of 0..60.
    assert_eq!(st.chat_history[0], "Sorcerer: q10");
    assert_eq!(st.chat_history[1], "alice: a10");
    assert_eq!(st.chat_history[99], "alice: a59");
    assert_eq!(st.spells_cast, 60);
}

#[test]
fn test_failed_invocation_leaves_log_untouched() {
    let mut st = ApprenticeState::new("alice".to_string(), false, None);
    st.begin_cast();
    st.record_success("hi", "hello", "t1".to_string());
    let before = st.chat_history.clone();
    st.begin_cast();
    st.record_failure();
    assert_eq!(st.state, LifecycleState::Error);
    assert_eq!(st.chat_history, before);
    assert_eq!(st.spells_cast, 1);
    // The error state is not terminal: the next success returns to idle.
    st.begin_cast();
    st.record_success("again", "sure", "t2".to_string());
    assert_eq!(st.state, LifecycleState::Idle);
}

#[test]
fn test_history_zero_and_overlong_requests_return_whole_log() {
    let mut st = ApprenticeState::new("alice".to_string(), false, None);
    for i in 0..5 {
        st.begin_cast();
        st.record_success(&format!("q{i}"), &format!("a{i}"), "t".to_string());
    }
    assert_eq!(st.chat_history.len(), 10);
    assert_eq!(st.get_chat_history(0), st.chat_history);
    assert_eq!(st.get_chat_history(1000), st.chat_history);
    assert_eq!(st.get_chat_history(10), st.chat_history);
    let last_three = st.get_chat_history(3);
    assert_eq!(last_three.len(), 3);
    assert_eq!(last_three[0], "alice: a3");
    assert_eq!(last_three[1], "Sorcerer: q4");
    assert_eq!(last_three[2], "alice: a4");
}

#[test]
fn test_status_report_reads() {
    let mut st = ApprenticeState::new("alice".to_string(), true, Some("prompt".to_string()));
    let s = st.get_status();
    assert_eq!(s.apprentice_name, "alice");
    assert_eq!(s.state, "idle");
    assert_eq!(s.last_spell_time, "");
    st.begin_cast();
    assert_eq!(st.get_status().state, "casting");
    st.record_success("q", "a", "2023-01-01T00:00:00Z".to_string());
    let s = st.get_status();
    assert_eq!(s.state, "idle");
    assert_eq!(s.last_spell_time, "2023-01-01T00:00:00Z");
    st.record_failure();
    assert_eq!(st.get_status().state, "error");
}

#[test]
fn test_spell_replies() {
    let ok = SpellResponse::succeeded("id-1".to_string(), "result text".to_string());
    assert!(ok.success);
    assert_eq!(ok.error, "");
    assert_eq!(spell_verdict(ok).unwrap(), "result text");

    let bad = SpellResponse::failed("id-2".to_string(), "upstream down".to_string());
    assert!(!bad.success);
    assert_eq!(bad.result, "");
    match spell_verdict(bad) {
        Err(e @ SorcererError::UpstreamCallFailed(_)) => {
            assert_eq!(e.message(), "Tell failed: upstream down");
        }
        _ => panic!("a failed spell must surface the worker's error"),
    }
}

#[test]
fn test_kill_acknowledgement() {
    let ack = kill_ack("Sorcerer's command");
    assert!(ack.success);
    assert_eq!(ack.message, "Fading away into the ether... (Sorcerer's command)");
}

#[test]
fn test_message_building_roles() {
    let history = vec![
        "Sorcerer: hi".to_string(),
        "alice: hello".to_string(),
        "no separator here".to_string(),
    ];
    let msgs = sorcerer::chat::build_messages(&history, "what now?");
    assert_eq!(msgs.len(), 3);
    assert_eq!(msgs[0].role, "user");
    assert_eq!(msgs[0].content, "hi");
    assert_eq!(msgs[1].role, "assistant");
    assert_eq!(msgs[1].content, "hello");
    assert_eq!(msgs[2].role, "user");
    assert_eq!(msgs[2].content, "what now?");
}

#[test]
fn test_container_and_address_formats() {
    assert_eq!(container_name_for("alice"), "apprentice-alice");
    assert_eq!(apprentice_name_of("/apprentice-bob_123").unwrap(), "bob_123");
    assert!(apprentice_name_of("/other-bob").is_none());
    assert_eq!(env_entry("APPRENTICE_NAME", "alice"), "APPRENTICE_NAME=alice");
    assert_eq!(port_env_entry(50051), "GRPC_PORT=50051");
    assert_eq!(grpc_addr(50051), "http://127.0.0.1:50051");
    assert_eq!(listen_addr(50051), "0.0.0.0:50051");
}

#[test]
fn test_port_recovery_from_environment() {
    let env = vec![
        "APPRENTICE_NAME=alice".to_string(),
        "GRPC_PORT=50123".to_string(),
        "GRPC_PORT=50999".to_string(),
    ];
    assert_eq!(port_from_env(&env), 50123);
    let bad = vec!["GRPC_PORT=notaport".to_string()];
    assert_eq!(port_from_env(&bad), 50051);
    let high = vec!["GRPC_PORT=99999".to_string()];
    assert_eq!(port_from_env(&high), 50051);
    let none: Vec<String> = Vec::new();
    assert_eq!(port_from_env(&none), 50051);
}

#[test]
fn test_error_messages() {
    assert_eq!(
        SorcererError::InvalidName.message(),
        "Invalid apprentice name. Names must be 1-32 characters, alphanumeric with hyphens/underscores only"
    );
    assert_eq!(
        SorcererError::AlreadyExists("x".to_string()).message(),
        "Apprentice x already exists"
    );
    assert_eq!(
        SorcererError::RuntimeUnavailable("no daemon".to_string()).message(),
        "Cannot reach container runtime: no daemon"
    );
    assert_eq!(
        SorcererError::ContainerCreateFailed("quota".to_string()).message(),
        "Failed to create container: quota"
    );
    assert_eq!(
        SorcererError::ContainerStopFailed("busy".to_string()).message(),
        "Failed to stop container: busy"
    );
    assert_eq!(
        SorcererError::ContainerRemoveFailed("in use".to_string()).message(),
        "Failed to remove container: in use"
    );
    assert_eq!(
        SorcererError::RpcUnreachable("refused".to_string()).message(),
        "Failed to connect to apprentice: refused"
    );
    assert_eq!(
        SorcererError::RpcCallFailed("reset".to_string()).message(),
        "RPC call failed: reset"
    );
}

#[test]
fn test_default_configuration() {
    let c = Config::default();
    assert_eq!(c.image_name, "sorcerer-agent:latest");
    assert_eq!(c.starting_port, 50100);
    assert_eq!(c.container_ready_timeout, 2);
}

#[test]
fn test_runtime_candidate_order() {
    let with_dir = runtime_candidates(&Some("/run/user/1000".to_string()));
    assert_eq!(with_dir.len(), 3);
    match &with_dir[0] {
        RuntimeEndpoint::Socket(s) => {
            assert_eq!(s, "unix:///run/user/1000/podman/podman.sock");
        }
        _ => panic!("the rootless socket comes first"),
    }
    match &with_dir[1] {
        RuntimeEndpoint::Socket(s) => assert_eq!(s, "unix:///run/podman/podman.sock"),
        _ => panic!("the system socket comes second"),
    }
    assert!(matches!(with_dir[2], RuntimeEndpoint::LocalDefaults));

    let without = runtime_candidates(&None);
    assert_eq!(without.len(), 2);
    match &without[0] {
        RuntimeEndpoint::Socket(s) => assert_eq!(s, "unix:///run/podman/podman.sock"),
        _ => panic!("the system socket comes first"),
    }
    assert!(matches!(without[1], RuntimeEndpoint::LocalDefaults));
}

#[test]
fn test_chat_line_decoration() {
    assert_eq!(
        format_chat_line_for_pager("Sorcerer: hi"),
        vec!["\u{1b}[1;34mSorcerer\u{1b}[0m: hi".to_string()]
    );
    assert_eq!(
        format_chat_line_for_pager("apprentice-bob: yes"),
        vec!["\u{1b}[1;32mapprentice-bob\u{1b}[0m: yes".to_string()]
    );
    assert_eq!(
        format_chat_line_for_pager("other: text"),
        vec!["\u{1b}[1mother\u{1b}[0m: text".to_string()]
    );
    assert_eq!(
        format_chat_line_for_pager("no separator"),
        vec!["no separator".to_string()]
    );
    assert_eq!(
        format_chat_line_for_pager("a: x\nplain"),
        vec!["\u{1b}[1ma\u{1b}[0m: x".to_string(), "plain".to_string()]
    );
}

#[test]
fn test_centre_padding() {
    assert_eq!(pad_to_width("ab", 5, '-'), "-ab--");
    assert_eq!(pad_to_width("abcdef", 4, '-'), "abcdef");
    assert_eq!(pad_to_width(" Apprentice: x ", 19, '\u{2500}'),
        "\u{2500}\u{2500} Apprentice: x \u{2500}\u{2500}");
}

#[test]
fn test_text_helpers_match_std() {
    for (s, p, r) in [
        ("aaa", "aa", "b"),
        ("hello world", "o", "0"),
        ("ab", "", "-"),
        ("", "", "-"),
        ("nothing", "xyz", "!"),
    ] {
        assert_eq!(replace_str(s, p, r), s.replace(p, r));
    }
    for s in ["", "a", "a\nb", "a\n\nb", "abc\n", "a\r\nb", "a\n\n"] {
        let got = lines_of(s);
        let want: Vec<String> = s.lines().map(|l| l.to_string()).collect();
        assert_eq!(got, want);
    }
    for s in ["  hi  ", "\t x\n", "none", "", "   "] {
        assert_eq!(trim_str(s), s.trim());
    }
    for n in [0u64, 7, 42, 50051, u64::MAX] {
        assert_eq!(u64_to_string(n), n.to_string());
    }
    assert_eq!(parse_u16("50051"), Some(50051));
    assert_eq!(parse_u16("0"), Some(0));
    assert_eq!(parse_u16("65535"), Some(65535));
    assert_eq!(parse_u16("65536"), None);
    assert_eq!(parse_u16(""), None);
    assert_eq!(parse_u16("12a"), None);
}

#[test]
fn test_summary_fraction_format() {
    assert_eq!(summary_fraction(0, 0), "0/0");
    assert_eq!(summary_fraction(2, 3), "2/3");
    assert_eq!(summary_fraction(10, 10), "10/10");
}

#[test]
fn test_observe_is_monotone_over_many_steps() {
    let mut alloc = PortAllocator::new(50100);
    alloc.observe(50100);
    alloc.observe(50050);
    alloc.observe(50104);
    let p = alloc.allocate();
    assert_eq!(p, 50105);
    let q = alloc.allocate();
    assert!(q > p);
}

#[test]
fn test_history_of_fresh_worker_is_empty() {
    let st = ApprenticeState::new("alice".to_string(), false, None);
    assert!(st.get_chat_history(0).is_empty());
    assert!(st.get_chat_history(5).is_empty());
}

#[test]
fn test_remove_from_empty_registry() {
    let mut reg = Registry::new();
    assert!(reg.remove("anyone").is_err());
    assert_eq!(reg.len(), 0);
    assert!(reg.list_connected().is_empty());
}

#[test]
fn test_port_parse_matches_std() {
    for s in ["50051", "+50051", "+", "++1", "-1", "0", "65535", "65536", "", "12a"] {
        assert_eq!(parse_u16(s), s.parse::<u16>().ok(), "input {s}");
    }
    let plus = vec!["GRPC_PORT=+50123".to_string()];
    assert_eq!(port_from_env(&plus), 50123);
}
