use pipecast::commands::{
    DaemonRequest, DaemonResponse, DaemonStatus, HttpSettings, PipewireCommandResponse,
    WebsocketRequest, WebsocketResponse,
};
use pipecast::linkman::{compute_channel_pairs, FilterPorts, LinkManager, LinkPair};
use pipecast::registry::RegistryPort;
use pipecast::strutil::{parse_bool_or_false, parse_u32, str_eq};

#[test]
fn parse_u32_accepts_plain_decimals() {
    assert_eq!(parse_u32("0"), Some(0));
    assert_eq!(parse_u32("123"), Some(123));
    assert_eq!(parse_u32("+42"), Some(42));
    assert_eq!(parse_u32("4294967295"), Some(u32::MAX));
}

#[test]
fn parse_u32_rejects_everything_else() {
    assert_eq!(parse_u32(""), None);
    assert_eq!(parse_u32("+"), None);
    assert_eq!(parse_u32("-1"), None);
    assert_eq!(parse_u32("12a"), None);
    assert_eq!(parse_u32(" 7"), None);
    assert_eq!(parse_u32("4294967296"), None);
    assert_eq!(parse_u32("99999999999999999999"), None);
}

#[test]
fn parse_u32_agrees_with_std() {
    for s in ["0", "0042", "+007", "4294967295", "4294967296", "", "x", "-3"] {
        assert_eq!(parse_u32(s), s.parse::<u32>().ok(), "input {:?}", s);
    }
}

#[test]
fn monitor_flag_parses_like_bool_with_default() {
    assert!(parse_bool_or_false("true"));
    assert!(!parse_bool_or_false("false"));
    assert!(!parse_bool_or_false("TRUE"));
    assert!(!parse_bool_or_false("1"));
    assert!(!parse_bool_or_false(""));
}

#[test]
fn str_eq_is_exact() {
    assert!(str_eq("", ""));
    assert!(str_eq("audio.channel", "audio.channel"));
    assert!(!str_eq("audio.channel", "audio.channels"));
    assert!(!str_eq("FL", "FR"));
}

fn port(id: u32, channel: &str, monitor: bool) -> RegistryPort {
    RegistryPort::new(id, "p", channel, monitor)
}

#[test]
fn channel_pairing_matches_labels() {
    let outs = vec![port(1, "FL", false), port(2, "FR", false)];
    let ins = vec![port(10, "FR", false), port(11, "FL", false)];
    let pairs = compute_channel_pairs(&outs, &ins);
    assert_eq!(pairs, vec![(1, 11), (2, 10)]);
}

#[test]
fn channel_pairing_skips_unmatched_and_mixed_monitors() {
    let outs = vec![port(1, "FL", false), port(2, "MONO", false), port(3, "FL", true)];
    let ins = vec![port(10, "FL", true), port(11, "FL", false)];
    let pairs = compute_channel_pairs(&outs, &ins);
    // The plain FL out pairs with the plain FL in; the monitor FL out
    // pairs with the monitor FL in; MONO has no counterpart.
    assert_eq!(pairs, vec![(1, 11), (3, 10)]);
}

#[test]
fn link_manager_create_is_idempotent() {
    let mut lm = LinkManager::new();
    lm.register_filter_ports(
        100,
        FilterPorts { outputs: vec![port(1, "FL", false)], inputs: vec![] },
    );
    lm.register_filter_ports(
        200,
        FilterPorts { outputs: vec![], inputs: vec![port(2, "FL", false)] },
    );
    lm.link_create_filter_to_filter(100, 200);
    assert_eq!(lm.established.len(), 1);
    assert_eq!(lm.commands.len(), 1);
    lm.link_create_filter_to_filter(100, 200);
    assert_eq!(lm.established.len(), 1);
    assert_eq!(lm.commands.len(), 1);
    lm.link_remove_filter_to_filter(100, 200);
    assert_eq!(lm.established.len(), 0);
    assert_eq!(lm.commands.len(), 2);
    lm.link_remove_filter_to_filter(100, 200);
    assert_eq!(lm.established.len(), 0);
    assert_eq!(lm.commands.len(), 2);
    assert!(!lm.established.contains_key(&LinkPair { out_filter: 100, in_filter: 200 }));
}

#[test]
fn http_settings_default_is_zeroed() {
    let s = HttpSettings::default();
    assert!(!s.enabled);
    assert_eq!(s.bind_address, "");
    assert!(!s.cors_enabled);
    assert_eq!(s.port, 0);
    let status = DaemonStatus::default();
    assert_eq!(status.config.http_settings.port, 0);
}

#[test]
fn envelopes_echo_ids() {
    let request = WebsocketRequest { id: 7, data: DaemonRequest::Ping };
    assert_eq!(request.id, 7);
    let response = WebsocketResponse { id: request.id, data: DaemonResponse::Okay };
    assert_eq!(response.id, 7);
    let patch = WebsocketResponse {
        id: 8,
        data: DaemonResponse::Patch(json_patch::Patch(vec![])),
    };
    assert_eq!(patch.id, 8);
    let failure = WebsocketResponse {
        id: 9,
        data: DaemonResponse::Pipewire(PipewireCommandResponse::Error("nope".to_string())),
    };
    match failure.data {
        DaemonResponse::Pipewire(PipewireCommandResponse::Error(msg)) => assert_eq!(msg, "nope"),
        _ => panic!("expected the error response to carry its message"),
    }
}
