use edex_de::config::{config_dir, config_path};
use edex_de::mako::{parse_mako_config, write_mako_config, NotificationConfig};
use edex_de::privacy::{
    bridge_url, bridges_config, check_tor_mode, command_outcome, configured_bridges, exit_node_arg,
    fetched_bridges, login_url_in, parse_vpn_connections, raw_peer_to_struct, stopped_status,
    tailscale_status_of, tailscale_up_args, tor_is_active, tor_mode_of, tor_service_listed,
    tor_status, wireguard_import_error, RawPeer, RawTailscaleStatus,
};
use edex_de::shortcuts::default_shortcuts;
use edex_de::update::update_info;

fn peer(host: &str) -> RawPeer {
    RawPeer {
        id: Some(format!("id-{host}")),
        host_name: Some(host.to_string()),
        dns_name: None,
        os: Some("linux".to_string()),
        tailscale_i_ps: Some(vec!["100.64.0.1".to_string()]),
        online: Some(true),
        exit_node_option: None,
        exit_node: Some(false),
    }
}

#[test]
fn raw_peer_defaults() {
    let p = raw_peer_to_struct(peer("box"));
    assert_eq!(p.id, "id-box");
    assert_eq!(p.hostname, "box");
    assert_eq!(p.dns_name, "");
    assert_eq!(p.tailscale_ips, vec!["100.64.0.1"]);
    assert!(p.online && !p.exit_node_option && !p.exit_node);
    let empty = raw_peer_to_struct(RawPeer {
        id: None,
        host_name: None,
        dns_name: None,
        os: None,
        tailscale_i_ps: None,
        online: None,
        exit_node_option: None,
        exit_node: None,
    });
    assert_eq!(empty.os, "");
    assert!(empty.tailscale_ips.is_empty());
    assert!(!empty.online);
}

#[test]
fn tailscale_status_document() {
    let raw = RawTailscaleStatus {
        backend_state: None,
        version: Some("1.60".to_string()),
        self_node: Some(peer("me")),
        peer: Some(vec![peer("a"), peer("b")]),
    };
    let s = tailscale_status_of(raw);
    assert_eq!(s.backend_state, "Stopped");
    assert_eq!(s.version, "1.60");
    assert_eq!(s.self_node.unwrap().hostname, "me");
    let hosts: Vec<&str> = s.peers.iter().map(|p| p.hostname.as_str()).collect();
    assert_eq!(hosts, vec!["a", "b"]);
    let stopped = stopped_status();
    assert_eq!(stopped.backend_state, "Stopped");
    assert!(stopped.peers.is_empty() && stopped.self_node.is_none());
}

#[test]
fn tailscale_arguments() {
    assert_eq!(tailscale_up_args(None), vec!["up"]);
    assert_eq!(tailscale_up_args(Some("100.1.2.3".to_string())), vec!["up", "--exit-node=100.1.2.3"]);
    assert_eq!(exit_node_arg(None), "--exit-node=");
    assert_eq!(exit_node_arg(Some("x".to_string())), "--exit-node=x");
    assert_eq!(
        login_url_in("  To authenticate, visit: https://login.tailscale.com/a/123  "),
        Some("To authenticate, visit: https://login.tailscale.com/a/123".to_string())
    );
    assert_eq!(login_url_in("Success."), None);
}

#[test]
fn command_answers() {
    assert_eq!(command_outcome(true, " ok \n", "e"), Ok("ok".to_string()));
    assert_eq!(command_outcome(false, "o", " bad \n"), Err("bad".to_string()));
}

#[test]
fn tor_observations() {
    assert!(tor_service_listed("● tor.service - Anonymizing overlay network"));
    assert!(!tor_service_listed("Unit tor.servic could not be found."));
    assert!(tor_is_active("active\n"));
    assert!(!tor_is_active("inactive\n"));
    assert_eq!(tor_mode_of(Some("socks5\n".to_string())), "socks5");
    assert_eq!(tor_mode_of(None), "off");
    let st = tor_status("active", None, true);
    assert!(st.active && st.socks_reachable);
    assert_eq!(st.mode, "off");
}

#[test]
fn tor_mode_and_bridge_checks() {
    assert!(check_tor_mode("off").is_ok());
    assert!(check_tor_mode("transparent").is_ok());
    assert_eq!(check_tor_mode("on"), Err("invalid tor mode: on".to_string()));
    assert_eq!(
        bridge_url("snowflake"),
        Ok("https://bridges.torproject.org/bridges?transport=snowflake".to_string())
    );
    assert_eq!(bridge_url("vanilla"), Ok("https://bridges.torproject.org/bridges".to_string()));
    assert_eq!(bridge_url("meek"), Err("invalid bridge type: meek".to_string()));
}

#[test]
fn bridges_written_and_read_back() {
    let bridges = vec!["obfs4 1.2.3.4:443 FP cert=x".to_string(), "Bridge snowflake 5.6.7.8:1".to_string()];
    let text = bridges_config(&bridges);
    assert_eq!(text, "UseBridges 1\nBridge obfs4 1.2.3.4:443 FP cert=x\nBridge snowflake 5.6.7.8:1\n");
    assert_eq!(
        configured_bridges(&text),
        vec!["Bridge obfs4 1.2.3.4:443 FP cert=x", "Bridge snowflake 5.6.7.8:1"]
    );
    assert_eq!(bridges_config(&vec![]), "UseBridges 0\n");
    assert!(configured_bridges("UseBridges 0\n").is_empty());
}

#[test]
fn fetched_bridge_lines() {
    let out = "# comment\nobfs4 1.1.1.1:1 A\n\n   # indented comment\nobfs4 2.2.2.2:2 B\n";
    assert_eq!(fetched_bridges(out), vec!["obfs4 1.1.1.1:1 A", "obfs4 2.2.2.2:2 B"]);
}

#[test]
fn vpn_connections() {
    let out = "work:u1:wireguard:wg0:activated:yes\nhome:u2:802-11-wireless:wlan0:activated:yes\nold:u3:vpn::: no\nbroken:u4\n";
    let v = parse_vpn_connections(out);
    assert_eq!(v.len(), 2);
    assert_eq!(v[0].name, "work");
    assert!(v[0].active);
    assert_eq!(v[0].device, "wg0");
    assert_eq!(v[1].vpn_type, "vpn");
    assert!(!v[1].active);
}

#[test]
fn wireguard_errors() {
    assert_eq!(
        wireguard_import_error("Error: wireguard connection type not supported"),
        "WireGuard kernel module not loaded. Try: modprobe wireguard"
    );
    assert_eq!(wireguard_import_error("Error: file missing"), "Error: file missing");
}

#[test]
fn mako_config_defaults_and_reading() {
    let d = parse_mako_config("");
    assert_eq!(d.font, "monospace");
    assert_eq!(d.font_size, 12);
    assert_eq!(d.timeout, 5000);
    assert_eq!(d.max_visible, 5);
    assert_eq!(d.position, "top-right");
    let c = parse_mako_config(
        "# c\nfont=Fira Code 14\nbackground-color=#000000\ndefault-timeout=abc\nmax-visible=3\nanchor = bottom-left\nunknown=1\n",
    );
    assert_eq!(c.font, "Fira Code");
    assert_eq!(c.font_size, 14);
    assert_eq!(c.background_color, "#000000");
    assert_eq!(c.timeout, 5000);
    assert_eq!(c.max_visible, 3);
    assert_eq!(c.position, "bottom-left");
    let f = parse_mako_config("font=Sans\n");
    assert_eq!(f.font, "Sans");
    assert_eq!(f.font_size, 12);
}

#[test]
fn mako_config_written_and_read_back() {
    let c = NotificationConfig {
        font: "JetBrains Mono".to_string(),
        font_size: 11,
        background_color: "#101010".to_string(),
        text_color: "#eeeeee".to_string(),
        border_color: "#ff0000".to_string(),
        timeout: 8000,
        max_visible: 7,
        position: "bottom-center".to_string(),
    };
    let text = write_mako_config(&c);
    assert!(text.starts_with("# eDEX-DE notification config (managed by settings panel)\nfont=JetBrains Mono 11\n"));
    assert!(text.ends_with("anchor=bottom-center\nlayer=overlay\nmargin=8\npadding=8,16\n"));
    let back = parse_mako_config(&text);
    assert_eq!(back.font, c.font);
    assert_eq!(back.font_size, c.font_size);
    assert_eq!(back.background_color, c.background_color);
    assert_eq!(back.text_color, c.text_color);
    assert_eq!(back.border_color, c.border_color);
    assert_eq!(back.timeout, c.timeout);
    assert_eq!(back.max_visible, c.max_visible);
    assert_eq!(back.position, c.position);
}

#[test]
fn shortcut_defaults() {
    let s = default_shortcuts();
    assert_eq!(s.len(), 8);
    assert_eq!(s[0].trigger, "Ctrl+Shift+C");
    assert_eq!(s[0].action, "COPY");
    assert_eq!(s[7].trigger, "Alt+Space");
    assert_eq!(s[7].action, "APP_LAUNCHER");
    assert!(s.iter().all(|x| x.enabled && !x.linebreak && x.shortcut_type == "app"));
}

#[test]
fn config_locations() {
    assert_eq!(config_dir(Some("/home/u".to_string())), "/home/u/.config/edex-de");
    assert_eq!(config_path(Some("/home/u/".to_string())), "/home/u/.config/edex-de/config.toml");
    assert_eq!(config_path(None), "/tmp/.config/edex-de/config.toml");
}

#[test]
fn update_check() {
    let u = update_info(Some("v1.2.0".to_string()), Some("https://x/r".to_string()), "1.1.0".to_string());
    assert!(u.has_update);
    assert_eq!(u.latest_version, "1.2.0");
    assert_eq!(u.release_url, "https://x/r");
    let same = update_info(Some("vv1.1.0".to_string()), None, "v1.1.0".to_string());
    assert!(!same.has_update);
    assert_eq!(same.release_url, "");
    let none = update_info(None, None, "1.0".to_string());
    assert!(!none.has_update);
    assert_eq!(none.latest_version, "");
    assert_eq!(none.current_version, "1.0");
}
