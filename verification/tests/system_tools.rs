use edex_de::systemd::{list_units_args, unit_action_command, unit_logs_args, unit_status_args};
use edex_de::audio::{
    get_current_mute_state, list_audio_sinks, pactl_outcome, parse_percent_token, sink_volume,
    volume_arg, volume_from_pactl, wpctl_muted, RawSink,
};
use edex_de::bluetooth::{
    bluetooth_list_devices, bluetooth_scan_devices, device_entries, device_type_of, listed_addresses,
};
use edex_de::fingerprint::{fprintd_status_of, verify_event, verify_result_of};
use edex_de::network::{
    active_connection_info, nmcli_outcome, parse_connections, parse_wifi_list, wifi_connect_args,
};
use edex_de::power::{swayidle_args, upower_battery, PowerSettings};
use edex_de::systemd::{check_unit_action, log_line_count, parse_units, unit_action_outcome};
use edex_de::users::{groups_of, list_users, passwd_users, password_input};

#[test]
fn units_are_listed_failed_first() {
    let out = "a.service loaded active running Service A\n\
               b.socket loaded failed failed Socket B here\n\
               \n\
               c.timer loaded inactive dead Timer C\n\
               d.service loaded activating start D\n\
               short line\n";
    let units = parse_units(out);
    let names: Vec<&str> = units.iter().map(|u| u.name.as_str()).collect();
    assert_eq!(names, vec!["b.socket", "a.service", "d.service", "c.timer"]);
    assert_eq!(units[0].description, "Socket B here");
    assert_eq!(units[0].unit_type, "socket");
    assert_eq!(units[1].sub_state, "running");
    assert_eq!(units[3].load_state, "loaded");
    assert!(units.iter().all(|u| u.enabled.is_none()));
}

#[test]
fn unit_without_dot_has_its_name_as_type() {
    let units = parse_units("plain loaded active running Plain unit");
    assert_eq!(units[0].unit_type, "plain");
}

#[test]
fn unit_actions_are_checked() {
    for a in ["start", "stop", "restart", "reload", "enable", "disable", "mask", "unmask"] {
        assert!(check_unit_action(a).is_ok());
    }
    assert_eq!(check_unit_action("kill"), Err("Invalid action: kill".to_string()));
}

#[test]
fn unit_action_answers() {
    assert_eq!(unit_action_outcome("start", "a.service", true, ""), Ok("start a.service: OK".to_string()));
    assert_eq!(unit_action_outcome("stop", "a.service", false, "  \n"), Err("stop failed".to_string()));
    assert_eq!(
        unit_action_outcome("stop", "a.service", false, " denied\n"),
        Err("stop failed: denied".to_string())
    );
}

#[test]
fn journal_line_count() {
    assert_eq!(log_line_count(None), 50);
    assert_eq!(log_line_count(Some(10)), 10);
    assert_eq!(log_line_count(Some(500)), 500);
    assert_eq!(log_line_count(Some(501)), 500);
}

#[test]
fn connections_are_read() {
    let out = "Home:1234:802-11-wireless:wlan0:activated:yes\nWired:5678:ethernet:::no \n\nbad:line\n";
    let c = parse_connections(out);
    assert_eq!(c.len(), 2);
    assert_eq!(c[0].name, "Home");
    assert_eq!(c[0].conn_type, "802-11-wireless");
    assert!(c[0].active);
    assert_eq!(c[1].device, "");
    assert!(!c[1].active);
}

#[test]
fn wifi_networks_strongest_first_without_repeats() {
    let out = " :Cafe:AA\\:BB:40:WPA2:2412 MHz\n*:Home:11\\:22:80:WPA2:5180 MHz\n :Cafe:CC:90:WPA2:2412 MHz\n :::30::2412\n";
    let w = parse_wifi_list(out);
    let ssids: Vec<&str> = w.iter().map(|n| n.ssid.as_str()).collect();
    assert_eq!(ssids, vec!["Home", "Cafe"]);
    assert!(w[0].in_use);
    assert_eq!(w[0].signal, 80);
    assert_eq!(w[1].signal, 40);
    assert_eq!(w[0].freq, "5180 MHz");
}

#[test]
fn active_connection_takes_first_values() {
    let out = "GENERAL.DEVICE:wlan0\nGENERAL.CONNECTION:Home\nGENERAL.STATE:100 (connected)\nIP4.ADDRESS[1]:192.168.1.5/24\nIP4.GATEWAY:192.168.1.1\nGENERAL.TYPE:wifi\nGENERAL.DEVICE:lo\nGENERAL.CONNECTION:\n";
    let info = active_connection_info(out);
    assert_eq!(info.device.as_deref(), Some("wlan0"));
    assert_eq!(info.connection.as_deref(), Some("Home"));
    assert_eq!(info.state.as_deref(), Some("100 (connected)"));
    assert_eq!(info.ipv4.as_deref(), Some("192.168.1.5/24"));
    assert_eq!(info.gateway.as_deref(), Some("192.168.1.1"));
    assert_eq!(info.conn_type.as_deref(), Some("wifi"));
    let none = active_connection_info("GENERAL.CONNECTION:   \n");
    assert!(none.connection.is_none());
}

#[test]
fn nmcli_answers() {
    assert_eq!(nmcli_outcome(true, " out\n", ""), Ok(" out\n".to_string()));
    assert_eq!(nmcli_outcome(false, "", " \n"), Err("nmcli command failed".to_string()));
    assert_eq!(nmcli_outcome(false, "", " Error: x\n"), Err("Error: x".to_string()));
    assert_eq!(
        wifi_connect_args("Home", Some("pw".to_string())),
        vec!["device", "wifi", "connect", "Home", "password", "pw"]
    );
    assert_eq!(wifi_connect_args("Home", None), vec!["device", "wifi", "connect", "Home"]);
}

#[test]
fn users_from_passwd() {
    let passwd = "root:x:0:0:root:/root:/bin/bash\n\
                  alice:x:1000:1000:Alice:/home/alice:/bin/zsh\n\
                  nobody:x:65534:65534:nobody:/:/usr/bin/nologin\n\
                  bob:x:1001:abc::/home/bob:/bin/sh\n\
                  short:x:2000\n";
    let accounts = passwd_users(passwd);
    assert_eq!(accounts.len(), 2);
    assert_eq!(accounts[0].username, "alice");
    assert_eq!(accounts[0].uid, 1000);
    assert_eq!(accounts[1].gid, 0);
    assert_eq!(accounts[1].shell, "/bin/sh");
    let users = list_users(accounts, &vec!["alice : alice wheel\n".to_string(), "bob\n".to_string()]);
    assert_eq!(users[0].groups, vec!["alice", "wheel"]);
    assert!(users[1].groups.is_empty());
    assert_eq!(users[0].home, "/home/alice");
}

#[test]
fn groups_answer() {
    assert_eq!(groups_of("u : a b  c"), vec!["a", "b", "c"]);
    assert_eq!(groups_of("u : a : b"), vec!["a", ":", "b"]);
    assert!(groups_of("no colon").is_empty());
    assert_eq!(password_input("old", "new"), "old\nnew\nnew\n");
}

#[test]
fn bluetooth_devices() {
    let paired = "Device AA:BB:CC:DD:EE:FF My Headset\nDevice 11:22:33:44:55:66 Mouse\nController 00:00 x\n";
    let connected = "Device 11:22:33:44:55:66 Mouse\n";
    let entries = device_entries(paired);
    assert_eq!(entries.len(), 2);
    assert_eq!(entries[0].name, "My Headset");
    let infos = vec!["\tIcon: audio-headset\n".to_string(), "Name: x\n".to_string()];
    let devices = bluetooth_list_devices(&entries, connected, &infos);
    assert!(devices[0].paired && !devices[0].connected);
    assert!(devices[1].connected);
    assert_eq!(devices[0].device_type, "headphones");
    assert_eq!(devices[1].device_type, "device");
    let scanned = bluetooth_scan_devices(&entries, "Device AA:BB:CC:DD:EE:FF My Headset\n", &infos);
    assert!(scanned[0].paired && !scanned[1].paired);
    assert!(!scanned[0].connected);
    assert_eq!(listed_addresses("Device A1 x\nlonely\n").len(), 1);
}

#[test]
fn bluetooth_icon_types() {
    assert_eq!(device_type_of("Icon: input-keyboard"), "keyboard");
    assert_eq!(device_type_of("Icon: input-mouse"), "mouse");
    assert_eq!(device_type_of("Icon: phone"), "phone");
    assert_eq!(device_type_of("Icon:Icon: computer"), "computer");
    assert_eq!(device_type_of("Name: x\n  Icon: audio-headphones  \n"), "headphones");
    assert_eq!(device_type_of(""), "device");
}

#[test]
fn audio_percentages() {
    assert_eq!(parse_percent_token(" 75% "), Some(75));
    assert_eq!(parse_percent_token("80%%"), Some(80));
    assert_eq!(parse_percent_token("+5%"), Some(5));
    assert_eq!(parse_percent_token("x%"), None);
    assert_eq!(sink_volume(&vec!["50%".to_string(), "70%".to_string(), "n/a".to_string()]), 60);
    assert_eq!(sink_volume(&vec![]), 100);
    assert_eq!(volume_from_pactl("Volume: front-left: 32768 /  50% / -18 dB"), 50);
    assert_eq!(volume_from_pactl("nothing here"), 100);
    assert_eq!(volume_arg(120), "120%");
    assert_eq!(volume_arg(200), "150%");
}

#[test]
fn audio_sinks_and_mute() {
    let sinks = vec![
        RawSink {
            index: Some(3),
            name: Some("alsa.out".to_string()),
            description: None,
            mute: Some(true),
            volume: Some(vec!["40%".to_string(), "60%".to_string()]),
        },
        RawSink { index: None, name: Some("x".to_string()), description: None, mute: None, volume: None },
        RawSink {
            index: Some(4),
            name: Some("hdmi".to_string()),
            description: Some("HDMI".to_string()),
            mute: None,
            volume: None,
        },
    ];
    let s = list_audio_sinks(sinks, "hdmi");
    assert_eq!(s.len(), 2);
    assert_eq!(s[0].description, "alsa.out");
    assert_eq!(s[0].volume_percent, 50);
    assert!(s[0].muted && !s[0].is_default);
    assert_eq!(s[1].volume_percent, 100);
    assert!(s[1].is_default);
    assert_eq!(get_current_mute_state(Ok("Mute: YES".to_string())), Ok(true));
    assert_eq!(get_current_mute_state(Ok("Mute: no".to_string())), Ok(false));
    assert_eq!(get_current_mute_state(Err("e".to_string())), Err("e".to_string()));
    assert!(wpctl_muted("Volume: 0.40 [MUTED]"));
    assert_eq!(pactl_outcome(false, "", ""), Err("pactl command failed".to_string()));
    assert_eq!(pactl_outcome(true, " 1 \n", ""), Ok("1".to_string()));
}

#[test]
fn swayidle_arguments() {
    let d = PowerSettings::default();
    assert_eq!(
        swayidle_args(&d).unwrap(),
        vec![
            "-w",
            "timeout",
            "300",
            "hyprctl dispatch dpms off",
            "resume",
            "hyprctl dispatch dpms on",
            "timeout",
            "600",
            "systemctl suspend"
        ]
    );
    let off = PowerSettings { screen_timeout: 0, suspend_timeout: 600, suspend_enabled: false };
    assert!(swayidle_args(&off).is_none());
    let only_suspend = PowerSettings { screen_timeout: 0, suspend_timeout: 60, suspend_enabled: true };
    assert_eq!(swayidle_args(&only_suspend).unwrap(), vec!["-w", "timeout", "60", "systemctl suspend"]);
    let no_time = PowerSettings { screen_timeout: 0, suspend_timeout: 0, suspend_enabled: true };
    assert_eq!(swayidle_args(&no_time).unwrap(), vec!["-w"]);
}

#[test]
fn upower_fields() {
    let text = "  native-path: BAT0\n  state:  discharging\n  time to empty: 3.2 hours\n  percentage:  87%\n";
    let b = upower_battery(text);
    assert_eq!(b.percentage.as_deref(), Some("87"));
    assert_eq!(b.state.as_deref(), Some("discharging"));
    assert_eq!(b.time_to_empty.as_deref(), Some("3.2 hours"));
    assert!(b.time_to_full.is_none());
    let c = upower_battery("time to full: 1:30 hours\n");
    assert_eq!(c.time_to_full.as_deref(), Some("1"));
}

#[test]
fn fingerprint_status() {
    let s = fprintd_status_of(Some((true, "\nDevice: Goodix\n right-index-finger\n".to_string())));
    assert!(s.available && s.has_enrolled_fingers);
    assert_eq!(s.device_name.as_deref(), Some("Device: Goodix"));
    let none = fprintd_status_of(Some((true, "User has No Fingers Enrolled".to_string())));
    assert!(!none.has_enrolled_fingers);
    let failed = fprintd_status_of(Some((false, "x".to_string())));
    assert!(!failed.available && failed.device_name.is_none());
    assert!(!fprintd_status_of(None).available);
}

#[test]
fn fingerprint_verification() {
    let ok = verify_result_of("Verify result: VERIFY-MATCH (done)");
    assert!(ok.success);
    assert_eq!(ok.message, "Fingerprint verified");
    let no = verify_result_of("verify-no-match");
    assert!(!no.success);
    assert_eq!(no.message, "Fingerprint did not match");
    assert_eq!(verify_event(true), "match");
    assert_eq!(verify_event(false), "no-match");
}

#[test]
fn systemctl_and_journalctl_arguments() {
    assert_eq!(
        list_units_args(true, Some("service".to_string())),
        vec!["--user", "list-units", "--all", "--plain", "--no-legend", "--no-pager", "--type=service"]
    );
    assert_eq!(list_units_args(false, None), vec!["list-units", "--all", "--plain", "--no-legend", "--no-pager"]);
    let (prog, args) = unit_action_command("tor.service", "restart", false);
    assert_eq!(prog, "pkexec");
    assert_eq!(args, vec!["systemctl", "restart", "tor.service"]);
    let (prog, args) = unit_action_command("x.service", "stop", true);
    assert_eq!(prog, "systemctl");
    assert_eq!(args, vec!["--user", "stop", "x.service"]);
    assert_eq!(unit_logs_args("a", None), vec!["-u", "a", "-n", "50", "--no-pager", "--output=short-iso"]);
    assert_eq!(unit_logs_args("a", Some(9000))[3], "500");
    assert_eq!(unit_status_args("a", true), vec!["--user", "status", "--no-pager", "-l", "a"]);
    assert_eq!(unit_status_args("a", false), vec!["status", "--no-pager", "-l", "a"]);
}
