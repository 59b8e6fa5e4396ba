use wiblue_lib::get_interfaces::parse_interface_names;
use wiblue_lib::get_networks::{
    assemble_network, extract_ssid, is_mode_keyword, mode_of_token, parse_wifi_listing,
    security_of_token,
};
use wiblue_lib::network_data::{NetworkMode, WifiSecurity};
use wiblue_lib::text::{
    parse_i32_or_zero, parse_u32_or_zero, parse_u8_or_zero, split_lines, split_tokens, str_eq,
};

#[test]
fn interface_names_come_from_colon_terminated_tokens() {
    let output = "\
lo: flags=73<UP,LOOPBACK,RUNNING>  mtu 65536
        inet 127.0.0.1  netmask 255.0.0.0
eth0: flags=4163<UP,BROADCAST,RUNNING,MULTICAST>  mtu 1500
        ether 00:11:22:33:44:55
wlp1s0: flags=4099<UP,BROADCAST,MULTICAST>  mtu 1500
";
    assert_eq!(parse_interface_names(output), vec!["lo", "eth0", "wlp1s0"]);
}

#[test]
fn interface_parse_of_empty_output_is_empty() {
    assert_eq!(parse_interface_names(""), Vec::<String>::new());
}

#[test]
fn listing_header_only_yields_no_rows() {
    let output = "ACTIVE  BSSID              SIGNAL  FREQ      CHAN  SECURITY  MODE\n";
    assert!(parse_wifi_listing(output).is_empty());
}

#[test]
fn listing_rows_are_parsed_field_by_field() {
    let output = "\
ACTIVE  BSSID              SIGNAL  FREQ      CHAN  SECURITY  MODE
yes     AA:BB:CC:DD:EE:FF  82      2437 MHz  6     WPA2      Infra
no      11:22:33:44:55:66  47      5180 MHz  36    OPEN      Ad-Hoc
";
    let rows = parse_wifi_listing(output);
    assert_eq!(rows.len(), 2);

    assert!(rows[0].currently_used);
    assert_eq!(rows[0].bssid, "AA:BB:CC:DD:EE:FF");
    assert_eq!(rows[0].signal_strength, 82);
    assert_eq!(rows[0].frequency, 2437);
    assert_eq!(rows[0].channel, 0);
    assert_eq!(rows[0].security, WifiSecurity::Wpa2);
    assert_eq!(rows[0].network_mode, NetworkMode::Infra);

    assert!(!rows[1].currently_used);
    assert_eq!(rows[1].security, WifiSecurity::Open);
    assert_eq!(rows[1].network_mode, NetworkMode::Ibss);
}

#[test]
fn short_listing_rows_are_skipped() {
    let output = "HEADER\nyes AA:BB:CC 80 2437\n";
    assert!(parse_wifi_listing(output).is_empty());
}

#[test]
fn ssid_is_the_tokens_before_the_mode_keyword() {
    let detail = "\
BSSID              SSID          MODE   CHAN  RATE        SIGNAL  BARS  SECURITY
AA:BB:CC:DD:EE:FF  My Home Net   Infra  6     130 Mbit/s  82      ****  WPA2
";
    assert_eq!(extract_ssid(detail), "My Home Net");
}

#[test]
fn ssid_of_an_output_without_data_lines_is_empty() {
    assert_eq!(extract_ssid("BSSID SSID MODE\n"), "");
    assert_eq!(extract_ssid(""), "");
}

#[test]
fn ssid_without_a_mode_keyword_takes_every_token() {
    assert_eq!(extract_ssid("HEADER\nAA:BB:CC One Two Three\n"), "One Two Three");
}

#[test]
fn ssid_is_empty_when_the_keyword_comes_first() {
    assert_eq!(extract_ssid("HEADER\nAA:BB:CC Infra 6\n"), "");
}

#[test]
fn lowercased_mode_keyword_also_ends_the_ssid() {
    let detail = "HEADER\nAA:BB:CC One Two infra 6\n";
    assert_eq!(extract_ssid(detail), "One Two");
}

#[test]
fn mode_keywords_are_exact_or_lowercase_labels() {
    assert!(is_mode_keyword("Infra"));
    assert!(is_mode_keyword("infra"));
    assert!(is_mode_keyword("P2p"));
    assert!(is_mode_keyword("repeater"));
    assert!(!is_mode_keyword("INFRA"));
    assert!(!is_mode_keyword("Unknown"));
    assert!(!is_mode_keyword("Net"));
}

#[test]
fn security_tokens_map_to_their_classes() {
    assert_eq!(security_of_token("OPEN"), WifiSecurity::Open);
    assert_eq!(security_of_token("WEP"), WifiSecurity::Wep);
    assert_eq!(security_of_token("WPA"), WifiSecurity::Wpa);
    assert_eq!(security_of_token("WPA2"), WifiSecurity::Wpa2);
    assert_eq!(security_of_token("WPA3"), WifiSecurity::Wpa3);
    assert_eq!(security_of_token("WPA1"), WifiSecurity::Unknown);
}

#[test]
fn mode_tokens_map_to_their_modes() {
    assert_eq!(mode_of_token("Infra"), NetworkMode::Infra);
    assert_eq!(mode_of_token("Ad-Hoc"), NetworkMode::Ibss);
    assert_eq!(mode_of_token("AP"), NetworkMode::Ap);
    assert_eq!(mode_of_token("WDS"), NetworkMode::Wds);
    assert_eq!(mode_of_token("P2P"), NetworkMode::P2p);
    assert_eq!(mode_of_token("Mesh"), NetworkMode::Mesh);
    assert_eq!(mode_of_token("anything else"), NetworkMode::Unknown);
}

#[test]
fn mode_labels_match_their_names() {
    assert_eq!(NetworkMode::Infra.label(), "Infra");
    assert_eq!(NetworkMode::P2p.label(), "P2p");
    assert_eq!(NetworkMode::Unknown.label(), "Unknown");
}

#[test]
fn assembled_networks_carry_the_row_and_the_name() {
    let rows = parse_wifi_listing(
        "HEADER\nyes AA:BB:CC:DD:EE:FF 82 2437 MHz 6 WPA2 Infra\n",
    );
    let network = assemble_network(&rows[0], "My Home Net".to_string());
    assert_eq!(network.ssid, "My Home Net");
    assert_eq!(network.bssid, "AA:BB:CC:DD:EE:FF");
    assert_eq!(network.signal_strength, 82);
    assert_eq!(network.frequency, 2437);
    assert!(!network.is_hidden);
    assert_eq!(network.speed, None);
    assert!(network.currently_used);
}

#[test]
fn numeric_tokens_parse_like_the_standard_library() {
    assert_eq!(parse_u32_or_zero("2437"), 2437);
    assert_eq!(parse_u32_or_zero("+7"), 7);
    assert_eq!(parse_u32_or_zero("MHz"), 0);
    assert_eq!(parse_u32_or_zero(""), 0);
    assert_eq!(parse_u32_or_zero("4294967295"), u32::MAX);
    assert_eq!(parse_u32_or_zero("4294967296"), 0);
    assert_eq!(parse_u32_or_zero("99999999999999999999999"), 0);

    assert_eq!(parse_u8_or_zero("6"), 6);
    assert_eq!(parse_u8_or_zero("255"), 255);
    assert_eq!(parse_u8_or_zero("256"), 0);
    assert_eq!(parse_u8_or_zero("-1"), 0);

    assert_eq!(parse_i32_or_zero("82"), 82);
    assert_eq!(parse_i32_or_zero("-40"), -40);
    assert_eq!(parse_i32_or_zero("+40"), 40);
    assert_eq!(parse_i32_or_zero("-2147483648"), i32::MIN);
    assert_eq!(parse_i32_or_zero("2147483647"), i32::MAX);
    assert_eq!(parse_i32_or_zero("2147483648"), 0);
    assert_eq!(parse_i32_or_zero("-2147483649"), 0);
    assert_eq!(parse_i32_or_zero("4-0"), 0);
}

#[test]
fn tokenizing_matches_whitespace_splitting() {
    assert_eq!(
        split_tokens("  yes\tAA:BB  82 \r"),
        vec!["yes", "AA:BB", "82"]
    );
    assert_eq!(split_tokens(""), Vec::<String>::new());
    assert_eq!(split_tokens("   \t "), Vec::<String>::new());
}

#[test]
fn line_splitting_keeps_every_segment() {
    assert_eq!(split_lines("a\nb\nc"), vec!["a", "b", "c"]);
    assert_eq!(split_lines("a\n"), vec!["a", ""]);
    assert_eq!(split_lines(""), vec![""]);
}

#[test]
fn string_equality_is_exact() {
    assert!(str_eq("wlp1s0", "wlp1s0"));
    assert!(!str_eq("wlp1s0", "wlp1s1"));
    assert!(!str_eq("", "a"));
}
