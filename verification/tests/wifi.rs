use netstatus::{
    ChannelBand, ChannelWidth, PhyMode, Security, WifiIdentity, WifiRadio, WifiStatus,
    format_channel, format_phy_mode, format_security, parse_signal_noise, parse_wifi_report,
    wifi_radio_from, wifi_status,
};

const CONNECTED_JSON: &str = r#"{
  "SPAirPortDataType" : [
    {
      "spairport_airport_interfaces" : [
        {
          "_name" : "en0",
          "spairport_current_network_information" : {
            "_name" : "MyWiFi",
            "spairport_network_channel" : "36 (5GHz, 80MHz)",
            "spairport_network_phymode" : "802.11ax",
            "spairport_security_mode" : "spairport_security_mode_wpa2_personal",
            "spairport_signal_noise" : "-52 dBm / -90 dBm"
          },
          "spairport_status_information" : "spairport_status_connected"
        }
      ]
    }
  ]
}"#;

const DISCONNECTED_JSON: &str = r#"{
  "SPAirPortDataType" : [
    {
      "spairport_airport_interfaces" : [
        { "_name" : "en0" }
      ]
    }
  ]
}"#;

const REDACTED_SSID_JSON: &str = r#"{
  "SPAirPortDataType" : [
    {
      "spairport_airport_interfaces" : [
        {
          "_name" : "en0",
          "spairport_current_network_information" : {
            "_name" : "<redacted>",
            "spairport_network_channel" : "36 (5GHz, 80MHz)",
            "spairport_network_phymode" : "802.11ax",
            "spairport_security_mode" : "spairport_security_mode_wpa2_personal",
            "spairport_signal_noise" : "-52 dBm / -90 dBm"
          },
          "spairport_status_information" : "spairport_status_connected"
        }
      ]
    }
  ]
}"#;

const MULTI_INTERFACE_JSON: &str = r#"{
  "SPAirPortDataType" : [
    {
      "spairport_airport_interfaces" : [
        {
          "_name" : "awdl0",
          "spairport_current_network_information" : {
            "spairport_network_type" : "spairport_network_type_station"
          }
        },
        {
          "_name" : "en0",
          "spairport_current_network_information" : {
            "_name" : "MyWiFi",
            "spairport_network_channel" : "36 (5GHz, 80MHz)",
            "spairport_network_phymode" : "802.11ax",
            "spairport_security_mode" : "spairport_security_mode_wpa2_personal",
            "spairport_signal_noise" : "-52 dBm / -90 dBm"
          },
          "spairport_status_information" : "spairport_status_connected"
        }
      ]
    }
  ]
}"#;

const ONLY_FALSE_POSITIVE_JSON: &str = r#"{
  "SPAirPortDataType" : [
    {
      "spairport_airport_interfaces" : [
        {
          "_name" : "awdl0",
          "spairport_current_network_information" : {
            "spairport_network_type" : "spairport_network_type_station"
          }
        }
      ]
    }
  ]
}"#;

#[test]
fn parses_connected_network() {
    let status = parse_wifi_report(CONNECTED_JSON);
    assert!(status.connected);
    assert_eq!(status.ssid, Some("MyWiFi".to_string()));
    assert_eq!(status.channel, Some("36 (5GHz, 80MHz)".to_string()));
    assert_eq!(status.phy_mode, Some("802.11ax".to_string()));
    assert_eq!(status.security, Some("spairport_security_mode_wpa2_personal".to_string()));
    assert_eq!(status.signal_dbm, Some(-52));
    assert_eq!(status.noise_dbm, Some(-90));
}

#[test]
fn disconnected_returns_default() {
    assert_eq!(parse_wifi_report(DISCONNECTED_JSON), WifiStatus::default());
}

#[test]
fn redacted_ssid_normalized_to_none() {
    let status = parse_wifi_report(REDACTED_SSID_JSON);
    assert!(status.connected);
    assert_eq!(status.ssid, None);
    assert_eq!(status.channel, Some("36 (5GHz, 80MHz)".to_string()));
    assert_eq!(status.signal_dbm, Some(-52));
}

#[test]
fn malformed_json_returns_default() {
    assert_eq!(parse_wifi_report("not json"), WifiStatus::default());
}

#[test]
fn skips_false_positive_interface_and_finds_real_connection() {
    let status = parse_wifi_report(MULTI_INTERFACE_JSON);
    assert!(status.connected);
    assert_eq!(status.ssid, Some("MyWiFi".to_string()));
}

#[test]
fn only_false_positive_interface_returns_default() {
    assert_eq!(parse_wifi_report(ONLY_FALSE_POSITIVE_JSON), WifiStatus::default());
}

#[test]
fn parse_signal_noise_reads_both_sides() {
    assert_eq!(parse_signal_noise("-52 dBm / -90 dBm"), Some((-52, -90)));
    assert_eq!(parse_signal_noise("  +7 / 0"), Some((7, 0)));
    assert_eq!(parse_signal_noise("-52 dBm"), None);
    assert_eq!(parse_signal_noise("x / -90"), None);
    assert_eq!(parse_signal_noise("-2147483648 / 2147483647"), Some((i32::MIN, i32::MAX)));
    assert_eq!(parse_signal_noise("2147483648 / 1"), None);
    assert_eq!(parse_signal_noise("/ 1"), None);
}

#[test]
fn formats_channel() {
    assert_eq!(format_channel(40, ChannelBand::Band5GHz, ChannelWidth::Width160MHz), "40 (5GHz, 160MHz)");
    assert_eq!(format_channel(6, ChannelBand::Band2GHz, ChannelWidth::Width20MHz), "6 (2.4GHz, 20MHz)");
}

#[test]
fn formats_unknown_channel_parts() {
    assert_eq!(
        format_channel(-1, ChannelBand::Unknown, ChannelWidth::Unknown),
        "-1 (unknown band, unknown width)"
    );
}

#[test]
fn formats_security() {
    assert_eq!(format_security(Security::Wpa2Personal), "WPA2 Personal");
    assert_eq!(format_security(Security::Wpa3Transition), "WPA3 Transition");
    assert_eq!(format_security(Security::Open), "Open");
}

#[test]
fn formats_phy_mode() {
    assert_eq!(format_phy_mode(PhyMode::Mode11ax), "802.11ax");
    assert_eq!(format_phy_mode(PhyMode::Mode11ac), "802.11ac");
}

#[test]
fn radio_snapshot_keeps_values_that_fit() {
    let radio = wifi_radio_from(
        Some((36, ChannelBand::Band5GHz, ChannelWidth::Width80MHz)),
        -44,
        -92,
        Security::Wpa3Personal,
        PhyMode::Mode11ax,
    );
    assert_eq!(radio.channel, Some("36 (5GHz, 80MHz)".to_string()));
    assert_eq!(radio.signal_dbm, Some(-44));
    assert_eq!(radio.noise_dbm, Some(-92));
    assert_eq!(radio.security, Some("WPA3 Personal".to_string()));
    assert_eq!(radio.phy_mode, Some("802.11ax".to_string()));
    let no_channel = wifi_radio_from(None, isize::MAX, 0, Security::Unknown, PhyMode::Unknown);
    assert_eq!(no_channel.channel, None);
    assert_eq!(no_channel.signal_dbm, None);
    assert_eq!(no_channel.noise_dbm, Some(0));
}

#[test]
fn wifi_status_combines_identity_and_radio() {
    let radio = WifiRadio {
        channel: Some("40 (5GHz, 160MHz)".to_string()),
        signal_dbm: Some(-44),
        noise_dbm: Some(-92),
        security: Some("WPA3 Personal".to_string()),
        phy_mode: Some("802.11ax".to_string()),
    };
    let connected = WifiIdentity { connected: true, ssid: None };
    let s = wifi_status(connected, radio.clone());
    assert!(s.connected);
    assert_eq!(s.channel, radio.channel);
    assert_eq!(s.signal_dbm, Some(-44));
    assert_eq!(wifi_status(WifiIdentity::default(), radio), WifiStatus::default());
}
