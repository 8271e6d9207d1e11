use netstatus::Interface;
use netstatus::site::{
    extract_tagline, render_body, render_page, rewrite_asset_paths, tag_screenshots,
};
use netstatus::tui::{Tab, format_age, pad_col, sorted_non_loopback};
use netstatus::watch::{
    CheckScope, DEGRADED, HEALTHY, Intervals, PollAction, PollState, health_after, interval_for,
    on_config_change, poll_step,
};
use netstatus::ConnectionConfidence;

#[test]
fn pad_col_pads_short_text_and_appends_separator() {
    assert_eq!(pad_col("en0", 8), "en0      ");
}

#[test]
fn pad_col_still_separates_text_longer_than_width() {
    assert_eq!(pad_col("a-very-long-target-name", 8), "a-very-long-target-name ");
}

#[test]
fn format_age_matches_shared_fixture() {
    let cases: [(u64, &str); 12] = [
        (0, "now"),
        (2, "now"),
        (3, "3s"),
        (42, "42s"),
        (59, "59s"),
        (60, "1m"),
        (119, "1m"),
        (3599, "59m"),
        (3600, "1h"),
        (3717, "1h"),
        (7200, "2h"),
        (86399, "23h"),
    ];
    for (seconds, expected) in cases {
        assert_eq!(format_age(seconds), expected, "seconds={seconds}");
    }
}

#[test]
fn tabs_have_titles_and_digit_keys() {
    assert_eq!(Tab::Overview.title(), "Overview");
    assert_eq!(Tab::Dns.title(), "DNS");
    assert_eq!(Tab::Reachability.title(), "Reachability");
    assert_eq!(Tab::Wifi.title(), "Wi-Fi");
    assert_eq!(Tab::from_digit(1), Some(Tab::Overview));
    assert_eq!(Tab::from_digit(4), Some(Tab::Wifi));
    assert_eq!(Tab::from_digit(0), None);
    assert_eq!(Tab::from_digit(5), None);
}

fn iface(name: &str, up: bool, loopback: bool, addresses: &[&str]) -> Interface {
    Interface {
        name: name.to_string(),
        up,
        loopback,
        addresses: addresses.iter().map(|s| s.to_string()).collect(),
    }
}

#[test]
fn sorted_non_loopback_orders_online_to_offline_stably() {
    let list = vec![
        iface("en1", false, false, &["10.0.0.1/24"]),
        iface("lo0", true, true, &["127.0.0.1/8"]),
        iface("utun0", true, false, &["fe80::1/64"]),
        iface("en0", true, false, &["192.168.1.2/24"]),
        iface("awdl0", true, false, &["fe80::2/64"]),
        iface("bridge0", true, false, &[]),
    ];
    let names: Vec<&str> = sorted_non_loopback(&list).iter().map(|i| i.name.as_str()).collect();
    assert_eq!(names, vec!["en0", "utun0", "awdl0", "bridge0", "en1"]);
}

#[test]
fn poll_fires_full_first_then_confidence_only() {
    let mut state = PollState::new();
    assert_eq!(poll_step(&mut state, false), PollAction::Idle);
    assert_eq!(poll_step(&mut state, true), PollAction::Fire(CheckScope::Full));
    assert_eq!(poll_step(&mut state, true), PollAction::Fire(CheckScope::ConfidenceOnly));
    assert_eq!(poll_step(&mut state, false), PollAction::Idle);
    assert_eq!(poll_step(&mut state, true), PollAction::Fire(CheckScope::ConfidenceOnly));
    assert_eq!(on_config_change(true), Some(CheckScope::Full));
    assert_eq!(on_config_change(false), None);
}

#[test]
fn interval_follows_health() {
    let intervals = Intervals::default();
    assert_eq!(intervals.healthy, 60);
    assert_eq!(intervals.degraded, 10);
    assert_eq!(interval_for(intervals, HEALTHY), 60);
    assert_eq!(interval_for(intervals, DEGRADED), 10);
    assert_eq!(interval_for(intervals, 7), 60);
    assert_eq!(health_after(Some(ConnectionConfidence::Offline)), DEGRADED);
    assert_eq!(health_after(Some(ConnectionConfidence::Limited)), HEALTHY);
    assert_eq!(health_after(None), HEALTHY);
}

#[test]
fn tagline_is_first_paragraph_after_heading() {
    let readme = "\n# netcheck\n\n  A holistic view  \nof network status.\r\n\nMore text.\n";
    assert_eq!(extract_tagline(readme), "A holistic view of network status.");
    assert_eq!(extract_tagline("# Only a heading\n"), "");
    assert_eq!(extract_tagline(""), "");
}

#[test]
fn body_rewrites_asset_paths_and_renders_markdown() {
    let body = render_body("# Title\n\n![shot](assets/screenshots/a.png)\n");
    assert!(body.contains("<h1"), "{body}");
    assert!(body.contains("<img class=\"screenshot\" src=\"screenshots/a.png\""), "{body}");
    assert!(!body.contains("assets/"), "{body}");
}

#[test]
fn page_embeds_description_and_body() {
    let page = render_page("Tagline here", "<p>Body</p>");
    assert!(page.starts_with("<!doctype html>"));
    assert!(page.contains("<title>netcheck \u{2014} Tagline here</title>"));
    assert!(page.contains("<meta name=\"description\" content=\"Tagline here\">"));
    assert!(page.contains("<meta property=\"og:description\" content=\"Tagline here\">"));
    assert!(page.contains("<main>\n<p>Body</p>\n</main>"));
    assert!(page.ends_with("</html>\n"));
}

#[test]
fn asset_paths_and_screenshot_tags_are_rewritten() {
    assert_eq!(
        rewrite_asset_paths("![a](assets/screenshots/tui.png) ![i](assets/icon-1024.png)"),
        "![a](screenshots/tui.png) ![i](favicon.png)"
    );
    assert_eq!(
        tag_screenshots("<p><img src=\"screenshots/a.png\"><img src=\"logo.png\"></p>"),
        "<p><img class=\"screenshot\" src=\"screenshots/a.png\"><img src=\"logo.png\"></p>"
    );
}
