//! Tests for dates, text helpers, colors, themes, audio framing, DNS
//! answers, voice parsing, and WiFi helpers.

use kiosk_core::audio::AudioBuffer;
use kiosk_core::color::Color;
use kiosk_core::dates::{format_iso_date, parse_iso_date};
use kiosk_core::dns::{build_response, find_question_end};
use kiosk_core::models::{CompletionRecord, RecurrenceType, Task, Urgency};
use kiosk_core::storage::calculate_next_due;
use kiosk_core::text::wrap_text;
use kiosk_core::theme::{urgency_label, Theme};
use kiosk_core::views::ActionItem;
use kiosk_core::voice::{default_action, escape_transcript, voice_finalize_body, VoiceAction};
use kiosk_core::wifi::{dedup_networks, web_url_from_ip, wifi_qr_string, ScannedNetwork, WiFiMode};

#[test]
fn iso_dates_round_trip_through_day_counts() {
    let d = parse_iso_date("1970-01-01").unwrap();
    assert_eq!(d, 719_163);
    assert_eq!(parse_iso_date("0001-01-01").unwrap(), 1);
    assert!(parse_iso_date("not a date").is_none());
    assert!(parse_iso_date("2025-13-40").is_none());
    assert_eq!(format_iso_date(d).as_deref(), Some("1970-01-01"));
    assert_eq!(format_iso_date(d + 31).as_deref(), Some("1970-02-01"));
}

#[test]
fn formatted_due_date_displays_or_falls_back() {
    let mut t = Task {
        id: 1,
        name: String::from("x"),
        recurrence_type: RecurrenceType::Daily,
        recurrence_value: 1,
        next_due_date: String::from("2026-01-15"),
        created_at: String::from("2025-01-01T00:00:00"),
        updated_at: String::from("2025-01-01T00:00:00"),
    };
    assert_eq!(t.formatted_due_date(), "Jan 15, 2026");
    t.next_due_date = String::from("someday");
    assert_eq!(t.formatted_due_date(), "someday");
}

#[test]
fn formatted_date_takes_the_date_part() {
    let r = CompletionRecord {
        id: 1,
        task_id: 1,
        completed_at: String::from("2026-01-15T08:30:00"),
        days_since_last: Some(3),
    };
    assert_eq!(r.formatted_date(), "Jan 15, 2026");
    let odd = CompletionRecord {
        id: 2,
        task_id: 1,
        completed_at: String::from("recently"),
        days_since_last: None,
    };
    assert_eq!(odd.formatted_date(), "recently");
}

#[test]
fn days_until_due_and_urgency() {
    let t = Task {
        id: 1,
        name: String::from("x"),
        recurrence_type: RecurrenceType::Daily,
        recurrence_value: 1,
        next_due_date: String::from("2025-06-15"),
        created_at: String::from("2025-01-01T00:00:00"),
        updated_at: String::from("2025-01-01T00:00:00"),
    };
    let today = parse_iso_date("2025-06-12").unwrap();
    assert_eq!(t.days_until_due(today), 3);
    assert_eq!(t.urgency(today), Urgency::Week);
    assert_eq!(Urgency::from_days(-2), Urgency::Overdue);
    assert_eq!(Urgency::from_days(0), Urgency::Today);
    assert_eq!(Urgency::from_days(1), Urgency::Tomorrow);
    assert_eq!(Urgency::from_days(7), Urgency::Week);
    assert_eq!(Urgency::from_days(8), Urgency::Upcoming);
    assert_eq!(Urgency::Overdue.as_str(), "overdue");
    assert_eq!(RecurrenceType::Weekly.as_str(), "weekly");
}

#[test]
fn calculate_next_due_steps_by_recurrence() {
    let from = parse_iso_date("2025-06-10").unwrap();
    assert_eq!(calculate_next_due(from, RecurrenceType::Daily, 3).as_deref(), Some("2025-06-13"));
    assert_eq!(calculate_next_due(from, RecurrenceType::Weekly, 1).as_deref(), Some("2025-06-17"));
    assert_eq!(calculate_next_due(from, RecurrenceType::Monthly, 2).as_deref(), Some("2025-08-09"));
    assert_eq!(calculate_next_due(from, RecurrenceType::Yearly, 1).as_deref(), Some("2026-06-10"));
    // stepping out of the representable calendar yields nothing
    assert!(calculate_next_due(from, RecurrenceType::Yearly, u32::MAX).is_none());
}

#[test]
fn wrap_text_wraps_greedily() {
    assert_eq!(wrap_text("hello world foo", 11), vec!["hello world", "foo"]);
    assert_eq!(wrap_text("a bb ccc", 4), vec!["a bb", "ccc"]);
    assert_eq!(wrap_text("one two three", 30), vec!["one two three"]);
    // a word longer than the width stands alone
    assert_eq!(wrap_text("tiny extraordinarily big", 6), vec!["tiny", "extraordinarily", "big"]);
    // collapsed whitespace
    assert_eq!(wrap_text("  spaced   out  ", 20), vec!["spaced out"]);
    let empty: Vec<String> = Vec::new();
    assert_eq!(wrap_text("   ", 10), empty);
}

#[test]
fn color_packs_to_rgb565_and_rgb888() {
    assert_eq!(Color::new(255, 255, 255).to_rgb565(), 0xFFFF);
    assert_eq!(Color::new(0, 0, 0).to_rgb565(), 0x0000);
    assert_eq!(Color::new(255, 0, 0).to_rgb565(), 0xF800);
    assert_eq!(Color::new(0, 255, 0).to_rgb565(), 0x07E0);
    assert_eq!(Color::new(0, 0, 255).to_rgb565(), 0x001F);
    assert_eq!(Color::new(0x12, 0x34, 0x56).to_rgb888(), 0x0012_3456);
}

#[test]
fn theme_maps_urgency_to_colors_and_labels() {
    assert_eq!(Theme::urgency_color("overdue"), Color::new(255, 123, 123));
    assert_eq!(Theme::urgency_color("today"), Color::new(255, 184, 107));
    assert_eq!(Theme::urgency_color("elsewhen"), Color::new(168, 180, 255));
    assert_eq!(Theme::urgency_label("today"), "TODAY!");
    assert_eq!(Theme::urgency_label("week"), "THIS WEEK");
    assert_eq!(Theme::urgency_label("other"), "COMING UP");
    assert_eq!(urgency_label("today"), "TODAY");
    assert_eq!(urgency_label("other"), "UPCOMING");
    assert_eq!(ActionItem::Delete.label(), "Delete");
}

#[test]
fn wav_header_frames_the_pcm_data() {
    let mut buf = AudioBuffer::new();
    assert_eq!(buf.sample_rate, 16_000);
    buf.pcm_data = vec![1, 2, 3, 4, 5, 6];
    let hdr = buf.wav_header();
    assert_eq!(hdr.len(), 44);
    assert_eq!(&hdr[0..4], b"RIFF");
    assert_eq!(&hdr[4..8], &(36u32 + 6).to_le_bytes());
    assert_eq!(&hdr[8..12], b"WAVE");
    assert_eq!(&hdr[12..16], b"fmt ");
    assert_eq!(&hdr[16..20], &16u32.to_le_bytes());
    assert_eq!(&hdr[20..22], &1u16.to_le_bytes());
    assert_eq!(&hdr[22..24], &1u16.to_le_bytes());
    assert_eq!(&hdr[24..28], &16_000u32.to_le_bytes());
    assert_eq!(&hdr[28..32], &32_000u32.to_le_bytes());
    assert_eq!(&hdr[32..34], &2u16.to_le_bytes());
    assert_eq!(&hdr[34..36], &16u16.to_le_bytes());
    assert_eq!(&hdr[36..40], b"data");
    assert_eq!(&hdr[40..44], &6u32.to_le_bytes());
    let wav = buf.to_wav();
    assert_eq!(wav.len(), 50);
    assert_eq!(&wav[0..44], &hdr[..]);
    assert_eq!(&wav[44..], &[1, 2, 3, 4, 5, 6]);
    buf.clear();
    assert!(buf.pcm_data.is_empty());
}

#[test]
fn i2s_frames_keep_their_upper_bytes() {
    let mut buf = AudioBuffer::new();
    // two 32-bit frames, little-endian: the upper two bytes survive
    let frames = [0x11, 0x22, 0x33, 0x44, 0x55, 0x66, 0x77, 0x08];
    let samples = buf.append_i2s_frames(&frames, 8);
    assert_eq!(samples, 2);
    assert_eq!(buf.pcm_data, vec![0x33, 0x44, 0x77, 0x08]);
    // a trailing partial frame is ignored
    let more = [1, 2, 3, 4, 9, 9, 9];
    assert_eq!(buf.append_i2s_frames(&more, 7), 1);
    assert_eq!(buf.pcm_data, vec![0x33, 0x44, 0x77, 0x08, 3, 4]);
}

#[test]
fn dns_question_end_walks_the_labels() {
    // header (12) + "foo" + "com" + terminator + QTYPE + QCLASS
    let mut q = vec![0xAB, 0xCD, 1, 0, 0, 1, 0, 0, 0, 0, 0, 0];
    q.extend_from_slice(&[3, b'f', b'o', b'o', 3, b'c', b'o', b'm', 0, 0, 1, 0, 1]);
    assert_eq!(find_question_end(&q), 25);
    // a truncated packet clamps to its length
    let short = vec![0xAB, 0xCD, 1, 0, 0, 1, 0, 0, 0, 0, 0, 0];
    assert_eq!(find_question_end(&short), 12);
}

#[test]
fn dns_response_echoes_the_question_and_answers_with_the_ip() {
    let mut q = vec![0xAB, 0xCD, 1, 0, 0, 1, 0, 0, 0, 0, 0, 0];
    q.extend_from_slice(&[3, b'f', b'o', b'o', 3, b'c', b'o', b'm', 0, 0, 1, 0, 1]);
    let r = build_response(&q, &[192, 168, 4, 1]);
    // transaction id is echoed
    assert_eq!(&r[0..2], &[0xAB, 0xCD]);
    // response flags, one question, one answer
    assert_eq!(&r[2..12], &[0x81, 0x80, 0, 1, 0, 1, 0, 0, 0, 0]);
    // the question section is copied verbatim
    assert_eq!(&r[12..25], &q[12..25]);
    // name pointer, A record, IN class, TTL 60, 4 data bytes, the IP
    assert_eq!(&r[25..37], &[0xC0, 0x0C, 0, 1, 0, 1, 0, 0, 0, 0x3C, 0, 4]);
    assert_eq!(&r[37..41], &[192, 168, 4, 1]);
    assert_eq!(r.len(), 41);
}

#[test]
fn voice_recurrence_parses_day_counts() {
    let act = |days: Option<u32>| VoiceAction {
        action: String::from("create"),
        task_name: String::from("x"),
        recurrence_days: days,
        message: String::new(),
    };
    assert_eq!(act(Some(365)).recurrence(), (RecurrenceType::Yearly, 1));
    assert_eq!(act(Some(730)).recurrence(), (RecurrenceType::Yearly, 2));
    assert_eq!(act(Some(60)).recurrence(), (RecurrenceType::Monthly, 2));
    assert_eq!(act(Some(14)).recurrence(), (RecurrenceType::Weekly, 2));
    assert_eq!(act(Some(5)).recurrence(), (RecurrenceType::Daily, 5));
    assert_eq!(act(Some(0)).recurrence(), (RecurrenceType::Daily, 1));
    assert_eq!(act(None).recurrence(), (RecurrenceType::Daily, 1));
    assert_eq!(default_action(), "none");
}

#[test]
fn voice_bodies_escape_their_transcript() {
    assert_eq!(escape_transcript("plain words"), "plain words");
    assert_eq!(escape_transcript("say \"hi\""), "say \\\"hi\\\"");
    assert_eq!(escape_transcript("a\\b"), "a\\\\b");
    assert_eq!(
        voice_finalize_body("say \"hi\""),
        "{\"transcript\":\"say \\\"hi\\\"\"}"
    );
}

#[test]
fn wifi_strings_and_modes() {
    assert_eq!(wifi_qr_string(), "WIFI:T:WPA;S:DaysTracker;P:tracker123;;");
    assert_eq!(web_url_from_ip([192, 168, 4, 1]), "http://192.168.4.1");
    assert_eq!(web_url_from_ip([10, 0, 0, 255]), "http://10.0.0.255");
    let ap = WiFiMode::AccessPoint { ip: [192, 168, 4, 1] };
    assert!(!ap.is_station());
    assert_eq!(ap.ip(), [192, 168, 4, 1]);
    assert_eq!(ap.mode_str(), "ap");
    assert_eq!(ap.ssid(), None);
    let sta = WiFiMode::Station { ssid: String::from("home"), ip: [10, 0, 0, 7] };
    assert!(sta.is_station());
    assert_eq!(sta.mode_str(), "sta");
    assert_eq!(sta.ssid(), Some("home"));
}

#[test]
fn scan_results_dedup_keeps_the_strongest() {
    let net = |ssid: &str, rssi: i8| ScannedNetwork {
        ssid: String::from(ssid),
        rssi,
        auth: String::from("wpa2"),
    };
    let found = vec![net("attic", -50), net("cellar", -60), net("attic", -40)];
    let kept = dedup_networks(found);
    let summary: Vec<(String, i8)> = kept.iter().map(|n| (n.ssid.clone(), n.rssi)).collect();
    assert_eq!(summary, vec![(String::from("attic"), -40), (String::from("cellar"), -60)]);
}
