use ksp_dashboard::control::{control, State};
use ksp_dashboard::numfmt::{fmt_fixed2, fmt_u64, fmt_ut};
use ksp_dashboard::pad::{str_left_pad, str_right_pad, trimmed};
use ksp_dashboard::telemetry::Telemetry;
use ksp_dashboard::terminal::Terminal;

fn snapshot(periapsis: i64) -> Telemetry {
    Telemetry {
        periapsis,
        time_to_periapsis: 0,
        apoapsis: 0,
        time_to_apoapsis: 0,
        inclination: 0,
        dynamic_pressure: 0,
        surface_speed: 0,
        orbital_speed: 0,
        mean_altitude: 0,
        surface_altitude: 0,
    }
}

#[test]
fn right_pad_appends_pad_chars() {
    assert_eq!(str_right_pad("ab", 5, "."), "ab...");
}

#[test]
fn right_pad_trims_before_measuring() {
    assert_eq!(str_right_pad("  hi  ", 4, "-"), "hi--");
}

#[test]
fn right_pad_truncates_keeping_front() {
    assert_eq!(str_right_pad("hello", 3, " "), "hel");
}

#[test]
fn right_pad_zero_width() {
    assert_eq!(str_right_pad("anything", 0, " "), "");
}

#[test]
fn left_pad_prepends_pad_chars() {
    assert_eq!(str_left_pad("ab", 5, "."), "...ab");
}

#[test]
fn left_pad_truncates_keeping_back() {
    assert_eq!(str_left_pad("hello", 3, " "), "llo");
}

#[test]
fn left_pad_trims_before_measuring() {
    assert_eq!(str_left_pad(" 7 ", 3, "0"), "007");
}

#[test]
fn pads_are_codepoint_safe() {
    assert_eq!(str_right_pad("╭──╮", 2, " "), "╭─");
    assert_eq!(str_left_pad("╭──╮", 2, " "), "─╮");
}

#[test]
fn pads_always_hit_exact_width() {
    for w in 0..10usize {
        assert_eq!(str_right_pad("abcde", w, "#").chars().count(), w);
        assert_eq!(str_left_pad("abcde", w, "#").chars().count(), w);
    }
}

#[test]
fn trimmed_strips_both_ends() {
    assert_eq!(trimmed(" \t hi there\n "), "hi there");
    assert_eq!(trimmed("   "), "");
    assert_eq!(trimmed(""), "");
}

#[test]
fn decimal_rendering() {
    assert_eq!(fmt_u64(0), "0");
    assert_eq!(fmt_u64(7), "7");
    assert_eq!(fmt_u64(12345), "12345");
    assert_eq!(fmt_u64(u64::MAX), "18446744073709551615");
}

#[test]
fn fixed_point_two_decimals() {
    assert_eq!(fmt_fixed2(0), "0.00");
    assert_eq!(fmt_fixed2(12), "0.12");
    assert_eq!(fmt_fixed2(-5), "-0.05");
    assert_eq!(fmt_fixed2(150), "1.50");
    assert_eq!(fmt_fixed2(-5000000), "-50000.00");
    assert_eq!(fmt_fixed2(i64::MIN), "-92233720368547758.08");
}

#[test]
fn universal_time_clock() {
    assert_eq!(fmt_ut(0), "Y0 D0 0:0:0");
    assert_eq!(fmt_ut(9201600 + 2 * 21600 + 3 * 3600 + 4 * 60 + 5), "Y1 D2 3:4:5");
}

#[test]
fn derived_telemetry_capacity() {
    let t = Terminal::new(20, 64, 3, 1);
    assert_eq!(t.max_telemetry, 20 - 2 - (3 + 2) - (1 + 2));
    assert_eq!(t.max_telemetry, 10);
}

#[test]
fn new_prefills_blank_rows() {
    let t = Terminal::new(20, 64, 3, 1);
    assert_eq!(t.announcements.len(), 3);
    assert_eq!(t.telemetries.len(), 10);
    assert_eq!(t.debugs.len(), 1);
    for row in t.announcements.iter().chain(t.telemetries.iter()).chain(t.debugs.iter()) {
        assert_eq!(row, &" ".repeat(60));
    }
}

#[test]
fn announcement_order_most_recent_first() {
    let mut t = Terminal::new(20, 64, 3, 1);
    t.announcement("Liftoff");
    t.announcement("Stage separation");
    assert_eq!(t.announcements[0], format!("{:<60}", "Stage separation"));
    assert_eq!(t.announcements[1], format!("{:<60}", "Liftoff"));
    assert_eq!(t.announcements[2], " ".repeat(60));
}

#[test]
fn announcement_feed_keeps_most_recent_capacity() {
    let mut t = Terminal::new(19, 64, 2, 1);
    let messages = ["one", "two", "three", "four", "five"];
    for m in messages {
        t.announcement(m);
    }
    assert_eq!(t.announcements.len(), 2);
    assert_eq!(t.announcements[0], format!("{:<60}", "five"));
    assert_eq!(t.announcements[1], format!("{:<60}", "four"));
}

#[test]
fn telemetry_rows_fixed_order_and_format() {
    let mut t = Terminal::new(20, 64, 3, 1);
    t.telemetry(&snapshot(-5000000));
    assert_eq!(t.telemetries.len(), 10);
    assert_eq!(t.telemetries[0], format!("{:<18}:{:>41}", "Periapsis", "-50000.00"));
    assert_eq!(t.telemetries[1], format!("{:<18}:{:>41}", "Time To Periapsis", "0.00"));
    assert_eq!(t.telemetries[2], format!("{:<18}:{:>41}", "Apoapsis", "0.00"));
    assert_eq!(t.telemetries[3], format!("{:<18}:{:>41}", "Time To Apoapsis", "0.00"));
    assert_eq!(t.telemetries[4], format!("{:<18}:{:>41}", "Inclination", "0.00"));
    assert_eq!(t.telemetries[5], format!("{:<18}:{:>41}", "Dynamic Pressure", "0.00"));
    assert_eq!(t.telemetries[6], format!("{:<18}:{:>41}", "Surface Speed", "0.00"));
    assert_eq!(t.telemetries[7], format!("{:<18}:{:>41}", "Orbital Speed", "0.00"));
    assert_eq!(t.telemetries[8], format!("{:<18}:{:>41}", "Sea Altitude", "0.00"));
    assert_eq!(t.telemetries[9], format!("{:<18}:{:>41}", "Surface Altitude", "0.00"));
}

#[test]
fn periapsis_row_exact_text() {
    let mut t = Terminal::new(20, 64, 3, 1);
    t.telemetry(&snapshot(-5000000));
    let row = &t.telemetries[0];
    assert_eq!(row.chars().count(), 60);
    assert!(row.starts_with("Periapsis         :"));
    assert!(row.ends_with("-50000.00"));
    assert_eq!(&row[19..], format!("{:>41}", "-50000.00"));
}

#[test]
fn render_shape_small_dashboard() {
    let t = Terminal::new(7, 23, 1, 0);
    assert_eq!(t.max_telemetry, 2);
    let blank = " ".repeat(19);
    let top = format!("╭{}╮", "─".repeat(21));
    let bot = format!("╰{}╯", "─".repeat(21));
    let mut expected = String::from("\x1b[7A");
    expected.push_str(&format!("{}\n│ {} │\n{}\n", top, blank, bot));
    expected.push_str(&format!("{}\n│ {} │\n│ {} │\n{}\n", top, blank, blank, bot));
    assert_eq!(t.render(), expected);
}

#[test]
fn render_dims_older_announcements() {
    let mut t = Terminal::new(9, 23, 2, 0);
    t.announcement("a");
    t.announcement("b");
    let out = t.render();
    let row_b = format!("│ {:<19} │\n", "b");
    let row_a = format!("│ \x1b[38;5;8m{:<19}\x1b[0m │\n", "a");
    assert!(out.contains(&row_b));
    assert!(out.contains(&row_a));
    assert!(out.find(&row_b).unwrap() < out.find(&row_a).unwrap());
}

#[test]
fn render_skips_disabled_panels() {
    let t = Terminal::new(2, 23, 0, 0);
    assert_eq!(t.max_telemetry, 0);
    assert_eq!(t.render(), "\x1b[2A");
}

#[test]
fn render_twice_identical() {
    let mut t = Terminal::new(20, 64, 3, 1);
    t.announcement("Liftoff");
    t.telemetry(&snapshot(123456));
    let first = t.render();
    let second = t.render();
    assert_eq!(first, second);
}

#[test]
fn clear_emits_one_blank_line_per_row() {
    let t = Terminal::new(20, 64, 3, 1);
    assert_eq!(t.clear(), "\n".repeat(20));
}

#[test]
fn debug_is_a_no_op() {
    let mut t = Terminal::new(20, 64, 3, 1);
    let before = t.render();
    t.debug(&State {});
    assert_eq!(t.render(), before);
}

#[test]
fn control_returns_fresh_empty_state() {
    let t = Terminal::new(20, 64, 3, 1);
    assert_eq!(control(&State {}, &t, &snapshot(0)), State {});
}

#[test]
fn border_lines_match_width() {
    let t = Terminal::new(20, 64, 3, 1);
    assert_eq!(t.top_line(), format!("╭{}╮", "─".repeat(62)));
    assert_eq!(t.bot_line(), format!("╰{}╯", "─".repeat(62)));
}
