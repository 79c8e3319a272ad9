//! Text derivations, decimal parsing and configuration flags.

use fastblog::config::{Config, Environment};
use fastblog::numbers::{parse_u64, u64_to_dec};
use fastblog::relevance::create_excerpt;
use fastblog::text::{calculate_reading_time, generate_excerpt, strip_tags, trim_spaces};

#[test]
fn tags_become_single_spaces() {
    assert_eq!(strip_tags("<p>one</p><br>two"), " one  two");
    assert_eq!(strip_tags("no tags at all"), "no tags at all");
    assert_eq!(strip_tags("broken < tag stays"), "broken < tag stays");
}

#[test]
fn trimming_strips_both_ends() {
    assert_eq!(trim_spaces("  padded  "), "padded");
    assert_eq!(trim_spaces("\t\n"), "");
    assert_eq!(trim_spaces("middle stays  put"), "middle stays  put");
}

#[test]
fn reading_time_uses_two_hundred_words_a_minute() {
    assert_eq!(calculate_reading_time("three words here"), 1);
    let text = "word ".repeat(401);
    assert_eq!(calculate_reading_time(&text), 2);
    let tagged = format!("<div>{}</div>", "word ".repeat(401));
    assert_eq!(calculate_reading_time(&tagged), 2);
}

#[test]
fn excerpt_respects_the_limit_and_word_boundaries() {
    assert_eq!(generate_excerpt("<p>short text</p>", 200), "short text");
    let long = "abcde ".repeat(50);
    let cut = generate_excerpt(&long, 20);
    assert_eq!(cut, "abcde abcde abcde...");
}

#[test]
fn search_excerpt_highlights_the_first_hit() {
    let content = format!("{}NEEDLE{}", "x".repeat(60), "y".repeat(200));
    let out = create_excerpt(&content, "needle");
    assert!(out.starts_with("..."));
    assert!(out.ends_with("..."));
    assert!(out.contains("NEEDLE"));
    let missing = create_excerpt("plain short text", "absent");
    assert_eq!(missing, "plain short text");
    let long_miss = create_excerpt(&"z".repeat(200), "absent");
    assert_eq!(long_miss.chars().count(), 153);
    assert!(long_miss.ends_with("..."));
}

#[test]
fn decimal_round_trip_and_rejections() {
    assert_eq!(u64_to_dec(0), "0");
    assert_eq!(u64_to_dec(90210), "90210");
    assert_eq!(parse_u64("90210"), Some(90210));
    assert_eq!(parse_u64("0"), Some(0));
    assert_eq!(parse_u64("18446744073709551615"), Some(u64::MAX));
    assert_eq!(parse_u64("18446744073709551616"), None);
    assert_eq!(parse_u64(""), None);
    assert_eq!(parse_u64("12a"), None);
}

#[test]
fn environment_flags_are_exclusive() {
    let mut c = Config {
        database_url: String::from("postgresql://localhost/fastblog"),
        jwt_secret: String::from("SECRET-REDACTED"),
        port: 3001,
        environment: Environment::Development,
        cors_origins: vec![String::from("http://localhost:3000")],
        max_file_size: 10_485_760,
        redis_url: None,
        smtp_config: None,
    };
    assert!(c.is_development() && !c.is_production());
    c.environment = Environment::Production;
    assert!(c.is_production() && !c.is_development());
    c.environment = Environment::Testing;
    assert!(!c.is_production() && !c.is_development());
}
