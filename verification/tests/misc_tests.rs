//! The calendar rules of the events source, the resume rendering, and the
//! small pure helpers.

use daily_bugle::config::{CliConfig, Config};
use daily_bugle::events::{
    days_until_next_month, timeout_variant_cache_constant, timeout_variants_storage_key,
    week_of_month, weekend_number_or_last, ThingsToDo, ThingsToDoCycle,
};
use daily_bugle::fs_cache::FsStore;
use daily_bugle::key::StorageKey;
use daily_bugle::news::{Category, Country, Language};
use daily_bugle::resume::{Resume, Section};
use daily_bugle::sources::{create_url, current_month_events_url, imperva_cache_constant, Page};
use daily_bugle::timestamp::{add_days, now_timestamp, Timestamp};

fn ts(year: u32, month: u32, day: u32, hour: u32, minute: u32, second: u32) -> Timestamp {
    Timestamp { year, month, day, hour, minute, second }
}

#[test]
fn make_key_sanitizes_both_parts() {
    assert_eq!(FsStore::make_key("a b", "c:d"), "a_b__c_d.dat");
    assert_eq!(
        FsStore::make_key("ces@example.com", "2025-10-03T17:05:00-04:00"),
        "ces_example.com__2025-10-03T17_05_00-04_00.dat"
    );
}

#[test]
fn timestamps_order_chronologically() {
    let a = ts(2025, 6, 1, 12, 0, 0);
    let b = ts(2025, 6, 1, 12, 0, 1);
    let c = ts(2026, 1, 1, 0, 0, 0);
    assert!(a.before(&b));
    assert!(b.before(&c));
    assert!(!b.before(&a));
    assert!(!a.before(&a));
}

#[test]
fn add_days_crosses_month_and_leap_boundaries() {
    let t = add_days(&ts(2024, 2, 28, 8, 30, 0), 2);
    assert_eq!((t.year, t.month, t.day), (2024, 3, 1));
    assert_eq!((t.hour, t.minute, t.second), (8, 30, 0));
    let u = add_days(&ts(2025, 12, 31, 0, 0, 0), 1);
    assert_eq!((u.year, u.month, u.day), (2026, 1, 1));
}

#[test]
fn clock_reports_a_current_year()
{
    let now = now_timestamp().expect("the clock must report a four-digit year");
    assert!(now.year >= 2024);
}

#[test]
fn week_and_weekend_arithmetic() {
    // June 2025 opens on a Sunday, so its Monday the second already starts
    // week two; the first Saturday is the seventh.
    assert_eq!(week_of_month(2025, 6, 1), 1);
    assert_eq!(week_of_month(2025, 6, 2), 2);
    assert_eq!(week_of_month(2025, 6, 9), 3);
    assert_eq!(weekend_number_or_last(&ts(2025, 6, 6, 0, 0, 0)), 0);
    assert_eq!(weekend_number_or_last(&ts(2025, 6, 7, 0, 0, 0)), 1);
    assert_eq!(weekend_number_or_last(&ts(2025, 6, 9, 0, 0, 0)), 1);
    assert_eq!(weekend_number_or_last(&ts(2025, 6, 14, 0, 0, 0)), 2);
    assert_eq!(days_until_next_month(&ts(2024, 2, 28, 0, 0, 0)), 2);
    assert_eq!(days_until_next_month(&ts(2025, 12, 31, 0, 0, 0)), 1);
}

#[test]
fn timeout_cache_partitioning() {
    assert_eq!(
        timeout_variant_cache_constant(ThingsToDoCycle::Today),
        "time-out-nyc-today"
    );
    assert_eq!(
        timeout_variant_cache_constant(ThingsToDoCycle::Month),
        "time-out-nyc-month"
    );

    let article = ts(2025, 6, 1, 9, 0, 0);
    let now = ts(2025, 6, 3, 9, 0, 0);
    // The article covers an already passed day: issued now, one-day life.
    let k = timeout_variants_storage_key(ThingsToDoCycle::Today, article, now);
    assert_eq!(k.constant, "time-out-nyc-today");
    assert_eq!(k.expiry(), add_days(&now, 1));
    // A current-day article is issued at its own time.
    let k2 = timeout_variants_storage_key(ThingsToDoCycle::Today, now, now);
    assert_eq!(k2.expiry(), add_days(&now, 1));
    // A week page lives seven days.
    let k3 = timeout_variants_storage_key(ThingsToDoCycle::Week, article, article);
    assert_eq!(k3.expiry(), add_days(&article, 7));
    // A month page lives to the first of the next month.
    let k4 = timeout_variants_storage_key(ThingsToDoCycle::Month, article, now);
    assert_eq!(k4.constant, "time-out-nyc-month");

    let page = ThingsToDo { written: String::new(), article: Vec::new() };
    assert_eq!(page.len(), 0);
}

#[test]
fn resume_renders_exactly() {
    let resume = Resume {
        name: Some("Ada Lovelace".to_string()),
        sections: vec![
            Section {
                heading: Some("Experience".to_string()),
                content: vec!["Analyst".to_string(), "Engine notes".to_string()],
            },
            Section { heading: None, content: vec!["Trailing".to_string()] },
        ],
    };
    assert_eq!(
        resume.to_complete_string(),
        "Name: Ada Lovelace\n\nExperience\nAnalyst\nEngine notes\n\nTrailing\n\n"
    );
    let bare = Resume { name: None, sections: vec![] };
    assert_eq!(bare.to_complete_string(), "");
}

#[test]
fn source_helpers() {
    assert_eq!(
        create_url("https://news.ycombinator.com/news", Page::First),
        "https://news.ycombinator.com/news?p=1"
    );
    assert_eq!(
        create_url("https://news.ycombinator.com/jobs", Page::Second),
        "https://news.ycombinator.com/jobs?p=2"
    );
    assert_eq!(
        imperva_cache_constant("https://www.imperva.com/learn/ddos-sitemap.xml"),
        "imperva-ddos-sitemap"
    );
    assert_eq!(imperva_cache_constant("https://elsewhere.example"), "imperva-sitemap");
    assert_eq!(
        current_month_events_url(1),
        "https://www.timeout.com/newyork/events-calendar/january-events-calendar"
    );
    assert_eq!(
        current_month_events_url(12),
        "https://www.timeout.com/newyork/events-calendar/december-events-calendar"
    );
    // An out-of-range month falls back to January's calendar.
    assert_eq!(current_month_events_url(0), current_month_events_url(1));
    assert_eq!(current_month_events_url(13), current_month_events_url(1));
}

#[test]
fn config_defaults_and_news_codes() {
    let c = Config::default();
    assert!(c.weather.is_none());
    assert_eq!(c.database.connection_url, "localhost:8000");
    let cli = CliConfig::default();
    assert!(cli.api_keys.weather.is_none());

    assert_eq!(Country::USA.code(), "us");
    assert_eq!(Category::Technology.code(), "technology");
    assert_eq!(Language::Spanish.code(), "es");
}

#[test]
fn parse_rejects_trailing_underscore_names() {
    // A sanitized name may end in an underscore; such a key's file name
    // cannot be split back at the first double underscore, so it does not
    // round-trip and its file is refused on a later scan.
    let t = ts(2025, 6, 1, 0, 0, 0);
    let k = StorageKey::new("name ", t, None);
    assert_eq!(k.constant, "name_");
    assert!(StorageKey::parse_file_name(&k.encoded_file_name()).is_none());
}
