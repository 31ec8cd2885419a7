//! The extraction framework exercised on real document shapes: the sitemap
//! and feed fixtures of the scraped sources, order preservation, and the
//! failure paths.

use daily_bugle::handlers::{parse_atom_feed, parse_sitemap, LastmodFormat};
use daily_bugle::markup::ExtractError;
use daily_bugle::timestamp::{naive_date_to_utc, parse_rfc3339_utc, parse_utc_text, parse_ymd_date};

#[test]
fn google_test_parse_xml_urls() {
    let xml = r#"<url>
<loc>https://developers.googleblog.com/en/</loc>
<lastmod>2025-10-02</lastmod>
</url>
<url>
<loc>https://developers.googleblog.com/en/join-us-online-from-23-27-october-for-passkeys-week/</loc>
<lastmod>2024-04-30</lastmod>
</url>
<url>
<loc>https://developers.googleblog.com/en/people-of-ai-season-2/</loc>
<lastmod>2024-03-22</lastmod>
</url>
<url>
<loc>https://developers.googleblog.com/en/save-the-date-for-firebases-first-demo-day/</loc>
<lastmod>2024-04-30</lastmod>
</url>
<url>
<loc>https://developers.googleblog.com/en/how-machine-learning-gde-henry-ruiz-is-inspired-by-resilience-in-his-community/</loc>
<lastmod>2024-03-22</lastmod>
</url>
<url>
<loc>https://developers.googleblog.com/en/mediapipe-on-device-text-to-image-generation-solution-now-available-for-android-developers/</loc>
<lastmod>2024-03-22</lastmod>
</url>"#;
    let entries = parse_sitemap(xml, LastmodFormat::LocalDate).expect("Failed to parse xml content");
    assert_eq!(entries.len(), 6);
    let first = entries.first().unwrap();
    assert_eq!(first.url, "https://developers.googleblog.com/en/");
    assert!(first.updated.is_some());
    let last = entries.last().unwrap();
    assert_eq!(
        last.url,
        "https://developers.googleblog.com/en/mediapipe-on-device-text-to-image-generation-solution-now-available-for-android-developers/"
    );
    assert_eq!(
        last.updated,
        Some(naive_date_to_utc(
            &parse_ymd_date("2024-03-22").unwrap()
        ))
    )
}

#[test]
fn mdn_test_parse_xml_urls() {
    let xml = r#"<url>
        <loc>https://developer.mozilla.org/en-US/</loc>
        </url>
        <url>
        <loc>https://developer.mozilla.org/en-US/docs/Games/Publishing_games/Game_promotion</loc>
        <lastmod>2025-07-11</lastmod>
        </url>
        <url>
        <loc>https://developer.mozilla.org/en-US/docs/Games/Techniques</loc>
        <lastmod>2025-07-11</lastmod>
        </url>
        <url>
        <loc>https://developer.mozilla.org/en-US/docs/Games/Techniques/2D_collision_detection</loc>
        <lastmod>2025-07-11</lastmod>
        </url>"#;
    let entries = parse_sitemap(xml, LastmodFormat::LocalDate).expect("Failed to parse xml content");
    assert_eq!(entries.len(), 4);
    let first = entries.first().unwrap();
    assert_eq!(first.url, "https://developer.mozilla.org/en-US/");
    assert!(first.updated.is_none());
    let last = entries.last().unwrap();
    assert_eq!(
        last.url,
        "https://developer.mozilla.org/en-US/docs/Games/Techniques/2D_collision_detection"
    );
    assert_eq!(
        last.updated,
        Some(naive_date_to_utc(
            &parse_ymd_date("2025-07-11").unwrap()
        ))
    )
}

#[test]
fn notion_test_parse_xml() {
    let xml = r#"
        <url>
<loc>https://www.notion.com/blog/ai-art-prompts</loc>
<lastmod>2024-10-06T20:22:23.809Z</lastmod>
<changefreq>yearly</changefreq>
<priority>0.4</priority>
</url>
<url>
<loc>https://www.notion.com/blog/its-national-coffee-day-grab-a-cup-and-some-templates</loc>
<lastmod>2024-09-30T22:58:45.507Z</lastmod>
<changefreq>yearly</changefreq>
<priority>0.4</priority>
</url>
<url>
<loc>https://www.notion.com/blog/how-i-learned-to-stop-worrying-and-love-ai</loc>
<lastmod>2024-09-30T16:53:29.263Z</lastmod>
<changefreq>yearly</changefreq>
<priority>0.4</priority>
</url>"#;
    let entries = parse_sitemap(xml, LastmodFormat::UtcText).expect("Failed to parse xml content");
    assert_eq!(entries.len(), 3);
    let first = entries.first().unwrap();
    assert_eq!(first.url, "https://www.notion.com/blog/ai-art-prompts");
    assert!(first.updated.is_some());
}

#[test]
fn openai_test_parse_xml() {
    let xml = r#"
        <url>
        <loc>https://openai.com/index/introducing-chatgpt-atlas/</loc>
        <lastmod>2025-10-21T21:14:43.217Z</lastmod>
        </url>
        <url >
        <loc>https://openai.com/chatgpt/pricing/</loc>
        <lastmod>2025-10-21T21:03:39.390Z</lastmod>
        </url>"#;
    let entries = parse_sitemap(xml, LastmodFormat::Rfc3339).expect("Failed to parse xml content");
    assert_eq!(entries.len(), 2);
    let first = entries.first().unwrap();
    assert_eq!(
        first.url,
        "https://openai.com/index/introducing-chatgpt-atlas/"
    );
    assert!(first.updated.is_some());
}

#[test]
fn extraction_preserves_document_order() {
    let xml = r#"<url><loc>https://example.org/a</loc></url>
<url><loc>https://example.org/b</loc></url>
<url><loc>https://example.org/c</loc></url>"#;
    let entries = parse_sitemap(xml, LastmodFormat::Ignored).expect("Failed to parse xml content");
    assert_eq!(entries.len(), 3);
    assert_eq!(entries[0].url, "https://example.org/a");
    assert_eq!(entries[1].url, "https://example.org/b");
    assert_eq!(entries[2].url, "https://example.org/c");
}

#[test]
fn strict_lastmod_fails_on_bad_date() {
    let xml = r#"<url><loc>https://example.org/a</loc><lastmod>not-a-date</lastmod></url>"#;
    let r = parse_sitemap(xml, LastmodFormat::Rfc3339Required);
    assert!(matches!(r, Err(ExtractError::BadField)));
    // The forgiving format keeps the record and drops the field instead.
    let entries = parse_sitemap(xml, LastmodFormat::Rfc3339).unwrap();
    assert_eq!(entries.len(), 1);
    assert!(entries[0].updated.is_none());
}

#[test]
fn malformed_markup_reports_offset() {
    let xml = "<url><loc>https://example.org/a</loc></wrong>";
    let r = parse_sitemap(xml, LastmodFormat::Ignored);
    assert!(matches!(r, Err(ExtractError::Syntax(_))));
}

#[test]
fn sitemap_accumulates_split_text() {
    // One logical value can arrive as several decoded fragments around a
    // skipped construct; the handler joins them.
    let xml = "<url><loc>https://example.org/x<!-- note -->y</loc></url>";
    let entries = parse_sitemap(xml, LastmodFormat::Ignored).unwrap();
    assert_eq!(entries.len(), 1);
    assert_eq!(entries[0].url, "https://example.org/xy");
}

#[test]
fn date_wrappers_read_expected_fields() {
    let d = parse_ymd_date("2024-03-22").unwrap();
    assert_eq!((d.year, d.month, d.day), (2024, 3, 22));
    assert!(parse_ymd_date("2024-13-22").is_none());
    assert!(parse_ymd_date("tomorrow").is_none());

    let t = parse_rfc3339_utc("2025-10-03T17:05:00-04:00").unwrap();
    assert_eq!(
        (t.year, t.month, t.day, t.hour, t.minute, t.second),
        (2025, 10, 3, 21, 5, 0)
    );
    assert!(parse_rfc3339_utc("2025-10-03").is_none());

    let u = parse_utc_text("2024-10-06T20:22:23.809Z").unwrap();
    assert_eq!((u.year, u.month, u.day, u.hour), (2024, 10, 6, 20));

    // Midnight in the reference zone falls in the early morning of the
    // same date in UTC.
    let m = naive_date_to_utc(&parse_ymd_date("2024-03-22").unwrap());
    assert_eq!((m.year, m.month, m.day), (2024, 3, 22));
    assert_eq!((m.hour, m.minute, m.second), (4, 0, 0));
    let w = naive_date_to_utc(&parse_ymd_date("2024-01-15").unwrap());
    assert_eq!(w.hour, 5);
}
