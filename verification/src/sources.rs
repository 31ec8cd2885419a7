//! The scraped sources: their addresses, their cache names, and the small
//! pure helpers the per-source flows share.

use crate::text::str_eq;
use vstd::prelude::*;

verus! {

pub const TODAY_EVENTS_URL: &'static str =
    "https://www.timeout.com/newyork/things-to-do/things-to-do-in-new-york-today";

pub const WEEK_EVENTS_URL: &'static str =
    "https://www.timeout.com/newyork/things-to-do/things-to-do-in-new-york-this-week";

pub const WEEKEND_EVENTS_URL: &'static str =
    "https://www.timeout.com/newyork/things-to-do/things-to-do-in-nyc-this-weekend";

pub const HACKER_NEWS_NEWS_URL: &'static str = "https://news.ycombinator.com/news";

pub const HACKER_NEWS_NEWS_STORAGE_CONSTANT: &'static str = "hacker_news_news";

pub const HACKER_NEWS_JOBS_URL: &'static str = "https://news.ycombinator.com/jobs";

pub const HACKER_NEWS_JOBS_STORAGE_CONSTANT: &'static str = "hacker_news_jobs";

pub const ARMIN_RONACHER_ATOM_FEED_URL: &'static str = "https://lucumr.pocoo.org/feed.atom";

pub const ARMIN_RONACHER_STORAGE_CONSTANT: &'static str = "armin_ronacher";

pub const MDN_SITEMAP_URL: &'static str =
    "https://developer.mozilla.org/sitemaps/en-us/sitemap.xml.gz";

pub const MDN_SITEMAP_STORAGE_CONSTANT: &'static str = "mdn_sitemap";

pub const OPENAI_SITEMAP_URL: &'static str = "https://openai.com/sitemap.xml/page/";

pub const OPENAI_SITEMAP_STORAGE_CONSTANT: &'static str = "openai_sitemap";

pub const GOOGLE_DEVELOPER_BLOGS_SITEMAP_URL: &'static str =
    "https://developers.googleblog.com/sitemap.xml";

pub const GOOGLE_DEVELOPER_BLOGS_STORAGE_CONSTANT: &'static str = "google_developer_blogs";

pub const NOTION_BLOG_SITEMAP_URL: &'static str = "https://www.notion.com/blog/sitemap.xml";

pub const NOTION_BLOG_SITEMAP_STORAGE_CONSTANT: &'static str = "notion_blog";

pub const FIGMA_ENGINEERING_BLOG_URL: &'static str = "https://www.figma.com/blog/engineering";

pub const FIGMA_ENGINEERING_BLOG_STORAGE_CONSTANT: &'static str = "figma_blog";

pub const UBER_ROOT_URL: &'static str = "https://www.uber.com";

pub const UBER_ENGINEERING_BLOG_URL: &'static str =
    "https://www.uber.com/blog/new-york/engineering/page/";

pub const UBER_ENGINEERING_BLOG_STORAGE_CONSTANT: &'static str = "uber_blog";

pub const AWS_ENGINEERING_BLOG_SITEMAP_URL: &'static str =
    "https://aws.amazon.com/sitemaps/sitemap_blogs/";

pub const AWS_ENGINEERING_BLOG_STORAGE_CONSTANT: &'static str = "aws_blog";

pub const IMPERVA_LEARN_APPLICATION_SECURITY_SITEMAP_URL: &'static str =
    "https://www.imperva.com/learn/application_security-sitemap.xml";

pub const IMPERVA_LEARN_DATA_SECURITY_SITEMAP_URL: &'static str =
    "https://www.imperva.com/learn/data_security-sitemap.xml";

pub const IMPERVA_LEARN_DDOS_SITEMAP_URL: &'static str =
    "https://www.imperva.com/learn/ddos-sitemap.xml";

pub const IMPERVA_LEARN_AVAILABILITY_SITEMAP_URL: &'static str =
    "https://www.imperva.com/learn/availability-sitemap.xml";

pub const IMPERVA_LEARN_PERFORMANCE_SITEMAP_URL: &'static str =
    "https://www.imperva.com/learn/performance-sitemap.xml";

/// The cache name of an Imperva sitemap, by its address.
pub open spec fn spec_imperva_cache_constant(url: Seq<char>) -> Seq<char> {
    if url == IMPERVA_LEARN_APPLICATION_SECURITY_SITEMAP_URL@ {
        "imperva-application-security-sitemap"@
    } else if url == IMPERVA_LEARN_AVAILABILITY_SITEMAP_URL@ {
        "imperva-availability-sitemap"@
    } else if url == IMPERVA_LEARN_DATA_SECURITY_SITEMAP_URL@ {
        "imperva-data-security-sitemap"@
    } else if url == IMPERVA_LEARN_DDOS_SITEMAP_URL@ {
        "imperva-ddos-sitemap"@
    } else if url == IMPERVA_LEARN_PERFORMANCE_SITEMAP_URL@ {
        "imperva-performance-sitemap"@
    } else {
        "imperva-sitemap"@
    }
}

pub fn imperva_cache_constant(url: &str) -> (r: String)
    ensures
        r@ == spec_imperva_cache_constant(url@),
{
    if str_eq(url, IMPERVA_LEARN_APPLICATION_SECURITY_SITEMAP_URL) {
        String::from_str("imperva-application-security-sitemap")
    } else if str_eq(url, IMPERVA_LEARN_AVAILABILITY_SITEMAP_URL) {
        String::from_str("imperva-availability-sitemap")
    } else if str_eq(url, IMPERVA_LEARN_DATA_SECURITY_SITEMAP_URL) {
        String::from_str("imperva-data-security-sitemap")
    } else if str_eq(url, IMPERVA_LEARN_DDOS_SITEMAP_URL) {
        String::from_str("imperva-ddos-sitemap")
    } else if str_eq(url, IMPERVA_LEARN_PERFORMANCE_SITEMAP_URL) {
        String::from_str("imperva-performance-sitemap")
    } else {
        String::from_str("imperva-sitemap")
    }
}

/// Which page of a paginated listing to fetch.
pub enum Page {
    First,
    Second,
}

impl Default for Page {
    fn default() -> (r: Page)
        ensures
            r is First,
    {
        Page::First
    }
}

/// The page parameter a listing address is fetched with.
pub open spec fn spec_create_url(url: Seq<char>, page: Page) -> Seq<char> {
    match page {
        Page::First => url + "?p=1"@,
        Page::Second => url + "?p=2"@,
    }
}

pub fn create_url(url: &str, page: Page) -> (r: String)
    ensures
        r@ == spec_create_url(url@, page),
{
    match page {
        Page::First => String::from_str(url).concat("?p=1"),
        Page::Second => String::from_str(url).concat("?p=2"),
    }
}

/// The month's events-calendar address, by month number; an out-of-range
/// month falls back to January's, as the original behavior does.
pub fn current_month_events_url(month: u32) -> (r: &'static str)
    ensures
        r@ == spec_month_events_url(month as int),
{
    if month == 2 {
        "https://www.timeout.com/newyork/events-calendar/february-events-calendar"
    } else if month == 3 {
        "https://www.timeout.com/newyork/events-calendar/march-events-calendar"
    } else if month == 4 {
        "https://www.timeout.com/newyork/events-calendar/april-events-calendar"
    } else if month == 5 {
        "https://www.timeout.com/newyork/events-calendar/may-events-calendar"
    } else if month == 6 {
        "https://www.timeout.com/newyork/events-calendar/june-events-calendar"
    } else if month == 7 {
        "https://www.timeout.com/newyork/events-calendar/july-events-calendar"
    } else if month == 8 {
        "https://www.timeout.com/newyork/events-calendar/august-events-calendar"
    } else if month == 9 {
        "https://www.timeout.com/newyork/events-calendar/september-events-calendar"
    } else if month == 10 {
        "https://www.timeout.com/newyork/events-calendar/october-events-calendar"
    } else if month == 11 {
        "https://www.timeout.com/newyork/events-calendar/november-events-calendar"
    } else if month == 12 {
        "https://www.timeout.com/newyork/events-calendar/december-events-calendar"
    } else {
        "https://www.timeout.com/newyork/events-calendar/january-events-calendar"
    }
}

pub open spec fn spec_month_events_url(month: int) -> Seq<char> {
    if month == 2 {
        "https://www.timeout.com/newyork/events-calendar/february-events-calendar"@
    } else if month == 3 {
        "https://www.timeout.com/newyork/events-calendar/march-events-calendar"@
    } else if month == 4 {
        "https://www.timeout.com/newyork/events-calendar/april-events-calendar"@
    } else if month == 5 {
        "https://www.timeout.com/newyork/events-calendar/may-events-calendar"@
    } else if month == 6 {
        "https://www.timeout.com/newyork/events-calendar/june-events-calendar"@
    } else if month == 7 {
        "https://www.timeout.com/newyork/events-calendar/july-events-calendar"@
    } else if month == 8 {
        "https://www.timeout.com/newyork/events-calendar/august-events-calendar"@
    } else if month == 9 {
        "https://www.timeout.com/newyork/events-calendar/september-events-calendar"@
    } else if month == 10 {
        "https://www.timeout.com/newyork/events-calendar/october-events-calendar"@
    } else if month == 11 {
        "https://www.timeout.com/newyork/events-calendar/november-events-calendar"@
    } else if month == 12 {
        "https://www.timeout.com/newyork/events-calendar/december-events-calendar"@
    } else {
        "https://www.timeout.com/newyork/events-calendar/january-events-calendar"@
    }
}

} // verus!
