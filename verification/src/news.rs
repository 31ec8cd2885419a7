//! The news service's request and response shapes, held as plain values.
//! The serialized forms live with the I/O layer; the library only carries
//! the data.

use vstd::prelude::*;

verus! {

/// The error object the news service returns in place of a status.
pub struct ErrorCode {
    pub code: u32,
    pub message: String,
}

/// A response status: plain success, or the service's error object.
pub enum Status {
    Okay,
    Error(ErrorCode),
}

pub enum Country {
    USA,
    Mexico,
}

pub enum Category {
    Business,
    Entertainment,
    General,
    Health,
    Science,
    Sports,
    Technology,
}

pub enum Language {
    English,
    Spanish,
}

impl Country {
    /// The code the service spells this country as.
    pub fn code(&self) -> (r: &'static str)
        ensures
            match self {
                Country::USA => r@ == "us"@,
                Country::Mexico => r@ == "mx"@,
            },
    {
        match self {
            Country::USA => "us",
            Country::Mexico => "mx",
        }
    }
}

impl Category {
    /// The name the service spells this category as.
    pub fn code(&self) -> (r: &'static str)
        ensures
            match self {
                Category::Business => r@ == "business"@,
                Category::Entertainment => r@ == "entertainment"@,
                Category::General => r@ == "general"@,
                Category::Health => r@ == "health"@,
                Category::Science => r@ == "science"@,
                Category::Sports => r@ == "sports"@,
                Category::Technology => r@ == "technology"@,
            },
    {
        match self {
            Category::Business => "business",
            Category::Entertainment => "entertainment",
            Category::General => "general",
            Category::Health => "health",
            Category::Science => "science",
            Category::Sports => "sports",
            Category::Technology => "technology",
        }
    }
}

impl Language {
    /// The code the service spells this language as.
    pub fn code(&self) -> (r: &'static str)
        ensures
            match self {
                Language::English => r@ == "en"@,
                Language::Spanish => r@ == "es"@,
            },
    {
        match self {
            Language::English => "en",
            Language::Spanish => "es",
        }
    }
}

/// One news source, as the sources listing returns it.
pub struct Source {
    pub id: String,
    pub name: String,
    pub description: String,
    pub url: String,
    pub category: Category,
    pub language: Language,
    pub country: Country,
}

pub struct ResponseSources {
    pub status: Status,
    pub sources: Vec<Source>,
}

pub struct SimpleSource {
    pub id: String,
    pub name: String,
}

/// One article of a headlines response.
pub struct Article {
    pub source: SimpleSource,
    pub author: Option<String>,
    pub title: Option<String>,
    pub description: Option<String>,
    pub url: Option<String>,
    pub url_to_image: Option<String>,
    pub published_at: Option<String>,
    pub content: Option<String>,
}

pub struct ResponseTopHeadlines {
    pub status: Status,
    pub total_results: u32,
    pub articles: Vec<Article>,
}

/// The query shape of the sources listing.
pub struct HeadlineSourceUrl {
    pub api_key: String,
    pub country: Option<Country>,
    pub language: Option<Language>,
    pub category: Option<Category>,
}

/// The query shape of the top-headlines listing.
pub struct TopHeadlinesUrl {
    pub api_key: String,
    pub country: Option<Country>,
    pub category: Option<Category>,
    pub sources: Option<Vec<String>>,
    pub query: Option<String>,
    pub page_size: Option<u32>,
    pub page: Option<u32>,
}

/// The query shape of the realtime weather endpoint.
pub struct RealtimeWeatherApiUrl {
    pub api_key: String,
    pub postal_code: String,
    pub units: Option<String>,
}

} // verus!
