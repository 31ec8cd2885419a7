//! The tool's configuration shapes, held as plain values; reading and
//! deserializing the files lives with the I/O layer.

use vstd::prelude::*;

verus! {

/// Weather lookup settings.
pub struct Weather {
    pub api_key: String,
    pub postal_code: String,
}

/// Calendar access settings.
pub struct GoogleCalender {
    pub credentials_file: String,
}

/// Database connection settings.
pub struct Database {
    pub connection_url: String,
}

/// Where the resume lives and which headings bound its sections.
pub struct Resume {
    pub path: String,
    pub headings: Vec<String>,
}

/// The career flows' settings.
pub struct Career {
    pub resume: Resume,
    pub profile: String,
    pub job: String,
}

/// The whole configuration file.
pub struct Config {
    pub weather: Option<Weather>,
    pub google_calendar: Option<GoogleCalender>,
    pub database: Database,
    pub career: Option<Career>,
}

impl Default for Config {
    /// The stock configuration: nothing optional set, the database local.
    fn default() -> (r: Config)
        ensures
            r.weather is None,
            r.google_calendar is None,
            r.career is None,
            r.database.connection_url@ == "localhost:8000"@,
    {
        Config {
            weather: None,
            google_calendar: None,
            career: None,
            database: Database { connection_url: String::from_str("localhost:8000") },
        }
    }
}

/// The per-service credentials of the lightweight client.
pub struct ApiKeys {
    pub weather: Option<String>,
}

/// The lightweight client's weather settings.
pub struct WeatherConfig {
    pub current_location: Option<String>,
}

/// The lightweight client's whole configuration.
pub struct CliConfig {
    pub api_keys: ApiKeys,
    pub weather: WeatherConfig,
}

impl Default for CliConfig {
    /// The stock configuration: no key, no location.
    fn default() -> (r: CliConfig)
        ensures
            r.api_keys.weather is None,
            r.weather.current_location is None,
    {
        CliConfig {
            api_keys: ApiKeys { weather: None },
            weather: WeatherConfig { current_location: None },
        }
    }
}

} // verus!
