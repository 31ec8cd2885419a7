//! The command-line surface, held as plain values. The argument parser
//! itself lives with the I/O layer and converts into these shapes.

use vstd::prelude::*;

verus! {

/// The listing cycle a city-events request asks for.
#[derive(Clone, Copy, PartialEq, Eq, Structural, Debug)]
pub enum TimeOutTimePeriod {
    Today,
    Week,
    Weekend,
    Month,
}

/// The technical-article sources a request can draw from.
#[derive(Clone, Copy, PartialEq, Eq, Structural, Debug)]
pub enum TechnicalArticleSource {
    Aws,
    Figma,
    Google,
    HackernewsNews,
    HackernewsJobs,
    ArminRonacher,
    Mdn,
    Notion,
    Openai,
    Uber,
    ImpervaApplicationSecurity,
    ImpervaAvailability,
    ImpervaDataSecurity,
    ImpervaDdos,
    ImpervaPerformance,
}

/// The socialization subcommands.
pub enum SocialCommand {
    Timeout { period: TimeOutTimePeriod },
    Find { query: String },
}

pub struct SocialArgs {
    pub command: SocialCommand,
}

/// The technical subcommands.
pub enum TechCommand {
    RandomArticle { sources: Vec<TechnicalArticleSource> },
    GitCommit { model: Option<String> },
}

pub struct TechArgs {
    pub command: TechCommand,
}

/// The generation subcommands.
pub enum ToolCommand {
    CoverLetter { model: Option<String> },
    ProfessionalSummary { model: Option<String> },
}

pub struct ToolArgs {
    pub command: ToolCommand,
}

/// The reminder subcommands.
pub enum ReminderCommand {
    List,
}

pub struct ReminderArgs {
    pub command: ReminderCommand,
}

/// The morning-briefing arguments.
pub struct GoodMorningArgs {
    pub model: Option<String>,
}

/// The tool's top-level command.
pub enum Command {
    Weather { postal_code: String, complete: bool },
    TechnicalArticle { sources: Vec<TechnicalArticleSource> },
    NYCEvent { period: TimeOutTimePeriod },
    TestNode,
}

/// The parsed invocation.
pub struct App {
    pub command: Command,
}

/// A news request builder placeholder carried over from the lightweight
/// client.
pub struct NewsCommandFactory {}

impl NewsCommandFactory {
    pub fn new() -> NewsCommandFactory {
        NewsCommandFactory {  }
    }
}

} // verus!
