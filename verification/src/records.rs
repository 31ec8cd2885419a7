//! The typed record every markup source extracts into, and the roster of
//! sources.

use crate::timestamp::Timestamp;
use vstd::prelude::*;

verus! {

/// One extracted item: a title, a location, an optional long text, and
/// optional publication and update instants. Different sources fill a
/// different subset of the fields.
pub struct ScrapedEngineeringItem {
    pub title: String,
    pub url: String,
    pub summary: Option<String>,
    pub published: Option<Timestamp>,
    pub updated: Option<Timestamp>,
}

/// The mathematical content of a record.
#[verifier::ext_equal]
pub struct RecordView {
    pub title: Seq<char>,
    pub url: Seq<char>,
    pub summary: Option<Seq<char>>,
    pub published: Option<Timestamp>,
    pub updated: Option<Timestamp>,
}

/// The record every in-progress extraction starts from.
pub open spec fn empty_record() -> RecordView {
    RecordView {
        title: Seq::empty(),
        url: Seq::empty(),
        summary: None,
        published: None,
        updated: None,
    }
}

impl View for ScrapedEngineeringItem {
    type V = RecordView;

    open spec fn view(&self) -> RecordView {
        RecordView {
            title: self.title@,
            url: self.url@,
            summary: match self.summary {
                Some(s) => Some(s@),
                None => None,
            },
            published: self.published,
            updated: self.updated,
        }
    }
}

impl DeepView for ScrapedEngineeringItem {
    type V = RecordView;

    open spec fn deep_view(&self) -> RecordView {
        self.view()
    }
}

impl Default for ScrapedEngineeringItem {
    /// A record with every field empty or absent.
    fn default() -> (r: ScrapedEngineeringItem)
        ensures
            r@ == empty_record(),
    {
        let r = ScrapedEngineeringItem {
            title: String::new(),
            url: String::new(),
            summary: None,
            published: None,
            updated: None,
        };
        proof {
            assert(r@ =~= empty_record());
        }
        r
    }
}

/// The sites the aggregation layer scrapes.
pub enum ScrapedSites {
    Aws,
    Figma,
    Google,
    Hackernews,
    ArminRonacher,
    Mdn,
    Notion,
    Openai,
    Timeout,
    Uber,
}

} // verus!
