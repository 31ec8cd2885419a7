//! The two handler families every markup source of the aggregator uses:
//! sitemap documents (`<url>` records with `<loc>` and `<lastmod>` fields)
//! and Atom feeds (`<entry>` records with id, title, timestamps and
//! content). A handler tracks what it is currently capturing as an explicit
//! enumerated state, accumulates text fragments, and commits a record when
//! its boundary element closes.

use crate::markup::{run_steps, ExtractError, StepView, XMLHandler};
use crate::records::{empty_record, RecordView, ScrapedEngineeringItem};
use crate::text::{str_eq, trim_text, trimmed};
use crate::timestamp::{
    naive_date_to_utc, parse_rfc3339_utc, parse_utc_text, parse_ymd_date, reference_midnight_utc,
    rfc3339_timestamp, utc_text_timestamp, ymd_date,
};
use vstd::prelude::*;

verus! {

/// What a sitemap handler is currently capturing.
#[derive(Clone, Copy, PartialEq, Eq, Structural, Debug)]
pub enum SitemapField {
    Idle,
    Loc,
    Lastmod,
}

/// How a sitemap writes its `<lastmod>` values.
#[derive(Clone, Copy, PartialEq, Eq, Structural, Debug)]
pub enum LastmodFormat {
    /// The source carries no update instant worth reading.
    Ignored,
    /// A bare `YYYY-MM-DD`, anchored at local midnight of the reference
    /// zone; an unreadable value leaves the field absent.
    LocalDate,
    /// A full RFC 3339 instant; an unreadable value leaves the field
    /// absent.
    Rfc3339,
    /// A full RFC 3339 instant; an unreadable value fails the extraction.
    Rfc3339Required,
    /// The relaxed UTC datetime form; an unreadable value leaves the field
    /// absent.
    UtcText,
}

/// The mathematical state of a sitemap handler.
#[verifier::ext_equal]
pub struct SitemapView {
    pub items: Seq<RecordView>,
    pub current: Option<RecordView>,
    pub target: SitemapField,
    pub text: Seq<char>,
    pub mode: LastmodFormat,
}

/// A record with its update instant read off a lastmod text, by format.
pub open spec fn lastmod_applied(rec: RecordView, mode: LastmodFormat, text: Seq<char>) -> RecordView {
    match mode {
        LastmodFormat::Ignored => rec,
        LastmodFormat::LocalDate => match ymd_date(text) {
            Some(d) => RecordView { updated: Some(reference_midnight_utc(d)), ..rec },
            None => rec,
        },
        LastmodFormat::Rfc3339 => match rfc3339_timestamp(text) {
            Some(t) => RecordView { updated: Some(t), ..rec },
            None => rec,
        },
        LastmodFormat::Rfc3339Required => match rfc3339_timestamp(text) {
            Some(t) => RecordView { updated: Some(t), ..rec },
            None => rec,
        },
        LastmodFormat::UtcText => match utc_text_timestamp(text) {
            Some(t) => RecordView { updated: Some(t), ..rec },
            None => rec,
        },
    }
}

pub open spec fn sitemap_start(v: SitemapView, name: Seq<char>) -> SitemapView {
    if name == "url"@ {
        SitemapView { current: Some(empty_record()), ..v }
    } else if name == "loc"@ {
        SitemapView { target: SitemapField::Loc, text: Seq::empty(), ..v }
    } else if name == "lastmod"@ && v.mode != LastmodFormat::Ignored {
        SitemapView { target: SitemapField::Lastmod, text: Seq::empty(), ..v }
    } else {
        v
    }
}

pub open spec fn sitemap_text(v: SitemapView, txt: Seq<char>) -> SitemapView {
    if v.target != SitemapField::Idle {
        SitemapView { text: v.text + trimmed(txt), ..v }
    } else {
        v
    }
}

pub open spec fn sitemap_end(v: SitemapView, name: Seq<char>) -> Result<SitemapView, ExtractError> {
    if name == "url"@ {
        Ok(
            match v.current {
                Some(rec) => SitemapView { items: v.items.push(rec), current: None, ..v },
                None => v,
            },
        )
    } else if name == "loc"@ || (name == "lastmod"@ && v.mode != LastmodFormat::Ignored) {
        if v.current is Some && v.target == SitemapField::Lastmod && v.mode
            == LastmodFormat::Rfc3339Required && rfc3339_timestamp(v.text) is None {
            Err(ExtractError::BadField)
        } else {
            let current = match v.current {
                Some(rec) => Some(
                    match v.target {
                        SitemapField::Loc => RecordView { url: v.text, ..rec },
                        SitemapField::Lastmod => lastmod_applied(rec, v.mode, v.text),
                        SitemapField::Idle => rec,
                    },
                ),
                None => None,
            };
            Ok(SitemapView { current, target: SitemapField::Idle, text: Seq::empty(), ..v })
        }
    } else {
        Ok(v)
    }
}

/// The sitemap handler: `<url>` bounds a record, `<loc>` fills its
/// location, `<lastmod>` its update instant in the source's format.
pub struct SitemapHandler {
    items: Vec<ScrapedEngineeringItem>,
    current: Option<ScrapedEngineeringItem>,
    target: SitemapField,
    text: String,
    mode: LastmodFormat,
}

impl View for SitemapHandler {
    type V = SitemapView;

    closed spec fn view(&self) -> SitemapView {
        SitemapView {
            items: self.items.deep_view(),
            current: match self.current {
                Some(ref r) => Some(r@),
                None => None,
            },
            target: self.target,
            text: self.text@,
            mode: self.mode,
        }
    }
}

/// A sitemap handler before any input.
pub open spec fn initial_sitemap(mode: LastmodFormat) -> SitemapView {
    SitemapView {
        items: Seq::empty(),
        current: None,
        target: SitemapField::Idle,
        text: Seq::empty(),
        mode,
    }
}

impl SitemapHandler {
    pub fn new(mode: LastmodFormat) -> (h: SitemapHandler)
        ensures
            h@ == initial_sitemap(mode),
    {
        let h = SitemapHandler {
            items: Vec::new(),
            current: None,
            target: SitemapField::Idle,
            text: String::new(),
            mode,
        };
        proof {
            assert(h@ =~= initial_sitemap(mode));
        }
        h
    }
}

impl XMLHandler for SitemapHandler {
    type Out = Vec<ScrapedEngineeringItem>;

    open spec fn spec_start(v: SitemapView, name: Seq<char>) -> Result<SitemapView, ExtractError> {
        Ok(sitemap_start(v, name))
    }

    open spec fn spec_text(v: SitemapView, txt: Seq<char>) -> Result<SitemapView, ExtractError> {
        Ok(sitemap_text(v, txt))
    }

    open spec fn spec_end(v: SitemapView, name: Seq<char>) -> Result<SitemapView, ExtractError> {
        sitemap_end(v, name)
    }

    open spec fn spec_items(v: SitemapView) -> Seq<RecordView> {
        v.items
    }

    fn start(&mut self, name: &str) -> (r: Result<(), ExtractError>) {
        if str_eq(name, "url") {
            self.current = Some(ScrapedEngineeringItem::default());
        } else if str_eq(name, "loc") {
            self.target = SitemapField::Loc;
            self.text = String::new();
        } else if str_eq(name, "lastmod") && !(self.mode == LastmodFormat::Ignored) {
            self.target = SitemapField::Lastmod;
            self.text = String::new();
        }
        proof {
            assert(self@ =~= sitemap_start(old(self)@, name@));
        }
        Ok(())
    }

    fn text(&mut self, txt: &str) -> (r: Result<(), ExtractError>) {
        if !(self.target == SitemapField::Idle) {
            self.text.append(trim_text(txt));
        }
        proof {
            assert(self@ =~= sitemap_text(old(self)@, txt@));
        }
        Ok(())
    }

    fn end(&mut self, name: &str) -> (r: Result<(), ExtractError>) {
        if str_eq(name, "url") {
            let mut cur: Option<ScrapedEngineeringItem> = None;
            core::mem::swap(&mut cur, &mut self.current);
            match cur {
                Some(rec) => {
                    self.items.push(rec);
                },
                None => {},
            }
            proof {
                assert(self@ =~= sitemap_end(old(self)@, name@)->Ok_0);
            }
            return Ok(());
        }
        let is_loc = str_eq(name, "loc");
        let is_lastmod = str_eq(name, "lastmod") && !(self.mode == LastmodFormat::Ignored);
        if is_loc || is_lastmod {
            match &mut self.current {
                Some(rec) => {
                    match self.target {
                        SitemapField::Loc => {
                            rec.url = self.text.clone();
                        },
                        SitemapField::Lastmod => {
                            match self.mode {
                                LastmodFormat::Ignored => {},
                                LastmodFormat::LocalDate => {
                                    match parse_ymd_date(self.text.as_str()) {
                                        Some(d) => {
                                            rec.updated = Some(naive_date_to_utc(&d));
                                        },
                                        None => {},
                                    }
                                },
                                LastmodFormat::Rfc3339 => {
                                    match parse_rfc3339_utc(self.text.as_str()) {
                                        Some(t) => {
                                            rec.updated = Some(t);
                                        },
                                        None => {},
                                    }
                                },
                                LastmodFormat::Rfc3339Required => {
                                    match parse_rfc3339_utc(self.text.as_str()) {
                                        Some(t) => {
                                            rec.updated = Some(t);
                                        },
                                        None => {
                                            return Err(ExtractError::BadField);
                                        },
                                    }
                                },
                                LastmodFormat::UtcText => {
                                    match parse_utc_text(self.text.as_str()) {
                                        Some(t) => {
                                            rec.updated = Some(t);
                                        },
                                        None => {},
                                    }
                                },
                            }
                        },
                        SitemapField::Idle => {},
                    }
                },
                None => {},
            }
            self.target = SitemapField::Idle;
            self.text = String::new();
            proof {
                assert(self@ =~= sitemap_end(old(self)@, name@)->Ok_0);
            }
            return Ok(());
        }
        Ok(())
    }

    fn items(self) -> (r: Vec<ScrapedEngineeringItem>) {
        self.items
    }
}

/// Parses a sitemap document into its records, the update instants read in
/// the given format.
pub fn parse_sitemap(xml: &str, mode: LastmodFormat) -> (r: Result<
    Vec<ScrapedEngineeringItem>,
    ExtractError,
>)
    ensures
        ({
            let run = run_steps::<SitemapHandler>(
                crate::markup::markup_steps(xml@),
                initial_sitemap(mode),
            );
            match r {
                Ok(out) => run matches Ok(v) && out.deep_view() == v.items,
                Err(e) => run == Err::<SitemapView, ExtractError>(e),
            }
        }),
{
    crate::markup::parse_xml_with(xml, SitemapHandler::new(mode))
}

// ---------------------------------------------------------------------------
// The Atom feed handler
// ---------------------------------------------------------------------------
/// What an Atom feed handler is currently capturing.
#[derive(Clone, Copy, PartialEq, Eq, Structural, Debug)]
pub enum AtomField {
    Idle,
    Id,
    Title,
    Published,
    Updated,
    Content,
}

/// The mathematical state of an Atom feed handler.
#[verifier::ext_equal]
pub struct AtomView {
    pub items: Seq<RecordView>,
    pub current: Option<RecordView>,
    pub target: AtomField,
    pub text: Seq<char>,
}

pub open spec fn atom_target_of(name: Seq<char>) -> AtomField {
    if name == "id"@ {
        AtomField::Id
    } else if name == "title"@ {
        AtomField::Title
    } else if name == "published"@ {
        AtomField::Published
    } else if name == "updated"@ {
        AtomField::Updated
    } else {
        AtomField::Content
    }
}

pub open spec fn atom_field_name(name: Seq<char>) -> bool {
    name == "id"@ || name == "title"@ || name == "published"@ || name == "updated"@ || name
        == "content"@
}

pub open spec fn atom_start(v: AtomView, name: Seq<char>) -> AtomView {
    if name == "entry"@ {
        AtomView { current: Some(empty_record()), ..v }
    } else if atom_field_name(name) {
        AtomView { target: atom_target_of(name), text: Seq::empty(), ..v }
    } else {
        v
    }
}

pub open spec fn atom_text(v: AtomView, txt: Seq<char>) -> AtomView {
    if v.target != AtomField::Idle {
        AtomView { text: v.text + trimmed(txt), ..v }
    } else {
        v
    }
}

/// A record with the captured field assigned from the accumulated text.
pub open spec fn atom_field_applied(rec: RecordView, target: AtomField, text: Seq<char>) -> RecordView {
    match target {
        AtomField::Idle => rec,
        AtomField::Id => RecordView { url: text, ..rec },
        AtomField::Title => RecordView { title: text, ..rec },
        AtomField::Published => match rfc3339_timestamp(text) {
            Some(t) => RecordView { published: Some(t), ..rec },
            None => rec,
        },
        AtomField::Updated => match rfc3339_timestamp(text) {
            Some(t) => RecordView { updated: Some(t), ..rec },
            None => rec,
        },
        AtomField::Content => RecordView { summary: Some(text), ..rec },
    }
}

pub open spec fn atom_end(v: AtomView, name: Seq<char>) -> AtomView {
    if name == "entry"@ {
        match v.current {
            Some(rec) => AtomView { items: v.items.push(rec), current: None, ..v },
            None => v,
        }
    } else if atom_field_name(name) {
        let current = match v.current {
            Some(rec) => Some(atom_field_applied(rec, v.target, v.text)),
            None => None,
        };
        AtomView { current, target: AtomField::Idle, text: Seq::empty(), ..v }
    } else {
        v
    }
}

/// The Atom feed handler: `<entry>` bounds a record; id, title, published,
/// updated and content fill its fields.
pub struct AtomFeedHandler {
    items: Vec<ScrapedEngineeringItem>,
    current: Option<ScrapedEngineeringItem>,
    target: AtomField,
    text: String,
}

impl View for AtomFeedHandler {
    type V = AtomView;

    closed spec fn view(&self) -> AtomView {
        AtomView {
            items: self.items.deep_view(),
            current: match self.current {
                Some(ref r) => Some(r@),
                None => None,
            },
            target: self.target,
            text: self.text@,
        }
    }
}

/// An Atom feed handler before any input.
pub open spec fn initial_atom() -> AtomView {
    AtomView { items: Seq::empty(), current: None, target: AtomField::Idle, text: Seq::empty() }
}

impl AtomFeedHandler {
    pub fn new() -> (h: AtomFeedHandler)
        ensures
            h@ == initial_atom(),
    {
        let h = AtomFeedHandler {
            items: Vec::new(),
            current: None,
            target: AtomField::Idle,
            text: String::new(),
        };
        proof {
            assert(h@ =~= initial_atom());
        }
        h
    }
}

impl XMLHandler for AtomFeedHandler {
    type Out = Vec<ScrapedEngineeringItem>;

    open spec fn spec_start(v: AtomView, name: Seq<char>) -> Result<AtomView, ExtractError> {
        Ok(atom_start(v, name))
    }

    open spec fn spec_text(v: AtomView, txt: Seq<char>) -> Result<AtomView, ExtractError> {
        Ok(atom_text(v, txt))
    }

    open spec fn spec_end(v: AtomView, name: Seq<char>) -> Result<AtomView, ExtractError> {
        Ok(atom_end(v, name))
    }

    open spec fn spec_items(v: AtomView) -> Seq<RecordView> {
        v.items
    }

    fn start(&mut self, name: &str) -> (r: Result<(), ExtractError>) {
        if str_eq(name, "entry") {
            self.current = Some(ScrapedEngineeringItem::default());
        } else if str_eq(name, "id") {
            self.target = AtomField::Id;
            self.text = String::new();
        } else if str_eq(name, "title") {
            self.target = AtomField::Title;
            self.text = String::new();
        } else if str_eq(name, "published") {
            self.target = AtomField::Published;
            self.text = String::new();
        } else if str_eq(name, "updated") {
            self.target = AtomField::Updated;
            self.text = String::new();
        } else if str_eq(name, "content") {
            self.target = AtomField::Content;
            self.text = String::new();
        }
        proof {
            assert(self@ =~= atom_start(old(self)@, name@));
        }
        Ok(())
    }

    fn text(&mut self, txt: &str) -> (r: Result<(), ExtractError>) {
        if !(self.target == AtomField::Idle) {
            self.text.append(trim_text(txt));
        }
        proof {
            assert(self@ =~= atom_text(old(self)@, txt@));
        }
        Ok(())
    }

    fn end(&mut self, name: &str) -> (r: Result<(), ExtractError>) {
        if str_eq(name, "entry") {
            let mut cur: Option<ScrapedEngineeringItem> = None;
            core::mem::swap(&mut cur, &mut self.current);
            match cur {
                Some(rec) => {
                    self.items.push(rec);
                },
                None => {},
            }
            proof {
                assert(self@ =~= atom_end(old(self)@, name@));
            }
            return Ok(());
        }
        let is_field = str_eq(name, "id") || str_eq(name, "title") || str_eq(name, "published")
            || str_eq(name, "updated") || str_eq(name, "content");
        if is_field {
            match &mut self.current {
                Some(rec) => {
                    match self.target {
                        AtomField::Idle => {},
                        AtomField::Id => {
                            rec.url = self.text.clone();
                        },
                        AtomField::Title => {
                            rec.title = self.text.clone();
                        },
                        AtomField::Published => {
                            match parse_rfc3339_utc(self.text.as_str()) {
                                Some(t) => {
                                    rec.published = Some(t);
                                },
                                None => {},
                            }
                        },
                        AtomField::Updated => {
                            match parse_rfc3339_utc(self.text.as_str()) {
                                Some(t) => {
                                    rec.updated = Some(t);
                                },
                                None => {},
                            }
                        },
                        AtomField::Content => {
                            rec.summary = Some(self.text.clone());
                        },
                    }
                },
                None => {},
            }
            self.target = AtomField::Idle;
            self.text = String::new();
            proof {
                assert(self@ =~= atom_end(old(self)@, name@));
            }
            return Ok(());
        }
        Ok(())
    }

    fn items(self) -> (r: Vec<ScrapedEngineeringItem>) {
        self.items
    }
}

/// Parses an Atom feed into its entries.
pub fn parse_atom_feed(xml: &str) -> (r: Result<Vec<ScrapedEngineeringItem>, ExtractError>)
    ensures
        ({
            let run = run_steps::<AtomFeedHandler>(crate::markup::markup_steps(xml@), initial_atom());
            match r {
                Ok(out) => run matches Ok(v) && out.deep_view() == v.items,
                Err(e) => run == Err::<AtomView, ExtractError>(e),
            }
        }),
{
    crate::markup::parse_xml_with(xml, AtomFeedHandler::new())
}

// ---------------------------------------------------------------------------
// Order preservation
// ---------------------------------------------------------------------------
/// Steps that neither end the document nor fault.
pub open spec fn terminal_free(steps: Seq<StepView>) -> bool {
    forall|i: int|
        0 <= i < steps.len() ==> !((#[trigger] steps[i]) is End || steps[i] is Fault)
}

/// Running a handler over concatenated steps runs it over the parts in
/// turn, as long as the first part neither ends the document nor fails.
pub proof fn lemma_run_steps_append<H: XMLHandler>(s1: Seq<StepView>, s2: Seq<StepView>, v: H::V)
    requires
        terminal_free(s1),
        run_steps::<H>(s1, v) is Ok,
    ensures
        run_steps::<H>(s1 + s2, v) == run_steps::<H>(s2, run_steps::<H>(s1, v)->Ok_0),
    decreases s1.len(),
{
    if s1.len() == 0 {
        assert(s1 + s2 =~= s2);
    } else {
        let rest1 = s1.subrange(1, s1.len() as int);
        assert((s1 + s2).len() == s1.len() + s2.len());
        assert((s1 + s2)[0] == s1[0]);
        assert((s1 + s2).subrange(1, (s1 + s2).len() as int) =~= rest1 + s2);
        assert(terminal_free(rest1)) by {
            assert(forall|i: int| 0 <= i < rest1.len() ==> rest1[i] == s1[i + 1]);
        }
        match s1[0] {
            StepView::Skip => {
                lemma_run_steps_append::<H>(rest1, s2, v);
            },
            StepView::Open(n) => {
                let v2 = H::spec_start(v, n)->Ok_0;
                lemma_run_steps_append::<H>(rest1, s2, v2);
            },
            StepView::Text(t) => {
                let v2 = H::spec_text(v, t)->Ok_0;
                lemma_run_steps_append::<H>(rest1, s2, v2);
            },
            StepView::Close(n) => {
                let v2 = H::spec_end(v, n)->Ok_0;
                lemma_run_steps_append::<H>(rest1, s2, v2);
            },
            StepView::End => {
                assert(false);
            },
            StepView::Fault(_) => {
                assert(false);
            },
        }
    }
}

/// A sitemap handler state between two records: nothing in progress,
/// nothing being captured.
pub open spec fn between_state(items: Seq<RecordView>, mode: LastmodFormat) -> SitemapView {
    SitemapView {
        items,
        current: None,
        target: SitemapField::Idle,
        text: Seq::empty(),
        mode,
    }
}

/// A block of steps that, run from any between-records state of this mode,
/// commits exactly the given record and returns between records.
pub open spec fn commits_record(block: Seq<StepView>, rec: RecordView, mode: LastmodFormat) -> bool {
    forall|items: Seq<RecordView>|
        #[trigger] run_steps::<SitemapHandler>(block, between_state(items, mode)) == Ok::<
            SitemapView,
            ExtractError,
        >(between_state(items.push(rec), mode))
}

/// Extraction order preservation: a document made of three record blocks
/// standing in that order yields exactly those three records, in the same
/// order.
pub proof fn lemma_extraction_order(
    b1: Seq<StepView>,
    b2: Seq<StepView>,
    b3: Seq<StepView>,
    r1: RecordView,
    r2: RecordView,
    r3: RecordView,
    mode: LastmodFormat,
)
    requires
        terminal_free(b1),
        terminal_free(b2),
        commits_record(b1, r1, mode),
        commits_record(b2, r2, mode),
        commits_record(b3, r3, mode),
    ensures
        run_steps::<SitemapHandler>(b1 + b2 + b3, initial_sitemap(mode)) == Ok::<
            SitemapView,
            ExtractError,
        >(between_state(seq![r1, r2, r3], mode)),
{
    let e = Seq::<RecordView>::empty();
    assert(initial_sitemap(mode) =~= between_state(e, mode));
    assert(run_steps::<SitemapHandler>(b1, between_state(e, mode)) == Ok::<
        SitemapView,
        ExtractError,
    >(between_state(e.push(r1), mode)));
    lemma_run_steps_append::<SitemapHandler>(b1, b2 + b3, between_state(e, mode));
    assert(b1 + (b2 + b3) =~= b1 + b2 + b3);
    assert(run_steps::<SitemapHandler>(b2, between_state(e.push(r1), mode)) == Ok::<
        SitemapView,
        ExtractError,
    >(between_state(e.push(r1).push(r2), mode)));
    lemma_run_steps_append::<SitemapHandler>(b2, b3, between_state(e.push(r1), mode));
    assert(run_steps::<SitemapHandler>(b3, between_state(e.push(r1).push(r2), mode)) == Ok::<
        SitemapView,
        ExtractError,
    >(between_state(e.push(r1).push(r2).push(r3), mode)));
    assert(e.push(r1).push(r2).push(r3) =~= seq![r1, r2, r3]);
    assert(between_state(e.push(r1).push(r2).push(r3), mode) =~= between_state(
        seq![r1, r2, r3],
        mode,
    ));
}

} // verus!
