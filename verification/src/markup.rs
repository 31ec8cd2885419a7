//! The streaming extraction engine.
//!
//! One reusable push-parsing loop serves every markup-derived source: a
//! handler gets the element-open, text-chunk and element-close events in
//! exact document order and collects its records; the engine itself gives
//! no meaning to element names. Malformed markup ends the run with the
//! byte offset of the fault. The event stream itself comes from quick_xml
//! behind a trusted scanner; everything the engine and the handlers do
//! with it is verified against the fold `run_steps`.

use vstd::prelude::*;

verus! {

/// One step of a markup document, as the engine hands it on.
pub enum MarkupStep {
    /// A start tag, with its element name.
    Open(String),
    /// A decoded text fragment between tags.
    Text(String),
    /// An end tag, with its element name.
    Close(String),
    /// Anything the extraction framework passes over: comments,
    /// declarations, processing instructions, CDATA sections, empty
    /// elements, references.
    Skip,
    /// End of the document.
    End,
    /// Malformed markup, with the byte offset of the fault.
    Fault(u64),
}

/// The mathematical content of a step.
#[verifier::ext_equal]
pub enum StepView {
    Open(Seq<char>),
    Text(Seq<char>),
    Close(Seq<char>),
    Skip,
    End,
    Fault(u64),
}

impl View for MarkupStep {
    type V = StepView;

    open spec fn view(&self) -> StepView {
        match self {
            MarkupStep::Open(n) => StepView::Open(n@),
            MarkupStep::Text(t) => StepView::Text(t@),
            MarkupStep::Close(n) => StepView::Close(n@),
            MarkupStep::Skip => StepView::Skip,
            MarkupStep::End => StepView::End,
            MarkupStep::Fault(p) => StepView::Fault(*p),
        }
    }
}

/// The steps that scanning a document yields, in document order.
pub uninterp spec fn markup_steps(text: Seq<char>) -> Seq<StepView>;

/// The steps a scanner has not yet handed out.
pub uninterp spec fn scanner_steps(s: MarkupScanner) -> Seq<StepView>;

/// A pull cursor over quick_xml's event reader; owns the document bytes.
#[verifier::external_body]
pub struct MarkupScanner {
    inner: quick_xml::Reader<std::io::Cursor<Vec<u8>>>,
    buf: Vec<u8>,
}

/// Relies on quick_xml::Reader::from_reader: a fresh reader stands at the
/// start of the document's event steps, which depend on the text alone.
#[verifier::external_body]
pub fn scanner_new(text: &str) -> (s: MarkupScanner)
    ensures
        scanner_steps(s) == markup_steps(text@),
{
    MarkupScanner {
        inner: quick_xml::Reader::from_reader(std::io::Cursor::new(text.as_bytes().to_vec())),
        buf: Vec::new(),
    }
}

/// Relies on quick_xml::Reader::read_event_into and error_position: each
/// call yields the document's next event in order; start, text and end
/// events carry their name or decoded content; every other event kind is
/// handed over as one step to pass over; after the end of input the reader
/// keeps reporting it.
#[verifier::external_body]
pub fn scanner_next(s: &mut MarkupScanner) -> (r: MarkupStep)
    ensures
        ({
            let steps = scanner_steps(*old(s));
            if steps.len() > 0 {
                r@ == steps[0] && scanner_steps(*final(s)) == steps.subrange(
                    1,
                    steps.len() as int,
                )
            } else {
                r@ == StepView::End && scanner_steps(*final(s)) == steps
            }
        }),
{
    s.buf.clear();
    match s.inner.read_event_into(&mut s.buf) {
        Err(_) => MarkupStep::Fault(s.inner.error_position()),
        Ok(quick_xml::events::Event::Eof) => MarkupStep::End,
        Ok(quick_xml::events::Event::Start(e)) => {
            MarkupStep::Open(String::from(e.name().as_ref()))
        },
        Ok(quick_xml::events::Event::Text(e)) => MarkupStep::Text(String::from(e.as_ref())),
        Ok(quick_xml::events::Event::End(e)) => MarkupStep::Close(String::from(e.name().as_ref())),
        Ok(_) => MarkupStep::Skip,
    }
}

/// Why an extraction run stopped.
#[derive(Clone, Copy, PartialEq, Eq, Structural, Debug)]
pub enum ExtractError {
    /// The markup is malformed at this byte offset.
    Syntax(u64),
    /// A handler refused a field it must be able to read.
    BadField,
}

/// A source-specific handler the extraction engine drives. Each callback
/// carries a spec twin, so that a whole engine run is pinned down as a
/// fold of the twins over the document's steps.
pub trait XMLHandler: Sized + View {
    /// The collection of records the handler hands out at end of input.
    type Out: DeepView;

    /// The spec twin of `start`.
    spec fn spec_start(v: Self::V, name: Seq<char>) -> Result<Self::V, ExtractError>;

    /// The spec twin of `text`.
    spec fn spec_text(v: Self::V, txt: Seq<char>) -> Result<Self::V, ExtractError>;

    /// The spec twin of `end`.
    spec fn spec_end(v: Self::V, name: Seq<char>) -> Result<Self::V, ExtractError>;

    /// The spec twin of `items`.
    spec fn spec_items(v: Self::V) -> <Self::Out as DeepView>::V;

    /// Called for each start tag, in document order.
    fn start(&mut self, name: &str) -> (r: Result<(), ExtractError>)
        ensures
            match Self::spec_start(old(self)@, name@) {
                Ok(v) => r is Ok && final(self)@ == v,
                Err(e) => r == Err::<(), ExtractError>(e),
            },
    ;

    /// Called for each decoded text fragment between tags.
    fn text(&mut self, txt: &str) -> (r: Result<(), ExtractError>)
        ensures
            match Self::spec_text(old(self)@, txt@) {
                Ok(v) => r is Ok && final(self)@ == v,
                Err(e) => r == Err::<(), ExtractError>(e),
            },
    ;

    /// Called for each end tag.
    fn end(&mut self, name: &str) -> (r: Result<(), ExtractError>)
        ensures
            match Self::spec_end(old(self)@, name@) {
                Ok(v) => r is Ok && final(self)@ == v,
                Err(e) => r == Err::<(), ExtractError>(e),
            },
    ;

    /// Called once at end of input; hands the records out.
    fn items(self) -> (r: Self::Out)
        ensures
            r.deep_view() == Self::spec_items(self@),
    ;
}

/// The fold of a handler over a step sequence: steps are fed in order, and
/// the first fault — the document's or the handler's — ends the run.
pub open spec fn run_steps<H: XMLHandler>(steps: Seq<StepView>, v: H::V) -> Result<
    H::V,
    ExtractError,
>
    decreases steps.len(),
{
    if steps.len() == 0 {
        Ok(v)
    } else {
        let rest = steps.subrange(1, steps.len() as int);
        match steps[0] {
            StepView::End => Ok(v),
            StepView::Fault(p) => Err(ExtractError::Syntax(p)),
            StepView::Skip => run_steps::<H>(rest, v),
            StepView::Open(n) => match H::spec_start(v, n) {
                Ok(v2) => run_steps::<H>(rest, v2),
                Err(e) => Err(e),
            },
            StepView::Text(t) => match H::spec_text(v, t) {
                Ok(v2) => run_steps::<H>(rest, v2),
                Err(e) => Err(e),
            },
            StepView::Close(n) => match H::spec_end(v, n) {
                Ok(v2) => run_steps::<H>(rest, v2),
                Err(e) => Err(e),
            },
        }
    }
}

/// Drives a handler over a whole document: elements are visited in exact
/// document order, with no reordering and no lookahead; malformed markup
/// surfaces as a fault carrying the byte offset instead of a partial
/// result.
pub fn parse_xml_with<H: XMLHandler>(xml: &str, handler: H) -> (r: Result<H::Out, ExtractError>)
    ensures
        ({
            let run = run_steps::<H>(markup_steps(xml@), handler@);
            match r {
                Ok(out) => run matches Ok(v) && out.deep_view() == H::spec_items(v),
                Err(e) => run == Err::<H::V, ExtractError>(e),
            }
        }),
{
    let mut sc = scanner_new(xml);
    let mut h = handler;
    loop
        invariant
            run_steps::<H>(markup_steps(xml@), handler@) == run_steps::<H>(
                scanner_steps(sc),
                h@,
            ),
        decreases scanner_steps(sc).len(),
    {
        let step = scanner_next(&mut sc);
        match step {
            MarkupStep::Open(name) => {
                match h.start(name.as_str()) {
                    Ok(()) => {},
                    Err(e) => {
                        return Err(e);
                    },
                }
            },
            MarkupStep::Text(txt) => {
                match h.text(txt.as_str()) {
                    Ok(()) => {},
                    Err(e) => {
                        return Err(e);
                    },
                }
            },
            MarkupStep::Close(name) => {
                match h.end(name.as_str()) {
                    Ok(()) => {},
                    Err(e) => {
                        return Err(e);
                    },
                }
            },
            MarkupStep::Skip => {},
            MarkupStep::End => {
                return Ok(h.items());
            },
            MarkupStep::Fault(p) => {
                return Err(ExtractError::Syntax(p));
            },
        }
    }
}

} // verus!
