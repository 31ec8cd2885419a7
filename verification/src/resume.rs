//! A parsed resume: an optional name and a list of headed sections, with
//! the exact text rendering the cover-letter flow feeds to its language
//! model.

use vstd::prelude::*;

verus! {

/// One section of a resume: an optional heading and its paragraphs.
pub struct Section {
    pub heading: Option<String>,
    pub content: Vec<String>,
}

#[verifier::ext_equal]
pub struct SectionView {
    pub heading: Option<Seq<char>>,
    pub content: Seq<Seq<char>>,
}

impl View for Section {
    type V = SectionView;

    open spec fn view(&self) -> SectionView {
        SectionView {
            heading: match self.heading {
                Some(ref h) => Some(h@),
                None => None,
            },
            content: self.content.deep_view(),
        }
    }
}

impl DeepView for Section {
    type V = SectionView;

    open spec fn deep_view(&self) -> SectionView {
        self.view()
    }
}

/// A parsed resume.
pub struct Resume {
    pub name: Option<String>,
    pub sections: Vec<Section>,
}

#[verifier::ext_equal]
pub struct ResumeView {
    pub name: Option<Seq<char>>,
    pub sections: Seq<SectionView>,
}

impl View for Resume {
    type V = ResumeView;

    open spec fn view(&self) -> ResumeView {
        ResumeView {
            name: match self.name {
                Some(ref n) => Some(n@),
                None => None,
            },
            sections: self.sections.deep_view(),
        }
    }
}

/// Paragraph lines, each closed by a newline.
pub open spec fn lines_text(ls: Seq<Seq<char>>) -> Seq<char>
    decreases ls.len(),
{
    if ls.len() == 0 {
        Seq::empty()
    } else {
        lines_text(ls.drop_last()) + ls.last() + "\n"@
    }
}

/// One section's rendering: the heading line if there is one, the
/// paragraphs, and a blank line.
pub open spec fn section_text(s: SectionView) -> Seq<char> {
    (match s.heading {
        Some(h) => h + "\n"@,
        None => Seq::empty(),
    }) + lines_text(s.content) + "\n"@
}

pub open spec fn sections_text(ss: Seq<SectionView>) -> Seq<char>
    decreases ss.len(),
{
    if ss.len() == 0 {
        Seq::empty()
    } else {
        sections_text(ss.drop_last()) + section_text(ss.last())
    }
}

/// The whole rendering: the name line and a blank line when a name is
/// there, then the sections.
pub open spec fn resume_text(r: ResumeView) -> Seq<char> {
    (match r.name {
        Some(n) => "Name: "@ + n + "\n\n"@,
        None => Seq::empty(),
    }) + sections_text(r.sections)
}

impl Resume {
    /// Renders the resume as the one flat text handed on to generation.
    #[verifier::loop_isolation(false)]
    #[verifier::rlimit(60)]
    pub fn to_complete_string(&self) -> (r: String)
        ensures
            r@ == resume_text(self@),
    {
        let mut out = String::new();
        match &self.name {
            Some(n) => {
                out.append("Name: ");
                out.append(n.as_str());
                out.append("\n\n");
            },
            None => {},
        }
        let ghost head = out@;
        let n = self.sections.len();
        let mut i: usize = 0;
        while i < n
            invariant
                i <= n,
                n == self@.sections.len(),
                out@ == head + sections_text(self@.sections.subrange(0, i as int)),
            decreases n - i,
        {
            proof {
                assert(sections_text(Seq::<SectionView>::empty()) == Seq::<char>::empty());
            }
            let ghost sec_head = out@;
            let sec = &self.sections[i];
            match &sec.heading {
                Some(h) => {
                    out.append(h.as_str());
                    out.append("\n");
                },
                None => {},
            }
            let ghost line_head = out@;
            let m = sec.content.len();
            let mut j: usize = 0;
            while j < m
                invariant
                    j <= m,
                    m == sec@.content.len(),
                    out@ == line_head + lines_text(sec@.content.subrange(0, j as int)),
                decreases m - j,
            {
                out.append(sec.content[j].as_str());
                out.append("\n");
                proof {
                    let cur = sec@.content.subrange(0, j + 1 as int);
                    assert(cur.drop_last() =~= sec@.content.subrange(0, j as int));
                    assert(cur.last() == sec@.content[j as int]);
                }
                j += 1;
            }
            out.append("\n");
            proof {
                assert(sec@.content.subrange(0, m as int) =~= sec@.content);
                assert(out@ == sec_head + section_text(sec@));
                let cur = self@.sections.subrange(0, i + 1 as int);
                assert(cur.drop_last() =~= self@.sections.subrange(0, i as int));
                assert(cur.last() == self@.sections[i as int]);
                assert(sec@ == self@.sections[i as int]);
            }
            i += 1;
        }
        proof {
            assert(self@.sections.subrange(0, n as int) =~= self@.sections);
        }
        out
    }
}

} // verus!
