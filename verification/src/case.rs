use vstd::prelude::*;
use vstd::string::StrSliceExecFns;
use vstd::string::StringExecFns;

use crate::digits::{dec_digits, u32_to_decimal};
use crate::errors::{ParseError, RenderError};
use crate::parse::{parse_llm_output, spec_parse_llm_output, CaseFields};
use crate::prompt::{default_prompt_text, resolve_system_prompt};

verus! {

/// One row of the claim chart: a claim requirement held against the
/// defendant's product and the court's judgment on it.
#[derive(Debug, Clone)]
pub struct ClaimRow {
    pub requirement: String,
    pub defendant: String,
    pub judgment: String,
    pub is_satisfied: bool,
}

pub ghost struct ClaimRowView {
    pub requirement: Seq<char>,
    pub defendant: Seq<char>,
    pub judgment: Seq<char>,
    pub is_satisfied: bool,
}

impl View for ClaimRow {
    type V = ClaimRowView;

    open spec fn view(&self) -> ClaimRowView {
        ClaimRowView {
            requirement: self.requirement@,
            defendant: self.defendant@,
            judgment: self.judgment@,
            is_satisfied: self.is_satisfied,
        }
    }
}

impl DeepView for ClaimRow {
    type V = ClaimRowView;

    open spec fn deep_view(&self) -> ClaimRowView {
        self.view()
    }
}

/// One analysed judgment: the case identifier it was fetched under and the
/// structured fields extracted from the model output. The fields stay at
/// their defaults until the parse stage succeeds.
#[derive(Debug)]
pub struct IpForcePatent {
    pub case_id: u32,
    pub title: String,
    pub case_no: String,
    pub date: String,
    pub result: String,
    pub summary: String,
    pub keywords: Vec<String>,
    pub claim_chart: Vec<ClaimRow>,
}

pub ghost struct CaseView {
    pub case_id: u32,
    pub title: Seq<char>,
    pub case_no: Seq<char>,
    pub date: Seq<char>,
    pub result: Seq<char>,
    pub summary: Seq<char>,
    pub keywords: Seq<Seq<char>>,
    pub claim_chart: Seq<ClaimRowView>,
}

impl View for IpForcePatent {
    type V = CaseView;

    open spec fn view(&self) -> CaseView {
        CaseView {
            case_id: self.case_id,
            title: self.title@,
            case_no: self.case_no@,
            date: self.date@,
            result: self.result@,
            summary: self.summary@,
            keywords: self.keywords.deep_view(),
            claim_chart: self.claim_chart.deep_view(),
        }
    }
}

/// The keyword block of the report: one bulleted line per keyword.
pub open spec fn keyword_lines(ks: Seq<Seq<char>>) -> Seq<char>
    decreases ks.len(),
{
    if ks.len() == 0 {
        Seq::<char>::empty()
    } else {
        keyword_lines(ks.drop_last()) + "- "@ + ks.last() + "\n"@
    }
}

pub open spec fn satisfied_text(b: bool) -> Seq<char> {
    if b {
        "Yes"@
    } else {
        "No"@
    }
}

/// One claim-chart row as four report table cells.
pub open spec fn claim_row_cells(r: ClaimRowView) -> Seq<char> {
    "  ["@ + r.requirement + "], ["@ + r.defendant + "], ["@ + r.judgment + "], ["@
        + satisfied_text(r.is_satisfied) + "],\n"@
}

pub open spec fn claim_chart_cells(rs: Seq<ClaimRowView>) -> Seq<char>
    decreases rs.len(),
{
    if rs.len() == 0 {
        Seq::<char>::empty()
    } else {
        claim_chart_cells(rs.drop_last()) + claim_row_cells(rs.last())
    }
}

/// The full report source for a case: a pure projection of the snapshot.
pub open spec fn rendered_case(c: CaseView) -> Seq<char> {
    "= "@ + c.title + "\n\n*Case number:* "@ + c.case_no + " \\\n*Date:* "@ + c.date
        + " \\\n*Result:* "@ + c.result + "\n\n== Summary\n"@ + c.summary + "\n\n== Keywords\n"@
        + keyword_lines(c.keywords) + "\n== Claim chart\n#table(\n  columns: 4,\n  [Requirement], [Defendant], [Judgment], [Satisfied],\n"@
        + claim_chart_cells(c.claim_chart) + ")\n"@
}

/// What rendering a case yields: the report source when the required
/// fields are present, and otherwise the name of the first missing one
/// (title is checked before case number).
pub open spec fn spec_render_case(c: CaseView) -> Result<Seq<char>, Seq<char>> {
    if c.title.len() == 0 {
        Err("title"@)
    } else if c.case_no.len() == 0 {
        Err("case_no"@)
    } else {
        Ok(rendered_case(c))
    }
}

/// A web resource that can be analysed into a compiled report: it names
/// itself, carries a system prompt, loads the model's structured output,
/// and renders a report source. Fetching the raw document is I/O and is
/// left to the caller.
pub trait WebResource: Sized {
    /// The unique identifier used to derive artifact file names.
    spec fn spec_id(&self) -> Seq<char>;

    /// The report source this resource renders to, or the first missing
    /// required field.
    spec fn spec_render(&self) -> Result<Seq<char>, Seq<char>>;

    fn id(&self) -> (r: String)
        ensures
            r@ == self.spec_id(),
    ;

    /// Picks the system prompt: the stored one when the prompt store
    /// produced one, the constant default otherwise. Never fails.
    fn system_prompt(&self, stored: Option<String>) -> (r: String)
        ensures
            stored is Some ==> r@ == stored->Some_0@,
            stored is None ==> r@ == default_prompt_text(),
    ;

    /// Whether loading the model output `out` into this resource fails.
    spec fn load_fails(&self, out: Seq<char>) -> bool;

    /// Whether loading the model output `out` into this resource yields
    /// exactly the resource `loaded`.
    spec fn loads_to(&self, out: Seq<char>, loaded: Self) -> bool;

    /// Loads the model's raw output into the resource's fields: it
    /// succeeds exactly when the output parses, on success the fields are
    /// exactly the parsed values, and on failure the resource is
    /// unchanged.
    fn load_llm_data(&mut self, llm_output: &str) -> (r: Result<(), ParseError>)
        ensures
            r is Ok <==> !old(self).load_fails(llm_output@),
            r is Ok ==> old(self).loads_to(llm_output@, *final(self)),
            r is Err ==> *final(self) == *old(self),
    ;

    fn render(&self) -> (r: Result<String, RenderError>)
        ensures
            match r {
                Ok(s) => self.spec_render() matches Ok(v) && s@ == v,
                Err(e) => self.spec_render() matches Err(f) && e.missing_field@ == f,
            },
    ;
}

impl IpForcePatent {
    /// A fresh case: identifier set, every analysed field at its default.
    pub fn new(case_id: u32) -> (r: Self)
        ensures
            r.case_id == case_id,
            r@.title == Seq::<char>::empty(),
            r@.case_no == Seq::<char>::empty(),
            r@.date == Seq::<char>::empty(),
            r@.result == Seq::<char>::empty(),
            r@.summary == Seq::<char>::empty(),
            r@.keywords == Seq::<Seq<char>>::empty(),
            r@.claim_chart == Seq::<ClaimRowView>::empty(),
    {
        let r = IpForcePatent {
            case_id,
            title: String::new(),
            case_no: String::new(),
            date: String::new(),
            result: String::new(),
            summary: String::new(),
            keywords: Vec::new(),
            claim_chart: Vec::new(),
        };
        proof {
            assert(r@.keywords =~= Seq::<Seq<char>>::empty());
            assert(r@.claim_chart =~= Seq::<ClaimRowView>::empty());
        }
        r
    }

    /// Replaces the analysed fields with freshly parsed ones, keeping the
    /// case identifier.
    pub fn apply_fields(&mut self, f: CaseFields)
        ensures
            final(self).case_id == old(self).case_id,
            final(self)@.title == f.title@,
            final(self)@.case_no == f.case_no@,
            final(self)@.date == f.date@,
            final(self)@.result == f.result@,
            final(self)@.summary == f.summary@,
            final(self)@.keywords == f.keywords.deep_view(),
            final(self)@.claim_chart == f.claim_chart.deep_view(),
    {
        self.title = f.title;
        self.case_no = f.case_no;
        self.date = f.date;
        self.result = f.result;
        self.summary = f.summary;
        self.keywords = f.keywords;
        self.claim_chart = f.claim_chart;
    }
}

fn render_keywords(ks: &Vec<String>) -> (r: String)
    ensures
        r@ == keyword_lines(ks.deep_view()),
{
    let ghost kv = ks.deep_view();
    let mut out = String::new();
    let mut i: usize = 0;
    while i < ks.len()
        invariant
            i <= ks.len(),
            kv == ks.deep_view(),
            out@ == keyword_lines(kv.take(i as int)),
        decreases ks.len() - i,
    {
        out.append("- ");
        out.append(ks[i].as_str());
        out.append("\n");
        proof {
            assert(kv.take(i + 1).drop_last() =~= kv.take(i as int));
            assert(kv.take(i + 1).last() == ks@[i as int]@);
            assert(out@ =~= keyword_lines(kv.take(i + 1)));
        }
        i = i + 1;
    }
    proof {
        assert(kv.take(ks@.len() as int) =~= kv);
    }
    out
}

fn render_claim_chart(rows: &Vec<ClaimRow>) -> (r: String)
    ensures
        r@ == claim_chart_cells(rows.deep_view()),
{
    let ghost rv = rows.deep_view();
    let mut out = String::new();
    let mut i: usize = 0;
    while i < rows.len()
        invariant
            i <= rows.len(),
            rv == rows.deep_view(),
            out@ == claim_chart_cells(rv.take(i as int)),
        decreases rows.len() - i,
    {
        let row = &rows[i];
        out.append("  [");
        out.append(row.requirement.as_str());
        out.append("], [");
        out.append(row.defendant.as_str());
        out.append("], [");
        out.append(row.judgment.as_str());
        out.append("], [");
        if row.is_satisfied {
            out.append("Yes");
        } else {
            out.append("No");
        }
        out.append("],\n");
        proof {
            assert(rv.take(i + 1).drop_last() =~= rv.take(i as int));
            assert(rv.take(i + 1).last() == rows@[i as int]@);
            assert(out@ =~= claim_chart_cells(rv.take(i + 1)));
        }
        i = i + 1;
    }
    proof {
        assert(rv.take(rows@.len() as int) =~= rv);
    }
    out
}

impl WebResource for IpForcePatent {
    open spec fn spec_id(&self) -> Seq<char> {
        "ip_force_"@ + dec_digits(self.case_id as nat)
    }

    open spec fn spec_render(&self) -> Result<Seq<char>, Seq<char>> {
        spec_render_case(self@)
    }

    fn id(&self) -> (r: String)
        ensures
            r@ == self.spec_id(),
    {
        let mut s = "ip_force_".to_owned();
        s.append(u32_to_decimal(self.case_id).as_str());
        proof {
            assert(s@ =~= self.spec_id());
        }
        s
    }

    fn system_prompt(&self, stored: Option<String>) -> (r: String)
        ensures
            stored is Some ==> r@ == stored->Some_0@,
            stored is None ==> r@ == default_prompt_text(),
    {
        resolve_system_prompt(stored)
    }

    open spec fn load_fails(&self, out: Seq<char>) -> bool {
        spec_parse_llm_output(out) is Err
    }

    open spec fn loads_to(&self, out: Seq<char>, loaded: Self) -> bool {
        match spec_parse_llm_output(out) {
            Ok(fv) => {
                &&& loaded.case_id == self.case_id
                &&& loaded@.title == fv.title
                &&& loaded@.case_no == fv.case_no
                &&& loaded@.date == fv.date
                &&& loaded@.result == fv.result
                &&& loaded@.summary == fv.summary
                &&& loaded@.keywords == fv.keywords
                &&& loaded@.claim_chart == fv.claim_chart
            },
            Err(_) => false,
        }
    }

    fn load_llm_data(&mut self, llm_output: &str) -> (r: Result<(), ParseError>)
        ensures
            r is Ok <==> !old(self).load_fails(llm_output@),
            r is Ok ==> old(self).loads_to(llm_output@, *final(self)),
            r is Err ==> *final(self) == *old(self),
    {
        match parse_llm_output(llm_output) {
            Ok(fields) => {
                self.apply_fields(fields);
                Ok(())
            },
            Err(e) => Err(e),
        }
    }

    fn render(&self) -> (r: Result<String, RenderError>)
        ensures
            match r {
                Ok(s) => self.spec_render() matches Ok(v) && s@ == v,
                Err(e) => self.spec_render() matches Err(f) && e.missing_field@ == f,
            },
    {
        if self.title.as_str().is_empty() {
            return Err(RenderError { missing_field: "title".to_owned() });
        }
        if self.case_no.as_str().is_empty() {
            return Err(RenderError { missing_field: "case_no".to_owned() });
        }
        let mut out = "= ".to_owned();
        out.append(self.title.as_str());
        out.append("\n\n*Case number:* ");
        out.append(self.case_no.as_str());
        out.append(" \\\n*Date:* ");
        out.append(self.date.as_str());
        out.append(" \\\n*Result:* ");
        out.append(self.result.as_str());
        out.append("\n\n== Summary\n");
        out.append(self.summary.as_str());
        out.append("\n\n== Keywords\n");
        out.append(render_keywords(&self.keywords).as_str());
        out.append("\n== Claim chart\n#table(\n  columns: 4,\n  [Requirement], [Defendant], [Judgment], [Satisfied],\n");
        out.append(render_claim_chart(&self.claim_chart).as_str());
        out.append(")\n");
        proof {
            assert(out@ =~= rendered_case(self@));
        }
        Ok(out)
    }
}

} // verus!
