use vstd::prelude::*;
use vstd::string::StrSliceExecFns;
use vstd::string::StringExecFns;

use crate::case::ClaimRow;
use crate::errors::ParseError;

verus! {

/// Index of the first occurrence of `c` in `s`, or -1 when absent.
pub open spec fn first_occ(s: Seq<char>, c: char) -> int
    decreases s.len(),
{
    if s.len() == 0 {
        -1
    } else if s[0] == c {
        0
    } else {
        let r = first_occ(s.drop_first(), c);
        if r == -1 {
            -1
        } else {
            r + 1
        }
    }
}

/// Index of the last occurrence of `c` in `s`, or -1 when absent.
pub open spec fn last_occ(s: Seq<char>, c: char) -> int
    decreases s.len(),
{
    if s.len() == 0 {
        -1
    } else if s.last() == c {
        s.len() - 1
    } else {
        last_occ(s.drop_last(), c)
    }
}

pub proof fn lemma_first_occ(s: Seq<char>, c: char)
    ensures
        first_occ(s, c) == -1 ==> forall|j: int| 0 <= j < s.len() ==> s[j] != c,
        first_occ(s, c) != -1 ==> 0 <= first_occ(s, c) < s.len() && s[first_occ(s, c)] == c
            && forall|j: int| 0 <= j < first_occ(s, c) ==> s[j] != c,
    decreases s.len(),
{
    if s.len() == 0 {
    } else if s[0] == c {
    } else {
        lemma_first_occ(s.drop_first(), c);
        let t = s.drop_first();
        let r = first_occ(t, c);
        if r == -1 {
            assert forall|j: int| 0 <= j < s.len() implies s[j] != c by {
                if j > 0 {
                    assert(t[j - 1] == s[j]);
                }
            }
        } else {
            assert(t[r] == s[r + 1]);
            assert forall|j: int| 0 <= j < r + 1 implies s[j] != c by {
                if j > 0 {
                    assert(t[j - 1] == s[j]);
                }
            }
        }
    }
}

pub proof fn lemma_last_occ(s: Seq<char>, c: char)
    ensures
        last_occ(s, c) == -1 ==> forall|j: int| 0 <= j < s.len() ==> s[j] != c,
        last_occ(s, c) != -1 ==> 0 <= last_occ(s, c) < s.len() && s[last_occ(s, c)] == c
            && forall|j: int| last_occ(s, c) < j < s.len() ==> s[j] != c,
    decreases s.len(),
{
    if s.len() == 0 {
    } else if s.last() == c {
    } else {
        lemma_last_occ(s.drop_last(), c);
        let t = s.drop_last();
        let r = last_occ(t, c);
        if r == -1 {
            assert forall|j: int| 0 <= j < s.len() implies s[j] != c by {
                if j < s.len() - 1 {
                    assert(t[j] == s[j]);
                }
            }
        } else {
            assert(t[r] == s[r]);
            assert forall|j: int| r < j < s.len() implies s[j] != c by {
                if j < s.len() - 1 {
                    assert(t[j] == s[j]);
                }
            }
        }
    }
}

/// Finds the first occurrence of `c` in `s`.
pub fn find_first(s: &str, c: char) -> (r: Option<usize>)
    ensures
        match r {
            Some(i) => i == first_occ(s@, c),
            None => first_occ(s@, c) == -1,
        },
{
    proof {
        lemma_first_occ(s@, c);
    }
    let n = s.unicode_len();
    let mut i: usize = 0;
    while i < n
        invariant
            n == s@.len(),
            i <= n,
            forall|j: int| 0 <= j < i ==> s@[j] != c,
        decreases n - i,
    {
        if s.get_char(i) == c {
            proof {
                lemma_first_occ(s@, c);
                let f = first_occ(s@, c);
                assert(s@[i as int] == c);
                assert(f != -1);
                if f < i as int {
                    assert(s@[f] != c);
                }
            }
            return Some(i);
        }
        i = i + 1;
    }
    None
}

/// Finds the last occurrence of `c` in `s`.
pub fn find_last(s: &str, c: char) -> (r: Option<usize>)
    ensures
        match r {
            Some(i) => i == last_occ(s@, c),
            None => last_occ(s@, c) == -1,
        },
{
    proof {
        lemma_last_occ(s@, c);
    }
    let n = s.unicode_len();
    let mut i: usize = n;
    while i > 0
        invariant
            n == s@.len(),
            i <= n,
            forall|j: int| i <= j < n ==> s@[j] != c,
        decreases i,
    {
        i = i - 1;
        if s.get_char(i) == c {
            proof {
                lemma_last_occ(s@, c);
                let l = last_occ(s@, c);
                assert(s@[i as int] == c);
                assert(l != -1);
                if l > i as int {
                    assert(s@[l] != c);
                }
            }
            return Some(i);
        }
    }
    None
}

/// The candidate structured span of a model output: the characters from
/// the first `{` through the last `}` when both exist in that order, and
/// the whole output otherwise (the parser then rejects it). The cut is not
/// brace-balance aware: a literal `}` inside a string value before the
/// true closing brace truncates the span early. That heuristic is kept
/// deliberately.
pub open spec fn spec_json_span(s: Seq<char>) -> Seq<char> {
    let f = first_occ(s, '{');
    let l = last_occ(s, '}');
    if f != -1 && l != -1 && f <= l {
        s.subrange(f, l + 1)
    } else {
        s
    }
}

/// Cuts the candidate structured span out of a raw model output.
pub fn json_span(s: &str) -> (r: String)
    ensures
        r@ == spec_json_span(s@),
{
    let n = s.unicode_len();
    let f = find_first(s, '{');
    let l = find_last(s, '}');
    proof {
        lemma_first_occ(s@, '{');
        lemma_last_occ(s@, '}');
    }
    match (f, l) {
        (Some(i), Some(j)) => {
            if i <= j {
                proof {
                    lemma_last_occ(s@, '}');
                    assert(j as int == last_occ(s@, '}'));
                    assert(j < s@.len());
                }
                let cut = s.substring_char(i, j + 1);
                cut.to_owned()
            } else {
                s.to_owned()
            }
        },
        _ => s.to_owned(),
    }
}

// --- the library's JSON model ---

/// A parsed structured document, carried in the library's own shape so
/// that the schema validation below is ordinary verified code. Numbers
/// are kept by their text: the case schema never reads one.
pub enum JsonValue {
    Null,
    Bool(bool),
    Num(String),
    Str(String),
    Array(Vec<JsonValue>),
    Object(Vec<(String, JsonValue)>),
}

/// What the JSON parser yields on a text: the parsed document, or nothing
/// when the text is not well-formed JSON. Deterministic in the text
/// (object entries come out in the parser's fixed key order).
pub uninterp spec fn json_of(s: Seq<char>) -> Option<JsonValue>;

#[verifier::external_type_specification]
#[verifier::external_body]
pub struct ExJsonValue(serde_json::Value);

/// Relies on serde_json::Value only for its shape: each variant is moved
/// into the library's model one-for-one, numbers by their text.
#[verifier::external_body]
fn json_value_of(v: serde_json::Value) -> JsonValue {
    match v {
        serde_json::Value::Null => JsonValue::Null,
        serde_json::Value::Bool(b) => JsonValue::Bool(b),
        serde_json::Value::Number(n) => JsonValue::Num(n.to_string()),
        serde_json::Value::String(s) => JsonValue::Str(s),
        serde_json::Value::Array(a) => JsonValue::Array(
            a.into_iter().map(json_value_of).collect(),
        ),
        serde_json::Value::Object(m) => JsonValue::Object(
            m.into_iter().map(|(k, x)| (k, json_value_of(x))).collect(),
        ),
    }
}

/// Relies on serde_json::from_str::<Value>: parses one JSON document from
/// the whole input and rejects anything that is not well-formed JSON,
/// never by panicking. Succeeds exactly when `json_of` holds a document;
/// on failure the error's text is handed back.
#[verifier::external_body]
fn parse_json(s: &str) -> (r: Result<JsonValue, String>)
    ensures
        r matches Ok(v) ==> json_of(s@) == Some(v),
        r is Err ==> json_of(s@) is None,
{
    match serde_json::from_str::<serde_json::Value>(s) {
        Ok(v) => Ok(json_value_of(v)),
        Err(e) => Err(e.to_string()),
    }
}

// --- schema validation, verified over the model ---

/// The value under `key` in an object's entry list: the first entry with
/// that key (the parser emits each key once).
pub open spec fn spec_obj_get(pairs: Seq<(String, JsonValue)>, key: Seq<char>) -> Option<
    JsonValue,
>
    decreases pairs.len(),
{
    if pairs.len() == 0 {
        Option::None
    } else if pairs[0].0@ == key {
        Option::Some(pairs[0].1)
    } else {
        spec_obj_get(pairs.drop_first(), key)
    }
}

/// The value under `key`, when `v` is an object holding that key.
pub open spec fn spec_get(v: JsonValue, key: Seq<char>) -> Option<JsonValue> {
    match v {
        JsonValue::Object(pairs) => spec_obj_get(pairs@, key),
        _ => Option::None,
    }
}

/// An optional text field: absent means the default empty text, and a
/// present non-string value is a schema violation.
pub open spec fn spec_opt_str(v: JsonValue, key: Seq<char>) -> Result<Seq<char>, ()> {
    match spec_get(v, key) {
        Option::None => Ok(Seq::<char>::empty()),
        Option::Some(JsonValue::Str(s)) => Ok(s@),
        Option::Some(_) => Err(()),
    }
}

/// A required text field: absence or a non-string value is a violation.
pub open spec fn spec_req_str(v: JsonValue, key: Seq<char>) -> Result<Seq<char>, ()> {
    match spec_get(v, key) {
        Option::Some(JsonValue::Str(s)) => Ok(s@),
        _ => Err(()),
    }
}

/// A required boolean field.
pub open spec fn spec_req_bool(v: JsonValue, key: Seq<char>) -> Result<bool, ()> {
    match spec_get(v, key) {
        Option::Some(JsonValue::Bool(b)) => Ok(b),
        _ => Err(()),
    }
}

/// The texts of a list whose elements must all be strings; the first
/// non-string element is a violation.
pub open spec fn spec_strs_of(elems: Seq<JsonValue>) -> Result<Seq<Seq<char>>, ()>
    decreases elems.len(),
{
    if elems.len() == 0 {
        Ok(Seq::<Seq<char>>::empty())
    } else {
        match elems[0] {
            JsonValue::Str(s) => match spec_strs_of(elems.drop_first()) {
                Ok(rest) => Ok(seq![s@] + rest),
                Err(u) => Err(u),
            },
            _ => Err(()),
        }
    }
}

/// One claim-chart row: all four columns are required, checked in order;
/// a violation names the failing column.
pub open spec fn spec_row_of(v: JsonValue) -> Result<crate::case::ClaimRowView, Seq<char>> {
    match spec_req_str(v, "requirement"@) {
        Err(_) => Err("requirement"@),
        Ok(requirement) => match spec_req_str(v, "defendant"@) {
            Err(_) => Err("defendant"@),
            Ok(defendant) => match spec_req_str(v, "judgment"@) {
                Err(_) => Err("judgment"@),
                Ok(judgment) => match spec_req_bool(v, "is_satisfied"@) {
                    Err(_) => Err("is_satisfied"@),
                    Ok(is_satisfied) => Ok(
                        crate::case::ClaimRowView { requirement, defendant, judgment, is_satisfied },
                    ),
                },
            },
        },
    }
}

/// The rows of the claim chart, in order; the first bad row's failing
/// column is the violation.
pub open spec fn spec_rows_of(elems: Seq<JsonValue>) -> Result<
    Seq<crate::case::ClaimRowView>,
    Seq<char>,
>
    decreases elems.len(),
{
    if elems.len() == 0 {
        Ok(Seq::<crate::case::ClaimRowView>::empty())
    } else {
        match spec_row_of(elems[0]) {
            Err(f) => Err(f),
            Ok(row) => match spec_rows_of(elems.drop_first()) {
                Ok(rest) => Ok(seq![row] + rest),
                Err(f) => Err(f),
            },
        }
    }
}

/// The keyword list: absent means empty; a non-array value or a
/// non-string element is a violation.
pub open spec fn spec_keywords_of(v: JsonValue) -> Result<Seq<Seq<char>>, ()> {
    match spec_get(v, "keywords"@) {
        Option::None => Ok(Seq::<Seq<char>>::empty()),
        Option::Some(JsonValue::Array(a)) => spec_strs_of(a@),
        Option::Some(_) => Err(()),
    }
}

/// The claim chart: absent means empty; a non-array value or a bad row
/// is a violation, named after the failing field.
pub open spec fn spec_chart_of(v: JsonValue) -> Result<Seq<crate::case::ClaimRowView>, Seq<char>> {
    match spec_get(v, "claim_chart"@) {
        Option::None => Ok(Seq::<crate::case::ClaimRowView>::empty()),
        Option::Some(JsonValue::Array(a)) => spec_rows_of(a@),
        Option::Some(_) => Err("claim_chart"@),
    }
}

/// What case-schema validation yields on a parsed document: the fields,
/// or `Err(None)` when the document is no object, or `Err(Some(f))` for
/// the first field `f` of the wrong shape — the analysed text fields in
/// order, then the keyword list, then the claim chart.
pub open spec fn spec_parse_case(v: JsonValue) -> Result<CaseFieldsView, Option<Seq<char>>> {
    if !(v is Object) {
        Err(Option::None)
    } else if spec_opt_str(v, "title"@) is Err {
        Err(Option::Some("title"@))
    } else if spec_opt_str(v, "case_no"@) is Err {
        Err(Option::Some("case_no"@))
    } else if spec_opt_str(v, "date"@) is Err {
        Err(Option::Some("date"@))
    } else if spec_opt_str(v, "result"@) is Err {
        Err(Option::Some("result"@))
    } else if spec_opt_str(v, "summary"@) is Err {
        Err(Option::Some("summary"@))
    } else if spec_keywords_of(v) is Err {
        Err(Option::Some("keywords"@))
    } else {
        match spec_chart_of(v) {
            Err(f) => Err(Option::Some(f)),
            Ok(rows) => Ok(
                CaseFieldsView {
                    title: unwrap_str(spec_opt_str(v, "title"@)),
                    case_no: unwrap_str(spec_opt_str(v, "case_no"@)),
                    date: unwrap_str(spec_opt_str(v, "date"@)),
                    result: unwrap_str(spec_opt_str(v, "result"@)),
                    summary: unwrap_str(spec_opt_str(v, "summary"@)),
                    keywords: unwrap_strs(spec_keywords_of(v)),
                    claim_chart: rows,
                },
            ),
        }
    }
}

pub open spec fn unwrap_str(r: Result<Seq<char>, ()>) -> Seq<char> {
    match r {
        Ok(s) => s,
        Err(_) => Seq::<char>::empty(),
    }
}

pub open spec fn unwrap_strs(r: Result<Seq<Seq<char>>, ()>) -> Seq<Seq<char>> {
    match r {
        Ok(s) => s,
        Err(_) => Seq::<Seq<char>>::empty(),
    }
}

/// What the whole parse stage yields on a raw model output: the candidate
/// span is cut (first `{` through last `}`), parsed, and validated.
pub open spec fn spec_parse_llm_output(s: Seq<char>) -> Result<CaseFieldsView, Option<Seq<char>>> {
    match json_of(spec_json_span(s)) {
        Option::Some(v) => spec_parse_case(v),
        Option::None => Err(Option::None),
    }
}

// --- the analysed fields ---

/// The analysed fields of a case, as extracted from one model output.
#[derive(Debug)]
pub struct CaseFields {
    pub title: String,
    pub case_no: String,
    pub date: String,
    pub result: String,
    pub summary: String,
    pub keywords: Vec<String>,
    pub claim_chart: Vec<ClaimRow>,
}

pub ghost struct CaseFieldsView {
    pub title: Seq<char>,
    pub case_no: Seq<char>,
    pub date: Seq<char>,
    pub result: Seq<char>,
    pub summary: Seq<char>,
    pub keywords: Seq<Seq<char>>,
    pub claim_chart: Seq<crate::case::ClaimRowView>,
}

impl View for CaseFields {
    type V = CaseFieldsView;

    open spec fn view(&self) -> CaseFieldsView {
        CaseFieldsView {
            title: self.title@,
            case_no: self.case_no@,
            date: self.date@,
            result: self.result@,
            summary: self.summary@,
            keywords: self.keywords.deep_view(),
            claim_chart: self.claim_chart.deep_view(),
        }
    }
}

impl DeepView for CaseFields {
    type V = CaseFieldsView;

    open spec fn deep_view(&self) -> CaseFieldsView {
        self.view()
    }
}

// --- executable validation ---

/// Character-wise string equality.
fn str_eq(a: &str, b: &str) -> (r: bool)
    ensures
        r == (a@ == b@),
{
    let n = a.unicode_len();
    let m = b.unicode_len();
    if n != m {
        return false;
    }
    let mut i: usize = 0;
    while i < n
        invariant
            n == a@.len(),
            n == b@.len(),
            i <= n,
            forall|j: int| 0 <= j < i ==> a@[j] == b@[j],
        decreases n - i,
    {
        if a.get_char(i) != b.get_char(i) {
            return false;
        }
        i = i + 1;
    }
    proof {
        assert(a@ =~= b@);
    }
    true
}

fn obj_get<'a>(pairs: &'a Vec<(String, JsonValue)>, key: &str) -> (r: Option<&'a JsonValue>)
    ensures
        match r {
            Some(x) => spec_obj_get(pairs@, key@) == Option::Some(*x),
            None => spec_obj_get(pairs@, key@) is None,
        },
{
    proof {
        assert(pairs@.skip(0) =~= pairs@);
    }
    let mut i: usize = 0;
    while i < pairs.len()
        invariant
            i <= pairs@.len(),
            spec_obj_get(pairs@, key@) == spec_obj_get(pairs@.skip(i as int), key@),
        decreases pairs@.len() - i,
    {
        let ghost tail = pairs@.skip(i as int);
        proof {
            assert(tail[0] == pairs@[i as int]);
            assert(tail.drop_first() =~= pairs@.skip(i + 1));
        }
        if str_eq(pairs[i].0.as_str(), key) {
            return Some(&pairs[i].1);
        }
        i = i + 1;
    }
    proof {
        assert(pairs@.skip(pairs@.len() as int) =~= Seq::<(String, JsonValue)>::empty());
    }
    None
}

fn value_get<'a>(v: &'a JsonValue, key: &str) -> (r: Option<&'a JsonValue>)
    ensures
        match r {
            Some(x) => spec_get(*v, key@) == Option::Some(*x),
            None => spec_get(*v, key@) is None,
        },
{
    match v {
        JsonValue::Object(pairs) => obj_get(pairs, key),
        _ => None,
    }
}

fn opt_str_field(v: &JsonValue, key: &str) -> (r: Result<String, ParseError>)
    ensures
        match r {
            Ok(s) => spec_opt_str(*v, key@) == Ok::<Seq<char>, ()>(s@),
            Err(e) => (e matches ParseError::BadField { field } && field@ == key@) && spec_opt_str(
                *v,
                key@,
            ) is Err,
        },
{
    match value_get(v, key) {
        None => Ok(String::new()),
        Some(x) => match x {
            JsonValue::Str(s) => Ok(s.clone()),
            _ => Err(ParseError::BadField { field: key.to_owned() }),
        },
    }
}

fn req_str_field(v: &JsonValue, key: &str) -> (r: Result<String, ParseError>)
    ensures
        match r {
            Ok(s) => spec_req_str(*v, key@) == Ok::<Seq<char>, ()>(s@),
            Err(e) => (e matches ParseError::BadField { field } && field@ == key@) && spec_req_str(
                *v,
                key@,
            ) is Err,
        },
{
    match value_get(v, key) {
        Some(x) => match x {
            JsonValue::Str(s) => Ok(s.clone()),
            _ => Err(ParseError::BadField { field: key.to_owned() }),
        },
        None => Err(ParseError::BadField { field: key.to_owned() }),
    }
}

fn req_bool_field(v: &JsonValue, key: &str) -> (r: Result<bool, ParseError>)
    ensures
        match r {
            Ok(b) => spec_req_bool(*v, key@) == Ok::<bool, ()>(b),
            Err(e) => (e matches ParseError::BadField { field } && field@ == key@) && spec_req_bool(
                *v,
                key@,
            ) is Err,
        },
{
    match value_get(v, key) {
        Some(x) => match x {
            JsonValue::Bool(b) => Ok(*b),
            _ => Err(ParseError::BadField { field: key.to_owned() }),
        },
        None => Err(ParseError::BadField { field: key.to_owned() }),
    }
}

fn strs_of_elems(elems: &Vec<JsonValue>) -> (r: Result<Vec<String>, ()>)
    ensures
        match r {
            Ok(ks) => spec_strs_of(elems@) == Ok::<Seq<Seq<char>>, ()>(ks.deep_view()),
            Err(_) => spec_strs_of(elems@) is Err,
        },
{
    let ghost full = elems@;
    let mut out: Vec<String> = Vec::new();
    let mut i: usize = 0;
    proof {
        assert(full.skip(0) =~= full);
        assert(out.deep_view() =~= Seq::<Seq<char>>::empty());
    }
    while i < elems.len()
        invariant
            i <= full.len(),
            full == elems@,
            (spec_strs_of(full) is Err <==> spec_strs_of(full.skip(i as int)) is Err),
            (spec_strs_of(full.skip(i as int)) matches Ok(rest) ==> spec_strs_of(full) == Ok::<
                Seq<Seq<char>>,
                (),
            >(out.deep_view() + rest)),
        decreases full.len() - i,
    {
        let ghost tail = full.skip(i as int);
        proof {
            assert(tail[0] == full[i as int]);
            assert(tail.drop_first() =~= full.skip(i + 1));
        }
        match &elems[i] {
            JsonValue::Str(s) => {
                let ghost oldv = out.deep_view();
                out.push(s.clone());
                proof {
                    assert(out.deep_view() =~= oldv.push(s@));
                    match spec_strs_of(full.skip(i + 1)) {
                        Ok(rest) => {
                            assert(spec_strs_of(tail) == Ok::<Seq<Seq<char>>, ()>(
                                seq![s@] + rest,
                            ));
                            assert(oldv + (seq![s@] + rest) =~= oldv.push(s@) + rest);
                        },
                        Err(_) => {},
                    }
                }
            },
            _ => {
                proof {
                    assert(spec_strs_of(tail) is Err);
                }
                return Err(());
            },
        }
        i = i + 1;
    }
    proof {
        assert(full.skip(full.len() as int) =~= Seq::<JsonValue>::empty());
        assert(out.deep_view() + Seq::<Seq<char>>::empty() =~= out.deep_view());
    }
    Ok(out)
}

fn row_of_value(v: &JsonValue) -> (r: Result<ClaimRow, ParseError>)
    ensures
        match r {
            Ok(row) => spec_row_of(*v) == Ok::<crate::case::ClaimRowView, Seq<char>>(row@),
            Err(e) => (e matches ParseError::BadField { field } && (spec_row_of(*v) matches Err(f)
                && field@ == f)),
        },
{
    let requirement = match req_str_field(v, "requirement") {
        Ok(s) => s,
        Err(e) => {
            return Err(e);
        },
    };
    let defendant = match req_str_field(v, "defendant") {
        Ok(s) => s,
        Err(e) => {
            return Err(e);
        },
    };
    let judgment = match req_str_field(v, "judgment") {
        Ok(s) => s,
        Err(e) => {
            return Err(e);
        },
    };
    let is_satisfied = match req_bool_field(v, "is_satisfied") {
        Ok(b) => b,
        Err(e) => {
            return Err(e);
        },
    };
    Ok(ClaimRow { requirement, defendant, judgment, is_satisfied })
}

fn rows_of_elems(elems: &Vec<JsonValue>) -> (r: Result<Vec<ClaimRow>, ParseError>)
    ensures
        match r {
            Ok(rows) => spec_rows_of(elems@) == Ok::<Seq<crate::case::ClaimRowView>, Seq<char>>(
                rows.deep_view(),
            ),
            Err(e) => (e matches ParseError::BadField { field } && (spec_rows_of(elems@)
                matches Err(f) && field@ == f)),
        },
{
    let ghost full = elems@;
    let mut out: Vec<ClaimRow> = Vec::new();
    let mut i: usize = 0;
    proof {
        assert(full.skip(0) =~= full);
        assert(out.deep_view() =~= Seq::<crate::case::ClaimRowView>::empty());
    }
    while i < elems.len()
        invariant
            i <= full.len(),
            full == elems@,
            (spec_rows_of(full) is Err <==> spec_rows_of(full.skip(i as int)) is Err),
            (spec_rows_of(full.skip(i as int)) is Err ==> spec_rows_of(full) == spec_rows_of(
                full.skip(i as int),
            )),
            (spec_rows_of(full.skip(i as int)) matches Ok(rest) ==> spec_rows_of(full) == Ok::<
                Seq<crate::case::ClaimRowView>,
                Seq<char>,
            >(out.deep_view() + rest)),
        decreases full.len() - i,
    {
        let ghost tail = full.skip(i as int);
        proof {
            assert(tail[0] == full[i as int]);
            assert(tail.drop_first() =~= full.skip(i + 1));
        }
        match row_of_value(&elems[i]) {
            Ok(row) => {
                let ghost oldv = out.deep_view();
                let ghost rowv = row@;
                out.push(row);
                proof {
                    assert(out.deep_view() =~= oldv.push(rowv));
                    match spec_rows_of(full.skip(i + 1)) {
                        Ok(rest) => {
                            assert(spec_rows_of(tail) == Ok::<
                                Seq<crate::case::ClaimRowView>,
                                Seq<char>,
                            >(seq![rowv] + rest));
                            assert(oldv + (seq![rowv] + rest) =~= oldv.push(rowv) + rest);
                        },
                        Err(_) => {},
                    }
                }
            },
            Err(e) => {
                return Err(e);
            },
        }
        i = i + 1;
    }
    proof {
        assert(full.skip(full.len() as int) =~= Seq::<JsonValue>::empty());
        assert(out.deep_view() + Seq::<crate::case::ClaimRowView>::empty() =~= out.deep_view());
    }
    Ok(out)
}

/// Validates a parsed document against the case schema: analysed text
/// fields and the two lists default to empty when absent, and the first
/// field of the wrong shape is the violation.
pub fn parse_case_value(v: &JsonValue) -> (r: Result<CaseFields, ParseError>)
    ensures
        match r {
            Ok(f) => spec_parse_case(*v) == Ok::<CaseFieldsView, Option<Seq<char>>>(f.deep_view()),
            Err(e) => match e {
                ParseError::InvalidJson { .. } => (spec_parse_case(*v) matches Err(w)
                    && w is None),
                ParseError::BadField { field } => (spec_parse_case(*v) matches Err(w) && (w
                    matches Some(f) && field@ == f)),
            },
        },
{
    match v {
        JsonValue::Object(_) => {},
        _ => {
            return Err(ParseError::InvalidJson { message: "expected an object".to_owned() });
        },
    }
    let title = match opt_str_field(v, "title") {
        Ok(s) => s,
        Err(e) => {
            return Err(e);
        },
    };
    let case_no = match opt_str_field(v, "case_no") {
        Ok(s) => s,
        Err(e) => {
            return Err(e);
        },
    };
    let date = match opt_str_field(v, "date") {
        Ok(s) => s,
        Err(e) => {
            return Err(e);
        },
    };
    let result = match opt_str_field(v, "result") {
        Ok(s) => s,
        Err(e) => {
            return Err(e);
        },
    };
    let summary = match opt_str_field(v, "summary") {
        Ok(s) => s,
        Err(e) => {
            return Err(e);
        },
    };
    let keywords = match value_get(v, "keywords") {
        None => {
            let ks: Vec<String> = Vec::new();
            proof {
                assert(ks.deep_view() =~= Seq::<Seq<char>>::empty());
            }
            ks
        },
        Some(x) => match x {
            JsonValue::Array(a) => match strs_of_elems(a) {
                Ok(ks) => ks,
                Err(_) => {
                    return Err(ParseError::BadField { field: "keywords".to_owned() });
                },
            },
            _ => {
                return Err(ParseError::BadField { field: "keywords".to_owned() });
            },
        },
    };
    let claim_chart = match value_get(v, "claim_chart") {
        None => {
            let rs: Vec<ClaimRow> = Vec::new();
            proof {
                assert(rs.deep_view() =~= Seq::<crate::case::ClaimRowView>::empty());
            }
            rs
        },
        Some(x) => match x {
            JsonValue::Array(a) => match rows_of_elems(a) {
                Ok(rs) => rs,
                Err(e) => {
                    return Err(e);
                },
            },
            _ => {
                return Err(ParseError::BadField { field: "claim_chart".to_owned() });
            },
        },
    };
    Ok(CaseFields { title, case_no, date, result, summary, keywords, claim_chart })
}

/// The parse stage: cuts the candidate span out of the raw model output
/// (first `{` through last `}`), parses it as one structured document,
/// and validates the case schema. Succeeds exactly when the span is
/// well-formed JSON whose shape fits the schema; a failure is reported as
/// a ParseError and never grows into a panic.
pub fn parse_llm_output(llm_output: &str) -> (r: Result<CaseFields, ParseError>)
    ensures
        match r {
            Ok(f) => spec_parse_llm_output(llm_output@) == Ok::<CaseFieldsView, Option<Seq<char>>>(
                f.deep_view(),
            ),
            Err(e) => match e {
                ParseError::InvalidJson { .. } => (spec_parse_llm_output(llm_output@)
                    matches Err(w) && w is None),
                ParseError::BadField { field } => (spec_parse_llm_output(llm_output@)
                    matches Err(w) && (w matches Some(f) && field@ == f)),
            },
        },
{
    let candidate = json_span(llm_output);
    let value = match parse_json(candidate.as_str()) {
        Ok(v) => v,
        Err(m) => {
            return Err(ParseError::InvalidJson { message: m });
        },
    };
    parse_case_value(&value)
}

} // verus!
