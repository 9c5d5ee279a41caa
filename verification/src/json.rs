//! The JSON sink: a report as an array of objects, one object per record.

use crate::error::ReportError;
use crate::record::{
    all_valued, has_value, lemma_all_valued, lemma_valued_pending, lemma_with_field, names_unique,
    with_field, Cell, CellSpec, FieldSpec, Record,
};
use crate::report::{Report, ReportOutput, ReportSuffix};
use crate::text::{decimal, from_chars, joined, parts_view, push_decimal, push_joined, push_str};
use crate::utils::{json_escape, json_string};
use vstd::prelude::*;

verus! {

/// A cell in JSON: a text as a JSON string, a number in decimal digits.
pub open spec fn json_cell(cell: CellSpec) -> Seq<char> {
    match cell {
        CellSpec::Empty => Seq::empty(),
        CellSpec::Text(s) => json_string(s),
        CellSpec::Integer(n) => decimal(n as nat),
    }
}

/// A field as a member of a JSON object: the name in double quotes, a colon
/// and the value.
pub open spec fn json_member(f: FieldSpec) -> Seq<char> {
    seq!['"'] + f.name + "\":"@ + json_cell(f.cell)
}

/// The members of the fields of `rec`.
pub open spec fn json_members(rec: Seq<FieldSpec>) -> Seq<Seq<char>> {
    rec.map_values(|f: FieldSpec| json_member(f))
}

/// The member that names the category, with its comma.
pub open spec fn json_category(suffix: ReportSuffix) -> Seq<char> {
    json_string("report_suffix"@) + seq![':'] + suffix.message_text() + seq![',']
}

/// The mathematical value of a [`ReportJson`].
pub struct ReportJsonView {
    pub report_output: ReportOutput,
    pub report_suffix: Option<ReportSuffix>,
    pub values: Seq<FieldSpec>,
}

impl ReportJsonView {
    /// What stands at the head of every object: in a report to stdout the
    /// category, else nothing.
    pub open spec fn head(self) -> Seq<char> {
        match self.report_suffix {
            Some(suffix) if self.report_output == ReportOutput::ToStdout => json_category(suffix),
            _ => Seq::empty(),
        }
    }

    /// The pending record as a JSON object. After the last object of a report
    /// comes a line break, after any other a comma and a line break.
    pub open spec fn object(self, last: bool) -> Seq<char> {
        seq!['{'] + self.head() + joined(json_members(self.values), seq![',']) + (if last {
            "}\n"@
        } else {
            "},\n"@
        })
    }
}

/// A report as a JSON array of objects, one object per record.
#[derive(Debug)]
pub struct ReportJson {
    report_output: ReportOutput,
    report_suffix: Option<ReportSuffix>,
    values: Record,
}

impl View for ReportJson {
    type V = ReportJsonView;

    closed spec fn view(&self) -> ReportJsonView {
        ReportJsonView {
            report_output: self.report_output,
            report_suffix: self.report_suffix,
            values: self.values@,
        }
    }
}

impl ReportJson {
    /// The sink that `new` makes for the given destination, or why it makes
    /// none.
    pub open spec fn created(
        report_output: ReportOutput,
        report_suffix: Option<ReportSuffix>,
    ) -> Result<ReportJsonView, ReportError> {
        match report_output {
            ReportOutput::ToFile => Ok(
                ReportJsonView {
                    report_output,
                    report_suffix: None,
                    values: Seq::empty(),
                },
            ),
            ReportOutput::ToStdout => match report_suffix {
                Some(_) => Ok(
                    ReportJsonView { report_output, report_suffix, values: Seq::empty() },
                ),
                None => Err(ReportError::MissingSuffix),
            },
            ReportOutput::ToDatabase => Err(ReportError::JsonToDatabase),
        }
    }

    /// A JSON sink for a file or for stdout. A report to a file carries no
    /// category; one to stdout needs it.
    pub fn new(report_output: ReportOutput, report_suffix: Option<ReportSuffix>) -> (r: Result<
        Self,
        ReportError,
    >)
        ensures
            match r {
                Ok(sink) => Self::created(report_output, report_suffix) == Ok::<
                    ReportJsonView,
                    ReportError,
                >(sink@) && Self::inv(sink@),
                Err(e) => Self::created(report_output, report_suffix) == Err::<
                    ReportJsonView,
                    ReportError,
                >(e),
            },
    {
        match report_output {
            ReportOutput::ToFile => Ok(
                ReportJson { report_output, report_suffix: None, values: Record::new() },
            ),
            ReportOutput::ToStdout => match report_suffix {
                Some(_) => Ok(ReportJson { report_output, report_suffix, values: Record::new() }),
                None => Err(ReportError::MissingSuffix),
            },
            ReportOutput::ToDatabase => Err(ReportError::JsonToDatabase),
        }
    }

    /// The members of the pending record, one text per field.
    fn members(&self) -> (parts: Vec<Vec<char>>)
        ensures
            parts_view(parts@) == json_members(self@.values),
    {
        let mut parts: Vec<Vec<char>> = Vec::new();
        let mut i: usize = 0;
        while i < self.values.len()
            invariant
                i <= self.values@.len(),
                parts.len() == i,
                forall|k: int|
                    0 <= k < i ==> (#[trigger] parts@[k])@ == json_member(self.values@[k]),
            decreases self.values@.len() - i,
        {
            let field = self.values.get(i);
            let mut part: Vec<char> = Vec::new();
            part.push('"');
            push_str(&mut part, field.name.as_str());
            push_str(&mut part, "\":");
            match &field.cell {
                Cell::Empty => {},
                Cell::Text(s) => {
                    let escaped = json_escape(s.as_str());
                    push_str(&mut part, escaped.as_str());
                },
                Cell::Integer(n) => {
                    push_decimal(&mut part, *n);
                },
            }
            assert(part@ =~= json_member(self.values@[i as int]));
            parts.push(part);
            i += 1;
        }
        assert(parts_view(parts@) =~= json_members(self@.values));
        parts
    }

    /// Writes the pending record as one JSON object and empties it. Without
    /// a field in the record nothing is written.
    pub fn write_values(&mut self, f: bool) -> (out: String)
        requires
            Self::inv(old(self)@),
        ensures
            Self::inv(final(self)@),
            final(self)@ == Self::flushed(old(self)@, f),
            out@ == Self::emitted(old(self)@, f),
    {
        proof {
            lemma_valued_pending(self@.values);
        }
        if self.values.len() == 0 {
            assert(self@.values =~= Seq::<FieldSpec>::empty());
            return String::new();
        }
        let mut out: Vec<char> = Vec::new();
        out.push('{');
        match self.report_output {
            ReportOutput::ToStdout => match &self.report_suffix {
                Some(suffix) => {
                    let key = json_escape("report_suffix");
                    push_str(&mut out, key.as_str());
                    out.push(':');
                    let message = suffix.message();
                    push_str(&mut out, message.as_str());
                    out.push(',');
                },
                None => {},
            },
            _ => {},
        }
        assert(out@ =~= seq!['{'] + self@.head());
        let parts = self.members();
        push_joined(&mut out, &parts, ",");
        assert(","@ =~= seq![',']) by {
            reveal_strlit(",");
        }
        if f {
            push_str(&mut out, "}\n");
        } else {
            push_str(&mut out, "},\n");
        }
        assert(out@ =~= old(self)@.object(f));
        self.values.clear();
        from_chars(&out)
    }
}

impl Report for ReportJson {
    open spec fn inv(st: ReportJsonView) -> bool {
        &&& names_unique(st.values)
        &&& all_valued(st.values)
        &&& st.report_output != ReportOutput::ToDatabase
        &&& st.report_output == ReportOutput::ToStdout ==> st.report_suffix is Some
    }

    open spec fn accepts(st: ReportJsonView, name: Seq<char>) -> bool {
        true
    }

    open spec fn inserted(st: ReportJsonView, name: Seq<char>, cell: CellSpec) -> ReportJsonView {
        if cell == CellSpec::Empty {
            st
        } else {
            ReportJsonView { values: with_field(st.values, name, cell), ..st }
        }
    }

    open spec fn pending(st: ReportJsonView) -> bool {
        has_value(st.values)
    }

    open spec fn flushed(st: ReportJsonView, last: bool) -> ReportJsonView {
        ReportJsonView { values: Seq::empty(), ..st }
    }

    open spec fn emitted(st: ReportJsonView, last: bool) -> Seq<char> {
        if has_value(st.values) {
            st.object(last)
        } else {
            Seq::empty()
        }
    }

    open spec fn opening(st: ReportJsonView) -> Seq<char> {
        "[\n"@
    }

    open spec fn started(st: ReportJsonView) -> ReportJsonView {
        st
    }

    open spec fn ending(st: ReportJsonView) -> Seq<char> {
        "]"@
    }

    open spec fn ended(st: ReportJsonView) -> ReportJsonView {
        st
    }

    proof fn lemma_insert(st: ReportJsonView, name: Seq<char>, cell: CellSpec) {
        if cell != CellSpec::Empty {
            lemma_with_field(st.values, name, cell);
            lemma_all_valued(st.values, name, cell);
        }
    }

    proof fn lemma_flush(st: ReportJsonView, last: bool) {
        lemma_valued_pending(st.values);
        if !has_value(st.values) {
            assert(st.values =~= Seq::<FieldSpec>::empty());
        }
    }

    fn footer(&mut self) -> (out: String) {
        self.create_new_row(true)
    }

    fn create_new_row(&mut self, f: bool) -> (out: String) {
        self.write_values(f)
    }

    fn insert_str_val(&mut self, f: &str, s: String) {
        proof {
            lemma_all_valued(self@.values, f@, CellSpec::Text(s@));
        }
        self.values.set(f, Cell::Text(s));
    }

    fn insert_int_val(&mut self, f: &str, n: u64) {
        proof {
            lemma_all_valued(self@.values, f@, CellSpec::Integer(n));
        }
        self.values.set(f, Cell::Integer(n));
    }

    fn set_field(&mut self, f: &str) {
    }

    fn start_file(&mut self) -> (out: String) {
        "[\n".to_owned()
    }

    fn end_file(&mut self) -> (out: String) {
        "]".to_owned()
    }

    fn is_some_val_in_record(&self) -> (r: bool) {
        self.values.has_value()
    }
}

} // verus!
