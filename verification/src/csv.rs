//! The CSV sink: a report as a header line and one row per record.

use crate::error::ReportError;
use crate::record::{
    blanked, has_name, has_value, lemma_with_field, names_unique, with_field, Cell, CellSpec,
    FieldSpec, Record,
};
use crate::report::{Report, ReportOutput, ReportSuffix};
use crate::seqs::lemma_flat_map_push;
use crate::text::{
    decimal, from_chars, joined, parts_view, push_decimal, push_joined, push_str, to_chars,
};
use vstd::prelude::*;

verus! {

/// How a character stands inside a quoted CSV cell: a double quote twice, a
/// line feed and a carriage return as a backslash with `n` or `r`.
pub open spec fn csv_char(c: char) -> Seq<char> {
    if c == '"' {
        seq!['"', '"']
    } else if c == '\n' {
        seq!['\\', 'n']
    } else if c == '\r' {
        seq!['\\', 'r']
    } else {
        seq![c]
    }
}

/// [`csv_char`] as a function value.
pub open spec fn csv_char_fn() -> spec_fn(char) -> Seq<char> {
    |c: char| csv_char(c)
}

/// `s` with each character as it stands inside a quoted CSV cell.
pub open spec fn csv_escaped(s: Seq<char>) -> Seq<char> {
    s.flat_map(csv_char_fn())
}

/// A cell in CSV: a text quoted and escaped, a number in decimal digits, an
/// empty cell as nothing.
pub open spec fn csv_cell(cell: CellSpec) -> Seq<char> {
    match cell {
        CellSpec::Empty => Seq::empty(),
        CellSpec::Text(s) => seq!['"'] + csv_escaped(s) + seq!['"'],
        CellSpec::Integer(n) => decimal(n as nat),
    }
}

/// The cells of the fields of `rec`.
pub open spec fn csv_cells(rec: Seq<FieldSpec>) -> Seq<Seq<char>> {
    rec.map_values(|f: FieldSpec| csv_cell(f.cell))
}

/// The names of the fields of `rec`.
pub open spec fn csv_names(rec: Seq<FieldSpec>) -> Seq<Seq<char>> {
    rec.map_values(|f: FieldSpec| f.name)
}

/// The mathematical value of a [`ReportCsv`].
pub struct ReportCsvView {
    pub report_output: ReportOutput,
    pub report_suffix: Option<ReportSuffix>,
    /// No record was written yet, so the header is still open.
    pub first_record: bool,
    pub values: Seq<FieldSpec>,
}

impl ReportCsvView {
    /// The header line: the names of the fields, comma-separated. In a report
    /// to stdout a line break and the category column come first.
    pub open spec fn header(self) -> Seq<char> {
        (if self.report_output == ReportOutput::ToStdout {
            "\nReportSuffix,"@
        } else {
            Seq::empty()
        }) + joined(csv_names(self.values), seq![','])
    }

    /// What stands at the head of every row: in a report to stdout the
    /// category and a comma, else nothing.
    pub open spec fn head(self) -> Seq<char> {
        match self.report_suffix {
            Some(suffix) if self.report_output == ReportOutput::ToStdout => suffix.message_text()
                + seq![','],
            _ => Seq::empty(),
        }
    }

    /// The pending record as a row: a line break, then the cells in the order
    /// of the fields, comma-separated.
    pub open spec fn row(self) -> Seq<char> {
        seq!['\n'] + self.head() + joined(csv_cells(self.values), seq![','])
    }
}

/// A report as comma-separated values: a header line with the field names,
/// then one row per record.
///
/// The header is written with the first record and holds the names known by
/// then. A field that is first named after that finds no column, and its
/// value is dropped.
#[derive(Debug)]
pub struct ReportCsv {
    report_output: ReportOutput,
    report_suffix: Option<ReportSuffix>,
    first_record: bool,
    values: Record,
}

impl View for ReportCsv {
    type V = ReportCsvView;

    closed spec fn view(&self) -> ReportCsvView {
        ReportCsvView {
            report_output: self.report_output,
            report_suffix: self.report_suffix,
            first_record: self.first_record,
            values: self.values@,
        }
    }
}

impl ReportCsv {
    /// The sink that `new` makes for the given destination, or why it makes
    /// none.
    pub open spec fn created(
        report_output: ReportOutput,
        report_suffix: Option<ReportSuffix>,
    ) -> Result<ReportCsvView, ReportError> {
        match report_output {
            ReportOutput::ToFile => Ok(
                ReportCsvView {
                    report_output,
                    report_suffix: None,
                    first_record: true,
                    values: Seq::empty(),
                },
            ),
            ReportOutput::ToStdout => match report_suffix {
                Some(_) => Ok(
                    ReportCsvView {
                        report_output,
                        report_suffix,
                        first_record: true,
                        values: Seq::empty(),
                    },
                ),
                None => Err(ReportError::MissingSuffix),
            },
            ReportOutput::ToDatabase => Err(ReportError::CsvToDatabase),
        }
    }

    /// A CSV sink for a file or for stdout. A report to a file carries no
    /// category; one to stdout needs it.
    pub fn new(report_output: ReportOutput, report_suffix: Option<ReportSuffix>) -> (r: Result<
        Self,
        ReportError,
    >)
        ensures
            match r {
                Ok(sink) => Self::created(report_output, report_suffix) == Ok::<
                    ReportCsvView,
                    ReportError,
                >(sink@) && Self::inv(sink@),
                Err(e) => Self::created(report_output, report_suffix) == Err::<
                    ReportCsvView,
                    ReportError,
                >(e),
            },
    {
        match report_output {
            ReportOutput::ToFile => Ok(
                ReportCsv {
                    report_output,
                    report_suffix: None,
                    first_record: true,
                    values: Record::new(),
                },
            ),
            ReportOutput::ToStdout => match report_suffix {
                Some(_) => Ok(
                    ReportCsv {
                        report_output,
                        report_suffix,
                        first_record: true,
                        values: Record::new(),
                    },
                ),
                None => Err(ReportError::MissingSuffix),
            },
            ReportOutput::ToDatabase => Err(ReportError::CsvToDatabase),
        }
    }

    /// Appends `s` to `out` as it stands inside a quoted cell.
    fn escape(out: &mut Vec<char>, s: &str)
        ensures
            final(out)@ == old(out)@ + csv_escaped(s@),
    {
        let chars = to_chars(s);
        let mut i: usize = 0;
        assert(s@.take(0) =~= Seq::<char>::empty());
        assert(out@ =~= old(out)@ + csv_escaped(s@.take(0)));
        while i < chars.len()
            invariant
                i <= chars.len(),
                chars@ == s@,
                out@ == old(out)@ + csv_escaped(s@.take(i as int)),
            decreases chars.len() - i,
        {
            let c = chars[i];
            let ghost before = out@;
            proof {
                assert(s@.take(i + 1) =~= s@.take(i as int).push(c));
                lemma_flat_map_push(s@.take(i as int), csv_char_fn(), c);
            }
            if c == '"' {
                out.push('"');
                out.push('"');
            } else if c == '\n' {
                out.push('\\');
                out.push('n');
            } else if c == '\r' {
                out.push('\\');
                out.push('r');
            } else {
                out.push(c);
            }
            assert(out@ =~= before + csv_char(c));
            i += 1;
        }
        assert(s@.take(chars.len() as int) =~= s@);
    }

    /// The header line of the report.
    pub fn write_header(&self) -> (out: String)
        ensures
            out@ == self@.header(),
    {
        let mut out: Vec<char> = Vec::new();
        match self.report_output {
            ReportOutput::ToStdout => {
                push_str(&mut out, "\nReportSuffix,");
            },
            _ => {},
        }
        let mut parts: Vec<Vec<char>> = Vec::new();
        let mut i: usize = 0;
        while i < self.values.len()
            invariant
                i <= self.values@.len(),
                parts.len() == i,
                forall|k: int| 0 <= k < i ==> (#[trigger] parts@[k])@ == self.values@[k].name,
            decreases self.values@.len() - i,
        {
            parts.push(to_chars(self.values.get(i).name.as_str()));
            i += 1;
        }
        assert(parts_view(parts@) =~= csv_names(self@.values));
        push_joined(&mut out, &parts, ",");
        assert(","@ =~= seq![',']) by {
            reveal_strlit(",");
        }
        from_chars(&out)
    }

    /// Writes the pending record as one row and empties its cells. The names
    /// stay, so that the next row has the same columns.
    pub fn write_values(&mut self) -> (out: String)
        requires
            Self::inv(old(self)@),
        ensures
            Self::inv(final(self)@),
            final(self)@ == (ReportCsvView { values: blanked(old(self)@.values), ..old(self)@ }),
            out@ == old(self)@.row(),
    {
        let mut out: Vec<char> = Vec::new();
        out.push('\n');
        match self.report_output {
            ReportOutput::ToStdout => match &self.report_suffix {
                Some(suffix) => {
                    let message = suffix.message();
                    push_str(&mut out, message.as_str());
                    out.push(',');
                },
                None => {},
            },
            _ => {},
        }
        assert(out@ =~= seq!['\n'] + self@.head());
        let mut parts: Vec<Vec<char>> = Vec::new();
        let mut i: usize = 0;
        while i < self.values.len()
            invariant
                i <= self.values@.len(),
                parts.len() == i,
                forall|k: int|
                    0 <= k < i ==> (#[trigger] parts@[k])@ == csv_cell(self.values@[k].cell),
            decreases self.values@.len() - i,
        {
            let mut part: Vec<char> = Vec::new();
            match &self.values.get(i).cell {
                Cell::Empty => {},
                Cell::Text(s) => {
                    part.push('"');
                    Self::escape(&mut part, s.as_str());
                    part.push('"');
                },
                Cell::Integer(n) => {
                    push_decimal(&mut part, *n);
                },
            }
            assert(part@ =~= csv_cell(self.values@[i as int].cell));
            parts.push(part);
            i += 1;
        }
        assert(parts_view(parts@) =~= csv_cells(self@.values));
        push_joined(&mut out, &parts, ",");
        assert(","@ =~= seq![',']) by {
            reveal_strlit(",");
        }
        assert(out@ =~= old(self)@.row());
        self.values.blank();
        from_chars(&out)
    }

    /// Stores `v` under the field name `f`, in the column of that name. While
    /// the header is open a new name gets a new column; afterwards a new name
    /// has no column and `v` is dropped.
    pub fn update_field_with_value(&mut self, f: &str, v: Cell)
        requires
            Self::inv(old(self)@),
        ensures
            Self::inv(final(self)@),
            final(self)@ == Self::inserted(old(self)@, f@, v@),
    {
        proof {
            lemma_with_field(self@.values, f@, v@);
        }
        if self.first_record {
            self.values.set(f, v);
        } else {
            match self.values.position(f) {
                Some(i) => {
                    assert(self@.values[i as int].name == f@);
                    self.values.set(f, v);
                },
                None => {},
            }
        }
    }
}

impl Report for ReportCsv {
    open spec fn inv(st: ReportCsvView) -> bool {
        &&& names_unique(st.values)
        &&& st.report_output != ReportOutput::ToDatabase
        &&& st.report_output == ReportOutput::ToStdout ==> st.report_suffix is Some
    }

    open spec fn accepts(st: ReportCsvView, name: Seq<char>) -> bool {
        st.first_record || has_name(st.values, name)
    }

    open spec fn inserted(st: ReportCsvView, name: Seq<char>, cell: CellSpec) -> ReportCsvView {
        if st.first_record || has_name(st.values, name) {
            ReportCsvView { values: with_field(st.values, name, cell), ..st }
        } else {
            st
        }
    }

    open spec fn pending(st: ReportCsvView) -> bool {
        has_value(st.values)
    }

    open spec fn flushed(st: ReportCsvView, last: bool) -> ReportCsvView {
        if has_value(st.values) {
            ReportCsvView { first_record: false, values: blanked(st.values), ..st }
        } else {
            st
        }
    }

    open spec fn emitted(st: ReportCsvView, last: bool) -> Seq<char> {
        if has_value(st.values) {
            (if st.first_record {
                st.header()
            } else {
                Seq::empty()
            }) + st.row()
        } else {
            Seq::empty()
        }
    }

    open spec fn opening(st: ReportCsvView) -> Seq<char> {
        Seq::empty()
    }

    open spec fn started(st: ReportCsvView) -> ReportCsvView {
        st
    }

    open spec fn ending(st: ReportCsvView) -> Seq<char> {
        Seq::empty()
    }

    open spec fn ended(st: ReportCsvView) -> ReportCsvView {
        st
    }

    proof fn lemma_insert(st: ReportCsvView, name: Seq<char>, cell: CellSpec) {
        lemma_with_field(st.values, name, cell);
    }

    proof fn lemma_flush(st: ReportCsvView, last: bool) {
        let b = blanked(st.values);
        assert forall|i: int, j: int| 0 <= i < j < b.len() implies b[i].name != b[j].name by {
            assert(st.values[i].name != st.values[j].name);
        }
    }

    fn footer(&mut self) -> (out: String) {
        self.create_new_row(true)
    }

    fn create_new_row(&mut self, _f: bool) -> (out: String) {
        if self.is_some_val_in_record() {
            let mut out: Vec<char> = Vec::new();
            if self.first_record {
                let header = self.write_header();
                push_str(&mut out, header.as_str());
                self.first_record = false;
            }
            let row = self.write_values();
            push_str(&mut out, row.as_str());
            from_chars(&out)
        } else {
            String::new()
        }
    }

    fn insert_str_val(&mut self, f: &str, s: String) {
        self.update_field_with_value(f, Cell::Text(s));
    }

    fn insert_int_val(&mut self, f: &str, n: u64) {
        self.update_field_with_value(f, Cell::Integer(n));
    }

    fn set_field(&mut self, f: &str) {
        self.update_field_with_value(f, Cell::Empty);
    }

    fn start_file(&mut self) -> (out: String) {
        String::new()
    }

    fn end_file(&mut self) -> (out: String) {
        String::new()
    }

    fn is_some_val_in_record(&self) -> (r: bool) {
        self.values.has_value()
    }
}

} // verus!
