//! The common contract of the report sinks, and the sink of any kind.
//!
//! A sink buffers the fields of one record and, on a flush, hands back the
//! text that the record takes in the sink's format. The caller writes that
//! text to the file or stream it has opened, or executes it on its
//! connection.

pub use crate::csv::{ReportCsv, ReportCsvView};
pub use crate::json::{ReportJson, ReportJsonView};
use crate::mssql::{ReportMSSQL, ReportMSSQLView};
pub use crate::producer::{file_name, table_name, DbState, ReportProducer, ReportProducerView};
use crate::record::CellSpec;
use crate::text::{from_chars, push_str, str_equal, to_chars};
use crate::utils::{json_escape, json_string};
use vstd::prelude::*;

verus! {

/// How a report is serialized.
#[derive(Clone, Copy, Debug, PartialEq, Eq, Structural)]
pub enum ReportFormat {
    Json,
    Csv,
    NoFormat,
}

/// Where a report goes.
#[derive(Clone, Copy, Debug, PartialEq, Eq, Structural)]
pub enum ReportOutput {
    ToFile,
    ToStdout,
    ToDatabase,
}

/// The category of a report.
#[derive(Clone, Copy, Debug, PartialEq, Eq, Structural)]
pub enum ReportSuffix {
    FileReport,
    ActivityHistory,
    InternetHistory,
    Unknown,
}

impl ReportSuffix {
    /// The category that the label `output_type` names.
    pub open spec fn of_label(output_type: Seq<char>) -> ReportSuffix {
        if output_type == "File_Report"@ {
            ReportSuffix::FileReport
        } else if output_type == "Activity_History_Report"@ {
            ReportSuffix::ActivityHistory
        } else if output_type == "Internet_History_Report"@ {
            ReportSuffix::InternetHistory
        } else {
            ReportSuffix::Unknown
        }
    }

    /// The category that the label `output_type` names; `Unknown` for any
    /// other text.
    pub fn get_match(output_type: &str) -> (r: Option<ReportSuffix>)
        ensures
            r == Some(ReportSuffix::of_label(output_type@)),
    {
        if str_equal(output_type, "File_Report") {
            Some(ReportSuffix::FileReport)
        } else if str_equal(output_type, "Activity_History_Report") {
            Some(ReportSuffix::ActivityHistory)
        } else if str_equal(output_type, "Internet_History_Report") {
            Some(ReportSuffix::InternetHistory)
        } else {
            Some(ReportSuffix::Unknown)
        }
    }

    /// The name of the category in reports.
    pub open spec fn label(self) -> Seq<char> {
        match self {
            ReportSuffix::FileReport => "file_report"@,
            ReportSuffix::ActivityHistory => "activity_history"@,
            ReportSuffix::InternetHistory => "internet_history"@,
            ReportSuffix::Unknown => ""@,
        }
    }

    /// The name of the category as a JSON string.
    pub open spec fn message_text(self) -> Seq<char> {
        json_string(self.label())
    }

    /// The name of the category as a JSON string.
    pub fn message(&self) -> (r: String)
        ensures
            r@ == self.message_text(),
    {
        match self {
            ReportSuffix::FileReport => json_escape("file_report"),
            ReportSuffix::ActivityHistory => json_escape("activity_history"),
            ReportSuffix::InternetHistory => json_escape("internet_history"),
            ReportSuffix::Unknown => json_escape(""),
        }
    }
}

/// A destination of records.
///
/// A sink is described by its view. The spec functions say, on views, what
/// each operation does; the laws relate them.
pub trait Report: View + Sized {
    /// The states that a sink can be in.
    spec fn inv(st: Self::V) -> bool;

    /// Whether a field called `name` finds a place in the pending record.
    spec fn accepts(st: Self::V, name: Seq<char>) -> bool;

    /// The state after `cell` was stored under `name`.
    spec fn inserted(st: Self::V, name: Seq<char>, cell: CellSpec) -> Self::V;

    /// Whether the pending record holds a value.
    spec fn pending(st: Self::V) -> bool;

    /// The state after a flush of the pending record.
    spec fn flushed(st: Self::V, last: bool) -> Self::V;

    /// What a flush of the pending record hands to the backend.
    spec fn emitted(st: Self::V, last: bool) -> Seq<char>;

    /// What the start of the report hands to the backend.
    spec fn opening(st: Self::V) -> Seq<char>;

    /// The state after the start of the report.
    spec fn started(st: Self::V) -> Self::V;

    /// What the end of the report hands to the backend.
    spec fn ending(st: Self::V) -> Seq<char>;

    /// The state after the end of the report.
    spec fn ended(st: Self::V) -> Self::V;

    /// Storing a field keeps the sink valid. A value stored under an accepted
    /// name is pending, and a value never removes what is pending.
    proof fn lemma_insert(st: Self::V, name: Seq<char>, cell: CellSpec)
        requires
            Self::inv(st),
        ensures
            Self::inv(Self::inserted(st, name, cell)),
            cell != CellSpec::Empty && Self::accepts(st, name) ==> Self::pending(
                Self::inserted(st, name, cell),
            ),
            cell != CellSpec::Empty && Self::pending(st) ==> Self::pending(
                Self::inserted(st, name, cell),
            ),
    ;

    /// A flush leaves nothing pending. With nothing pending it changes
    /// nothing and emits nothing.
    proof fn lemma_flush(st: Self::V, last: bool)
        requires
            Self::inv(st),
        ensures
            Self::inv(Self::flushed(st, last)),
            !Self::pending(Self::flushed(st, last)),
            !Self::pending(st) ==> Self::flushed(st, last) == st && Self::emitted(st, last)
                == Seq::<char>::empty(),
    ;

    /// Flushes the last record of the report.
    fn footer(&mut self) -> (out: String)
        requires
            Self::inv(old(self)@),
        ensures
            Self::inv(final(self)@),
            final(self)@ == Self::flushed(old(self)@, true),
            out@ == Self::emitted(old(self)@, true),
    ;

    /// Flushes the pending record, if it holds a value. `f` says that no
    /// record will follow.
    fn create_new_row(&mut self, f: bool) -> (out: String)
        requires
            Self::inv(old(self)@),
        ensures
            Self::inv(final(self)@),
            final(self)@ == Self::flushed(old(self)@, f),
            out@ == Self::emitted(old(self)@, f),
    ;

    /// Stores the text `s` under the field name `f`.
    fn insert_str_val(&mut self, f: &str, s: String)
        requires
            Self::inv(old(self)@),
        ensures
            Self::inv(final(self)@),
            final(self)@ == Self::inserted(old(self)@, f@, CellSpec::Text(s@)),
    ;

    /// Stores the number `n` under the field name `f`.
    fn insert_int_val(&mut self, f: &str, n: u64)
        requires
            Self::inv(old(self)@),
        ensures
            Self::inv(final(self)@),
            final(self)@ == Self::inserted(old(self)@, f@, CellSpec::Integer(n)),
    ;

    /// Makes the field name `f` known without a value.
    fn set_field(&mut self, f: &str)
        requires
            Self::inv(old(self)@),
        ensures
            Self::inv(final(self)@),
            final(self)@ == Self::inserted(old(self)@, f@, CellSpec::Empty),
    ;

    /// Starts the report.
    fn start_file(&mut self) -> (out: String)
        requires
            Self::inv(old(self)@),
        ensures
            Self::inv(final(self)@),
            final(self)@ == Self::started(old(self)@),
            out@ == Self::opening(old(self)@),
    ;

    /// Ends the report.
    fn end_file(&mut self) -> (out: String)
        requires
            Self::inv(old(self)@),
        ensures
            Self::inv(final(self)@),
            final(self)@ == Self::ended(old(self)@),
            out@ == Self::ending(old(self)@),
    ;

    /// Whether the pending record holds a value.
    fn is_some_val_in_record(&self) -> (r: bool)
        requires
            Self::inv(self@),
        ensures
            r == Self::pending(self@),
    ;
}

/// What the whole close of a sink hands to the backend: the last record,
/// then the end of the report.
pub open spec fn closing<R: Report>(st: R::V) -> Seq<char> {
    R::emitted(st, true) + R::ending(R::flushed(st, true))
}

/// Flushes the last record and ends the report.
pub fn close_report<R: Report>(r: &mut R) -> (out: String)
    requires
        R::inv(old(r)@),
    ensures
        R::inv(final(r)@),
        final(r)@ == R::ended(R::flushed(old(r)@, true)),
        out@ == closing::<R>(old(r)@),
{
    let last = r.footer();
    let end = r.end_file();
    let mut out = to_chars(last.as_str());
    push_str(&mut out, end.as_str());
    from_chars(&out)
}

/// A sink of any of the three kinds.
#[derive(Debug)]
pub enum ReportSink {
    Json(ReportJson),
    Csv(ReportCsv),
    Mssql(ReportMSSQL),
}

/// The mathematical value of a [`ReportSink`].
pub enum ReportSinkView {
    Json(ReportJsonView),
    Csv(ReportCsvView),
    Mssql(ReportMSSQLView),
}

impl View for ReportSink {
    type V = ReportSinkView;

    open spec fn view(&self) -> ReportSinkView {
        match self {
            ReportSink::Json(r) => ReportSinkView::Json(r@),
            ReportSink::Csv(r) => ReportSinkView::Csv(r@),
            ReportSink::Mssql(r) => ReportSinkView::Mssql(r@),
        }
    }
}

impl Report for ReportSink {
    open spec fn inv(st: ReportSinkView) -> bool {
        match st {
            ReportSinkView::Json(v) => ReportJson::inv(v),
            ReportSinkView::Csv(v) => ReportCsv::inv(v),
            ReportSinkView::Mssql(v) => ReportMSSQL::inv(v),
        }
    }

    open spec fn accepts(st: ReportSinkView, name: Seq<char>) -> bool {
        match st {
            ReportSinkView::Json(v) => ReportJson::accepts(v, name),
            ReportSinkView::Csv(v) => ReportCsv::accepts(v, name),
            ReportSinkView::Mssql(v) => ReportMSSQL::accepts(v, name),
        }
    }

    open spec fn inserted(st: ReportSinkView, name: Seq<char>, cell: CellSpec) -> ReportSinkView {
        match st {
            ReportSinkView::Json(v) => ReportSinkView::Json(ReportJson::inserted(v, name, cell)),
            ReportSinkView::Csv(v) => ReportSinkView::Csv(ReportCsv::inserted(v, name, cell)),
            ReportSinkView::Mssql(v) => ReportSinkView::Mssql(ReportMSSQL::inserted(v, name, cell)),
        }
    }

    open spec fn pending(st: ReportSinkView) -> bool {
        match st {
            ReportSinkView::Json(v) => ReportJson::pending(v),
            ReportSinkView::Csv(v) => ReportCsv::pending(v),
            ReportSinkView::Mssql(v) => ReportMSSQL::pending(v),
        }
    }

    open spec fn flushed(st: ReportSinkView, last: bool) -> ReportSinkView {
        match st {
            ReportSinkView::Json(v) => ReportSinkView::Json(ReportJson::flushed(v, last)),
            ReportSinkView::Csv(v) => ReportSinkView::Csv(ReportCsv::flushed(v, last)),
            ReportSinkView::Mssql(v) => ReportSinkView::Mssql(ReportMSSQL::flushed(v, last)),
        }
    }

    open spec fn emitted(st: ReportSinkView, last: bool) -> Seq<char> {
        match st {
            ReportSinkView::Json(v) => ReportJson::emitted(v, last),
            ReportSinkView::Csv(v) => ReportCsv::emitted(v, last),
            ReportSinkView::Mssql(v) => ReportMSSQL::emitted(v, last),
        }
    }

    open spec fn opening(st: ReportSinkView) -> Seq<char> {
        match st {
            ReportSinkView::Json(v) => ReportJson::opening(v),
            ReportSinkView::Csv(v) => ReportCsv::opening(v),
            ReportSinkView::Mssql(v) => ReportMSSQL::opening(v),
        }
    }

    open spec fn started(st: ReportSinkView) -> ReportSinkView {
        match st {
            ReportSinkView::Json(v) => ReportSinkView::Json(ReportJson::started(v)),
            ReportSinkView::Csv(v) => ReportSinkView::Csv(ReportCsv::started(v)),
            ReportSinkView::Mssql(v) => ReportSinkView::Mssql(ReportMSSQL::started(v)),
        }
    }

    open spec fn ending(st: ReportSinkView) -> Seq<char> {
        match st {
            ReportSinkView::Json(v) => ReportJson::ending(v),
            ReportSinkView::Csv(v) => ReportCsv::ending(v),
            ReportSinkView::Mssql(v) => ReportMSSQL::ending(v),
        }
    }

    open spec fn ended(st: ReportSinkView) -> ReportSinkView {
        match st {
            ReportSinkView::Json(v) => ReportSinkView::Json(ReportJson::ended(v)),
            ReportSinkView::Csv(v) => ReportSinkView::Csv(ReportCsv::ended(v)),
            ReportSinkView::Mssql(v) => ReportSinkView::Mssql(ReportMSSQL::ended(v)),
        }
    }

    proof fn lemma_insert(st: ReportSinkView, name: Seq<char>, cell: CellSpec) {
        match st {
            ReportSinkView::Json(v) => ReportJson::lemma_insert(v, name, cell),
            ReportSinkView::Csv(v) => ReportCsv::lemma_insert(v, name, cell),
            ReportSinkView::Mssql(v) => ReportMSSQL::lemma_insert(v, name, cell),
        }
    }

    proof fn lemma_flush(st: ReportSinkView, last: bool) {
        match st {
            ReportSinkView::Json(v) => ReportJson::lemma_flush(v, last),
            ReportSinkView::Csv(v) => ReportCsv::lemma_flush(v, last),
            ReportSinkView::Mssql(v) => ReportMSSQL::lemma_flush(v, last),
        }
    }

    fn footer(&mut self) -> (out: String) {
        match self {
            ReportSink::Json(r) => r.footer(),
            ReportSink::Csv(r) => r.footer(),
            ReportSink::Mssql(r) => r.footer(),
        }
    }

    fn create_new_row(&mut self, f: bool) -> (out: String) {
        match self {
            ReportSink::Json(r) => r.create_new_row(f),
            ReportSink::Csv(r) => r.create_new_row(f),
            ReportSink::Mssql(r) => r.create_new_row(f),
        }
    }

    fn insert_str_val(&mut self, f: &str, s: String) {
        match self {
            ReportSink::Json(r) => r.insert_str_val(f, s),
            ReportSink::Csv(r) => r.insert_str_val(f, s),
            ReportSink::Mssql(r) => r.insert_str_val(f, s),
        }
    }

    fn insert_int_val(&mut self, f: &str, n: u64) {
        match self {
            ReportSink::Json(r) => r.insert_int_val(f, n),
            ReportSink::Csv(r) => r.insert_int_val(f, n),
            ReportSink::Mssql(r) => r.insert_int_val(f, n),
        }
    }

    fn set_field(&mut self, f: &str) {
        match self {
            ReportSink::Json(r) => r.set_field(f),
            ReportSink::Csv(r) => r.set_field(f),
            ReportSink::Mssql(r) => r.set_field(f),
        }
    }

    fn start_file(&mut self) -> (out: String) {
        match self {
            ReportSink::Json(r) => r.start_file(),
            ReportSink::Csv(r) => r.start_file(),
            ReportSink::Mssql(r) => r.start_file(),
        }
    }

    fn end_file(&mut self) -> (out: String) {
        match self {
            ReportSink::Json(r) => r.end_file(),
            ReportSink::Csv(r) => r.end_file(),
            ReportSink::Mssql(r) => r.end_file(),
        }
    }

    fn is_some_val_in_record(&self) -> (r: bool) {
        match self {
            ReportSink::Json(r) => r.is_some_val_in_record(),
            ReportSink::Csv(r) => r.is_some_val_in_record(),
            ReportSink::Mssql(r) => r.is_some_val_in_record(),
        }
    }
}

} // verus!
