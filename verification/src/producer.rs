//! The producer of reports: it names each report and makes its sink.

use crate::csv::ReportCsv;
use crate::error::ReportError;
use crate::json::ReportJson;
use crate::mssql::{ReportMSSQL, ReportMSSQLView};
use crate::report::{
    Report, ReportFormat, ReportOutput, ReportSink, ReportSinkView, ReportSuffix,
};
use crate::text::{from_chars, optional_text, push_str, to_chars};
use crate::time::{utc_text, UtcTime};
use vstd::prelude::*;

verus! {

/// The state in which a database was left, as its header says.
#[derive(Clone, Copy, Debug, PartialEq, Eq, Structural)]
pub enum DbState {
    Impossible,
    JustCreated,
    DirtyShutdown,
    CleanShutdown,
    BeingConverted,
    ForceDetach,
}

/// Whether a database in the state `db_state` counts as dirty: any known
/// state but a clean shutdown.
pub open spec fn is_dirty(db_state: Option<DbState>) -> bool {
    match db_state {
        Some(state) => state != DbState::CleanShutdown,
        None => false,
    }
}

/// The pattern of the time in the name of a report file: date and time of
/// day, and the fraction of the second where there is one.
pub open spec fn file_stamp_pattern() -> Seq<char> {
    "%Y%m%d_%H%M%S%.f"@
}

/// The pattern of the time in the name of a report table: date and time of
/// day.
pub open spec fn table_stamp_pattern() -> Seq<char> {
    "%Y%m%d_%H%M%S"@
}

/// The extension of the files of a format.
pub open spec fn extension(format: ReportFormat) -> Seq<char> {
    match format {
        ReportFormat::Json => "json"@,
        ReportFormat::Csv => "csv"@,
        ReportFormat::NoFormat => ""@,
    }
}

/// The name of a report file: host name, category label and time, joined by
/// underscores; `_dirty` for a dirty database; a dot and the extension.
pub open spec fn report_file_name(
    hostname: Seq<char>,
    label: Seq<char>,
    stamp: Seq<char>,
    dirty: bool,
    ext: Seq<char>,
) -> Seq<char> {
    hostname + seq!['_'] + label + seq!['_'] + stamp + (if dirty {
        "_dirty"@
    } else {
        Seq::empty()
    }) + seq!['.'] + ext
}

/// The name of a report table: host name, category label and time, joined
/// by underscores.
pub open spec fn report_table_name(hostname: Seq<char>, label: Seq<char>, stamp: Seq<char>) -> Seq<
    char,
> {
    hostname + seq!['_'] + label + seq!['_'] + stamp
}

/// The name of the report file for the given parts.
pub fn file_name(hostname: &str, label: &str, stamp: &str, dirty: bool, ext: &str) -> (r: String)
    ensures
        r@ == report_file_name(hostname@, label@, stamp@, dirty, ext@),
{
    let mut out: Vec<char> = to_chars(hostname);
    out.push('_');
    push_str(&mut out, label);
    out.push('_');
    push_str(&mut out, stamp);
    if dirty {
        push_str(&mut out, "_dirty");
    }
    out.push('.');
    push_str(&mut out, ext);
    from_chars(&out)
}

/// The name of the report table for the given parts.
pub fn table_name(hostname: &str, label: &str, stamp: &str) -> (r: String)
    ensures
        r@ == report_table_name(hostname@, label@, stamp@),
{
    let mut out: Vec<char> = to_chars(hostname);
    out.push('_');
    push_str(&mut out, label);
    out.push('_');
    push_str(&mut out, stamp);
    from_chars(&out)
}

/// The mathematical value of a [`ReportProducer`].
pub struct ReportProducerView {
    pub dir: Seq<char>,
    pub format: ReportFormat,
    pub report_type: ReportOutput,
    pub instance: Option<Seq<char>>,
    pub database: Option<Seq<char>>,
}

impl ReportProducerView {
    /// The name of the report file for the host `hostname`, the category
    /// label `label`, the time `now` and the extension `ext`, marked as dirty
    /// by the state of the database; `None` where the time cannot be written.
    pub open spec fn file_name(
        self,
        hostname: Seq<char>,
        label: Seq<char>,
        now: UtcTime,
        ext: Seq<char>,
        db_state: Option<DbState>,
    ) -> Option<Seq<char>> {
        match utc_text(now.secs as int, now.nanos as int, file_stamp_pattern()) {
            Some(stamp) => Some(report_file_name(hostname, label, stamp, is_dirty(db_state), ext)),
            None => None,
        }
    }

    /// The sink for the table `table` and the category `suffix`: one for the
    /// database where the reports go there, else one of the chosen format.
    pub open spec fn sink(self, table: Seq<char>, suffix: ReportSuffix) -> Result<
        ReportSinkView,
        ReportError,
    > {
        if self.report_type == ReportOutput::ToDatabase {
            match (self.instance, self.database) {
                (Some(instance), Some(database)) => if suffix == ReportSuffix::Unknown {
                    Err(ReportError::InvalidSuffix)
                } else {
                    Ok(
                        ReportSinkView::Mssql(
                            ReportMSSQLView {
                                instance,
                                database,
                                table_name: table,
                                report_suffix: Some(suffix),
                                table_created: false,
                                values: Seq::empty(),
                                rows: Seq::empty(),
                            },
                        ),
                    )
                },
                _ => Err(ReportError::MissingDatabase),
            }
        } else {
            match self.format {
                ReportFormat::Json => match ReportJson::created(self.report_type, Some(suffix)) {
                    Ok(v) => Ok(ReportSinkView::Json(v)),
                    Err(e) => Err(e),
                },
                ReportFormat::Csv => match ReportCsv::created(self.report_type, Some(suffix)) {
                    Ok(v) => Ok(ReportSinkView::Csv(v)),
                    Err(e) => Err(e),
                },
                ReportFormat::NoFormat => Err(ReportError::NoFormat),
            }
        }
    }

    /// The report for the host `hostname` and the category label `label` at
    /// the time `now`: the name of its file, empty for a report to the
    /// database, and its sink.
    pub open spec fn report(
        self,
        hostname: Seq<char>,
        label: Seq<char>,
        db_state: Option<DbState>,
        now: UtcTime,
    ) -> Result<(Seq<char>, ReportSinkView), ReportError> {
        match (
            self.file_name(hostname, label, now, extension(self.format), db_state),
            utc_text(now.secs as int, now.nanos as int, table_stamp_pattern()),
        ) {
            (Some(file), Some(stamp)) => match self.sink(
                report_table_name(hostname, label, stamp),
                ReportSuffix::of_label(label),
            ) {
                Ok(sink) => Ok(
                    (
                        if self.report_type == ReportOutput::ToDatabase {
                            Seq::empty()
                        } else {
                            file
                        },
                        sink,
                    ),
                ),
                Err(e) => Err(e),
            },
            _ => Err(ReportError::InvalidTime),
        }
    }
}

/// Whether the dirty-database flag could only change the name of the file:
/// the two reports, made for two states of the database and else alike, are
/// both refused for the same reason, or both made with the same sink, and
/// with the same file name too where they agree on the flag or go to the
/// database.
pub open spec fn same_but_for_name(
    p: ReportProducerView,
    one: Result<(Seq<char>, ReportSinkView), ReportError>,
    other: Result<(Seq<char>, ReportSinkView), ReportError>,
    same_flag: bool,
) -> bool {
    match (one, other) {
        (Ok(a), Ok(b)) => a.1 == b.1 && (same_flag || p.report_type == ReportOutput::ToDatabase
            ==> a.0 == b.0),
        (Err(e1), Err(e2)) => e1 == e2,
        _ => false,
    }
}

/// The state of the database decides on nothing but the name of the report
/// file: whatever the state, the same sink is made, with the same table
/// name, or the report is refused for the same reason.
pub proof fn lemma_dirty_flag_only_names(
    p: ReportProducerView,
    hostname: Seq<char>,
    label: Seq<char>,
    now: UtcTime,
    one: Option<DbState>,
    other: Option<DbState>,
)
    ensures
        same_but_for_name(
            p,
            p.report(hostname, label, one, now),
            p.report(hostname, label, other, now),
            is_dirty(one) == is_dirty(other),
        ),
{
}

/// Makes the reports of one run: it knows where they go and in which format.
#[derive(Debug)]
pub struct ReportProducer {
    dir: String,
    format: ReportFormat,
    report_type: ReportOutput,
    instance: Option<String>,
    database: Option<String>,
}

impl View for ReportProducer {
    type V = ReportProducerView;

    closed spec fn view(&self) -> ReportProducerView {
        ReportProducerView {
            dir: self.dir@,
            format: self.format,
            report_type: self.report_type,
            instance: optional_text(self.instance),
            database: optional_text(self.database),
        }
    }
}

impl ReportProducer {
    /// A producer of reports in `format` that go to `report_type`: files
    /// under the directory `dir`, or tables of `database` on the server
    /// `instance`.
    pub fn new(
        dir: &str,
        format: ReportFormat,
        report_type: ReportOutput,
        instance: Option<String>,
        database: Option<String>,
    ) -> (r: Self)
        ensures
            r@ == (ReportProducerView {
                dir: dir@,
                format,
                report_type,
                instance: optional_text(instance),
                database: optional_text(database),
            }),
    {
        ReportProducer { dir: dir.to_owned(), format, report_type, instance, database }
    }

    /// The directory of the report files.
    pub fn get_dir(&self) -> (r: &str)
        ensures
            r@ == self@.dir,
    {
        self.dir.as_str()
    }

    /// Where the reports go.
    pub fn get_report_type(&self) -> (r: ReportOutput)
        ensures
            r == self@.report_type,
    {
        self.report_type
    }

    /// Whether a database in the state `db_state` counts as dirty.
    pub fn is_db_dirty(&self, db_state: Option<DbState>) -> (r: bool)
        ensures
            r == is_dirty(db_state),
    {
        match db_state {
            Some(DbState::CleanShutdown) => false,
            Some(_) => true,
            None => false,
        }
    }

    /// The name of the report file, to stand under the directory of the
    /// reports.
    pub fn get_path_db_status(
        &self,
        recovered_hostname: &str,
        report_suffix: &str,
        date_time_now: UtcTime,
        ext: &str,
        edb_database_state: Option<DbState>,
    ) -> (r: Option<String>)
        ensures
            optional_text(r) == self@.file_name(
                recovered_hostname@,
                report_suffix@,
                date_time_now,
                ext@,
                edb_database_state,
            ),
    {
        let dirty = self.is_db_dirty(edb_database_state);
        match date_time_now.format("%Y%m%d_%H%M%S%.f") {
            Some(stamp) => Some(
                file_name(recovered_hostname, report_suffix, stamp.as_str(), dirty, ext),
            ),
            None => None,
        }
    }

    /// The sink for the table `table` and the category `suffix`.
    fn new_sink(&self, table: &str, suffix: ReportSuffix) -> (r: Result<ReportSink, ReportError>)
        ensures
            match r {
                Ok(sink) => self@.sink(table@, suffix) == Ok::<ReportSinkView, ReportError>(sink@)
                    && ReportSink::inv(sink@),
                Err(e) => self@.sink(table@, suffix) == Err::<ReportSinkView, ReportError>(e),
            },
    {
        match self.report_type {
            ReportOutput::ToDatabase => match (&self.instance, &self.database) {
                (Some(instance), Some(database)) => {
                    let sink = ReportMSSQL::new(
                        table,
                        instance.as_str(),
                        database.as_str(),
                        Some(suffix),
                    );
                    if sink.has_layout() {
                        Ok(ReportSink::Mssql(sink))
                    } else {
                        Err(ReportError::InvalidSuffix)
                    }
                },
                _ => Err(ReportError::MissingDatabase),
            },
            _ => match self.format {
                ReportFormat::Json => match ReportJson::new(self.report_type, Some(suffix)) {
                    Ok(sink) => Ok(ReportSink::Json(sink)),
                    Err(e) => Err(e),
                },
                ReportFormat::Csv => match ReportCsv::new(self.report_type, Some(suffix)) {
                    Ok(sink) => Ok(ReportSink::Csv(sink)),
                    Err(e) => Err(e),
                },
                ReportFormat::NoFormat => Err(ReportError::NoFormat),
            },
        }
    }

    /// Makes the report for the host `recovered_hostname` and the category
    /// label `report_suffix` at the time `date_time_now`: the name of its
    /// file, empty for a report to the database, and its sink.
    pub fn new_report(
        &self,
        recovered_hostname: &str,
        report_suffix: &str,
        edb_database_state: Option<DbState>,
        date_time_now: UtcTime,
    ) -> (r: Result<(String, ReportSink), ReportError>)
        ensures
            match r {
                Ok((path, sink)) => self@.report(
                    recovered_hostname@,
                    report_suffix@,
                    edb_database_state,
                    date_time_now,
                ) == Ok::<(Seq<char>, ReportSinkView), ReportError>((path@, sink@))
                    && ReportSink::inv(sink@),
                Err(e) => self@.report(
                    recovered_hostname@,
                    report_suffix@,
                    edb_database_state,
                    date_time_now,
                ) == Err::<(Seq<char>, ReportSinkView), ReportError>(e),
            },
    {
        let ext = match self.format {
            ReportFormat::Json => "json",
            ReportFormat::Csv => "csv",
            ReportFormat::NoFormat => "",
        };
        let path = self.get_path_db_status(
            recovered_hostname,
            report_suffix,
            date_time_now,
            ext,
            edb_database_state,
        );
        let stamp = date_time_now.format("%Y%m%d_%H%M%S");
        match (path, stamp) {
            (Some(path), Some(stamp)) => {
                let table = table_name(recovered_hostname, report_suffix, stamp.as_str());
                let suffix = match ReportSuffix::get_match(report_suffix) {
                    Some(suffix) => suffix,
                    None => ReportSuffix::Unknown,
                };
                match self.new_sink(table.as_str(), suffix) {
                    Ok(sink) => {
                        let path = match self.report_type {
                            ReportOutput::ToDatabase => String::new(),
                            _ => path,
                        };
                        Ok((path, sink))
                    },
                    Err(e) => Err(e),
                }
            },
            _ => Err(ReportError::InvalidTime),
        }
    }
}

} // verus!
