//! The errors of report generation.

use vstd::prelude::*;

verus! {

/// Why a report could not be set up or a value not be found.
#[derive(Clone, Copy, Debug, PartialEq, Eq, Structural)]
pub enum ReportError {
    /// No serialization format was chosen for a file or stdout report.
    NoFormat,
    /// A JSON report was asked to go to a database.
    JsonToDatabase,
    /// A CSV report was asked to go to a database.
    CsvToDatabase,
    /// A report for stdout was set up without its category.
    MissingSuffix,
    /// The category has no table layout.
    InvalidSuffix,
    /// A database report was asked for without instance or database name.
    MissingDatabase,
    /// None of the installed ODBC drivers is one for SQL Server.
    NoDriver,
    /// The time of the report cannot be written.
    InvalidTime,
    /// The table has no row.
    EmptyTable,
    /// The table has no column for the computer name.
    NoComputerNameColumn,
    /// The table has no column for the item type.
    NoItemTypeColumn,
    /// No row holds a usable computer name.
    NoComputerName,
}

impl ReportError {
    /// The message of the error, as a text.
    pub open spec fn text(self) -> Seq<char> {
        match self {
            ReportError::NoFormat => "NoFormat is not supported"@,
            ReportError::JsonToDatabase =>
                "ReportOutput::ToDatabase is not supported for JSON format"@,
            ReportError::CsvToDatabase =>
                "ReportOutput::ToDatabase is not supported for CSV format"@,
            ReportError::MissingSuffix => "A report to stdout needs a report suffix"@,
            ReportError::InvalidSuffix => "Invalid report suffix"@,
            ReportError::MissingDatabase => "No instance or database given"@,
            ReportError::NoDriver => "No compatible ODBC Driver for SQL Server found"@,
            ReportError::InvalidTime => "The time of the report is out of range"@,
            ReportError::EmptyTable => "Empty table"@,
            ReportError::NoComputerNameColumn => "Can't find field 'System_ComputerName'"@,
            ReportError::NoItemTypeColumn => "Can't find field 'System_ItemType'"@,
            ReportError::NoComputerName => "Empty field System_ComputerName"@,
        }
    }

    /// The message of the error.
    pub fn message(&self) -> (r: String)
        ensures
            r@ == self.text(),
    {
        let s: &str = match self {
            ReportError::NoFormat => "NoFormat is not supported",
            ReportError::JsonToDatabase =>
                "ReportOutput::ToDatabase is not supported for JSON format",
            ReportError::CsvToDatabase =>
                "ReportOutput::ToDatabase is not supported for CSV format",
            ReportError::MissingSuffix => "A report to stdout needs a report suffix",
            ReportError::InvalidSuffix => "Invalid report suffix",
            ReportError::MissingDatabase => "No instance or database given",
            ReportError::NoDriver => "No compatible ODBC Driver for SQL Server found",
            ReportError::InvalidTime => "The time of the report is out of range",
            ReportError::EmptyTable => "Empty table",
            ReportError::NoComputerNameColumn => "Can't find field 'System_ComputerName'",
            ReportError::NoItemTypeColumn => "Can't find field 'System_ItemType'",
            ReportError::NoComputerName => "Empty field System_ComputerName",
        };
        s.to_owned()
    }
}

} // verus!
