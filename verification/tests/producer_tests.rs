use wsa_lib::error::ReportError;
use wsa_lib::report::{
    close_report, file_name, table_name, DbState, Report, ReportFormat, ReportOutput,
    ReportProducer, ReportSink,
};
use wsa_lib::time::UtcTime;

fn report_time() -> UtcTime {
    // 2000-01-12T02:00:00Z
    UtcTime { secs: 947642400, nanos: 0 }
}

#[test]
fn file_report_is_named_by_host_label_and_time() {
    let rp = ReportProducer::new("out", ReportFormat::Json, ReportOutput::ToFile, None, None);
    let (path, mut sink) = rp
        .new_report("host", "File_Report", Some(DbState::CleanShutdown), report_time())
        .unwrap();
    assert_eq!(path, "host_File_Report_20000112_020000.json");
    assert!(matches!(sink, ReportSink::Json(_)));
    sink.insert_int_val("WorkId", 1);
    assert_eq!(close_report(&mut sink), "{\"WorkId\":1}\n]");
}

#[test]
fn dirty_database_marks_the_file_name_only() {
    let rp = ReportProducer::new("out", ReportFormat::Csv, ReportOutput::ToFile, None, None);
    let (clean_path, mut clean) = rp
        .new_report("host", "Activity_History_Report", Some(DbState::CleanShutdown), report_time())
        .unwrap();
    let (dirty_path, mut dirty) = rp
        .new_report("host", "Activity_History_Report", Some(DbState::DirtyShutdown), report_time())
        .unwrap();
    assert_eq!(clean_path, "host_Activity_History_Report_20000112_020000.csv");
    assert_eq!(dirty_path, "host_Activity_History_Report_20000112_020000_dirty.csv");
    clean.insert_int_val("WorkId", 4);
    clean.insert_str_val("System_ItemType", "x".to_string());
    dirty.insert_int_val("WorkId", 4);
    dirty.insert_str_val("System_ItemType", "x".to_string());
    assert_eq!(close_report(&mut clean), close_report(&mut dirty));
}

#[test]
fn fraction_of_the_second_is_part_of_the_file_name() {
    let rp = ReportProducer::new("out", ReportFormat::Json, ReportOutput::ToFile, None, None);
    let now = UtcTime { secs: 947642400, nanos: 500_000_000 };
    let (path, _) = rp.new_report("h", "x", None, now).unwrap();
    assert_eq!(path, "h_x_20000112_020000.500.json");
    let now = UtcTime { secs: 947642400, nanos: 123_456_789 };
    assert_eq!(
        rp.get_path_db_status("h", "x", now, "csv", Some(DbState::BeingConverted)),
        Some("h_x_20000112_020000.123456789_dirty.csv".to_string())
    );
}

#[test]
fn database_report_has_a_table_and_no_file() {
    let rp = ReportProducer::new(
        "out",
        ReportFormat::NoFormat,
        ReportOutput::ToDatabase,
        Some("server".to_string()),
        Some("db".to_string()),
    );
    let (path, mut sink) = rp
        .new_report("host", "Internet_History_Report", Some(DbState::DirtyShutdown), report_time())
        .unwrap();
    assert_eq!(path, "");
    assert!(matches!(sink, ReportSink::Mssql(_)));
    assert_eq!(
        sink.start_file(),
        "CREATE TABLE [host_Internet_History_Report_20000112_020000] ([WorkId] BIGINT NULL, \
         [System_ItemUrl] NVARCHAR(MAX) NULL, [System_ItemDate] DATETIME2 NULL, \
         [System_Link_TargetUrl] NVARCHAR(MAX) NULL, [System_Search_GatherTime] DATETIME2 NULL, \
         [System_Title] NVARCHAR(MAX) NULL, [System_Link_DateVisited] DATETIME2 NULL)"
    );
}

#[test]
fn report_errors() {
    let rp = ReportProducer::new("out", ReportFormat::NoFormat, ReportOutput::ToFile, None, None);
    assert_eq!(
        rp.new_report("h", "File_Report", None, report_time()).err(),
        Some(ReportError::NoFormat)
    );
    let rp = ReportProducer::new(
        "out",
        ReportFormat::Json,
        ReportOutput::ToDatabase,
        Some("server".to_string()),
        None,
    );
    assert_eq!(
        rp.new_report("h", "File_Report", None, report_time()).err(),
        Some(ReportError::MissingDatabase)
    );
    let rp = ReportProducer::new(
        "out",
        ReportFormat::Json,
        ReportOutput::ToDatabase,
        Some("server".to_string()),
        Some("db".to_string()),
    );
    assert_eq!(
        rp.new_report("h", "something else", None, report_time()).err(),
        Some(ReportError::InvalidSuffix)
    );
    let rp = ReportProducer::new("out", ReportFormat::Json, ReportOutput::ToFile, None, None);
    let never = UtcTime { secs: i64::MAX, nanos: 0 };
    assert_eq!(
        rp.new_report("h", "File_Report", None, never).err(),
        Some(ReportError::InvalidTime)
    );
    assert_eq!(rp.get_path_db_status("h", "x", never, "json", None), None);
}

#[test]
fn error_messages() {
    assert_eq!(ReportError::NoFormat.message(), "NoFormat is not supported");
    assert_eq!(
        ReportError::JsonToDatabase.message(),
        "ReportOutput::ToDatabase is not supported for JSON format"
    );
    assert_eq!(
        ReportError::CsvToDatabase.message(),
        "ReportOutput::ToDatabase is not supported for CSV format"
    );
    assert_eq!(ReportError::InvalidSuffix.message(), "Invalid report suffix");
    assert_eq!(
        ReportError::NoDriver.message(),
        "No compatible ODBC Driver for SQL Server found"
    );
    assert_eq!(
        ReportError::NoComputerNameColumn.message(),
        "Can't find field 'System_ComputerName'"
    );
    assert_eq!(
        ReportError::NoItemTypeColumn.message(),
        "Can't find field 'System_ItemType'"
    );
    assert_eq!(ReportError::NoComputerName.message(), "Empty field System_ComputerName");
    assert_eq!(ReportError::EmptyTable.message(), "Empty table");
    assert_eq!(
        ReportError::MissingSuffix.message(),
        "A report to stdout needs a report suffix"
    );
    assert_eq!(ReportError::MissingDatabase.message(), "No instance or database given");
    assert_eq!(ReportError::InvalidTime.message(), "The time of the report is out of range");
}

#[test]
fn names_from_parts() {
    assert_eq!(file_name("h", "l", "s", false, "e"), "h_l_s.e");
    assert_eq!(file_name("h", "l", "s", true, "e"), "h_l_s_dirty.e");
    assert_eq!(file_name("", "", "", false, ""), "__.");
    assert_eq!(table_name("h", "l", "s"), "h_l_s");
}
