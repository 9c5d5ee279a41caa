use wsa_lib::error::ReportError;
use wsa_lib::mssql::{
    latest_version, parse_version, table_layout, ReportMSSQL, SqlAction, SqlType, BATCH_SIZE,
};
use wsa_lib::report::{close_report, Report, ReportSuffix};

fn file_sink() -> ReportMSSQL {
    ReportMSSQL::new("t", "server", "db", Some(ReportSuffix::FileReport))
}

const FILE_COLUMNS: &str = "[WorkId], [System_ComputerName], [System_ItemPathDisplay], \
    [System_DateModified], [System_DateCreated], [System_DateAccessed], [System_Size], \
    [System_FileOwner], [System_Search_AutoSummary], [System_Search_GatherTime], \
    [System_ItemType]";

fn file_row(id: u64) -> String {
    format!("({}, NULL, NULL, NULL, NULL, NULL, NULL, NULL, NULL, NULL, NULL)", id)
}

#[test]
fn twenty_five_rows_make_one_insert() {
    let mut r = file_sink();
    let mut statements: Vec<String> = Vec::new();
    for i in 0..25u64 {
        r.insert_int_val("WorkId", i);
        let out = r.create_new_row(false);
        if i < 24 {
            assert_eq!(out, "");
        }
        if !out.is_empty() {
            statements.push(out);
        }
    }
    assert_eq!(statements.len(), 1);
    let rows: Vec<String> = (0..25u64).map(file_row).collect();
    assert_eq!(
        statements[0],
        format!("INSERT INTO [t] ({}) VALUES {}", FILE_COLUMNS, rows.join(", "))
    );
    assert_eq!(r.flush_query_builder(), Ok(None));
    assert_eq!(BATCH_SIZE, 25);
}

#[test]
fn twenty_six_rows_and_a_close_make_two_inserts_and_one_commit() {
    let mut r = file_sink();
    let mut executed: Vec<String> = Vec::new();
    executed.push(r.start_file());
    for i in 0..26u64 {
        r.insert_int_val("WorkId", i);
        let out = r.create_new_row(false);
        if !out.is_empty() {
            executed.push(out);
        }
    }
    assert_eq!(executed.len(), 2);
    let mut commits = 0;
    for action in r.close() {
        match action {
            SqlAction::Execute(statement) => executed.push(statement),
            SqlAction::Commit => commits += 1,
        }
    }
    assert_eq!(commits, 1);
    assert_eq!(executed.len(), 3);
    assert!(executed[0].starts_with("CREATE TABLE [t] ("));
    assert!(executed[1].starts_with("INSERT INTO [t] ("));
    assert_eq!(
        executed[2],
        format!("INSERT INTO [t] ({}) VALUES {}", FILE_COLUMNS, file_row(25))
    );
    let again = r.close();
    assert_eq!(again.len(), 1);
    assert!(matches!(again[0], SqlAction::Commit));
}

#[test]
fn close_creates_a_table_that_was_not_created_and_takes_the_pending_record() {
    let mut r = ReportMSSQL::new("n", "s", "d", Some(ReportSuffix::InternetHistory));
    r.insert_int_val("WorkId", 1);
    r.insert_str_val("System_Title", "it's".to_string());
    r.insert_str_val("Unmapped", "x".to_string());
    let actions = r.close();
    assert_eq!(actions.len(), 3);
    match &actions[0] {
        SqlAction::Execute(s) => assert!(s.starts_with("CREATE TABLE [n] ([WorkId] BIGINT NULL, ")),
        SqlAction::Commit => panic!("commit before the table"),
    }
    match &actions[1] {
        SqlAction::Execute(s) => assert_eq!(
            s,
            "INSERT INTO [n] ([WorkId], [System_ItemUrl], [System_ItemDate], \
             [System_Link_TargetUrl], [System_Search_GatherTime], [System_Title], \
             [System_Link_DateVisited]) VALUES (1, NULL, NULL, NULL, NULL, 'it''s', NULL)"
        ),
        SqlAction::Commit => panic!("commit before the rows"),
    }
    assert!(matches!(actions[2], SqlAction::Commit));
}

#[test]
fn empty_record_adds_no_row() {
    let mut r = file_sink();
    assert!(!r.is_some_val_in_record());
    assert_eq!(r.create_new_row(false), "");
    assert_eq!(r.footer(), "");
    r.set_field("WorkId");
    assert!(!r.is_some_val_in_record());
    assert_eq!(r.end_file(), "");
    r.insert_int_val("WorkId", 3);
    r.insert_int_val("WorkId", 4);
    assert!(r.is_some_val_in_record());
    assert_eq!(
        close_report(&mut r),
        format!("INSERT INTO [t] ({}) VALUES {}", FILE_COLUMNS, file_row(4))
    );
    assert_eq!(close_report(&mut r), "");
}

#[test]
fn values_are_laid_out_by_column() {
    let mut r = ReportMSSQL::new("t", "s", "d", Some(ReportSuffix::ActivityHistory));
    r.insert_str_val("System_ItemType", ".txt".to_string());
    r.insert_int_val("System_Size", 10);
    r.insert_str_val("System_ComputerName", "O'Neil''s".to_string());
    r.insert_int_val("WorkId", 2);
    assert_eq!(r.write_values_to_db(), Ok(None));
    assert_eq!(
        r.flush_query_builder(),
        Ok(Some(format!(
            "INSERT INTO [t] ({}) VALUES (2, 'O''Neil''''s', NULL, NULL, NULL, NULL, 10, NULL, \
             NULL, NULL, '.txt')",
            FILE_COLUMNS
        )))
    );
}

#[test]
fn table_statement() {
    let mut r = file_sink();
    assert_eq!(
        r.create_table().unwrap(),
        "CREATE TABLE [t] ([WorkId] BIGINT NULL, [System_ComputerName] NVARCHAR(MAX) NULL, \
         [System_ItemPathDisplay] NVARCHAR(MAX) NULL, [System_DateModified] DATETIME2 NULL, \
         [System_DateCreated] DATETIME2 NULL, [System_DateAccessed] DATETIME2 NULL, \
         [System_Size] BIGINT NULL, [System_FileOwner] NVARCHAR(MAX) NULL, \
         [System_Search_AutoSummary] NVARCHAR(MAX) NULL, \
         [System_Search_GatherTime] DATETIME2 NULL, [System_ItemType] NVARCHAR(MAX) NULL)"
    );
    let layout = table_layout(ReportSuffix::InternetHistory);
    assert_eq!(layout.len(), 7);
    assert_eq!(layout[2].name, "System_ItemDate");
    assert_eq!(layout[2].kind, SqlType::DateTime2);
    assert_eq!(SqlType::BigInt.name(), "BIGINT");
    assert_eq!(table_layout(ReportSuffix::ActivityHistory).len(), 11);
}

#[test]
fn category_without_layout_gives_the_error() {
    for suffix in [None, Some(ReportSuffix::Unknown)] {
        let mut r = ReportMSSQL::new("t", "s", "d", suffix);
        assert!(!r.has_layout());
        assert_eq!(r.create_table(), Err(ReportError::InvalidSuffix));
        assert_eq!(r.write_values_to_db(), Err(ReportError::InvalidSuffix));
        assert_eq!(r.flush_query_builder(), Ok(None));
        let actions = r.close();
        assert_eq!(actions.len(), 1);
        assert!(matches!(actions[0], SqlAction::Commit));
        assert_eq!(r.create_table(), Err(ReportError::InvalidSuffix));
    }
    assert!(file_sink().has_layout());
    assert!(table_layout(ReportSuffix::Unknown).is_empty());
}

#[test]
fn writing_the_values_leaves_the_record_as_it_is() {
    let mut r = file_sink();
    assert_eq!(r.write_values_to_db(), Ok(None));
    assert_eq!(r.flush_query_builder(), Ok(None));
    r.insert_int_val("WorkId", 8);
    r.insert_str_val("System_ItemType", ".txt".to_string());
    assert_eq!(r.write_values_to_db(), Ok(None));
    assert!(r.is_some_val_in_record());
    assert_eq!(r.write_values_to_db(), Ok(None));
    assert!(r.is_some_val_in_record());
    let row = "(8, NULL, NULL, NULL, NULL, NULL, NULL, NULL, NULL, NULL, '.txt')";
    assert_eq!(
        r.flush_query_builder(),
        Ok(Some(format!("INSERT INTO [t] ({}) VALUES {}, {}", FILE_COLUMNS, row, row)))
    );
    assert!(r.is_some_val_in_record());
    assert_eq!(r.create_new_row(false), "");
    assert!(!r.is_some_val_in_record());
    assert_eq!(
        r.flush_query_builder(),
        Ok(Some(format!("INSERT INTO [t] ({}) VALUES {}", FILE_COLUMNS, row)))
    );
}

#[test]
fn twenty_fifth_written_row_gives_the_statement() {
    let mut r = file_sink();
    r.insert_int_val("WorkId", 1);
    for _ in 0..24 {
        assert_eq!(r.write_values_to_db(), Ok(None));
    }
    let rows: Vec<String> = (0..25).map(|_| file_row(1)).collect();
    assert_eq!(
        r.write_values_to_db(),
        Ok(Some(format!("INSERT INTO [t] ({}) VALUES {}", FILE_COLUMNS, rows.join(", "))))
    );
    assert_eq!(r.flush_query_builder(), Ok(None));
    assert!(r.is_some_val_in_record());
}

#[test]
fn connection_string_of_the_sink() {
    let r = ReportMSSQL::new("t", "srv\\inst", "db1", Some(ReportSuffix::FileReport));
    assert_eq!(
        r.connection_string("Driver={ODBC Driver 18 for SQL Server};"),
        "Driver={ODBC Driver 18 for SQL Server};Server=srv\\inst;Database=db1;\
         Trusted_Connection=yes;TrustServerCertificate=yes;"
    );
}

#[test]
fn latest_driver_is_chosen_by_version() {
    let drivers = vec![
        "SQL Server".to_string(),
        "ODBC Driver 17 for SQL Server".to_string(),
        "ODBC Driver 18 for SQL Server".to_string(),
        "ODBC Driver 13 for SQL Server".to_string(),
        "My ODBC Driver 18 for SQL Server (copy)".to_string(),
        "ODBC Driver 99999999999 for SQL Server".to_string(),
        "ODBC Driver for SQL Server".to_string(),
    ];
    assert_eq!(
        ReportMSSQL::get_latest_odbc_driver(&drivers),
        Ok("Driver={ODBC Driver 18 for SQL Server};".to_string())
    );
    let drivers = vec![
        "PostgreSQL Unicode".to_string(),
        "ODBC Driver 0 for SQL Server".to_string(),
        "odbc driver 18 for sql server".to_string(),
    ];
    assert_eq!(
        ReportMSSQL::get_latest_odbc_driver(&drivers),
        Err(ReportError::NoDriver)
    );
    assert_eq!(ReportMSSQL::get_latest_odbc_driver(&vec![]), Err(ReportError::NoDriver));
}

#[test]
fn versions() {
    assert_eq!(parse_version("18"), Some(18));
    assert_eq!(parse_version("0"), Some(0));
    assert_eq!(parse_version("007"), Some(7));
    assert_eq!(parse_version("4294967295"), Some(u32::MAX));
    assert_eq!(parse_version("4294967296"), None);
    assert_eq!(parse_version("99999999999999999999999"), None);
    assert_eq!(parse_version(""), None);
    assert_eq!(parse_version("1a"), None);
    assert_eq!(parse_version("-1"), None);
    assert_eq!(parse_version("٣"), None);
    assert_eq!(latest_version(&vec![0, 17, 18, 13, 18]), Some(2));
    assert_eq!(latest_version(&vec![0, 0]), None);
    assert_eq!(latest_version(&vec![]), None);
    assert_eq!(latest_version(&vec![5]), Some(0));
}
