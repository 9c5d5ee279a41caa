use std::path::Path;

use chrono::NaiveDate;
use wsa_lib::error::ReportError;
use wsa_lib::report::{
    close_report, DbState, Report, ReportCsv, ReportFormat, ReportJson, ReportOutput,
    ReportProducer, ReportSink, ReportSuffix,
};
use wsa_lib::time::UtcTime;

#[test]
pub fn test_report_csv() {
    let report_type = ReportOutput::ToFile;
    let report_suffix = None;
    let mut data = String::new();
    {
        let mut r = ReportCsv::new(report_type, report_suffix).unwrap();
        data.push_str(&r.start_file());
        r.set_field("int_field");
        r.set_field("str_field");
        r.insert_int_val("int_field", 0);
        r.insert_str_val("str_field", "string0".into());
        for i in 1..10 {
            data.push_str(&r.create_new_row(false));
            if i % 2 == 0 {
                r.insert_str_val("str_field", format!("string{}", i));
            } else {
                r.insert_int_val("int_field", i);
            }
        }
        data.push_str(&close_report(&mut r));
    }
    let expected = r#"int_field,str_field
0,"string0"
1,
,"string2"
3,
,"string4"
5,
,"string6"
7,
,"string8"
9,"#;
    assert_eq!(data, expected);
}

#[test]
pub fn test_report_jsonl() {
    let report_type = ReportOutput::ToFile;
    let report_suffix = Some(ReportSuffix::FileReport);
    let mut data = String::new();
    let opening;
    {
        let mut r = ReportJson::new(report_type, report_suffix).unwrap();
        opening = r.start_file();
        r.insert_int_val("int_field", 0);
        r.insert_str_val("str_field", "string0_with_escapes_here1\"here2\\".into());
        for i in 1..10 {
            data.push_str(&r.create_new_row(false));
            if i % 2 == 0 {
                r.insert_str_val("str_field", format!("string{}", i));
            } else {
                r.insert_int_val("int_field", i);
            }
        }
        data.push_str(&close_report(&mut r));
    }
    let expected = r#"{"int_field":0,"str_field":"string0_with_escapes_here1\"here2\\"},
{"int_field":1},
{"str_field":"string2"},
{"int_field":3},
{"str_field":"string4"},
{"int_field":5},
{"str_field":"string6"},
{"int_field":7},
{"str_field":"string8"},
{"int_field":9}
]"#;
    assert_eq!(data, expected);
    assert_eq!(opening, "[\n");
}

#[test]
fn test_report_suffix() {
    let report_suffix = Some(ReportSuffix::FileReport);
    assert_eq!(ReportSuffix::get_match("File_Report"), report_suffix);
    assert_ne!(ReportSuffix::get_match("Activity"), report_suffix);

    assert_eq!(
        ReportSuffix::message(report_suffix.as_ref().unwrap()),
        serde_json::to_string("file_report").unwrap()
    );
    assert_eq!(
        ReportSuffix::message(&ReportSuffix::ActivityHistory),
        serde_json::to_string("activity_history").unwrap()
    );
    assert_eq!(
        ReportSuffix::message(&ReportSuffix::InternetHistory),
        serde_json::to_string("internet_history").unwrap()
    );
    assert_eq!(
        ReportSuffix::message(&ReportSuffix::Unknown),
        serde_json::to_string("").unwrap()
    );
}

#[test]
fn test_get_path_db_status() {
    let path = Path::new("./tests");
    let rp = ReportProducer::new(
        "./tests",
        ReportFormat::Json,
        ReportOutput::ToStdout,
        None,
        None,
    );
    let naivedatetime_utc = NaiveDate::from_ymd_opt(2000, 1, 12)
        .unwrap()
        .and_hms_opt(2, 0, 0)
        .unwrap();
    let utc = naivedatetime_utc.and_utc();
    let dt = UtcTime { secs: utc.timestamp(), nanos: utc.timestamp_subsec_nanos() };
    assert_eq!(
        Path::new(rp.get_dir())
            .join(
                rp.get_path_db_status(
                    "test_hostname",
                    "activity",
                    dt,
                    "edb.test",
                    Some(DbState::CleanShutdown)
                )
                .unwrap()
            )
            .to_string_lossy(),
        path.join("test_hostname_activity_20000112_020000.edb.test")
            .to_string_lossy()
    );
    assert_eq!(
        Path::new(rp.get_dir())
            .join(
                rp.get_path_db_status(
                    "test_hostname",
                    "activity",
                    dt,
                    "edb.test",
                    Some(DbState::DirtyShutdown)
                )
                .unwrap()
            )
            .to_string_lossy(),
        path.join("test_hostname_activity_20000112_020000_dirty.edb.test")
            .to_string_lossy()
    );
}

#[test]
fn test_is_db_dirty() {
    let rp = ReportProducer::new(
        "./tests",
        ReportFormat::Json,
        ReportOutput::ToStdout,
        None,
        None,
    );
    assert_eq!(rp.is_db_dirty(Some(DbState::CleanShutdown)), false);
    assert_eq!(rp.is_db_dirty(Some(DbState::DirtyShutdown)), true);
    assert_eq!(rp.is_db_dirty(Some(DbState::BeingConverted)), true);
}

#[test]
fn db_state_unknown_is_not_dirty() {
    let rp = ReportProducer::new(".", ReportFormat::Csv, ReportOutput::ToFile, None, None);
    assert_eq!(rp.is_db_dirty(None), false);
    assert_eq!(rp.is_db_dirty(Some(DbState::JustCreated)), true);
    assert_eq!(rp.is_db_dirty(Some(DbState::ForceDetach)), true);
    assert_eq!(rp.is_db_dirty(Some(DbState::Impossible)), true);
    assert_eq!(rp.get_report_type(), ReportOutput::ToFile);
    assert_eq!(rp.get_dir(), ".");
}

#[test]
fn suffix_labels() {
    assert_eq!(
        ReportSuffix::get_match("Activity_History_Report"),
        Some(ReportSuffix::ActivityHistory)
    );
    assert_eq!(
        ReportSuffix::get_match("Internet_History_Report"),
        Some(ReportSuffix::InternetHistory)
    );
    assert_eq!(ReportSuffix::get_match("file_report"), Some(ReportSuffix::Unknown));
    assert_eq!(ReportSuffix::get_match(""), Some(ReportSuffix::Unknown));
    assert_eq!(ReportSuffix::FileReport.message(), "\"file_report\"");
    assert_eq!(ReportSuffix::Unknown.message(), "\"\"");
}

#[test]
fn json_refuses_database_and_missing_suffix() {
    assert_eq!(
        ReportJson::new(ReportOutput::ToDatabase, None).err(),
        Some(ReportError::JsonToDatabase)
    );
    assert_eq!(
        ReportJson::new(ReportOutput::ToStdout, None).err(),
        Some(ReportError::MissingSuffix)
    );
    assert_eq!(
        ReportCsv::new(ReportOutput::ToDatabase, Some(ReportSuffix::FileReport)).err(),
        Some(ReportError::CsvToDatabase)
    );
    assert_eq!(
        ReportCsv::new(ReportOutput::ToStdout, None).err(),
        Some(ReportError::MissingSuffix)
    );
}

#[test]
fn json_empty_record_is_not_flushed() {
    let mut r = ReportJson::new(ReportOutput::ToFile, None).unwrap();
    assert!(!r.is_some_val_in_record());
    assert_eq!(r.create_new_row(false), "");
    assert_eq!(r.create_new_row(true), "");
    assert_eq!(r.write_values(false), "");
    r.set_field("only_a_name");
    assert!(!r.is_some_val_in_record());
    assert_eq!(r.footer(), "");
    assert_eq!(r.end_file(), "]");
}

#[test]
fn json_reinsertion_overwrites_in_place() {
    let mut r = ReportJson::new(ReportOutput::ToFile, None).unwrap();
    r.insert_int_val("a", 1);
    r.insert_str_val("b", "x".to_string());
    r.insert_int_val("a", 2);
    assert!(r.is_some_val_in_record());
    assert_eq!(r.create_new_row(false), "{\"a\":2,\"b\":\"x\"},\n");
    assert!(!r.is_some_val_in_record());
    assert_eq!(r.create_new_row(false), "");
}

#[test]
fn json_escapes_control_characters() {
    let mut r = ReportJson::new(ReportOutput::ToFile, None).unwrap();
    r.insert_str_val("s", "a\tb\nc\rd\u{8}e\u{c}f\u{1}g\u{1f}h/\u{7f}é".to_string());
    assert_eq!(
        r.create_new_row(true),
        "{\"s\":\"a\\tb\\nc\\rd\\be\\ff\\u0001g\\u001fh/\u{7f}é\"}\n"
    );
}

#[test]
fn json_to_stdout_names_the_category() {
    let mut r = ReportJson::new(ReportOutput::ToStdout, Some(ReportSuffix::InternetHistory))
        .unwrap();
    r.insert_int_val("WorkId", 18446744073709551615);
    assert_eq!(
        close_report(&mut r),
        "{\"report_suffix\":\"internet_history\",\"WorkId\":18446744073709551615}\n]"
    );
}

#[test]
fn csv_to_stdout_has_a_category_column() {
    let mut r = ReportCsv::new(ReportOutput::ToStdout, Some(ReportSuffix::FileReport)).unwrap();
    r.insert_int_val("a", 1);
    r.insert_str_val("b", "x".to_string());
    assert_eq!(
        r.create_new_row(false),
        "\nReportSuffix,a,b\n\"file_report\",1,\"x\""
    );
    r.insert_int_val("a", 2);
    assert_eq!(r.create_new_row(false), "\n\"file_report\",2,");
}

#[test]
fn csv_escapes_quotes_and_line_breaks() {
    let mut r = ReportCsv::new(ReportOutput::ToFile, None).unwrap();
    r.insert_str_val("s", "say \"hi\"\r\nbye, now".to_string());
    r.insert_str_val("empty", String::new());
    assert_eq!(
        r.create_new_row(false),
        "s,empty\n\"say \"\"hi\"\"\\r\\nbye, now\",\"\""
    );
}

#[test]
fn csv_empty_record_is_not_flushed() {
    let mut r = ReportCsv::new(ReportOutput::ToFile, None).unwrap();
    r.set_field("a");
    r.set_field("b");
    assert!(!r.is_some_val_in_record());
    assert_eq!(r.create_new_row(false), "");
    assert_eq!(r.footer(), "");
    r.insert_int_val("b", 7);
    assert!(r.is_some_val_in_record());
    assert_eq!(r.write_header(), "a,b");
    assert_eq!(r.create_new_row(false), "a,b\n,7");
    assert_eq!(r.create_new_row(false), "");
    assert_eq!(close_report(&mut r), "");
}

#[test]
fn csv_field_named_after_the_header_is_dropped() {
    let mut r = ReportCsv::new(ReportOutput::ToFile, None).unwrap();
    r.insert_int_val("a", 1);
    assert_eq!(r.create_new_row(false), "a\n1");
    r.insert_int_val("late", 5);
    assert!(!r.is_some_val_in_record());
    assert_eq!(r.create_new_row(false), "");
    r.insert_int_val("late", 5);
    r.insert_int_val("a", 2);
    assert_eq!(r.create_new_row(false), "\n2");
}

#[test]
fn csv_value_is_not_carried_to_the_next_row() {
    let mut r = ReportCsv::new(ReportOutput::ToFile, None).unwrap();
    r.insert_int_val("A", 0);
    r.insert_str_val("B", "string0".to_string());
    assert_eq!(r.create_new_row(false), "A,B\n0,\"string0\"");
    r.insert_int_val("A", 1);
    assert_eq!(r.write_values(), "\n1,");
    r.insert_str_val("B", "string2".to_string());
    assert_eq!(r.write_values(), "\n,\"string2\"");
}

#[test]
fn sink_of_any_kind_behaves_as_its_kind() {
    let mut r = ReportSink::Json(ReportJson::new(ReportOutput::ToFile, None).unwrap());
    assert_eq!(r.start_file(), "[\n");
    r.insert_int_val("n", 3);
    assert!(r.is_some_val_in_record());
    assert_eq!(close_report(&mut r), "{\"n\":3}\n]");
    let mut c = ReportSink::Csv(ReportCsv::new(ReportOutput::ToFile, None).unwrap());
    assert_eq!(c.start_file(), "");
    c.set_field("n");
    c.insert_str_val("n", "v".to_string());
    assert_eq!(c.footer(), "n\n\"v\"");
    assert_eq!(c.end_file(), "");
}

#[test]
fn csv_round_trip() {
    let mut r = ReportCsv::new(ReportOutput::ToFile, None).unwrap();
    let mut data = r.start_file();
    r.insert_int_val("A", 0);
    r.insert_str_val("B", "string0".to_string());
    for i in 1..10u64 {
        data.push_str(&r.create_new_row(false));
        if i % 2 == 0 {
            r.insert_str_val("B", format!("string{}", i));
        } else {
            r.insert_int_val("A", i);
        }
    }
    data.push_str(&close_report(&mut r));
    let lines: Vec<&str> = data.split('\n').collect();
    assert_eq!(lines.len(), 11);
    assert_eq!(lines[0], "A,B");
    assert_eq!(lines[1], "0,\"string0\"");
    for i in 1..10usize {
        if i % 2 == 0 {
            assert_eq!(lines[i + 1], format!(",\"string{}\"", i));
        } else {
            assert_eq!(lines[i + 1], format!("{},", i));
        }
    }
}

#[test]
fn json_round_trip() {
    let mut r = ReportJson::new(ReportOutput::ToFile, None).unwrap();
    let mut data = r.start_file();
    r.insert_int_val("A", 0);
    r.insert_str_val("B", "string0".to_string());
    for i in 1..10u64 {
        data.push_str(&r.create_new_row(false));
        if i % 2 == 0 {
            r.insert_str_val("B", format!("string{}", i));
        } else {
            r.insert_int_val("A", i);
        }
    }
    data.push_str(&close_report(&mut r));
    let parsed: serde_json::Value = serde_json::from_str(&data).unwrap();
    let rows = parsed.as_array().unwrap();
    assert_eq!(rows.len(), 10);
    let first = rows[0].as_object().unwrap();
    assert_eq!(first.len(), 2);
    assert_eq!(first["A"].as_u64(), Some(0));
    assert_eq!(first["B"].as_str(), Some("string0"));
    for i in 1..10usize {
        let row = rows[i].as_object().unwrap();
        assert_eq!(row.len(), 1);
        if i % 2 == 0 {
            assert_eq!(row["B"].as_str(), Some(format!("string{}", i).as_str()));
        } else {
            assert_eq!(row["A"].as_u64(), Some(i as u64));
        }
    }
    assert!(data.starts_with("[\n{\"A\":0,\"B\":\"string0\"},\n"));
    assert!(data.ends_with("{\"A\":9}\n]"));
}
