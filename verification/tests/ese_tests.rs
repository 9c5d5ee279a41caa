use wsa_lib::columns::{ColumnBag, ColumnInfo};
use wsa_lib::error::ReportError;
use wsa_lib::ese::{
    dirty_database_action, ese_IE_history_record, ese_activity_history_record,
    ese_collect_column, ese_collect_row, ese_dump_file_record, ese_get_hostname, ese_report_row, hostname_columns, hostname_search,
    insert_record, is_activity_row, is_history_url, is_internet_row, is_url_item, kind_of_field,
    recovered_hostname, selected_columns, DirtyAction, FieldKind, HostnameWalk,
};
use wsa_lib::report::{close_report, Report, ReportCsv, ReportJson, ReportOutput, ReportSuffix};
use wsa_lib::time::{filetime_to_utc, format_date_time, stamp_with_ticks, UtcTime};
use wsa_lib::utils::{
    column_string_part, find_guid, from_utf16, json_escape, u32_from_bytes, u64_from_bytes,
};

fn utf16(s: &str) -> Vec<u8> {
    let mut bytes = Vec::new();
    for unit in s.encode_utf16() {
        bytes.push((unit & 0xff) as u8);
        bytes.push((unit >> 8) as u8);
    }
    bytes
}

fn json_sink() -> ReportJson {
    ReportJson::new(ReportOutput::ToFile, None).unwrap()
}

fn bag_of(columns: &[(&str, Vec<u8>)]) -> ColumnBag {
    let mut bag = ColumnBag::new();
    for (name, value) in columns {
        bag.insert(name.to_string(), value.clone());
    }
    bag
}

// 2020-01-01T00:00:00Z as a FILETIME
const NEW_YEAR_2020: u64 = 132_223_104_000_000_000;

#[test]
fn bag_without_url_and_type_is_a_file_record() {
    let bag = bag_of(&[
        ("4447-System_ItemPathDisplay", utf16("C:\\Users\\a.txt")),
        ("13-System_Size", 1234u64.to_le_bytes().to_vec()),
        ("99-Unmapped", vec![1, 2, 3]),
    ]);
    let mut file_rep = json_sink();
    let mut ie_rep = json_sink();
    let mut act_rep = json_sink();
    let (category, out) = ese_report_row(&mut file_rep, &mut ie_rep, &mut act_rep, 5, &bag);
    assert_eq!(category, ReportSuffix::FileReport);
    assert_eq!(out, "");
    assert!(file_rep.is_some_val_in_record());
    assert!(!ie_rep.is_some_val_in_record());
    assert!(!act_rep.is_some_val_in_record());
    assert_eq!(
        close_report(&mut file_rep),
        "{\"WorkId\":5,\"System_Size\":1234,\"System_ItemPathDisplay\":\"C:\\\\Users\\\\a.txt\"}\n]"
    );
    assert_eq!(close_report(&mut ie_rep), "]");
    assert_eq!(close_report(&mut act_rep), "]");
}

#[test]
fn empty_bag_is_a_file_record_with_the_row_id() {
    let bag = ColumnBag::new();
    let mut file_rep = json_sink();
    let mut ie_rep = json_sink();
    let mut act_rep = json_sink();
    let (category, _) = ese_report_row(&mut file_rep, &mut ie_rep, &mut act_rep, 0, &bag);
    assert_eq!(category, ReportSuffix::FileReport);
    assert_eq!(file_rep.footer(), "{\"WorkId\":0}\n");
}

#[test]
fn iehistory_url_is_internet_history() {
    let bag = bag_of(&[
        ("33-System_ItemUrl", utf16("iehistory://example")),
        ("4450-System_ItemType", utf16("ActivityHistoryItem")),
        ("4447-System_ItemPathDisplay", utf16("ignored here")),
    ]);
    assert!(is_internet_row(&bag));
    let mut file_rep = json_sink();
    let mut ie_rep = json_sink();
    let mut act_rep = json_sink();
    let (category, _) = ese_report_row(&mut file_rep, &mut ie_rep, &mut act_rep, 9, &bag);
    assert_eq!(category, ReportSuffix::InternetHistory);
    assert!(ie_rep.is_some_val_in_record());
    assert!(!file_rep.is_some_val_in_record());
    assert!(!act_rep.is_some_val_in_record());
    assert_eq!(
        ie_rep.footer(),
        "{\"WorkId\":9,\"System_ItemUrl\":\"iehistory://example\"}\n"
    );
}

#[test]
fn edge_url_needs_scheme_and_profile() {
    assert!(is_history_url("iehistory://"));
    assert!(is_history_url(
        "winrt://x/LS/Desktop/Microsoft Edge/stable/Default/history"
    ));
    assert!(!is_history_url("winrt://x/LS/Desktop/Microsoft Edge/beta/Default/"));
    assert!(!is_history_url("/LS/Desktop/Microsoft Edge/stable/Default/"));
    assert!(!is_history_url("http://iehistory://"));
    assert!(!is_history_url("IEHISTORY://example"));
    assert!(!is_history_url(""));
    let bag = bag_of(&[("34-System_ItemUrl", utf16("iehistory://example"))]);
    assert!(!is_internet_row(&bag));
}

#[test]
fn activity_item_is_activity_history_unless_the_url_matched() {
    let bag = bag_of(&[
        ("4450-System_ItemType", utf16("ActivityHistoryItem")),
        ("33-System_ItemUrl", utf16("file:///C:/a")),
        ("4130-System_ItemNameDisplay", utf16("name")),
    ]);
    assert!(is_activity_row(&bag));
    assert!(!is_internet_row(&bag));
    let mut file_rep = json_sink();
    let mut ie_rep = json_sink();
    let mut act_rep = json_sink();
    let (category, _) = ese_report_row(&mut file_rep, &mut ie_rep, &mut act_rep, 2, &bag);
    assert_eq!(category, ReportSuffix::ActivityHistory);
    assert!(!file_rep.is_some_val_in_record());
    assert!(!ie_rep.is_some_val_in_record());
    assert_eq!(
        act_rep.footer(),
        "{\"WorkId\":2,\"System_ItemUrl\":\"file:///C:/a\",\"System_ItemNameDisplay\":\"name\"}\n"
    );
    let other = bag_of(&[("4450-System_ItemType", utf16("activityhistoryitem"))]);
    assert!(!is_activity_row(&other));
    let other = bag_of(&[("4450-System_ItemType", utf16("ActivityHistoryItem "))]);
    assert!(!is_activity_row(&other));
}

#[test]
fn single_category_functions_leave_other_rows_alone() {
    let bag = bag_of(&[("4447-System_ItemPathDisplay", utf16("p"))]);
    let mut r = json_sink();
    r.insert_int_val("pending", 1);
    let (matched, out) = ese_IE_history_record(&mut r, 1, &bag);
    assert!(!matched);
    assert_eq!(out, "");
    let (matched, out) = ese_activity_history_record(&mut r, 1, &bag);
    assert!(!matched);
    assert_eq!(out, "");
    assert_eq!(ese_dump_file_record(&mut r, 1, &bag), "{\"pending\":1},\n");
    assert_eq!(r.footer(), "{\"WorkId\":1,\"System_ItemPathDisplay\":\"p\"}\n");
}

#[test]
fn content_uri_gives_volume_and_object_id() {
    let bag = bag_of(&[
        ("4450-System_ItemType", utf16("ActivityHistoryItem")),
        (
            "4100-System_Activity_ContentUri",
            utf16("file:///x?VolumeId=ABC;ObjectId=XYZ;rest"),
        ),
    ]);
    let mut r = json_sink();
    let (matched, _) = ese_activity_history_record(&mut r, 3, &bag);
    assert!(matched);
    assert_eq!(
        r.footer(),
        "{\"WorkId\":3,\"VolumeId\":\"ABC\",\"ObjectId\":\"XYZ\",\
         \"System_Activity_ContentUri\":\"file:///x?VolumeId=ABC;ObjectId=XYZ;rest\"}\n"
    );
}

#[test]
fn guid_is_taken_up_to_the_delimiter() {
    assert_eq!(find_guid("VolumeId=ABC;ObjectId=XYZ;rest", "VolumeId="), "ABC");
    assert_eq!(find_guid("VolumeId=ABC;ObjectId=XYZ;rest", "ObjectId="), "XYZ");
    assert_eq!(find_guid("a;VolumeId=ABC", "VolumeId="), "ABC");
    assert_eq!(find_guid("VolumeId=;x", "VolumeId="), "");
    assert_eq!(find_guid("nothing here", "VolumeId="), "");
    assert_eq!(find_guid("VolumeId=1;VolumeId=2;", "VolumeId="), "1");
    assert_eq!(find_guid("", "VolumeId="), "");
}

#[test]
fn fields_come_in_the_order_of_the_qualified_names() {
    let bag = bag_of(&[
        ("4447-System_ItemPathDisplay", utf16("path")),
        ("15-System_DateModified", NEW_YEAR_2020.to_le_bytes().to_vec()),
        ("4396-System_FileOwner", utf16("owner")),
        ("13-System_Size", 7u64.to_le_bytes().to_vec()),
        ("4625-System_Search_GatherTime", (NEW_YEAR_2020 + 1).to_le_bytes().to_vec()),
        ("4184-System_ComputerName", utf16("HOST")),
    ]);
    let mut r = json_sink();
    assert_eq!(ese_dump_file_record(&mut r, 77, &bag), "");
    assert_eq!(
        r.footer(),
        "{\"WorkId\":77,\"System_Size\":7,\
         \"System_DateModified\":\"2020-01-01T00:00:00.0000000Z\",\
         \"System_ComputerName\":\"HOST\",\"System_FileOwner\":\"owner\",\
         \"System_ItemPathDisplay\":\"path\",\
         \"System_Search_GatherTime\":\"2020-01-01T00:00:00.0000001Z\"}\n"
    );
}

#[test]
fn unreadable_values_are_left_out() {
    let bag = bag_of(&[
        ("13-System_Size", vec![1, 2, 3]),
        ("15-System_DateModified", vec![]),
        ("4447-System_ItemPathDisplay", vec![0x41]),
    ]);
    let mut r = json_sink();
    ese_dump_file_record(&mut r, 1, &bag);
    assert_eq!(r.footer(), "{\"WorkId\":1,\"System_ItemPathDisplay\":\"\"}\n");
}

#[test]
fn record_goes_to_a_csv_sink_too() {
    let bag = bag_of(&[
        ("33-System_ItemUrl", utf16("iehistory://a\"b")),
        ("4499-System_Title", utf16("t")),
    ]);
    let mut r = ReportCsv::new(ReportOutput::ToFile, None).unwrap();
    assert_eq!(insert_record(&mut r, ReportSuffix::InternetHistory, 4, &bag), "");
    assert_eq!(
        r.footer(),
        "WorkId,System_ItemUrl,System_Title\n4,\"iehistory://a\"\"b\",\"t\""
    );
}

#[test]
fn field_kinds_by_category() {
    assert_eq!(
        kind_of_field(ReportSuffix::FileReport, "System_Size"),
        Some(FieldKind::Integer)
    );
    assert_eq!(
        kind_of_field(ReportSuffix::FileReport, "System_DateAccessed"),
        Some(FieldKind::Time)
    );
    assert_eq!(
        kind_of_field(ReportSuffix::FileReport, "System_DateCreated"),
        Some(FieldKind::Time)
    );
    assert_eq!(
        kind_of_field(ReportSuffix::FileReport, "System_Search_AutoSummary"),
        Some(FieldKind::Text)
    );
    assert_eq!(kind_of_field(ReportSuffix::FileReport, "System_ItemUrl"), None);
    assert_eq!(
        kind_of_field(ReportSuffix::InternetHistory, "System_Link_DateVisited"),
        Some(FieldKind::Time)
    );
    assert_eq!(
        kind_of_field(ReportSuffix::InternetHistory, "System_ItemDate"),
        Some(FieldKind::Time)
    );
    assert_eq!(
        kind_of_field(ReportSuffix::InternetHistory, "System_Link_TargetUrl"),
        Some(FieldKind::Text)
    );
    assert_eq!(kind_of_field(ReportSuffix::InternetHistory, "System_Size"), None);
    assert_eq!(
        kind_of_field(ReportSuffix::ActivityHistory, "System_Activity_ContentUri"),
        Some(FieldKind::ContentUri)
    );
    assert_eq!(
        kind_of_field(ReportSuffix::ActivityHistory, "System_ActivityHistory_StartTime"),
        Some(FieldKind::Time)
    );
    assert_eq!(
        kind_of_field(ReportSuffix::ActivityHistory, "System_ActivityHistory_EndTime"),
        Some(FieldKind::Time)
    );
    assert_eq!(
        kind_of_field(ReportSuffix::ActivityHistory, "System_ActivityHistory_AppId"),
        Some(FieldKind::Text)
    );
    assert_eq!(kind_of_field(ReportSuffix::ActivityHistory, "System_DateModified"), None);
    assert_eq!(kind_of_field(ReportSuffix::Unknown, "System_Size"), None);
    assert_eq!(kind_of_field(ReportSuffix::FileReport, "system_size"), None);
}

#[test]
fn filetime_as_text() {
    assert_eq!(
        format_date_time(NEW_YEAR_2020),
        Some("2020-01-01T00:00:00.0000000Z".to_string())
    );
    assert_eq!(
        format_date_time(NEW_YEAR_2020 + 1_234_567),
        Some("2020-01-01T00:00:00.1234567Z".to_string())
    );
    assert_eq!(
        format_date_time(NEW_YEAR_2020 + 86_399 * 10_000_000 + 9_999_999),
        Some("2020-01-01T23:59:59.9999999Z".to_string())
    );
    assert_eq!(format_date_time(0), Some("1601-01-01T00:00:00.0000000Z".to_string()));
    assert_eq!(
        format_date_time(116_444_736_000_000_000),
        Some("1970-01-01T00:00:00.0000000Z".to_string())
    );
    assert_eq!(filetime_to_utc(0), UtcTime { secs: -11_644_473_600, nanos: 0 });
    assert_eq!(
        filetime_to_utc(NEW_YEAR_2020 + 9_999_999),
        UtcTime { secs: 1_577_836_800, nanos: 0 }
    );
    assert_eq!(stamp_with_ticks("x", 0), "x.0000000Z");
    assert_eq!(stamp_with_ticks("", 42), ".0000042Z");
    assert_eq!(stamp_with_ticks("t", 9_999_999), "t.9999999Z");
}

#[test]
fn time_under_a_pattern() {
    let t = UtcTime { secs: 947642400, nanos: 0 };
    assert_eq!(t.format("%Y%m%d_%H%M%S"), Some("20000112_020000".to_string()));
    assert_eq!(t.format("%Y%m%d_%H%M%S%.f"), Some("20000112_020000".to_string()));
    assert_eq!(t.format("%Y-%m-%dT%H:%M:%S"), Some("2000-01-12T02:00:00".to_string()));
    assert_eq!(t.format("%"), None);
    assert_eq!(UtcTime { secs: 0, nanos: 2_000_000_000 }.format("%Y"), None);
    assert_eq!(UtcTime { secs: i64::MIN, nanos: 0 }.format("%Y"), None);
}

#[test]
fn utf16_text() {
    assert_eq!(from_utf16(&utf16("héllo wörld")), "héllo wörld");
    assert_eq!(from_utf16(&[0x41, 0x00, 0x42]), "A");
    assert_eq!(from_utf16(&[]), "");
    assert_eq!(from_utf16(&[0x42]), "");
    // U+1F600 is the pair D83D DE00
    assert_eq!(from_utf16(&[0x3d, 0xd8, 0x00, 0xde]), "\u{1F600}");
    assert_eq!(from_utf16(&utf16("a\u{10FFFF}b\u{10000}")), "a\u{10FFFF}b\u{10000}");
    // a high surrogate without its partner, then a letter
    assert_eq!(from_utf16(&[0x3d, 0xd8, 0x41, 0x00]), "\u{FFFD}A");
    // a low surrogate alone
    assert_eq!(from_utf16(&[0x00, 0xde, 0x41, 0x00]), "\u{FFFD}A");
    // a high surrogate at the end
    assert_eq!(from_utf16(&[0x41, 0x00, 0x3d, 0xd8]), "A\u{FFFD}");
    // two high surrogates, then a low one
    assert_eq!(
        from_utf16(&[0x3d, 0xd8, 0x3d, 0xd8, 0x00, 0xde]),
        "\u{FFFD}\u{1F600}"
    );
    assert_eq!(from_utf16(&[0xff, 0xd7, 0x00, 0xe0]), "\u{D7FF}\u{E000}");
    let units: Vec<u16> = vec![0xd83d, 0x0041, 0xde00, 0xd83d, 0xde00, 0xdbff];
    let mut bytes = Vec::new();
    for u in &units {
        bytes.extend_from_slice(&u.to_le_bytes());
    }
    assert_eq!(from_utf16(&bytes), String::from_utf16_lossy(&units));
}

#[test]
fn numbers_from_bytes() {
    assert_eq!(u64_from_bytes(&0x0102030405060708u64.to_le_bytes()), Some(0x0102030405060708));
    assert_eq!(u64_from_bytes(&u64::MAX.to_le_bytes()), Some(u64::MAX));
    assert_eq!(u64_from_bytes(&[1, 0, 0, 0, 0, 0, 0, 0]), Some(1));
    assert_eq!(u64_from_bytes(&[0, 0, 0, 0, 0, 0, 0, 1]), Some(1 << 56));
    assert_eq!(u64_from_bytes(&[0; 7]), None);
    assert_eq!(u64_from_bytes(&[0; 9]), None);
    assert_eq!(u64_from_bytes(&[]), None);
    assert_eq!(u32_from_bytes(&0xdeadbeefu32.to_le_bytes()), Some(0xdeadbeef));
    assert_eq!(u32_from_bytes(&[0, 1, 0, 0]), Some(256));
    assert_eq!(u32_from_bytes(&[0; 8]), None);
    assert_eq!(u32_from_bytes(&[0; 3]), None);
}

#[test]
fn semantic_part_of_a_column_name() {
    assert_eq!(column_string_part("33-System_ItemUrl"), "System_ItemUrl");
    assert_eq!(column_string_part("WorkID"), "WorkID");
    assert_eq!(column_string_part("4-a-b"), "a-b");
    assert_eq!(column_string_part("-x"), "x");
    assert_eq!(column_string_part("x-"), "");
    assert_eq!(column_string_part(""), "");
    assert_eq!(column_string_part("é-ü"), "ü");
}

#[test]
fn json_strings() {
    assert_eq!(json_escape(""), "\"\"");
    assert_eq!(json_escape("a\"b\\c"), "\"a\\\"b\\\\c\"");
    assert_eq!(json_escape("\u{0}\u{1b}"), "\"\\u0000\\u001b\"");
}

#[test]
fn columns_are_collected_into_the_row() {
    let mut bag = ColumnBag::new();
    let mut work_id: u32 = 0;
    let id_column = ColumnInfo { name: "WorkID".to_string(), id: 1 };
    let url_column = ColumnInfo { name: "33-System_ItemUrl".to_string(), id: 2 };
    ese_collect_column(&mut bag, &mut work_id, &id_column, Some(vec![9, 1, 0, 0]));
    assert_eq!(work_id, 265);
    assert_eq!(bag.len(), 0);
    ese_collect_column(&mut bag, &mut work_id, &id_column, None);
    assert_eq!(work_id, 265);
    ese_collect_column(&mut bag, &mut work_id, &id_column, Some(vec![1, 2]));
    assert_eq!(work_id, 265);
    ese_collect_column(&mut bag, &mut work_id, &url_column, None);
    assert_eq!(bag.len(), 0);
    ese_collect_column(&mut bag, &mut work_id, &url_column, Some(vec![1]));
    ese_collect_column(&mut bag, &mut work_id, &url_column, Some(vec![2, 3]));
    assert_eq!(bag.len(), 1);
    assert_eq!(bag.get("33-System_ItemUrl"), Some(&vec![2, 3]));
    assert_eq!(bag.get("System_ItemUrl"), None);
    assert_eq!(work_id, 265);
    bag.clear();
    assert_eq!(bag.len(), 0);
    assert_eq!(bag.get("33-System_ItemUrl"), None);
}

#[test]
fn hostname_of_a_row() {
    assert_eq!(ese_get_hostname(Some(utf16("HOST")), None), Some("HOST".to_string()));
    assert_eq!(
        ese_get_hostname(Some(utf16("HOST")), Some(utf16(".txt"))),
        Some("HOST".to_string())
    );
    assert_eq!(ese_get_hostname(Some(utf16("HOST")), Some(utf16(".url"))), None);
    assert_eq!(ese_get_hostname(Some(utf16("HOST")), Some(utf16(".URL"))), None);
    assert_eq!(ese_get_hostname(Some(utf16("HOST")), Some(utf16(".Url"))), None);
    assert_eq!(ese_get_hostname(None, None), None);
    assert_eq!(ese_get_hostname(None, Some(utf16(".txt"))), None);
    assert!(is_url_item(".url"));
    assert!(!is_url_item(".URL"));
    assert!(!is_url_item("url"));
    assert_eq!(recovered_hostname(Some("h".to_string())), "h");
    assert_eq!(recovered_hostname(None), "Unknown");
}

#[test]
fn columns_of_the_hostname() {
    let columns = vec![
        ColumnInfo { name: "WorkID".to_string(), id: 1 },
        ColumnInfo { name: "4450-System_ItemType".to_string(), id: 7 },
        ColumnInfo { name: "4184-System_ComputerName".to_string(), id: 5 },
        ColumnInfo { name: "9-System_ComputerName".to_string(), id: 6 },
    ];
    assert_eq!(hostname_columns(&columns), Ok((5, 7)));
    let columns = vec![ColumnInfo { name: "4184-System_ComputerName".to_string(), id: 5 }];
    assert_eq!(hostname_columns(&columns), Err(ReportError::NoItemTypeColumn));
    let columns = vec![ColumnInfo { name: "4450-System_ItemType".to_string(), id: 7 }];
    assert_eq!(hostname_columns(&columns), Err(ReportError::NoComputerNameColumn));
    assert_eq!(hostname_columns(&vec![]), Err(ReportError::NoComputerNameColumn));
    assert_eq!(hostname_search(true, &columns), Err(ReportError::NoComputerNameColumn));
    assert_eq!(hostname_search(false, &columns), Err(ReportError::EmptyTable));
    let columns = vec![
        ColumnInfo { name: "1-System_ItemType".to_string(), id: 3 },
        ColumnInfo { name: "2-System_ComputerName".to_string(), id: 4 },
    ];
    assert_eq!(hostname_search(true, &columns), Ok((4, 3)));
    assert_eq!(hostname_search(false, &columns), Err(ReportError::EmptyTable));
}

#[test]
fn dirty_database_by_output() {
    assert_eq!(dirty_database_action(false, ReportOutput::ToStdout), DirtyAction::Proceed);
    assert_eq!(dirty_database_action(false, ReportOutput::ToFile), DirtyAction::Proceed);
    assert_eq!(dirty_database_action(true, ReportOutput::ToStdout), DirtyAction::Abort);
    assert_eq!(dirty_database_action(true, ReportOutput::ToFile), DirtyAction::Warn);
    assert_eq!(dirty_database_action(true, ReportOutput::ToDatabase), DirtyAction::Warn);
}

#[test]
fn row_is_collected_from_its_values() {
    let columns = vec![
        ColumnInfo { name: "33-System_ItemUrl".to_string(), id: 2 },
        ColumnInfo { name: "WorkID".to_string(), id: 1 },
        ColumnInfo { name: "13-System_Size".to_string(), id: 3 },
        ColumnInfo { name: "4499-System_Title".to_string(), id: 4 },
    ];
    let mut bag = ColumnBag::new();
    bag.insert("left over".to_string(), vec![0]);
    let values = vec![Some(vec![1, 2]), Some(vec![7, 0, 0, 0]), None];
    assert_eq!(ese_collect_row(&mut bag, &columns, &values), 7);
    assert_eq!(bag.len(), 1);
    assert_eq!(bag.get("33-System_ItemUrl"), Some(&vec![1, 2]));
    assert_eq!(bag.get("left over"), None);
    let values = vec![None, None, Some(vec![5]), Some(vec![]), Some(vec![9])];
    assert_eq!(ese_collect_row(&mut bag, &columns, &values), 0);
    assert_eq!(bag.len(), 2);
    assert_eq!(bag.get("13-System_Size"), Some(&vec![5]));
    assert_eq!(bag.get("4499-System_Title"), Some(&vec![]));
    assert_eq!(ese_collect_row(&mut bag, &vec![], &values), 0);
    assert_eq!(bag.len(), 0);
}

#[test]
fn columns_that_the_reports_read() {
    let names = selected_columns();
    assert_eq!(names.len(), 23);
    assert_eq!(names[0], "System_ComputerName");
    assert_eq!(names[1], "WorkID");
    assert_eq!(names[22], "System_Activity_ContentUri");
    for category in [
        ReportSuffix::FileReport,
        ReportSuffix::InternetHistory,
        ReportSuffix::ActivityHistory,
    ] {
        assert_eq!(kind_of_field(category, "System_ComputerName"), Some(FieldKind::Text));
        assert_eq!(kind_of_field(category, "WorkID"), None);
    }
    for name in &names {
        if *name != "WorkID" {
            assert!(
                kind_of_field(ReportSuffix::FileReport, name).is_some()
                    || kind_of_field(ReportSuffix::InternetHistory, name).is_some()
                    || kind_of_field(ReportSuffix::ActivityHistory, name).is_some()
            );
        }
    }
}

#[test]
fn hostname_is_that_of_the_last_row_that_gives_one() {
    // the rows of the table from the last one backwards
    let mut walk = HostnameWalk::start();
    assert!(walk.step(None, None));
    assert!(walk.step(Some(utf16("LINK")), Some(utf16(".URL"))));
    assert!(walk.step(None, Some(utf16(".txt"))));
    assert!(!walk.step(Some(utf16("HOST")), Some(utf16(".txt"))));
    // a row before it does not change the name
    assert!(!walk.step(Some(utf16("EARLIER")), None));
    assert_eq!(walk.finish(), Ok("HOST".to_string()));
}

#[test]
fn table_without_a_usable_row_has_no_hostname() {
    assert_eq!(HostnameWalk::start().finish(), Err(ReportError::NoComputerName));
    let mut walk = HostnameWalk::start();
    assert!(walk.step(None, None));
    assert!(walk.step(Some(utf16("LINK")), Some(utf16(".url"))));
    assert_eq!(walk.finish(), Err(ReportError::NoComputerName));
    let mut walk = HostnameWalk::start();
    assert!(!walk.step(Some(utf16("")), None));
    assert_eq!(walk.finish(), Ok(String::new()));
}
