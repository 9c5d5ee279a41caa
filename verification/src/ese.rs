//! Classification of rows and projection of their columns into reports.
//!
//! A row comes as a column bag. It belongs to exactly one category: Internet
//! history if its item URL says so, else activity history if its item type
//! says so, else it is a file record. The fields of the category are taken
//! from the bag in the order of the qualified column names.

use crate::columns::{
    column_value, columns_view, find_column, names_view, sorted_columns, with_column, Column,
    ColumnBag, ColumnInfo, ColumnSpec,
};
use crate::error::ReportError;
use crate::record::{integer_field, text_field, FieldSpec};
use crate::report::{Report, ReportOutput, ReportSuffix};
use crate::seqs::lemma_flat_map_push;
use crate::text::{
    chars_equal, find_from, has_infix, has_prefix, matches_at, optional_text, str_equal, to_chars,
};
use crate::time::{filetime_text, format_date_time};
use crate::utils::{
    column_string_part, find_guid, from_utf16, guid_after, string_part, u32_from_bytes, u32_le,
    u64_from_bytes, u64_le, utf16_text,
};
use vstd::prelude::*;

verus! {

/// The qualified name of the item URL column.
pub open spec fn item_url_key() -> Seq<char> {
    "33-System_ItemUrl"@
}

/// The qualified name of the item type column.
pub open spec fn item_type_key() -> Seq<char> {
    "4450-System_ItemType"@
}

/// Whether `url` is the URL of a visit recorded by Internet Explorer or by
/// Edge.
pub open spec fn is_internet_url(url: Seq<char>) -> bool {
    has_prefix(url, "iehistory://"@) || (has_prefix(url, "winrt://"@) && has_infix(
        url,
        "/LS/Desktop/Microsoft Edge/stable/Default/"@,
    ))
}

/// Whether the row of `bag` belongs to Internet history: it has an item URL,
/// and that is the URL of a recorded visit.
pub open spec fn is_internet_history(bag: Seq<ColumnSpec>) -> bool {
    match column_value(bag, item_url_key()) {
        Some(v) => is_internet_url(utf16_text(v)),
        None => false,
    }
}

/// Whether the row of `bag` names itself an activity history item.
pub open spec fn is_activity_item(bag: Seq<ColumnSpec>) -> bool {
    match column_value(bag, item_type_key()) {
        Some(v) => utf16_text(v) == "ActivityHistoryItem"@,
        None => false,
    }
}

/// The category of the row of `bag`.
pub open spec fn category_of(bag: Seq<ColumnSpec>) -> ReportSuffix {
    if is_internet_history(bag) {
        ReportSuffix::InternetHistory
    } else if is_activity_item(bag) {
        ReportSuffix::ActivityHistory
    } else {
        ReportSuffix::FileReport
    }
}

/// How the raw value of a column becomes the value of a field.
#[derive(Clone, Copy, Debug, PartialEq, Eq, Structural)]
pub enum FieldKind {
    /// UTF-16 text.
    Text,
    /// A FILETIME, written as ISO 8601 text.
    Time,
    /// A little-endian unsigned number of 64 bits.
    Integer,
    /// UTF-16 text of a composite URI, with its volume and object ids as
    /// fields of their own.
    ContentUri,
}

/// The kind of the column `name` in a file record, if it is part of one.
pub open spec fn file_field_kind(name: Seq<char>) -> Option<FieldKind> {
    if name == "System_ItemPathDisplay"@ || name == "System_FileOwner"@ || name
        == "System_Search_AutoSummary"@ || name == "System_ItemType"@ || name
        == "System_ComputerName"@ {
        Some(FieldKind::Text)
    } else if name == "System_DateModified"@ || name == "System_DateCreated"@ || name
        == "System_DateAccessed"@ || name == "System_Search_GatherTime"@ {
        Some(FieldKind::Time)
    } else if name == "System_Size"@ {
        Some(FieldKind::Integer)
    } else {
        None
    }
}

/// The kind of the column `name` in an Internet history record, if it is
/// part of one.
pub open spec fn internet_field_kind(name: Seq<char>) -> Option<FieldKind> {
    if name == "System_ItemUrl"@ || name == "System_Link_TargetUrl"@ || name == "System_Title"@
        || name == "System_ComputerName"@ {
        Some(FieldKind::Text)
    } else if name == "System_DateModified"@ || name == "System_ItemDate"@ || name
        == "System_Search_GatherTime"@ || name == "System_Link_DateVisited"@ {
        Some(FieldKind::Time)
    } else {
        None
    }
}

/// The kind of the column `name` in an activity history record, if it is
/// part of one.
pub open spec fn activity_field_kind(name: Seq<char>) -> Option<FieldKind> {
    if name == "System_ItemNameDisplay"@ || name == "System_ItemUrl"@ || name
        == "System_Activity_AppDisplayName"@ || name == "System_ActivityHistory_AppId"@ || name
        == "System_Activity_DisplayText"@ || name == "System_ComputerName"@ {
        Some(FieldKind::Text)
    } else if name == "System_ActivityHistory_StartTime"@ || name
        == "System_ActivityHistory_EndTime"@ {
        Some(FieldKind::Time)
    } else if name == "System_Activity_ContentUri"@ {
        Some(FieldKind::ContentUri)
    } else {
        None
    }
}

/// The kind of the column with the semantic name `name` in a record of
/// `category`, if it is part of one.
pub open spec fn field_kind(category: ReportSuffix, name: Seq<char>) -> Option<FieldKind> {
    match category {
        ReportSuffix::FileReport => file_field_kind(name),
        ReportSuffix::InternetHistory => internet_field_kind(name),
        ReportSuffix::ActivityHistory => activity_field_kind(name),
        ReportSuffix::Unknown => None,
    }
}

/// Whether `name` is the text `literal`.
fn named(name: &Vec<char>, literal: &str) -> (r: bool)
    ensures
        r == (name@ == literal@),
{
    let other = to_chars(literal);
    chars_equal(name, &other)
}

/// The kind of the column with the semantic name `name` in a file record.
fn kind_in_file_record(name: &Vec<char>) -> (r: Option<FieldKind>)
    ensures
        r == file_field_kind(name@),
{
    if named(name, "System_ItemPathDisplay") || named(name, "System_FileOwner") || named(
        name,
        "System_Search_AutoSummary",
    ) || named(name, "System_ItemType") || named(name, "System_ComputerName") {
        Some(FieldKind::Text)
    } else if named(name, "System_DateModified") || named(name, "System_DateCreated") || named(
        name,
        "System_DateAccessed",
    ) || named(name, "System_Search_GatherTime") {
        Some(FieldKind::Time)
    } else if named(name, "System_Size") {
        Some(FieldKind::Integer)
    } else {
        None
    }
}

/// The kind of the column with the semantic name `name` in an Internet
/// history record.
fn kind_in_internet_record(name: &Vec<char>) -> (r: Option<FieldKind>)
    ensures
        r == internet_field_kind(name@),
{
    if named(name, "System_ItemUrl") || named(name, "System_Link_TargetUrl") || named(
        name,
        "System_Title",
    ) || named(name, "System_ComputerName") {
        Some(FieldKind::Text)
    } else if named(name, "System_DateModified") || named(name, "System_ItemDate") || named(
        name,
        "System_Search_GatherTime",
    ) || named(name, "System_Link_DateVisited") {
        Some(FieldKind::Time)
    } else {
        None
    }
}

/// The kind of the column with the semantic name `name` in an activity
/// history record.
fn kind_in_activity_record(name: &Vec<char>) -> (r: Option<FieldKind>)
    ensures
        r == activity_field_kind(name@),
{
    if named(name, "System_ItemNameDisplay") || named(name, "System_ItemUrl") || named(
        name,
        "System_Activity_AppDisplayName",
    ) || named(name, "System_ActivityHistory_AppId") || named(
        name,
        "System_Activity_DisplayText",
    ) || named(name, "System_ComputerName") {
        Some(FieldKind::Text)
    } else if named(name, "System_ActivityHistory_StartTime") || named(
        name,
        "System_ActivityHistory_EndTime",
    ) {
        Some(FieldKind::Time)
    } else if named(name, "System_Activity_ContentUri") {
        Some(FieldKind::ContentUri)
    } else {
        None
    }
}

/// The kind of the column with the semantic name `name` in a record of
/// `category`.
pub fn kind_of_field(category: ReportSuffix, name: &str) -> (r: Option<FieldKind>)
    ensures
        r == field_kind(category, name@),
{
    let chars = to_chars(name);
    match category {
        ReportSuffix::FileReport => kind_in_file_record(&chars),
        ReportSuffix::InternetHistory => kind_in_internet_record(&chars),
        ReportSuffix::ActivityHistory => kind_in_activity_record(&chars),
        ReportSuffix::Unknown => None,
    }
}

/// The time that the raw value `value` holds as a FILETIME, as text; `None`
/// where `value` is no number of 64 bits or chrono has no such time.
pub open spec fn time_text(value: Seq<u8>) -> Option<Seq<char>> {
    match u64_le(value) {
        Some(filetime) => filetime_text(filetime),
        None => None,
    }
}

/// The fields that the column `column` gives to a record of `category`: none
/// where the column is no part of such a record or its value cannot be read,
/// else the one field under the semantic name of the column, and before it,
/// for a composite URI, the volume id and the object id found in it.
pub open spec fn column_fields(category: ReportSuffix, column: ColumnSpec) -> Seq<FieldSpec> {
    let name = string_part(column.name);
    match field_kind(category, name) {
        None => Seq::empty(),
        Some(FieldKind::Text) => seq![text_field(name, utf16_text(column.value))],
        Some(FieldKind::Time) => match time_text(column.value) {
            Some(t) => seq![text_field(name, t)],
            None => Seq::empty(),
        },
        Some(FieldKind::Integer) => match u64_le(column.value) {
            Some(n) => seq![integer_field(name, n)],
            None => Seq::empty(),
        },
        Some(FieldKind::ContentUri) => {
            let uri = utf16_text(column.value);
            seq![
                text_field("VolumeId"@, guid_after(uri, "VolumeId="@)),
                text_field("ObjectId"@, guid_after(uri, "ObjectId="@)),
                text_field(name, uri),
            ]
        },
    }
}

/// [`column_fields`] for `category` as a function value.
pub open spec fn column_fields_of(category: ReportSuffix) -> spec_fn(ColumnSpec) -> Seq<FieldSpec> {
    |column: ColumnSpec| column_fields(category, column)
}

/// The fields of the record of `category` for the row `work_id` with the
/// columns `bag`: the row id, then the fields of the columns in the order of
/// their qualified names.
pub open spec fn record_fields(category: ReportSuffix, work_id: u32, bag: Seq<ColumnSpec>) -> Seq<
    FieldSpec,
> {
    seq![integer_field("WorkId"@, work_id as u64)] + sorted_columns(bag).flat_map(
        column_fields_of(category),
    )
}

/// The state of a sink after each of `fields` was stored in turn.
pub open spec fn apply_fields<R: Report>(st: R::V, fields: Seq<FieldSpec>) -> R::V
    decreases fields.len(),
{
    if fields.len() == 0 {
        st
    } else {
        let f = fields.last();
        R::inserted(apply_fields::<R>(st, fields.drop_last()), f.name, f.cell)
    }
}

/// Storing one more field stores the others and then that field.
pub proof fn lemma_apply_push<R: Report>(st: R::V, fields: Seq<FieldSpec>, f: FieldSpec)
    ensures
        apply_fields::<R>(st, fields.push(f)) == R::inserted(
            apply_fields::<R>(st, fields),
            f.name,
            f.cell,
        ),
{
    assert(fields.push(f).drop_last() =~= fields);
}

/// Stores the fields of `column` for a record of `category` in `r`.
fn insert_column<R: Report>(r: &mut R, category: ReportSuffix, column: &Column)
    requires
        R::inv(old(r)@),
    ensures
        R::inv(final(r)@),
        forall|before: Seq<FieldSpec>, st: R::V|
            old(r)@ == apply_fields::<R>(st, before) ==> final(r)@ == apply_fields::<R>(
                st,
                before + column_fields(category, column@),
            ),
{
    let csp = column_string_part(column.name.as_str());
    let ghost fields = column_fields(category, column@);
    match kind_of_field(category, csp) {
        None => {
            assert forall|before: Seq<FieldSpec>, st: R::V|
                old(r)@ == apply_fields::<R>(st, before) implies r@ == apply_fields::<R>(
                st,
                before + fields,
            ) by {
                assert(before + fields =~= before);
            }
        },
        Some(FieldKind::Text) => {
            r.insert_str_val(csp, from_utf16(column.value.as_slice()));
            assert forall|before: Seq<FieldSpec>, st: R::V|
                old(r)@ == apply_fields::<R>(st, before) implies r@ == apply_fields::<R>(
                st,
                before + fields,
            ) by {
                assert(before + fields =~= before.push(fields[0]));
                lemma_apply_push::<R>(st, before, fields[0]);
            }
        },
        Some(FieldKind::Time) => {
            let time = match u64_from_bytes(column.value.as_slice()) {
                Some(filetime) => format_date_time(filetime),
                None => None,
            };
            match time {
                Some(t) => {
                    r.insert_str_val(csp, t);
                    assert forall|before: Seq<FieldSpec>, st: R::V|
                        old(r)@ == apply_fields::<R>(st, before) implies r@ == apply_fields::<R>(
                        st,
                        before + fields,
                    ) by {
                        assert(before + fields =~= before.push(fields[0]));
                        lemma_apply_push::<R>(st, before, fields[0]);
                    }
                },
                None => {
                    assert forall|before: Seq<FieldSpec>, st: R::V|
                        old(r)@ == apply_fields::<R>(st, before) implies r@ == apply_fields::<R>(
                        st,
                        before + fields,
                    ) by {
                        assert(before + fields =~= before);
                    }
                },
            }
        },
        Some(FieldKind::Integer) => {
            match u64_from_bytes(column.value.as_slice()) {
                Some(n) => {
                    r.insert_int_val(csp, n);
                    assert forall|before: Seq<FieldSpec>, st: R::V|
                        old(r)@ == apply_fields::<R>(st, before) implies r@ == apply_fields::<R>(
                        st,
                        before + fields,
                    ) by {
                        assert(before + fields =~= before.push(fields[0]));
                        lemma_apply_push::<R>(st, before, fields[0]);
                    }
                },
                None => {
                    assert forall|before: Seq<FieldSpec>, st: R::V|
                        old(r)@ == apply_fields::<R>(st, before) implies r@ == apply_fields::<R>(
                        st,
                        before + fields,
                    ) by {
                        assert(before + fields =~= before);
                    }
                },
            }
        },
        Some(FieldKind::ContentUri) => {
            let v = from_utf16(column.value.as_slice());
            r.insert_str_val("VolumeId", find_guid(v.as_str(), "VolumeId="));
            r.insert_str_val("ObjectId", find_guid(v.as_str(), "ObjectId="));
            r.insert_str_val(csp, v);
            assert forall|before: Seq<FieldSpec>, st: R::V|
                old(r)@ == apply_fields::<R>(st, before) implies r@ == apply_fields::<R>(
                st,
                before + fields,
            ) by {
                assert(before + fields =~= before.push(fields[0]).push(fields[1]).push(fields[2]));
                lemma_apply_push::<R>(st, before, fields[0]);
                lemma_apply_push::<R>(st, before.push(fields[0]), fields[1]);
                lemma_apply_push::<R>(st, before.push(fields[0]).push(fields[1]), fields[2]);
            }
        },
    }
}

/// Flushes the pending record of `r` and stores the fields of the record of
/// `category` for the row `work_id` with the columns `h`. Returns what the
/// flush hands to the backend.
pub fn insert_record<R: Report>(
    r: &mut R,
    category: ReportSuffix,
    work_id: u32,
    h: &ColumnBag,
) -> (out: String)
    requires
        R::inv(old(r)@),
    ensures
        R::inv(final(r)@),
        final(r)@ == apply_fields::<R>(
            R::flushed(old(r)@, false),
            record_fields(category, work_id, h@),
        ),
        out@ == R::emitted(old(r)@, false),
{
    let out = r.create_new_row(false);
    let ghost start = r@;
    let ghost head = seq![integer_field("WorkId"@, work_id as u64)];
    r.insert_int_val("WorkId", work_id as u64);
    proof {
        lemma_apply_push::<R>(start, Seq::empty(), head[0]);
        assert(Seq::<FieldSpec>::empty().push(head[0]) =~= head);
    }
    let columns = h.sorted();
    let ghost sorted = sorted_columns(h@);
    let ghost each = column_fields_of(category);
    let mut i: usize = 0;
    assert(sorted.take(0) =~= Seq::<ColumnSpec>::empty());
    assert(head + sorted.take(0).flat_map(each) =~= head);
    while i < columns.len()
        invariant
            i <= columns.len(),
            columns_view(columns@) == sorted,
            each == column_fields_of(category),
            R::inv(r@),
            r@ == apply_fields::<R>(start, head + sorted.take(i as int).flat_map(each)),
        decreases columns.len() - i,
    {
        let ghost before = head + sorted.take(i as int).flat_map(each);
        proof {
            assert(sorted.take(i + 1) =~= sorted.take(i as int).push(sorted[i as int]));
            lemma_flat_map_push(sorted.take(i as int), each, sorted[i as int]);
            assert(sorted[i as int] == columns@[i as int]@);
            assert(head + sorted.take(i + 1).flat_map(each) =~= before + column_fields(
                category,
                sorted[i as int],
            ));
        }
        insert_column(r, category, &columns[i]);
        i += 1;
    }
    assert(sorted.take(columns.len() as int) =~= sorted);
    out
}

/// Whether `url` is the URL of a visit recorded by Internet Explorer or by
/// Edge.
pub fn is_history_url(url: &str) -> (r: bool)
    ensures
        r == is_internet_url(url@),
{
    let chars = to_chars(url);
    let explorer = to_chars("iehistory://");
    if matches_at(&chars, &explorer, 0) {
        return true;
    }
    let edge = to_chars("winrt://");
    if !matches_at(&chars, &edge, 0) {
        return false;
    }
    let profile = to_chars("/LS/Desktop/Microsoft Edge/stable/Default/");
    find_from(&chars, &profile, 0).is_some()
}

/// Whether the row with the columns `h` belongs to Internet history.
pub fn is_internet_row(h: &ColumnBag) -> (r: bool)
    requires
        h.wf(),
    ensures
        r == is_internet_history(h@),
{
    match h.get("33-System_ItemUrl") {
        Some(val) => {
            let v = from_utf16(val.as_slice());
            is_history_url(v.as_str())
        },
        None => false,
    }
}

/// Whether the row with the columns `h` names itself an activity history
/// item.
pub fn is_activity_row(h: &ColumnBag) -> (r: bool)
    requires
        h.wf(),
    ensures
        r == is_activity_item(h@),
{
    match h.get("4450-System_ItemType") {
        Some(val) => {
            let v = from_utf16(val.as_slice());
            str_equal(v.as_str(), "ActivityHistoryItem")
        },
        None => false,
    }
}

/// Stores the row as a file record in `r`, after a flush of the record
/// before it. Returns what the flush hands to the backend.
pub fn ese_dump_file_record<R: Report>(r: &mut R, work_id: u32, h: &ColumnBag) -> (out: String)
    requires
        R::inv(old(r)@),
    ensures
        R::inv(final(r)@),
        final(r)@ == apply_fields::<R>(
            R::flushed(old(r)@, false),
            record_fields(ReportSuffix::FileReport, work_id, h@),
        ),
        out@ == R::emitted(old(r)@, false),
{
    insert_record(r, ReportSuffix::FileReport, work_id, h)
}

/// Stores the row as an Internet history record in `r` if it is one, after a
/// flush of the record before it. Returns whether it is one, and what the
/// flush hands to the backend. A row of another category leaves `r` as it is.
#[allow(non_snake_case)]
pub fn ese_IE_history_record<R: Report>(r: &mut R, work_id: u32, h: &ColumnBag) -> (res: (
    bool,
    String,
))
    requires
        R::inv(old(r)@),
        h.wf(),
    ensures
        R::inv(final(r)@),
        res.0 == is_internet_history(h@),
        res.0 ==> final(r)@ == apply_fields::<R>(
            R::flushed(old(r)@, false),
            record_fields(ReportSuffix::InternetHistory, work_id, h@),
        ) && res.1@ == R::emitted(old(r)@, false),
        !res.0 ==> final(r)@ == old(r)@ && res.1@ == Seq::<char>::empty(),
{
    if !is_internet_row(h) {
        return (false, String::new());
    }
    let out = insert_record(r, ReportSuffix::InternetHistory, work_id, h);
    (true, out)
}

/// Stores the row as an activity history record in `r` if it names itself an
/// activity history item, after a flush of the record before it. Returns
/// whether it does, and what the flush hands to the backend. Any other row
/// leaves `r` as it is.
pub fn ese_activity_history_record<R: Report>(r: &mut R, work_id: u32, h: &ColumnBag) -> (res: (
    bool,
    String,
))
    requires
        R::inv(old(r)@),
        h.wf(),
    ensures
        R::inv(final(r)@),
        res.0 == is_activity_item(h@),
        res.0 ==> final(r)@ == apply_fields::<R>(
            R::flushed(old(r)@, false),
            record_fields(ReportSuffix::ActivityHistory, work_id, h@),
        ) && res.1@ == R::emitted(old(r)@, false),
        !res.0 ==> final(r)@ == old(r)@ && res.1@ == Seq::<char>::empty(),
{
    if !is_activity_row(h) {
        return (false, String::new());
    }
    let out = insert_record(r, ReportSuffix::ActivityHistory, work_id, h);
    (true, out)
}

/// Classifies the row and stores it in the report of its category, after a
/// flush of the record before it there. The other two reports stay as they
/// are. Returns the category, and what the flush hands to the backend of
/// that report.
pub fn ese_report_row<F: Report, I: Report, A: Report>(
    file_rep: &mut F,
    ie_rep: &mut I,
    act_rep: &mut A,
    work_id: u32,
    h: &ColumnBag,
) -> (res: (ReportSuffix, String))
    requires
        F::inv(old(file_rep)@),
        I::inv(old(ie_rep)@),
        A::inv(old(act_rep)@),
        h.wf(),
    ensures
        F::inv(final(file_rep)@),
        I::inv(final(ie_rep)@),
        A::inv(final(act_rep)@),
        res.0 == category_of(h@),
        final(ie_rep)@ == (if res.0 == ReportSuffix::InternetHistory {
            apply_fields::<I>(
                I::flushed(old(ie_rep)@, false),
                record_fields(res.0, work_id, h@),
            )
        } else {
            old(ie_rep)@
        }),
        final(act_rep)@ == (if res.0 == ReportSuffix::ActivityHistory {
            apply_fields::<A>(
                A::flushed(old(act_rep)@, false),
                record_fields(res.0, work_id, h@),
            )
        } else {
            old(act_rep)@
        }),
        final(file_rep)@ == (if res.0 == ReportSuffix::FileReport {
            apply_fields::<F>(
                F::flushed(old(file_rep)@, false),
                record_fields(res.0, work_id, h@),
            )
        } else {
            old(file_rep)@
        }),
        res.1@ == (match res.0 {
            ReportSuffix::InternetHistory => I::emitted(old(ie_rep)@, false),
            ReportSuffix::ActivityHistory => A::emitted(old(act_rep)@, false),
            _ => F::emitted(old(file_rep)@, false),
        }),
{
    let (ie_history, ie_out) = ese_IE_history_record(ie_rep, work_id, h);
    if ie_history {
        return (ReportSuffix::InternetHistory, ie_out);
    }
    let (act_history, act_out) = ese_activity_history_record(act_rep, work_id, h);
    if act_history {
        return (ReportSuffix::ActivityHistory, act_out);
    }
    let out = ese_dump_file_record(file_rep, work_id, h);
    (ReportSuffix::FileReport, out)
}

/// The semantic names of the columns that the reports read, in the order in
/// which they are asked for.
pub open spec fn selected_names() -> Seq<Seq<char>> {
    seq![
        "System_ComputerName"@,
        "WorkID"@,
        "System_ItemPathDisplay"@,
        "System_DateModified"@,
        "System_DateCreated"@,
        "System_DateAccessed"@,
        "System_Size"@,
        "System_FileOwner"@,
        "System_Search_AutoSummary"@,
        "System_Search_GatherTime"@,
        "System_ItemType"@,
        "System_ItemUrl"@,
        "System_Link_TargetUrl"@,
        "System_ItemDate"@,
        "System_Title"@,
        "System_Link_DateVisited"@,
        "System_ItemNameDisplay"@,
        "System_ActivityHistory_StartTime"@,
        "System_ActivityHistory_EndTime"@,
        "System_Activity_AppDisplayName"@,
        "System_ActivityHistory_AppId"@,
        "System_Activity_DisplayText"@,
        "System_Activity_ContentUri"@,
    ]
}

/// The semantic names of the columns that the reports read: the computer
/// name and the row id, then the columns of file records, of Internet
/// history and of activity history.
pub fn selected_columns() -> (names: Vec<&'static str>)
    ensures
        names_view(names@) == selected_names(),
{
    let mut names: Vec<&'static str> = Vec::new();
    names.push("System_ComputerName");
    names.push("WorkID");
    names.push("System_ItemPathDisplay");
    names.push("System_DateModified");
    names.push("System_DateCreated");
    names.push("System_DateAccessed");
    names.push("System_Size");
    names.push("System_FileOwner");
    names.push("System_Search_AutoSummary");
    names.push("System_Search_GatherTime");
    names.push("System_ItemType");
    names.push("System_ItemUrl");
    names.push("System_Link_TargetUrl");
    names.push("System_ItemDate");
    names.push("System_Title");
    names.push("System_Link_DateVisited");
    names.push("System_ItemNameDisplay");
    names.push("System_ActivityHistory_StartTime");
    names.push("System_ActivityHistory_EndTime");
    names.push("System_Activity_AppDisplayName");
    names.push("System_ActivityHistory_AppId");
    names.push("System_Activity_DisplayText");
    names.push("System_Activity_ContentUri");
    assert(names_view(names@) =~= selected_names());
    names
}

/// What to do about the state of the database once its rows are reported.
#[derive(Clone, Copy, Debug, PartialEq, Eq, Structural)]
pub enum DirtyAction {
    /// The database was shut down cleanly: nothing to do.
    Proceed,
    /// Warn that the results may be inaccurate or incomplete.
    Warn,
    /// Warn, and end the run with the exit status for bad input data.
    Abort,
}

/// What to do about a database that is dirty or not, by the kind of output:
/// a dirty database ends a run that reports to stdout, and gets a warning
/// with any other output.
pub fn dirty_database_action(dirty: bool, report_type: ReportOutput) -> (r: DirtyAction)
    ensures
        r == (if !dirty {
            DirtyAction::Proceed
        } else if report_type == ReportOutput::ToStdout {
            DirtyAction::Abort
        } else {
            DirtyAction::Warn
        }),
{
    if !dirty {
        DirtyAction::Proceed
    } else {
        match report_type {
            ReportOutput::ToStdout => DirtyAction::Abort,
            _ => DirtyAction::Warn,
        }
    }
}

/// The row id after the column `name` was read with `value`: the number in
/// `value` where the column is the row id column and holds one of 32 bits.
pub open spec fn collected_id(work_id: u32, name: Seq<char>, value: Option<Seq<u8>>) -> u32 {
    match value {
        Some(v) if name == "WorkID"@ => match u32_le(v) {
            Some(id) => id,
            None => work_id,
        },
        _ => work_id,
    }
}

/// The column bag after the column `name` was read with `value`: the value
/// is stored under the name, unless the column is the row id column or has
/// no value.
pub open spec fn collected_bag(bag: Seq<ColumnSpec>, name: Seq<char>, value: Option<Seq<u8>>) -> Seq<
    ColumnSpec,
> {
    match value {
        Some(v) if name != "WorkID"@ => with_column(bag, name, v),
        _ => bag,
    }
}

/// The view of an optional byte vector.
pub open spec fn optional_bytes(value: Option<Vec<u8>>) -> Option<Seq<u8>> {
    match value {
        Some(v) => Some(v@),
        None => None,
    }
}

/// Takes the value read for `column` into the row: the row id column sets
/// `work_id`, any other column with a value goes into the bag `h`.
pub fn ese_collect_column(
    h: &mut ColumnBag,
    work_id: &mut u32,
    column: &ColumnInfo,
    value: Option<Vec<u8>>,
)
    requires
        old(h).wf(),
    ensures
        final(h).wf(),
        *final(work_id) == collected_id(*old(work_id), column.name@, optional_bytes(value)),
        final(h)@ == collected_bag(old(h)@, column.name@, optional_bytes(value)),
{
    if str_equal(column.name.as_str(), "WorkID") {
        match value {
            Some(v) => match u32_from_bytes(v.as_slice()) {
                Some(id) => {
                    *work_id = id;
                },
                None => {},
            },
            None => {},
        }
    } else {
        match value {
            Some(v) => {
                h.insert(column.name.clone(), v);
            },
            None => {},
        }
    }
}

/// The value read for the column at index `i`: none where `values` is too
/// short to hold one.
pub open spec fn value_at(values: Seq<Option<Vec<u8>>>, i: int) -> Option<Seq<u8>> {
    if 0 <= i < values.len() {
        optional_bytes(values[i])
    } else {
        None
    }
}

/// The row id and the column bag of a row after the first `n` of `columns`
/// were read with `values`. A row without a readable id has the id zero.
pub open spec fn collected_row(
    columns: Seq<ColumnInfo>,
    values: Seq<Option<Vec<u8>>>,
    n: int,
) -> (u32, Seq<ColumnSpec>)
    decreases n,
{
    if n <= 0 {
        (0u32, Seq::empty())
    } else {
        let before = collected_row(columns, values, n - 1);
        (
            collected_id(before.0, columns[n - 1].name@, value_at(values, n - 1)),
            collected_bag(before.1, columns[n - 1].name@, value_at(values, n - 1)),
        )
    }
}

/// Makes the row of the values read for `columns`: empties the bag `h`,
/// takes each value in under the name of its column, and returns the row id.
pub fn ese_collect_row(
    h: &mut ColumnBag,
    columns: &Vec<ColumnInfo>,
    values: &Vec<Option<Vec<u8>>>,
) -> (work_id: u32)
    ensures
        final(h).wf(),
        (work_id, final(h)@) == collected_row(columns@, values@, columns@.len() as int),
{
    h.clear();
    let mut work_id: u32 = 0;
    let mut i: usize = 0;
    while i < columns.len()
        invariant
            i <= columns.len(),
            h.wf(),
            (work_id, h@) == collected_row(columns@, values@, i as int),
        decreases columns.len() - i,
    {
        let value: Option<Vec<u8>> = if i < values.len() {
            match &values[i] {
                Some(v) => {
                    let copy = v.clone();
                    assert(copy@ =~= v@);
                    Some(copy)
                },
                None => None,
            }
        } else {
            None
        };
        assert(optional_bytes(value) == value_at(values@, i as int));
        ese_collect_column(h, &mut work_id, &columns[i], value);
        i += 1;
    }
    work_id
}

/// What `str::to_lowercase` makes of a text.
pub uninterp spec fn lowercase(s: Seq<char>) -> Seq<char>;

/// Calls `str::to_lowercase`, which gives the lowercase equivalent of the
/// text as a new `String`.
#[verifier::external_body]
fn to_lowercase(s: &str) -> (r: String)
    ensures
        r@ == lowercase(s@),
{
    s.to_lowercase()
}

/// Whether a row with the item type `item_type` may give the host name: a
/// row of a link to a web page may not.
pub open spec fn gives_hostname(item_type: Option<Seq<u8>>) -> bool {
    match item_type {
        Some(t) => lowercase(utf16_text(t)) != ".url"@,
        None => true,
    }
}

/// The host name that a row gives, by its computer name and its item type.
pub open spec fn hostname_of_row(computer_name: Option<Seq<u8>>, item_type: Option<Seq<u8>>) -> Option<
    Seq<char>,
> {
    match computer_name {
        Some(v) if gives_hostname(item_type) => Some(utf16_text(v)),
        _ => None,
    }
}

/// Whether the lowercase item type `lowered` is that of a link to a web page.
pub fn is_url_item(lowered: &str) -> (r: bool)
    ensures
        r == (lowered@ == ".url"@),
{
    str_equal(lowered, ".url")
}

/// The host name that a row gives: its computer name, unless the row has
/// none or is a link to a web page.
pub fn ese_get_hostname(computer_name: Option<Vec<u8>>, item_type: Option<Vec<u8>>) -> (r: Option<
    String,
>)
    ensures
        optional_text(r) == hostname_of_row(
            optional_bytes(computer_name),
            optional_bytes(item_type),
        ),
{
    match computer_name {
        Some(v) => {
            let usable = match item_type {
                Some(t) => {
                    let lowered = to_lowercase(from_utf16(t.as_slice()).as_str());
                    !is_url_item(lowered.as_str())
                },
                None => true,
            };
            if usable {
                Some(from_utf16(v.as_slice()))
            } else {
                None
            }
        },
        None => None,
    }
}

/// Whether `r` is the answer to the question for the two columns that the
/// search for the host name reads: the ids of the first column with the
/// semantic name `System_ComputerName` and of the first with
/// `System_ItemType`, or which of the two is missing, the computer name
/// first.
pub open spec fn is_hostname_columns(columns: Seq<ColumnInfo>, r: Result<(u32, u32), ReportError>) -> bool {
    match r {
        Ok((name_id, type_id)) => exists|i: int, j: int|
            {
                &&& 0 <= i < columns.len()
                &&& 0 <= j < columns.len()
                &&& #[trigger] is_first_named(columns, i, "System_ComputerName"@)
                &&& #[trigger] is_first_named(columns, j, "System_ItemType"@)
                &&& columns[i].id == name_id
                &&& columns[j].id == type_id
            },
        Err(e) => if has_column(columns, "System_ComputerName"@) {
            e == ReportError::NoItemTypeColumn && !has_column(columns, "System_ItemType"@)
        } else {
            e == ReportError::NoComputerNameColumn
        },
    }
}

/// The ids of the two columns that the search for the host name reads.
pub fn hostname_columns(columns: &Vec<ColumnInfo>) -> (r: Result<(u32, u32), ReportError>)
    ensures
        is_hostname_columns(columns@, r),
{
    match find_column(columns, "System_ComputerName") {
        Some(i) => match find_column(columns, "System_ItemType") {
            Some(j) => {
                assert(is_first_named(columns@, i as int, "System_ComputerName"@));
                assert(is_first_named(columns@, j as int, "System_ItemType"@));
                Ok((columns[i].id, columns[j].id))
            },
            None => {
                assert(is_first_named(columns@, i as int, "System_ComputerName"@));
                Err(ReportError::NoItemTypeColumn)
            },
        },
        None => Err(ReportError::NoComputerNameColumn),
    }
}

/// Starts the search for the host name: a table without a last row has no
/// host name; else the search reads the two columns whose ids are returned.
pub fn hostname_search(has_last_row: bool, columns: &Vec<ColumnInfo>) -> (r: Result<
    (u32, u32),
    ReportError,
>)
    ensures
        !has_last_row ==> r == Err::<(u32, u32), ReportError>(ReportError::EmptyTable),
        has_last_row ==> is_hostname_columns(columns@, r),
{
    if !has_last_row {
        Err(ReportError::EmptyTable)
    } else {
        hostname_columns(columns)
    }
}

/// A row as the search for the host name reads it: the raw computer name and
/// the raw item type, each where the row has one.
pub struct HostRow {
    pub computer_name: Option<Seq<u8>>,
    pub item_type: Option<Seq<u8>>,
}

/// The host name that the rows of a table give, taken from the last row
/// backwards: the name that the last of the rows gives which give one.
pub open spec fn hostname_of_rows(rows: Seq<HostRow>) -> Option<Seq<char>>
    decreases rows.len(),
{
    if rows.len() == 0 {
        None
    } else {
        match hostname_of_row(rows.last().computer_name, rows.last().item_type) {
            Some(h) => Some(h),
            None => hostname_of_rows(rows.drop_last()),
        }
    }
}

/// The rows `later` decide before the rows `earlier` that stand before them
/// in the table: where the later rows give a name it is the name of all the
/// rows, whatever the earlier rows hold, and else the earlier rows decide.
pub proof fn lemma_later_rows_win(earlier: Seq<HostRow>, later: Seq<HostRow>)
    ensures
        hostname_of_rows(earlier + later) == (match hostname_of_rows(later) {
            Some(h) => Some(h),
            None => hostname_of_rows(earlier),
        }),
    decreases later.len(),
{
    if later.len() == 0 {
        assert(earlier + later =~= earlier);
    } else {
        assert((earlier + later).last() == later.last());
        assert((earlier + later).drop_last() =~= earlier + later.drop_last());
        lemma_later_rows_win(earlier, later.drop_last());
    }
}

/// The mathematical value of a [`HostnameWalk`].
pub struct HostnameWalkView {
    /// The rows that the walk has read, in the order of the table. The walk
    /// goes backwards, so they are the last rows of the table.
    pub walked: Seq<HostRow>,
    /// The name that the walk has found.
    pub found: Option<Seq<char>>,
}

/// The search for the host name: a walk over the rows of a table from the
/// last one backwards, which ends at the first row that gives a name.
pub struct HostnameWalk {
    found: Option<String>,
    walked: Ghost<Seq<HostRow>>,
}

impl View for HostnameWalk {
    type V = HostnameWalkView;

    closed spec fn view(&self) -> HostnameWalkView {
        HostnameWalkView { walked: self.walked@, found: optional_text(self.found) }
    }
}

impl HostnameWalk {
    /// The walk's invariant: what it has found is the name that the rows
    /// give which it has read.
    pub open spec fn wf(&self) -> bool {
        self@.found == hostname_of_rows(self@.walked)
    }

    /// A walk that has read no row.
    pub fn start() -> (walk: Self)
        ensures
            walk.wf(),
            walk@.walked == Seq::<HostRow>::empty(),
    {
        HostnameWalk { found: None, walked: Ghost(Seq::empty()) }
    }

    /// Reads the row that stands before the rows read so far. Returns whether
    /// the walk is to go on to the row before: it is, as long as no row has
    /// given a name. A row that is read after one has given a name changes
    /// nothing.
    pub fn step(&mut self, computer_name: Option<Vec<u8>>, item_type: Option<Vec<u8>>) -> (more:
        bool)
        requires
            old(self).wf(),
        ensures
            final(self).wf(),
            final(self)@.walked == seq![
                HostRow {
                    computer_name: optional_bytes(computer_name),
                    item_type: optional_bytes(item_type),
                },
            ] + old(self)@.walked,
            more == (final(self)@.found is None),
    {
        let ghost row = HostRow {
            computer_name: optional_bytes(computer_name),
            item_type: optional_bytes(item_type),
        };
        proof {
            lemma_later_rows_win(seq![row], self.walked@);
            assert(seq![row].drop_last() =~= Seq::<HostRow>::empty());
            assert(seq![row].last() == row);
            assert(hostname_of_rows(seq![row].drop_last()) is None);
            assert(hostname_of_rows(seq![row]) == hostname_of_row(
                row.computer_name,
                row.item_type,
            ));
        }
        if self.found.is_none() {
            self.found = ese_get_hostname(computer_name, item_type);
        }
        self.walked = Ghost(seq![row] + self.walked@);
        self.found.is_none()
    }

    /// Ends the walk: with the name that the rows give which it has read, or
    /// with the error of a table in which no row gave one.
    pub fn finish(self) -> (r: Result<String, ReportError>)
        requires
            self.wf(),
        ensures
            match r {
                Ok(h) => hostname_of_rows(self@.walked) == Some(h@),
                Err(e) => hostname_of_rows(self@.walked) is None && e
                    == ReportError::NoComputerName,
            },
    {
        match self.found {
            Some(h) => Ok(h),
            None => Err(ReportError::NoComputerName),
        }
    }
}

/// Whether the column at index `i` is the first with the semantic name
/// `name`.
pub open spec fn is_first_named(columns: Seq<ColumnInfo>, i: int, name: Seq<char>) -> bool {
    &&& 0 <= i < columns.len()
    &&& string_part(columns[i].name@) == name
    &&& forall|k: int| 0 <= k < i ==> string_part(columns[k].name@) != name
}

/// Whether some column has the semantic name `name`.
pub open spec fn has_column(columns: Seq<ColumnInfo>, name: Seq<char>) -> bool {
    exists|i: int| 0 <= i < columns.len() && string_part(#[trigger] columns[i].name@) == name
}

/// The host name of the reports: the one found, or `Unknown` where the
/// search found none.
pub fn recovered_hostname(found: Option<String>) -> (r: String)
    ensures
        r@ == (match found {
            Some(h) => h@,
            None => "Unknown"@,
        }),
{
    match found {
        Some(h) => h,
        None => "Unknown".to_owned(),
    }
}

} // verus!
