//! Laws of classification and of the sinks.

use crate::columns::{column_value, sorted_columns, ColumnSpec};
use crate::csv::{csv_names, ReportCsv, ReportCsvView};
use crate::ese::{
    apply_fields, category_of, column_fields, column_fields_of, is_activity_item,
    is_internet_history, item_type_key, item_url_key, lemma_apply_push, record_fields,
};
use crate::json::{json_members, ReportJson, ReportJsonView};
use crate::mssql::{lemma_insert_not_empty, ReportMSSQL, ReportMSSQLView, BATCH_SIZE};
use crate::record::{
    all_valued, has_name, integer_field, names_unique, with_field, CellSpec, FieldSpec,
};
use crate::report::{closing, Report, ReportSuffix};
use crate::seqs::lemma_flat_map_push;
use crate::text::{first_occurrence, joined, lemma_first_occurrence, lemma_joined_push, occurs_at};
use crate::utils::guid_after;
use vstd::prelude::*;

verus! {

/// A row without an item URL and without an item type is a file record.
pub proof fn lemma_plain_row_is_file_record(bag: Seq<ColumnSpec>)
    requires
        column_value(bag, item_url_key()) is None,
        column_value(bag, item_type_key()) is None,
    ensures
        category_of(bag) == ReportSuffix::FileReport,
        !is_internet_history(bag),
        !is_activity_item(bag),
{
}

/// A row is activity history exactly when it names itself an activity
/// history item and its item URL did not make it Internet history; a row is
/// Internet history whenever its item URL says so.
pub proof fn lemma_category_priority(bag: Seq<ColumnSpec>)
    ensures
        category_of(bag) == ReportSuffix::InternetHistory <==> is_internet_history(bag),
        category_of(bag) == ReportSuffix::ActivityHistory <==> is_activity_item(bag)
            && !is_internet_history(bag),
        category_of(bag) == ReportSuffix::FileReport <==> !is_activity_item(bag)
            && !is_internet_history(bag),
        category_of(bag) != ReportSuffix::Unknown,
{
}

/// A sink with nothing pending writes nothing on a flush and stays as it
/// is; after any flush nothing is pending.
pub proof fn lemma_empty_record_is_not_flushed<R: Report>(st: R::V, last: bool)
    requires
        R::inv(st),
    ensures
        !R::pending(st) ==> R::emitted(st, last) == Seq::<char>::empty() && R::flushed(st, last)
            == st,
        !R::pending(R::flushed(st, last)),
{
    R::lemma_flush(st, last);
}

/// A JSON sink writes an object exactly when a value is pending.
pub proof fn lemma_json_writes_pending_only(st: ReportJsonView, last: bool)
    requires
        ReportJson::inv(st),
    ensures
        ReportJson::emitted(st, last).len() > 0 <==> ReportJson::pending(st),
{
}

/// A CSV sink writes a row exactly when a value is pending.
pub proof fn lemma_csv_writes_pending_only(st: ReportCsvView, last: bool)
    requires
        ReportCsv::inv(st),
    ensures
        ReportCsv::emitted(st, last).len() > 0 <==> ReportCsv::pending(st),
{
}

/// Once the header of a CSV report is written its columns are fixed: no
/// field that is stored and no flush changes the names or their order, and
/// after a flush every cell is empty, so that no value is carried over into
/// the next row.
pub proof fn lemma_csv_columns_fixed(
    st: ReportCsvView,
    name: Seq<char>,
    cell: CellSpec,
    last: bool,
)
    requires
        ReportCsv::inv(st),
        !st.first_record,
    ensures
        csv_names(ReportCsv::inserted(st, name, cell).values) == csv_names(st.values),
        csv_names(ReportCsv::flushed(st, last).values) == csv_names(st.values),
        !ReportCsv::inserted(st, name, cell).first_record,
        !ReportCsv::flushed(st, last).first_record,
        ReportCsv::pending(st) ==> forall|i: int|
            0 <= i < st.values.len() ==> (#[trigger] ReportCsv::flushed(st, last).values[i]).cell
                == CellSpec::Empty,
{
    assert(csv_names(ReportCsv::inserted(st, name, cell).values) =~= csv_names(st.values));
    assert(csv_names(ReportCsv::flushed(st, last).values) =~= csv_names(st.values));
}

/// The value that follows a marker is found: in a text in which `marker`
/// stands first at index `at`, followed by `value` without a semicolon and
/// then by a semicolon, the value after the marker is `value`.
pub proof fn lemma_guid_is_found(text: Seq<char>, marker: Seq<char>, at: int, value: Seq<char>)
    requires
        first_occurrence(text, marker, 0) == Some(at),
        at + marker.len() + value.len() < text.len(),
        text.subrange(at + marker.len(), at + marker.len() + value.len()) == value,
        text[at + marker.len() + value.len()] == ';',
        forall|i: int| 0 <= i < value.len() ==> value[i] != ';',
    ensures
        guid_after(text, marker) == value,
{
    lemma_first_occurrence(text, marker, 0);
    let rest = text.skip(at + marker.len());
    let semi = seq![';'];
    lemma_first_occurrence(rest, semi, 0);
    assert(rest.subrange(value.len() as int, value.len() as int + 1) =~= semi);
    assert(occurs_at(rest, semi, value.len() as int));
    assert forall|j: int| 0 <= j < value.len() implies !occurs_at(rest, semi, j) by {
        assert(rest[j] == value[j]);
        if occurs_at(rest, semi, j) {
            assert(rest.subrange(j, j + 1)[0] == semi[0]);
        }
    }
    assert(first_occurrence(rest, semi, 0) == Some(value.len() as int));
    assert(rest.take(value.len() as int) =~= value);
}

/// An SQL sink takes a row into its batch exactly when a value is pending,
/// and hands out a statement exactly when that row fills the batch. The
/// batch never holds a full count of rows between two calls.
pub proof fn lemma_sql_batches(st: ReportMSSQLView, last: bool)
    requires
        ReportMSSQL::inv(st),
    ensures
        ReportMSSQL::emitted(st, last).len() > 0 <==> ReportMSSQL::pending(st) && st.rows.len()
            + 1 == BATCH_SIZE,
        ReportMSSQL::flushed(st, last).rows.len() == (if !ReportMSSQL::pending(st) {
            st.rows.len()
        } else if st.rows.len() + 1 == BATCH_SIZE {
            0
        } else {
            st.rows.len() + 1
        }),
        ReportMSSQL::flushed(st, last).rows.len() < BATCH_SIZE,
{
    lemma_insert_not_empty(
        st.table_name,
        st.columns(),
        st.rows.push(st.tuple()),
    );
}

/// An SQL sink in the state `st` with `values` as its pending record.
pub open spec fn sql_holding(st: ReportMSSQLView, values: Seq<FieldSpec>) -> ReportMSSQLView {
    ReportMSSQLView { values, ..st }
}

/// The SQL sink after each of `records` was stored and flushed in turn.
pub open spec fn sql_after(st: ReportMSSQLView, records: Seq<Seq<FieldSpec>>) -> ReportMSSQLView
    decreases records.len(),
{
    if records.len() == 0 {
        st
    } else {
        ReportMSSQL::flushed(
            sql_holding(sql_after(st, records.drop_last()), records.last()),
            false,
        )
    }
}

/// The number of statements that the SQL sink handed out while each of
/// `records` was stored and flushed in turn.
pub open spec fn sql_statements(st: ReportMSSQLView, records: Seq<Seq<FieldSpec>>) -> nat
    decreases records.len(),
{
    if records.len() == 0 {
        0
    } else {
        let holding = sql_holding(sql_after(st, records.drop_last()), records.last());
        sql_statements(st, records.drop_last()) + (if ReportMSSQL::emitted(holding, false).len()
            > 0 {
            1nat
        } else {
            0nat
        })
    }
}

/// Whether `values` is a record with a value in every field: it has a
/// field, no name twice and no empty cell.
pub open spec fn is_full_record(values: Seq<FieldSpec>) -> bool {
    values.len() > 0 && names_unique(values) && all_valued(values)
}

/// A sink with an empty batch that stores and flushes a number of records
/// hands out one statement for every full batch of them and keeps the rest
/// as rows: the quotient and the remainder of the number by the batch size.
pub proof fn lemma_sql_batch_count(st: ReportMSSQLView, records: Seq<Seq<FieldSpec>>)
    requires
        ReportMSSQL::inv(st),
        st.rows.len() == 0,
        forall|i: int| 0 <= i < records.len() ==> is_full_record(#[trigger] records[i]),
    ensures
        sql_after(st, records).rows.len() == records.len() % BATCH_SIZE as nat,
        sql_statements(st, records) == records.len() / BATCH_SIZE as nat,
        records.len() > 0 ==> sql_after(st, records).values.len() == 0,
        ReportMSSQL::inv(sql_holding(sql_after(st, records), Seq::empty())),
    decreases records.len(),
{
    if records.len() > 0 {
        let earlier = records.drop_last();
        assert forall|i: int| 0 <= i < earlier.len() implies is_full_record(
            #[trigger] earlier[i],
        ) by {
            assert(earlier[i] == records[i]);
        }
        lemma_sql_batch_count(st, earlier);
        let holding = sql_holding(sql_after(st, earlier), records.last());
        assert(is_full_record(records[records.len() - 1]));
        assert(holding.values[0].cell != CellSpec::Empty);
        assert(ReportMSSQL::inv(holding));
        lemma_sql_batches(holding, false);
    }
}

/// Storing two runs of fields one after the other stores them all.
pub proof fn lemma_apply_concat<R: Report>(st: R::V, first: Seq<FieldSpec>, second: Seq<FieldSpec>)
    ensures
        apply_fields::<R>(st, first + second) == apply_fields::<R>(
            apply_fields::<R>(st, first),
            second,
        ),
    decreases second.len(),
{
    if second.len() == 0 {
        assert(first + second =~= first);
    } else {
        lemma_apply_concat::<R>(st, first, second.drop_last());
        assert((first + second).drop_last() =~= first + second.drop_last());
    }
}

/// Storing values in a sink with a pending value keeps it valid and the
/// value pending.
pub proof fn lemma_apply_keeps_pending<R: Report>(st: R::V, fields: Seq<FieldSpec>)
    requires
        R::inv(st),
        R::pending(st),
        all_valued(fields),
    ensures
        R::inv(apply_fields::<R>(st, fields)),
        R::pending(apply_fields::<R>(st, fields)),
    decreases fields.len(),
{
    if fields.len() > 0 {
        let f = fields.last();
        assert(f.cell != CellSpec::Empty);
        assert forall|i: int| 0 <= i < fields.drop_last().len() implies (
        #[trigger] fields.drop_last()[i]).cell != CellSpec::Empty by {
            assert(fields[i].cell != CellSpec::Empty);
        }
        lemma_apply_keeps_pending::<R>(st, fields.drop_last());
        R::lemma_insert(apply_fields::<R>(st, fields.drop_last()), f.name, f.cell);
    }
}

/// Every field that a column gives holds a value.
pub proof fn lemma_column_fields_valued(category: ReportSuffix, column: ColumnSpec)
    ensures
        all_valued(column_fields(category, column)),
{
}

/// Every field that the first `n` columns give holds a value.
proof fn lemma_columns_valued(category: ReportSuffix, columns: Seq<ColumnSpec>, n: int)
    requires
        0 <= n <= columns.len(),
    ensures
        all_valued(columns.take(n).flat_map(column_fields_of(category))),
    decreases n,
{
    let each = column_fields_of(category);
    if n == 0 {
        assert(columns.take(0) =~= Seq::<ColumnSpec>::empty());
        assert(columns.take(0).flat_map(each) =~= Seq::<FieldSpec>::empty());
    } else {
        lemma_columns_valued(category, columns, n - 1);
        assert(columns.take(n) =~= columns.take(n - 1).push(columns[n - 1]));
        lemma_flat_map_push(columns.take(n - 1), each, columns[n - 1]);
        lemma_column_fields_valued(category, columns[n - 1]);
        let before = columns.take(n - 1).flat_map(each);
        let added = column_fields(category, columns[n - 1]);
        assert forall|i: int| 0 <= i < (before + added).len() implies (#[trigger] (before
            + added)[i]).cell != CellSpec::Empty by {
            if i < before.len() {
                assert(before[i].cell != CellSpec::Empty);
            } else {
                assert(added[i - before.len()].cell != CellSpec::Empty);
            }
        }
    }
}

/// The record of a row is pending once it is stored: in a sink that, after
/// its flush, accepts the field of the row id, the fields of any row leave a
/// value pending, so that the next flush writes exactly this record.
pub proof fn lemma_record_is_pending<R: Report>(
    st: R::V,
    category: ReportSuffix,
    work_id: u32,
    bag: Seq<ColumnSpec>,
)
    requires
        R::inv(st),
        R::accepts(R::flushed(st, false), "WorkId"@),
    ensures
        R::inv(apply_fields::<R>(R::flushed(st, false), record_fields(category, work_id, bag))),
        R::pending(apply_fields::<R>(R::flushed(st, false), record_fields(category, work_id, bag))),
{
    let start = R::flushed(st, false);
    let id = integer_field("WorkId"@, work_id as u64);
    let head = seq![id];
    let columns = sorted_columns(bag);
    let rest = columns.flat_map(column_fields_of(category));
    R::lemma_flush(st, false);
    R::lemma_insert(start, id.name, id.cell);
    lemma_apply_push::<R>(start, Seq::empty(), id);
    assert(Seq::<FieldSpec>::empty().push(id) =~= head);
    lemma_columns_valued(category, columns, columns.len() as int);
    assert(columns.take(columns.len() as int) =~= columns);
    lemma_apply_concat::<R>(start, head, rest);
    lemma_apply_keeps_pending::<R>(apply_fields::<R>(start, head), rest);
}

/// The state of a sink after each of `records` was stored, with a flush
/// before each, and the text that these flushes handed to the backend. The
/// last record is still pending.
pub open spec fn stored<R: Report>(st: R::V, records: Seq<Seq<FieldSpec>>) -> (R::V, Seq<char>)
    decreases records.len(),
{
    if records.len() == 0 {
        (st, Seq::empty())
    } else {
        let before = stored::<R>(st, records.drop_last());
        (
            apply_fields::<R>(R::flushed(before.0, false), records.last()),
            before.1 + R::emitted(before.0, false),
        )
    }
}

/// All that a sink hands to its backend over a report of `records`: the
/// start, the flushes between the records, and the close.
pub open spec fn report_text<R: Report>(st: R::V, records: Seq<Seq<FieldSpec>>) -> Seq<char> {
    let run = stored::<R>(R::started(st), records);
    R::opening(st) + run.1 + closing::<R>(run.0)
}

/// The JSON object of the record `values` in a report like that of `st`, up
/// to its closing brace.
pub open spec fn json_body(st: ReportJsonView, values: Seq<FieldSpec>) -> Seq<char> {
    seq!['{'] + st.head() + joined(json_members(values), seq![',']) + seq!['}']
}

/// The JSON objects of `records`.
pub open spec fn json_bodies(st: ReportJsonView, records: Seq<Seq<FieldSpec>>) -> Seq<Seq<char>> {
    Seq::new(records.len(), |i: int| json_body(st, records[i]))
}

/// Storing a full record in a JSON sink without pending fields makes it the
/// pending record.
pub proof fn lemma_json_holds_record(st: ReportJsonView, values: Seq<FieldSpec>, n: int)
    requires
        st.values.len() == 0,
        names_unique(values),
        all_valued(values),
        0 <= n <= values.len(),
    ensures
        apply_fields::<ReportJson>(st, values.take(n)) == (ReportJsonView {
            values: values.take(n),
            ..st
        }),
    decreases n,
{
    if n == 0 {
        assert(values.take(0) =~= Seq::<FieldSpec>::empty());
        assert(st.values =~= values.take(0));
    } else {
        lemma_json_holds_record(st, values, n - 1);
        let f = values[n - 1];
        let before = values.take(n - 1);
        assert(values.take(n) =~= before.push(f));
        assert(values.take(n).drop_last() =~= before);
        assert(f.cell != CellSpec::Empty);
        assert(!has_name(before, f.name)) by {
            if has_name(before, f.name) {
                let k = choose|k: int| 0 <= k < before.len() && #[trigger] before[k].name == f.name;
                assert(values[k].name != values[n - 1].name);
            }
        }
        assert(with_field(before, f.name, f.cell) =~= before.push(f));
    }
}

/// What the flushes between the records of a JSON report write: each record
/// but the last as an object, followed by a comma and a line break. The last
/// record is pending.
proof fn lemma_json_stored(st: ReportJsonView, records: Seq<Seq<FieldSpec>>)
    requires
        ReportJson::inv(st),
        st.values.len() == 0,
        forall|i: int| 0 <= i < records.len() ==> is_full_record(#[trigger] records[i]),
    ensures
        stored::<ReportJson>(st, records).0 == (ReportJsonView {
            values: if records.len() == 0 {
                st.values
            } else {
                records.last()
            },
            ..st
        }),
        stored::<ReportJson>(st, records).1 == (if records.len() <= 1 {
            Seq::<char>::empty()
        } else {
            joined(json_bodies(st, records.drop_last()), ",\n"@) + ",\n"@
        }),
    decreases records.len(),
{
    reveal_strlit("},\n");
    reveal_strlit(",\n");
    if records.len() > 0 {
        let earlier = records.drop_last();
        assert forall|i: int| 0 <= i < earlier.len() implies is_full_record(
            #[trigger] earlier[i],
        ) by {
            assert(earlier[i] == records[i]);
        }
        lemma_json_stored(st, earlier);
        let before = stored::<ReportJson>(st, earlier);
        let flushed = ReportJson::flushed(before.0, false);
        let last = records.last();
        assert(is_full_record(records[records.len() - 1]));
        lemma_json_holds_record(flushed, last, last.len() as int);
        assert(last.take(last.len() as int) =~= last);
        if earlier.len() > 0 {
            let held = earlier.last();
            assert(is_full_record(earlier[earlier.len() - 1]));
            assert(held[0].cell != CellSpec::Empty);
            assert(before.0.head() == st.head());
            assert(ReportJson::emitted(before.0, false) =~= json_body(st, held) + ",\n"@);
            let bodies = json_bodies(st, earlier);
            assert(bodies.drop_last() =~= json_bodies(st, earlier.drop_last()));
            assert(bodies =~= bodies.drop_last().push(json_body(st, held)));
            lemma_joined_push(bodies.drop_last(), ",\n"@, json_body(st, held));
            assert(before.1 + ReportJson::emitted(before.0, false) =~= joined(bodies, ",\n"@)
                + ",\n"@);
        } else {
            assert(before.1 + ReportJson::emitted(before.0, false) =~= Seq::<char>::empty());
        }
    }
}

/// A JSON report is an array of the objects of its records: an opening
/// bracket and a line break, the objects with a comma and a line break
/// between neighbours and a line break after the last, and a closing
/// bracket. No comma follows the last object.
pub proof fn lemma_json_report(st: ReportJsonView, records: Seq<Seq<FieldSpec>>)
    requires
        ReportJson::inv(st),
        st.values.len() == 0,
        forall|i: int| 0 <= i < records.len() ==> is_full_record(#[trigger] records[i]),
    ensures
        report_text::<ReportJson>(st, records) == "[\n"@ + joined(
            json_bodies(st, records),
            ",\n"@,
        ) + (if records.len() > 0 {
            "\n"@
        } else {
            Seq::<char>::empty()
        }) + "]"@,
{
    reveal_strlit("}\n");
    reveal_strlit("\n");
    reveal_strlit(",\n");
    lemma_json_stored(st, records);
    let run = stored::<ReportJson>(st, records);
    if records.len() == 0 {
        assert(json_bodies(st, records) =~= Seq::<Seq<char>>::empty());
        assert(report_text::<ReportJson>(st, records) =~= "[\n"@ + "]"@);
        assert("[\n"@ + joined(json_bodies(st, records), ",\n"@) + Seq::<char>::empty() + "]"@
            =~= "[\n"@ + "]"@);
    } else {
        let last = records.last();
        assert(is_full_record(records[records.len() - 1]));
        assert(last[0].cell != CellSpec::Empty);
        assert(run.0.head() == st.head());
        assert(ReportJson::emitted(run.0, true) =~= json_body(st, last) + "\n"@);
        let bodies = json_bodies(st, records);
        assert(bodies.drop_last() =~= json_bodies(st, records.drop_last()));
        assert(bodies =~= bodies.drop_last().push(json_body(st, last)));
        lemma_joined_push(bodies.drop_last(), ",\n"@, json_body(st, last));
        assert(report_text::<ReportJson>(st, records) =~= "[\n"@ + joined(bodies, ",\n"@)
            + "\n"@ + "]"@);
    }
}

} // verus!
