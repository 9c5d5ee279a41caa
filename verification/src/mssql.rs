//! The batched SQL sink.
//!
//! The sink turns records into value tuples, collects them, and hands back a
//! multi-row INSERT statement whenever a batch is full. The caller owns the
//! one connection of the sink and executes what it is handed.

use crate::error::ReportError;
use crate::record::{
    all_valued, cell_of, has_value, lemma_all_valued, lemma_valued_pending, lemma_with_field,
    names_unique, with_field, Cell, CellSpec, FieldSpec, Record,
};
use crate::report::{Report, ReportSuffix};
use crate::seqs::lemma_flat_map_push;
use crate::text::{
    decimal, from_chars, joined, optional_text, parts_view, push_decimal, push_joined, push_str,
    to_chars,
};
use vstd::prelude::*;

verus! {

/// The number of rows that one INSERT statement carries at most.
pub const BATCH_SIZE: usize = 25;

/// The SQL type of a column.
#[derive(Clone, Copy, Debug, PartialEq, Eq, Structural)]
pub enum SqlType {
    BigInt,
    DateTime2,
    Text,
}

impl SqlType {
    /// The name of the type in SQL.
    pub open spec fn text(self) -> Seq<char> {
        match self {
            SqlType::BigInt => "BIGINT"@,
            SqlType::DateTime2 => "DATETIME2"@,
            SqlType::Text => "NVARCHAR(MAX)"@,
        }
    }

    /// The name of the type in SQL.
    pub fn name(&self) -> (r: &'static str)
        ensures
            r@ == self.text(),
    {
        match self {
            SqlType::BigInt => "BIGINT",
            SqlType::DateTime2 => "DATETIME2",
            SqlType::Text => "NVARCHAR(MAX)",
        }
    }
}

/// A column of a report table.
#[derive(Clone, Copy, Debug)]
pub struct SqlColumn {
    pub name: &'static str,
    pub kind: SqlType,
}

/// The mathematical value of a [`SqlColumn`].
pub struct SqlColumnSpec {
    pub name: Seq<char>,
    pub kind: SqlType,
}

impl View for SqlColumn {
    type V = SqlColumnSpec;

    open spec fn view(&self) -> SqlColumnSpec {
        SqlColumnSpec { name: self.name@, kind: self.kind }
    }
}

/// The mathematical values of `columns`.
pub open spec fn layout_view(columns: Seq<SqlColumn>) -> Seq<SqlColumnSpec> {
    columns.map_values(|c: SqlColumn| c@)
}

/// The column `name` of type `kind`.
pub open spec fn sql_column(name: Seq<char>, kind: SqlType) -> SqlColumnSpec {
    SqlColumnSpec { name, kind }
}

/// The columns of the table of a category, in their order. File reports and
/// activity history share one layout; the unknown category has none.
pub open spec fn layout(suffix: ReportSuffix) -> Seq<SqlColumnSpec> {
    match suffix {
        ReportSuffix::Unknown => Seq::empty(),
        ReportSuffix::InternetHistory => seq![
            sql_column("WorkId"@, SqlType::BigInt),
            sql_column("System_ItemUrl"@, SqlType::Text),
            sql_column("System_ItemDate"@, SqlType::DateTime2),
            sql_column("System_Link_TargetUrl"@, SqlType::Text),
            sql_column("System_Search_GatherTime"@, SqlType::DateTime2),
            sql_column("System_Title"@, SqlType::Text),
            sql_column("System_Link_DateVisited"@, SqlType::DateTime2),
        ],
        _ => seq![
            sql_column("WorkId"@, SqlType::BigInt),
            sql_column("System_ComputerName"@, SqlType::Text),
            sql_column("System_ItemPathDisplay"@, SqlType::Text),
            sql_column("System_DateModified"@, SqlType::DateTime2),
            sql_column("System_DateCreated"@, SqlType::DateTime2),
            sql_column("System_DateAccessed"@, SqlType::DateTime2),
            sql_column("System_Size"@, SqlType::BigInt),
            sql_column("System_FileOwner"@, SqlType::Text),
            sql_column("System_Search_AutoSummary"@, SqlType::Text),
            sql_column("System_Search_GatherTime"@, SqlType::DateTime2),
            sql_column("System_ItemType"@, SqlType::Text),
        ],
    }
}

/// The columns of the table of a category, in their order.
pub fn table_layout(suffix: ReportSuffix) -> (columns: Vec<SqlColumn>)
    ensures
        layout_view(columns@) == layout(suffix),
{
    let mut columns: Vec<SqlColumn> = Vec::new();
    match suffix {
        ReportSuffix::Unknown => {},
        ReportSuffix::InternetHistory => {
            columns.push(SqlColumn { name: "WorkId", kind: SqlType::BigInt });
            columns.push(SqlColumn { name: "System_ItemUrl", kind: SqlType::Text });
            columns.push(SqlColumn { name: "System_ItemDate", kind: SqlType::DateTime2 });
            columns.push(SqlColumn { name: "System_Link_TargetUrl", kind: SqlType::Text });
            columns.push(SqlColumn { name: "System_Search_GatherTime", kind: SqlType::DateTime2 });
            columns.push(SqlColumn { name: "System_Title", kind: SqlType::Text });
            columns.push(SqlColumn { name: "System_Link_DateVisited", kind: SqlType::DateTime2 });
        },
        _ => {
            columns.push(SqlColumn { name: "WorkId", kind: SqlType::BigInt });
            columns.push(SqlColumn { name: "System_ComputerName", kind: SqlType::Text });
            columns.push(SqlColumn { name: "System_ItemPathDisplay", kind: SqlType::Text });
            columns.push(SqlColumn { name: "System_DateModified", kind: SqlType::DateTime2 });
            columns.push(SqlColumn { name: "System_DateCreated", kind: SqlType::DateTime2 });
            columns.push(SqlColumn { name: "System_DateAccessed", kind: SqlType::DateTime2 });
            columns.push(SqlColumn { name: "System_Size", kind: SqlType::BigInt });
            columns.push(SqlColumn { name: "System_FileOwner", kind: SqlType::Text });
            columns.push(SqlColumn { name: "System_Search_AutoSummary", kind: SqlType::Text });
            columns.push(SqlColumn { name: "System_Search_GatherTime", kind: SqlType::DateTime2 });
            columns.push(SqlColumn { name: "System_ItemType", kind: SqlType::Text });
        },
    }
    assert(layout_view(columns@) =~= layout(suffix));
    columns
}

/// How a character stands inside a quoted SQL text: a single quote twice.
pub open spec fn sql_char(c: char) -> Seq<char> {
    if c == '\'' {
        seq!['\'', '\'']
    } else {
        seq![c]
    }
}

/// [`sql_char`] as a function value.
pub open spec fn sql_char_fn() -> spec_fn(char) -> Seq<char> {
    |c: char| sql_char(c)
}

/// `s` with each character as it stands inside a quoted SQL text.
pub open spec fn sql_escaped(s: Seq<char>) -> Seq<char> {
    s.flat_map(sql_char_fn())
}

/// The value of the column `column` in a row made of `values`: a text in
/// single quotes, a number in decimal digits, `NULL` where the record has no
/// value of that name.
pub open spec fn sql_value(values: Seq<FieldSpec>, column: Seq<char>) -> Seq<char> {
    match cell_of(values, column) {
        Some(CellSpec::Text(s)) => seq!['\''] + sql_escaped(s) + seq!['\''],
        Some(CellSpec::Integer(n)) => decimal(n as nat),
        _ => "NULL"@,
    }
}

/// The values of a row made of `values`, one for each column of `columns`.
pub open spec fn sql_values(values: Seq<FieldSpec>, columns: Seq<SqlColumnSpec>) -> Seq<
    Seq<char>,
> {
    Seq::new(columns.len(), |i: int| sql_value(values, columns[i].name))
}

/// The record `values` as a value tuple over `columns`.
pub open spec fn sql_tuple(values: Seq<FieldSpec>, columns: Seq<SqlColumnSpec>) -> Seq<char> {
    seq!['('] + joined(sql_values(values, columns), ", "@) + seq![')']
}

/// The names of `columns`, each in square brackets.
pub open spec fn bracketed_names(columns: Seq<SqlColumnSpec>) -> Seq<Seq<char>> {
    Seq::new(columns.len(), |i: int| seq!['['] + columns[i].name + seq![']'])
}

/// The definitions of `columns`: the name in square brackets, the type, and
/// `NULL` for a column that may stay empty.
pub open spec fn column_definitions(columns: Seq<SqlColumnSpec>) -> Seq<Seq<char>> {
    Seq::new(
        columns.len(),
        |i: int| seq!['['] + columns[i].name + "] "@ + columns[i].kind.text() + " NULL"@,
    )
}

/// The statement that creates the table `table` with `columns`.
pub open spec fn create_statement(table: Seq<char>, columns: Seq<SqlColumnSpec>) -> Seq<char> {
    "CREATE TABLE ["@ + table + "] ("@ + joined(column_definitions(columns), ", "@) + seq![')']
}

/// The statement that inserts the value tuples `rows` into `table`.
pub open spec fn insert_statement(
    table: Seq<char>,
    columns: Seq<SqlColumnSpec>,
    rows: Seq<Seq<char>>,
) -> Seq<char> {
    "INSERT INTO ["@ + table + "] ("@ + joined(bracketed_names(columns), ", "@) + ") VALUES "@
        + joined(rows, ", "@)
}

/// The connection string for the driver clause `driver`, the server
/// `instance` and the database `database`, with a trusted connection.
pub open spec fn connection_text(driver: Seq<char>, instance: Seq<char>, database: Seq<char>) -> Seq<
    char,
> {
    driver + "Server="@ + instance + ";Database="@ + database
        + ";Trusted_Connection=yes;TrustServerCertificate=yes;"@
}

/// The pattern of the name of an ODBC driver for SQL Server, with the
/// driver's version as its first group.
pub open spec fn driver_pattern() -> Seq<char> {
    "ODBC Driver (\\d+) for SQL Server"@
}

/// What the regex crate captures as group `group` of the leftmost match of
/// `pattern` in `text`; `None` where `pattern` is no regular expression,
/// finds no match, or has no such group in its match.
pub uninterp spec fn regex_group(pattern: Seq<char>, text: Seq<char>, group: nat) -> Option<
    Seq<char>,
>;

/// Compiles `pattern` with `regex::Regex::new`, searches `text` with
/// `Regex::captures` and takes the group with `Captures::get`. The result is
/// a function of the three arguments alone.
#[verifier::external_body]
fn capture_group(pattern: &str, text: &str, group: usize) -> (r: Option<String>)
    ensures
        optional_text(r) == regex_group(pattern@, text@, group as nat),
{
    match regex::Regex::new(pattern) {
        Ok(re) => match re.captures(text) {
            Some(found) => match found.get(group) {
                Some(m) => Some(m.as_str().to_owned()),
                None => None,
            },
            None => None,
        },
        Err(_) => None,
    }
}

/// Whether `s` is a run of one or more of the digits `0` to `9`.
pub open spec fn is_digits(s: Seq<char>) -> bool {
    s.len() > 0 && forall|i: int| 0 <= i < s.len() ==> '0' <= #[trigger] s[i] <= '9'
}

/// The number that the decimal digits `s` write.
pub open spec fn number_of(s: Seq<char>) -> nat
    decreases s.len(),
{
    if s.len() == 0 {
        0
    } else {
        (10 * number_of(s.drop_last()) + (s.last() as int - '0' as int)) as nat
    }
}

/// The number that `s` writes in decimal digits, where it is one of 32 bits.
pub open spec fn parsed_version(s: Seq<char>) -> Option<u32> {
    if is_digits(s) && number_of(s) <= u32::MAX {
        Some(number_of(s) as u32)
    } else {
        None
    }
}

/// More digits never write a smaller number.
proof fn lemma_number_grows(s: Seq<char>, k: int)
    requires
        is_digits(s),
        0 <= k <= s.len(),
    ensures
        number_of(s.take(k)) <= number_of(s),
    decreases s.len() - k,
{
    if k < s.len() {
        lemma_number_grows(s, k + 1);
        assert(s.take(k + 1).drop_last() =~= s.take(k));
        assert('0' <= s[k] <= '9');
    } else {
        assert(s.take(k) =~= s);
    }
}

/// Reads a version number: decimal digits that write a number of 32 bits.
/// A sign is no part of a version, so a text with one is refused.
pub fn parse_version(text: &str) -> (r: Option<u32>)
    ensures
        r == parsed_version(text@),
{
    let chars = to_chars(text);
    if chars.len() == 0 {
        return None;
    }
    let mut acc: u64 = 0;
    let mut i: usize = 0;
    assert(text@.take(0) =~= Seq::<char>::empty());
    while i < chars.len()
        invariant
            i <= chars.len(),
            chars@ == text@,
            forall|k: int| 0 <= k < i ==> '0' <= #[trigger] text@[k] <= '9',
            acc == number_of(text@.take(i as int)),
            acc <= u32::MAX,
        decreases chars.len() - i,
    {
        let c = chars[i];
        if c < '0' || c > '9' {
            return None;
        }
        assert(text@.take(i + 1).drop_last() =~= text@.take(i as int));
        let d: u64 = (c as u32 - '0' as u32) as u64;
        acc = 10 * acc + d;
        if acc > 0xFFFF_FFFF {
            proof {
                if is_digits(text@) {
                    lemma_number_grows(text@, i + 1);
                }
            }
            return None;
        }
        i += 1;
    }
    assert(text@.take(chars.len() as int) =~= text@);
    Some(acc as u32)
}

/// The index of the greatest of `versions`, the first one where it occurs
/// more than once; `None` where none is above zero.
pub fn latest_version(versions: &Vec<u32>) -> (r: Option<usize>)
    ensures
        match r {
            Some(i) => {
                &&& i < versions@.len()
                &&& versions@[i as int] > 0
                &&& forall|j: int| 0 <= j < versions@.len() ==> versions@[j] <= versions@[i as int]
                &&& forall|j: int| 0 <= j < i ==> versions@[j] < versions@[i as int]
            },
            None => forall|j: int| 0 <= j < versions@.len() ==> versions@[j] == 0,
        },
{
    let mut latest: u32 = 0;
    let mut found: Option<usize> = None;
    let mut i: usize = 0;
    while i < versions.len()
        invariant
            i <= versions.len(),
            forall|j: int| 0 <= j < i ==> versions@[j] <= latest,
            match found {
                Some(k) => k < i && versions@[k as int] == latest && latest > 0 && forall|j: int|
                    0 <= j < k ==> versions@[j] < latest,
                None => latest == 0,
            },
        decreases versions.len() - i,
    {
        if versions[i] > latest {
            latest = versions[i];
            found = Some(i);
        }
        i += 1;
    }
    found
}

/// The version that the driver description `description` names; zero where
/// it names none.
pub open spec fn driver_version(description: Seq<char>) -> u32 {
    match regex_group(driver_pattern(), description, 1) {
        Some(digits) => match parsed_version(digits) {
            Some(v) => v,
            None => 0,
        },
        None => 0,
    }
}

/// The versions that `descriptions` name.
pub open spec fn driver_versions(descriptions: Seq<String>) -> Seq<u32> {
    Seq::new(descriptions.len(), |i: int| driver_version(descriptions[i]@))
}

/// Whether the driver at index `i` of `drivers` is the one to take: it names
/// a version above zero, no driver names a later one, and none before it
/// names the same.
pub open spec fn is_latest_driver(drivers: Seq<String>, i: int) -> bool {
    &&& 0 <= i < drivers.len()
    &&& driver_version(drivers[i]@) > 0
    &&& forall|j: int|
        0 <= j < drivers.len() ==> driver_version(#[trigger] drivers[j]@) <= driver_version(
            drivers[i]@,
        )
    &&& forall|j: int|
        0 <= j < i ==> driver_version(#[trigger] drivers[j]@) < driver_version(drivers[i]@)
}

/// The driver clause of a connection string for the driver `description`.
pub open spec fn driver_clause(description: Seq<char>) -> Seq<char> {
    "Driver={"@ + description + "};"@
}

/// An instruction for the connection of the sink.
#[derive(Debug)]
pub enum SqlAction {
    /// Execute the statement.
    Execute(String),
    /// Commit the transaction.
    Commit,
}

/// The mathematical value of an [`SqlAction`].
pub enum SqlActionSpec {
    Execute(Seq<char>),
    Commit,
}

impl View for SqlAction {
    type V = SqlActionSpec;

    open spec fn view(&self) -> SqlActionSpec {
        match self {
            SqlAction::Execute(s) => SqlActionSpec::Execute(s@),
            SqlAction::Commit => SqlActionSpec::Commit,
        }
    }
}

/// The mathematical values of `actions`.
pub open spec fn actions_view(actions: Seq<SqlAction>) -> Seq<SqlActionSpec> {
    actions.map_values(|a: SqlAction| a@)
}

/// The mathematical value of a [`ReportMSSQL`].
pub struct ReportMSSQLView {
    pub instance: Seq<char>,
    pub database: Seq<char>,
    pub table_name: Seq<char>,
    pub report_suffix: Option<ReportSuffix>,
    /// The statement that creates the table was handed out.
    pub table_created: bool,
    pub values: Seq<FieldSpec>,
    /// The value tuples of the open batch.
    pub rows: Seq<Seq<char>>,
}

impl ReportMSSQLView {
    /// Whether the category of the sink has a table layout.
    pub open spec fn has_layout(self) -> bool {
        self.report_suffix is Some && self.report_suffix != Some(ReportSuffix::Unknown)
    }

    /// The columns of the table of the sink; none without a category.
    pub open spec fn columns(self) -> Seq<SqlColumnSpec> {
        match self.report_suffix {
            Some(suffix) => layout(suffix),
            None => Seq::empty(),
        }
    }

    /// The pending record as a value tuple: for each column of the table, in
    /// their order, the value stored under the name of the column, or `NULL`.
    /// A field of any other name takes no part.
    pub open spec fn tuple(self) -> Seq<char> {
        sql_tuple(self.values, self.columns())
    }

    /// The statement that inserts `rows` into the table of the sink.
    pub open spec fn insert(self, rows: Seq<Seq<char>>) -> Seq<char> {
        insert_statement(self.table_name, self.columns(), rows)
    }

    /// The statement that creates the table of the sink.
    pub open spec fn create(self) -> Seq<char> {
        create_statement(self.table_name, self.columns())
    }

    /// The sink with the pending record taken into the open batch as a value
    /// tuple, the batch emptied where that fills it. The pending record
    /// itself stays. Without a field in the record nothing changes.
    pub open spec fn with_row(self) -> ReportMSSQLView {
        if self.values.len() == 0 {
            self
        } else if self.rows.len() + 1 >= BATCH_SIZE {
            ReportMSSQLView { rows: Seq::empty(), ..self }
        } else {
            ReportMSSQLView { rows: self.rows.push(self.tuple()), ..self }
        }
    }

    /// The statement that is due when the pending record is taken into the
    /// open batch: the one that inserts the rows of the batch with the new
    /// tuple, where that fills the batch; else none.
    pub open spec fn row_statement(self) -> Option<Seq<char>> {
        if self.values.len() > 0 && self.rows.len() + 1 >= BATCH_SIZE {
            Some(self.insert(self.rows.push(self.tuple())))
        } else {
            None
        }
    }

    /// What the close of the sink asks of the connection: to create the table
    /// if that was not asked before, to insert the last record and the rows
    /// of the open batch, and to commit once. A sink whose category has no
    /// table layout has nothing to create or insert.
    pub open spec fn close_actions(self) -> Seq<SqlActionSpec> {
        let rows = if self.values.len() > 0 {
            self.rows.push(self.tuple())
        } else {
            self.rows
        };
        if self.has_layout() {
            (if self.table_created {
                Seq::<SqlActionSpec>::empty()
            } else {
                seq![SqlActionSpec::Execute(self.create())]
            }) + (if rows.len() > 0 {
                seq![SqlActionSpec::Execute(self.insert(rows))]
            } else {
                Seq::<SqlActionSpec>::empty()
            }) + seq![SqlActionSpec::Commit]
        } else {
            seq![SqlActionSpec::Commit]
        }
    }

    /// The sink after its close: with a table layout the table counts as
    /// created and nothing is pending; without one the sink is as before.
    pub open spec fn closed(self) -> ReportMSSQLView {
        if self.has_layout() {
            ReportMSSQLView {
                table_created: true,
                values: Seq::empty(),
                rows: Seq::empty(),
                ..self
            }
        } else {
            self
        }
    }
}

/// A report as rows of a database table, inserted in batches.
#[derive(Debug)]
pub struct ReportMSSQL {
    instance: String,
    database: String,
    table_name: String,
    report_suffix: Option<ReportSuffix>,
    table_created: bool,
    values: Record,
    query_builder: Vec<Vec<char>>,
}

impl View for ReportMSSQL {
    type V = ReportMSSQLView;

    closed spec fn view(&self) -> ReportMSSQLView {
        ReportMSSQLView {
            instance: self.instance@,
            database: self.database@,
            table_name: self.table_name@,
            report_suffix: self.report_suffix,
            table_created: self.table_created,
            values: self.values@,
            rows: parts_view(self.query_builder@),
        }
    }
}

impl ReportMSSQL {
    /// The states that a sink can be in: no name twice and no empty cell in
    /// the pending record, and less than a full batch of rows.
    pub open spec fn wf(st: ReportMSSQLView) -> bool {
        &&& names_unique(st.values)
        &&& all_valued(st.values)
        &&& st.rows.len() < BATCH_SIZE
    }

    /// A sink for the table `table_name` of `database` on the server
    /// `instance`. Whether the category has a table layout shows when the
    /// table is created or a record is written.
    pub fn new(
        table_name: &str,
        instance: &str,
        database: &str,
        report_suffix: Option<ReportSuffix>,
    ) -> (sink: Self)
        ensures
            Self::wf(sink@),
            sink@ == (ReportMSSQLView {
                instance: instance@,
                database: database@,
                table_name: table_name@,
                report_suffix,
                table_created: false,
                values: Seq::empty(),
                rows: Seq::empty(),
            }),
    {
        let sink = ReportMSSQL {
            instance: instance.to_owned(),
            database: database.to_owned(),
            table_name: table_name.to_owned(),
            report_suffix,
            table_created: false,
            values: Record::new(),
            query_builder: Vec::new(),
        };
        assert(sink@.rows =~= Seq::<Seq<char>>::empty());
        sink
    }

    /// Whether the category of the sink has a table layout.
    pub fn has_layout(&self) -> (r: bool)
        ensures
            r == self@.has_layout(),
    {
        match self.report_suffix {
            Some(ReportSuffix::Unknown) => false,
            Some(_) => true,
            None => false,
        }
    }

    /// The columns of the table of the sink.
    fn columns(&self) -> (columns: Vec<SqlColumn>)
        ensures
            layout_view(columns@) == self@.columns(),
    {
        match self.report_suffix {
            Some(suffix) => table_layout(suffix),
            None => {
                let columns: Vec<SqlColumn> = Vec::new();
                assert(layout_view(columns@) =~= Seq::<SqlColumnSpec>::empty());
                columns
            },
        }
    }

    /// Picks the latest ODBC driver for SQL Server among the installed
    /// drivers `drivers`, by the version in its description, and gives the
    /// driver clause for it. Of two drivers of the latest version the first
    /// is taken. A driver of version zero does not count.
    pub fn get_latest_odbc_driver(drivers: &Vec<String>) -> (r: Result<String, ReportError>)
        ensures
            match r {
                Ok(clause) => exists|i: int|
                    #[trigger] is_latest_driver(drivers@, i) && clause@ == driver_clause(
                        drivers@[i]@,
                    ),
                Err(e) => e == ReportError::NoDriver && forall|j: int|
                    0 <= j < drivers@.len() ==> driver_version(drivers@[j]@) == 0,
            },
    {
        let mut versions: Vec<u32> = Vec::new();
        let mut i: usize = 0;
        while i < drivers.len()
            invariant
                i <= drivers.len(),
                versions@ == driver_versions(drivers@).take(i as int),
            decreases drivers.len() - i,
        {
            let version: u32 = match capture_group(
                "ODBC Driver (\\d+) for SQL Server",
                drivers[i].as_str(),
                1,
            ) {
                Some(digits) => match parse_version(digits.as_str()) {
                    Some(v) => v,
                    None => 0,
                },
                None => 0,
            };
            versions.push(version);
            assert(versions@ =~= driver_versions(drivers@).take(i + 1));
            i += 1;
        }
        assert(versions@ =~= driver_versions(drivers@));
        match latest_version(&versions) {
            Some(k) => {
                let mut out: Vec<char> = to_chars("Driver={");
                push_str(&mut out, drivers[k].as_str());
                push_str(&mut out, "};");
                let clause = from_chars(&out);
                assert(is_latest_driver(drivers@, k as int)) by {
                    assert forall|j: int| 0 <= j < drivers@.len() implies driver_version(
                        #[trigger] drivers@[j]@,
                    ) == versions@[j] by {
                        assert(driver_versions(drivers@)[j] == driver_version(drivers@[j]@));
                    }
                    assert(driver_version(drivers@[k as int]@) == versions@[k as int]);
                }
                assert(clause@ =~= driver_clause(drivers@[k as int]@));
                Ok(clause)
            },
            None => {
                assert forall|j: int| 0 <= j < drivers@.len() implies driver_version(
                    drivers@[j]@,
                ) == 0 by {
                    assert(driver_versions(drivers@)[j] == driver_version(drivers@[j]@));
                }
                Err(ReportError::NoDriver)
            },
        }
    }

    /// The connection string of the sink for the driver clause `driver`.
    pub fn connection_string(&self, driver: &str) -> (r: String)
        ensures
            r@ == connection_text(driver@, self@.instance, self@.database),
    {
        let mut out: Vec<char> = to_chars(driver);
        push_str(&mut out, "Server=");
        push_str(&mut out, self.instance.as_str());
        push_str(&mut out, ";Database=");
        push_str(&mut out, self.database.as_str());
        push_str(&mut out, ";Trusted_Connection=yes;TrustServerCertificate=yes;");
        from_chars(&out)
    }

    /// The statement that creates the table of the sink. The sink takes the
    /// table for created from now on. A sink whose category has no table
    /// layout gives the error and stays as it is.
    pub fn create_table(&mut self) -> (r: Result<String, ReportError>)
        requires
            Self::wf(old(self)@),
        ensures
            Self::wf(final(self)@),
            match r {
                Ok(statement) => old(self)@.has_layout() && final(self)@ == Self::started(
                    old(self)@,
                ) && statement@ == old(self)@.create(),
                Err(e) => !old(self)@.has_layout() && e == ReportError::InvalidSuffix
                    && final(self)@ == old(self)@,
            },
    {
        if !self.has_layout() {
            return Err(ReportError::InvalidSuffix);
        }
        let columns = self.columns();
        let ghost specs = self@.columns();
        let mut parts: Vec<Vec<char>> = Vec::new();
        let mut i: usize = 0;
        while i < columns.len()
            invariant
                i <= columns.len(),
                parts.len() == i,
                layout_view(columns@) == specs,
                forall|k: int|
                    0 <= k < i ==> (#[trigger] parts@[k])@ == column_definitions(specs)[k],
            decreases columns.len() - i,
        {
            let mut part: Vec<char> = Vec::new();
            part.push('[');
            push_str(&mut part, columns[i].name);
            push_str(&mut part, "] ");
            push_str(&mut part, columns[i].kind.name());
            push_str(&mut part, " NULL");
            assert(specs[i as int] == columns@[i as int]@);
            assert(part@ =~= column_definitions(specs)[i as int]);
            parts.push(part);
            i += 1;
        }
        assert(parts_view(parts@) =~= column_definitions(specs));
        let mut out: Vec<char> = to_chars("CREATE TABLE [");
        push_str(&mut out, self.table_name.as_str());
        push_str(&mut out, "] (");
        push_joined(&mut out, &parts, ", ");
        out.push(')');
        self.table_created = true;
        Ok(from_chars(&out))
    }

    /// Appends `s` to `out` as it stands inside a quoted SQL text.
    fn escape(out: &mut Vec<char>, s: &str)
        ensures
            final(out)@ == old(out)@ + sql_escaped(s@),
    {
        let chars = to_chars(s);
        let mut i: usize = 0;
        assert(s@.take(0) =~= Seq::<char>::empty());
        assert(out@ =~= old(out)@ + sql_escaped(s@.take(0)));
        while i < chars.len()
            invariant
                i <= chars.len(),
                chars@ == s@,
                out@ == old(out)@ + sql_escaped(s@.take(i as int)),
            decreases chars.len() - i,
        {
            let c = chars[i];
            let ghost before = out@;
            proof {
                assert(s@.take(i + 1) =~= s@.take(i as int).push(c));
                lemma_flat_map_push(s@.take(i as int), sql_char_fn(), c);
            }
            if c == '\'' {
                out.push('\'');
            }
            out.push(c);
            assert(out@ =~= before + sql_char(c));
            i += 1;
        }
        assert(s@.take(chars.len() as int) =~= s@);
    }

    /// The pending record as a value tuple over the columns of the table.
    fn value_tuple(&self) -> (r: Vec<char>)
        requires
            Self::wf(self@),
        ensures
            r@ == self@.tuple(),
    {
        let columns = self.columns();
        let ghost specs = self@.columns();
        let mut parts: Vec<Vec<char>> = Vec::new();
        let mut i: usize = 0;
        while i < columns.len()
            invariant
                i <= columns.len(),
                parts.len() == i,
                layout_view(columns@) == specs,
                self.values.wf(),
                forall|k: int|
                    0 <= k < i ==> (#[trigger] parts@[k])@ == sql_value(
                        self.values@,
                        specs[k].name,
                    ),
            decreases columns.len() - i,
        {
            let mut part: Vec<char> = Vec::new();
            assert(specs[i as int] == columns@[i as int]@);
            match self.values.cell(columns[i].name) {
                Some(Cell::Text(s)) => {
                    part.push('\'');
                    Self::escape(&mut part, s.as_str());
                    part.push('\'');
                },
                Some(Cell::Integer(n)) => {
                    push_decimal(&mut part, *n);
                },
                _ => {
                    push_str(&mut part, "NULL");
                },
            }
            assert(part@ =~= sql_value(self.values@, specs[i as int].name));
            parts.push(part);
            i += 1;
        }
        assert(parts_view(parts@) =~= sql_values(self.values@, specs));
        let mut out: Vec<char> = Vec::new();
        out.push('(');
        push_joined(&mut out, &parts, ", ");
        out.push(')');
        out
    }

    /// The statement that inserts the rows of the open batch.
    fn batch_statement(&self) -> (r: String)
        ensures
            r@ == self@.insert(self@.rows),
    {
        let columns = self.columns();
        let ghost specs = self@.columns();
        let mut names: Vec<Vec<char>> = Vec::new();
        let mut i: usize = 0;
        while i < columns.len()
            invariant
                i <= columns.len(),
                names.len() == i,
                layout_view(columns@) == specs,
                forall|k: int| 0 <= k < i ==> (#[trigger] names@[k])@ == bracketed_names(specs)[k],
            decreases columns.len() - i,
        {
            let mut part: Vec<char> = Vec::new();
            part.push('[');
            push_str(&mut part, columns[i].name);
            part.push(']');
            assert(specs[i as int] == columns@[i as int]@);
            assert(part@ =~= bracketed_names(specs)[i as int]);
            names.push(part);
            i += 1;
        }
        assert(parts_view(names@) =~= bracketed_names(specs));
        let mut out: Vec<char> = to_chars("INSERT INTO [");
        push_str(&mut out, self.table_name.as_str());
        push_str(&mut out, "] (");
        push_joined(&mut out, &names, ", ");
        push_str(&mut out, ") VALUES ");
        push_joined(&mut out, &self.query_builder, ", ");
        from_chars(&out)
    }

    /// Takes the pending record into the open batch as a value tuple. When
    /// that fills the batch, the batch is emptied and the statement that
    /// inserts its rows is returned. The pending record itself is only read:
    /// to empty it is left to the flush.
    ///
    /// A sink whose category has no table layout gives the error and stays as
    /// it is. A record without a field adds no row, since a report holds no
    /// empty rows.
    pub fn write_values_to_db(&mut self) -> (r: Result<Option<String>, ReportError>)
        requires
            Self::wf(old(self)@),
        ensures
            Self::wf(final(self)@),
            final(self)@.values == old(self)@.values,
            match r {
                Ok(statement) => old(self)@.has_layout() && final(self)@ == old(self)@.with_row()
                    && optional_text(statement) == old(self)@.row_statement(),
                Err(e) => !old(self)@.has_layout() && e == ReportError::InvalidSuffix
                    && final(self)@ == old(self)@,
            },
    {
        if !self.has_layout() {
            return Err(ReportError::InvalidSuffix);
        }
        if self.values.len() == 0 {
            return Ok(None);
        }
        let row = self.value_tuple();
        self.query_builder.push(row);
        assert(parts_view(self.query_builder@) =~= old(self)@.rows.push(old(self)@.tuple()));
        if self.query_builder.len() >= BATCH_SIZE {
            let statement = self.batch_statement();
            self.query_builder.clear();
            assert(parts_view(self.query_builder@) =~= Seq::<Seq<char>>::empty());
            Ok(Some(statement))
        } else {
            Ok(None)
        }
    }

    /// Empties the open batch and returns the statement that inserts its
    /// rows; `None` where the batch holds no row. A sink that holds rows but
    /// has no table layout for them gives the error and stays as it is.
    pub fn flush_query_builder(&mut self) -> (r: Result<Option<String>, ReportError>)
        requires
            Self::wf(old(self)@),
        ensures
            Self::wf(final(self)@),
            match r {
                Ok(statement) => (old(self)@.rows.len() == 0 || old(self)@.has_layout())
                    && final(self)@ == Self::ended(old(self)@) && optional_text(statement) == (
                if old(self)@.rows.len() > 0 {
                    Some(old(self)@.insert(old(self)@.rows))
                } else {
                    None
                }),
                Err(e) => old(self)@.rows.len() > 0 && !old(self)@.has_layout() && e
                    == ReportError::InvalidSuffix && final(self)@ == old(self)@,
            },
    {
        if self.query_builder.len() > 0 {
            if !self.has_layout() {
                return Err(ReportError::InvalidSuffix);
            }
            let statement = self.batch_statement();
            self.query_builder.clear();
            assert(parts_view(self.query_builder@) =~= Seq::<Seq<char>>::empty());
            Ok(Some(statement))
        } else {
            assert(self@.rows =~= Seq::<Seq<char>>::empty());
            Ok(None)
        }
    }

    /// Closes the sink: flushes the pending record and the open batch, and
    /// says what is left to do on the connection, ending with the one commit.
    pub fn close(&mut self) -> (actions: Vec<SqlAction>)
        requires
            Self::wf(old(self)@),
        ensures
            Self::wf(final(self)@),
            final(self)@ == old(self)@.closed(),
            actions_view(actions@) == old(self)@.close_actions(),
    {
        let mut actions: Vec<SqlAction> = Vec::new();
        if self.has_layout() {
            if !self.table_created {
                match self.create_table() {
                    Ok(create) => {
                        actions.push(SqlAction::Execute(create));
                    },
                    Err(_) => {},
                }
            }
            if self.values.len() > 0 {
                let row = self.value_tuple();
                self.query_builder.push(row);
                assert(parts_view(self.query_builder@) =~= old(self)@.rows.push(
                    old(self)@.tuple(),
                ));
                self.values.clear();
            } else {
                assert(self@.values =~= Seq::<FieldSpec>::empty());
            }
            if self.query_builder.len() > 0 {
                let statement = self.batch_statement();
                actions.push(SqlAction::Execute(statement));
                self.query_builder.clear();
            }
            assert(parts_view(self.query_builder@) =~= Seq::<Seq<char>>::empty());
        }
        actions.push(SqlAction::Commit);
        assert(actions_view(actions@) =~= old(self)@.close_actions());
        actions
    }
}

/// A flush is the two steps of taking the pending record into the batch and
/// of emptying the record: the state after it is the one with the row and
/// without pending fields, and what it hands out is the statement that was due
/// with the row, if any.
pub proof fn lemma_flush_takes_row(st: ReportMSSQLView)
    requires
        ReportMSSQL::inv(st),
    ensures
        ReportMSSQL::flushed(st, false) == (ReportMSSQLView {
            values: Seq::empty(),
            ..st.with_row()
        }),
        ReportMSSQL::emitted(st, false) == (match st.row_statement() {
            Some(statement) => statement,
            None => Seq::empty(),
        }),
{
    lemma_valued_pending(st.values);
    if st.values.len() == 0 {
        assert(st.values =~= Seq::<FieldSpec>::empty());
    }
}

/// An INSERT statement is never the empty text.
pub proof fn lemma_insert_not_empty(
    table: Seq<char>,
    columns: Seq<SqlColumnSpec>,
    rows: Seq<Seq<char>>,
)
    ensures
        insert_statement(table, columns, rows).len() > 0,
{
    reveal_strlit("INSERT INTO [");
}

impl Report for ReportMSSQL {
    open spec fn inv(st: ReportMSSQLView) -> bool {
        Self::wf(st) && st.has_layout()
    }

    open spec fn accepts(st: ReportMSSQLView, name: Seq<char>) -> bool {
        true
    }

    open spec fn inserted(st: ReportMSSQLView, name: Seq<char>, cell: CellSpec) -> ReportMSSQLView {
        if cell == CellSpec::Empty {
            st
        } else {
            ReportMSSQLView { values: with_field(st.values, name, cell), ..st }
        }
    }

    open spec fn pending(st: ReportMSSQLView) -> bool {
        has_value(st.values)
    }

    open spec fn flushed(st: ReportMSSQLView, last: bool) -> ReportMSSQLView {
        if has_value(st.values) {
            ReportMSSQLView {
                values: Seq::empty(),
                rows: if st.rows.len() + 1 >= BATCH_SIZE {
                    Seq::empty()
                } else {
                    st.rows.push(st.tuple())
                },
                ..st
            }
        } else {
            st
        }
    }

    open spec fn emitted(st: ReportMSSQLView, last: bool) -> Seq<char> {
        if has_value(st.values) && st.rows.len() + 1 >= BATCH_SIZE {
            st.insert(st.rows.push(st.tuple()))
        } else {
            Seq::empty()
        }
    }

    open spec fn opening(st: ReportMSSQLView) -> Seq<char> {
        st.create()
    }

    open spec fn started(st: ReportMSSQLView) -> ReportMSSQLView {
        ReportMSSQLView { table_created: true, ..st }
    }

    open spec fn ending(st: ReportMSSQLView) -> Seq<char> {
        if st.rows.len() > 0 {
            st.insert(st.rows)
        } else {
            Seq::empty()
        }
    }

    open spec fn ended(st: ReportMSSQLView) -> ReportMSSQLView {
        ReportMSSQLView { rows: Seq::empty(), ..st }
    }

    proof fn lemma_insert(st: ReportMSSQLView, name: Seq<char>, cell: CellSpec) {
        if cell != CellSpec::Empty {
            lemma_with_field(st.values, name, cell);
            lemma_all_valued(st.values, name, cell);
        }
    }

    proof fn lemma_flush(st: ReportMSSQLView, last: bool) {
        lemma_valued_pending(st.values);
    }

    fn footer(&mut self) -> (out: String) {
        self.create_new_row(true)
    }

    fn create_new_row(&mut self, _f: bool) -> (out: String) {
        proof {
            lemma_flush_takes_row(self@);
        }
        let out = match self.write_values_to_db() {
            Ok(Some(statement)) => statement,
            _ => String::new(),
        };
        self.values.clear();
        out
    }

    fn insert_str_val(&mut self, f: &str, s: String) {
        proof {
            lemma_all_valued(self@.values, f@, CellSpec::Text(s@));
        }
        self.values.set(f, Cell::Text(s));
    }

    fn insert_int_val(&mut self, f: &str, n: u64) {
        proof {
            lemma_all_valued(self@.values, f@, CellSpec::Integer(n));
        }
        self.values.set(f, Cell::Integer(n));
    }

    fn set_field(&mut self, f: &str) {
    }

    fn start_file(&mut self) -> (out: String) {
        match self.create_table() {
            Ok(statement) => statement,
            Err(_) => String::new(),
        }
    }

    fn end_file(&mut self) -> (out: String) {
        match self.flush_query_builder() {
            Ok(Some(statement)) => statement,
            _ => String::new(),
        }
    }

    fn is_some_val_in_record(&self) -> (r: bool) {
        self.values.has_value()
    }
}

} // verus!
