//! The columns of a table and the column bag of one row.

use crate::order::{
    byte_codes, char_codes, lemma_byte_codes_injective, lemma_char_codes_injective,
    lemma_lex_antisymmetric, lemma_lex_reflexive, lemma_lex_total, lemma_lex_transitive, lex_leq,
};
use crate::text::str_equal;
use crate::utils::{column_string_part, string_part};
use itertools::Itertools;
use vstd::prelude::*;
use vstd::relations::{sorted_by, total_ordering};
use vstd::seq_lib::lemma_sorted_unique;

verus! {

/// A column of the table: its qualified name and the id it is read by.
#[derive(Debug)]
pub struct ColumnInfo {
    pub name: String,
    pub id: u32,
}

/// The mathematical value of a [`ColumnInfo`].
pub struct ColumnInfoSpec {
    pub name: Seq<char>,
    pub id: u32,
}

impl View for ColumnInfo {
    type V = ColumnInfoSpec;

    open spec fn view(&self) -> ColumnInfoSpec {
        ColumnInfoSpec { name: self.name@, id: self.id }
    }
}

/// The mathematical values of `cols`.
pub open spec fn infos_view(cols: Seq<ColumnInfo>) -> Seq<ColumnInfoSpec> {
    cols.map_values(|c: ColumnInfo| c@)
}

/// The texts of `names`.
pub open spec fn names_view(names: Seq<&str>) -> Seq<Seq<char>> {
    names.map_values(|s: &str| s@)
}

/// Whether the semantic part of the qualified name `name` is one of `wanted`.
pub open spec fn is_selected(name: Seq<char>, wanted: Seq<Seq<char>>) -> bool {
    wanted.contains(string_part(name))
}

/// Whether some column of `cols` has the semantic name `wanted`.
pub open spec fn is_provided(wanted: Seq<char>, cols: Seq<ColumnInfoSpec>) -> bool {
    exists|j: int| 0 <= j < cols.len() && string_part(#[trigger] cols[j].name) == wanted
}

/// Whether the semantic part of `name` is one of `sel_cols`.
fn selected(name: &str, sel_cols: &Vec<&str>) -> (r: bool)
    ensures
        r == is_selected(name@, names_view(sel_cols@)),
{
    let part = column_string_part(name);
    let ghost wanted = names_view(sel_cols@);
    let mut i: usize = 0;
    while i < sel_cols.len()
        invariant
            i <= sel_cols.len(),
            wanted == names_view(sel_cols@),
            part@ == string_part(name@),
            forall|k: int| 0 <= k < i ==> wanted[k] != part@,
        decreases sel_cols.len() - i,
    {
        if str_equal(sel_cols[i], part) {
            assert(wanted[i as int] == part@);
            return true;
        }
        i += 1;
    }
    false
}

/// The columns of `cols` whose semantic name is one of `sel_cols`, in the
/// order of `cols`.
pub fn prepare_selected_cols(cols: Vec<ColumnInfo>, sel_cols: &Vec<&str>) -> (only_cols: Vec<
    ColumnInfo,
>)
    ensures
        infos_view(only_cols@) == infos_view(cols@).filter(
            |c: ColumnInfoSpec| is_selected(c.name, names_view(sel_cols@)),
        ),
{
    let ghost all = infos_view(cols@);
    let ghost keep = |c: ColumnInfoSpec| is_selected(c.name, names_view(sel_cols@));
    let mut only_cols: Vec<ColumnInfo> = Vec::new();
    let mut i: usize = 0;
    assert(all.take(0) =~= Seq::<ColumnInfoSpec>::empty());
    assert(infos_view(only_cols@) =~= all.take(0).filter(keep));
    while i < cols.len()
        invariant
            i <= cols.len(),
            all == infos_view(cols@),
            keep == |c: ColumnInfoSpec| is_selected(c.name, names_view(sel_cols@)),
            infos_view(only_cols@) == all.take(i as int).filter(keep),
        decreases cols.len() - i,
    {
        let c = &cols[i];
        let ghost before = infos_view(only_cols@);
        proof {
            assert(all.take(i + 1) =~= all.take(i as int).push(all[i as int]));
            crate::seqs::lemma_filter_push(all.take(i as int), keep, all[i as int]);
        }
        if selected(c.name.as_str(), sel_cols) {
            only_cols.push(ColumnInfo { name: c.name.clone(), id: c.id });
            assert(infos_view(only_cols@) =~= before.push(all[i as int]));
        }
        i += 1;
    }
    assert(all.take(cols.len() as int) =~= all);
    only_cols
}

/// The names of `sel_cols` that no column of `only_cols` provides, in the
/// order of `sel_cols`. Where the two lists have the same length nothing is
/// looked for, and the result is empty.
pub fn missing_columns(sel_cols: &Vec<&str>, only_cols: &Vec<ColumnInfo>) -> (missing: Vec<String>)
    ensures
        missing@.map_values(|s: String| s@) == (if sel_cols@.len() == only_cols@.len() {
            Seq::<Seq<char>>::empty()
        } else {
            names_view(sel_cols@).filter(
                |w: Seq<char>| !is_provided(w, infos_view(only_cols@)),
            )
        }),
{
    let mut missing: Vec<String> = Vec::new();
    let ghost wanted = names_view(sel_cols@);
    let ghost given = infos_view(only_cols@);
    let ghost absent = |w: Seq<char>| !is_provided(w, infos_view(only_cols@));
    if sel_cols.len() == only_cols.len() {
        assert(missing@.map_values(|s: String| s@) =~= Seq::<Seq<char>>::empty());
        return missing;
    }
    let mut i: usize = 0;
    assert(wanted.take(0) =~= Seq::<Seq<char>>::empty());
    assert(missing@.map_values(|s: String| s@) =~= wanted.take(0).filter(absent));
    while i < sel_cols.len()
        invariant
            i <= sel_cols.len(),
            wanted == names_view(sel_cols@),
            given == infos_view(only_cols@),
            absent == |w: Seq<char>| !is_provided(w, infos_view(only_cols@)),
            missing@.map_values(|s: String| s@) == wanted.take(i as int).filter(absent),
        decreases sel_cols.len() - i,
    {
        let mut found = false;
        let mut j: usize = 0;
        while j < only_cols.len() && !found
            invariant
                j <= only_cols.len(),
                i < sel_cols.len(),
                given == infos_view(only_cols@),
                wanted == names_view(sel_cols@),
                !found ==> forall|k: int|
                    0 <= k < j ==> string_part(#[trigger] given[k].name) != wanted[i as int],
                found ==> is_provided(wanted[i as int], given),
            decreases only_cols.len() - j,
        {
            if str_equal(sel_cols[i], column_string_part(only_cols[j].name.as_str())) {
                assert(string_part(given[j as int].name) == wanted[i as int]);
                found = true;
            }
            j += 1;
        }
        let ghost before = missing@.map_values(|s: String| s@);
        proof {
            assert(wanted.take(i + 1) =~= wanted.take(i as int).push(wanted[i as int]));
            crate::seqs::lemma_filter_push(wanted.take(i as int), absent, wanted[i as int]);
        }
        if !found {
            missing.push(sel_cols[i].to_owned());
            assert(missing@.map_values(|s: String| s@) =~= before.push(wanted[i as int]));
        }
        i += 1;
    }
    assert(wanted.take(sel_cols.len() as int) =~= wanted);
    missing
}

/// The index in `columns` of the first column with the semantic name `name`.
pub fn find_column(columns: &Vec<ColumnInfo>, name: &str) -> (r: Option<usize>)
    ensures
        match r {
            Some(i) => i < columns@.len() && string_part(columns@[i as int].name@) == name@
                && forall|k: int| 0 <= k < i ==> string_part(columns@[k].name@) != name@,
            None => forall|k: int| 0 <= k < columns@.len() ==> string_part(columns@[k].name@)
                != name@,
        },
{
    let mut i: usize = 0;
    while i < columns.len()
        invariant
            i <= columns.len(),
            forall|k: int| 0 <= k < i ==> string_part(columns@[k].name@) != name@,
        decreases columns.len() - i,
    {
        if str_equal(column_string_part(columns[i].name.as_str()), name) {
            return Some(i);
        }
        i += 1;
    }
    None
}

/// One raw column value of a row, under its qualified name.
#[derive(Debug)]
pub struct Column {
    pub name: String,
    pub value: Vec<u8>,
}

/// The mathematical value of a [`Column`].
pub struct ColumnSpec {
    pub name: Seq<char>,
    pub value: Seq<u8>,
}

impl View for Column {
    type V = ColumnSpec;

    open spec fn view(&self) -> ColumnSpec {
        ColumnSpec { name: self.name@, value: self.value@ }
    }
}

/// The mathematical values of `columns`.
pub open spec fn columns_view(columns: Seq<Column>) -> Seq<ColumnSpec> {
    columns.map_values(|c: Column| c@)
}

/// The order of columns: by name, and among equal names by value, each
/// compared place by place.
pub open spec fn column_leq(a: ColumnSpec, b: ColumnSpec) -> bool {
    if a.name == b.name {
        lex_leq(byte_codes(a.value), byte_codes(b.value))
    } else {
        lex_leq(char_codes(a.name), char_codes(b.name))
    }
}

/// [`column_leq`] as a relation.
pub open spec fn column_order() -> spec_fn(ColumnSpec, ColumnSpec) -> bool {
    |a: ColumnSpec, b: ColumnSpec| column_leq(a, b)
}

/// The order of columns is a total order.
pub proof fn lemma_column_order_total()
    ensures
        total_ordering(column_order()),
{
    let r = column_order();
    assert forall|x: ColumnSpec| #[trigger] r(x, x) by {
        lemma_lex_reflexive(byte_codes(x.value));
    }
    assert forall|x: ColumnSpec, y: ColumnSpec| #[trigger] r(x, y) && #[trigger] r(y, x) implies x
        == y by {
        if x.name == y.name {
            lemma_lex_antisymmetric(byte_codes(x.value), byte_codes(y.value));
            lemma_byte_codes_injective(x.value, y.value);
        } else {
            lemma_lex_antisymmetric(char_codes(x.name), char_codes(y.name));
            lemma_char_codes_injective(x.name, y.name);
        }
    }
    assert forall|x: ColumnSpec, y: ColumnSpec, z: ColumnSpec| #[trigger]
        r(x, y) && #[trigger] r(y, z) implies r(x, z) by {
        if x.name == y.name && y.name == z.name {
            lemma_lex_transitive(byte_codes(x.value), byte_codes(y.value), byte_codes(z.value));
        } else if x.name == y.name {
        } else if y.name == z.name {
        } else {
            lemma_lex_transitive(char_codes(x.name), char_codes(y.name), char_codes(z.name));
            if x.name == z.name {
                lemma_lex_antisymmetric(char_codes(x.name), char_codes(y.name));
                lemma_char_codes_injective(x.name, y.name);
            }
        }
    }
    assert forall|x: ColumnSpec, y: ColumnSpec| #[trigger] r(x, y) || #[trigger] r(y, x) by {
        lemma_lex_total(byte_codes(x.value), byte_codes(y.value));
        lemma_lex_total(char_codes(x.name), char_codes(y.name));
    }
}

/// `columns` in ascending order.
pub open spec fn sorted_columns(columns: Seq<ColumnSpec>) -> Seq<ColumnSpec> {
    columns.sort_by(column_order())
}

/// Calls `Itertools::sorted` on the columns as pairs of name and value.
/// itertools collects the items and sorts them with the stable `slice::sort`,
/// so the result holds the same items in ascending order. Pairs are ordered
/// by their first parts and then by their second; strings by their code
/// points and byte vectors by their bytes, place by place.
#[verifier::external_body]
fn sort_pairs(columns: &Vec<Column>) -> (r: Vec<Column>)
    ensures
        columns_view(r@).to_multiset() == columns_view(columns@).to_multiset(),
        sorted_by(columns_view(r@), column_order()),
{
    columns.iter().map(|c| (c.name.clone(), c.value.clone())).sorted().map(
        |(name, value)| Column { name, value },
    ).collect()
}

/// The value that `bag` holds under `name`.
pub open spec fn column_value(bag: Seq<ColumnSpec>, name: Seq<char>) -> Option<Seq<u8>> {
    if exists|i: int| 0 <= i < bag.len() && #[trigger] bag[i].name == name {
        let i = choose|i: int| 0 <= i < bag.len() && #[trigger] bag[i].name == name;
        Some(bag[i].value)
    } else {
        None
    }
}

/// No two columns of `bag` have the same name.
pub open spec fn column_names_unique(bag: Seq<ColumnSpec>) -> bool {
    forall|i: int, j: int| 0 <= i < j < bag.len() ==> bag[i].name != bag[j].name
}

/// `bag` after `value` was stored under `name`, in place of an earlier value
/// of that name if there was one.
pub open spec fn with_column(bag: Seq<ColumnSpec>, name: Seq<char>, value: Seq<u8>) -> Seq<
    ColumnSpec,
> {
    if column_value(bag, name) is Some {
        bag.map_values(
            |c: ColumnSpec|
                if c.name == name {
                    ColumnSpec { name, value }
                } else {
                    c
                },
        )
    } else {
        bag.push(ColumnSpec { name, value })
    }
}

/// The raw column values of one row, each under its qualified name.
///
/// The bag is a map from names to values. It keeps its columns in a vector
/// in which no name occurs twice, so that they can be walked and put in
/// order.
#[derive(Debug)]
pub struct ColumnBag {
    columns: Vec<Column>,
}

impl View for ColumnBag {
    type V = Seq<ColumnSpec>;

    closed spec fn view(&self) -> Seq<ColumnSpec> {
        columns_view(self.columns@)
    }
}

impl ColumnBag {
    /// The bag's invariant: no name occurs twice.
    pub open spec fn wf(&self) -> bool {
        column_names_unique(self@)
    }

    /// A bag without columns.
    pub fn new() -> (bag: ColumnBag)
        ensures
            bag.wf(),
            bag@ == Seq::<ColumnSpec>::empty(),
    {
        let bag = ColumnBag { columns: Vec::new() };
        assert(bag@ =~= Seq::<ColumnSpec>::empty());
        bag
    }

    /// The number of columns.
    pub fn len(&self) -> (n: usize)
        ensures
            n == self@.len(),
    {
        self.columns.len()
    }

    /// The index of the column called `name`.
    fn position(&self, name: &str) -> (r: Option<usize>)
        ensures
            match r {
                Some(i) => i < self@.len() && self@[i as int].name == name@,
                None => forall|k: int| 0 <= k < self@.len() ==> (#[trigger] self@[k]).name != name@,
            },
    {
        let mut i: usize = 0;
        while i < self.columns.len()
            invariant
                i <= self.columns.len(),
                forall|k: int| 0 <= k < i ==> (#[trigger] self@[k]).name != name@,
            decreases self.columns.len() - i,
        {
            if str_equal(self.columns[i].name.as_str(), name) {
                return Some(i);
            }
            i += 1;
        }
        None
    }

    /// The value stored under `name`.
    pub fn get(&self, name: &str) -> (r: Option<&Vec<u8>>)
        requires
            self.wf(),
        ensures
            match r {
                Some(v) => column_value(self@, name@) == Some(v@),
                None => column_value(self@, name@) is None,
            },
    {
        match self.position(name) {
            Some(i) => {
                proof {
                    let k = choose|k: int|
                        0 <= k < self@.len() && #[trigger] self@[k].name == name@;
                    if k < i {
                        assert(self@[k].name != self@[i as int].name);
                    } else if i < k {
                        assert(self@[i as int].name != self@[k].name);
                    }
                }
                Some(&self.columns[i].value)
            },
            None => None,
        }
    }

    /// Stores `value` under `name`, in place of an earlier value of that name
    /// if there was one.
    pub fn insert(&mut self, name: String, value: Vec<u8>)
        requires
            old(self).wf(),
        ensures
            final(self).wf(),
            final(self)@ == with_column(old(self)@, name@, value@),
    {
        match self.position(name.as_str()) {
            Some(i) => {
                self.columns.set(i, Column { name, value });
                assert(old(self)@[i as int].name == name@);
                assert forall|k: int| 0 <= k < self@.len() implies #[trigger] self@[k]
                    == with_column(old(self)@, name@, value@)[k] by {
                    if k < i {
                        assert(old(self)@[k].name != old(self)@[i as int].name);
                    } else if i < k {
                        assert(old(self)@[i as int].name != old(self)@[k].name);
                    }
                }
                assert(self@ =~= with_column(old(self)@, name@, value@));
                assert forall|a: int, b: int| 0 <= a < b < self@.len() implies self@[a].name
                    != self@[b].name by {
                    assert(old(self)@[a].name != old(self)@[b].name);
                }
            },
            None => {
                self.columns.push(Column { name, value });
                assert(self@ =~= with_column(old(self)@, name@, value@));
                assert forall|a: int, b: int| 0 <= a < b < self@.len() implies self@[a].name
                    != self@[b].name by {
                    if b < old(self)@.len() {
                        assert(old(self)@[a].name != old(self)@[b].name);
                    } else {
                        assert(self@[a] == old(self)@[a]);
                    }
                }
            },
        }
    }

    /// Removes every column.
    pub fn clear(&mut self)
        ensures
            final(self).wf(),
            final(self)@ == Seq::<ColumnSpec>::empty(),
    {
        self.columns.clear();
        assert(self@ =~= Seq::<ColumnSpec>::empty());
    }

    /// The columns in ascending order of their names.
    pub fn sorted(&self) -> (r: Vec<Column>)
        ensures
            columns_view(r@) == sorted_columns(self@),
    {
        let r = sort_pairs(&self.columns);
        proof {
            lemma_column_order_total();
            self@.lemma_sort_by_ensures(column_order());
            lemma_sorted_unique(columns_view(r@), sorted_columns(self@), column_order());
        }
        r
    }
}

} // verus!
