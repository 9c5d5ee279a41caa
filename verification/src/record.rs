//! The record under construction in a report: an ordered collection of named
//! cells in which a name occurs at most once.

use vstd::prelude::*;

verus! {

/// The value of one field of a record.
#[derive(Debug)]
pub enum Cell {
    /// The field is known by name but holds nothing.
    Empty,
    Text(String),
    Integer(u64),
}

/// The mathematical value of a [`Cell`].
pub enum CellSpec {
    Empty,
    Text(Seq<char>),
    Integer(u64),
}

impl View for Cell {
    type V = CellSpec;

    open spec fn view(&self) -> CellSpec {
        match self {
            Cell::Empty => CellSpec::Empty,
            Cell::Text(s) => CellSpec::Text(s@),
            Cell::Integer(n) => CellSpec::Integer(*n),
        }
    }
}

/// A field name with its cell.
#[derive(Debug)]
pub struct Field {
    pub name: String,
    pub cell: Cell,
}

/// The mathematical value of a [`Field`].
pub struct FieldSpec {
    pub name: Seq<char>,
    pub cell: CellSpec,
}

impl View for Field {
    type V = FieldSpec;

    open spec fn view(&self) -> FieldSpec {
        FieldSpec { name: self.name@, cell: self.cell@ }
    }
}

/// The field `name` holding the text `text`.
pub open spec fn text_field(name: Seq<char>, text: Seq<char>) -> FieldSpec {
    FieldSpec { name, cell: CellSpec::Text(text) }
}

/// The field `name` holding the number `n`.
pub open spec fn integer_field(name: Seq<char>, n: u64) -> FieldSpec {
    FieldSpec { name, cell: CellSpec::Integer(n) }
}

/// No two fields of `rec` have the same name.
pub open spec fn names_unique(rec: Seq<FieldSpec>) -> bool {
    forall|i: int, j: int| 0 <= i < j < rec.len() ==> rec[i].name != rec[j].name
}

/// Some field of `rec` is called `name`.
pub open spec fn has_name(rec: Seq<FieldSpec>, name: Seq<char>) -> bool {
    exists|i: int| 0 <= i < rec.len() && #[trigger] rec[i].name == name
}

/// Some field of `rec` holds a value.
pub open spec fn has_value(rec: Seq<FieldSpec>) -> bool {
    exists|i: int| 0 <= i < rec.len() && #[trigger] rec[i].cell != CellSpec::Empty
}

/// The cell that `rec` holds under `name`.
pub open spec fn cell_of(rec: Seq<FieldSpec>, name: Seq<char>) -> Option<CellSpec> {
    if has_name(rec, name) {
        let i = choose|i: int| 0 <= i < rec.len() && #[trigger] rec[i].name == name;
        Some(rec[i].cell)
    } else {
        None
    }
}

/// `rec` after `cell` was stored under `name`: the field of that name gets the
/// new cell and keeps its place; a new name goes to the end.
pub open spec fn with_field(rec: Seq<FieldSpec>, name: Seq<char>, cell: CellSpec) -> Seq<
    FieldSpec,
> {
    if has_name(rec, name) {
        rec.map_values(
            |f: FieldSpec|
                if f.name == name {
                    FieldSpec { name, cell }
                } else {
                    f
                },
        )
    } else {
        rec.push(FieldSpec { name, cell })
    }
}

/// `rec` with every cell emptied and every name kept.
pub open spec fn blanked(rec: Seq<FieldSpec>) -> Seq<FieldSpec> {
    rec.map_values(|f: FieldSpec| FieldSpec { name: f.name, cell: CellSpec::Empty })
}

/// Storing a field keeps the names unique, and adds at most the one name.
pub proof fn lemma_with_field(rec: Seq<FieldSpec>, name: Seq<char>, cell: CellSpec)
    requires
        names_unique(rec),
    ensures
        names_unique(with_field(rec, name, cell)),
        has_name(with_field(rec, name, cell), name),
        forall|other: Seq<char>|
            has_name(with_field(rec, name, cell), other) <==> (other == name || has_name(
                rec,
                other,
            )),
        cell != CellSpec::Empty ==> has_value(with_field(rec, name, cell)),
{
    let out = with_field(rec, name, cell);
    if has_name(rec, name) {
        let k = choose|k: int| 0 <= k < rec.len() && #[trigger] rec[k].name == name;
        assert(out[k].name == name);
        assert(out[k].cell == cell);
        assert forall|other: Seq<char>| has_name(out, other) <==> (other == name || has_name(
            rec,
            other,
        )) by {
            if has_name(out, other) {
                let i = choose|i: int| 0 <= i < out.len() && #[trigger] out[i].name == other;
                assert(rec[i].name == other);
            }
            if has_name(rec, other) {
                let i = choose|i: int| 0 <= i < rec.len() && #[trigger] rec[i].name == other;
                assert(out[i].name == other);
            }
        }
        assert forall|i: int, j: int| 0 <= i < j < out.len() implies out[i].name
            != out[j].name by {
            assert(out[i].name == rec[i].name);
            assert(out[j].name == rec[j].name);
        }
    } else {
        let k = rec.len() as int;
        assert(out[k].name == name);
        assert(out[k].cell == cell);
        assert forall|other: Seq<char>| has_name(out, other) <==> (other == name || has_name(
            rec,
            other,
        )) by {
            if has_name(out, other) {
                let i = choose|i: int| 0 <= i < out.len() && #[trigger] out[i].name == other;
                if i < rec.len() {
                    assert(rec[i].name == other);
                }
            }
            if has_name(rec, other) {
                let i = choose|i: int| 0 <= i < rec.len() && #[trigger] rec[i].name == other;
                assert(out[i].name == other);
            }
        }
        assert forall|i: int, j: int| 0 <= i < j < out.len() implies out[i].name
            != out[j].name by {
            if j == rec.len() {
                assert(rec[i].name == out[i].name);
            }
        }
    }
}

/// No field of `rec` is empty.
pub open spec fn all_valued(rec: Seq<FieldSpec>) -> bool {
    forall|i: int| 0 <= i < rec.len() ==> (#[trigger] rec[i]).cell != CellSpec::Empty
}

/// Storing a value in a record without empty fields leaves none empty.
pub proof fn lemma_all_valued(rec: Seq<FieldSpec>, name: Seq<char>, cell: CellSpec)
    requires
        all_valued(rec),
        cell != CellSpec::Empty,
    ensures
        all_valued(with_field(rec, name, cell)),
        with_field(rec, name, cell).len() > 0,
{
    let out = with_field(rec, name, cell);
    if has_name(rec, name) {
        let k = choose|k: int| 0 <= k < rec.len() && #[trigger] rec[k].name == name;
        assert(out.len() == rec.len());
    }
    assert forall|i: int| 0 <= i < out.len() implies (#[trigger] out[i]).cell
        != CellSpec::Empty by {
        if i < rec.len() {
            assert(rec[i].cell != CellSpec::Empty);
        }
    }
}

/// In a record without empty fields, holding a value is holding a field.
pub proof fn lemma_valued_pending(rec: Seq<FieldSpec>)
    requires
        all_valued(rec),
    ensures
        has_value(rec) <==> rec.len() > 0,
{
    if rec.len() > 0 {
        assert(rec[0].cell != CellSpec::Empty);
    }
}

/// The last value stored under a name is the one that stays: storing twice
/// under one name is storing the second value alone.
pub proof fn lemma_last_write_wins(
    rec: Seq<FieldSpec>,
    name: Seq<char>,
    first: CellSpec,
    second: CellSpec,
)
    requires
        names_unique(rec),
    ensures
        with_field(with_field(rec, name, first), name, second) == with_field(rec, name, second),
{
    lemma_with_field(rec, name, first);
    let once = with_field(rec, name, first);
    let twice = with_field(once, name, second);
    let direct = with_field(rec, name, second);
    assert(twice.len() == direct.len());
    assert forall|i: int| 0 <= i < twice.len() implies twice[i] == direct[i] by {
        if has_name(rec, name) {
            assert(once[i].name == rec[i].name);
        } else if i < rec.len() {
            assert(rec[i].name != name);
        }
    }
    assert(twice =~= direct);
}

/// A record under construction. A name occurs in it at most once.
#[derive(Debug)]
pub struct Record {
    fields: Vec<Field>,
}

impl View for Record {
    type V = Seq<FieldSpec>;

    closed spec fn view(&self) -> Seq<FieldSpec> {
        self.fields@.map_values(|f: Field| f@)
    }
}

impl Record {
    /// The record's invariant: no name occurs twice.
    pub open spec fn wf(&self) -> bool {
        names_unique(self@)
    }

    /// A record without fields.
    pub fn new() -> (r: Record)
        ensures
            r@ == Seq::<FieldSpec>::empty(),
            r.wf(),
    {
        let r = Record { fields: Vec::new() };
        assert(r@ =~= Seq::<FieldSpec>::empty());
        r
    }

    /// The number of fields.
    pub fn len(&self) -> (n: usize)
        ensures
            n == self@.len(),
    {
        self.fields.len()
    }

    /// The field at index `i`.
    pub fn get(&self, i: usize) -> (f: &Field)
        requires
            i < self@.len(),
        ensures
            f@ == self@[i as int],
    {
        &self.fields[i]
    }

    /// The index of the first field called `name`, if there is one.
    pub fn position(&self, name: &str) -> (r: Option<usize>)
        ensures
            match r {
                Some(i) => i < self@.len() && self@[i as int].name == name@ && forall|k: int|
                    0 <= k < i ==> (#[trigger] self@[k]).name != name@,
                None => !has_name(self@, name@),
            },
    {
        let mut i: usize = 0;
        while i < self.fields.len()
            invariant
                i <= self.fields.len(),
                forall|k: int| 0 <= k < i ==> (#[trigger] self@[k]).name != name@,
            decreases self.fields.len() - i,
        {
            if crate::text::str_equal(self.fields[i].name.as_str(), name) {
                return Some(i);
            }
            i += 1;
        }
        None
    }

    /// The cell stored under `name`.
    pub fn cell(&self, name: &str) -> (r: Option<&Cell>)
        requires
            self.wf(),
        ensures
            match r {
                Some(c) => cell_of(self@, name@) == Some(c@),
                None => cell_of(self@, name@) is None,
            },
    {
        match self.position(name) {
            Some(i) => {
                proof {
                    let k = choose|k: int|
                        0 <= k < self@.len() && #[trigger] self@[k].name == name@;
                    if k < i {
                        assert(self@[k].name != self@[i as int].name);
                    } else if i < k {
                        assert(self@[i as int].name != self@[k].name);
                    }
                }
                Some(&self.fields[i].cell)
            },
            None => None,
        }
    }

    /// Stores `cell` under `name`. A field of that name gets the new cell and
    /// keeps its place; a new name goes to the end.
    pub fn set(&mut self, name: &str, cell: Cell)
        requires
            old(self).wf(),
        ensures
            final(self).wf(),
            final(self)@ == with_field(old(self)@, name@, cell@),
    {
        proof {
            lemma_with_field(self@, name@, cell@);
        }
        match self.position(name) {
            Some(i) => {
                let field = Field { name: name.to_owned(), cell };
                self.fields.set(i, field);
                assert(self@ =~= with_field(old(self)@, name@, cell@)) by {
                    assert(old(self)@[i as int].name == name@);
                    assert forall|k: int| 0 <= k < old(self)@.len() && k != i implies old(
                        self,
                    )@[k].name != name@ by {
                        if k < i {
                            assert(old(self)@[k].name != old(self)@[i as int].name);
                        } else {
                            assert(old(self)@[i as int].name != old(self)@[k].name);
                        }
                    }
                }
            },
            None => {
                let field = Field { name: name.to_owned(), cell };
                self.fields.push(field);
                assert(self@ =~= with_field(old(self)@, name@, cell@));
            },
        }
    }

    /// Whether some field holds a value.
    pub fn has_value(&self) -> (r: bool)
        ensures
            r == has_value(self@),
    {
        let mut i: usize = 0;
        while i < self.fields.len()
            invariant
                i <= self.fields.len(),
                forall|k: int| 0 <= k < i ==> (#[trigger] self@[k]).cell == CellSpec::Empty,
            decreases self.fields.len() - i,
        {
            match &self.fields[i].cell {
                Cell::Empty => {},
                _ => {
                    assert(self@[i as int].cell != CellSpec::Empty);
                    return true;
                },
            }
            i += 1;
        }
        false
    }

    /// Empties every cell and keeps the names in their places.
    pub fn blank(&mut self)
        requires
            old(self).wf(),
        ensures
            final(self).wf(),
            final(self)@ == blanked(old(self)@),
    {
        let mut i: usize = 0;
        while i < self.fields.len()
            invariant
                i <= self.fields.len(),
                self@.len() == old(self)@.len(),
                forall|k: int| 0 <= k < i ==> #[trigger] self@[k] == blanked(old(self)@)[k],
                forall|k: int| i <= k < self@.len() ==> #[trigger] self@[k] == old(self)@[k],
            decreases self.fields.len() - i,
        {
            let ghost prev = self@;
            let name = self.fields[i].name.clone();
            self.fields.set(i, Field { name, cell: Cell::Empty });
            assert forall|k: int| 0 <= k < self@.len() implies #[trigger] self@[k] == (if k == i {
                FieldSpec { name: prev[k].name, cell: CellSpec::Empty }
            } else {
                prev[k]
            }) by {}
            i += 1;
        }
        assert(self@ =~= blanked(old(self)@));
        assert forall|a: int, b: int| 0 <= a < b < self@.len() implies self@[a].name
            != self@[b].name by {
            assert(old(self)@[a].name != old(self)@[b].name);
        }
    }

    /// Removes every field.
    pub fn clear(&mut self)
        ensures
            final(self).wf(),
            final(self)@ == Seq::<FieldSpec>::empty(),
    {
        self.fields.clear();
        assert(self@ =~= Seq::<FieldSpec>::empty());
    }
}

} // verus!
