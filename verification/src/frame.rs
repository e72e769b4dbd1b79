use vstd::prelude::*;
use crate::value::{HayashiValue, Number};

verus! {

/// The cells of a column: numbers (some cells empty) or texts.
#[derive(Debug, PartialEq)]
pub enum Cells {
    Numbers(Vec<Option<Number>>),
    Texts(Vec<String>),
}

/// A named column of a data frame; `nullable` says whether its cells may be
/// missing.
#[derive(Debug, PartialEq)]
pub struct Column {
    pub name: String,
    pub nullable: bool,
    pub cells: Cells,
}

/// The number of cells of a column.
pub open spec fn cell_count(c: Cells) -> nat {
    match c {
        Cells::Numbers(v) => v@.len(),
        Cells::Texts(v) => v@.len(),
    }
}

/// There is at least one column, and all columns have the same number of
/// values (a data frame needs both).
pub open spec fn frame_shape<T>(columns: Seq<(String, Vec<T>)>) -> bool {
    &&& columns.len() > 0
    &&& forall|i: int|
        0 <= i < columns.len() ==> (#[trigger] columns[i]).1@.len() == columns[0].1@.len()
}

/// Is `v` an integer or a float?
pub open spec fn is_number(v: HayashiValue) -> bool {
    v is Int || v is Float
}

/// The cell of a numeric column for `v`: its number, or empty.
pub open spec fn number_cell(v: HayashiValue) -> Option<Number> {
    match v {
        HayashiValue::Int(i) => Some(Number::Int(i)),
        HayashiValue::Float(f) => Some(Number::Float(f)),
        _ => None,
    }
}

/// The cell of a text column for `v`: its text, or the empty text.
pub open spec fn text_cell(v: HayashiValue) -> Seq<char> {
    match v {
        HayashiValue::Str(s) => s@,
        _ => Seq::empty(),
    }
}

/// `c` is the nullable column made of `values` under `name`: numeric when the
/// first value is a number, else text; one cell per value.
pub open spec fn makes_column(name: Seq<char>, values: Seq<HayashiValue>, c: Column) -> bool {
    &&& c.name@ == name
    &&& c.nullable
    &&& if values.len() > 0 && is_number(values[0]) {
        c.cells matches Cells::Numbers(cells) && cells@.len() == values.len() && (forall|i: int|
            0 <= i < values.len() ==> #[trigger] cells@[i] == number_cell(values[i]))
    } else {
        c.cells matches Cells::Texts(cells) && cells@.len() == values.len() && (forall|i: int|
            0 <= i < values.len() ==> #[trigger] cells@[i]@ == text_cell(values[i]))
    }
}

/// A mixed column takes its kind from its first value: an integer or a float
/// first makes a numeric column, whose cells hold each integer and each float
/// as it is and are empty for anything else; a first value of any other kind
/// makes a text column, whose cells hold each string as it is and are empty
/// texts for anything else. A column without values holds texts.
pub proof fn law_column_kind_and_cells(name: Seq<char>, values: Seq<HayashiValue>, c: Column)
    requires
        makes_column(name, values, c),
    ensures
        c.nullable,
        values.len() == 0 ==> c.cells == Cells::Texts(c.cells->Texts_0) && (c.cells->Texts_0)@.len()
            == 0,
        values.len() > 0 && (values[0] is Int || values[0] is Float) ==> c.cells is Numbers,
        values.len() > 0 && !(values[0] is Int || values[0] is Float) ==> c.cells is Texts,
        c.cells matches Cells::Numbers(cells) ==> cells@.len() == values.len() && forall|k: int|
            0 <= k < values.len() ==> match #[trigger] values[k] {
                HayashiValue::Int(i) => cells@[k] == Some(Number::Int(i)),
                HayashiValue::Float(f) => cells@[k] == Some(Number::Float(f)),
                _ => cells@[k] is None,
            },
        c.cells matches Cells::Texts(cells) ==> cells@.len() == values.len() && forall|k: int|
            0 <= k < values.len() ==> match #[trigger] values[k] {
                HayashiValue::Str(s) => cells@[k]@ == s@,
                _ => cells@[k]@.len() == 0,
            },
{
}

fn number_cell_of(v: &HayashiValue) -> (r: Option<Number>)
    ensures
        r == number_cell(*v),
{
    match v {
        HayashiValue::Int(i) => Some(Number::Int(*i)),
        HayashiValue::Float(f) => Some(Number::Float(f.duplicate())),
        _ => None,
    }
}

fn make_column(name: &String, values: &Vec<HayashiValue>) -> (c: Column)
    ensures
        makes_column(name@, values@, c),
{
    let numeric = values.len() > 0 && match &values[0] {
        HayashiValue::Int(_) => true,
        HayashiValue::Float(_) => true,
        _ => false,
    };
    if numeric {
        let mut cells: Vec<Option<Number>> = Vec::new();
        let mut i: usize = 0;
        while i < values.len()
            invariant
                i <= values@.len(),
                cells@.len() == i,
                forall|j: int| 0 <= j < i ==> #[trigger] cells@[j] == number_cell(values@[j]),
            decreases values@.len() - i,
        {
            cells.push(number_cell_of(&values[i]));
            i = i + 1;
        }
        Column { name: name.clone(), nullable: true, cells: Cells::Numbers(cells) }
    } else {
        let mut cells: Vec<String> = Vec::new();
        let mut i: usize = 0;
        while i < values.len()
            invariant
                i <= values@.len(),
                cells@.len() == i,
                forall|j: int| 0 <= j < i ==> #[trigger] cells@[j]@ == text_cell(values@[j]),
            decreases values@.len() - i,
        {
            let t = match &values[i] {
                HayashiValue::Str(s) => s.clone(),
                _ => String::new(),
            };
            cells.push(t);
            i = i + 1;
        }
        Column { name: name.clone(), nullable: true, cells: Cells::Texts(cells) }
    }
}

/// Makes a data frame of named columns of Hayashi values, all nullable: a
/// column whose first value is a number holds numbers (other values leave
/// their cell empty), any other column holds texts (non-strings become empty
/// texts). The frame has one column per named column, in order, each with
/// one cell per value.
pub fn build_mixed_df(columns: Vec<(String, Vec<HayashiValue>)>) -> (r: Result<Vec<Column>, String>)
    requires
        frame_shape(columns@),
    ensures
        r matches Ok(cols) && cols@.len() == columns@.len() && forall|i: int|
            0 <= i < columns@.len() ==> makes_column(
                columns@[i].0@,
                columns@[i].1@,
                #[trigger] cols@[i],
            ),
{
    let mut out: Vec<Column> = Vec::new();
    let mut i: usize = 0;
    while i < columns.len()
        invariant
            i <= columns@.len(),
            out@.len() == i,
            forall|j: int|
                0 <= j < i ==> makes_column(columns@[j].0@, columns@[j].1@, #[trigger] out@[j]),
        decreases columns@.len() - i,
    {
        out.push(make_column(&columns[i].0, &columns[i].1));
        i = i + 1;
    }
    Ok(out)
}

/// `c` is the text column `values` under `name`, whose cells are never
/// missing.
pub open spec fn is_text_column(name: Seq<char>, values: Seq<String>, c: Column) -> bool {
    &&& c.name@ == name
    &&& !c.nullable
    &&& c.cells matches Cells::Texts(cells) && cells@ == values
}

/// Makes a data frame of named text columns, none of them nullable.
pub fn build_string_df(columns: Vec<(String, Vec<String>)>) -> (r: Vec<Column>)
    requires
        frame_shape(columns@),
    ensures
        r@.len() == columns@.len(),
        forall|i: int|
            0 <= i < columns@.len() ==> is_text_column(columns@[i].0@, columns@[i].1@, #[trigger] r@[i]),
{
    let mut out: Vec<Column> = Vec::new();
    let mut i: usize = 0;
    while i < columns.len()
        invariant
            i <= columns@.len(),
            out@.len() == i,
            forall|j: int|
                0 <= j < i ==> is_text_column(columns@[j].0@, columns@[j].1@, #[trigger] out@[j]),
        decreases columns@.len() - i,
    {
        let name = columns[i].0.clone();
        let cells = columns[i].1.clone();
        out.push(Column { name, nullable: false, cells: Cells::Texts(cells) });
        i = i + 1;
    }
    out
}

/// A column of strings becomes the same text column under both builders;
/// only `build_mixed_df` marks it nullable.
pub proof fn law_string_columns_alike(
    name: Seq<char>,
    strings: Seq<String>,
    values: Seq<HayashiValue>,
    mixed: Column,
    plain: Column,
)
    requires
        values.len() == strings.len(),
        forall|i: int| 0 <= i < values.len() ==> #[trigger] values[i] == HayashiValue::Str(strings[i]),
        makes_column(name, values, mixed),
        is_text_column(name, strings, plain),
    ensures
        mixed.name@ == plain.name@,
        mixed.nullable && !plain.nullable,
        mixed.cells matches Cells::Texts(m) && plain.cells matches Cells::Texts(p) && m@.len()
            == p@.len() && forall|i: int| 0 <= i < m@.len() ==> (#[trigger] m@[i])@ == p@[i]@,
{
    if values.len() > 0 {
        assert(values[0] == HayashiValue::Str(strings[0]));
    }
    if let Cells::Texts(m) = mixed.cells {
        assert forall|i: int| 0 <= i < m@.len() implies (#[trigger] m@[i])@ == strings[i]@ by {
            assert(values[i] == HayashiValue::Str(strings[i]));
        }
    }
}

} // verus!
