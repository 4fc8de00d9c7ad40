//! Row assembly: turning one line and a schema into an ordered, named record.
//!
//! [`DataRow::try_create`] gates the line on a configured minimum length —
//! best derived from the schema with [`required_length`] — then extracts
//! every field in definition order and fails on the first field error: no
//! partial row survives. [`DataRow::get_ordered_fields`] re-projects a row's
//! fields into a caller-chosen order for downstream serialization.

use vstd::prelude::*;

verus! {

use crate::datafield::DataField;
use crate::datafield::DataFieldDef;
use crate::datafield::DataFieldError;
use crate::datafield::DataFieldResult;
use crate::datafield::def_wf;
use crate::datafield::defs_callable;
use crate::datafield::field_can_succeed;
use crate::datafield::field_extracted;
use crate::datafield::field_failed;
use crate::datafield::range_ok;
use crate::datafield::spec_field_message;
use crate::decimal::decimal_string;
use crate::decimal::spec_decimal;
use vstd::string::StringExecFns;

/// Holds a list of the fields found in a row.
#[derive(Debug)]
pub struct DataRow {
    /// The extracted fields, one per definition, in definition order.
    pub fields: Vec<DataField>,
}

/// Errors that DataRows may encounter.
#[derive(Debug)]
pub enum DataRowError {
    /// A field-specific error (contains details).
    FieldError(DataFieldError),
    /// A row length is out of bounds.
    BadRowLength(usize),
    /// A field name was specified but not found.
    FieldNameNotFound(String),
}

/// Shorthand for results of row assembly and re-projection.
pub type DataRowResult<T> = core::result::Result<T, DataRowError>;

impl From<DataFieldError> for DataRowError {
    fn from(value: DataFieldError) -> (r: DataRowError) {
        DataRowError::FieldError(value)
    }
}

impl vstd::std_specs::convert::FromSpecImpl<DataFieldError> for DataRowError {
    open spec fn obeys_from_spec() -> bool {
        true
    }

    open spec fn from_spec(value: DataFieldError) -> DataRowError {
        DataRowError::FieldError(value)
    }
}

/// The describing message of a row error: a field error describes itself, a
/// bad length reports the offending line's length, and a failed lookup
/// reports the missing name.
pub open spec fn spec_row_message(e: DataRowError) -> Seq<char> {
    match e {
        DataRowError::FieldError(fe) => spec_field_message(fe),
        DataRowError::BadRowLength(l) => "Bad Row Length ("@ + spec_decimal(l as nat) + ")"@,
        DataRowError::FieldNameNotFound(n) => "Field Name Not Found ("@ + n@ + ")"@,
    }
}

impl DataRowError {
    /// Describe this error; the caller decides where the text goes — the
    /// library itself never logs or prints.
    pub fn message(&self) -> (r: String)
        ensures
            r@ == spec_row_message(*self),
    {
        match self {
            DataRowError::FieldError(fe) => fe.message(),
            DataRowError::BadRowLength(l) => {
                let mut out = String::from_str("Bad Row Length (");
                let num = decimal_string(*l);
                out.append(num.as_str());
                out.append(")");
                out
            },
            DataRowError::FieldNameNotFound(n) => {
                let mut out = String::from_str("Field Name Not Found (");
                out.append(n.as_str());
                out.append(")");
                out
            },
        }
    }
}

/// The minimum line length a schema demands: its largest field end-offset.
pub open spec fn spec_required_len<F>(defs: Seq<DataFieldDef<F>>) -> int
    decreases defs.len(),
{
    if defs.len() == 0 {
        0
    } else {
        let rest = spec_required_len(defs.drop_last());
        if defs.last().end > rest {
            defs.last().end as int
        } else {
            rest
        }
    }
}

/// Every field's end-offset is covered by the schema's required length.
pub proof fn lemma_required_len_bounds<F>(defs: Seq<DataFieldDef<F>>)
    ensures
        spec_required_len(defs) >= 0,
        forall|i: int| 0 <= i < defs.len() ==> #[trigger] defs[i].end <= spec_required_len(defs),
    decreases defs.len(),
{
    if defs.len() > 0 {
        lemma_required_len_bounds(defs.drop_last());
        assert forall|i: int| 0 <= i < defs.len() implies #[trigger] defs[i].end
            <= spec_required_len(defs) by {
            if i < defs.len() - 1 {
                assert(defs.drop_last()[i] == defs[i]);
            }
        }
    }
}

/// The index of the first field in `fields` named `name`, or `-1` if no
/// field carries that name.
pub open spec fn first_index_with(fields: Seq<DataField>, name: Seq<char>) -> int
    decreases fields.len(),
{
    if fields.len() == 0 {
        -1
    } else if fields[0].name@ == name {
        0
    } else if first_index_with(fields.drop_first(), name) < 0 {
        -1
    } else {
        first_index_with(fields.drop_first(), name) + 1
    }
}

/// Whether some field in `fields` is named `name`.
pub open spec fn has_field(fields: Seq<DataField>, name: Seq<char>) -> bool {
    first_index_with(fields, name) >= 0
}

/// [`first_index_with`] finds exactly the first match: it returns `j` when
/// `fields[j]` is named `name` and no earlier field is.
pub proof fn lemma_first_index_at(fields: Seq<DataField>, name: Seq<char>, j: int)
    requires
        0 <= j < fields.len(),
        fields[j].name@ == name,
        forall|p: int| 0 <= p < j ==> fields[p].name@ != name,
    ensures
        first_index_with(fields, name) == j,
    decreases j,
{
    if j > 0 {
        let t = fields.drop_first();
        assert(forall|p: int| 0 <= p < j - 1 ==> t[p].name@ != name);
        lemma_first_index_at(t, name, j - 1);
    }
}

/// [`first_index_with`] reports absence exactly when no field matches.
pub proof fn lemma_first_index_none(fields: Seq<DataField>, name: Seq<char>)
    requires
        forall|p: int| 0 <= p < fields.len() ==> fields[p].name@ != name,
    ensures
        first_index_with(fields, name) == -1,
    decreases fields.len(),
{
    if fields.len() > 0 {
        lemma_first_index_none(fields.drop_first(), name);
    }
}

/// Everything [`DataRow::try_create`] ensures of its result: a short line is
/// rejected with its length before any field is considered; a complete row
/// holds one correct extraction per definition, in definition order; a field
/// error is the first failure, every earlier definition having been
/// extractable.
pub open spec fn try_create_post<F: Fn(String) -> DataFieldResult<String>>(
    line: Seq<char>,
    defs: Seq<DataFieldDef<F>>,
    min_length: usize,
    r: DataRowResult<DataRow>,
) -> bool {
    match r {
        Ok(dr) => {
            &&& line.len() >= min_length
            &&& dr.fields@.len() == defs.len()
            &&& forall|i: int|
                0 <= i < defs.len() ==> #[trigger] field_extracted(line, defs[i], dr.fields@[i])
        },
        Err(e) => match e {
            DataRowError::BadRowLength(l) => l as int == line.len() && line.len() < min_length,
            DataRowError::FieldError(fe) => {
                &&& line.len() >= min_length
                &&& exists|k: int|
                    {
                        &&& 0 <= k < defs.len()
                        &&& #[trigger] field_failed(line, defs[k], fe)
                        &&& forall|i: int| 0 <= i < k ==> field_can_succeed(line, defs[i])
                    }
            },
            DataRowError::FieldNameNotFound(_) => false,
        },
    }
}

/// Everything [`DataRow::get_ordered_fields`] ensures of its result: on
/// success, one copy per requested name, each the first field of the row so
/// named, in the requested order; otherwise the error names the first
/// requested name the row lacks.
pub open spec fn ordered_fields_post(
    fields: Seq<DataField>,
    names: Seq<&str>,
    r: DataRowResult<Vec<DataField>>,
) -> bool {
    match r {
        Ok(list) => {
            &&& list@.len() == names.len()
            &&& forall|i: int|
                0 <= i < names.len() ==> has_field(fields, names[i]@) && #[trigger] list@[i]
                    == fields[first_index_with(fields, names[i]@)]
        },
        Err(e) => match e {
            DataRowError::FieldNameNotFound(n) => exists|i: int|
                {
                    &&& 0 <= i < names.len()
                    &&& !has_field(fields, #[trigger] names[i]@)
                    &&& n@ == names[i]@
                    &&& forall|p: int| 0 <= p < i ==> has_field(fields, names[p]@)
                },
            _ => false,
        },
    }
}

/// Whether two string slices hold the same characters.
fn str_eq(a: &str, b: &str) -> (r: bool)
    ensures
        r == (a@ == b@),
{
    let alen = a.unicode_len();
    let blen = b.unicode_len();
    if alen != blen {
        return false;
    }
    let mut i: usize = 0;
    while i < alen
        invariant
            i <= alen,
            alen == a@.len(),
            alen == b@.len(),
            forall|k: int| 0 <= k < i ==> a@[k] == b@[k],
        decreases alen - i,
    {
        if a.get_char(i) != b.get_char(i) {
            return false;
        }
        i = i + 1;
    }
    proof {
        assert(a@ =~= b@);
    }
    true
}

/// The index of the first field in `fields` named `name`, if any.
fn find_first(fields: &Vec<DataField>, name: &str) -> (r: Option<usize>)
    ensures
        match r {
            Some(j) => {
                &&& j < fields@.len()
                &&& j as int == first_index_with(fields@, name@)
                &&& fields@[j as int].name@ == name@
            },
            None => !has_field(fields@, name@),
        },
{
    let mut j: usize = 0;
    while j < fields.len()
        invariant
            j <= fields@.len(),
            forall|p: int| 0 <= p < j ==> fields@[p].name@ != name@,
        decreases fields@.len() - j,
    {
        if str_eq(fields[j].name.as_str(), name) {
            proof {
                lemma_first_index_at(fields@, name@, j as int);
            }
            return Some(j);
        }
        j = j + 1;
    }
    proof {
        lemma_first_index_none(fields@, name@);
    }
    None
}

/// Compute the minimum line length a schema demands: the largest end-offset
/// across its field definitions (zero for an empty schema).
pub fn required_length<F>(defs: &Vec<DataFieldDef<F>>) -> (r: usize)
    ensures
        r as int == spec_required_len(defs@),
{
    let mut m: usize = 0;
    let mut i: usize = 0;
    while i < defs.len()
        invariant
            i <= defs@.len(),
            m as int == spec_required_len(defs@.subrange(0, i as int)),
        decreases defs@.len() - i,
    {
        let e = defs[i].end;
        proof {
            assert(defs@.subrange(0, i + 1 as int).drop_last() =~= defs@.subrange(0, i as int));
            assert(defs@.subrange(0, i + 1 as int).last() == defs@[i as int]);
        }
        if e > m {
            m = e;
        }
        i = i + 1;
    }
    proof {
        assert(defs@.subrange(0, defs@.len() as int) =~= defs@);
    }
    m
}

impl DataRow {
    /// Try to create a DataRow structure using the definitions provided.
    ///
    /// The line must be at least `min_length` characters long — a schema-wide
    /// threshold best derived from the schema itself with
    /// [`required_length`]; a shorter line is rejected with
    /// [`DataRowError::BadRowLength`] before any field is extracted. Fields
    /// are then extracted in definition order, and the first field error
    /// aborts assembly with [`DataRowError::FieldError`] — no partial row is
    /// returned.
    pub fn try_create<F: Fn(String) -> DataFieldResult<String>>(
        row: &str,
        row_defs: &Vec<DataFieldDef<F>>,
        min_length: usize,
    ) -> (r: DataRowResult<DataRow>)
        requires
            defs_callable(row_defs@),
        ensures
            try_create_post(row@, row_defs@, min_length, r),
    {
        let len = row.unicode_len();
        if len < min_length {
            return Err(DataRowError::BadRowLength(len));
        }
        let mut fields: Vec<DataField> = Vec::new();
        let mut idx: usize = 0;
        while idx < row_defs.len()
            invariant
                defs_callable(row_defs@),
                row@.len() >= min_length,
                idx <= row_defs@.len(),
                fields@.len() == idx,
                forall|i: int|
                    0 <= i < idx ==> #[trigger] field_extracted(row@, row_defs@[i], fields@[i]),
            decreases row_defs@.len() - idx,
        {
            match DataField::try_from_row(row, &row_defs[idx]) {
                Ok(f) => {
                    fields.push(f);
                },
                Err(e) => {
                    proof {
                        assert forall|i: int| 0 <= i < idx implies field_can_succeed(
                            row@,
                            row_defs@[i],
                        ) by {
                            assert(field_extracted(row@, row_defs@[i], fields@[i]));
                        }
                    }
                    return Err(DataRowError::FieldError(e));
                },
            }
            idx = idx + 1;
        }
        Ok(DataRow { fields })
    }

    /// Get a copy of the row with specified fields in order. This is useful
    /// for constructing certain output formats, e.g., CSV.
    ///
    /// Each requested name is looked up in request order; the first name the
    /// row lacks aborts with [`DataRowError::FieldNameNotFound`]. The row
    /// itself is never mutated: the result holds copies.
    pub fn get_ordered_fields(&self, field_list: &Vec<&str>) -> (r: DataRowResult<Vec<DataField>>)
        ensures
            ordered_fields_post(self.fields@, field_list@, r),
    {
        let mut list: Vec<DataField> = Vec::new();
        let mut i: usize = 0;
        while i < field_list.len()
            invariant
                i <= field_list@.len(),
                list@.len() == i,
                forall|p: int| 0 <= p < i ==> has_field(self.fields@, #[trigger] field_list@[p]@),
                forall|p: int|
                    0 <= p < i ==> #[trigger] list@[p] == self.fields@[first_index_with(
                        self.fields@,
                        field_list@[p]@,
                    )],
            decreases field_list@.len() - i,
        {
            let name: &str = field_list[i];
            match find_first(&self.fields, name) {
                Some(j) => {
                    let copy = self.fields[j].clone();
                    let ghost pre = list@;
                    list.push(copy);
                    proof {
                        assert(copy == self.fields@[j as int]);
                        assert forall|p: int| 0 <= p < i + 1 implies #[trigger] list@[p]
                            == self.fields@[first_index_with(self.fields@, field_list@[p]@)] by {
                            if p < i {
                                assert(list@[p] == pre[p]);
                            } else {
                                assert(list@[p] == copy);
                                assert(field_list@[p]@ == name@);
                            }
                        }
                    }
                },
                None => {
                    proof {
                        assert(!has_field(self.fields@, field_list@[i as int]@));
                    }
                    return Err(DataRowError::FieldNameNotFound(name.to_owned()));
                },
            }
            i = i + 1;
        }
        Ok(list)
    }

    /// Get a reference to the DataFields contained in the struct.
    pub fn fields(&self) -> (r: &Vec<DataField>)
        ensures
            r == &self.fields,
    {
        &self.fields
    }
}

/// Row assembly is fail-fast: when every definition before `k` can only be
/// accepted, and the `k`-th definition's post-processing function can only
/// reject, assembly of a line long enough for the schema reports a field
/// error attributable to definition `k`, and no row is produced.
pub proof fn lemma_fail_fast<F: Fn(String) -> DataFieldResult<String>>(
    line: Seq<char>,
    defs: Seq<DataFieldDef<F>>,
    min_length: usize,
    r: DataRowResult<DataRow>,
    k: int,
)
    requires
        try_create_post(line, defs, min_length, r),
        0 <= k < defs.len(),
        line.len() >= min_length,
        line.len() >= spec_required_len(defs),
        forall|i: int| 0 <= i < defs.len() ==> def_wf(#[trigger] defs[i]),
        forall|t: String, out: DataFieldResult<String>|
            #[trigger] call_ensures(defs[k].post, (t,), out) ==> out is Err,
        forall|i: int, t: String, out: DataFieldResult<String>|
            0 <= i < k ==> (#[trigger] call_ensures(defs[i].post, (t,), out) ==> out is Ok),
    ensures
        r matches Err(DataRowError::FieldError(e)) && field_failed(line, defs[k], e),
{
    lemma_required_len_bounds(defs);
    match r {
        Ok(dr) => {
            assert(field_extracted(line, defs[k], dr.fields@[k]));
            assert(false);
        },
        Err(e) => match e {
            DataRowError::BadRowLength(_) => {
                assert(false);
            },
            DataRowError::FieldError(fe) => {
                let kk = choose|kk: int|
                    {
                        &&& 0 <= kk < defs.len()
                        &&& #[trigger] field_failed(line, defs[kk], fe)
                        &&& forall|i: int| 0 <= i < kk ==> field_can_succeed(line, defs[i])
                    };
                assert(range_ok(line, defs[kk]));
                if kk < k {
                    assert(false);
                } else if kk > k {
                    assert(field_can_succeed(line, defs[k]));
                    assert(false);
                }
            },
            DataRowError::FieldNameNotFound(_) => {
                assert(false);
            },
        },
    }
}

/// The length gate comes first: a line shorter than the configured minimum
/// is rejected with its own length, whatever the post-processing functions
/// would do — no extraction is consulted.
pub proof fn lemma_length_gate<F: Fn(String) -> DataFieldResult<String>>(
    line: Seq<char>,
    defs: Seq<DataFieldDef<F>>,
    min_length: usize,
    r: DataRowResult<DataRow>,
)
    requires
        try_create_post(line, defs, min_length, r),
        line.len() < min_length,
    ensures
        r matches Err(DataRowError::BadRowLength(l)) && l as int == line.len(),
{
}

} // verus!
