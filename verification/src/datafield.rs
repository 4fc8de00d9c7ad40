//! Field definitions and single-field extraction.
//!
//! A [`DataFieldDef`] describes one fixed-width column: a name, a half-open
//! character range `[start, end)`, and a caller-supplied post-processing
//! function applied to the trimmed slice. [`DataField::try_from_row`] turns
//! one line and one definition into a named [`DataField`] value or a typed
//! [`DataFieldError`].

use vstd::prelude::*;

verus! {

use crate::trim::spec_trim;
use crate::trim::trim_str;
use vstd::string::StringExecFns;

/// Errors a single field extraction may produce.
#[derive(Debug)]
pub enum DataFieldError {
    /// The field's configured offsets fall outside the line (or are inverted);
    /// carries the field's name.
    OutOfRange(String),
    /// A post-processing function rejected the field's trimmed content;
    /// carries a caller-defined message that is opaque to this library.
    PostProcess(String),
}

/// Shorthand for results of field extraction and post-processing.
pub type DataFieldResult<T> = core::result::Result<T, DataFieldError>;

/// The describing message of a field error: a post-processing rejection is
/// the caller's own message; an out-of-range field is reported by name.
pub open spec fn spec_field_message(e: DataFieldError) -> Seq<char> {
    match e {
        DataFieldError::OutOfRange(n) => "Field Out of Range ("@ + n@ + ")"@,
        DataFieldError::PostProcess(m) => m@,
    }
}

impl DataFieldError {
    /// Describe this error; the caller decides where the text goes — the
    /// library itself never logs or prints.
    pub fn message(&self) -> (r: String)
        ensures
            r@ == spec_field_message(*self),
    {
        match self {
            DataFieldError::OutOfRange(n) => {
                let mut out = String::from_str("Field Out of Range (");
                out.append(n.as_str());
                out.append(")");
                out
            },
            DataFieldError::PostProcess(m) => m.clone(),
        }
    }
}

/// The static description of one fixed-width column: its name, the half-open
/// character range `[start, end)` it occupies, and the post-processing
/// function applied to its trimmed content.
pub struct DataFieldDef<F> {
    /// The field's name, copied into every extracted [`DataField`].
    pub name: String,
    /// First character position of the field (inclusive).
    pub start: usize,
    /// Last character position of the field (exclusive).
    pub end: usize,
    /// Caller-supplied validation or alteration of the trimmed content.
    pub post: F,
}

/// A definition is well formed when its range is non-empty.
pub open spec fn def_wf<F>(def: DataFieldDef<F>) -> bool {
    def.start < def.end
}

/// The post-processing function may be called on any trimmed value.
pub open spec fn post_callable<F: Fn(String) -> DataFieldResult<String>>(f: F) -> bool {
    forall|t: String| call_requires(f, (t,))
}

/// Every definition's post-processing function may be called on any value.
pub open spec fn defs_callable<F: Fn(String) -> DataFieldResult<String>>(
    defs: Seq<DataFieldDef<F>>,
) -> bool {
    forall|i: int| 0 <= i < defs.len() ==> post_callable(#[trigger] defs[i].post)
}

impl<F: Fn(String) -> DataFieldResult<String>> DataFieldDef<F> {
    /// Build a field definition over `[start, end)` with the given
    /// post-processing function.
    pub fn new(name: &str, start: usize, end: usize, post: F) -> (r: DataFieldDef<F>)
        requires
            start < end,
            post_callable(post),
        ensures
            r.name@ == name@,
            r.start == start,
            r.end == end,
            r.post == post,
    {
        DataFieldDef { name: name.to_owned(), start, end, post }
    }
}

/// One extracted field: the defining name and the post-processed content.
#[derive(Debug)]
pub struct DataField {
    /// The name, copied from the field's definition.
    pub name: String,
    /// The final, post-processed content.
    pub data: String,
}

/// Where the field's slice of `line` actually stops: a field reaching past
/// the line's end is cut short at the line's end.
pub open spec fn clamped_end<F>(line: Seq<char>, def: DataFieldDef<F>) -> int {
    if def.end <= line.len() {
        def.end as int
    } else {
        line.len() as int
    }
}

/// The field begins inside the line and its range is not inverted, so a
/// (possibly cut short) slice exists.
pub open spec fn range_ok<F>(line: Seq<char>, def: DataFieldDef<F>) -> bool {
    def.start < def.end && def.start < line.len()
}

/// The trimmed slice `[def.start, clamped_end)` of `line`, the input handed
/// to the definition's post-processing function.
pub open spec fn spec_field_input<F>(line: Seq<char>, def: DataFieldDef<F>) -> Seq<char> {
    spec_trim(line.subrange(def.start as int, clamped_end(line, def)))
}

/// `fld` is a correct extraction of `def` from `line`: the name is the
/// definition's, and the content is an output of the definition's
/// post-processing function on the trimmed slice.
pub open spec fn field_extracted<F: Fn(String) -> DataFieldResult<String>>(
    line: Seq<char>,
    def: DataFieldDef<F>,
    fld: DataField,
) -> bool {
    &&& range_ok(line, def)
    &&& fld.name@ == def.name@
    &&& exists|t: String|
        t@ == spec_field_input(line, def) && #[trigger] call_ensures(def.post, (t,), Ok(fld.data))
}

/// Extraction of `def` from `line` can succeed: the range lies inside the
/// line and the post-processing function can accept the trimmed slice.
pub open spec fn field_can_succeed<F: Fn(String) -> DataFieldResult<String>>(
    line: Seq<char>,
    def: DataFieldDef<F>,
) -> bool {
    &&& range_ok(line, def)
    &&& exists|t: String, out: String|
        t@ == spec_field_input(line, def) && #[trigger] call_ensures(def.post, (t,), Ok(out))
}

/// `e` is a correct failure of extracting `def` from `line`: either the range
/// lies outside the line and `e` records the field's name, or the
/// post-processing function rejected the trimmed slice with `e`.
pub open spec fn field_failed<F: Fn(String) -> DataFieldResult<String>>(
    line: Seq<char>,
    def: DataFieldDef<F>,
    e: DataFieldError,
) -> bool {
    if range_ok(line, def) {
        exists|t: String|
            t@ == spec_field_input(line, def) && #[trigger] call_ensures(def.post, (t,), Err(e))
    } else {
        e matches DataFieldError::OutOfRange(n) && n@ == def.name@
    }
}

/// Everything [`DataField::try_from_row`] ensures of its result.
pub open spec fn extract_post<F: Fn(String) -> DataFieldResult<String>>(
    line: Seq<char>,
    def: DataFieldDef<F>,
    r: DataFieldResult<DataField>,
) -> bool {
    match r {
        Ok(fld) => field_extracted(line, def, fld),
        Err(e) => field_failed(line, def, e),
    }
}

impl Clone for DataField {
    /// Fields have value semantics: a clone is equal to its source, so a row
    /// can be re-projected without mutating it.
    fn clone(&self) -> (r: DataField)
        ensures
            r == *self,
    {
        DataField { name: self.name.clone(), data: self.data.clone() }
    }
}

impl DataField {
    /// The field's name.
    pub fn name(&self) -> (r: &str)
        ensures
            r@ == self.name@,
    {
        self.name.as_str()
    }

    /// A copy of the field's content.
    pub fn data(&self) -> (r: String)
        ensures
            r == self.data,
    {
        self.data.clone()
    }

    /// Extract the field `def` describes from `row`: slice `[start, end)`,
    /// trim whitespace on both sides, and hand the trimmed value to the
    /// definition's post-processing function. A field reaching past the
    /// line's end is cut short at the line's end; a field that begins at or
    /// beyond the line's end, or an inverted range, is reported as
    /// [`DataFieldError::OutOfRange`] rather than a panic. A post-processing
    /// rejection is passed through unchanged.
    pub fn try_from_row<F: Fn(String) -> DataFieldResult<String>>(
        row: &str,
        def: &DataFieldDef<F>,
    ) -> (r: DataFieldResult<DataField>)
        requires
            post_callable(def.post),
        ensures
            extract_post(row@, *def, r),
    {
        let len = row.unicode_len();
        if def.start >= def.end || def.start >= len {
            return Err(DataFieldError::OutOfRange(def.name.clone()));
        }
        let stop = if def.end > len {
            len
        } else {
            def.end
        };
        let slice = row.substring_char(def.start, stop);
        let trimmed = trim_str(slice);
        assert(trimmed@ == spec_field_input(row@, *def));
        let ghost t0 = trimmed;
        let res = (def.post)(trimmed);
        match res {
            Ok(data) => {
                let fld = DataField { name: def.name.clone(), data };
                proof {
                    assert(t0@ == spec_field_input(row@, *def) && call_ensures(
                        def.post,
                        (t0,),
                        Ok(fld.data),
                    ));
                    assert(field_extracted(row@, *def, fld));
                }
                Ok(fld)
            },
            Err(e) => {
                proof {
                    assert(call_ensures(def.post, (t0,), Err(e)));
                }
                Err(e)
            },
        }
    }
}

/// Whenever a field's range lies inside the line (`start < end <= len`) and
/// its post-processing function accepts every possible run on the trimmed
/// slice, extraction succeeds and yields that field's name.
pub proof fn lemma_extraction_succeeds<F: Fn(String) -> DataFieldResult<String>>(
    line: Seq<char>,
    def: DataFieldDef<F>,
    r: DataFieldResult<DataField>,
)
    requires
        extract_post(line, def, r),
        def.start < def.end <= line.len(),
        forall|t: String, out: DataFieldResult<String>|
            t@ == spec_field_input(line, def) && #[trigger] call_ensures(def.post, (t,), out)
                ==> out is Ok,
    ensures
        r is Ok,
        r matches Ok(fld) ==> fld.name@ == def.name@,
{
}

} // verus!
