//! The database host operation's logic: typing each positional parameter
//! by its JSON shape, telling SELECT-class statements from the rest, and
//! shaping every outcome as JSON text — an error object, a rows-affected
//! object, or the fetched rows as an array of objects.  The operation never
//! raises across the script boundary; it always resolves to a string.
//! Executing the statement itself is the driver's work and happens outside.

use vstd::prelude::*;
use vstd::string::StringExecFns;
use crate::jsontext::{json_str, push_json_str};
use crate::jsonval::{
    array_elems_of, bool_of, int64_of, json_text_of, nullness_of, numberness_of, text_of,
    value_as_array, value_as_bool, value_as_i64, value_as_text, value_is_null, value_is_number,
    value_to_json_text,
};
use crate::strutil::{has_prefix, starts_with, to_ascii_upper, trim_str, trimmed, upper_seq};
use crate::text::{dec_str, dec_str_signed, push_i64_dec, push_str, push_u64_dec};

verus! {

/// A typed positional parameter, ready for binding.  A number that is not
/// a 64-bit integer travels as the JSON text it arrived in, which reads
/// back to the same value.
#[derive(Debug)]
pub enum DbParam {
    Text(String),
    Int(i64),
    FloatText(String),
    Bool(bool),
    Null,
}

/// A typed parameter as contracts speak of it: over character sequences.
pub enum DbParamView {
    Text(Seq<char>),
    Int(i64),
    FloatText(Seq<char>),
    Bool(bool),
    Null,
}

/// The view of one typed parameter.
pub open spec fn db_param_view(p: DbParam) -> DbParamView {
    match p {
        DbParam::Text(t) => DbParamView::Text(t@),
        DbParam::Int(i) => DbParamView::Int(i),
        DbParam::FloatText(t) => DbParamView::FloatText(t@),
        DbParam::Bool(b) => DbParamView::Bool(b),
        DbParam::Null => DbParamView::Null,
    }
}

/// The views of a typed parameter vector, in order.
pub open spec fn db_params_view(ps: Seq<DbParam>) -> Seq<DbParamView> {
    ps.map_values(|p: DbParam| db_param_view(p))
}

/// What the probes saw of one JSON parameter.  At most one of the facets
/// answers, since a JSON value has one shape.
pub struct ParamProbe {
    pub text: Option<String>,
    pub int64: Option<i64>,
    pub is_number: bool,
    pub float_text: Option<String>,
    pub boolean: Option<bool>,
    pub null: bool,
}

/// A probe as contracts speak of it: over character sequences.
pub struct ProbeView {
    pub text: Option<Seq<char>>,
    pub int64: Option<i64>,
    pub is_number: bool,
    pub float_text: Option<Seq<char>>,
    pub boolean: Option<bool>,
    pub null: bool,
}

/// The view of one probe.
pub open spec fn probe_view(p: ParamProbe) -> ProbeView {
    ProbeView {
        text: match p.text {
            Some(t) => Some(t@),
            None => None,
        },
        int64: p.int64,
        is_number: p.is_number,
        float_text: match p.float_text {
            Some(t) => Some(t@),
            None => None,
        },
        boolean: p.boolean,
        null: p.null,
    }
}

/// What probing one JSON value reads, over the probes' names: the float
/// slot is filled for any number that is not a 64-bit integer, carrying
/// the number's own JSON text.
pub open spec fn spec_probe_of(v: serde_json::Value) -> ProbeView {
    ProbeView {
        text: text_of(v),
        int64: int64_of(v),
        is_number: numberness_of(v),
        float_text: if numberness_of(v) && int64_of(v) is None {
            Some(json_text_of(v))
        } else {
            None
        },
        boolean: bool_of(v),
        null: nullness_of(v),
    }
}

/// The probe views of an element sequence, in order.
pub open spec fn probe_views_of(elems: Seq<serde_json::Value>) -> Seq<ProbeView> {
    elems.map_values(|e: serde_json::Value| spec_probe_of(e))
}

/// How a probed parameter is typed: text, then 64-bit integer, then any
/// other number as its JSON text, then boolean, then null; a number whose
/// probes all failed is refused, and any other shape is unsupported.
pub open spec fn spec_classify_v(p: ProbeView) -> Result<DbParamView, Seq<char>> {
    if p.text is Some {
        Ok(DbParamView::Text(p.text.unwrap()))
    } else if p.int64 is Some {
        Ok(DbParamView::Int(p.int64.unwrap()))
    } else if p.is_number {
        if p.float_text is Some {
            Ok(DbParamView::FloatText(p.float_text.unwrap()))
        } else {
            Err("Invalid number type"@)
        }
    } else if p.boolean is Some {
        Ok(DbParamView::Bool(p.boolean.unwrap()))
    } else if p.null {
        Ok(DbParamView::Null)
    } else {
        Err("Unsupported parameter type"@)
    }
}

/// The view of a classification result.
pub open spec fn classify_result_view(r: Result<DbParam, String>) -> Result<
    DbParamView,
    Seq<char>,
> {
    match r {
        Ok(p) => Ok(db_param_view(p)),
        Err(m) => Err(m@),
    }
}

/// Types one probed parameter.
pub fn classify_probe(p: ParamProbe) -> (r: Result<DbParam, String>)
    ensures
        classify_result_view(r) == spec_classify_v(probe_view(p)),
{
    if let Some(t) = p.text {
        Ok(DbParam::Text(t))
    } else if let Some(i) = p.int64 {
        Ok(DbParam::Int(i))
    } else if p.is_number {
        if let Some(f) = p.float_text {
            Ok(DbParam::FloatText(f))
        } else {
            Err(String::from_str("Invalid number type"))
        }
    } else if let Some(b) = p.boolean {
        Ok(DbParam::Bool(b))
    } else if p.null {
        Ok(DbParam::Null)
    } else {
        Err(String::from_str("Unsupported parameter type"))
    }
}

/// Typing a whole parameter list: each element in order, the earliest
/// refusal winning.
pub open spec fn spec_classify_all(ps: Seq<ProbeView>) -> Result<Seq<DbParamView>, Seq<char>>
    decreases ps.len(),
{
    if ps.len() == 0 {
        Ok(Seq::empty())
    } else {
        match spec_classify_all(ps.drop_last()) {
            Err(m) => Err(m),
            Ok(ts) => match spec_classify_v(ps.last()) {
                Ok(t) => Ok(ts.push(t)),
                Err(m) => Err(m),
            },
        }
    }
}

/// A refusal among the first elements is the whole list's refusal: later
/// elements cannot overturn it.
pub proof fn lemma_classify_all_prefix_error(ps: Seq<ProbeView>, j: int)
    requires
        0 <= j <= ps.len(),
        spec_classify_all(ps.subrange(0, j)) is Err,
    ensures
        spec_classify_all(ps) == spec_classify_all(ps.subrange(0, j)),
    decreases ps.len(),
{
    if ps.len() == j {
        assert(ps.subrange(0, j) =~= ps);
    } else {
        assert(ps.drop_last().subrange(0, j) =~= ps.subrange(0, j));
        lemma_classify_all_prefix_error(ps.drop_last(), j);
    }
}

/// Probes one JSON value's facets.
fn probe_value(v: &serde_json::Value) -> (r: ParamProbe)
    ensures
        probe_view(r) == spec_probe_of(*v),
{
    let is_number = value_is_number(v);
    let int64 = value_as_i64(v);
    let float_text = if is_number && int64.is_none() {
        Some(value_to_json_text(v))
    } else {
        None
    };
    ParamProbe {
        text: value_as_text(v),
        int64,
        is_number,
        float_text,
        boolean: value_as_bool(v),
        null: value_is_null(v),
    }
}

/// Whether the statement is SELECT-class: its trimmed text starts with
/// SELECT, in any ASCII case.
pub open spec fn spec_is_select(sql: Seq<char>) -> bool {
    has_prefix(upper_seq(trimmed(sql)), seq!['S', 'E', 'L', 'E', 'C', 'T'])
}

/// Tells SELECT-class statements from the rest.
pub fn is_select(sql: &str) -> (r: bool)
    ensures
        r == spec_is_select(sql@),
{
    proof {
        reveal_strlit("SELECT");
        assert("SELECT"@ =~= seq!['S', 'E', 'L', 'E', 'C', 'T']);
    }
    let t = trim_str(sql);
    let up = to_ascii_upper(t.as_str());
    starts_with(up.as_str(), "SELECT")
}

/// The error object the operation resolves to: the message under `error`,
/// with `success` false.
pub open spec fn spec_error_json(msg: Seq<char>) -> Seq<char> {
    "{\"error\":"@ + json_str(msg) + ",\"success\":false}"@
}

/// Renders the error object for a message.
pub fn error_json(msg: &str) -> (r: String)
    ensures
        r@ == spec_error_json(msg@),
{
    let mut out = String::from_str("{\"error\":");
    push_json_str(&mut out, msg);
    push_str(&mut out, ",\"success\":false}");
    assert(out@ =~= spec_error_json(msg@));
    out
}

/// The error object for a failed execution, naming the driver's message.
pub open spec fn spec_db_failure_json(msg: Seq<char>) -> Seq<char> {
    spec_error_json("Database query failed: "@ + msg)
}

/// Renders the error object for a failed execution.
pub fn db_failure_json(msg: &str) -> (r: String)
    ensures
        r@ == spec_db_failure_json(msg@),
{
    let mut text = String::from_str("Database query failed: ");
    push_str(&mut text, msg);
    error_json(text.as_str())
}

/// The object a non-SELECT statement resolves to: how many rows it
/// touched, with `success` true.
pub open spec fn spec_rows_affected_json(n: nat) -> Seq<char> {
    "{\"rowsAffected\":"@ + dec_str(n) + ",\"success\":true}"@
}

/// Renders the rows-affected object.
pub fn rows_affected_json(n: u64) -> (r: String)
    ensures
        r@ == spec_rows_affected_json(n as nat),
{
    let mut out = String::from_str("{\"rowsAffected\":");
    push_u64_dec(&mut out, n);
    push_str(&mut out, ",\"success\":true}");
    assert(out@ =~= spec_rows_affected_json(n as nat));
    out
}

/// What the database operation decides to do with a request: answer at
/// once with JSON (bad parameters), or run the typed parameters as a
/// SELECT-class or other statement.
pub enum DbAction {
    Reply(String),
    RunSelect(Vec<DbParam>),
    RunExecute(Vec<DbParam>),
}

/// Decides a database request.  The parameters must arrive as a JSON
/// array; each element is typed by its shape in element order, the
/// earliest refusal answering at once with its error object; with every
/// parameter typed, the statement's class picks fetch or execute, and the
/// typed vector corresponds position by position to the array.
pub fn db_request(sql: &str, params: &serde_json::Value) -> (r: DbAction)
    ensures
        match array_elems_of(*params) {
            None => (r matches DbAction::Reply(s) && s@ == spec_error_json(
                "params must be an array"@,
            )),
            Some(elems) => match spec_classify_all(probe_views_of(elems)) {
                Err(m) => (r matches DbAction::Reply(s) && s@ == spec_error_json(m)),
                Ok(ts) => if spec_is_select(sql@) {
                    (r matches DbAction::RunSelect(ps) && db_params_view(ps@) == ts)
                } else {
                    (r matches DbAction::RunExecute(ps) && db_params_view(ps@) == ts)
                },
            },
        },
{
    let arr = match value_as_array(params) {
        Some(arr) => arr,
        None => {
            return DbAction::Reply(error_json("params must be an array"));
        },
    };
    let ghost elems = arr@;
    let mut typed: Vec<DbParam> = Vec::new();
    let n = arr.len();
    let mut i: usize = 0;
    assert(probe_views_of(elems.subrange(0, 0)) =~= Seq::<ProbeView>::empty());
    assert(db_params_view(typed@) =~= Seq::<DbParamView>::empty());
    while i < n
        invariant
            i <= n,
            n == elems.len(),
            arr@ == elems,
            array_elems_of(*params) == Some(elems),
            spec_classify_all(probe_views_of(elems.subrange(0, i as int))) == Ok::<
                Seq<DbParamView>,
                Seq<char>,
            >(db_params_view(typed@)),
        decreases n - i,
    {
        let probe = probe_value(&arr[i]);
        proof {
            let pv = probe_views_of(elems.subrange(0, i + 1 as int));
            assert(pv.drop_last() =~= probe_views_of(elems.subrange(0, i as int)));
            assert(pv.last() == spec_probe_of(elems[i as int]));
            assert(probe_view(probe) == spec_probe_of(elems[i as int]));
        }
        match classify_probe(probe) {
            Ok(p) => {
                let ghost before = typed@;
                typed.push(p);
                proof {
                    assert(db_params_view(typed@) =~= db_params_view(before).push(
                        db_param_view(p),
                    ));
                }
            },
            Err(m) => {
                proof {
                    let pv = probe_views_of(elems.subrange(0, i + 1 as int));
                    assert(spec_classify_all(pv) == Err::<Seq<DbParamView>, Seq<char>>(m@));
                    assert(probe_views_of(elems).subrange(0, i + 1 as int) =~= pv);
                    lemma_classify_all_prefix_error(probe_views_of(elems), i + 1 as int);
                }
                return DbAction::Reply(error_json(m.as_str()));
            },
        }
        i = i + 1;
    }
    proof {
        assert(elems.subrange(0, n as int) =~= elems);
    }
    if is_select(sql) {
        DbAction::RunSelect(typed)
    } else {
        DbAction::RunExecute(typed)
    }
}

/// One fetched column value, typed by the first probe that answered.  A
/// float travels as rendered JSON number text.
#[derive(Debug)]
pub enum DbCell {
    Text(String),
    Int(i64),
    FloatText(String),
    Bool(bool),
    Null,
}

/// What the probes saw of one fetched cell.
pub struct CellProbe {
    pub text: Option<String>,
    pub int64: Option<i64>,
    pub float_text: Option<String>,
    pub boolean: Option<bool>,
    pub nullable_text: Option<Option<String>>,
}

/// How a fetched cell is typed: text, then 64-bit integer, then float,
/// then boolean, then nullable text; what nothing probes becomes null.
pub open spec fn spec_cell_of(p: CellProbe) -> DbCell {
    if p.text is Some {
        DbCell::Text(p.text.unwrap())
    } else if p.int64 is Some {
        DbCell::Int(p.int64.unwrap())
    } else if p.float_text is Some {
        DbCell::FloatText(p.float_text.unwrap())
    } else if p.boolean is Some {
        DbCell::Bool(p.boolean.unwrap())
    } else if p.nullable_text is Some {
        match p.nullable_text.unwrap() {
            Some(t) => DbCell::Text(t),
            None => DbCell::Null,
        }
    } else {
        DbCell::Null
    }
}

/// Types one fetched cell from its probes.
pub fn cell_of_probe(p: CellProbe) -> (r: DbCell)
    ensures
        r == spec_cell_of(p),
{
    if let Some(t) = p.text {
        DbCell::Text(t)
    } else if let Some(i) = p.int64 {
        DbCell::Int(i)
    } else if let Some(f) = p.float_text {
        DbCell::FloatText(f)
    } else if let Some(b) = p.boolean {
        DbCell::Bool(b)
    } else if let Some(nt) = p.nullable_text {
        match nt {
            Some(t) => DbCell::Text(t),
            None => DbCell::Null,
        }
    } else {
        DbCell::Null
    }
}

/// A cell as JSON: a string literal, a number, a bare float rendering,
/// true/false, or null.
pub open spec fn spec_cell_json(c: DbCell) -> Seq<char> {
    match c {
        DbCell::Text(t) => json_str(t@),
        DbCell::Int(i) => dec_str_signed(i as int),
        DbCell::FloatText(f) => f@,
        DbCell::Bool(b) => if b {
            "true"@
        } else {
            "false"@
        },
        DbCell::Null => "null"@,
    }
}

fn push_cell_json(out: &mut String, c: &DbCell)
    ensures
        final(out)@ == old(out)@ + spec_cell_json(*c),
{
    match c {
        DbCell::Text(t) => push_json_str(out, t.as_str()),
        DbCell::Int(i) => push_i64_dec(out, *i),
        DbCell::FloatText(f) => push_str(out, f.as_str()),
        DbCell::Bool(b) => {
            if *b {
                push_str(out, "true");
            } else {
                push_str(out, "false");
            }
        },
        DbCell::Null => push_str(out, "null"),
    }
}

/// The view of one fetched row: column names and cells, in column order.
pub open spec fn row_view(row: Seq<(String, DbCell)>) -> Seq<(Seq<char>, DbCell)> {
    row.map_values(|e: (String, DbCell)| (e.0@, e.1))
}

/// A row as a JSON object: each column under its name, in column order.
pub open spec fn spec_row_json(row: Seq<(Seq<char>, DbCell)>) -> Seq<char> {
    seq!['{'] + spec_row_members(row) + seq!['}']
}

/// The members of a row object, separated by commas.
pub open spec fn spec_row_members(row: Seq<(Seq<char>, DbCell)>) -> Seq<char>
    decreases row.len(),
{
    if row.len() == 0 {
        Seq::empty()
    } else if row.len() == 1 {
        json_str(row[0].0) + seq![':'] + spec_cell_json(row[0].1)
    } else {
        spec_row_members(row.drop_last()) + seq![','] + json_str(row.last().0) + seq![':']
            + spec_cell_json(row.last().1)
    }
}

fn push_row_json(out: &mut String, row: &Vec<(String, DbCell)>)
    ensures
        final(out)@ == old(out)@ + spec_row_json(row_view(row@)),
{
    crate::text::push_char(out, '{');
    let n = row.len();
    let mut i: usize = 0;
    assert(out@ =~= old(out)@ + seq!['{'] + spec_row_members(row_view(row@).subrange(0, 0)));
    while i < n
        invariant
            i <= n,
            n == row@.len(),
            out@ == old(out)@ + seq!['{'] + spec_row_members(row_view(row@).subrange(0, i as int)),
        decreases n - i,
    {
        if i > 0 {
            crate::text::push_char(out, ',');
        }
        push_json_str(out, row[i].0.as_str());
        crate::text::push_char(out, ':');
        push_cell_json(out, &row[i].1);
        proof {
            let rv = row_view(row@);
            assert(rv.subrange(0, i + 1 as int).drop_last() =~= rv.subrange(0, i as int));
            assert(rv.subrange(0, i + 1 as int).last() == rv[i as int]);
            assert(out@ =~= old(out)@ + seq!['{'] + spec_row_members(rv.subrange(0, i + 1 as int)));
        }
        i = i + 1;
    }
    crate::text::push_char(out, '}');
    proof {
        assert(row_view(row@).subrange(0, n as int) =~= row_view(row@));
        assert(final(out)@ =~= old(out)@ + spec_row_json(row_view(row@)));
    }
}

/// The view of fetched rows.
pub open spec fn rows_view(rows: Seq<Vec<(String, DbCell)>>) -> Seq<Seq<(Seq<char>, DbCell)>> {
    rows.map_values(|r: Vec<(String, DbCell)>| row_view(r@))
}

/// Fetched rows as a JSON array of row objects, in fetch order.
pub open spec fn spec_rows_json(rows: Seq<Seq<(Seq<char>, DbCell)>>) -> Seq<char> {
    seq!['['] + spec_rows_items(rows) + seq![']']
}

/// The array's items, separated by commas.
pub open spec fn spec_rows_items(rows: Seq<Seq<(Seq<char>, DbCell)>>) -> Seq<char>
    decreases rows.len(),
{
    if rows.len() == 0 {
        Seq::empty()
    } else if rows.len() == 1 {
        spec_row_json(rows[0])
    } else {
        spec_rows_items(rows.drop_last()) + seq![','] + spec_row_json(rows.last())
    }
}

/// Renders the JSON a SELECT-class statement resolves to: the fetched
/// rows, each an object of its columns, in fetch order.
pub fn rows_json(rows: &Vec<Vec<(String, DbCell)>>) -> (r: String)
    ensures
        r@ == spec_rows_json(rows_view(rows@)),
{
    let mut out = String::new();
    crate::text::push_char(&mut out, '[');
    let n = rows.len();
    let mut i: usize = 0;
    assert(out@ =~= seq!['['] + spec_rows_items(rows_view(rows@).subrange(0, 0)));
    while i < n
        invariant
            i <= n,
            n == rows@.len(),
            out@ == seq!['['] + spec_rows_items(rows_view(rows@).subrange(0, i as int)),
        decreases n - i,
    {
        if i > 0 {
            crate::text::push_char(&mut out, ',');
        }
        push_row_json(&mut out, &rows[i]);
        proof {
            let rv = rows_view(rows@);
            assert(rv.subrange(0, i + 1 as int).drop_last() =~= rv.subrange(0, i as int));
            assert(rv.subrange(0, i + 1 as int).last() == rv[i as int]);
            assert(out@ =~= seq!['['] + spec_rows_items(rv.subrange(0, i + 1 as int)));
        }
        i = i + 1;
    }
    crate::text::push_char(&mut out, ']');
    proof {
        assert(rows_view(rows@).subrange(0, n as int) =~= rows_view(rows@));
        assert(out@ =~= spec_rows_json(rows_view(rows@)));
    }
    out
}

} // verus!
