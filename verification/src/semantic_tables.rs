//! Semantic read-model tables (objects, relations, projection state) read from
//! compiled Episteme preview artifacts for the `WendaoGraph` ontology quality service.
use vstd::prelude::*;
use crate::candidate_inputs::{unescape_tsv, unescape_tsv_field};
use crate::probe_report::{decimal_error_message, field_value, parse_decimal_i64, parse_signed_decimal};
use crate::text::{
    chars_of, decimal, decimal_text, is_blank, is_blank_vec, join, lines_of, lines_vec, seqs_of, split_char,
    split_char_vec, string_of, vec_eq,
};

verus! {

/// The type of a read-model column.
#[derive(Clone, Copy, Debug, PartialEq, Eq, Structural)]
pub enum SemanticPreviewDataType {
    /// UTF-8 text.
    Utf8,
    /// A 64-bit integer.
    Int64,
}

/// One required column of a read-model table.
#[derive(Clone, Copy, Debug, PartialEq, Eq)]
pub struct SemanticPreviewColumn {
    /// Column name.
    pub name: &'static str,
    /// Column type.
    pub data_type: SemanticPreviewDataType,
}

/// The names of a list of columns.
pub open spec fn column_names(cols: Seq<SemanticPreviewColumn>) -> Seq<Seq<char>> {
    cols.map_values(|c: SemanticPreviewColumn| c.name@)
}

fn column(name: &'static str, data_type: SemanticPreviewDataType) -> (r: SemanticPreviewColumn)
    ensures
        r.name == name,
        r.data_type == data_type,
{
    SemanticPreviewColumn { name, data_type }
}

/// The columns of `semantic_objects`.
pub fn semantic_object_columns() -> (r: Vec<SemanticPreviewColumn>)
    ensures
        column_names(r@) == seq![
            "id"@, "kind"@, "title"@, "domain"@, "evidence_id"@, "evidence_status"@, "target_rdf_file"@,
            "review_decision"@, "promotion_decision"@, "reviewer_id"@, "relation_count"@, "status"@,
            "read_model_projection_staleness"@,
        ],
        forall|i: int| 0 <= i < r@.len() ==> (#[trigger] r@[i]).data_type == if i == 10 {
            SemanticPreviewDataType::Int64
        } else {
            SemanticPreviewDataType::Utf8
        },
{
    let s = SemanticPreviewDataType::Utf8;
    let r = vec![
        column("id", s), column("kind", s), column("title", s), column("domain", s), column("evidence_id", s),
        column("evidence_status", s), column("target_rdf_file", s), column("review_decision", s),
        column("promotion_decision", s), column("reviewer_id", s),
        column("relation_count", SemanticPreviewDataType::Int64), column("status", s),
        column("read_model_projection_staleness", s),
    ];
    assert(column_names(r@) =~= seq![
        "id"@, "kind"@, "title"@, "domain"@, "evidence_id"@, "evidence_status"@, "target_rdf_file"@,
        "review_decision"@, "promotion_decision"@, "reviewer_id"@, "relation_count"@, "status"@,
        "read_model_projection_staleness"@,
    ]);
    r
}

/// The columns of `semantic_relations`, all text.
pub fn semantic_relation_columns() -> (r: Vec<SemanticPreviewColumn>)
    ensures
        column_names(r@) == seq![
            "id"@, "kind"@, "source"@, "target"@, "domain"@, "evidence_id"@, "evidence_status"@,
            "target_rdf_file"@, "review_decision"@, "promotion_decision"@, "reviewer_id"@, "status"@,
            "read_model_projection_staleness"@,
        ],
        forall|i: int| 0 <= i < r@.len() ==> (#[trigger] r@[i]).data_type == SemanticPreviewDataType::Utf8,
{
    let s = SemanticPreviewDataType::Utf8;
    let r = vec![
        column("id", s), column("kind", s), column("source", s), column("target", s), column("domain", s),
        column("evidence_id", s), column("evidence_status", s), column("target_rdf_file", s),
        column("review_decision", s), column("promotion_decision", s), column("reviewer_id", s),
        column("status", s), column("read_model_projection_staleness", s),
    ];
    assert(column_names(r@) =~= seq![
        "id"@, "kind"@, "source"@, "target"@, "domain"@, "evidence_id"@, "evidence_status"@,
        "target_rdf_file"@, "review_decision"@, "promotion_decision"@, "reviewer_id"@, "status"@,
        "read_model_projection_staleness"@,
    ]);
    r
}

/// A table row: column name and value pairs, in column order.
pub type SemanticRow = Vec<(String, String)>;

/// The texts of a row.
pub open spec fn row_view(row: Seq<(String, String)>) -> Seq<(Seq<char>, Seq<char>)> {
    row.map_values(|p: (String, String)| (p.0@, p.1@))
}

/// The texts of a list of rows.
pub open spec fn rows_view(rows: Seq<SemanticRow>) -> Seq<Seq<(Seq<char>, Seq<char>)>> {
    rows.map_values(|r: SemanticRow| row_view(r@))
}

/// The label of a row number in messages: the number, or `unknown` for zero.
pub open spec fn row_label(row_number: nat) -> Seq<char> {
    if row_number == 0 {
        "unknown"@
    } else {
        decimal(row_number)
    }
}

/// The value of a column in a row (the last pair with that name), or the
/// missing-column message.
pub open spec fn required_value_spec(row: Seq<(Seq<char>, Seq<char>)>, column: Seq<char>, table: Seq<char>, row_number: nat) -> Result<Seq<char>, Seq<char>> {
    match field_value(row, column) {
        Some(v) => Ok(v),
        None => Err("semantic preview `"@ + table + "` TSV row "@ + row_label(row_number) + " is missing `"@ + column + "`"@),
    }
}

/// Results agree: the same value or the same message.
pub open spec fn same_result(r: Result<String, String>, s: Result<Seq<char>, Seq<char>>) -> bool {
    match (r, s) {
        (Ok(a), Ok(b)) => a@ == b,
        (Err(a), Err(b)) => a@ == b,
        _ => false,
    }
}

/// Unit results agree: both succeed, or both fail with the same message.
pub open spec fn same_outcome(r: Result<(), String>, s: Result<(), Seq<char>>) -> bool {
    match (r, s) {
        (Ok(_), Ok(_)) => true,
        (Err(a), Err(b)) => a@ == b,
        _ => false,
    }
}

fn message4(a: &str, b: &str, c: &str, d: &str) -> (r: String)
    ensures
        r@ == a@ + b@ + c@ + d@,
{
    let mut m = a.to_owned();
    m.append(b);
    m.append(c);
    m.append(d);
    m
}

/// The value of a column in a row.
pub fn required_value(row: &SemanticRow, column_name: &str, table_name: &str, row_number: usize) -> (r: Result<String, String>)
    ensures
        same_result(r, required_value_spec(row_view(row@), column_name@, table_name@, row_number as nat)),
{
    let key = chars_of(column_name);
    let mut i: usize = row.len();
    assert(row_view(row@).take(i as int) =~= row_view(row@));
    while i > 0
        invariant
            i <= row.len(),
            key@ == column_name@,
            field_value(row_view(row@), column_name@) == field_value(row_view(row@).take(i as int), column_name@),
        decreases i,
    {
        let ghost pre = row_view(row@).take(i as int);
        assert(pre.last() == (row@[i - 1].0@, row@[i - 1].1@));
        if vec_eq(&chars_of(row[i - 1].0.as_str()), &key) {
            return Ok(string_of(&chars_of(row[i - 1].1.as_str())));
        }
        assert(pre.drop_last() =~= row_view(row@).take(i - 1));
        i = i - 1;
    }
    let label = if row_number == 0 {
        "unknown".to_owned()
    } else {
        decimal_text(row_number)
    };
    let mut msg = message4("semantic preview `", table_name, "` TSV row ", label.as_str());
    msg.append(" is missing `");
    msg.append(column_name);
    msg.append("`");
    Err(msg)
}

/// Every required column has a value in the row that is not blank; the first
/// column that fails gives the message.
pub open spec fn nonblank_check(table: Seq<char>, row_number: nat, row: Seq<(Seq<char>, Seq<char>)>, cols: Seq<SemanticPreviewColumn>) -> Result<(), Seq<char>>
    decreases cols.len(),
{
    if cols.len() == 0 {
        Ok(())
    } else {
        match required_value_spec(row, cols[0].name@, table, row_number) {
            Err(e) => Err(e),
            Ok(v) => if is_blank(v) {
                Err("semantic preview `"@ + table + "` TSV row "@ + decimal(row_number) + " has blank `"@ + cols[0].name@ + "`"@)
            } else {
                nonblank_check(table, row_number, row, cols.drop_first())
            },
        }
    }
}

/// Refuses a row where a required column is missing or blank.
pub fn require_nonblank_values(table_name: &str, row_number: usize, row: &SemanticRow, required_columns: &Vec<SemanticPreviewColumn>) -> (r: Result<(), String>)
    ensures
        same_outcome(r, nonblank_check(table_name@, row_number as nat, row_view(row@), required_columns@)),
{
    let mut i: usize = 0;
    assert(required_columns@.skip(0) =~= required_columns@);
    while i < required_columns.len()
        invariant
            i <= required_columns.len(),
            nonblank_check(table_name@, row_number as nat, row_view(row@), required_columns@) == nonblank_check(
                table_name@,
                row_number as nat,
                row_view(row@),
                required_columns@.skip(i as int),
            ),
        decreases required_columns.len() - i,
    {
        let ghost rest = required_columns@.skip(i as int);
        assert(rest[0] == required_columns@[i as int]);
        assert(rest.drop_first() =~= required_columns@.skip(i + 1));
        let name = required_columns[i].name;
        let value = required_value(row, name, table_name, row_number)?;
        if is_blank_vec(&chars_of(value.as_str())) {
            let mut msg = message4("semantic preview `", table_name, "` TSV row ", decimal_text(row_number).as_str());
            msg.append(" has blank `");
            msg.append(name);
            msg.append("`");
            return Err(msg);
        }
        i = i + 1;
    }
    Ok(())
}

/// The required columns that the header lacks, in required order.
pub open spec fn missing_columns(columns: Seq<Seq<char>>, required: Seq<SemanticPreviewColumn>) -> Seq<Seq<char>> {
    column_names(required).filter(|n: Seq<char>| !columns.contains(n))
}

/// The header check: every required column present, or the list of the missing ones.
pub open spec fn columns_check(table: Seq<char>, columns: Seq<Seq<char>>, required: Seq<SemanticPreviewColumn>) -> Result<(), Seq<char>> {
    if missing_columns(columns, required).len() == 0 {
        Ok(())
    } else {
        Err("semantic preview `"@ + table + "` TSV is missing required column(s): "@ + join(missing_columns(columns, required), ", "@))
    }
}

/// Refuses a header that lacks a required column.
pub fn require_columns(table_name: &str, columns: &Vec<Vec<char>>, required_columns: &Vec<SemanticPreviewColumn>) -> (r: Result<(), String>)
    ensures
        same_outcome(r, columns_check(table_name@, seqs_of(columns@), required_columns@)),
{
    let mut missing: Vec<Vec<char>> = Vec::new();
    let mut i: usize = 0;
    while i < required_columns.len()
        invariant
            i <= required_columns.len(),
            seqs_of(missing@) == column_names(required_columns@.take(i as int)).filter(|n: Seq<char>| !seqs_of(columns@).contains(n)),
        decreases required_columns.len() - i,
    {
        let ghost prev = required_columns@.take(i as int);
        assert(required_columns@.take(i + 1) =~= prev.push(required_columns@[i as int]));
        assert(column_names(required_columns@.take(i + 1)) =~= column_names(prev).push(required_columns@[i as int].name@));
        proof {
            column_names(prev).lemma_filter_push(required_columns@[i as int].name@, |n: Seq<char>| !seqs_of(columns@).contains(n));
        }
        let name = chars_of(required_columns[i].name);
        if !crate::text::list_contains(columns, &name) {
            let ghost before = seqs_of(missing@);
            missing.push(name);
            assert(seqs_of(missing@) =~= before.push(required_columns@[i as int].name@));
        }
        i = i + 1;
    }
    assert(required_columns@.take(required_columns.len() as int) =~= required_columns@);
    if missing.len() == 0 {
        return Ok(());
    }
    let joined = crate::text::join_vecs(&missing, &crate::text::lit(", "));
    let mut msg = message4("semantic preview `", table_name, "` TSV is missing required column(s): ", "");
    proof {
        reveal_strlit("");
        assert(""@ =~= Seq::<char>::empty());
    }
    let j = string_of(&joined);
    msg.append(j.as_str());
    assert(msg@ =~= "semantic preview `"@ + table_name@ + "` TSV is missing required column(s): "@ + join(missing_columns(seqs_of(columns@), required_columns@), ", "@));
    Err(msg)
}

/// The `id` of every object row, in order; the first row without one gives
/// the message.
pub open spec fn object_ids_spec(objects: Seq<Seq<(Seq<char>, Seq<char>)>>) -> Result<Seq<Seq<char>>, Seq<char>>
    decreases objects.len(),
{
    if objects.len() == 0 {
        Ok(Seq::empty())
    } else {
        match required_value_spec(objects[0], "id"@, "semantic_objects"@, 0) {
            Err(e) => Err(e),
            Ok(id) => match object_ids_spec(objects.drop_first()) {
                Err(e) => Err(e),
                Ok(ids) => Ok(seq![id] + ids),
            },
        }
    }
}

/// Every relation, numbered from `first_row` on, has a source and a target
/// among the object ids; the first relation that fails gives the message.
pub open spec fn endpoints_check(ids: Seq<Seq<char>>, relations: Seq<Seq<(Seq<char>, Seq<char>)>>, first_row: nat) -> Result<(), Seq<char>>
    decreases relations.len(),
{
    if relations.len() == 0 {
        Ok(())
    } else {
        match required_value_spec(relations[0], "source"@, "semantic_relations"@, first_row) {
            Err(e) => Err(e),
            Ok(source) => match required_value_spec(relations[0], "target"@, "semantic_relations"@, first_row) {
                Err(e) => Err(e),
                Ok(target) => if !ids.contains(source) {
                    Err("semantic preview `semantic_relations` TSV row "@ + decimal(first_row) + " references unknown source `"@ + source + "`"@)
                } else if !ids.contains(target) {
                    Err("semantic preview `semantic_relations` TSV row "@ + decimal(first_row) + " references unknown target `"@ + target + "`"@)
                } else {
                    endpoints_check(ids, relations.drop_first(), first_row + 1)
                },
            },
        }
    }
}

/// The relation endpoint check of two tables.
pub open spec fn relation_endpoints_check(objects: Seq<Seq<(Seq<char>, Seq<char>)>>, relations: Seq<Seq<(Seq<char>, Seq<char>)>>) -> Result<(), Seq<char>> {
    match object_ids_spec(objects) {
        Err(e) => Err(e),
        Ok(ids) => endpoints_check(ids, relations, 2),
    }
}

/// Refuses relations whose source or target is not an object id.
pub fn validate_relation_endpoints(object_rows: &Vec<SemanticRow>, relation_rows: &Vec<SemanticRow>) -> (r: Result<(), String>)
    requires
        relation_rows@.len() <= usize::MAX - 2,
    ensures
        same_outcome(r, relation_endpoints_check(rows_view(object_rows@), rows_view(relation_rows@))),
{
    let ghost ov = rows_view(object_rows@);
    let mut ids: Vec<Vec<char>> = Vec::new();
    let mut i: usize = 0;
    assert(ov.skip(0) =~= ov);
    while i < object_rows.len()
        invariant
            i <= object_rows.len(),
            ov == rows_view(object_rows@),
            match object_ids_spec(ov) {
                Err(e) => object_ids_spec(ov.skip(i as int)) == Err::<Seq<Seq<char>>, Seq<char>>(e),
                Ok(all) => object_ids_spec(ov.skip(i as int)) matches Ok(rest) && all == seqs_of(ids@) + rest,
            },
        decreases object_rows.len() - i,
    {
        let ghost rest = ov.skip(i as int);
        assert(rest[0] == row_view(object_rows@[i as int]@));
        assert(rest.drop_first() =~= ov.skip(i + 1));
        let id = required_value(&object_rows[i], "id", "semantic_objects", 0)?;
        let ghost before = seqs_of(ids@);
        ids.push(chars_of(id.as_str()));
        proof {
            assert(seqs_of(ids@) =~= before.push(id@));
            match (object_ids_spec(ov), object_ids_spec(rest), object_ids_spec(ov.skip(i + 1))) {
                    (Ok(all), Ok(r), Ok(r2)) => {
                        assert(r =~= seq![id@] + r2);
                        assert(all =~= seqs_of(ids@) + r2);
                    },
                    _ => {},
            }
        }
        i = i + 1;
    }
    assert(ov.skip(i as int) =~= Seq::<Seq<(Seq<char>, Seq<char>)>>::empty());
    let ghost idv = seqs_of(ids@);
    assert(object_ids_spec(ov) == Ok::<Seq<Seq<char>>, Seq<char>>(idv));
    let ghost rv = rows_view(relation_rows@);
    let mut k: usize = 0;
    assert(rv.skip(0) =~= rv);
    while k < relation_rows.len()
        invariant
            k <= relation_rows.len(),
            relation_rows@.len() <= usize::MAX - 2,
            ov == rows_view(object_rows@),
            rv == rows_view(relation_rows@),
            idv == seqs_of(ids@),
            relation_endpoints_check(ov, rv) == endpoints_check(idv, rv.skip(k as int), k as nat + 2),
            object_ids_spec(ov) == Ok::<Seq<Seq<char>>, Seq<char>>(idv),
        decreases relation_rows.len() - k,
    {
        let ghost rest = rv.skip(k as int);
        assert(rest[0] == row_view(relation_rows@[k as int]@));
        assert(rest.drop_first() =~= rv.skip(k + 1));
        let row_number = k + 2;
        let source = required_value(&relation_rows[k], "source", "semantic_relations", row_number)?;
        let target = required_value(&relation_rows[k], "target", "semantic_relations", row_number)?;
        if !crate::text::list_contains(&ids, &chars_of(source.as_str())) {
            let mut msg = message4("semantic preview `semantic_relations` TSV row ", decimal_text(row_number).as_str(), " references unknown source `", source.as_str());
            msg.append("`");
            return Err(msg);
        }
        if !crate::text::list_contains(&ids, &chars_of(target.as_str())) {
            let mut msg = message4("semantic preview `semantic_relations` TSV row ", decimal_text(row_number).as_str(), " references unknown target `", target.as_str());
            msg.append("`");
            return Err(msg);
        }
        k = k + 1;
    }
    Ok(())
}

/// Refuses a projection state field that is blank.
pub fn require_projection_nonblank(row_number: usize, field_name: &str, value: &str) -> (r: Result<(), String>)
    ensures
        r is Ok <==> !is_blank(value@),
        r matches Err(e) ==> e@ == "semantic preview projection state row "@ + decimal(row_number as nat) + " has blank `"@ + field_name@ + "`"@,
{
    if is_blank_vec(&chars_of(value)) {
        let mut msg = message4("semantic preview projection state row ", decimal_text(row_number).as_str(), " has blank `", field_name);
        msg.append("`");
        return Err(msg);
    }
    Ok(())
}

/// The values of a text column, rows numbered from two; the first row
/// without the column gives the message.
pub open spec fn text_column_spec(rows: Seq<Seq<(Seq<char>, Seq<char>)>>, column: Seq<char>, table: Seq<char>, first_row: nat) -> Result<Seq<Seq<char>>, Seq<char>>
    decreases rows.len(),
{
    if rows.len() == 0 {
        Ok(Seq::empty())
    } else {
        match required_value_spec(rows[0], column, table, first_row) {
            Err(e) => Err(e),
            Ok(v) => match text_column_spec(rows.drop_first(), column, table, first_row + 1) {
                Err(e) => Err(e),
                Ok(vs) => Ok(seq![v] + vs),
            },
        }
    }
}

/// The values of a text column of a table.
pub fn text_column_values(table_name: &str, column_name: &str, rows: &Vec<SemanticRow>) -> (r: Result<Vec<String>, String>)
    requires
        rows@.len() <= usize::MAX - 2,
    ensures
        match (r, text_column_spec(rows_view(rows@), column_name@, table_name@, 2)) {
            (Ok(a), Ok(b)) => a.deep_view() == b,
            (Err(a), Err(b)) => a@ == b,
            _ => false,
        },
{
    let ghost rv = rows_view(rows@);
    let mut out: Vec<String> = Vec::new();
    let mut i: usize = 0;
    assert(rv.skip(0) =~= rv);
    while i < rows.len()
        invariant
            i <= rows.len(),
            rows@.len() <= usize::MAX - 2,
            rv == rows_view(rows@),
            match text_column_spec(rv, column_name@, table_name@, 2) {
                Err(e) => text_column_spec(rv.skip(i as int), column_name@, table_name@, i as nat + 2) == Err::<Seq<Seq<char>>, Seq<char>>(e),
                Ok(all) => text_column_spec(rv.skip(i as int), column_name@, table_name@, i as nat + 2) matches Ok(rest) && all == out.deep_view() + rest,
            },
        decreases rows.len() - i,
    {
        let ghost rest = rv.skip(i as int);
        assert(rest[0] == row_view(rows@[i as int]@));
        assert(rest.drop_first() =~= rv.skip(i + 1));
        let v = required_value(&rows[i], column_name, table_name, i + 2)?;
        let ghost before = out.deep_view();
        crate::text::push_string(&mut out, v);
        proof {
            match (text_column_spec(rv, column_name@, table_name@, 2), text_column_spec(rest, column_name@, table_name@, i as nat + 2), text_column_spec(rv.skip(i + 1), column_name@, table_name@, i as nat + 3)) {
                    (Ok(all), Ok(r), Ok(r2)) => {
                        assert(r =~= seq![out.deep_view().last()] + r2);
                        assert(all =~= out.deep_view() + r2);
                    },
                    _ => {},
            }
        }
        i = i + 1;
    }
    assert(rv.skip(i as int) =~= Seq::<Seq<(Seq<char>, Seq<char>)>>::empty());
    Ok(out)
}

/// The values of an integer column, rows numbered from two; the first row
/// without the column, or whose value is no `i64`, gives the message.
pub open spec fn int64_column_spec(rows: Seq<Seq<(Seq<char>, Seq<char>)>>, column: Seq<char>, table: Seq<char>, first_row: nat) -> Result<Seq<int>, Seq<char>>
    decreases rows.len(),
{
    if rows.len() == 0 {
        Ok(Seq::empty())
    } else {
        match required_value_spec(rows[0], column, table, first_row) {
            Err(e) => Err(e),
            Ok(v) => match parse_signed_decimal(v) {
                Err(pe) => Err("semantic preview `"@ + table + "` TSV row "@ + decimal(first_row) + " field `"@ + column + "` must be int64: "@ + decimal_error_message(pe)),
                Ok(n) => match int64_column_spec(rows.drop_first(), column, table, first_row + 1) {
                    Err(e) => Err(e),
                    Ok(ns) => Ok(seq![n] + ns),
                },
            },
        }
    }
}

/// The values of an integer column of a table.
pub fn int64_column_values(table_name: &str, column_name: &str, rows: &Vec<SemanticRow>) -> (r: Result<Vec<i64>, String>)
    requires
        rows@.len() <= usize::MAX - 2,
    ensures
        match (r, int64_column_spec(rows_view(rows@), column_name@, table_name@, 2)) {
            (Ok(a), Ok(b)) => a@.map_values(|x: i64| x as int) == b,
            (Err(a), Err(b)) => a@ == b,
            _ => false,
        },
{
    let ghost rv = rows_view(rows@);
    let mut out: Vec<i64> = Vec::new();
    let mut i: usize = 0;
    assert(rv.skip(0) =~= rv);
    while i < rows.len()
        invariant
            i <= rows.len(),
            rows@.len() <= usize::MAX - 2,
            rv == rows_view(rows@),
            match int64_column_spec(rv, column_name@, table_name@, 2) {
                Err(e) => int64_column_spec(rv.skip(i as int), column_name@, table_name@, i as nat + 2) == Err::<Seq<int>, Seq<char>>(e),
                Ok(all) => int64_column_spec(rv.skip(i as int), column_name@, table_name@, i as nat + 2) matches Ok(rest) && all == out@.map_values(|x: i64| x as int) + rest,
            },
        decreases rows.len() - i,
    {
        let ghost rest = rv.skip(i as int);
        assert(rest[0] == row_view(rows@[i as int]@));
        assert(rest.drop_first() =~= rv.skip(i + 1));
        let v = required_value(&rows[i], column_name, table_name, i + 2)?;
        match parse_decimal_i64(&chars_of(v.as_str())) {
            Err(e) => {
                let mut msg = message4("semantic preview `", table_name, "` TSV row ", decimal_text(i + 2).as_str());
                msg.append(" field `");
                msg.append(column_name);
                msg.append("` must be int64: ");
                msg.append(e.message());
                return Err(msg);
            },
            Ok(n) => {
                let ghost before = out@.map_values(|x: i64| x as int);
                out.push(n);
                proof {
                    assert(out@.map_values(|x: i64| x as int) =~= before.push(n as int));
                    match (int64_column_spec(rv, column_name@, table_name@, 2), int64_column_spec(rest, column_name@, table_name@, i as nat + 2), int64_column_spec(rv.skip(i + 1), column_name@, table_name@, i as nat + 3)) {
                            (Ok(all), Ok(r), Ok(r2)) => {
                                assert(r =~= seq![n as int] + r2);
                                assert(all =~= out@.map_values(|x: i64| x as int) + r2);
                            },
                            _ => {},
                    }
                }
            },
        }
        i = i + 1;
    }
    assert(rv.skip(i as int) =~= Seq::<Seq<(Seq<char>, Seq<char>)>>::empty());
    Ok(out)
}

/// Column names paired with the values of one line, in column order.
pub open spec fn zip_row(columns: Seq<Seq<char>>, values: Seq<Seq<char>>) -> Seq<(Seq<char>, Seq<char>)> {
    Seq::new(columns.len(), |i: int| (columns[i], values[i]))
}

/// The unescaped tab-separated values of a line.
pub open spec fn line_values(line: Seq<char>) -> Seq<Seq<char>> {
    split_char(line, '\t').map_values(|v: Seq<char>| unescape_tsv(v))
}

/// The rows after one more data line: blank lines are skipped; a line must
/// have one value per column and a value that is not blank in every required
/// column.
pub open spec fn data_row_step(
    acc: Result<Seq<Seq<(Seq<char>, Seq<char>)>>, Seq<char>>,
    line: Seq<char>,
    row_number: nat,
    columns: Seq<Seq<char>>,
    table: Seq<char>,
    required: Seq<SemanticPreviewColumn>,
) -> Result<Seq<Seq<(Seq<char>, Seq<char>)>>, Seq<char>> {
    match acc {
        Err(e) => Err(e),
        Ok(rows) => if is_blank(line) {
            Ok(rows)
        } else if line_values(line).len() != columns.len() {
            Err("semantic preview `"@ + table + "` TSV row "@ + decimal(row_number) + " has "@ + decimal(line_values(line).len()) + " values for "@ + decimal(columns.len()) + " columns"@)
        } else {
            match nonblank_check(table, row_number, zip_row(columns, line_values(line)), required) {
                Err(e) => Err(e),
                Ok(_) => Ok(rows.push(zip_row(columns, line_values(line)))),
            }
        },
    }
}

/// The rows of the first `n` data lines; data line `k` is row `k + 2` of the file.
pub open spec fn data_rows(
    lines: Seq<Seq<char>>,
    n: int,
    columns: Seq<Seq<char>>,
    table: Seq<char>,
    required: Seq<SemanticPreviewColumn>,
) -> Result<Seq<Seq<(Seq<char>, Seq<char>)>>, Seq<char>>
    decreases n,
{
    if n <= 0 {
        Ok(Seq::empty())
    } else {
        data_row_step(data_rows(lines, n - 1, columns, table, required), lines[n - 1], (n - 1) as nat + 2, columns, table, required)
    }
}

/// The rows of a read-model TSV file: a header of column names that holds
/// every required column, then at least one data row.
pub open spec fn semantic_tsv_spec(body: Seq<char>, table: Seq<char>, required: Seq<SemanticPreviewColumn>) -> Result<Seq<Seq<(Seq<char>, Seq<char>)>>, Seq<char>> {
    let ls = lines_of(body);
    if ls.len() == 0 {
        Err("semantic preview `"@ + table + "` TSV is empty"@)
    } else {
        let columns = split_char(ls[0], '\t');
        match columns_check(table, columns, required) {
            Err(e) => Err(e),
            Ok(_) => match data_rows(ls.drop_first(), ls.len() - 1, columns, table, required) {
                Err(e) => Err(e),
                Ok(rows) => if rows.len() == 0 {
                    Err("semantic preview `"@ + table + "` TSV must contain at least one data row"@)
                } else {
                    Ok(rows)
                },
            },
        }
    }
}

proof fn lemma_data_rows_err_stays(
    lines: Seq<Seq<char>>,
    n: int,
    m: int,
    columns: Seq<Seq<char>>,
    table: Seq<char>,
    required: Seq<SemanticPreviewColumn>,
)
    requires
        0 <= n <= m,
        data_rows(lines, n, columns, table, required) is Err,
    ensures
        data_rows(lines, m, columns, table, required) == data_rows(lines, n, columns, table, required),
    decreases m - n,
{
    if m > n {
        lemma_data_rows_err_stays(lines, n, m - 1, columns, table, required);
    }
}

fn unescaped_values(line: &[char]) -> (r: Vec<String>)
    ensures
        r.deep_view() == line_values(line@),
{
    let pieces = split_char_vec(line, '\t');
    let mut out: Vec<String> = Vec::new();
    let mut i: usize = 0;
    while i < pieces.len()
        invariant
            i <= pieces.len(),
            out.deep_view() == seqs_of(pieces@).take(i as int).map_values(|v: Seq<char>| unescape_tsv(v)),
        decreases pieces.len() - i,
    {
        let ghost before = out.deep_view();
        let piece = string_of(&pieces[i]);
        crate::text::push_string(&mut out, unescape_tsv_field(piece.as_str()));
        assert(seqs_of(pieces@).take(i + 1).map_values(|v: Seq<char>| unescape_tsv(v)) =~= before.push(unescape_tsv(pieces@[i as int]@)));
        i = i + 1;
    }
    assert(seqs_of(pieces@).take(pieces.len() as int) =~= seqs_of(pieces@));
    out
}

fn zip_columns(columns: &Vec<Vec<char>>, values: Vec<String>) -> (r: SemanticRow)
    requires
        columns@.len() == values@.len(),
    ensures
        row_view(r@) == zip_row(seqs_of(columns@), values.deep_view()),
{
    let mut row: SemanticRow = Vec::new();
    let mut i: usize = 0;
    while i < columns.len()
        invariant
            i <= columns.len(),
            columns@.len() == values@.len(),
            row_view(row@) == zip_row(seqs_of(columns@), values.deep_view()).take(i as int),
        decreases columns.len() - i,
    {
        let ghost before = row_view(row@);
        let name = string_of(&columns[i]);
        let value = string_of(&chars_of(values[i].as_str()));
        assert(name@ == seqs_of(columns@)[i as int]);
        assert(value@ == values.deep_view()[i as int]);
        row.push((name, value));
        assert(row_view(row@) =~= before.push((seqs_of(columns@)[i as int], values.deep_view()[i as int])));
        assert(row_view(row@) =~= zip_row(seqs_of(columns@), values.deep_view()).take(i + 1));
        i = i + 1;
    }
    assert(zip_row(seqs_of(columns@), values.deep_view()).take(columns.len() as int) =~= zip_row(seqs_of(columns@), values.deep_view()));
    row
}

/// Reads the rows of a read-model TSV file body.
pub fn parse_semantic_tsv_rows(body: &str, table_name: &str, required_columns: &Vec<SemanticPreviewColumn>) -> (r: Result<Vec<SemanticRow>, String>)
    ensures
        match (r, semantic_tsv_spec(body@, table_name@, required_columns@)) {
            (Ok(a), Ok(b)) => rows_view(a@) == b,
            (Err(a), Err(b)) => a@ == b,
            _ => false,
        },
{
    let cs = chars_of(body);
    let lines = lines_vec(&cs);
    let ghost ls = seqs_of(lines@);
    assert(ls == lines_of(body@));
    proof {
        reveal_strlit("");
        assert(""@ =~= Seq::<char>::empty());
    }
    if lines.len() == 0 {
        return Err(message4("semantic preview `", table_name, "` TSV is empty", ""));
    }
    let columns = split_char_vec(&lines[0], '\t');
    let ghost cols = seqs_of(columns@);
    require_columns(table_name, &columns, required_columns)?;
    let ghost data = ls.drop_first();
    let mut rows: Vec<SemanticRow> = Vec::new();
    assert(rows_view(rows@) =~= Seq::<Seq<(Seq<char>, Seq<char>)>>::empty());
    let mut i: usize = 1;
    while i < lines.len()
        invariant
            1 <= i <= lines.len(),
            ls == seqs_of(lines@),
            ls == lines_of(body@),
            data == ls.drop_first(),
            cols == seqs_of(columns@),
            cols == split_char(ls[0], '\t'),
            columns_check(table_name@, cols, required_columns@) is Ok,
            data_rows(data, i - 1, cols, table_name@, required_columns@) == Ok::<Seq<Seq<(Seq<char>, Seq<char>)>>, Seq<char>>(rows_view(rows@)),
        decreases lines.len() - i,
    {
        assert(data[i - 1] == lines@[i as int]@);
        let ghost prev = rows_view(rows@);
        let row_number = i + 1;
        if !is_blank_vec(&lines[i]) {
            let values = unescaped_values(&lines[i]);
            if values.len() != columns.len() {
                let mut msg = message4("semantic preview `", table_name, "` TSV row ", decimal_text(row_number).as_str());
                msg.append(" has ");
                msg.append(decimal_text(values.len()).as_str());
                msg.append(" values for ");
                msg.append(decimal_text(columns.len()).as_str());
                msg.append(" columns");
                proof {
                    lemma_data_rows_err_stays(data, i as int, data.len() as int, cols, table_name@, required_columns@);
                }
                return Err(msg);
            }
            let row = zip_columns(&columns, values);
            match require_nonblank_values(table_name, row_number, &row, required_columns) {
                Err(e) => {
                    proof {
                        lemma_data_rows_err_stays(data, i as int, data.len() as int, cols, table_name@, required_columns@);
                    }
                    return Err(e);
                },
                Ok(()) => {},
            }
            rows.push(row);
            assert(rows_view(rows@) =~= prev.push(row_view(rows@.last()@)));
        }
        i = i + 1;
    }
    assert(data.len() == lines.len() - 1);
    if rows.len() == 0 {
        return Err(message4("semantic preview `", table_name, "` TSV must contain at least one data row", ""));
    }
    Ok(rows)
}


/// One row of a semantic preview projection state.
#[derive(Clone, Debug)]
pub struct SemanticPreviewProjectionStateRow {
    pub projection: String,
    pub status: String,
    pub staleness: String,
    pub source_object_count: i64,
    pub source_relation_count: i64,
    pub source_evidence_count: i64,
}

/// The message of a blank projection state field.
pub open spec fn blank_field_message(row_number: nat, field: Seq<char>) -> Seq<char> {
    "semantic preview projection state row "@ + decimal(row_number) + " has blank `"@ + field + "`"@
}

/// The first blank field of the rows from position `i` on (rows numbered
/// from one; projection, then status, then staleness), if any.
pub open spec fn first_blank_projection_field(rows: Seq<SemanticPreviewProjectionStateRow>, i: int) -> Option<
    Seq<char>,
>
    decreases rows.len() - i,
{
    if 0 <= i < rows.len() {
        let r = rows[i];
        let n = (i + 1) as nat;
        if is_blank(r.projection@) {
            Some(blank_field_message(n, "projection"@))
        } else if is_blank(r.status@) {
            Some(blank_field_message(n, "status"@))
        } else if is_blank(r.staleness@) {
            Some(blank_field_message(n, "staleness"@))
        } else {
            first_blank_projection_field(rows, i + 1)
        }
    } else {
        None
    }
}

/// Checks the rows of a projection state: there is at least one, and no
/// projection, status or staleness is blank; else the first failure.
pub fn validate_projection_state_rows(rows: &Vec<SemanticPreviewProjectionStateRow>) -> (r: Result<(), String>)
    ensures
        rows.len() == 0 ==> (r matches Err(e) && e@ == "semantic preview projection state JSON must contain at least one row"@),
        rows.len() > 0 ==> match first_blank_projection_field(rows@, 0) {
            Some(m) => r matches Err(e) && e@ == m,
            None => r is Ok,
        },
{
    if rows.len() == 0 {
        return Err("semantic preview projection state JSON must contain at least one row".to_owned());
    }
    let mut i: usize = 0;
    while i < rows.len()
        invariant
            i <= rows.len(),
            first_blank_projection_field(rows@, 0) == first_blank_projection_field(rows@, i as int),
        decreases rows.len() - i,
    {
        let row = &rows[i];
        match require_projection_nonblank(i + 1, "projection", row.projection.as_str()) {
            Err(e) => return Err(e),
            Ok(()) => {},
        }
        match require_projection_nonblank(i + 1, "status", row.status.as_str()) {
            Err(e) => return Err(e),
            Ok(()) => {},
        }
        match require_projection_nonblank(i + 1, "staleness", row.staleness.as_str()) {
            Err(e) => return Err(e),
            Ok(()) => {},
        }
        i = i + 1;
    }
    Ok(())
}

} // verus!
