//! Reading of the one-line `key=value` reports that `WendaoGraph.jl` host probes print.
use vstd::prelude::*;
use crate::text::{after_first, before_first, chars_of, char_is_white, has_char, is_white, lines_of, lines_vec, lit, seqs_of, split_once_vec, starts_with, starts_with_vec, string_of, vec_eq};

verus! {

/// Backend module load diagnostics from one local `WendaoGraph.jl` GNN probe.
#[derive(Clone, Copy, Debug, PartialEq, Eq, Structural)]
pub struct WendaoGraphGnnBackendLoadDiagnostics {
    /// Whether `Metal.jl` was loaded in the Julia process.
    pub metal_loaded: bool,
    /// Whether `CUDA.jl` was loaded in the Julia process.
    pub cuda_loaded: bool,
    /// Whether `AMDGPU.jl` was loaded in the Julia process.
    pub amdgpu_loaded: bool,
}

/// `str::split_whitespace`: the maximal runs of non-white characters, in order.
pub open spec fn words(s: Seq<char>) -> Seq<Seq<char>>
    decreases s.len(),
{
    if s.len() == 0 {
        Seq::empty()
    } else {
        let prev = words(s.drop_last());
        let c = s.last();
        if is_white(c) {
            prev
        } else if s.len() >= 2 && !is_white(s[s.len() - 2]) {
            prev.update(prev.len() - 1, prev.last().push(c))
        } else {
            prev.push(seq![c])
        }
    }
}

proof fn lemma_words_nonempty(s: Seq<char>)
    ensures
        s.len() > 0 && !is_white(s.last()) ==> words(s).len() > 0,
    decreases s.len(),
{
    if s.len() > 0 {
        lemma_words_nonempty(s.drop_last());
    }
}

/// The whitespace-separated words of a text.
pub fn split_whitespace_vec(v: &[char]) -> (r: Vec<Vec<char>>)
    ensures
        seqs_of(r@) == words(v@),
{
    let mut out: Vec<Vec<char>> = Vec::new();
    let mut i: usize = 0;
    while i < v.len()
        invariant
            i <= v.len(),
            seqs_of(out@) == words(v@.take(i as int)),
        decreases v.len() - i,
    {
        let c = v[i];
        let ghost prev = v@.take(i as int);
        assert(v@.take(i + 1).drop_last() =~= prev);
        assert(v@.take(i + 1).last() == c);
        if !char_is_white(c) {
            if i > 0 && !char_is_white(v[i - 1]) {
                proof {
                    assert(prev.last() == v@[i - 1]);
                    lemma_words_nonempty(prev);
                }
                let ghost before = seqs_of(out@);
                let mut last = out.pop().unwrap();
                last.push(c);
                out.push(last);
                assert(seqs_of(out@) =~= before.update(before.len() - 1, before.last().push(c)));
            } else {
                let ghost before = seqs_of(out@);
                let mut w: Vec<char> = Vec::new();
                w.push(c);
                out.push(w);
                assert(seqs_of(out@) =~= before.push(seq![c]));
            }
        }
        i = i + 1;
    }
    assert(v@.take(v.len() as int) =~= v@);
    out
}

/// A probe report's fields: every word after the first split at its first
/// `=`, or the first word that has no `=`.
pub open spec fn report_fields(tokens: Seq<Seq<char>>) -> Result<Seq<(Seq<char>, Seq<char>)>, Seq<char>>
    decreases tokens.len(),
{
    if tokens.len() == 0 {
        Ok(Seq::empty())
    } else {
        match report_fields(tokens.drop_last()) {
            Err(e) => Err(e),
            Ok(fields) => if has_char(tokens.last(), '=') {
                Ok(fields.push((before_first(tokens.last(), '='), after_first(tokens.last(), '='))))
            } else {
                Err("invalid probe token `"@ + tokens.last() + "`"@)
            },
        }
    }
}

/// The words after the first, as `.skip(1)` leaves them.
pub open spec fn skip_first_word(ws: Seq<Seq<char>>) -> Seq<Seq<char>> {
    if ws.len() == 0 {
        ws
    } else {
        ws.drop_first()
    }
}

/// The fields of a probe report line: its words after the leading report name.
pub open spec fn probe_line_fields(line: Seq<char>) -> Result<Seq<(Seq<char>, Seq<char>)>, Seq<char>> {
    report_fields(skip_first_word(words(line)))
}

/// The key and value texts of a list of fields.
pub open spec fn field_views(fields: Seq<(Vec<char>, Vec<char>)>) -> Seq<(Seq<char>, Seq<char>)> {
    fields.map_values(|f: (Vec<char>, Vec<char>)| (f.0@, f.1@))
}

/// Splits the words of a probe report line after the first into `key=value` fields.
pub fn parse_probe_report_fields(line: &str) -> (r: Result<Vec<(Vec<char>, Vec<char>)>, String>)
    ensures
        match (r, probe_line_fields(line@)) {
            (Ok(f), Ok(g)) => field_views(f@) == g,
            (Err(e), Err(d)) => e@ == d,
            _ => false,
        },
{
    let cs = chars_of(line);
    let tokens = split_whitespace_vec(&cs);
    let ghost ts = skip_first_word(seqs_of(tokens@));
    assert(probe_line_fields(line@) == report_fields(ts));
    let mut fields: Vec<(Vec<char>, Vec<char>)> = Vec::new();
    if tokens.len() == 0 {
        assert(field_views(fields@) =~= Seq::<(Seq<char>, Seq<char>)>::empty());
        return Ok(fields);
    }
    assert(ts.take(0) =~= Seq::<Seq<char>>::empty());
    assert(field_views(fields@) =~= Seq::<(Seq<char>, Seq<char>)>::empty());
    let mut i: usize = 1;
    while i < tokens.len()
        invariant
            1 <= i <= tokens.len(),
            probe_line_fields(line@) == report_fields(ts),
            ts.len() == tokens@.len() - 1,
            forall|j: int| 1 <= j < tokens@.len() ==> ts[j - 1] == #[trigger] tokens@[j]@,
            report_fields(ts.take(i - 1)) == Ok::<Seq<(Seq<char>, Seq<char>)>, Seq<char>>(field_views(fields@)),
        decreases tokens.len() - i,
    {
        let ghost prev = ts.take(i - 1);
        assert(ts.take(i as int).drop_last() =~= prev);
        assert(ts[i - 1] == tokens@[i as int]@);
        assert(ts.take(i as int).last() == ts[i - 1]);
        match split_once_vec(&tokens[i], '=') {
            Some((k, v)) => {
                let ghost before = field_views(fields@);
                fields.push((k, v));
                assert(field_views(fields@) =~= before.push((k@, v@)));
            },
            None => {
                let mut msg = "invalid probe token `".to_owned();
                let t = string_of(&tokens[i]);
                msg.append(t.as_str());
                msg.append("`");
                assert(report_fields(ts.take(i as int)) == Err::<Seq<(Seq<char>, Seq<char>)>, Seq<char>>(msg@));
                proof {
                    lemma_report_fields_err_stays(ts, i as int);
                }
                assert(report_fields(ts) == Err::<Seq<(Seq<char>, Seq<char>)>, Seq<char>>(msg@));
                assert(probe_line_fields(line@) == Err::<Seq<(Seq<char>, Seq<char>)>, Seq<char>>(msg@));
                return Err(msg);
            },
        }
        i = i + 1;
    }
    assert(ts.take(tokens.len() - 1) =~= ts);
    Ok(fields)
}

proof fn lemma_report_fields_err_stays(ts: Seq<Seq<char>>, i: int)
    requires
        0 <= i <= ts.len(),
        report_fields(ts.take(i)) is Err,
    ensures
        report_fields(ts) == report_fields(ts.take(i)),
    decreases ts.len() - i,
{
    if i < ts.len() {
        assert(ts.take(i + 1).drop_last() =~= ts.take(i));
        lemma_report_fields_err_stays(ts, i + 1);
    } else {
        assert(ts.take(i) =~= ts);
    }
}

/// The value of the last field named `key`: later fields override earlier ones.
pub open spec fn field_value(fields: Seq<(Seq<char>, Seq<char>)>, key: Seq<char>) -> Option<Seq<char>>
    decreases fields.len(),
{
    if fields.len() == 0 {
        None
    } else if fields.last().0 == key {
        Some(fields.last().1)
    } else {
        field_value(fields.drop_last(), key)
    }
}

/// The message for a field that the report lacks.
pub open spec fn missing_field_message(key: Seq<char>) -> Seq<char> {
    "missing probe field `"@ + key + "`"@
}

/// The value of field `key`, or the missing-field message.
pub fn probe_field_value(fields: &Vec<(Vec<char>, Vec<char>)>, key: &str) -> (r: Result<Vec<char>, String>)
    ensures
        match (r, field_value(field_views(fields@), key@)) {
            (Ok(v), Some(w)) => v@ == w,
            (Err(e), None) => e@ == missing_field_message(key@),
            _ => false,
        },
{
    let k = chars_of(key);
    let mut i: usize = fields.len();
    assert(field_views(fields@).take(i as int) =~= field_views(fields@));
    while i > 0
        invariant
            i <= fields.len(),
            k@ == key@,
            field_value(field_views(fields@), key@) == field_value(field_views(fields@).take(i as int), key@),
        decreases i,
    {
        let ghost pre = field_views(fields@).take(i as int);
        assert(pre.last() == (fields@[i - 1].0@, fields@[i - 1].1@));
        if vec_eq(&fields[i - 1].0, &k) {
            return Ok(crate::text::copy_vec(&fields[i - 1].1));
        }
        assert(pre.drop_last() =~= field_views(fields@).take(i - 1));
        i = i - 1;
    }
    let mut msg = "missing probe field `".to_owned();
    msg.append(key);
    msg.append("`");
    Err(msg)
}

/// Why a decimal text is no `usize`, in the words of `ParseIntError`.
#[derive(Clone, Copy, Debug, PartialEq, Eq, Structural)]
pub enum DecimalParseError {
    /// The text is empty.
    Empty,
    /// A character is not a decimal digit.
    InvalidDigit,
    /// The value is too large for the type.
    PosOverflow,
    /// The value is too small for the type.
    NegOverflow,
}

impl DecimalParseError {
    /// The message of this error, as `ParseIntError` prints it.
    pub fn message(&self) -> (r: &'static str)
        ensures
            r@ == decimal_error_message(*self),
    {
        match self {
            DecimalParseError::Empty => "cannot parse integer from empty string",
            DecimalParseError::InvalidDigit => "invalid digit found in string",
            DecimalParseError::PosOverflow => "number too large to fit in target type",
            DecimalParseError::NegOverflow => "number too small to fit in target type",
        }
    }
}

pub open spec fn decimal_error_message(e: DecimalParseError) -> Seq<char> {
    match e {
        DecimalParseError::Empty => "cannot parse integer from empty string"@,
        DecimalParseError::InvalidDigit => "invalid digit found in string"@,
        DecimalParseError::PosOverflow => "number too large to fit in target type"@,
        DecimalParseError::NegOverflow => "number too small to fit in target type"@,
    }
}

pub open spec fn digit_value(c: char) -> int {
    (c as int) - ('0' as int)
}

/// Reads the digits left to right onto `acc`: the first non-digit is
/// refused, and so is the first digit that takes the value past `max`.
pub open spec fn read_digits(digits: Seq<char>, acc: int, max: int) -> Result<int, DecimalParseError>
    decreases digits.len(),
{
    if digits.len() == 0 {
        Ok(acc)
    } else if !('0' <= digits[0] && digits[0] <= '9') {
        Err(DecimalParseError::InvalidDigit)
    } else if acc * 10 + digit_value(digits[0]) > max {
        Err(DecimalParseError::PosOverflow)
    } else {
        read_digits(digits.drop_first(), acc * 10 + digit_value(digits[0]), max)
    }
}

/// `from_str` of an unsigned integer type whose largest value is `max`: an
/// optional leading `+`, then decimal digits.
pub open spec fn parse_decimal(s: Seq<char>, max: int) -> Result<int, DecimalParseError> {
    if s.len() == 0 {
        Err(DecimalParseError::Empty)
    } else if s[0] == '+' && s.len() == 1 {
        Err(DecimalParseError::InvalidDigit)
    } else if s[0] == '+' {
        read_digits(s.drop_first(), 0, max)
    } else {
        read_digits(s, 0, max)
    }
}

/// Parses a decimal `usize` the way `str::parse::<usize>` does.
pub fn parse_decimal_usize(s: &[char]) -> (r: Result<usize, DecimalParseError>)
    ensures
        match (r, parse_decimal(s@, usize::MAX as int)) {
            (Ok(n), Ok(m)) => n == m,
            (Err(e), Err(f)) => e == f,
            _ => false,
        },
{
    if s.len() == 0 {
        return Err(DecimalParseError::Empty);
    }
    let mut i: usize = 0;
    if s[0] == '+' {
        if s.len() == 1 {
            return Err(DecimalParseError::InvalidDigit);
        }
        i = 1;
    }
    assert(s@.skip(i as int) =~= if s@[0] == '+' { s@.drop_first() } else { s@ });
    let ghost digits = s@.skip(i as int);
    assert(parse_decimal(s@, usize::MAX as int) == read_digits(digits, 0, usize::MAX as int));
    let mut acc: usize = 0;
    while i < s.len()
        invariant
            i <= s.len(),
            parse_decimal(s@, usize::MAX as int) == read_digits(s@.skip(i as int), acc as int, usize::MAX as int),
        decreases s.len() - i,
    {
        let c = s[i];
        let ghost rest = s@.skip(i as int);
        assert(rest[0] == c);
        assert(rest.drop_first() =~= s@.skip(i + 1));
        if !('0' <= c && c <= '9') {
            assert(read_digits(rest, acc as int, usize::MAX as int) == Err::<int, DecimalParseError>(DecimalParseError::InvalidDigit));
            return Err(DecimalParseError::InvalidDigit);
        }
        let d = (c as u32 - '0' as u32) as usize;
        assert(d == digit_value(c));
        if acc > (usize::MAX - d) / 10 {
            assert(acc * 10 + d > usize::MAX) by (nonlinear_arith)
                requires
                    acc > (usize::MAX - d) / 10,
                    d <= 9,
            ;
            assert(read_digits(rest, acc as int, usize::MAX as int) == Err::<int, DecimalParseError>(DecimalParseError::PosOverflow));
            return Err(DecimalParseError::PosOverflow);
        }
        assert(acc * 10 + d <= usize::MAX) by (nonlinear_arith)
            requires
                acc <= (usize::MAX - d) / 10,
                d <= 9,
        ;
        acc = acc * 10 + d;
        i = i + 1;
    }
    assert(s@.skip(i as int).len() == 0);
    Ok(acc)
}

/// Parses a decimal `u64` the way `str::parse::<u64>` does.
pub fn parse_decimal_u64(s: &[char]) -> (r: Result<u64, DecimalParseError>)
    ensures
        match (r, parse_decimal(s@, u64::MAX as int)) {
            (Ok(n), Ok(m)) => n == m,
            (Err(e), Err(f)) => e == f,
            _ => false,
        },
{
    if s.len() == 0 {
        return Err(DecimalParseError::Empty);
    }
    let mut i: usize = 0;
    if s[0] == '+' {
        if s.len() == 1 {
            return Err(DecimalParseError::InvalidDigit);
        }
        i = 1;
    }
    assert(s@.skip(i as int) =~= if s@[0] == '+' { s@.drop_first() } else { s@ });
    let ghost digits = s@.skip(i as int);
    assert(parse_decimal(s@, u64::MAX as int) == read_digits(digits, 0, u64::MAX as int));
    let mut acc: u64 = 0;
    while i < s.len()
        invariant
            i <= s.len(),
            parse_decimal(s@, u64::MAX as int) == read_digits(s@.skip(i as int), acc as int, u64::MAX as int),
        decreases s.len() - i,
    {
        let c = s[i];
        let ghost rest = s@.skip(i as int);
        assert(rest[0] == c);
        assert(rest.drop_first() =~= s@.skip(i + 1));
        if !('0' <= c && c <= '9') {
            assert(read_digits(rest, acc as int, u64::MAX as int) == Err::<int, DecimalParseError>(DecimalParseError::InvalidDigit));
            return Err(DecimalParseError::InvalidDigit);
        }
        let d = (c as u32 - '0' as u32) as u64;
        assert(d == digit_value(c));
        if acc > (u64::MAX - d) / 10 {
            assert(acc * 10 + d > u64::MAX) by (nonlinear_arith)
                requires
                    acc > (u64::MAX - d) / 10,
                    d <= 9,
            ;
            assert(read_digits(rest, acc as int, u64::MAX as int) == Err::<int, DecimalParseError>(DecimalParseError::PosOverflow));
            return Err(DecimalParseError::PosOverflow);
        }
        assert(acc * 10 + d <= u64::MAX) by (nonlinear_arith)
            requires
                acc <= (u64::MAX - d) / 10,
                d <= 9,
        ;
        acc = acc * 10 + d;
        i = i + 1;
    }
    assert(s@.skip(i as int).len() == 0);
    Ok(acc)
}

/// Reads the digits of `s` from `start` on, as `read_digits` with bound `max`.
fn read_digits_u64(s: &[char], start: usize, max: u64) -> (r: Result<u64, DecimalParseError>)
    requires
        start <= s.len(),
    ensures
        r matches Ok(n) ==> n <= max,
        match (r, read_digits(s@.skip(start as int), 0, max as int)) {
            (Ok(n), Ok(m)) => n == m,
            (Err(e), Err(f)) => e == f,
            _ => false,
        },
{
    let mut i = start;
    let mut acc: u64 = 0;
    while i < s.len()
        invariant
            start <= i <= s.len(),
            acc <= max,
            read_digits(s@.skip(start as int), 0, max as int) == read_digits(s@.skip(i as int), acc as int, max as int),
        decreases s.len() - i,
    {
        let c = s[i];
        let ghost rest = s@.skip(i as int);
        assert(rest[0] == c);
        assert(rest.drop_first() =~= s@.skip(i + 1));
        if !('0' <= c && c <= '9') {
            return Err(DecimalParseError::InvalidDigit);
        }
        let d = (c as u32 - '0' as u32) as u64;
        assert(d == digit_value(c));
        if d > max || acc > (max - d) / 10 {
            assert(acc * 10 + d > max) by (nonlinear_arith)
                requires
                    d > max || acc > (max - d) / 10,
                    d <= 9,
            ;
            return Err(DecimalParseError::PosOverflow);
        }
        assert(acc * 10 + d <= max) by (nonlinear_arith)
            requires
                acc <= (max - d) / 10,
                d <= max,
                d <= 9,
        ;
        acc = acc * 10 + d;
        i = i + 1;
    }
    assert(s@.skip(i as int).len() == 0);
    Ok(acc)
}

/// `i64::from_str`: an optional sign, then decimal digits.
pub open spec fn parse_signed_decimal(s: Seq<char>) -> Result<int, DecimalParseError> {
    if s.len() == 0 {
        Err(DecimalParseError::Empty)
    } else if (s[0] == '+' || s[0] == '-') && s.len() == 1 {
        Err(DecimalParseError::InvalidDigit)
    } else if s[0] == '+' {
        read_digits(s.drop_first(), 0, i64::MAX as int)
    } else if s[0] == '-' {
        match read_digits(s.drop_first(), 0, i64::MAX + 1) {
            Ok(m) => Ok(-m),
            Err(DecimalParseError::PosOverflow) => Err(DecimalParseError::NegOverflow),
            Err(e) => Err(e),
        }
    } else {
        read_digits(s, 0, i64::MAX as int)
    }
}

/// Parses a decimal `i64` the way `str::parse::<i64>` does.
pub fn parse_decimal_i64(s: &[char]) -> (r: Result<i64, DecimalParseError>)
    ensures
        match (r, parse_signed_decimal(s@)) {
            (Ok(n), Ok(m)) => n == m,
            (Err(e), Err(f)) => e == f,
            _ => false,
        },
{
    if s.len() == 0 {
        return Err(DecimalParseError::Empty);
    }
    if (s[0] == '+' || s[0] == '-') && s.len() == 1 {
        return Err(DecimalParseError::InvalidDigit);
    }
    if s[0] == '-' {
        assert(s@.skip(1) =~= s@.drop_first());
        match read_digits_u64(s, 1, 9223372036854775808) {
            Ok(m) => {
                if m == 9223372036854775808 {
                    Ok(i64::MIN)
                } else {
                    Ok(-(m as i64))
                }
            },
            Err(DecimalParseError::PosOverflow) => Err(DecimalParseError::NegOverflow),
            Err(e) => Err(e),
        }
    } else {
        let start: usize = if s[0] == '+' { 1 } else { 0 };
        assert(s@.skip(start as int) =~= if s@[0] == '+' { s@.drop_first() } else { s@ });
        match read_digits_u64(s, start, 9223372036854775807) {
            Ok(m) => Ok(m as i64),
            Err(e) => Err(e),
        }
    }
}

/// Reads field `key` as a `usize`.
pub fn parse_usize_field(fields: &Vec<(Vec<char>, Vec<char>)>, key: &str) -> (r: Result<usize, String>)
    ensures
        match field_value(field_views(fields@), key@) {
            None => r matches Err(e) && e@ == missing_field_message(key@),
            Some(v) => match (r, parse_decimal(v, usize::MAX as int)) {
                (Ok(n), Ok(m)) => n == m,
                (Err(e), Err(f)) => e@ == "parse probe field `"@ + key@ + "` as usize: "@
                    + decimal_error_message(f),
                _ => false,
            },
        },
{
    let value = probe_field_value(fields, key)?;
    match parse_decimal_usize(&value) {
        Ok(n) => Ok(n),
        Err(e) => {
            let mut msg = "parse probe field `".to_owned();
            msg.append(key);
            msg.append("` as usize: ");
            msg.append(e.message());
            Err(msg)
        },
    }
}

/// Reads field `key` as a `bool`: exactly `true` or `false`.
pub fn parse_bool_field(fields: &Vec<(Vec<char>, Vec<char>)>, key: &str) -> (r: Result<bool, String>)
    ensures
        match field_value(field_views(fields@), key@) {
            None => r matches Err(e) && e@ == missing_field_message(key@),
            Some(v) => if v == "true"@ {
                r == Ok::<bool, String>(true)
            } else if v == "false"@ {
                r == Ok::<bool, String>(false)
            } else {
                r matches Err(e) && e@ == "parse probe field `"@ + key@ + "` as bool: `"@ + v + "`"@
            },
        },
{
    let value = probe_field_value(fields, key)?;
    if vec_eq(&value, &lit("true")) {
        Ok(true)
    } else if vec_eq(&value, &lit("false")) {
        Ok(false)
    } else {
        let mut msg = "parse probe field `".to_owned();
        msg.append(key);
        msg.append("` as bool: `");
        let v = string_of(&value);
        msg.append(v.as_str());
        msg.append("`");
        Err(msg)
    }
}

/// Reads the GNN backend load flags of a probe report.
pub fn parse_gnn_backend_load_diagnostics(fields: &Vec<(Vec<char>, Vec<char>)>) -> (r: Result<
    WendaoGraphGnnBackendLoadDiagnostics,
    String,
>)
    ensures
        r matches Ok(d) ==> {
            &&& field_value(field_views(fields@), "metal_loaded"@) == Some(if d.metal_loaded { "true"@ } else { "false"@ })
            &&& field_value(field_views(fields@), "cuda_loaded"@) == Some(if d.cuda_loaded { "true"@ } else { "false"@ })
            &&& field_value(field_views(fields@), "amdgpu_loaded"@) == Some(if d.amdgpu_loaded { "true"@ } else { "false"@ })
        },
        r is Err ==> !(field_value(field_views(fields@), "metal_loaded"@) matches Some(v) && (v == "true"@ || v == "false"@))
            || !(field_value(field_views(fields@), "cuda_loaded"@) matches Some(v) && (v == "true"@ || v == "false"@))
            || !(field_value(field_views(fields@), "amdgpu_loaded"@) matches Some(v) && (v == "true"@ || v == "false"@)),
{
    let metal_loaded = parse_bool_field(fields, "metal_loaded")?;
    let cuda_loaded = parse_bool_field(fields, "cuda_loaded")?;
    let amdgpu_loaded = parse_bool_field(fields, "amdgpu_loaded")?;
    Ok(WendaoGraphGnnBackendLoadDiagnostics { metal_loaded, cuda_loaded, amdgpu_loaded })
}

/// The first line of the output that starts with `prefix`.
pub open spec fn first_line_with_prefix(lines: Seq<Seq<char>>, prefix: Seq<char>) -> Option<Seq<char>>
    decreases lines.len(),
{
    if lines.len() == 0 {
        None
    } else if starts_with(lines[0], prefix) {
        Some(lines[0])
    } else {
        first_line_with_prefix(lines.drop_first(), prefix)
    }
}

/// Finds the report line of a probe in its standard output.
pub fn find_probe_report_line(stdout: &str, prefix: &str) -> (r: Result<String, String>)
    ensures
        match (r, first_line_with_prefix(lines_of(stdout@), prefix@)) {
            (Ok(l), Some(m)) => l@ == m,
            (Err(e), None) => e@ == "WendaoGraph host probe did not print `"@ + prefix@ + "`; stdout:\n"@ + stdout@,
            _ => false,
        },
{
    let cs = chars_of(stdout);
    let lines = lines_vec(&cs);
    assert(seqs_of(lines@) == lines_of(stdout@));
    let p = chars_of(prefix);
    let mut i: usize = 0;
    assert(seqs_of(lines@).skip(0) =~= seqs_of(lines@));
    while i < lines.len()
        invariant
            i <= lines.len(),
            p@ == prefix@,
            seqs_of(lines@) == lines_of(stdout@),
            first_line_with_prefix(seqs_of(lines@), prefix@) == first_line_with_prefix(seqs_of(lines@).skip(i as int), prefix@),
        decreases lines.len() - i,
    {
        let ghost rest = seqs_of(lines@).skip(i as int);
        assert(rest[0] == lines@[i as int]@);
        assert(rest.len() > 0);
        if starts_with_vec(&lines[i], &p) {
            assert(first_line_with_prefix(rest, prefix@) == Some(rest[0]));
            let found = string_of(&lines[i]);
            assert(found@ == rest[0]);
            assert(first_line_with_prefix(lines_of(stdout@), prefix@) == Some(found@));
            return Ok(found);
        }
        assert(rest.drop_first() =~= seqs_of(lines@).skip(i + 1));
        i = i + 1;
    }
    let mut msg = "WendaoGraph host probe did not print `".to_owned();
    msg.append(prefix);
    msg.append("`; stdout:\n");
    msg.append(stdout);
    Err(msg)
}

} // verus!
