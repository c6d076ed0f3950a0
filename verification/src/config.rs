//! Parsing rules behind the command-line configuration: the on/off
//! spelling shared with request fields, counts, model specs and API keys.

use vstd::prelude::*;

use crate::text::{
    chars_eq_str, chars_of, find_char, first_index_of, last_index_of, lower_all, rfind_char, lowered_range, owned,
    string_from_chars, string_from_range, string_views, trim, trim_bounds, trimmed, opt_string_view,
};

verus! {

/// The value a `toggle` spelling stands for, if it is one: `on`, `true`,
/// `1`, `yes` or `off`, `false`, `0`, `no`, in any ASCII case and with
/// surrounding whitespace ignored.
pub open spec fn spec_toggle_word(w: Seq<char>) -> Option<bool> {
    if w == "on"@ || w == "true"@ || w == "1"@ || w == "yes"@ {
        Some(true)
    } else if w == "off"@ || w == "false"@ || w == "0"@ || w == "no"@ {
        Some(false)
    } else {
        None
    }
}

/// What `toggle` answers for `s`.
pub open spec fn spec_toggle(s: Seq<char>) -> Result<bool, Seq<char>> {
    let w = lower_all(trim(s));
    match spec_toggle_word(w) {
        Some(b) => Ok(b),
        None => Err("expected on or off, got: "@ + w),
    }
}

/// The one spelling of a boolean knob in this server: the CLI value parser
/// and the equivalent request fields share it, so `--pnc off` and
/// `-F pnc=off` accept exactly the same words.
pub fn toggle(s: &str) -> (r: Result<bool, String>)
    ensures
        match (r, spec_toggle(s@)) {
            (Ok(b), Ok(c)) => b == c,
            (Err(m), Err(n)) => m@ == n,
            _ => false,
        },
{
    let v = chars_of(s);
    let (lo, hi) = trim_bounds(&v);
    let w = lowered_range(&v, lo, hi);
    if chars_eq_str(&w, "on") || chars_eq_str(&w, "true") || chars_eq_str(&w, "1")
        || chars_eq_str(&w, "yes") {
        Ok(true)
    } else if chars_eq_str(&w, "off") || chars_eq_str(&w, "false") || chars_eq_str(&w, "0")
        || chars_eq_str(&w, "no") {
        Ok(false)
    } else {
        let mut m = owned("expected on or off, got: ");
        let shown = string_from_chars(&w);
        m.append(shown.as_str());
        Err(m)
    }
}

/// Whether `c` is an ASCII digit.
pub open spec fn is_digit(c: char) -> bool {
    '0' <= c && c <= '9'
}

/// Value of a string of decimal digits.
pub open spec fn digits_value(s: Seq<char>) -> nat
    decreases s.len(),
{
    if s.len() == 0 {
        0
    } else {
        digits_value(s.drop_last()) * 10 + ((s.last() as u32) - 48) as nat
    }
}

/// What `str::parse::<usize>` accepts: an optional `+`, then one or more
/// decimal digits whose value fits in `usize`.
pub open spec fn spec_parse_usize(s: Seq<char>) -> Option<nat> {
    let body = unsigned_body(s);
    if body.len() > 0 && all_digits(body) && digits_value(body) <= usize::MAX {
        Some(digits_value(body))
    } else {
        None
    }
}

/// `s` without one leading `+`.
pub open spec fn unsigned_body(s: Seq<char>) -> Seq<char> {
    if s.len() > 0 && s[0] == '+' { s.drop_first() } else { s }
}

/// Whether every character of `s` is a decimal digit.
pub open spec fn all_digits(s: Seq<char>) -> bool {
    forall|i: int| 0 <= i < s.len() ==> is_digit(#[trigger] s[i])
}

proof fn lemma_digits_value_grows(s: Seq<char>, k: int)
    requires
        0 <= k <= s.len(),
        forall|i: int| 0 <= i < s.len() ==> is_digit(#[trigger] s[i]),
    ensures
        digits_value(s.take(k)) <= digits_value(s),
    decreases s.len() - k,
{
    if k < s.len() {
        lemma_digits_value_grows(s, k + 1);
        assert(s.take(k + 1).drop_last() == s.take(k));
    } else {
        assert(s.take(k) == s);
    }
}

/// `str::parse::<usize>`.
pub fn parse_usize(s: &str) -> (r: Option<usize>)
    ensures
        match spec_parse_usize(s@) {
            Some(n) => r == Some(n as usize),
            None => r is None,
        },
{
    let v = chars_of(s);
    let start: usize = if v.len() > 0 && v[0] == '+' {
        1
    } else {
        0
    };
    let ghost body = v@.subrange(start as int, v@.len() as int);
    assert(body == unsigned_body(s@));
    if start >= v.len() {
        return None;
    }
    let mut value: usize = 0;
    let mut i = start;
    while i < v.len()
        invariant
            start <= i <= v.len(),
            v@ == s@,
            body == unsigned_body(s@),
            body.len() > 0,
            body == v@.subrange(start as int, v@.len() as int),
            forall|k: int| 0 <= k < i - start ==> is_digit(#[trigger] body[k]),
            value == digits_value(body.take(i - start)),
        decreases v.len() - i,
    {
        let c = v[i];
        assert(body[i - start] == c);
        assert(body.take(i - start + 1).drop_last() == body.take(i - start));
        if !('0' <= c && c <= '9') {
            assert(!is_digit(body[i - start]));
            assert(!all_digits(body));
            assert(spec_parse_usize(s@) is None);
            return None;
        }
        let d = (c as u32 - 48) as usize;
        if value > (usize::MAX - d) / 10 {
            proof {
                assert(value * 10 + d > usize::MAX) by (nonlinear_arith)
                    requires value > (usize::MAX - d) / 10, d <= 9;
                assert(digits_value(body.take(i - start + 1)) == value * 10 + d);
                if all_digits(body) {
                    lemma_digits_value_grows(body, i - start + 1);
                }
                assert(spec_parse_usize(s@) is None);
            }
            return None;
        }
        assert(value * 10 + d <= usize::MAX) by (nonlinear_arith)
            requires value <= (usize::MAX - d) / 10, d <= 9;
        value = value * 10 + d;
        i += 1;
    }
    assert(body.take(body.len() as int) == body);
    Some(value)
}

/// What `at_least_one` answers for `s`.
pub open spec fn spec_at_least_one(s: Seq<char>) -> Result<nat, Seq<char>> {
    match spec_parse_usize(s) {
        None => Err("invalid number: "@ + s),
        Some(v) => if v >= 1 { Ok(v) } else { Err("must be at least 1"@) },
    }
}

/// Value parser for counts that must be positive (`--parallel`).
pub fn at_least_one(s: &str) -> (r: Result<usize, String>)
    ensures
        match (r, spec_at_least_one(s@)) {
            (Ok(v), Ok(w)) => v == w,
            (Err(m), Err(n)) => m@ == n,
            _ => false,
        },
{
    match parse_usize(s) {
        None => {
            let mut m = owned("invalid number: ");
            m.append(s);
            Err(m)
        },
        Some(v) => if v >= 1 {
            Ok(v)
        } else {
            Err(owned("must be at least 1"))
        },
    }
}

/// A model to load: user-facing alias plus path to the model file.
#[derive(Debug, Clone)]
pub struct ModelSpec {
    pub alias: String,
    pub path: String,
}

/// What `std::path::Path::file_name` gives for `path`: its final
/// component, or None when the path has none (it ends in `..`, or is a root
/// or prefix alone).
pub uninterp spec fn spec_file_name(path: Seq<char>) -> Option<Seq<char>>;

/// `Path::new(path).file_name()`, converted to a `String` (lossless for a
/// path that came from a `str`). Claims only that the answer is a function
/// of `path`.
#[verifier::external_body]
fn file_name(path: &str) -> (r: Option<String>)
    ensures
        opt_string_view(r) == spec_file_name(path@),
{
    std::path::Path::new(path).file_name().map(|s| s.to_string_lossy().into_owned())
}

/// The stem of a file name, as `Path::file_stem` documents it: the whole
/// name when it has no `.`, or its only `.` is the first character (or it
/// is `..`); otherwise the part before the final `.`.
pub open spec fn stem_of(name: Seq<char>) -> Seq<char> {
    if name == ".."@ {
        name
    } else {
        match last_index_of(name, '.') {
            Some(i) => if i == 0 { name } else { name.take(i) },
            None => name,
        }
    }
}

/// See [`stem_of`].
pub fn file_stem_of(name: &str) -> (r: String)
    ensures
        r@ == stem_of(name@),
{
    let v = chars_of(name);
    if chars_eq_str(&v, "..") {
        return owned(name);
    }
    match rfind_char(&v, '.') {
        Some(i) => if i == 0 {
            owned(name)
        } else {
            let stem = string_from_range(&v, 0, i);
            assert(v@.subrange(0, i as int) == name@.take(i as int));
            stem
        },
        None => owned(name),
    }
}

/// The spec a `--model` value stands for, as (alias, path): `alias=path`
/// splits at the first `=`; a bare path uses its file stem as the alias, or
/// the whole value when it has no file name.
pub open spec fn spec_model_spec(m: Seq<char>) -> (Seq<char>, Seq<char>) {
    match first_index_of(m, '=') {
        Some(i) => (m.take(i), m.skip(i + 1)),
        None => match spec_file_name(m) {
            Some(name) => (stem_of(name), m),
            None => (m, m),
        },
    }
}

/// Parse one `--model` value (see [`spec_model_spec`]).
pub fn model_spec(m: &str) -> (r: ModelSpec)
    ensures
        (r.alias@, r.path@) == spec_model_spec(m@),
{
    let v = chars_of(m);
    match find_char(&v, '=') {
        Some(i) => {
            let alias = string_from_range(&v, 0, i);
            let path = string_from_range(&v, i + 1, v.len());
            assert(v@.subrange(0, i as int) == m@.take(i as int));
            assert(v@.subrange(i + 1, v@.len() as int) == m@.skip(i + 1));
            ModelSpec { alias, path }
        },
        None => {
            assert(first_index_of(m@, '=') is None);
            bare_path_spec(m, file_name(m))
        },
    }
}

/// The spec for a `--model` value that is a bare path whose file name is
/// `name`: the name's stem is the alias, or the whole value when there is
/// no file name.
pub fn bare_path_spec(path: &str, name: Option<String>) -> (r: ModelSpec)
    ensures
        r.path@ == path@,
        r.alias@ == match name {
            Some(n) => stem_of(n@),
            None => path@,
        },
{
    let alias = match name {
        Some(n) => file_stem_of(n.as_str()),
        None => owned(path),
    };
    ModelSpec { alias, path: owned(path) }
}

/// Parse `--model` values: "alias=path" keeps the alias, a bare "path" uses
/// the file stem as the alias. One spec per value, in order.
pub fn model_specs(models: &Vec<String>) -> (r: Vec<ModelSpec>)
    ensures
        r@.len() == models@.len(),
        forall|i: int|
            0 <= i < r@.len() ==> (#[trigger] r@[i].alias@, r@[i].path@) == spec_model_spec(
                models@[i]@,
            ),
{
    let mut r: Vec<ModelSpec> = Vec::new();
    let mut i: usize = 0;
    while i < models.len()
        invariant
            i <= models.len(),
            r@.len() == i,
            forall|k: int|
                0 <= k < i ==> (#[trigger] r@[k].alias@, r@[k].path@) == spec_model_spec(
                    models@[k]@,
                ),
        decreases models.len() - i,
    {
        r.push(model_spec(models[i].as_str()));
        i += 1;
    }
    r
}

/// Keys listed in a key file's lines: each line trimmed, empty ones skipped.
pub open spec fn file_keys(lines: Seq<Seq<char>>) -> Seq<Seq<char>>
    decreases lines.len(),
{
    if lines.len() == 0 {
        Seq::empty()
    } else {
        let init = file_keys(lines.drop_last());
        let key = trim(lines.last());
        if key.len() == 0 { init } else { init.push(key) }
    }
}

/// All API keys: the `--api-key` flags, then the keys on the lines of
/// `--api-key-file`, trimmed, empty lines skipped.
pub fn merge_api_keys(flags: &Vec<String>, lines: &Vec<String>) -> (keys: Vec<String>)
    ensures
        string_views(keys@) == string_views(flags@) + file_keys(string_views(lines@)),
{
    let mut keys = crate::text::copy_strings(flags);
    let mut i: usize = 0;
    while i < lines.len()
        invariant
            i <= lines.len(),
            string_views(keys@) == string_views(flags@) + file_keys(string_views(lines@.take(i as int))),
        decreases lines.len() - i,
    {
        assert(string_views(lines@.take(i + 1)).drop_last() == string_views(lines@.take(i as int)));
        assert(string_views(lines@.take(i + 1)).last() == lines@[i as int]@);
        let key = trimmed(lines[i].as_str());
        if key.as_str().is_empty() {
        } else {
            let ghost before = keys@;
            keys.push(key);
            assert(string_views(keys@) =~= string_views(before).push(key@));
            assert(file_keys(string_views(lines@.take(i + 1))) == file_keys(string_views(lines@.take(i as int))).push(key@));
            assert(string_views(keys@) =~= string_views(flags@) + file_keys(string_views(lines@.take(i + 1))));
        }
        i += 1;
    }
    assert(lines@.take(lines.len() as int) == lines@);
    keys
}

} // verus!
