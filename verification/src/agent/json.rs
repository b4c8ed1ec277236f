//! Reading the JSON arguments of a tool call, which models do not always write well.
use vstd::prelude::*;
use serde_json::Value;
use crate::text::{
    find, find_from, lemma_find_from, opt_view, owned, same, search_from, slice_string, to_chars, trim,
    trimmed,
};

verus! {

/// A value of a JSON object, as far as tool arguments use it.
#[derive(Debug, PartialEq, Eq)]
#[allow(inconsistent_fields)]
pub enum JsonScalar {
    Text { value: String },
    /// A number that is a natural number of 64 bits.
    Natural { value: u64 },
    Flag { value: bool },
    /// Anything else.
    Other,
}

/// The value of a `JsonScalar`.
#[allow(inconsistent_fields)]
pub enum JsonScalarView {
    Text { value: Seq<char> },
    Natural { value: u64 },
    Flag { value: bool },
    Other,
}

impl View for JsonScalar {
    type V = JsonScalarView;

    open spec fn view(&self) -> JsonScalarView {
        match self {
            JsonScalar::Text { value } => JsonScalarView::Text {
                value: value@,
            },
            JsonScalar::Natural { value } => JsonScalarView::Natural {
                value: *value,
            },
            JsonScalar::Flag { value } => JsonScalarView::Flag {
                value: *value,
            },
            JsonScalar::Other => JsonScalarView::Other,
        }
    }
}

impl Clone for JsonScalar {
    fn clone(&self) -> (r: Self)
        ensures
            r@ == self@,
    {
        match self {
            JsonScalar::Text { value } => JsonScalar::Text {
                value: value.clone(),
            },
            JsonScalar::Natural { value } => JsonScalar::Natural {
                value: *value,
            },
            JsonScalar::Flag { value } => JsonScalar::Flag {
                value: *value,
            },
            JsonScalar::Other => JsonScalar::Other,
        }
    }
}

/// A field of a JSON object.
#[derive(Debug, PartialEq, Eq)]
pub struct JsonField {
    pub key: String,
    pub value: JsonScalar,
}

/// The value of a `JsonField`.
pub struct JsonFieldView {
    pub key: Seq<char>,
    pub value: JsonScalarView,
}

impl View for JsonField {
    type V = JsonFieldView;

    open spec fn view(&self) -> JsonFieldView {
        JsonFieldView {
            key: self.key@,
            value: self.value@,
        }
    }
}

impl Clone for JsonField {
    fn clone(&self) -> (r: Self)
        ensures
            r@ == self@,
    {
        JsonField {
            key: self.key.clone(),
            value: self.value.clone(),
        }
    }
}

/// The values of a list of `JsonField`.
pub open spec fn json_field_views(s: Seq<JsonField>) -> Seq<JsonFieldView> {
    Seq::new(s.len(), |i: int| s[i]@)
}

/// Why arguments could not be read.
#[derive(Debug, PartialEq, Eq)]
pub enum JsonError {
    /// The object in the text is not valid JSON, even when repaired.
    BadObject { part: String },
    /// There is no object in the text.
    NoObject { text: String },
}

/// The value of a `JsonError`.
pub enum JsonErrorView {
    BadObject { part: Seq<char> },
    NoObject { text: Seq<char> },
}

impl View for JsonError {
    type V = JsonErrorView;

    open spec fn view(&self) -> JsonErrorView {
        match self {
            JsonError::BadObject { part } => JsonErrorView::BadObject {
                part: part@,
            },
            JsonError::NoObject { text } => JsonErrorView::NoObject {
                text: text@,
            },
        }
    }
}

impl Clone for JsonError {
    fn clone(&self) -> (r: Self)
        ensures
            r@ == self@,
    {
        match self {
            JsonError::BadObject { part } => JsonError::BadObject {
                part: part.clone(),
            },
            JsonError::NoObject { text } => JsonError::NoObject {
                text: text.clone(),
            },
        }
    }
}

/// The values of optional fields.
pub open spec fn opt_fields(fields: Option<Vec<JsonField>>) -> Option<Seq<JsonFieldView>> {
    match fields {
        Some(f) => Some(json_field_views(f@)),
        None => None,
    }
}

/// The value of a result that is a list of fields.
pub open spec fn fields_result(r: Result<Vec<JsonField>, JsonError>) -> Result<
    Seq<JsonFieldView>,
    JsonErrorView,
> {
    match r {
        Ok(f) => Ok(json_field_views(f@)),
        Err(e) => Err(e@),
    }
}

/// The fields of the JSON value that `serde_json::from_str` reads from a text; a value
/// that is no object has none, and `None` stands for a text that is refused.
pub uninterp spec fn json_fields(text: Seq<char>) -> Option<Seq<JsonFieldView>>;

/// `serde_json::from_str` into a `Value`: the top-level fields of an object, each value
/// by its kind. What the text of a JSON object means is left to `serde_json`.
#[verifier::external_body]
fn parse_json(text: &str) -> (r: Option<Vec<JsonField>>)
    ensures
        opt_fields(r) == json_fields(text@),
{
    let object = match serde_json::from_str::<Value>(text).ok()? {
        Value::Object(object) => object,
        _ => serde_json::Map::new(),
    };
    let convert = |value: Value| match value {
        Value::String(value) => JsonScalar::Text { value },
        Value::Bool(value) => JsonScalar::Flag { value },
        Value::Number(n) => n.as_u64().map_or(JsonScalar::Other, |value| JsonScalar::Natural { value }),
        _ => JsonScalar::Other,
    };
    Some(object.into_iter().map(|(key, value)| JsonField { key, value: convert(value) }).collect())
}

// ---------------------------------------------------------------------------
// Fields
// ---------------------------------------------------------------------------

/// The value of a field.
pub open spec fn field_value(fields: Seq<JsonFieldView>, key: Seq<char>) -> Option<JsonScalarView>
    decreases fields.len(),
{
    if fields.len() == 0 {
        None
    } else if fields[0].key == key {
        Some(fields[0].value)
    } else {
        field_value(fields.drop_first(), key)
    }
}

/// The text of a field.
pub open spec fn field_text(fields: Seq<JsonFieldView>, key: Seq<char>) -> Option<Seq<char>> {
    match field_value(fields, key) {
        Some(JsonScalarView::Text { value }) => Some(value),
        _ => None,
    }
}

/// The number of a field.
pub open spec fn field_natural(fields: Seq<JsonFieldView>, key: Seq<char>) -> Option<u64> {
    match field_value(fields, key) {
        Some(JsonScalarView::Natural { value }) => Some(value),
        _ => None,
    }
}

/// The number of a field as a size.
pub open spec fn field_size(fields: Seq<JsonFieldView>, key: Seq<char>) -> Option<usize> {
    match field_natural(fields, key) {
        Some(value) => Some(value as usize),
        None => None,
    }
}

/// The flag of a field.
pub open spec fn field_flag(fields: Seq<JsonFieldView>, key: Seq<char>) -> Option<bool> {
    match field_value(fields, key) {
        Some(JsonScalarView::Flag { value }) => Some(value),
        _ => None,
    }
}

/// The position of a field.
fn field_position(fields: &Vec<JsonField>, key: &str) -> (r: Option<usize>)
    ensures
        match r {
            Some(i) => i < fields@.len() && field_value(json_field_views(fields@), key@) == Some(
                fields@[i as int].value@,
            ),
            None => field_value(json_field_views(fields@), key@) is None,
        },
{
    let ghost all = json_field_views(fields@);
    let mut i: usize = 0;
    proof {
        assert(all.skip(0) =~= all);
    }
    while i < fields.len()
        invariant
            i <= fields@.len(),
            all == json_field_views(fields@),
            field_value(all, key@) == field_value(all.skip(i as int), key@),
        decreases fields.len() - i,
    {
        proof {
            assert(all.skip(i as int)[0] == fields@[i as int]@);
            assert(all.skip(i as int).drop_first() =~= all.skip(i + 1));
        }
        if same(fields[i].key.as_str(), key) {
            return Some(i);
        }
        i += 1;
    }
    None
}

/// The text of a field.
pub fn text_field(fields: &Vec<JsonField>, key: &str) -> (r: Option<String>)
    ensures
        opt_view(r) == field_text(json_field_views(fields@), key@),
{
    match field_position(fields, key) {
        Some(i) => match &fields[i].value {
            JsonScalar::Text { value } => Some(value.clone()),
            _ => None,
        },
        None => None,
    }
}

/// The number of a field.
pub fn natural_field(fields: &Vec<JsonField>, key: &str) -> (r: Option<u64>)
    ensures
        r == field_natural(json_field_views(fields@), key@),
{
    match field_position(fields, key) {
        Some(i) => match &fields[i].value {
            JsonScalar::Natural { value } => Some(*value),
            _ => None,
        },
        None => None,
    }
}

/// The number of a field as a size.
pub fn size_field(fields: &Vec<JsonField>, key: &str) -> (r: Option<usize>)
    ensures
        r == field_size(json_field_views(fields@), key@),
{
    match natural_field(fields, key) {
        Some(value) => Some(value as usize),
        None => None,
    }
}

/// The flag of a field.
pub fn flag_field(fields: &Vec<JsonField>, key: &str) -> (r: Option<bool>)
    ensures
        r == field_flag(json_field_views(fields@), key@),
{
    match field_position(fields, key) {
        Some(i) => match &fields[i].value {
            JsonScalar::Flag { value } => Some(*value),
            _ => None,
        },
        None => None,
    }
}

// ---------------------------------------------------------------------------
// The object in a text
// ---------------------------------------------------------------------------

/// The position of the brace that closes the object that is open at `i` to depth `depth`.
/// Braces in strings do not count, and neither does a character behind a backslash.
pub open spec fn object_end(
    s: Seq<char>,
    i: int,
    depth: int,
    in_string: bool,
    escaped: bool,
) -> Option<int>
    decreases s.len() - i,
{
    if i >= s.len() {
        None
    } else if escaped {
        object_end(s, i + 1, depth, in_string, false)
    } else if s[i] == '\\' {
        object_end(s, i + 1, depth, in_string, true)
    } else if s[i] == '"' {
        object_end(s, i + 1, depth, !in_string, false)
    } else if s[i] == '{' && !in_string {
        object_end(s, i + 1, depth + 1, in_string, false)
    } else if s[i] == '}' && !in_string {
        if depth == 1 {
            Some(i)
        } else {
            object_end(s, i + 1, depth - 1, in_string, false)
        }
    } else {
        object_end(s, i + 1, depth, in_string, false)
    }
}

/// The first complete object in a text, from its opening to its closing brace.
pub open spec fn first_object(s: Seq<char>) -> Option<Seq<char>> {
    match find(s, seq!['{']) {
        Some(start) => match object_end(s, start, 0, false, false) {
            Some(end) => Some(s.subrange(start, end + 1)),
            None => None,
        },
        None => None,
    }
}

/// The first complete object in a text.
pub fn extract_object(text: &str) -> (r: Option<String>)
    ensures
        opt_view(r) == first_object(text@),
{
    let v = to_chars(text);
    let mut brace: Vec<char> = Vec::new();
    brace.push('{');
    proof {
        assert(brace@ =~= seq!['{']);
        lemma_find_from(v@, seq!['{'], 0);
    }
    let start: usize = match search_from(&v, &brace, 0) {
        Some(start) => start,
        None => {
            return None;
        },
    };
    proof {
        assert(v@.subrange(start as int, start + 1)[0] == v@[start as int]);
    }
    let mut depth: usize = 0;
    let mut in_string = false;
    let mut escaped = false;
    let mut i: usize = start;
    while i < v.len()
        invariant
            start <= i <= v@.len(),
            v@ == text@,
            start < v@.len(),
            v@[start as int] == '{',
            find(text@, seq!['{']) == Some(start as int),
            depth <= i - start,
            i == start ==> depth == 0 && !in_string && !escaped,
            i > start ==> depth >= 1,
            object_end(v@, start as int, 0, false, false) == object_end(
                v@,
                i as int,
                depth as int,
                in_string,
                escaped,
            ),
        decreases v.len() - i,
    {
        let c = v[i];
        if escaped {
            escaped = false;
        } else if c == '\\' {
            escaped = true;
        } else if c == '"' {
            in_string = !in_string;
        } else if c == '{' && !in_string {
            depth += 1;
        } else if c == '}' && !in_string {
            if depth == 1 {
                return Some(slice_string(&v, start, i + 1));
            }
            depth -= 1;
        }
        i += 1;
    }
    None
}

proof fn lemma_object_end_append(
    a: Seq<char>,
    b: Seq<char>,
    i: int,
    depth: int,
    in_string: bool,
    escaped: bool,
)
    requires
        0 <= i,
    ensures
        object_end(a, i, depth, in_string, escaped) is Some ==> object_end(
            a + b,
            i,
            depth,
            in_string,
            escaped,
        ) == object_end(a, i, depth, in_string, escaped) && i <= object_end(
            a,
            i,
            depth,
            in_string,
            escaped,
        )->0 < a.len(),
    decreases a.len() - i,
{
    if i < a.len() {
        assert((a + b)[i] == a[i]);
        let c = a[i];
        if escaped {
            lemma_object_end_append(a, b, i + 1, depth, in_string, false);
        } else if c == '\\' {
            lemma_object_end_append(a, b, i + 1, depth, in_string, true);
        } else if c == '"' {
            lemma_object_end_append(a, b, i + 1, depth, !in_string, false);
        } else if c == '{' && !in_string {
            lemma_object_end_append(a, b, i + 1, depth + 1, in_string, false);
        } else if c == '}' && !in_string {
            lemma_object_end_append(a, b, i + 1, depth - 1, in_string, false);
        } else {
            lemma_object_end_append(a, b, i + 1, depth, in_string, false);
        }
    }
}

proof fn lemma_find_append(a: Seq<char>, b: Seq<char>, needle: Seq<char>, from: int)
    requires
        0 <= from,
    ensures
        find_from(a, needle, from) is Some ==> find_from(a + b, needle, from) == find_from(
            a,
            needle,
            from,
        ),
    decreases a.len() + 1 - from,
{
    if from + needle.len() <= a.len() {
        assert((a + b).subrange(from, from + needle.len()) =~= a.subrange(
            from,
            from + needle.len(),
        ));
        lemma_find_append(a, b, needle, from + 1);
    }
}

/// What follows a complete object does not matter: the same object is found.
pub proof fn trailing_text_is_ignored(s: Seq<char>, more: Seq<char>)
    requires
        first_object(s) is Some,
    ensures
        first_object(s + more) == first_object(s),
{
    lemma_find_append(s, more, seq!['{'], 0);
    lemma_find_from(s, seq!['{'], 0);
    let start = find(s, seq!['{'])->0;
    lemma_object_end_append(s, more, start, 0, false, false);
    let end = object_end(s, start, 0, false, false)->0;
    assert((s + more).subrange(start, end + 1) =~= s.subrange(start, end + 1));
}

/// The text with line feeds, carriage returns and tabs inside strings written as escapes.
pub open spec fn repaired(s: Seq<char>, in_string: bool, escaped: bool) -> Seq<char>
    decreases s.len(),
{
    if s.len() == 0 {
        s
    } else {
        let c = s[0];
        let rest = s.drop_first();
        if escaped {
            seq![c] + repaired(rest, in_string, false)
        } else if c == '\\' {
            seq![c] + repaired(rest, in_string, true)
        } else if c == '"' {
            seq![c] + repaired(rest, !in_string, false)
        } else if in_string && c == '\n' {
            seq!['\\', 'n'] + repaired(rest, in_string, false)
        } else if in_string && c == '\r' {
            seq!['\\', 'r'] + repaired(rest, in_string, false)
        } else if in_string && c == '\t' {
            seq!['\\', 't'] + repaired(rest, in_string, false)
        } else {
            seq![c] + repaired(rest, in_string, false)
        }
    }
}

/// Writes line feeds, carriage returns and tabs inside strings as escapes.
pub fn fix_json_strings(json: &str) -> (r: String)
    ensures
        r@ == repaired(json@, false, false),
{
    let v = to_chars(json);
    let mut out = String::new();
    let mut in_string = false;
    let mut escaped = false;
    let mut i: usize = 0;
    proof {
        assert(v@.skip(0) =~= v@);
        assert(out@ + repaired(v@, false, false) =~= repaired(v@, false, false));
    }
    while i < v.len()
        invariant
            i <= v@.len(),
            v@ == json@,
            out@ + repaired(v@.skip(i as int), in_string, escaped) == repaired(
                json@,
                false,
                false,
            ),
        decreases v.len() - i,
    {
        let c = v[i];
        let ghost before = out@;
        let ghost rest = v@.skip(i + 1);
        proof {
            assert(v@.skip(i as int).drop_first() =~= rest);
        }
        if escaped {
            escaped = false;
            out.push(c);
        } else if c == '\\' {
            escaped = true;
            out.push(c);
        } else if c == '"' {
            in_string = !in_string;
            out.push(c);
        } else if in_string && (c == '\n' || c == '\r' || c == '\t') {
            let letter = if c == '\n' {
                'n'
            } else if c == '\r' {
                'r'
            } else {
                't'
            };
            out.push('\\');
            out.push(letter);
            proof {
                let tail = repaired(rest, in_string, escaped);
                assert(before + (seq!['\\', letter] + tail) =~= out@ + tail);
            }
        } else {
            out.push(c);
        }
        proof {
            let tail = repaired(rest, in_string, escaped);
            assert(before + (seq![c] + tail) =~= before.push(c) + tail);
        }
        i += 1;
    }
    proof {
        assert(out@ + repaired(v@.skip(i as int), in_string, escaped) =~= out@);
    }
    out
}

/// Repairing twice is repairing once.
pub proof fn repair_is_idempotent(s: Seq<char>, in_string: bool, escaped: bool)
    ensures
        repaired(repaired(s, in_string, escaped), in_string, escaped) == repaired(
            s,
            in_string,
            escaped,
        ),
    decreases s.len(),
{
    if s.len() > 0 {
        let c = s[0];
        let rest = s.drop_first();
        let out = repaired(s, in_string, escaped);
        if !escaped && in_string && (c == '\n' || c == '\r' || c == '\t') {
            repair_is_idempotent(rest, in_string, false);
            let tail = repaired(rest, in_string, false);
            let letter = out[1];
            assert(out =~= seq!['\\', letter] + tail);
            assert(out.drop_first() =~= seq![letter] + tail);
            assert(out.drop_first().drop_first() =~= tail);
            assert(repaired(out.drop_first(), in_string, true) == seq![letter] + repaired(
                tail,
                in_string,
                false,
            ));
            assert(seq!['\\'] + (seq![letter] + tail) =~= out);
        } else {
            let string_after = if !escaped && c == '"' {
                !in_string
            } else {
                in_string
            };
            let escaped_after = !escaped && c == '\\';
            repair_is_idempotent(rest, string_after, escaped_after);
            let tail = repaired(rest, string_after, escaped_after);
            assert(out =~= seq![c] + tail);
            assert(out.drop_first() =~= tail);
            assert(out[0] == c);
        }
    }
}

/// A text without line feeds, carriage returns and tabs needs no repair.
pub proof fn clean_text_needs_no_repair(s: Seq<char>, in_string: bool, escaped: bool)
    requires
        forall|i: int|
            0 <= i < s.len() ==> (#[trigger] s[i]) != '\n' && s[i] != '\r' && s[i] != '\t',
    ensures
        repaired(s, in_string, escaped) == s,
    decreases s.len(),
{
    if s.len() > 0 {
        let c = s[0];
        let rest = s.drop_first();
        assert forall|i: int| 0 <= i < rest.len() implies (#[trigger] rest[i]) != '\n' && rest[i]
            != '\r' && rest[i] != '\t' by {
            assert(rest[i] == s[i + 1]);
        }
        let string_after = if !escaped && c == '"' {
            !in_string
        } else {
            in_string
        };
        clean_text_needs_no_repair(rest, string_after, !escaped && c == '\\');
        assert(seq![c] + rest =~= s);
    }
}

// ---------------------------------------------------------------------------
// Arguments
// ---------------------------------------------------------------------------

/// What arguments hold, where `read` says what a text is read as: nothing for a blank
/// text, else the whole text as JSON, else the first object in it, else that object with
/// its strings repaired.
pub open spec fn robust_reading(
    text: Seq<char>,
    read: spec_fn(Seq<char>) -> Option<Seq<JsonFieldView>>,
) -> Result<Seq<JsonFieldView>, JsonErrorView> {
    if trimmed(text).len() == 0 {
        Ok(Seq::empty())
    } else {
        match read(text) {
            Some(fields) => Ok(fields),
            None => match first_object(trimmed(text)) {
                Some(part) => match read(part) {
                    Some(fields) => Ok(fields),
                    None => match read(repaired(part, false, false)) {
                        Some(fields) => Ok(fields),
                        None => Err(JsonErrorView::BadObject { part }),
                    },
                },
                None => Err(JsonErrorView::NoObject { text }),
            },
        }
    }
}

/// What arguments hold.
pub open spec fn arguments_fields(text: Seq<char>) -> Result<Seq<JsonFieldView>, JsonErrorView> {
    robust_reading(text, |t: Seq<char>| json_fields(t))
}

/// What arguments hold, where the whole text, the first object in it and that object
/// repaired were read as given. A reading that is not needed may be left out.
pub fn pick_reading(
    arguments: &str,
    whole: Option<Vec<JsonField>>,
    part: Option<Vec<JsonField>>,
    part_repaired: Option<Vec<JsonField>>,
) -> (r: Result<Vec<JsonField>, JsonError>)
    ensures
        trimmed(arguments@).len() == 0 ==> fields_result(r) == Ok::<
            Seq<JsonFieldView>,
            JsonErrorView,
        >(Seq::empty()),
        trimmed(arguments@).len() > 0 ==> match whole {
            Some(f) => r == Ok::<Vec<JsonField>, JsonError>(f),
            None => match first_object(trimmed(arguments@)) {
                None => fields_result(r) == Err::<Seq<JsonFieldView>, JsonErrorView>(
                    JsonErrorView::NoObject { text: arguments@ },
                ),
                Some(object) => match part {
                    Some(f) => r == Ok::<Vec<JsonField>, JsonError>(f),
                    None => match part_repaired {
                        Some(f) => r == Ok::<Vec<JsonField>, JsonError>(f),
                        None => fields_result(r) == Err::<Seq<JsonFieldView>, JsonErrorView>(
                            JsonErrorView::BadObject { part: object },
                        ),
                    },
                },
            },
        },
{
    let text = trim(arguments);
    if to_chars(text.as_str()).len() == 0 {
        let none: Vec<JsonField> = Vec::new();
        proof {
            assert(json_field_views(none@) =~= Seq::empty());
        }
        return Ok(none);
    }
    match whole {
        Some(fields) => Ok(fields),
        None => match extract_object(text.as_str()) {
            None => Err(JsonError::NoObject { text: owned(arguments) }),
            Some(object) => match part {
                Some(fields) => Ok(fields),
                None => match part_repaired {
                    Some(fields) => Ok(fields),
                    None => Err(JsonError::BadObject { part: object }),
                },
            },
        },
    }
}

/// Reads the arguments of a tool call, tolerating text around the object and raw line
/// feeds in strings.
pub fn parse_json_robust(arguments: &str) -> (r: Result<Vec<JsonField>, JsonError>)
    ensures
        fields_result(r) == arguments_fields(arguments@),
{
    let whole = parse_json(arguments);
    if whole.is_some() {
        return pick_reading(arguments, whole, None, None);
    }
    match extract_object(trim(arguments).as_str()) {
        Some(object) => {
            let part = parse_json(object.as_str());
            if part.is_some() {
                return pick_reading(arguments, None, part, None);
            }
            let fixed = parse_json(fix_json_strings(object.as_str()).as_str());
            pick_reading(arguments, None, None, fixed)
        },
        None => pick_reading(arguments, None, None, None),
    }
}

/// The text of a JSON error.
pub open spec fn json_error_text(e: JsonErrorView) -> Seq<char> {
    match e {
        JsonErrorView::BadObject { part } => "failed to parse extracted JSON: "@ + part,
        JsonErrorView::NoObject { text } => "no valid JSON object found in: "@ + text,
    }
}

impl JsonError {
    /// The text of the error.
    pub fn message(&self) -> (r: String)
        ensures
            r@ == json_error_text(self@),
    {
        match self {
            JsonError::BadObject { part } => owned("failed to parse extracted JSON: ").concat(
                part.as_str(),
            ),
            JsonError::NoObject { text } => owned("no valid JSON object found in: ").concat(
                text.as_str(),
            ),
        }
    }
}

} // verus!
