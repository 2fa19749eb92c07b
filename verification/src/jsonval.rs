use vstd::prelude::*;
use crate::strutil::str_eq;

verus! {

broadcast use vstd::std_specs::vec::axiom_vec_index_decreases;

/// A JSON document modelled with plain values. Integers that fit an `i64`
/// are held as `Int`; any other number is held as `Num` with its decimal
/// rendering, so that equality on it is equality of renderings. Objects keep
/// their members in document order; keys are unique in documents produced by
/// a JSON parser, and lookups take the first match.
pub enum JsonValue {
    Null,
    Bool(bool),
    Int(i64),
    Num(String),
    Str(String),
    Arr(Vec<JsonValue>),
    Obj(Vec<(String, JsonValue)>),
}

/// Structural equality of two JSON values, with strings compared by content.
pub open spec fn jeq(a: JsonValue, b: JsonValue) -> bool
    decreases a,
{
    match (a, b) {
        (JsonValue::Null, JsonValue::Null) => true,
        (JsonValue::Bool(x), JsonValue::Bool(y)) => x == y,
        (JsonValue::Int(x), JsonValue::Int(y)) => x == y,
        (JsonValue::Num(x), JsonValue::Num(y)) => x@ == y@,
        (JsonValue::Str(x), JsonValue::Str(y)) => x@ == y@,
        (JsonValue::Arr(x), JsonValue::Arr(y)) => {
            &&& x@.len() == y@.len()
            &&& forall|i: int|
                0 <= i < x@.len() ==> jeq(#[trigger] x@[i], y@[i])
        },
        (JsonValue::Obj(x), JsonValue::Obj(y)) => {
            &&& x@.len() == y@.len()
            &&& forall|i: int|
                0 <= i < x@.len() ==> (#[trigger] x@[i]).0@ == y@[i].0@ && jeq(x@[i].1, y@[i].1)
        },
        _ => false,
    }
}

/// Decides `jeq` on two JSON values.
pub fn json_eq(a: &JsonValue, b: &JsonValue) -> (r: bool)
    ensures
        r == jeq(*a, *b),
    decreases *a,
{
    match a {
        JsonValue::Null => matches!(b, JsonValue::Null),
        JsonValue::Bool(x) => match b {
            JsonValue::Bool(y) => *x == *y,
            _ => false,
        },
        JsonValue::Int(x) => match b {
            JsonValue::Int(y) => *x == *y,
            _ => false,
        },
        JsonValue::Num(x) => match b {
            JsonValue::Num(y) => str_eq(x.as_str(), y.as_str()),
            _ => false,
        },
        JsonValue::Str(x) => match b {
            JsonValue::Str(y) => str_eq(x.as_str(), y.as_str()),
            _ => false,
        },
        JsonValue::Arr(x) => match b {
            JsonValue::Arr(y) => {
                if x.len() != y.len() {
                    return false;
                }
                let n = x.len();
                let mut i: usize = 0;
                while i < n
                    invariant
                        n == x@.len(),
                        n == y@.len(),
                        i <= n,
                        *a == JsonValue::Arr(*x),
                        *b == JsonValue::Arr(*y),
                        forall|j: int| 0 <= j < i ==> jeq(#[trigger] x@[j], y@[j]),
                    decreases n - i,
                {
                    proof {
                        assert(decreases_to!(*a => (*a)->Arr_0));
                        assert((*a)->Arr_0 == *x);
                        assert(decreases_to!(*x => x[i as int]));
                    }
                    if !json_eq(&x[i], &y[i]) {
                        assert(!jeq(*a, *b));
                        return false;
                    }
                    i = i + 1;
                }
                true
            },
            _ => false,
        },
        JsonValue::Obj(x) => match b {
            JsonValue::Obj(y) => {
                if x.len() != y.len() {
                    return false;
                }
                let n = x.len();
                let mut i: usize = 0;
                while i < n
                    invariant
                        n == x@.len(),
                        n == y@.len(),
                        i <= n,
                        *a == JsonValue::Obj(*x),
                        *b == JsonValue::Obj(*y),
                        forall|j: int|
                            0 <= j < i ==> (#[trigger] x@[j]).0@ == y@[j].0@ && jeq(
                                x@[j].1,
                                y@[j].1,
                            ),
                    decreases n - i,
                {
                    proof {
                        assert(decreases_to!(*a => (*a)->Obj_0));
                        assert((*a)->Obj_0 == *x);
                        assert(decreases_to!(*x => x[i as int]));
                        assert(decreases_to!(x[i as int] => x[i as int].1));
                    }
                    if !str_eq(x[i].0.as_str(), y[i].0.as_str()) {
                        assert(!jeq(*a, *b));
                        return false;
                    }
                    if !json_eq(&x[i].1, &y[i].1) {
                        assert(!jeq(*a, *b));
                        return false;
                    }
                    i = i + 1;
                }
                true
            },
            _ => false,
        },
    }
}

/// The first member of `fields` whose key reads `key`, if any.
pub open spec fn spec_obj_get(fields: Seq<(String, JsonValue)>, key: Seq<char>) -> Option<
    JsonValue,
>
    decreases fields.len(),
{
    if fields.len() == 0 {
        None
    } else if fields.first().0@ == key {
        Some(fields.first().1)
    } else {
        spec_obj_get(fields.drop_first(), key)
    }
}

/// Whether every character of `s` is a decimal digit.
pub open spec fn spec_all_digits(s: Seq<char>) -> bool {
    s.len() > 0 && forall|i: int| 0 <= i < s.len() ==> '0' <= #[trigger] s[i] <= '9'
}

/// The number read from a sequence of decimal digit characters.
pub open spec fn spec_digits_value(s: Seq<char>) -> int
    decreases s.len(),
{
    if s.len() == 0 {
        0
    } else {
        spec_digits_value(s.drop_last()) * 10 + (s.last() as int - '0' as int)
    }
}

/// Parses a dot-path segment as an array index: accepted exactly when the
/// segment is all digits and its value fits a `usize`.
pub open spec fn spec_index_of(s: Seq<char>) -> Option<int> {
    if spec_all_digits(s) && spec_digits_value(s) <= usize::MAX {
        Some(spec_digits_value(s))
    } else {
        None
    }
}

/// One step of dot-path navigation: a key into an object, or an index into
/// an array when the segment is numeric.
pub open spec fn spec_nav(v: JsonValue, seg: Seq<char>) -> Option<JsonValue> {
    match v {
        JsonValue::Obj(fields) => spec_obj_get(fields@, seg),
        JsonValue::Arr(items) => match spec_index_of(seg) {
            Some(i) => if i < items@.len() {
                Some(items@[i])
            } else {
                None
            },
            None => None,
        },
        _ => None,
    }
}

/// Number of leading characters of `path` before its first `.`;
/// the length of `path` when it holds no dot.
pub open spec fn spec_first_dot(path: Seq<char>) -> nat
    decreases path.len(),
{
    if path.len() == 0 {
        0
    } else if path.first() == '.' {
        0
    } else {
        1 + spec_first_dot(path.drop_first())
    }
}

proof fn lemma_first_dot(path: Seq<char>)
    ensures
        spec_first_dot(path) <= path.len(),
        forall|j: int| 0 <= j < spec_first_dot(path) ==> path[j] != '.',
        spec_first_dot(path) < path.len() ==> path[spec_first_dot(path) as int] == '.',
    decreases path.len(),
{
    if path.len() > 0 && path.first() != '.' {
        let rest = path.drop_first();
        lemma_first_dot(rest);
        assert(forall|j: int|
            1 <= j < spec_first_dot(path) ==> (#[trigger] path[j]) == rest[j - 1]);
    }
}

/// The characterization the scanning loop establishes pins `spec_first_dot`.
proof fn lemma_first_dot_at(path: Seq<char>, k: int)
    requires
        0 <= k <= path.len(),
        forall|j: int| 0 <= j < k ==> path[j] != '.',
        k < path.len() ==> path[k] == '.',
    ensures
        spec_first_dot(path) == k,
    decreases path.len(),
{
    if path.len() == 0 {
    } else if path.first() == '.' {
        assert(k == 0);
    } else {
        assert(k >= 1);
        let rest = path.drop_first();
        assert(forall|j: int| 0 <= j < k - 1 ==> rest[j] != '.');
        lemma_first_dot_at(rest, k - 1);
    }
}

/// What a dot-path names inside a value, `None` when absent.
/// The path is its segments separated by `.`; each segment is applied by
/// `spec_nav` in turn.
pub open spec fn spec_dot_get(v: JsonValue, path: Seq<char>) -> Option<JsonValue>
    decreases path.len(),
{
    let i = spec_first_dot(path);
    if i >= path.len() {
        spec_nav(v, path)
    } else {
        match spec_nav(v, path.subrange(0, i as int)) {
            Some(child) => spec_dot_get(child, path.subrange(i as int + 1, path.len() as int)),
            None => None,
        }
    }
}

/// Index of the first `.` of `path`, or its length when it holds none.
fn first_dot(path: &str) -> (r: usize)
    ensures
        r == spec_first_dot(path@),
{
    let n = path.unicode_len();
    let mut i: usize = 0;
    while i < n
        invariant
            n == path@.len(),
            i <= n,
            forall|j: int| 0 <= j < i ==> path@[j] != '.',
        decreases n - i,
    {
        if path.get_char(i) == '.' {
            proof {
                lemma_first_dot_at(path@, i as int);
            }
            return i;
        }
        i = i + 1;
    }
    proof {
        lemma_first_dot_at(path@, n as int);
    }
    n
}

proof fn lemma_digits_value_nonneg(s: Seq<char>)
    requires
        forall|i: int| 0 <= i < s.len() ==> '0' <= #[trigger] s[i] <= '9',
    ensures
        spec_digits_value(s) >= 0,
    decreases s.len(),
{
    if s.len() > 0 {
        lemma_digits_value_nonneg(s.drop_last());
    }
}

/// The value of a digit prefix never exceeds the value of the whole.
proof fn lemma_digits_value_mono(s: Seq<char>, i: int)
    requires
        0 <= i <= s.len(),
        forall|j: int| 0 <= j < s.len() ==> '0' <= #[trigger] s[j] <= '9',
    ensures
        spec_digits_value(s.subrange(0, i)) <= spec_digits_value(s),
    decreases s.len() - i,
{
    if i == s.len() {
        assert(s.subrange(0, i) =~= s);
    } else {
        let t = s.subrange(0, i + 1);
        assert(t.drop_last() =~= s.subrange(0, i));
        lemma_digits_value_nonneg(s.subrange(0, i));
        assert(spec_digits_value(s.subrange(0, i)) <= spec_digits_value(t));
        lemma_digits_value_mono(s, i + 1);
    }
}

/// Parses a dot-path segment as an array index.
fn parse_index(seg: &str) -> (r: Option<usize>)
    ensures
        match r {
            Some(u) => spec_index_of(seg@) == Some(u as int),
            None => spec_index_of(seg@) is None,
        },
{
    let n = seg.unicode_len();
    if n == 0 {
        return None;
    }
    let mut acc: usize = 0;
    let mut i: usize = 0;
    while i < n
        invariant
            n == seg@.len(),
            i <= n,
            forall|j: int| 0 <= j < i ==> '0' <= #[trigger] seg@[j] <= '9',
            acc == spec_digits_value(seg@.subrange(0, i as int)),
        decreases n - i,
    {
        let c = seg.get_char(i);
        if c < '0' || c > '9' {
            assert(!spec_all_digits(seg@));
            return None;
        }
        let d: usize = ((c as u32) - ('0' as u32)) as usize;
        assert(d <= 9);
        proof {
            assert(seg@.subrange(0, i + 1).drop_last() =~= seg@.subrange(0, i as int));
        }
        if acc > usize::MAX / 10 {
            proof {
                lemma_digits_value_nonneg(seg@.subrange(0, i as int));
                if spec_all_digits(seg@) {
                    lemma_digits_value_mono(seg@, i + 1);
                }
            }
            return None;
        }
        let t = acc * 10;
        if d > usize::MAX - t {
            proof {
                if spec_all_digits(seg@) {
                    lemma_digits_value_mono(seg@, i + 1);
                }
            }
            return None;
        }
        acc = t + d;
        i = i + 1;
    }
    proof {
        assert(seg@.subrange(0, n as int) =~= seg@);
        assert(spec_all_digits(seg@));
    }
    Some(acc)
}

/// Looks a key up among an object's members, first match wins.
fn obj_get<'a>(fields: &'a Vec<(String, JsonValue)>, key: &str) -> (r: Option<&'a JsonValue>)
    ensures
        match r {
            Some(c) => spec_obj_get(fields@, key@) == Some(*c),
            None => spec_obj_get(fields@, key@) is None,
        },
{
    let n = fields.len();
    let mut i: usize = 0;
    while i < n
        invariant
            n == fields@.len(),
            i <= n,
            forall|j: int| 0 <= j < i ==> (#[trigger] fields@[j]).0@ != key@,
        decreases n - i,
    {
        if str_eq(fields[i].0.as_str(), key) {
            proof {
                lemma_obj_get_at(fields@, key@, i as int);
            }
            return Some(&fields[i].1);
        }
        i = i + 1;
    }
    proof {
        lemma_obj_get_none(fields@, key@);
    }
    None
}

proof fn lemma_obj_get_at(fields: Seq<(String, JsonValue)>, key: Seq<char>, k: int)
    requires
        0 <= k < fields.len(),
        forall|j: int| 0 <= j < k ==> (#[trigger] fields[j]).0@ != key,
        fields[k].0@ == key,
    ensures
        spec_obj_get(fields, key) == Some(fields[k].1),
    decreases fields.len(),
{
    if k > 0 {
        let rest = fields.drop_first();
        assert(forall|j: int| 0 <= j < k - 1 ==> (#[trigger] rest[j]).0@ != key);
        lemma_obj_get_at(rest, key, k - 1);
    }
}

proof fn lemma_obj_get_none(fields: Seq<(String, JsonValue)>, key: Seq<char>)
    requires
        forall|j: int| 0 <= j < fields.len() ==> (#[trigger] fields[j]).0@ != key,
    ensures
        spec_obj_get(fields, key) is None,
    decreases fields.len(),
{
    if fields.len() > 0 {
        lemma_obj_get_none(fields.drop_first(), key);
    }
}

/// One navigation step on a value.
fn jv_nav<'a>(v: &'a JsonValue, seg: &str) -> (r: Option<&'a JsonValue>)
    ensures
        match r {
            Some(c) => spec_nav(*v, seg@) == Some(*c),
            None => spec_nav(*v, seg@) is None,
        },
{
    match v {
        JsonValue::Obj(fields) => obj_get(fields, seg),
        JsonValue::Arr(items) => {
            match parse_index(seg) {
                Some(i) => {
                    if i < items.len() {
                        Some(&items[i])
                    } else {
                        None
                    }
                },
                None => None,
            }
        },
        _ => None,
    }
}

/// What a dot-path names inside a value, `None` when the path is absent.
pub fn jv_get<'a>(v: &'a JsonValue, path: &'a str) -> (r: Option<&'a JsonValue>)
    ensures
        match r {
            Some(c) => spec_dot_get(*v, path@) == Some(*c),
            None => spec_dot_get(*v, path@) is None,
        },
    decreases path@.len(),
{
    let n = path.unicode_len();
    let i = first_dot(path);
    proof {
        lemma_first_dot(path@);
    }
    if i >= n {
        jv_nav(v, path)
    } else {
        let seg = path.substring_char(0, i);
        match jv_nav(v, seg) {
            Some(child) => {
                let rest = path.substring_char(i + 1, n);
                jv_get(child, rest)
            },
            None => None,
        }
    }
}

/// The text a JSON value contributes to a chapter field: the content of a
/// string, the decimal rendering of an integer, nothing for any other kind.
pub open spec fn spec_jv_string(v: JsonValue) -> Option<Seq<char>> {
    match v {
        JsonValue::Str(s) => Some(s@),
        JsonValue::Int(n) => Some(crate::strutil::spec_i64_str(n as int)),
        _ => None,
    }
}

/// Renders a value as chapter-field text, as `spec_jv_string` says.
pub fn jv_to_text(v: &JsonValue) -> (r: Option<String>)
    ensures
        match r {
            Some(s) => spec_jv_string(*v) == Some(s@),
            None => spec_jv_string(*v) is None,
        },
{
    match v {
        JsonValue::Str(s) => Some(s.clone()),
        JsonValue::Int(n) => Some(crate::strutil::i64_to_string(*n)),
        _ => None,
    }
}

} // verus!
