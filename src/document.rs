//! The already-parsed configuration document: a tree of tables, arrays and
//! scalar values, as produced by a TOML reader.
use vstd::prelude::*;
use crate::text::join2;

verus! {

/// One value of the configuration document.
pub enum Value {
    String(String),
    Integer(i64),
    /// A floating-point number; its value is never read by the library.
    Float,
    Boolean(bool),
    /// A date or time; its value is never read by the library.
    Datetime,
    Array(Vec<Value>),
    Table(Table),
}

/// A table of the document: keys in document order, each bound to a value.
pub struct Table {
    pub entries: Vec<(String, Value)>,
}

/// The value bound to `key` in `entries`: the first entry with that key.
pub open spec fn lookup(entries: Seq<(String, Value)>, key: Seq<char>) -> Option<Value>
    decreases entries.len(),
{
    if entries.len() == 0 {
        None
    } else if entries[0].0@ == key {
        Some(entries[0].1)
    } else {
        lookup(entries.drop_first(), key)
    }
}

/// Whether no two entries of `t` share a key, as in any parsed document.
pub open spec fn distinct_keys(t: Table) -> bool {
    forall|i: int, j: int| 0 <= i < j < t.entries@.len() ==> (#[trigger] t.entries@[i]).0@ != (#[trigger] t.entries@[j]).0@
}

/// The views of a list of strings.
pub open spec fn views(v: Seq<String>) -> Seq<Seq<char>> {
    v.map_values(|s: String| s@)
}

/// Whether every element of `items` is a string.
pub open spec fn all_strings(items: Seq<Value>) -> bool {
    forall|i: int| 0 <= i < items.len() ==> (#[trigger] items[i]) is String
}

/// The text of each element of `items`, all of which are strings.
pub open spec fn string_items(items: Seq<Value>) -> Seq<Seq<char>> {
    items.map_values(|v: Value| v->String_0@)
}

/// The error code of a failed result.
pub open spec fn fails_with<T>(r: Result<T, (String, u8)>, code: u8) -> bool {
    r matches Err(e) && e.1 == code
}

pub open spec fn kind_name(v: Value) -> Seq<char> {
    match v {
        Value::String(_) => "string"@,
        Value::Integer(_) => "integer"@,
        Value::Float => "float"@,
        Value::Boolean(_) => "boolean"@,
        Value::Datetime => "datetime"@,
        Value::Array(_) => "array"@,
        Value::Table(_) => "table"@,
    }
}

impl Value {
    /// The name of this value's kind, as used in error messages.
    pub fn type_str(&self) -> (r: &'static str)
        ensures
            r@ == kind_name(*self),
    {
        match self {
            Value::String(_) => "string",
            Value::Integer(_) => "integer",
            Value::Float => "float",
            Value::Boolean(_) => "boolean",
            Value::Datetime => "datetime",
            Value::Array(_) => "array",
            Value::Table(_) => "table",
        }
    }
}

impl Table {
    pub fn new() -> (r: Table)
        ensures
            r.entries@.len() == 0,
    {
        Table { entries: Vec::new() }
    }

    pub open spec fn get_spec(&self, key: Seq<char>) -> Option<Value> {
        lookup(self.entries@, key)
    }

    /// The value bound to `key`, if any.
    pub fn get(&self, key: &str) -> (r: Option<&Value>)
        ensures
            match r {
                Some(v) => self.get_spec(key@) == Some(*v),
                None => self.get_spec(key@) is None,
            },
    {
        let wanted = String::from_str(key);
        let mut i: usize = 0;
        assert(self.entries@.subrange(0, self.entries@.len() as int) =~= self.entries@);
        while i < self.entries.len()
            invariant
                wanted@ == key@,
                i <= self.entries.len(),
                lookup(self.entries@, key@) == lookup(self.entries@.subrange(i as int, self.entries@.len() as int), key@),
            decreases self.entries.len() - i,
        {
            let ghost rest = self.entries@.subrange(i as int, self.entries@.len() as int);
            assert(rest.drop_first() =~= self.entries@.subrange(i + 1, self.entries@.len() as int));
            if self.entries[i].0 == wanted {
                assert(rest[0] == self.entries@[i as int]);
                return Some(&self.entries[i].1);
            }
            i = i + 1;
        }
        None
    }
}

/// "Mismatched type for "`key`", expected `expected`, found `found`".
fn mismatch(key: &str, expected: &str, found: &Value) -> (r: String) {
    let s = join2("Mismatched type for \"", key);
    let s = s.concat("\", expected ");
    let s = s.concat(expected);
    let s = s.concat(", found ");
    s.concat(found.type_str())
}

fn missing(key: &str) -> (r: String) {
    join2("Missing key ", key)
}

/// The string bound to `key`.
pub fn read_string(key: &str, table: &Table) -> (r: Result<String, (String, u8)>)
    ensures
        match table.get_spec(key@) {
            Some(Value::String(s)) => r matches Ok(x) && x@ == s@,
            Some(_) => fails_with(r, 11),
            None => fails_with(r, 10),
        },
{
    match table.get(key) {
        Some(Value::String(s)) => Ok(s.clone()),
        Some(v) => Err((mismatch(key, "a string", v), 11)),
        None => Err((missing(key), 10)),
    }
}

/// The boolean bound to `key`.
pub fn read_boolean(key: &str, table: &Table) -> (r: Result<bool, (String, u8)>)
    ensures
        match table.get_spec(key@) {
            Some(Value::Boolean(b)) => r == Ok::<bool, (String, u8)>(b),
            Some(_) => fails_with(r, 12),
            None => fails_with(r, 10),
        },
{
    match table.get(key) {
        Some(Value::Boolean(b)) => Ok(*b),
        Some(v) => Err((mismatch(key, "a boolean", v), 12)),
        None => Err((missing(key), 10)),
    }
}

/// The integer bound to `key`, which must lie between 0 and 255.
pub fn read_integer(key: &str, table: &Table) -> (r: Result<u8, (String, u8)>)
    ensures
        match table.get_spec(key@) {
            Some(Value::Integer(i)) => if 0 <= i <= 255 {
                r == Ok::<u8, (String, u8)>(i as u8)
            } else {
                fails_with(r, 14)
            },
            Some(_) => fails_with(r, 14),
            None => fails_with(r, 10),
        },
{
    match table.get(key) {
        Some(Value::Integer(i)) => {
            if *i < 0 || *i > 255 {
                let m = join2("Number out of range for \"", key).concat("\", expected a number between 0 and 255");
                return Err((m, 14));
            }
            Ok(*i as u8)
        },
        Some(v) => Err((mismatch(key, "a number", v), 14)),
        None => Err((missing(key), 10)),
    }
}

/// The strings of an array, or code 15 if one element is not a string.
pub fn strings_of(key: &str, items: &Vec<Value>) -> (r: Result<Vec<String>, (String, u8)>)
    ensures
        all_strings(items@) ==> (r matches Ok(v) && views(v@) == string_items(items@)),
        !all_strings(items@) ==> fails_with(r, 15),
{
    let mut data: Vec<String> = Vec::new();
    let mut i: usize = 0;
    while i < items.len()
        invariant
            i <= items.len(),
            all_strings(items@.subrange(0, i as int)),
            views(data@) =~= string_items(items@.subrange(0, i as int)),
        decreases items.len() - i,
    {
        match &items[i] {
            Value::String(s) => {
                let ghost before = data@;
                data.push(s.clone());
                assert(views(data@) =~= views(before).push(s@));
                assert(string_items(items@.subrange(0, i + 1)) =~= string_items(items@.subrange(0, i as int)).push(s@));
            },
            v => {
                assert(!(items@[i as int] is String));
                let m = join2("Mismatched element in string array ", key);
                let m = m.concat(", expected a string, found ");
                return Err((m.concat(v.type_str()), 15));
            },
        }
        assert(items@.subrange(0, i + 1) =~= items@.subrange(0, i as int).push(items@[i as int]));
        i = i + 1;
    }
    assert(items@.subrange(0, items@.len() as int) =~= items@);
    Ok(data)
}

/// The strings bound to `key`: an array of strings, or one string.
pub fn read_string_array(key: &str, table: &Table) -> (r: Result<Vec<String>, (String, u8)>)
    ensures
        match table.get_spec(key@) {
            Some(Value::Array(a)) => if all_strings(a@) {
                r matches Ok(v) && views(v@) == string_items(a@)
            } else {
                fails_with(r, 15)
            },
            Some(Value::String(s)) => r matches Ok(v) && views(v@) == seq![s@],
            Some(_) => fails_with(r, 13),
            None => fails_with(r, 10),
        },
{
    match table.get(key) {
        Some(Value::Array(a)) => strings_of(key, a),
        Some(Value::String(s)) => {
            let mut v: Vec<String> = Vec::new();
            v.push(s.clone());
            assert(views(v@) =~= seq![s@]);
            Ok(v)
        },
        Some(v) => Err((mismatch(key, "a string array", v), 13)),
        None => Err((missing(key), 10)),
    }
}

/// The strings of `data` separated by ", ".
pub open spec fn comma_joined(data: Seq<Seq<char>>) -> Seq<char>
    decreases data.len(),
{
    if data.len() == 0 {
        Seq::empty()
    } else if data.len() == 1 {
        data[0]
    } else {
        comma_joined(data.drop_last()) + ", "@ + data.last()
    }
}

pub fn string_vec_to_string(data: &Vec<String>) -> (r: String)
    ensures
        r@ == comma_joined(views(data@)),
{
    let mut s = String::new();
    let mut i: usize = 0;
    while i < data.len()
        invariant
            i <= data.len(),
            s@ == comma_joined(views(data@.subrange(0, i as int))),
        decreases data.len() - i,
    {
        let ghost before = views(data@.subrange(0, i as int));
        if i > 0 {
            s = s.concat(", ");
        }
        s = s.concat(data[i].as_str());
        proof {
            let now = views(data@.subrange(0, i + 1));
            assert(now.drop_last() =~= before);
            assert(now.last() == data@[i as int]@);
            if i == 0 {
                assert(now =~= seq![data@[0]@]);
            }
        }
        i = i + 1;
    }
    assert(data@.subrange(0, data@.len() as int) =~= data@);
    s
}

} // verus!
