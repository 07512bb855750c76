//! Compiler flags declared by a configuration, and their command-line form.
use vstd::prelude::*;
use crate::document::{Value, fails_with, all_strings, string_items, views, strings_of};
use crate::text::{join2, u64_to_string, decimal};

verus! {

pub enum CompilerFlags {
    ReleaseTarget { version: u8 },
    EnablePreviewFeatures { setting: bool },
    JavadocAllLints { setting: bool },
    JavadocLints { lints: Vec<String> },
    SourceLintAll { setting: bool },
    SourceLints { lints: Vec<String> },
    NoWarnings { setting: bool },
    DeprecationInfo { setting: bool },
    StoreParameterNames { setting: bool },
    Encoding { encoding: String },
}

/// A flag as plain values: its variant's position, its number or setting,
/// and its text fields.
pub type FlagModel = (nat, int, Seq<Seq<char>>);

pub open spec fn flag_model(f: CompilerFlags) -> FlagModel {
    match f {
        CompilerFlags::ReleaseTarget { version } => (0, version as int, seq![]),
        CompilerFlags::EnablePreviewFeatures { setting } => (1, if setting { 1 } else { 0 }, seq![]),
        CompilerFlags::JavadocAllLints { setting } => (2, if setting { 1 } else { 0 }, seq![]),
        CompilerFlags::JavadocLints { lints } => (3, 0, views(lints@)),
        CompilerFlags::SourceLintAll { setting } => (4, if setting { 1 } else { 0 }, seq![]),
        CompilerFlags::SourceLints { lints } => (5, 0, views(lints@)),
        CompilerFlags::NoWarnings { setting } => (6, if setting { 1 } else { 0 }, seq![]),
        CompilerFlags::DeprecationInfo { setting } => (7, if setting { 1 } else { 0 }, seq![]),
        CompilerFlags::StoreParameterNames { setting } => (8, if setting { 1 } else { 0 }, seq![]),
        CompilerFlags::Encoding { encoding } => (9, 0, seq![encoding@]),
    }
}

pub open spec fn flag_models(v: Seq<CompilerFlags>) -> Seq<FlagModel> {
    v.map_values(|f: CompilerFlags| flag_model(f))
}

/// `prefix` followed by `items` separated by commas.
pub open spec fn comma_list(prefix: Seq<char>, items: Seq<Seq<char>>) -> Seq<char>
    decreases items.len(),
{
    if items.len() == 0 {
        prefix
    } else if items.len() == 1 {
        prefix + items[0]
    } else {
        comma_list(prefix, items.drop_last()) + ","@ + items.last()
    }
}

/// The compiler arguments a flag stands for.
pub open spec fn canon_flag(f: CompilerFlags) -> Seq<Seq<char>> {
    match f {
        CompilerFlags::ReleaseTarget { version } => seq!["-release"@, decimal(version as nat)],
        CompilerFlags::EnablePreviewFeatures { setting } => if setting { seq!["--enable-preview"@] } else { seq![] },
        CompilerFlags::JavadocAllLints { setting } => if setting { seq!["-Xdoclint:all"@] } else { seq![] },
        CompilerFlags::JavadocLints { lints } => seq![comma_list("-Xdoclint:"@, views(lints@))],
        CompilerFlags::SourceLintAll { setting } => if setting { seq!["-Xlint:all"@] } else { seq![] },
        CompilerFlags::SourceLints { lints } => seq![comma_list("-Xlint:"@, views(lints@))],
        CompilerFlags::NoWarnings { setting } => if setting { seq!["-nowarn"@] } else { seq![] },
        CompilerFlags::DeprecationInfo { setting } => if setting { seq!["-deprecation"@] } else { seq![] },
        CompilerFlags::StoreParameterNames { setting } => if setting { seq!["-parameters"@] } else { seq![] },
        CompilerFlags::Encoding { encoding } => seq!["--encoding"@, encoding@],
    }
}

/// The flags whose value is a single boolean, by their declared name.
pub open spec fn boolean_flag(name: Seq<char>, setting: bool) -> Option<CompilerFlags> {
    if name == "enable_preview_features"@ { Some(CompilerFlags::EnablePreviewFeatures { setting }) }
    else if name == "javadoc_all_lints"@ { Some(CompilerFlags::JavadocAllLints { setting }) }
    else if name == "source_all_lints"@ { Some(CompilerFlags::SourceLintAll { setting }) }
    else if name == "no_warnings"@ { Some(CompilerFlags::NoWarnings { setting }) }
    else if name == "deprecation_info"@ { Some(CompilerFlags::DeprecationInfo { setting }) }
    else if name == "store_parameter_names"@ { Some(CompilerFlags::StoreParameterNames { setting }) }
    else { None }
}

/// What declaring the flag `name` with `value` yields.
pub open spec fn flag_from(name: Seq<char>, value: Value, r: Result<CompilerFlags, (String, u8)>) -> bool {
    if name == "release_target"@ {
        match value {
            Value::Integer(i) => if 0 <= i <= 255 {
                r matches Ok(f) && f == CompilerFlags::ReleaseTarget { version: i as u8 }
            } else {
                fails_with(r, 52)
            },
            _ => fails_with(r, 14),
        }
    } else if boolean_flag(name, true) is Some {
        match value {
            Value::Boolean(b) => r matches Ok(f) && Some(f) == boolean_flag(name, b),
            _ => fails_with(r, 12),
        }
    } else if name == "javadoc_lints"@ || name == "source_lints"@ {
        match value {
            Value::Array(a) => if !all_strings(a@) {
                fails_with(r, 15)
            } else if a@.len() == 0 {
                fails_with(r, 51)
            } else {
                r matches Ok(f) && (if name == "javadoc_lints"@ {
                    f matches CompilerFlags::JavadocLints { lints } && views(lints@) == string_items(a@)
                } else {
                    f matches CompilerFlags::SourceLints { lints } && views(lints@) == string_items(a@)
                })
            },
            _ => fails_with(r, 13),
        }
    } else if name == "source_encoding"@ {
        match value {
            Value::String(s) => r matches Ok(CompilerFlags::Encoding { encoding }) && encoding@ == s@,
            _ => fails_with(r, 11),
        }
    } else {
        fails_with(r, 50)
    }
}

/// The code with which declaring the flag `name` with `value` fails, if it does.
pub open spec fn flag_error(name: Seq<char>, value: Value) -> Option<u8> {
    if name == "release_target"@ {
        match value {
            Value::Integer(i) => if 0 <= i <= 255 { None } else { Some(52u8) },
            _ => Some(14u8),
        }
    } else if boolean_flag(name, true) is Some {
        match value {
            Value::Boolean(_) => None,
            _ => Some(12u8),
        }
    } else if name == "javadoc_lints"@ || name == "source_lints"@ {
        match value {
            Value::Array(a) => if !all_strings(a@) { Some(15u8) } else if a@.len() == 0 { Some(51u8) } else { None },
            _ => Some(13u8),
        }
    } else if name == "source_encoding"@ {
        match value {
            Value::String(_) => None,
            _ => Some(11u8),
        }
    } else {
        Some(50u8)
    }
}

fn named(name: &str, s: &str) -> (r: bool)
    ensures
        r == (name@ == s@),
{
    String::from_str(name) == String::from_str(s)
}

fn flag_mismatch(name: &str, expected: &str, found: &Value) -> (r: String) {
    let m = join2("Mismatched type for compiler flag \"", name).concat("\", expected ").concat(expected);
    m.concat(", found ").concat(found.type_str())
}

/// "`prefix`a,b,c" for the items a, b, c.
fn join_commas(prefix: &str, items: &Vec<String>) -> (r: String)
    ensures
        r@ == comma_list(prefix@, views(items@)),
{
    let mut s = String::from_str(prefix);
    let mut i: usize = 0;
    while i < items.len()
        invariant
            i <= items.len(),
            s@ == comma_list(prefix@, views(items@.subrange(0, i as int))),
        decreases items.len() - i,
    {
        let ghost before = views(items@.subrange(0, i as int));
        if i > 0 {
            s = s.concat(",");
        }
        s = s.concat(items[i].as_str());
        proof {
            let now = views(items@.subrange(0, i + 1));
            assert(now.drop_last() =~= before);
            if i == 0 {
                assert(now =~= seq![items@[0]@]);
            }
        }
        i = i + 1;
    }
    assert(items@.subrange(0, items@.len() as int) =~= items@);
    s
}

fn one(a: &str) -> (r: Vec<String>)
    ensures
        views(r@) == seq![a@],
{
    let mut v: Vec<String> = Vec::new();
    v.push(String::from_str(a));
    assert(views(v@) =~= seq![a@]);
    v
}

fn none() -> (r: Vec<String>)
    ensures
        views(r@) == Seq::<Seq<char>>::empty(),
{
    let v: Vec<String> = Vec::new();
    assert(views(v@) =~= Seq::<Seq<char>>::empty());
    v
}

impl CompilerFlags {
    /// Reads the compiler flag declared as `name = value`.
    pub fn from(name: &str, value: &Value) -> (r: Result<Self, (String, u8)>)
        ensures
            flag_from(name@, *value, r),
            match flag_error(name@, *value) {
                Some(c) => fails_with(r, c),
                None => r is Ok,
            },
    {
        if named(name, "release_target") {
            match value {
                Value::Integer(i) => {
                    if *i < 0 {
                        return Err((String::from_str("Illegal Java version, version must be positive"), 52));
                    }
                    if *i > 255 {
                        return Err((String::from_str("Java version out of range, expected a number up to 255"), 52));
                    }
                    Ok(CompilerFlags::ReleaseTarget { version: *i as u8 })
                },
                v => Err((flag_mismatch(name, "an integer", v), 14)),
            }
        } else if named(name, "enable_preview_features") || named(name, "javadoc_all_lints")
            || named(name, "source_all_lints") || named(name, "no_warnings")
            || named(name, "deprecation_info") || named(name, "store_parameter_names") {
            match value {
                Value::Boolean(b) => {
                    let setting = *b;
                    if named(name, "enable_preview_features") {
                        Ok(CompilerFlags::EnablePreviewFeatures { setting })
                    } else if named(name, "javadoc_all_lints") {
                        Ok(CompilerFlags::JavadocAllLints { setting })
                    } else if named(name, "source_all_lints") {
                        Ok(CompilerFlags::SourceLintAll { setting })
                    } else if named(name, "no_warnings") {
                        Ok(CompilerFlags::NoWarnings { setting })
                    } else if named(name, "deprecation_info") {
                        Ok(CompilerFlags::DeprecationInfo { setting })
                    } else {
                        Ok(CompilerFlags::StoreParameterNames { setting })
                    }
                },
                v => Err((flag_mismatch(name, "a boolean", v), 12)),
            }
        } else if named(name, "javadoc_lints") || named(name, "source_lints") {
            match value {
                Value::Array(a) => {
                    let lints = strings_of(name, a)?;
                    if lints.len() == 0 {
                        proof { assert(views(lints@).len() == 0); }
                        return Err((String::from_str("At least one lint must be given"), 51));
                    }
                    proof { assert(views(lints@).len() == lints@.len()); }
                    if named(name, "javadoc_lints") {
                        Ok(CompilerFlags::JavadocLints { lints })
                    } else {
                        Ok(CompilerFlags::SourceLints { lints })
                    }
                },
                v => Err((flag_mismatch(name, "a string array", v), 13)),
            }
        } else if named(name, "source_encoding") {
            match value {
                Value::String(s) => Ok(CompilerFlags::Encoding { encoding: s.clone() }),
                v => Err((flag_mismatch(name, "a string", v), 11)),
            }
        } else {
            Err((join2("Unrecognized compiler flag ", name), 50))
        }
    }

    /// The compiler arguments this flag stands for.
    pub fn get_canon_flag(&self) -> (r: Vec<String>)
        ensures
            views(r@) == canon_flag(*self),
    {
        match self {
            CompilerFlags::ReleaseTarget { version } => {
                let mut v = one("-release");
                let ghost before = v@;
                v.push(u64_to_string(*version as u64));
                assert(views(v@) =~= views(before).push(decimal(*version as nat)));
                v
            },
            CompilerFlags::EnablePreviewFeatures { setting } => if *setting { one("--enable-preview") } else { none() },
            CompilerFlags::JavadocAllLints { setting } => if *setting { one("-Xdoclint:all") } else { none() },
            CompilerFlags::JavadocLints { lints } => {
                let f = join_commas("-Xdoclint:", lints);
                let mut v: Vec<String> = Vec::new();
                v.push(f);
                assert(views(v@) =~= canon_flag(*self));
                v
            },
            CompilerFlags::SourceLintAll { setting } => if *setting { one("-Xlint:all") } else { none() },
            CompilerFlags::SourceLints { lints } => {
                let f = join_commas("-Xlint:", lints);
                let mut v: Vec<String> = Vec::new();
                v.push(f);
                assert(views(v@) =~= canon_flag(*self));
                v
            },
            CompilerFlags::NoWarnings { setting } => if *setting { one("-nowarn") } else { none() },
            CompilerFlags::DeprecationInfo { setting } => if *setting { one("-deprecation") } else { none() },
            CompilerFlags::StoreParameterNames { setting } => if *setting { one("-parameters") } else { none() },
            CompilerFlags::Encoding { encoding } => {
                let mut v = one("--encoding");
                let ghost before = v@;
                v.push(encoding.clone());
                assert(views(v@) =~= views(before).push(encoding@));
                v
            },
        }
    }

    /// A copy of this flag.
    pub fn duplicate(&self) -> (r: Self)
        ensures
            flag_model(r) == flag_model(*self),
    {
        match self {
            CompilerFlags::ReleaseTarget { version } => CompilerFlags::ReleaseTarget { version: *version },
            CompilerFlags::EnablePreviewFeatures { setting } => CompilerFlags::EnablePreviewFeatures { setting: *setting },
            CompilerFlags::JavadocAllLints { setting } => CompilerFlags::JavadocAllLints { setting: *setting },
            CompilerFlags::JavadocLints { lints } => CompilerFlags::JavadocLints { lints: crate::text::copy_strings(lints) },
            CompilerFlags::SourceLintAll { setting } => CompilerFlags::SourceLintAll { setting: *setting },
            CompilerFlags::SourceLints { lints } => CompilerFlags::SourceLints { lints: crate::text::copy_strings(lints) },
            CompilerFlags::NoWarnings { setting } => CompilerFlags::NoWarnings { setting: *setting },
            CompilerFlags::DeprecationInfo { setting } => CompilerFlags::DeprecationInfo { setting: *setting },
            CompilerFlags::StoreParameterNames { setting } => CompilerFlags::StoreParameterNames { setting: *setting },
            CompilerFlags::Encoding { encoding } => CompilerFlags::Encoding { encoding: encoding.clone() },
        }
    }

    /// Whether two flags are the same flag with the same value.
    pub fn same(&self, other: &Self) -> (r: bool)
        ensures
            r == (flag_model(*self) == flag_model(*other)),
    {
        match (self, other) {
            (CompilerFlags::ReleaseTarget { version: a }, CompilerFlags::ReleaseTarget { version: b }) => *a == *b,
            (CompilerFlags::EnablePreviewFeatures { setting: a }, CompilerFlags::EnablePreviewFeatures { setting: b }) => *a == *b,
            (CompilerFlags::JavadocAllLints { setting: a }, CompilerFlags::JavadocAllLints { setting: b }) => *a == *b,
            (CompilerFlags::JavadocLints { lints: a }, CompilerFlags::JavadocLints { lints: b }) => same_strings(a, b),
            (CompilerFlags::SourceLintAll { setting: a }, CompilerFlags::SourceLintAll { setting: b }) => *a == *b,
            (CompilerFlags::SourceLints { lints: a }, CompilerFlags::SourceLints { lints: b }) => same_strings(a, b),
            (CompilerFlags::NoWarnings { setting: a }, CompilerFlags::NoWarnings { setting: b }) => *a == *b,
            (CompilerFlags::DeprecationInfo { setting: a }, CompilerFlags::DeprecationInfo { setting: b }) => *a == *b,
            (CompilerFlags::StoreParameterNames { setting: a }, CompilerFlags::StoreParameterNames { setting: b }) => *a == *b,
            (CompilerFlags::Encoding { encoding: a }, CompilerFlags::Encoding { encoding: b }) => {
                let r = *a == *b;
                proof {
                    if flag_model(*self) == flag_model(*other) {
                        assert(seq![a@][0] == seq![b@][0]);
                    }
                }
                r
            },
            _ => false,
        }
    }
}

/// Whether two lists of strings are equal element by element.
pub fn same_strings(a: &Vec<String>, b: &Vec<String>) -> (r: bool)
    ensures
        r == (views(a@) == views(b@)),
{
    if a.len() != b.len() {
        proof { assert(views(a@).len() != views(b@).len()); }
        return false;
    }
    let mut i: usize = 0;
    while i < a.len()
        invariant
            a.len() == b.len(),
            i <= a.len(),
            forall|j: int| 0 <= j < i ==> a@[j]@ == b@[j]@,
        decreases a.len() - i,
    {
        if a[i] != b[i] {
            proof { assert(views(a@)[i as int] != views(b@)[i as int]); }
            return false;
        }
        i = i + 1;
    }
    assert(views(a@) =~= views(b@));
    true
}

} // verus!
