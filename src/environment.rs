//! Substitution of `{name}` references and home-relative paths.
use vstd::prelude::*;
use crate::text::{push_char, has_prefix, starts_with, join2};

verus! {

/// The value bound to `key` in a list of name/value pairs: the first binding.
pub open spec fn env_get(entries: Seq<(String, String)>, key: Seq<char>) -> Option<Seq<char>>
    decreases entries.len(),
{
    if entries.len() == 0 {
        None
    } else if entries[0].0@ == key {
        Some(entries[0].1@)
    } else {
        env_get(entries.drop_first(), key)
    }
}

/// Whether `key` is bound in `entries`.
pub open spec fn env_has(entries: Seq<(String, String)>, key: Seq<char>) -> bool {
    env_get(entries, key) is Some
}

/// The value bound to `key`, if any.
pub fn get_env<'a>(entries: &'a Vec<(String, String)>, key: &String) -> (r: Option<&'a String>)
    ensures
        match r {
            Some(v) => env_get(entries@, key@) == Some(v@),
            None => env_get(entries@, key@) is None,
        },
{
    let mut i: usize = 0;
    assert(entries@.subrange(0, entries@.len() as int) =~= entries@);
    while i < entries.len()
        invariant
            i <= entries.len(),
            env_get(entries@, key@) == env_get(entries@.subrange(i as int, entries@.len() as int), key@),
        decreases entries.len() - i,
    {
        let ghost rest = entries@.subrange(i as int, entries@.len() as int);
        assert(rest.drop_first() =~= entries@.subrange(i + 1, entries@.len() as int));
        if entries[i].0 == *key {
            assert(rest[0] == entries@[i as int]);
            return Some(&entries[i].1);
        }
        i = i + 1;
    }
    None
}

/// For a reference opening at `open`, the position of the brace that closes
/// it, searching from `j`: the first `}` at least two places after the
/// opening brace, with no line break before it.
pub open spec fn find_close(s: Seq<char>, open: int, j: int) -> Option<int>
    decreases s.len() - j,
{
    if j < 0 || j >= s.len() {
        None
    } else if s[j] == '\n' {
        None
    } else if s[j] == '}' && j >= open + 2 {
        Some(j)
    } else {
        find_close(s, open, j + 1)
    }
}

/// `s` from position `i` on, with every `{name}` reference replaced by the
/// value of `name`; `Err(name)` for the first reference to an unbound name.
pub open spec fn expand_from(s: Seq<char>, i: int, env: Seq<(String, String)>) -> Result<Seq<char>, Seq<char>>
    decreases s.len() - i,
{
    if i < 0 || i >= s.len() {
        Ok(Seq::empty())
    } else if s[i] == '{' && find_close(s, i, i + 1) is Some {
        let j = find_close(s, i, i + 1)->Some_0;
        let key = s.subrange(i + 1, j);
        if j < i + 2 || j >= s.len() {
            Ok(Seq::empty())
        } else {
            match env_get(env, key) {
                Some(value) => match expand_from(s, j + 1, env) {
                    Ok(rest) => Ok(value + rest),
                    Err(k) => Err(k),
                },
                None => Err(key),
            }
        }
    } else {
        match expand_from(s, i + 1, env) {
            Ok(rest) => Ok(seq![s[i]] + rest),
            Err(k) => Err(k),
        }
    }
}

pub open spec fn prepend(out: Seq<char>, r: Result<Seq<char>, Seq<char>>) -> Result<Seq<char>, Seq<char>> {
    match r {
        Ok(x) => Ok(out + x),
        Err(k) => Err(k),
    }
}

proof fn lemma_find_close_bounds(s: Seq<char>, open: int, j: int)
    requires
        0 <= j,
    ensures
        find_close(s, open, j) matches Some(k) ==> j <= k < s.len() && k >= open + 2 && s[k] == '}',
    decreases s.len() - j,
{
    if j < s.len() && s[j] != '\n' && !(s[j] == '}' && j >= open + 2) {
        lemma_find_close_bounds(s, open, j + 1);
    }
}

/// The closing brace of a reference opening at `open`, if it has one.
fn closing_brace(s: &str, len: usize, open: usize) -> (r: Option<usize>)
    requires
        len == s@.len(),
        open < len,
    ensures
        match r {
            Some(k) => find_close(s@, open as int, open + 1) == Some(k as int),
            None => find_close(s@, open as int, open + 1) is None,
        },
{
    let mut j: usize = open + 1;
    while j < len
        invariant
            len == s@.len(),
            open < j <= len,
            find_close(s@, open as int, open + 1) == find_close(s@, open as int, j as int),
        decreases len - j,
    {
        let c = s.get_char(j);
        if c == '\n' {
            return None;
        }
        if c == '}' && j >= open + 2 {
            return Some(j);
        }
        j = j + 1;
    }
    None
}

/// `s` with each `{name}` reference replaced by the value bound to `name`,
/// scanning left to right; `Err(name)` for the first unbound name.
pub fn expand_references(s: &str, env: &Vec<(String, String)>) -> (r: Result<String, String>)
    ensures
        match r {
            Ok(x) => expand_from(s@, 0, env@) == Ok::<Seq<char>, Seq<char>>(x@),
            Err(k) => expand_from(s@, 0, env@) == Err::<Seq<char>, Seq<char>>(k@),
        },
{
    let len = s.unicode_len();
    let mut out = String::new();
    let mut i: usize = 0;
    while i < len
        invariant
            len == s@.len(),
            i <= len,
            expand_from(s@, 0, env@) == prepend(out@, expand_from(s@, i as int, env@)),
        decreases len - i,
    {
        let c = s.get_char(i);
        let close = if c == '{' { closing_brace(s, len, i) } else { None };
        match close {
            Some(j) => {
                proof { lemma_find_close_bounds(s@, i as int, i + 1); }
                let key = String::from_str(s.substring_char(i + 1, j));
                match get_env(env, &key) {
                    Some(value) => {
                        let ghost before = out@;
                        out = out.concat(value.as_str());
                        proof {
                            let rest = expand_from(s@, j + 1, env@);
                            match rest {
                                Ok(x) => { assert(before + (value@ + x) =~= out@ + x); },
                                Err(k) => {},
                            }
                        }
                        i = j + 1;
                    },
                    None => {
                        return Err(key);
                    },
                }
            },
            None => {
                let ghost before = out@;
                push_char(&mut out, c);
                proof {
                    let rest = expand_from(s@, i + 1, env@);
                    match rest {
                        Ok(x) => { assert(before + (seq![c] + x) =~= out@ + x); },
                        Err(k) => {},
                    }
                }
                i = i + 1;
            },
        }
    }
    assert(out@ + Seq::<char>::empty() =~= out@);
    Ok(out)
}

/// The path after reference expansion, with a leading `~` replaced by the
/// home directory and a leading `./` made relative to the working directory.
pub open spec fn finish_path(p: Seq<char>, home: Seq<char>, cwd: Seq<char>) -> Seq<char> {
    let q = if has_prefix(p, "~"@) { home + p.subrange(1, p.len() as int) } else { p };
    if has_prefix(q, "./"@) { cwd + q.subrange(1, q.len() as int) } else { q }
}

/// Resolves a declared path against the environment, the home directory and
/// the working directory. An undefined reference fails with code 61.
pub fn resolve_filepath(path: &str, environment: &Vec<(String, String)>, home: &str, cwd: &str) -> (r: Result<String, (String, u8)>)
    ensures
        match expand_from(path@, 0, environment@) {
            Ok(p) => r matches Ok(x) && x@ == finish_path(p, home@, cwd@),
            Err(_) => r matches Err(e) && e.1 == 61,
        },
{
    let expanded = match expand_references(path, environment) {
        Ok(p) => p,
        Err(key) => {
            let m = join2("Use of undefined environmental variable \"", key.as_str());
            let m = m.concat("\" in path \"");
            let m = m.concat(path);
            return Err((m.concat("\""), 61));
        },
    };
    let len = expanded.as_str().unicode_len();
    let homed = if starts_with(expanded.as_str(), "~") {
        proof { reveal_strlit("~"); }
        join2(home, expanded.as_str().substring_char(1, len))
    } else {
        expanded
    };
    let len = homed.as_str().unicode_len();
    if starts_with(homed.as_str(), "./") {
        proof { reveal_strlit("./"); }
        Ok(join2(cwd, homed.as_str().substring_char(1, len)))
    } else {
        Ok(homed)
    }
}

} // verus!
