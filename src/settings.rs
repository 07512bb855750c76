//! Settings files of the form `key=value`, one pair per line, as IDE
//! integrations keep them.
use vstd::prelude::*;
use crate::configuration::{env_views, set_key, set_variable, unique_keys, lemma_set_key_unique};
use crate::text::{join2, push_char};

verus! {

/// The lines and the unfinished last line of `s`, read up to its end.
pub open spec fn split_state(s: Seq<char>) -> (Seq<Seq<char>>, Seq<char>)
    decreases s.len(),
{
    if s.len() == 0 {
        (Seq::empty(), Seq::empty())
    } else {
        let (done, cur) = split_state(s.drop_last());
        if s.last() == '\n' { (done.push(cur), Seq::empty()) } else { (done, cur.push(s.last())) }
    }
}

/// `s` split at each line break; the text after the last break is a line too.
pub open spec fn lines_of(s: Seq<char>) -> Seq<Seq<char>> {
    split_state(s).0.push(split_state(s).1)
}

/// The position of the first `=` in `line`, if any.
pub open spec fn eq_pos(line: Seq<char>) -> Option<int>
    decreases line.len(),
{
    if line.len() == 0 {
        None
    } else if eq_pos(line.drop_last()) is Some {
        eq_pos(line.drop_last())
    } else if line.last() == '=' {
        Some(line.len() - 1)
    } else {
        None
    }
}

/// The pairs that `lines` declare, a later key replacing an earlier one, or
/// the first non-empty line without `=`.
pub open spec fn parsed(lines: Seq<Seq<char>>) -> Result<Seq<(Seq<char>, Seq<char>)>, Seq<char>>
    decreases lines.len(),
{
    if lines.len() == 0 {
        Ok(Seq::empty())
    } else {
        match parsed(lines.drop_last()) {
            Err(l) => Err(l),
            Ok(pairs) => {
                let line = lines.last();
                if line.len() == 0 {
                    Ok(pairs)
                } else {
                    match eq_pos(line) {
                        Some(i) => Ok(set_key(pairs, line.subrange(0, i), line.subrange(i + 1, line.len() as int))),
                        None => Err(line),
                    }
                }
            },
        }
    }
}

/// `s` split at each line break.
pub fn split_lines_of(s: &str) -> (r: Vec<String>)
    ensures
        crate::document::views(r@) == lines_of(s@),
{
    let len = s.unicode_len();
    let mut done: Vec<String> = Vec::new();
    let mut cur = String::new();
    let mut i: usize = 0;
    while i < len
        invariant
            len == s@.len(),
            i <= len,
            split_state(s@.subrange(0, i as int)) == (crate::document::views(done@), cur@),
        decreases len - i,
    {
        let c = s.get_char(i);
        assert(s@.subrange(0, i + 1).drop_last() =~= s@.subrange(0, i as int));
        if c == '\n' {
            let ghost before = done@;
            done.push(cur);
            assert(crate::document::views(done@) =~= crate::document::views(before).push(cur@));
            cur = String::new();
        } else {
            push_char(&mut cur, c);
        }
        i = i + 1;
    }
    assert(s@.subrange(0, len as int) =~= s@);
    let ghost before = done@;
    done.push(cur);
    assert(crate::document::views(done@) =~= crate::document::views(before).push(cur@));
    done
}

/// The position of the first `=` in `line`.
fn find_eq(line: &str) -> (r: Option<usize>)
    ensures
        match r {
            Some(i) => eq_pos(line@) == Some(i as int),
            None => eq_pos(line@) is None,
        },
{
    let len = line.unicode_len();
    let mut i: usize = 0;
    while i < len
        invariant
            len == line@.len(),
            i <= len,
            eq_pos(line@.subrange(0, i as int)) is None,
        decreases len - i,
    {
        assert(line@.subrange(0, i + 1).drop_last() =~= line@.subrange(0, i as int));
        if line.get_char(i) == '=' {
            proof {
                assert(line@.subrange(0, i + 1).last() == '=');
                lemma_eq_pos_prefix(line@, i as int + 1, i as int);
            }
            return Some(i);
        }
        i = i + 1;
    }
    assert(line@.subrange(0, len as int) =~= line@);
    None
}

proof fn lemma_eq_pos_bound(line: Seq<char>)
    ensures
        eq_pos(line) matches Some(i) ==> 0 <= i < line.len(),
    decreases line.len(),
{
    if line.len() > 0 {
        lemma_eq_pos_bound(line.drop_last());
    }
}

proof fn lemma_eq_pos_prefix(line: Seq<char>, k: int, p: int)
    requires
        0 < k <= line.len(),
        eq_pos(line.subrange(0, k)) == Some(p),
    ensures
        eq_pos(line) == Some(p),
    decreases line.len() - k,
{
    if k < line.len() {
        let next = line.subrange(0, k + 1);
        assert(next.drop_last() =~= line.subrange(0, k));
        assert(eq_pos(next) == Some(p));
        lemma_eq_pos_prefix(line, k + 1, p);
    } else {
        assert(line.subrange(0, k) =~= line);
    }
}

/// Reads a settings file: each non-empty line is `key=value`, split at its
/// first `=`. A line without `=` is refused.
pub fn read_config(config: &str) -> (r: Result<Vec<(String, String)>, String>)
    ensures
        match parsed(lines_of(config@)) {
            Ok(pairs) => r matches Ok(v) && env_views(v@) == pairs,
            Err(_) => r is Err,
        },
        r is Ok ==> unique_keys(env_views(r->Ok_0@)),
{
    let lines = split_lines_of(config);
    let ghost lv = crate::document::views(lines@);
    let mut data: Vec<(String, String)> = Vec::new();
    let mut i: usize = 0;
    assert(env_views(data@) =~= Seq::<(Seq<char>, Seq<char>)>::empty());
    assert(lv.subrange(0, 0) =~= Seq::<Seq<char>>::empty());
    while i < lines.len()
        invariant
            i <= lines.len(),
            lv == crate::document::views(lines@),
            lv == lines_of(config@),
            parsed(lv.subrange(0, i as int)) == Ok::<Seq<(Seq<char>, Seq<char>)>, Seq<char>>(env_views(data@)),
            unique_keys(env_views(data@)),
        decreases lines.len() - i,
    {
        assert(lv.subrange(0, i + 1).drop_last() =~= lv.subrange(0, i as int));
        assert(lv.subrange(0, i + 1).last() == lines@[i as int]@);
        let line = lines[i].as_str();
        let len = line.unicode_len();
        if len > 0 {
            match find_eq(line) {
                Some(k) => {
                    proof { lemma_eq_pos_bound(line@); }
                    let key = String::from_str(line.substring_char(0, k));
                    let value = String::from_str(line.substring_char(k + 1, len));
                    proof { lemma_set_key_unique(env_views(data@), key@, value@); }
                    set_variable(&mut data, key, value);
                },
                None => {
                    proof { lemma_parsed_error_stays(lv, i as int + 1); }
                    let m = join2("Invalid key/value pair: \"", line);
                    return Err(m.concat("\""));
                },
            }
        }
        i = i + 1;
    }
    assert(lv.subrange(0, lines@.len() as int) =~= lv);
    Ok(data)
}

proof fn lemma_parsed_error_stays(lines: Seq<Seq<char>>, k: int)
    requires
        0 <= k <= lines.len(),
        parsed(lines.subrange(0, k)) is Err,
    ensures
        parsed(lines) is Err,
    decreases lines.len() - k,
{
    if k < lines.len() {
        assert(lines.subrange(0, k + 1).drop_last() =~= lines.subrange(0, k));
        lemma_parsed_error_stays(lines, k + 1);
    } else {
        assert(lines.subrange(0, k) =~= lines);
    }
}

/// Settings under a common key prefix.
pub struct EclipseConfiguration {
    pub data: Vec<(String, String)>,
    pub prefix: String,
}

/// Each pair as a `prefix` + `key=value` line.
pub open spec fn config_text(prefix: Seq<char>, pairs: Seq<(Seq<char>, Seq<char>)>) -> Seq<char>
    decreases pairs.len(),
{
    if pairs.len() == 0 {
        Seq::empty()
    } else {
        config_text(prefix, pairs.drop_last()) + prefix + pairs.last().0 + "="@ + pairs.last().1 + "\n"@
    }
}

impl EclipseConfiguration {
    /// Setting keys are distinct.
    pub open spec fn wf(&self) -> bool {
        unique_keys(env_views(self.data@))
    }

    pub fn new() -> (r: Self)
        ensures
            r.wf(),
            r.data@.len() == 0,
            r.prefix@.len() == 0,
    {
        EclipseConfiguration { data: Vec::new(), prefix: String::new() }
    }

    pub fn get_prefix(&self) -> (r: String)
        ensures
            r@ == self.prefix@,
    {
        self.prefix.clone()
    }

    /// Binds `key` to `value`, replacing an earlier binding.
    pub fn add_key(self, key: &str, value: &str) -> (r: Self)
        ensures
            env_views(r.data@) == set_key(env_views(self.data@), key@, value@),
            r.prefix == self.prefix,
            self.wf() ==> r.wf(),
    {
        proof {
            if self.wf() {
                lemma_set_key_unique(env_views(self.data@), key@, value@);
            }
        }
        let mut data = self.data;
        set_variable(&mut data, String::from_str(key), String::from_str(value));
        EclipseConfiguration { data, prefix: self.prefix }
    }

    pub fn prefix(self, prefix: &str) -> (r: Self)
        ensures
            r.prefix@ == prefix@,
            r.data == self.data,
    {
        EclipseConfiguration { data: self.data, prefix: String::from_str(prefix) }
    }

    pub fn deconstruct(self) -> (r: Vec<(String, String)>)
        ensures
            r == self.data,
    {
        self.data
    }
}

/// The settings file for `config`: one prefixed `key=value` line per setting.
pub fn generate_config(config: EclipseConfiguration) -> (r: String)
    ensures
        r@ == config_text(config.prefix@, env_views(config.data@)),
{
    let prefix = config.get_prefix();
    let data = config.deconstruct();
    let ghost pv = env_views(data@);
    let mut out = String::new();
    let mut i: usize = 0;
    while i < data.len()
        invariant
            i <= data.len(),
            pv == env_views(data@),
            out@ == config_text(prefix@, pv.subrange(0, i as int)),
        decreases data.len() - i,
    {
        assert(pv.subrange(0, i + 1).drop_last() =~= pv.subrange(0, i as int));
        assert(pv.subrange(0, i + 1).last() == (data@[i as int].0@, data@[i as int].1@));
        out = out.concat(prefix.as_str()).concat(data[i].0.as_str()).concat("=").concat(data[i].1.as_str()).concat("\n");
        i = i + 1;
    }
    assert(pv.subrange(0, data@.len() as int) =~= pv);
    out
}

} // verus!
