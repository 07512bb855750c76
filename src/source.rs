//! Choosing the source files a build compiles, and the strings handed to the
//! compiler and the archiver.
use vstd::prelude::*;
use crate::document::views;
use crate::metadata::{Metadata, must_compile};
use crate::text::{push_char, ends_with, has_suffix, join2};

verus! {

/// `items` separated by `sep`.
pub open spec fn joined(items: Seq<Seq<char>>, sep: char) -> Seq<char>
    decreases items.len(),
{
    if items.len() == 0 {
        Seq::empty()
    } else if items.len() == 1 {
        items[0]
    } else {
        joined(items.drop_last(), sep).push(sep) + items.last()
    }
}

/// The strings of `items` separated by `sep`.
pub fn join_with(items: &Vec<String>, sep: char) -> (r: String)
    ensures
        r@ == joined(views(items@), sep),
{
    let mut s = String::new();
    let mut i: usize = 0;
    while i < items.len()
        invariant
            i <= items.len(),
            s@ == joined(views(items@.subrange(0, i as int)), sep),
        decreases items.len() - i,
    {
        let ghost before = views(items@.subrange(0, i as int));
        if i > 0 {
            push_char(&mut s, sep);
        }
        s = s.concat(items[i].as_str());
        proof {
            let now = views(items@.subrange(0, i + 1));
            assert(now.drop_last() =~= before);
            if i == 0 {
                assert(now =~= seq![items@[0]@]);
            }
        }
        i = i + 1;
    }
    assert(items@.subrange(0, items@.len() as int) =~= items@);
    s
}

/// The paths of `paths` whose file name ends in `.extension`, in order.
pub open spec fn with_extension(paths: Seq<Seq<char>>, extension: Seq<char>) -> Seq<Seq<char>> {
    paths.filter(|p: Seq<char>| has_extension(p, extension))
}

/// Whether the file name at the end of `p` has the extension `extension`:
/// it ends in `.extension` after at least one other character, so that a
/// name made only of the dot and the extension has none.
pub open spec fn has_extension(p: Seq<char>, extension: Seq<char>) -> bool {
    let k = extension.len() + 1;
    &&& has_suffix(p, "."@ + extension)
    &&& p.len() > k
    &&& p[p.len() - k - 1] != '/'
    &&& p[p.len() - k - 1] != '\\'
}

/// Whether `p` names a file with the extension `extension`.
fn path_has_extension(p: &str, suffix: &str, extension: &str) -> (r: bool)
    requires
        suffix@ == "."@ + extension@,
    ensures
        r == has_extension(p@, extension@),
{
    proof { reveal_strlit("."); }
    if !ends_with(p, suffix) {
        return false;
    }
    let len = p.unicode_len();
    let k = suffix.unicode_len();
    if len <= k {
        return false;
    }
    let c = p.get_char(len - k - 1);
    c != '/' && c != '\\'
}

/// The paths among `paths` that have the extension `extension`.
pub fn collect_files_with_extension(paths: &Vec<String>, extension: &str) -> (r: Vec<String>)
    ensures
        views(r@) == with_extension(views(paths@), extension@),
{
    let suffix = join2(".", extension);
    let mut r: Vec<String> = Vec::new();
    let mut i: usize = 0;
    while i < paths.len()
        invariant
            i <= paths.len(),
            suffix@ == "."@ + extension@,
            views(r@) == with_extension(views(paths@.subrange(0, i as int)), extension@),
        decreases paths.len() - i,
    {
        let ghost before = views(r@);
        let ghost done = views(paths@.subrange(0, i + 1));
        assert(done.drop_last() =~= views(paths@.subrange(0, i as int)));
        assert(done.last() == paths@[i as int]@);
        proof { reveal(Seq::filter); }
        if path_has_extension(paths[i].as_str(), suffix.as_str(), extension) {
            r.push(paths[i].clone());
            assert(views(r@) =~= before.push(paths@[i as int]@));
        }
        i = i + 1;
    }
    assert(paths@.subrange(0, paths@.len() as int) =~= paths@);
    r
}

pub open spec fn last_task_view(m: Metadata) -> Option<Seq<char>> {
    match m.last_compiled_task {
        Some(t) => Some(t@),
        None => None,
    }
}

/// The files, given with their modification times, that a build of `task` compiles.
pub open spec fn selected(files: Seq<(String, u128)>, m: Metadata, task: Seq<char>, force: bool) -> Seq<Seq<char>>
    decreases files.len(),
{
    if files.len() == 0 {
        Seq::empty()
    } else {
        let rest = selected(files.drop_last(), m, task, force);
        if must_compile(force, last_task_view(m), task, m.last_compilation_time, files.last().1) {
            rest.push(files.last().0@)
        } else {
            rest
        }
    }
}

/// The source files that need compiling, in order.
pub fn select_sources(files: &Vec<(String, u128)>, metadata: &Metadata, task: &String, force: bool) -> (r: Vec<String>)
    ensures
        views(r@) == selected(files@, *metadata, task@, force),
{
    let mut r: Vec<String> = Vec::new();
    let mut i: usize = 0;
    while i < files.len()
        invariant
            i <= files.len(),
            views(r@) == selected(files@.subrange(0, i as int), *metadata, task@, force),
        decreases files.len() - i,
    {
        let ghost before = views(r@);
        assert(files@.subrange(0, i + 1).drop_last() =~= files@.subrange(0, i as int));
        if metadata.needs_compile(task, force, files[i].1) {
            r.push(files[i].0.clone());
            assert(views(r@) =~= before.push(files@[i as int].0@));
        }
        i = i + 1;
    }
    assert(files@.subrange(0, files@.len() as int) =~= files@);
    r
}

/// The source roots separated by spaces, and the files to compile separated
/// by the platform's path separator.
pub fn generate_source(roots: &Vec<String>, files: &Vec<(String, u128)>, metadata: &Metadata, task: &String, force: bool, separator: char) -> (r: (String, String))
    ensures
        r.0@ == joined(views(roots@), ' '),
        r.1@ == joined(selected(files@, *metadata, task@, force), separator),
{
    let paths = join_with(roots, ' ');
    let chosen = select_sources(files, metadata, task, force);
    (paths, join_with(&chosen, separator))
}

/// The archive libraries among `files`, separated by the path separator.
pub fn generate_libraries(files: &Vec<String>, separator: char) -> (r: String)
    ensures
        r@ == joined(with_extension(views(files@), "jar"@), separator),
{
    let libraries = collect_files_with_extension(files, "jar");
    join_with(&libraries, separator)
}

/// The declared includes, separated by spaces.
pub fn generate_inputs(includes: Option<&Vec<String>>) -> (r: String)
    ensures
        match includes {
            Some(i) => r@ == joined(views(i@), ' '),
            None => r@.len() == 0,
        },
{
    match includes {
        Some(i) => join_with(i, ' '),
        None => String::new(),
    }
}

/// What a build hands the compiler: source roots, files to compile, and
/// the class path of libraries.
pub struct BuildInformation {
    pub source_paths: String,
    pub source_files: String,
    pub libraries: Option<String>,
}

impl BuildInformation {
    pub fn from(roots: &Vec<String>, files: &Vec<(String, u128)>, libraries: Option<&Vec<String>>, metadata: &Metadata, task: &String, force: bool, separator: char) -> (r: Self)
        ensures
            r.source_paths@ == joined(views(roots@), ' '),
            r.source_files@ == joined(selected(files@, *metadata, task@, force), separator),
            match libraries {
                Some(l) => r.libraries matches Some(s) && s@ == joined(with_extension(views(l@), "jar"@), separator),
                None => r.libraries is None,
            },
    {
        let (source_paths, source_files) = generate_source(roots, files, metadata, task, force, separator);
        let libraries = match libraries {
            Some(l) => Some(generate_libraries(l, separator)),
            None => None,
        };
        BuildInformation { source_paths, source_files, libraries }
    }

    pub fn source_paths(&self) -> (r: &str)
        ensures
            r@ == self.source_paths@,
    {
        self.source_paths.as_str()
    }

    pub fn source_files(&self) -> (r: &str)
        ensures
            r@ == self.source_files@,
    {
        self.source_files.as_str()
    }

    pub fn libraries(&self) -> (r: Option<&String>)
        ensures
            match r { Some(l) => self.libraries == Some(*l), None => self.libraries is None },
    {
        self.libraries.as_ref()
    }
}

} // verus!

verus! {

/// After building `task` at time `t`, rebuilding the same task without forcing
/// compiles only the file modified after `t`; another task compiles both.
pub proof fn lemma_incremental_selection(m: Metadata, task: Seq<char>, other: Seq<char>, a: String, b: String, ta: u128, tb: u128)
    requires
        last_task_view(m) == Some(task),
        ta < m.last_compilation_time,
        tb > m.last_compilation_time,
        other != task,
    ensures
        selected(seq![(a, ta), (b, tb)], m, task, false) == seq![b@],
        selected(seq![(a, ta), (b, tb)], m, other, false) == seq![a@, b@],
{
    reveal_with_fuel(selected, 3);
    let files = seq![(a, ta), (b, tb)];
    assert(files.last() == (b, tb));
    assert(seq![(a, ta)].last() == (a, ta));
    assert(must_compile(false, Some(task), other, m.last_compilation_time, ta));
    assert(!must_compile(false, Some(task), task, m.last_compilation_time, ta));
    assert(files.drop_last() =~= seq![(a, ta)]);
    assert(seq![(a, ta)].drop_last() =~= Seq::<(String, u128)>::empty());
    assert(selected(seq![(a, ta)], m, other, false) =~= seq![a@]);
    assert(selected(files, m, task, false) =~= seq![b@]);
    assert(selected(files, m, other, false) =~= seq![a@, b@]);
}

} // verus!
