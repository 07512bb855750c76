//! The manifest embedded in an artifact: "Key: Value" lines, long values
//! folded onto continuation lines that start with one space.
use vstd::prelude::*;
use crate::document::views;
use crate::text::join2;

verus! {

/// The widest a manifest line may be, in characters.
pub const FIRST_WIDTH: usize = 71;
/// The widest a continuation line's text may be, after its leading space.
pub const NEXT_WIDTH: usize = 70;

pub enum ManifestEntry {
    Version { version: String },
    CreatedBy { signature: String },
    MainClass { class: String },
    ClassPath { path: Vec<String> },
}

pub struct Manifest {
    pub entries: Vec<ManifestEntry>,
}

/// `items` separated by single spaces.
pub open spec fn spaced(items: Seq<Seq<char>>) -> Seq<char>
    decreases items.len(),
{
    if items.len() == 0 {
        Seq::empty()
    } else if items.len() == 1 {
        items[0]
    } else {
        spaced(items.drop_last()) + " "@ + items.last()
    }
}

/// `s` cut into lines of at most `width` characters, then at most
/// `NEXT_WIDTH` after a leading space; each line ends with a line break.
pub open spec fn folded(s: Seq<char>, width: nat) -> Seq<char>
    decreases s.len(),
{
    if s.len() <= width || width == 0 {
        s + "\n"@
    } else {
        s.subrange(0, width as int) + "\n "@ + folded(s.subrange(width as int, s.len() as int), NEXT_WIDTH as nat)
    }
}

pub open spec fn header(e: ManifestEntry) -> Seq<char> {
    match e {
        ManifestEntry::Version { version } => "Manifest-Version: "@ + version@ + "\n"@,
        ManifestEntry::CreatedBy { signature } => "Created-By: "@ + signature@ + "\n"@,
        ManifestEntry::MainClass { class } => "Main-Class: "@ + class@ + "\n"@,
        ManifestEntry::ClassPath { path } => if path@.len() == 0 {
            "Class-Path:"@
        } else {
            folded("Class-Path: "@ + spaced(views(path@)), FIRST_WIDTH as nat)
        },
    }
}

pub open spec fn headers(es: Seq<ManifestEntry>) -> Seq<char>
    decreases es.len(),
{
    if es.len() == 0 { Seq::empty() } else { headers(es.drop_last()) + header(es.last()) }
}

/// `s` folded as `folded` describes.
fn fold(s: &str, first: usize) -> (r: String)
    requires
        first == FIRST_WIDTH,
    ensures
        r@ == folded(s@, first as nat),
{
    let len = s.unicode_len();
    let mut out = String::new();
    let mut start: usize = 0;
    let mut width: usize = first;
    assert(s@.subrange(0, len as int) =~= s@);
    assert(out@ + folded(s@, FIRST_WIDTH as nat) =~= folded(s@, FIRST_WIDTH as nat));
    while len - start > width
        invariant
            len == s@.len(),
            start <= len,
            width == FIRST_WIDTH || width == NEXT_WIDTH,
            out@ + folded(s@.subrange(start as int, len as int), width as nat) == folded(s@, FIRST_WIDTH as nat),
        decreases len - start,
    {
        let ghost rest = s@.subrange(start as int, len as int);
        let piece = s.substring_char(start, start + width);
        let ghost before = out@;
        out = out.concat(piece).concat("\n ");
        proof {
            assert(rest.subrange(0, width as int) =~= piece@);
            assert(rest.subrange(width as int, rest.len() as int) =~= s@.subrange(start + width, len as int));
            assert(before + folded(rest, width as nat) =~= out@ + folded(s@.subrange(start + width, len as int), NEXT_WIDTH as nat));
        }
        start = start + width;
        width = NEXT_WIDTH;
    }
    let ghost before = out@;
    out = out.concat(s.substring_char(start, len)).concat("\n");
    assert(before + folded(s@.subrange(start as int, len as int), width as nat) =~= out@);
    out
}

fn spaced_join(items: &Vec<String>) -> (r: String)
    ensures
        r@ == spaced(views(items@)),
{
    let mut s = String::new();
    let mut i: usize = 0;
    while i < items.len()
        invariant
            i <= items.len(),
            s@ == spaced(views(items@.subrange(0, i as int))),
        decreases items.len() - i,
    {
        let ghost before = views(items@.subrange(0, i as int));
        if i > 0 {
            s = s.concat(" ");
        }
        s = s.concat(items[i].as_str());
        proof {
            let now = views(items@.subrange(0, i + 1));
            assert(now.drop_last() =~= before);
            if i == 0 {
                assert(now =~= seq![items@[0]@]);
            }
        }
        i = i + 1;
    }
    assert(items@.subrange(0, items@.len() as int) =~= items@);
    s
}

impl ManifestEntry {
    /// This entry's lines in the manifest.
    pub fn to_header(&self) -> (r: String)
        ensures
            r@ == header(*self),
    {
        match self {
            ManifestEntry::Version { version } => join2("Manifest-Version: ", version.as_str()).concat("\n"),
            ManifestEntry::CreatedBy { signature } => join2("Created-By: ", signature.as_str()).concat("\n"),
            ManifestEntry::MainClass { class } => join2("Main-Class: ", class.as_str()).concat("\n"),
            ManifestEntry::ClassPath { path } => {
                if path.len() == 0 {
                    return String::from_str("Class-Path:");
                }
                let raw = join2("Class-Path: ", spaced_join(path).as_str());
                fold(raw.as_str(), FIRST_WIDTH)
            },
        }
    }
}

impl Manifest {
    /// A manifest holding only its version line.
    pub fn new() -> (r: Self)
        ensures
            r.entries@.len() == 1,
            r.entries@[0] matches ManifestEntry::Version { version } && version@ == "1.0"@,
    {
        let mut entries: Vec<ManifestEntry> = Vec::new();
        entries.push(ManifestEntry::Version { version: String::from_str("1.0") });
        Manifest { entries }
    }

    pub fn add_entry(&mut self, entry: ManifestEntry)
        ensures
            final(self).entries@ == old(self).entries@.push(entry),
    {
        self.entries.push(entry);
    }

    /// The manifest's text: each entry's lines, in order.
    pub fn to_file(&self) -> (r: String)
        ensures
            r@ == headers(self.entries@),
    {
        let mut s = String::new();
        let mut i: usize = 0;
        while i < self.entries.len()
            invariant
                i <= self.entries.len(),
                s@ == headers(self.entries@.subrange(0, i as int)),
            decreases self.entries.len() - i,
        {
            assert(self.entries@.subrange(0, i + 1).drop_last() =~= self.entries@.subrange(0, i as int));
            let h = self.entries[i].to_header();
            s = s.concat(h.as_str());
            i = i + 1;
        }
        assert(self.entries@.subrange(0, self.entries@.len() as int) =~= self.entries@);
        s
    }
}

} // verus!
