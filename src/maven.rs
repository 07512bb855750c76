//! Version listings published by a Maven repository, and project natures.
use vstd::prelude::*;
use crate::dependency::opt_view;

verus! {

/// The versions of an artifact a repository lists.
pub struct MavenMetadata {
    pub latest: Option<String>,
    pub release: Option<String>,
    pub versions: Vec<String>,
}

/// One published file of a snapshot version.
pub struct SnapshotVersion {
    pub classifier: Option<String>,
    pub extension: String,
    pub value: String,
}

/// The published files of a snapshot version.
pub struct SnapshotMetadata {
    pub snapshot_versions: Vec<SnapshotVersion>,
}

impl MavenMetadata {
    pub fn latest(&self) -> (r: Option<&String>)
        ensures
            match r { Some(v) => self.latest == Some(*v), None => self.latest is None },
    {
        self.latest.as_ref()
    }

    pub fn release(&self) -> (r: Option<&String>)
        ensures
            match r { Some(v) => self.release == Some(*v), None => self.release is None },
    {
        self.release.as_ref()
    }

    pub fn versions(&self) -> (r: &[String])
        ensures
            r@ == self.versions@,
    {
        self.versions.as_slice()
    }
}

/// Whether the file `v` is the archive with the classifier `c` (none for the plain archive).
pub open spec fn is_archive_for(v: SnapshotVersion, c: Option<Seq<char>>) -> bool {
    v.extension@ == "jar"@ && opt_view(v.classifier) == c
}

/// The position of the first archive with classifier `c`, if any.
pub open spec fn archive_pos(vs: Seq<SnapshotVersion>, c: Option<Seq<char>>) -> Option<int>
    decreases vs.len(),
{
    if vs.len() == 0 {
        None
    } else if is_archive_for(vs.last(), c) && archive_pos(vs.drop_last(), c) is None {
        Some(vs.len() - 1)
    } else {
        archive_pos(vs.drop_last(), c)
    }
}

proof fn lemma_archive_pos_none(vs: Seq<SnapshotVersion>, c: Option<Seq<char>>)
    requires
        forall|j: int| 0 <= j < vs.len() ==> !is_archive_for(#[trigger] vs[j], c),
    ensures
        archive_pos(vs, c) is None,
    decreases vs.len(),
{
    if vs.len() > 0 {
        lemma_archive_pos_none(vs.drop_last(), c);
    }
}

proof fn lemma_archive_pos_first(vs: Seq<SnapshotVersion>, c: Option<Seq<char>>, i: int)
    requires
        0 <= i < vs.len(),
        is_archive_for(vs[i], c),
        forall|j: int| 0 <= j < i ==> !is_archive_for(#[trigger] vs[j], c),
    ensures
        archive_pos(vs, c) == Some(i),
    decreases vs.len(),
{
    if i == vs.len() - 1 {
        lemma_archive_pos_none(vs.drop_last(), c);
    } else {
        let d = vs.drop_last();
        assert(d[i] == vs[i]);
        lemma_archive_pos_first(d, c, i);
    }
}

impl SnapshotMetadata {
    /// The version value of the first archive published with `classifier`,
    /// or of the first plain archive when no classifier is given.
    pub fn from_classifier(&self, classifier: Option<&String>) -> (r: Option<String>)
        ensures
            match archive_pos(self.snapshot_versions@, match classifier { Some(c) => Some(c@), None => None }) {
                Some(i) => r matches Some(v) && v@ == self.snapshot_versions@[i].value@,
                None => r is None,
            },
    {
        let ghost c = match classifier { Some(c) => Some(c@), None => None };
        let jar = String::from_str("jar");
        let mut i: usize = 0;
        while i < self.snapshot_versions.len()
            invariant
                i <= self.snapshot_versions.len(),
                jar@ == "jar"@,
                c == match classifier { Some(c) => Some(c@), None => None },
                forall|j: int| 0 <= j < i ==> !is_archive_for(#[trigger] self.snapshot_versions@[j], c),
            decreases self.snapshot_versions.len() - i,
        {
            let v = &self.snapshot_versions[i];
            let matches_classifier = match (classifier, &v.classifier) {
                (None, None) => true,
                (Some(want), Some(have)) => *want == *have,
                _ => false,
            };
            if v.extension == jar && matches_classifier {
                proof { lemma_archive_pos_first(self.snapshot_versions@, c, i as int); }
                return Some(v.value.clone());
            }
            i = i + 1;
        }
        proof { lemma_archive_pos_none(self.snapshot_versions@, c); }
        None
    }
}

/// An IDE or build-tool integration a configuration can enable.
#[derive(Clone, Copy, PartialEq, Eq, Structural, Debug)]
pub enum Nature {
    Eclipse,
    Maven,
}

impl Nature {
    pub fn type_str(&self) -> (r: &'static str)
        ensures
            r@ == match *self { Nature::Eclipse => "Eclipse"@, Nature::Maven => "Maven"@ },
    {
        match self {
            Nature::Eclipse => "Eclipse",
            Nature::Maven => "Maven",
        }
    }

    /// Every nature, in declaration order.
    pub fn values() -> (r: Vec<Nature>)
        ensures
            r@ == seq![Nature::Eclipse, Nature::Maven],
    {
        let mut v: Vec<Nature> = Vec::new();
        v.push(Nature::Eclipse);
        v.push(Nature::Maven);
        assert(v@ =~= seq![Nature::Eclipse, Nature::Maven]);
        v
    }
}

} // verus!
