use vstd::prelude::*;

use crate::digest::Digest;
use crate::manifest::{apply_line, lemma_manifest_line_entry, ManifestLookup};
use crate::text::{bare_name, bare_name_of, file_name, is_ws, lemma_file_name_is_plain};

verus! {

/// Whether a file at `path` with hashing outcome `d` agrees with the lookup `m`:
/// its bare name is recorded there, and with exactly the digest computed.
pub open spec fn passes(m: Map<Seq<char>, Seq<char>>, path: Seq<char>, d: Option<Seq<char>>) -> bool {
    m.contains_key(bare_name(path)) && d == Some(m[bare_name(path)])
}

#[derive(PartialEq, Eq, Structural, Clone, Copy, Debug)]
pub enum Status {
    Match,
    Fail,
}

pub open spec fn status_of(m: Map<Seq<char>, Seq<char>>, path: Seq<char>, d: Option<Seq<char>>) -> Status {
    if passes(m, path, d) {
        Status::Match
    } else {
        Status::Fail
    }
}

/// How many of the records `rs` agree with `m`.
pub open spec fn count_passing(m: Map<Seq<char>, Seq<char>>, rs: Seq<(Seq<char>, Option<Seq<char>>)>) -> nat
    decreases rs.len(),
{
    if rs.len() == 0 {
        0
    } else {
        count_passing(m, rs.drop_last()) + if passes(m, rs.last().0, rs.last().1) {
            1nat
        } else {
            0nat
        }
    }
}

/// Classifies a file at `path` with hashing outcome `digest` against `lookup`.
pub fn classify(lookup: &ManifestLookup, path: &str, digest: &Digest) -> (s: Status)
    ensures
        s == status_of(lookup@, path@, digest@),
{
    let name = bare_name_of(path);
    match (lookup.get(name.as_str()), digest) {
        (Some(recorded), Digest::Computed(live)) => {
            if *recorded == *live {
                Status::Match
            } else {
                Status::Fail
            }
        },
        _ => Status::Fail,
    }
}

/// One hashed file: its path relative to the scan root and its hashing outcome.
pub struct LiveRecord {
    pub path: String,
    pub digest: Digest,
}

impl View for LiveRecord {
    type V = (Seq<char>, Option<Seq<char>>);

    open spec fn view(&self) -> (Seq<char>, Option<Seq<char>>) {
        (self.path@, self.digest@)
    }
}

/// The shared state of the hashing phase: the lookup every file is compared with,
/// each file hashed so far, and the pass and fail tallies.
pub struct Aggregator {
    lookup: ManifestLookup,
    records: Vec<LiveRecord>,
    pass: u64,
    fail: u64,
}

impl Aggregator {
    pub closed spec fn lookup_map(&self) -> Map<Seq<char>, Seq<char>> {
        self.lookup@
    }

    /// The files recorded so far, in the order they were recorded.
    pub closed spec fn live(&self) -> Seq<(Seq<char>, Option<Seq<char>>)> {
        self.records@.map_values(|r: LiveRecord| r@)
    }

    pub closed spec fn pass_count(&self) -> nat {
        self.pass as nat
    }

    pub closed spec fn fail_count(&self) -> nat {
        self.fail as nat
    }

    /// Every recorded file is counted once: as a pass where it agrees with the lookup,
    /// else as a fail.
    pub open spec fn wf(&self) -> bool {
        &&& self.pass_count() + self.fail_count() == self.live().len()
        &&& self.pass_count() == count_passing(self.lookup_map(), self.live())
    }

    pub fn new(lookup: ManifestLookup) -> (r: Aggregator)
        ensures
            r.wf(),
            r.lookup_map() == lookup@,
            r.live() == Seq::<(Seq<char>, Option<Seq<char>>)>::empty(),
            r.pass_count() == 0,
            r.fail_count() == 0,
    {
        let r = Aggregator { lookup, records: Vec::new(), pass: 0, fail: 0 };
        proof {
            assert(r.live() =~= Seq::<(Seq<char>, Option<Seq<char>>)>::empty());
        }
        r
    }

    /// Records one hashed file, counting it as a pass or a fail.
    pub fn record(&mut self, path: String, digest: Digest) -> (s: Status)
        requires
            old(self).wf(),
            old(self).live().len() < u64::MAX,
        ensures
            final(self).wf(),
            s == status_of(old(self).lookup_map(), path@, digest@),
            final(self).lookup_map() == old(self).lookup_map(),
            final(self).live() == old(self).live().push((path@, digest@)),
            final(self).pass_count() == old(self).pass_count() + if s == Status::Match {
                1nat
            } else {
                0nat
            },
            final(self).fail_count() == old(self).fail_count() + if s == Status::Fail {
                1nat
            } else {
                0nat
            },
    {
        let s = classify(&self.lookup, path.as_str(), &digest);
        let ghost before = self.live();
        let ghost entry = (path@, digest@);
        if s == Status::Match {
            self.pass = self.pass + 1;
        } else {
            self.fail = self.fail + 1;
        }
        self.records.push(LiveRecord { path, digest });
        proof {
            assert(self.live() =~= before.push(entry));
            assert(self.live().drop_last() =~= before);
        }
        s
    }

    pub fn pass(&self) -> (r: u64)
        ensures
            r == self.pass_count(),
    {
        self.pass
    }

    pub fn fail(&self) -> (r: u64)
        ensures
            r == self.fail_count(),
    {
        self.fail
    }

    pub fn records(&self) -> (r: &Vec<LiveRecord>)
        ensures
            r@.map_values(|x: LiveRecord| x@) == self.live(),
    {
        &self.records
    }
}

/// After the hashing phase, every file recorded has been counted exactly once.
pub proof fn lemma_every_file_counted_once(agg: &Aggregator)
    requires
        agg.wf(),
    ensures
        agg.pass_count() + agg.fail_count() == agg.live().len(),
{
}

/// Writing a file's digest and bare name as a manifest line `<hash> <name>` and taking
/// that line into any lookup makes the same file, with the same digest, pass.
pub proof fn lemma_round_trip(m: Map<Seq<char>, Seq<char>>, path: Seq<char>, hash: Seq<char>)
    requires
        file_name(path) is Some,
        forall|k: int| 0 <= k < bare_name(path).len() ==> !is_ws(#[trigger] bare_name(path)[k]),
        hash.len() > 0,
        forall|k: int| 0 <= k < hash.len() ==> !is_ws(#[trigger] hash[k]),
    ensures
        passes(apply_line(m, hash + seq![' '] + bare_name(path)), path, Some(hash)),
        status_of(apply_line(m, hash + seq![' '] + bare_name(path)), path, Some(hash)) == Status::Match,
{
    lemma_file_name_is_plain(path);
    lemma_manifest_line_entry(hash, bare_name(path));
}

} // verus!
