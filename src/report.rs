use vstd::prelude::*;

use crate::digest::{digest_text, Digest};
use crate::engine::{count_passing, passes, status_of, Aggregator, LiveRecord, Status};
use crate::manifest::ManifestLookup;
use crate::text::{bare_name, bare_name_of};

verus! {

/// One line of the report: bare file name, hash column, status.
pub struct ReportLine {
    pub filename: String,
    pub hash: String,
    pub status: Status,
}

impl View for ReportLine {
    type V = (Seq<char>, Seq<char>, Status);

    open spec fn view(&self) -> (Seq<char>, Seq<char>, Status) {
        (self.filename@, self.hash@, self.status)
    }
}

/// A file whose name the manifest records, with another hash than the one computed.
pub struct Mismatch {
    pub filename: String,
    pub live: String,
    pub reference: String,
}

impl View for Mismatch {
    type V = (Seq<char>, Seq<char>, Seq<char>);

    open spec fn view(&self) -> (Seq<char>, Seq<char>, Seq<char>) {
        (self.filename@, self.live@, self.reference@)
    }
}

pub struct Report {
    pub lines: Vec<ReportLine>,
    pub mismatches: Vec<Mismatch>,
}

pub open spec fn report_line(m: Map<Seq<char>, Seq<char>>, r: (Seq<char>, Option<Seq<char>>)) -> (Seq<char>, Seq<char>, Status) {
    (bare_name(r.0), digest_text(r.1), status_of(m, r.0, r.1))
}

/// The mismatch detail of one record: present only where the manifest records its name.
pub open spec fn mismatch_of(m: Map<Seq<char>, Seq<char>>, r: (Seq<char>, Option<Seq<char>>)) -> Option<(Seq<char>, Seq<char>, Seq<char>)> {
    if m.contains_key(bare_name(r.0)) && !passes(m, r.0, r.1) {
        Some((bare_name(r.0), digest_text(r.1), m[bare_name(r.0)]))
    } else {
        None
    }
}

pub open spec fn mismatches_of(m: Map<Seq<char>, Seq<char>>, rs: Seq<(Seq<char>, Option<Seq<char>>)>) -> Seq<(Seq<char>, Seq<char>, Seq<char>)>
    decreases rs.len(),
{
    if rs.len() == 0 {
        Seq::empty()
    } else {
        let before = mismatches_of(m, rs.drop_last());
        match mismatch_of(m, rs.last()) {
            Some(x) => before.push(x),
            None => before,
        }
    }
}

pub open spec fn status_word(s: Status) -> Seq<char> {
    match s {
        Status::Match => "MATCH"@,
        Status::Fail => "FAIL"@,
    }
}

/// `filename<TAB>hash<TAB>status`.
pub open spec fn line_text(l: (Seq<char>, Seq<char>, Status)) -> Seq<char> {
    l.0 + "\t"@ + l.1 + "\t"@ + status_word(l.2)
}

/// Each line's text followed by a newline, in order.
pub open spec fn report_text(ls: Seq<(Seq<char>, Seq<char>, Status)>) -> Seq<char>
    decreases ls.len(),
{
    if ls.len() == 0 {
        Seq::empty()
    } else {
        report_text(ls.drop_last()) + line_text(ls.last()) + "\n"@
    }
}

fn report_entry(reference: &ManifestLookup, rec: &LiveRecord) -> (r: (ReportLine, Option<Mismatch>))
    ensures
        r.0@ == report_line(reference@, rec@),
        match (r.1, mismatch_of(reference@, rec@)) {
            (Some(x), Some(sx)) => x@ == sx,
            (None, None) => true,
            _ => false,
        },
{
    let filename = bare_name_of(rec.path.as_str());
    let hash = rec.digest.text();
    match reference.get(filename.as_str()) {
        Some(recorded) => {
            let matched = match &rec.digest {
                Digest::Computed(live) => *live == *recorded,
                Digest::ReadFailed => false,
            };
            if matched {
                (ReportLine { filename, hash, status: Status::Match }, None)
            } else {
                let m = Mismatch { filename: filename.clone(), live: hash.clone(), reference: recorded.clone() };
                (ReportLine { filename, hash, status: Status::Fail }, Some(m))
            }
        },
        None => (ReportLine { filename, hash, status: Status::Fail }, None),
    }
}

/// Classifies every recorded file afresh against `reference`, in the order recorded.
pub fn build_report(reference: &ManifestLookup, records: &Vec<LiveRecord>) -> (r: Report)
    ensures
        r.lines.len() == records.len(),
        forall|i: int| 0 <= i < records.len() ==> #[trigger] r.lines@[i]@ == report_line(reference@, records@[i]@),
        r.mismatches@.map_values(|x: Mismatch| x@) == mismatches_of(reference@, records@.map_values(|x: LiveRecord| x@)),
{
    let ghost rs = records@.map_values(|x: LiveRecord| x@);
    let mut lines: Vec<ReportLine> = Vec::new();
    let mut mismatches: Vec<Mismatch> = Vec::new();
    for i in 0..records.len()
        invariant
            rs == records@.map_values(|x: LiveRecord| x@),
            lines.len() == i,
            forall|j: int| 0 <= j < i ==> #[trigger] lines@[j]@ == report_line(reference@, records@[j]@),
            mismatches@.map_values(|x: Mismatch| x@) == mismatches_of(reference@, rs.take(i as int)),
    {
        let (line, mismatch) = report_entry(reference, &records[i]);
        let ghost before = mismatches@;
        proof {
            assert(rs.take(i + 1).drop_last() =~= rs.take(i as int));
            assert(rs.take(i + 1).last() == records@[i as int]@);
        }
        lines.push(line);
        match mismatch {
            Some(x) => {
                mismatches.push(x);
                proof {
                    assert(mismatches@.map_values(|x: Mismatch| x@) =~= before.map_values(|x: Mismatch| x@).push(mismatches@.last()@));
                }
            },
            None => {},
        }
    }
    proof {
        assert(rs.take(records.len() as int) =~= rs);
    }
    Report { lines, mismatches }
}

impl ReportLine {
    pub fn to_text(&self) -> (r: String)
        ensures
            r@ == line_text(self@),
    {
        let mut r = self.filename.clone();
        r.append("\t");
        r.append(self.hash.as_str());
        r.append("\t");
        match self.status {
            Status::Match => r.append("MATCH"),
            Status::Fail => r.append("FAIL"),
        }
        r
    }
}

impl Report {
    /// The report file's content: one line per recorded file.
    pub fn render(&self) -> (r: String)
        ensures
            r@ == report_text(self.lines@.map_values(|l: ReportLine| l@)),
    {
        let ghost ls = self.lines@.map_values(|l: ReportLine| l@);
        let mut r = String::new();
        for i in 0..self.lines.len()
            invariant
                ls == self.lines@.map_values(|l: ReportLine| l@),
                r@ == report_text(ls.take(i as int)),
        {
            proof {
                assert(ls.take(i + 1).drop_last() =~= ls.take(i as int));
            }
            let t = self.lines[i].to_text();
            r.append(t.as_str());
            r.append("\n");
        }
        proof {
            assert(ls.take(self.lines.len() as int) =~= ls);
        }
        r
    }
}

impl Aggregator {
    /// The report on every file recorded, classified afresh against `reference`.
    pub fn report(&self, reference: &ManifestLookup) -> (r: Report)
        ensures
            r.lines.len() == self.live().len(),
            forall|i: int| 0 <= i < self.live().len() ==> #[trigger] r.lines@[i]@ == report_line(reference@, self.live()[i]),
            r.mismatches@.map_values(|x: Mismatch| x@) == mismatches_of(reference@, self.live()),
    {
        let records = self.records();
        let r = build_report(reference, records);
        proof {
            assert forall|i: int| 0 <= i < self.live().len() implies #[trigger] r.lines@[i]@ == report_line(reference@, self.live()[i]) by {
                assert(self.live()[i] == records@.map_values(|x: LiveRecord| x@)[i]);
            }
        }
        r
    }
}

/// How one file is reported against `m`: `MATCH` with no mismatch where the manifest
/// records its name with the digest computed; `FAIL` with the mismatch
/// `(name, live, recorded)` where it records another hash; `FAIL` with no mismatch
/// where it does not record the name.
pub proof fn lemma_classification(m: Map<Seq<char>, Seq<char>>, path: Seq<char>, d: Option<Seq<char>>)
    ensures
        m.contains_key(bare_name(path)) && d == Some(m[bare_name(path)]) ==> report_line(m, (path, d)).2
            == Status::Match && mismatch_of(m, (path, d)) is None,
        m.contains_key(bare_name(path)) && d != Some(m[bare_name(path)]) ==> report_line(m, (path, d)).2
            == Status::Fail && mismatch_of(m, (path, d)) == Some(
            (bare_name(path), digest_text(d), m[bare_name(path)]),
        ),
        !m.contains_key(bare_name(path)) ==> report_line(m, (path, d)).2 == Status::Fail && mismatch_of(
            m,
            (path, d),
        ) is None,
{
}

/// How many report lines say `MATCH`.
pub open spec fn match_lines(ls: Seq<(Seq<char>, Seq<char>, Status)>) -> nat
    decreases ls.len(),
{
    if ls.len() == 0 {
        0
    } else {
        match_lines(ls.drop_last()) + if ls.last().2 == Status::Match {
            1nat
        } else {
            0nat
        }
    }
}

/// Against the lookup the hashing phase used, the report's `MATCH` lines are as many
/// as the passes tallied, and its `FAIL` lines as many as the fails.
pub proof fn lemma_report_agrees_with_tally(agg: &Aggregator)
    requires
        agg.wf(),
    ensures
        match_lines(agg.live().map_values(|r: (Seq<char>, Option<Seq<char>>)| report_line(agg.lookup_map(), r)))
            == agg.pass_count(),
        agg.live().len() - agg.pass_count() == agg.fail_count(),
{
    lemma_match_lines_count_passing(agg.lookup_map(), agg.live());
}

proof fn lemma_match_lines_count_passing(m: Map<Seq<char>, Seq<char>>, rs: Seq<(Seq<char>, Option<Seq<char>>)>)
    ensures
        match_lines(rs.map_values(|r: (Seq<char>, Option<Seq<char>>)| report_line(m, r))) == count_passing(m, rs),
    decreases rs.len(),
{
    if rs.len() > 0 {
        let f = |r: (Seq<char>, Option<Seq<char>>)| report_line(m, r);
        assert(rs.map_values(f).drop_last() =~= rs.drop_last().map_values(f));
        lemma_match_lines_count_passing(m, rs.drop_last());
    }
}

} // verus!
