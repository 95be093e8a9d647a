use vstd::prelude::*;

use crate::text::{
    file_name, file_name_of, first_two_tokens, is_plain_name, is_ws, lemma_plain_name_is_own_file_name,
    lemma_skip_token_to, lemma_skip_ws_to, two_tokens,
};

verus! {

/// The map that a list of `(name, hash)` insertions builds, later ones overriding earlier ones.
pub open spec fn map_of(es: Seq<(Seq<char>, Seq<char>)>) -> Map<Seq<char>, Seq<char>>
    decreases es.len(),
{
    if es.len() == 0 {
        Map::empty()
    } else {
        map_of(es.drop_last()).insert(es.last().0, es.last().1)
    }
}

/// The `(name, hash)` entry a manifest line gives: its first token is the hash, the
/// final component of its second token the name. Lines with fewer than two tokens,
/// or whose second token has no final component, give none.
pub open spec fn line_entry(line: Seq<char>) -> Option<(Seq<char>, Seq<char>)> {
    match first_two_tokens(line) {
        Some((hash, path)) => match file_name(path) {
            Some(name) => Some((name, hash)),
            None => None,
        },
        None => None,
    }
}

/// The lookup after one more manifest line.
pub open spec fn apply_line(m: Map<Seq<char>, Seq<char>>, line: Seq<char>) -> Map<Seq<char>, Seq<char>> {
    match line_entry(line) {
        Some((name, hash)) => m.insert(name, hash),
        None => m,
    }
}

/// The lookup a whole manifest gives, its lines read in order.
pub open spec fn manifest_of(lines: Seq<Seq<char>>) -> Map<Seq<char>, Seq<char>>
    decreases lines.len(),
{
    if lines.len() == 0 {
        Map::empty()
    } else {
        apply_line(manifest_of(lines.drop_last()), lines.last())
    }
}

/// Recorded hashes by bare file name.
pub struct ManifestLookup {
    entries: Vec<(String, String)>,
}

impl View for ManifestLookup {
    type V = Map<Seq<char>, Seq<char>>;

    closed spec fn view(&self) -> Map<Seq<char>, Seq<char>> {
        map_of(self.entries@.map_values(|e: (String, String)| (e.0@, e.1@)))
    }
}

proof fn lemma_map_of_last_match(es: Seq<(Seq<char>, Seq<char>)>, i: int, k: Seq<char>)
    requires
        0 <= i < es.len(),
        es[i].0 == k,
        forall|l: int| i < l < es.len() ==> es[l].0 != k,
    ensures
        map_of(es).contains_key(k),
        map_of(es)[k] == es[i].1,
    decreases es.len(),
{
    if i < es.len() - 1 {
        let d = es.drop_last();
        assert forall|l: int| i < l < d.len() implies d[l].0 != k by {
            assert(d[l] == es[l]);
        }
        lemma_map_of_last_match(d, i, k);
    }
}

proof fn lemma_map_of_absent(es: Seq<(Seq<char>, Seq<char>)>, k: Seq<char>)
    requires
        forall|l: int| 0 <= l < es.len() ==> es[l].0 != k,
    ensures
        !map_of(es).contains_key(k),
    decreases es.len(),
{
    if es.len() > 0 {
        let d = es.drop_last();
        assert forall|l: int| 0 <= l < d.len() implies d[l].0 != k by {
            assert(d[l] == es[l]);
        }
        lemma_map_of_absent(d, k);
    }
}

impl ManifestLookup {
    pub fn new() -> (r: ManifestLookup)
        ensures
            r@ == Map::<Seq<char>, Seq<char>>::empty(),
    {
        let r = ManifestLookup { entries: Vec::new() };
        proof {
            assert(r.entries@.map_values(|e: (String, String)| (e.0@, e.1@)).len() == 0);
        }
        r
    }

    /// Records `hash` for `name`, replacing any hash recorded for it before.
    pub fn insert(&mut self, name: String, hash: String)
        ensures
            final(self)@ == old(self)@.insert(name@, hash@),
    {
        let ghost before = self.entries@;
        self.entries.push((name, hash));
        proof {
            let f = |e: (String, String)| (e.0@, e.1@);
            assert(self.entries@.map_values(f).drop_last() =~= before.map_values(f));
        }
    }

    /// The hash recorded for `name`, if any.
    pub fn get(&self, name: &str) -> (r: Option<&String>)
        ensures
            match r {
                Some(h) => self@.contains_key(name@) && h@ == self@[name@],
                None => !self@.contains_key(name@),
            },
    {
        let ghost es = self.entries@.map_values(|e: (String, String)| (e.0@, e.1@));
        let key = name.to_string();
        let mut i = self.entries.len();
        while i > 0
            invariant
                i <= self.entries.len(),
                es == self.entries@.map_values(|e: (String, String)| (e.0@, e.1@)),
                key@ == name@,
                forall|l: int| i <= l < es.len() ==> es[l].0 != name@,
            decreases i,
        {
            assert(es[i - 1] == (self.entries@[i - 1].0@, self.entries@[i - 1].1@));
            if self.entries[i - 1].0 == key {
                proof {
                    lemma_map_of_last_match(es, i - 1, name@);
                }
                return Some(&self.entries[i - 1].1);
            }
            i = i - 1;
        }
        proof {
            lemma_map_of_absent(es, name@);
        }
        None
    }

    /// Takes one manifest line into the lookup: `<hash> <path>`, keyed by the path's
    /// final component. A line without two tokens leaves the lookup as it was.
    pub fn add_line(&mut self, line: &str)
        ensures
            final(self)@ == apply_line(old(self)@, line@),
    {
        match two_tokens(line) {
            Some((hash, path)) => match file_name_of(path.as_str()) {
                Some(name) => self.insert(name, hash),
                None => {},
            },
            None => {},
        }
    }

    /// The lookup a manifest gives, from its lines in order.
    pub fn from_lines(lines: &Vec<String>) -> (r: ManifestLookup)
        ensures
            r@ == manifest_of(lines@.map_values(|l: String| l@)),
    {
        let ghost ls = lines@.map_values(|l: String| l@);
        let mut r = ManifestLookup::new();
        for i in 0..lines.len()
            invariant
                ls == lines@.map_values(|l: String| l@),
                r@ == manifest_of(ls.take(i as int)),
        {
            proof {
                assert(ls.take(i + 1).drop_last() =~= ls.take(i as int));
            }
            r.add_line(lines[i].as_str());
        }
        proof {
            assert(ls.take(lines.len() as int) =~= ls);
        }
        r
    }
}

/// A line whose only token, if any, is `line[i..j]` adds nothing to the lookup.
pub proof fn lemma_short_line_adds_nothing(m: Map<Seq<char>, Seq<char>>, line: Seq<char>, i: int, j: int)
    requires
        0 <= i <= j <= line.len(),
        forall|k: int| 0 <= k < line.len() && !(i <= k < j) ==> is_ws(#[trigger] line[k]),
        forall|k: int| i <= k < j ==> !is_ws(#[trigger] line[k]),
    ensures
        first_two_tokens(line) is None,
        apply_line(m, line) == m,
{
    if i == j {
        lemma_skip_ws_to(line, 0, line.len() as int);
        lemma_skip_token_to(line, line.len() as int, line.len() as int);
    } else {
        lemma_skip_ws_to(line, 0, i);
        lemma_skip_token_to(line, i, j);
        lemma_skip_ws_to(line, j, line.len() as int);
    }
}

/// Where several manifest lines give the same name, the last of them decides its hash.
pub proof fn lemma_last_entry_wins(lines: Seq<Seq<char>>, i: int, name: Seq<char>, hash: Seq<char>)
    requires
        0 <= i < lines.len(),
        line_entry(lines[i]) == Some((name, hash)),
        forall|l: int| i < l < lines.len() ==> !(#[trigger] line_entry(lines[l]) is Some && line_entry(lines[l])->Some_0.0 == name),
    ensures
        manifest_of(lines).contains_key(name),
        manifest_of(lines)[name] == hash,
    decreases lines.len(),
{
    if i < lines.len() - 1 {
        let d = lines.drop_last();
        assert forall|l: int| i < l < d.len() implies !(#[trigger] line_entry(d[l]) is Some && line_entry(d[l])->Some_0.0 == name) by {
            assert(d[l] == lines[l]);
            assert(line_entry(lines[l]) is Some ==> line_entry(lines[l])->Some_0.0 != name);
        }
        lemma_last_entry_wins(d, i, name, hash);
        assert(line_entry(lines[lines.len() - 1]) is Some ==> line_entry(lines[lines.len() - 1])->Some_0.0 != name);
    }
}

/// The manifest line `<hash> <name>` records `hash` under `name`, for a hash and a
/// plain file name without whitespace.
pub proof fn lemma_manifest_line_entry(hash: Seq<char>, name: Seq<char>)
    requires
        hash.len() > 0,
        forall|k: int| 0 <= k < hash.len() ==> !is_ws(#[trigger] hash[k]),
        is_plain_name(name),
        forall|k: int| 0 <= k < name.len() ==> !is_ws(#[trigger] name[k]),
    ensures
        line_entry(hash + seq![' '] + name) == Some((name, hash)),
{
    let line = hash + seq![' '] + name;
    let h = hash.len() as int;
    assert(is_ws(' '));
    assert forall|k: int| 0 <= k < h implies !is_ws(#[trigger] line[k]) by {
        assert(line[k] == hash[k]);
    }
    assert forall|k: int| h + 1 <= k < line.len() implies !is_ws(#[trigger] line[k]) by {
        assert(line[k] == name[k - h - 1]);
    }
    assert(line[h] == ' ');
    lemma_skip_ws_to(line, 0, 0);
    lemma_skip_token_to(line, 0, h);
    lemma_skip_ws_to(line, h, h + 1);
    lemma_skip_token_to(line, h + 1, line.len() as int);
    assert(line.subrange(0, h) =~= hash);
    assert(line.subrange(h + 1, line.len() as int) =~= name);
    lemma_plain_name_is_own_file_name(name);
}

} // verus!
