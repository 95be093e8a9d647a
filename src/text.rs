use vstd::prelude::*;

verus! {

/// The characters of `s`, one element each.
pub fn chars_of(s: &str) -> (r: Vec<char>)
    ensures
        r@ == s@,
{
    let mut r: Vec<char> = Vec::new();
    for c in it: s.chars()
        invariant
            it.seq() == s@,
            r@ == it.seq().take(it.index() as int),
    {
        r.push(c);
    }
    r
}

/// Unicode `White_Space`: the characters that separate tokens in a manifest line.
pub open spec fn is_ws(c: char) -> bool {
    let u = c as u32;
    (9 <= u <= 13) || u == 32 || u == 0x85 || u == 0xa0 || u == 0x1680 || (0x2000 <= u <= 0x200a)
        || u == 0x2028 || u == 0x2029 || u == 0x202f || u == 0x205f || u == 0x3000
}

pub fn is_ws_char(c: char) -> (b: bool)
    ensures
        b == is_ws(c),
{
    let u = c as u32;
    (9 <= u && u <= 13) || u == 32 || u == 0x85 || u == 0xa0 || u == 0x1680 || (0x2000 <= u && u
        <= 0x200a) || u == 0x2028 || u == 0x2029 || u == 0x202f || u == 0x205f || u == 0x3000
}

/// First index at or after `i` that does not hold whitespace (or the end).
pub open spec fn skip_ws(s: Seq<char>, i: int) -> int
    decreases s.len() - i,
{
    if 0 <= i < s.len() && is_ws(s[i]) {
        skip_ws(s, i + 1)
    } else {
        i
    }
}

/// First index at or after `i` that holds whitespace (or the end).
pub open spec fn skip_token(s: Seq<char>, i: int) -> int
    decreases s.len() - i,
{
    if 0 <= i < s.len() && !is_ws(s[i]) {
        skip_token(s, i + 1)
    } else {
        i
    }
}

/// The first two whitespace-separated tokens of `s`, where there are two.
pub open spec fn first_two_tokens(s: Seq<char>) -> Option<(Seq<char>, Seq<char>)> {
    let a0 = skip_ws(s, 0);
    let b0 = skip_token(s, a0);
    let a1 = skip_ws(s, b0);
    let b1 = skip_token(s, a1);
    if a1 < s.len() {
        Some((s.subrange(a0, b0), s.subrange(a1, b1)))
    } else {
        None
    }
}

fn skip_ws_exec(s: &Vec<char>, i: usize) -> (j: usize)
    requires
        i <= s.len(),
    ensures
        i <= j <= s.len(),
        j == skip_ws(s@, i as int),
{
    let mut j = i;
    while j < s.len() && is_ws_char(s[j])
        invariant
            i <= j <= s.len(),
            skip_ws(s@, j as int) == skip_ws(s@, i as int),
        decreases s.len() - j,
    {
        j = j + 1;
    }
    j
}

fn skip_token_exec(s: &Vec<char>, i: usize) -> (j: usize)
    requires
        i <= s.len(),
    ensures
        i <= j <= s.len(),
        j == skip_token(s@, i as int),
{
    let mut j = i;
    while j < s.len() && !is_ws_char(s[j])
        invariant
            i <= j <= s.len(),
            skip_token(s@, j as int) == skip_token(s@, i as int),
        decreases s.len() - j,
    {
        j = j + 1;
    }
    j
}

/// The first two whitespace-separated tokens of `line`, or `None` where it has fewer.
pub fn two_tokens(line: &str) -> (r: Option<(String, String)>)
    ensures
        match (r, first_two_tokens(line@)) {
            (Some((t0, t1)), Some((s0, s1))) => t0@ == s0 && t1@ == s1,
            (None, None) => true,
            _ => false,
        },
{
    let s = chars_of(line);
    let a0 = skip_ws_exec(&s, 0);
    let b0 = skip_token_exec(&s, a0);
    let a1 = skip_ws_exec(&s, b0);
    let b1 = skip_token_exec(&s, a1);
    if a1 < s.len() {
        let t0 = line.substring_char(a0, b0).to_string();
        let t1 = line.substring_char(a1, b1).to_string();
        Some((t0, t1))
    } else {
        None
    }
}

/// Start of the path component that ends at `j`: just after the nearest `/` before `j`.
pub open spec fn comp_start(p: Seq<char>, j: int) -> int
    decreases j,
{
    if 0 < j <= p.len() && p[j - 1] != '/' {
        comp_start(p, j - 1)
    } else {
        j
    }
}

/// Where the final component of `p[..j]` lies, if it is a normal one: trailing `/`
/// and `.` components are passed over; a lone `.`, a `..`, an empty path or the root
/// have no file name.
pub open spec fn name_range(p: Seq<char>, j: int) -> Option<(int, int)>
    decreases j,
{
    if j <= 0 || j > p.len() {
        None
    } else if p[j - 1] == '/' {
        name_range(p, j - 1)
    } else if p[j - 1] == '.' && (j == 1 || p[j - 2] == '/') {
        name_range(p, j - 1)
    } else {
        let k = comp_start(p, j);
        if j - k == 2 && p[k] == '.' && p[k + 1] == '.' {
            None
        } else {
            Some((k, j))
        }
    }
}

/// The final normal component of a `/`-separated path.
pub open spec fn file_name(p: Seq<char>) -> Option<Seq<char>> {
    match name_range(p, p.len() as int) {
        Some((k, j)) => Some(p.subrange(k, j)),
        None => None,
    }
}

/// The name a path is matched by: its final component, or the whole path where it has none.
pub open spec fn bare_name(p: Seq<char>) -> Seq<char> {
    match file_name(p) {
        Some(n) => n,
        None => p,
    }
}

fn comp_start_exec(p: &Vec<char>, j: usize) -> (k: usize)
    requires
        j <= p.len(),
    ensures
        k <= j,
        k == comp_start(p@, j as int),
        forall|i: int| k <= i < j ==> p@[i] != '/',
{
    let mut k = j;
    while k > 0 && p[k - 1] != '/'
        invariant
            k <= j <= p.len(),
            comp_start(p@, k as int) == comp_start(p@, j as int),
            forall|i: int| k <= i < j ==> p@[i] != '/',
        decreases k,
    {
        k = k - 1;
    }
    k
}

fn name_range_exec(p: &Vec<char>) -> (r: Option<(usize, usize)>)
    ensures
        match (r, name_range(p@, p@.len() as int)) {
            (Some((k, j)), Some((sk, sj))) => k == sk && j == sj && k <= j <= p.len(),
            (None, None) => true,
            _ => false,
        },
{
    let mut j = p.len();
    loop
        invariant
            j <= p.len(),
            name_range(p@, j as int) == name_range(p@, p@.len() as int),
        decreases j,
    {
        if j == 0 {
            return None;
        }
        if p[j - 1] == '/' || (p[j - 1] == '.' && (j == 1 || p[j - 2] == '/')) {
            j = j - 1;
        } else {
            let k = comp_start_exec(p, j);
            if j - k == 2 && p[k] == '.' && p[k + 1] == '.' {
                return None;
            }
            return Some((k, j));
        }
    }
}

/// The final normal component of `path`, as `Path::file_name` gives it on Unix.
pub fn file_name_of(path: &str) -> (r: Option<String>)
    ensures
        match (r, file_name(path@)) {
            (Some(n), Some(sn)) => n@ == sn,
            (None, None) => true,
            _ => false,
        },
{
    let p = chars_of(path);
    match name_range_exec(&p) {
        Some((k, j)) => Some(path.substring_char(k, j).to_string()),
        None => None,
    }
}

/// The name `path` is looked up by in a manifest.
pub fn bare_name_of(path: &str) -> (r: String)
    ensures
        r@ == bare_name(path@),
{
    match file_name_of(path) {
        Some(n) => n,
        None => path.to_string(),
    }
}

pub proof fn lemma_skip_ws_to(s: Seq<char>, i: int, j: int)
    requires
        0 <= i <= j <= s.len(),
        forall|k: int| i <= k < j ==> is_ws(#[trigger] s[k]),
        j == s.len() || !is_ws(s[j]),
    ensures
        skip_ws(s, i) == j,
    decreases j - i,
{
    if i < j {
        lemma_skip_ws_to(s, i + 1, j);
    }
}

pub proof fn lemma_skip_token_to(s: Seq<char>, i: int, j: int)
    requires
        0 <= i <= j <= s.len(),
        forall|k: int| i <= k < j ==> !is_ws(#[trigger] s[k]),
        j == s.len() || is_ws(s[j]),
    ensures
        skip_token(s, i) == j,
    decreases j - i,
{
    if i < j {
        lemma_skip_token_to(s, i + 1, j);
    }
}

proof fn lemma_comp_start(p: Seq<char>, j: int)
    requires
        0 <= j <= p.len(),
    ensures
        0 <= comp_start(p, j) <= j,
        comp_start(p, j) == 0 || p[comp_start(p, j) - 1] == '/',
        forall|i: int| comp_start(p, j) <= i < j ==> p[i] != '/',
    decreases j,
{
    if j > 0 && p[j - 1] != '/' {
        lemma_comp_start(p, j - 1);
    }
}

/// A path's file name is one plain component: not empty, without `/`, and neither
/// `.` nor `..`.
pub open spec fn is_plain_name(n: Seq<char>) -> bool {
    &&& n.len() > 0
    &&& forall|i: int| 0 <= i < n.len() ==> n[i] != '/'
    &&& n != seq!['.']
    &&& n != seq!['.', '.']
}

proof fn lemma_name_range_is_plain(p: Seq<char>, j: int)
    requires
        0 <= j <= p.len(),
        name_range(p, j) is Some,
    ensures
        ({
            let (k, e) = name_range(p, j)->Some_0;
            0 <= k < e <= p.len() && is_plain_name(p.subrange(k, e))
        }),
    decreases j,
{
    if p[j - 1] == '/' || (p[j - 1] == '.' && (j == 1 || p[j - 2] == '/')) {
        lemma_name_range_is_plain(p, j - 1);
    } else {
        lemma_comp_start(p, j);
        let k = comp_start(p, j);
        assert(k < j);
        let n = p.subrange(k, j);
        assert forall|i: int| 0 <= i < n.len() implies n[i] != '/' by {
            assert(n[i] == p[k + i]);
        }
        if n == seq!['.'] {
            assert(n.len() == 1);
            assert(p[j - 1] == n[0]);
            assert(false);
        }
        if n == seq!['.', '.'] {
            assert(n.len() == 2);
            assert(p[k] == n[0] && p[k + 1] == n[1]);
            assert(false);
        }
    }
}

/// A file name is always a plain component.
pub proof fn lemma_file_name_is_plain(p: Seq<char>)
    requires
        file_name(p) is Some,
    ensures
        is_plain_name(file_name(p)->Some_0),
{
    lemma_name_range_is_plain(p, p.len() as int);
}

/// A plain component is its own file name.
pub proof fn lemma_plain_name_is_own_file_name(n: Seq<char>)
    requires
        is_plain_name(n),
    ensures
        file_name(n) == Some(n),
{
    let j = n.len() as int;
    lemma_comp_start(n, j);
    if n[j - 1] == '.' && j == 1 {
        assert(n =~= seq!['.']);
    }
    assert(comp_start(n, j) == 0);
    if j == 2 && n[0] == '.' && n[1] == '.' {
        assert(n =~= seq!['.', '.']);
    }
    assert(n.subrange(0, j) =~= n);
}

} // verus!
