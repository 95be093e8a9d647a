use vstd::prelude::*;

use crate::text::is_ws;

verus! {

/// The 16 bytes of the MD5 digest of `data`.
pub uninterp spec fn md5_of(data: Seq<u8>) -> Seq<u8>;

/// The lowercase hexadecimal digit for `n < 16`.
pub open spec fn hex_digit(n: u8) -> char {
    seq!['0', '1', '2', '3', '4', '5', '6', '7', '8', '9', 'a', 'b', 'c', 'd', 'e', 'f'][n as int]
}

/// Two lowercase hexadecimal digits per byte, high nibble first, bytes in order.
pub open spec fn lower_hex(b: Seq<u8>) -> Seq<char>
    decreases b.len(),
{
    if b.len() == 0 {
        Seq::empty()
    } else {
        lower_hex(b.drop_last()) + seq![hex_digit(b.last() / 16), hex_digit(b.last() % 16)]
    }
}

/// Relies on `md5::compute` for the MD5 digest of `data`, and on the `LowerHex`
/// format of `md5::Digest`, which writes each of its 16 bytes as `{:02x}` in order.
#[verifier::external_body]
fn md5_lower_hex(data: &[u8]) -> (r: String)
    ensures
        r@ == lower_hex(md5_of(data@)),
        r@.len() == 32,
{
    format!("{:x}", md5::compute(data))
}

/// A hex rendering holds no whitespace.
pub proof fn lemma_lower_hex_has_no_ws(b: Seq<u8>)
    ensures
        forall|i: int| 0 <= i < lower_hex(b).len() ==> !is_ws(#[trigger] lower_hex(b)[i]),
    decreases b.len(),
{
    if b.len() > 0 {
        lemma_lower_hex_has_no_ws(b.drop_last());
        let d = seq![hex_digit(b.last() / 16), hex_digit(b.last() % 16)];
        let hex = seq!['0', '1', '2', '3', '4', '5', '6', '7', '8', '9', 'a', 'b', 'c', 'd', 'e', 'f'];
        assert forall|n: int| 0 <= n < 16 implies !is_ws(#[trigger] hex[n]) by {
            assert(hex[n] == '0' || hex[n] == '1' || hex[n] == '2' || hex[n] == '3' || hex[n] == '4'
                || hex[n] == '5' || hex[n] == '6' || hex[n] == '7' || hex[n] == '8' || hex[n] == '9'
                || hex[n] == 'a' || hex[n] == 'b' || hex[n] == 'c' || hex[n] == 'd' || hex[n] == 'e'
                || hex[n] == 'f');
        }
        assert(!is_ws(d[0]) && !is_ws(d[1]));
        let l = lower_hex(b.drop_last());
        assert forall|i: int| 0 <= i < lower_hex(b).len() implies !is_ws(#[trigger] lower_hex(b)[i]) by {
            if i >= l.len() {
                assert(lower_hex(b)[i] == d[i - l.len()]);
            } else {
                assert(lower_hex(b)[i] == l[i]);
            }
        }
    }
}

/// The lowercase hex MD5 digest of a file's content: 32 characters, none of them whitespace.
pub fn md5_digest(content: &[u8]) -> (r: String)
    ensures
        r@ == lower_hex(md5_of(content@)),
        r@.len() == 32,
        forall|i: int| 0 <= i < r@.len() ==> !is_ws(#[trigger] r@[i]),
{
    let r = md5_lower_hex(content);
    proof {
        lemma_lower_hex_has_no_ws(md5_of(content@));
    }
    r
}

/// Reading a file's content twice and hashing it gives the same digest each time,
/// wherever the content read is the same.
pub proof fn lemma_digest_deterministic(first: Seq<u8>, second: Seq<u8>)
    requires
        first == second,
    ensures
        lower_hex(md5_of(first)) == lower_hex(md5_of(second)),
{
}

/// The outcome of hashing one file: its digest, or a failure to read it.
pub enum Digest {
    Computed(String),
    ReadFailed,
}

impl View for Digest {
    type V = Option<Seq<char>>;

    open spec fn view(&self) -> Option<Seq<char>> {
        match self {
            Digest::Computed(h) => Some(h@),
            Digest::ReadFailed => None,
        }
    }
}

/// The hash column of a report line: the digest, or `ERROR` where the file could not be read.
pub open spec fn digest_text(d: Option<Seq<char>>) -> Seq<char> {
    match d {
        Some(h) => h,
        None => "ERROR"@,
    }
}

impl Digest {
    /// The digest of the content read, or `ReadFailed` where nothing could be read.
    pub fn of_content(content: Option<&[u8]>) -> (d: Digest)
        ensures
            d@ == match content {
                Some(c) => Some(lower_hex(md5_of(c@))),
                None => None,
            },
    {
        match content {
            Some(c) => Digest::Computed(md5_digest(c)),
            None => Digest::ReadFailed,
        }
    }

    pub fn text(&self) -> (r: String)
        ensures
            r@ == digest_text(self@),
    {
        match self {
            Digest::Computed(h) => h.clone(),
            Digest::ReadFailed => String::from_str("ERROR"),
        }
    }
}

} // verus!
