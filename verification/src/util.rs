//! Parsing the head of an HTTP request, and the random identifiers of clients,
//! requests and subdomains.
use crate::strmap::StrMap;
use crate::text::{ascii_lowercase, chars_of, lowercase, to_lowercase};
use rand::distributions::Alphanumeric;
use rand::Rng;
use tokio_rustls::rustls::internal::pemfile::{certs, pkcs8_private_keys};
use vstd::prelude::*;
use vstd::slice::{slice_subrange, slice_to_vec};
use vstd::utf8::*;

verus! {

/// The header fields of an HTTP head: lowercased name to value.
pub type HeadMap = StrMap<String>;

/// An ASCII letter or digit, the alphabet of `rand`'s `Alphanumeric`.
pub open spec fn is_alphanumeric(c: char) -> bool {
    ('0' <= c <= '9') || ('A' <= c <= 'Z') || ('a' <= c <= 'z')
}

/// Calls `rand::thread_rng().sample_iter(&Alphanumeric)`: `len` characters,
/// each an ASCII letter or digit. Which ones is left to chance and not stated.
#[verifier::external_body]
pub fn rand_id(len: usize) -> (res: String)
    ensures
        res@.len() == len,
        forall|i: int| 0 <= i < len ==> is_alphanumeric(#[trigger] res@[i]),
{
    rand::thread_rng().sample_iter(&Alphanumeric).take(len).map(char::from).collect()
}

/// The number of bytes before the first `\n` of `s`, or all of them.
pub open spec fn line_len(s: Seq<u8>) -> nat
    decreases s.len(),
{
    if s.len() == 0 {
        0
    } else if s[0] == 10u8 {
        0
    } else {
        1 + line_len(s.drop_first())
    }
}

/// `line` without a last `\r`.
pub open spec fn strip_cr(line: Seq<u8>) -> Seq<u8> {
    if line.len() > 0 && line.last() == 13u8 {
        line.drop_last()
    } else {
        line
    }
}

/// The lines that `BufRead::lines` reads from `buf`, as bytes: `buf` cut at
/// each `\n`, which is dropped together with a `\r` just before it; a last
/// piece without `\n` is a line too, left as it is.
pub open spec fn lines_of(buf: Seq<u8>) -> Seq<Seq<u8>>
    decreases buf.len(),
{
    if buf.len() == 0 {
        seq![]
    } else {
        let n = line_len(buf);
        if n < buf.len() {
            seq![strip_cr(buf.take(n as int))] + lines_of(buf.skip(n + 1 as int))
        } else {
            seq![buf]
        }
    }
}

/// The separator `": "` starts at position `i` of `c`.
pub open spec fn sep_at(c: Seq<char>, i: int) -> bool {
    0 <= i && i + 1 < c.len() && c[i] == ':' && c[i + 1] == ' '
}

/// Name and value of a header line: `line.split(": ")` yields exactly two
/// pieces, that is the separator occurs exactly once.
pub open spec fn header_field(c: Seq<char>) -> Option<(Seq<char>, Seq<char>)> {
    if exists|i: int| #[trigger] sep_at(c, i) && (forall|j: int| #[trigger] sep_at(c, j) ==> j == i) {
        let i = choose|i: int| #[trigger] sep_at(c, i) && (forall|j: int| #[trigger] sep_at(c, j) ==> j == i);
        Some((c.take(i), c.skip(i + 2)))
    } else {
        None
    }
}

/// The name under which a header field is kept: its lowercasing, which for
/// an ASCII name makes each capital letter small.
pub open spec fn header_name(k: Seq<char>) -> Seq<char> {
    if is_ascii_chars(k) {
        ascii_lowercase(k)
    } else {
        lowercase(k)
    }
}

/// Reads header lines until the first empty one: `None` when a line is not
/// UTF-8 or no empty line comes; each field line sets its lowercased name to
/// its value, a later one replacing an earlier one; other lines are skipped.
pub open spec fn head_of_lines(lines: Seq<Seq<u8>>, acc: Map<Seq<char>, Seq<char>>) -> Option<
    Map<Seq<char>, Seq<char>>,
>
    decreases lines.len(),
{
    if lines.len() == 0 {
        None
    } else if !valid_utf8(lines[0]) {
        None
    } else if lines[0].len() == 0 {
        Some(acc)
    } else {
        let next = match header_field(decode_utf8(lines[0])) {
            Some((k, v)) => acc.insert(header_name(k), v),
            None => acc,
        };
        head_of_lines(lines.drop_first(), next)
    }
}

/// The header fields of the HTTP head at the start of `buf`, when `buf`
/// holds the whole head.
pub open spec fn http_head(buf: Seq<u8>) -> Option<Map<Seq<char>, Seq<char>>> {
    head_of_lines(lines_of(buf), Map::empty())
}

proof fn lemma_line_len(s: Seq<u8>, n: int)
    requires
        0 <= n <= s.len(),
        forall|k: int| 0 <= k < n ==> s[k] != 10u8,
        n == s.len() || s[n] == 10u8,
    ensures
        line_len(s) == n,
    decreases n,
{
    if n > 0 {
        lemma_line_len(s.drop_first(), n - 1);
    }
}

/// Name and value of a header line, as `header_field` says.
fn split_header_field(line: &str) -> (res: Option<(String, String)>)
    ensures
        match res {
            Some((k, v)) => header_field(line@) == Some((k@, v@)),
            None => header_field(line@) is None,
        },
{
    let cs = chars_of(line);
    let n = cs.len();
    let mut first: Option<usize> = None;
    let mut j: usize = 0;
    let last: usize = if n == 0 { 0 } else { n - 1 };
    while j < last
        invariant
            last == if n == 0 { 0 } else { n - 1 },
            n == cs@.len(),
            cs@ == line@,
            j <= n,
            match first {
                Some(f) => f < j && sep_at(line@, f as int) && forall|k: int|
                    0 <= k < j && #[trigger] sep_at(line@, k) ==> k == f,
                None => forall|k: int| 0 <= k < j ==> !#[trigger] sep_at(line@, k),
            },
        decreases n - j,
    {
        if cs[j] == ':' && cs[j + 1] == ' ' {
            match first {
                Some(f) => {
                    assert(sep_at(line@, f as int) && sep_at(line@, j as int));
                    assert(header_field(line@) is None) by {
                        if exists|i: int| #[trigger] sep_at(line@, i) && (forall|k: int| #[trigger] sep_at(line@, k) ==> k == i) {
                            let i = choose|i: int| #[trigger] sep_at(line@, i) && (forall|k: int| #[trigger] sep_at(line@, k) ==> k == i);
                            assert(f == i);
                            assert(j == i);
                        }
                    }
                    return None;
                },
                None => {
                    first = Some(j);
                },
            }
        }
        j = j + 1;
    }
    match first {
        Some(f) => {
            assert(forall|k: int| #[trigger] sep_at(line@, k) ==> k == f);
            assert(sep_at(line@, f as int));
            let key = line.substring_char(0, f).to_owned();
            let value = line.substring_char(f + 2, n).to_owned();
            Some((key, value))
        },
        None => {
            assert(forall|k: int| !#[trigger] sep_at(line@, k));
            None
        },
    }
}

/// Reads the head of an HTTP request at the start of `buf`: the header
/// fields, by lowercased name, when `buf` holds every line up to the empty
/// one that ends the head, and all of them are UTF-8.
pub fn read_http_head(buf: &[u8]) -> (res: Option<HeadMap>)
    ensures
        match res {
            Some(m) => http_head(buf@) == Some(m@),
            None => http_head(buf@) is None,
        },
{
    let mut map: HeadMap = StrMap::new();
    let mut pos: usize = 0;
    assert(buf@.skip(0) =~= buf@);
    while pos < buf.len()
        invariant
            pos <= buf@.len(),
            http_head(buf@) == head_of_lines(lines_of(buf@.skip(pos as int)), map@),
        decreases buf@.len() - pos,
    {
        let ghost rest = buf@.skip(pos as int);
        let mut end = pos;
        while end < buf.len() && buf[end] != 10u8
            invariant
                pos <= end <= buf@.len(),
                forall|k: int| pos <= k < end ==> buf@[k] != 10u8,
            decreases buf@.len() - end,
        {
            end = end + 1;
        }
        proof {
            lemma_line_len(rest, end - pos);
        }
        let has_newline = end < buf.len();
        let stop = if has_newline && end > pos && buf[end - 1] == 13u8 {
            end - 1
        } else {
            end
        };
        let line = slice_to_vec(slice_subrange(buf, pos, stop));
        proof {
            if has_newline {
                assert(line@ =~= strip_cr(rest.take(end - pos)));
                assert(rest.skip(end - pos + 1) =~= buf@.skip(end + 1));
                assert(lines_of(rest) =~= seq![line@] + lines_of(buf@.skip(end + 1)));
                assert(lines_of(rest).drop_first() =~= lines_of(buf@.skip(end + 1)));
            } else {
                assert(line@ =~= rest);
                assert(lines_of(rest) =~= seq![line@]);
                assert(lines_of(rest).drop_first() =~= Seq::<Seq<u8>>::empty());
            }
            assert(lines_of(rest)[0] == line@);
        }
        let is_empty = line.len() == 0;
        let text = match String::from_utf8(line) {
            Ok(s) => s,
            Err(_) => {
                return None;
            },
        };
        if is_empty {
            return Some(map);
        }
        match split_header_field(text.as_str()) {
            Some((k, v)) => {
                let key = to_lowercase(k.as_str());
                map.insert(key, v);
            },
            None => {},
        }
        if !has_newline {
            assert(head_of_lines(Seq::<Seq<u8>>::empty(), map@) is None);
            return None;
        }
        pos = end + 1;
    }
    proof {
        assert(buf@.skip(pos as int) =~= Seq::<u8>::empty());
    }
    None
}

proof fn lemma_line_len_extends(buf: Seq<u8>, more: Seq<u8>)
    requires
        line_len(buf) < buf.len(),
    ensures
        line_len(buf + more) == line_len(buf),
    decreases buf.len(),
{
    if buf[0] != 10u8 {
        assert((buf + more).drop_first() =~= buf.drop_first() + more);
        lemma_line_len_extends(buf.drop_first(), more);
    }
}

proof fn lemma_line_len_bound(buf: Seq<u8>)
    ensures
        line_len(buf) <= buf.len(),
    decreases buf.len(),
{
    if buf.len() > 0 && buf[0] != 10u8 {
        lemma_line_len_bound(buf.drop_first());
    }
}

proof fn lemma_head_of_lines_extends(buf: Seq<u8>, more: Seq<u8>, acc: Map<Seq<char>, Seq<char>>)
    requires
        head_of_lines(lines_of(buf), acc) is Some,
    ensures
        head_of_lines(lines_of(buf + more), acc) == head_of_lines(lines_of(buf), acc),
    decreases buf.len(),
{
    lemma_line_len_bound(buf);
    let n = line_len(buf) as int;
    if n == buf.len() {
        let next = match header_field(decode_utf8(buf)) {
            Some((k, v)) => acc.insert(header_name(k), v),
            None => acc,
        };
        assert(lines_of(buf) =~= seq![buf]);
        assert(lines_of(buf).drop_first() =~= Seq::<Seq<u8>>::empty());
        assert(head_of_lines(Seq::<Seq<u8>>::empty(), next) is None);
    } else {
        let all = buf + more;
        lemma_line_len_extends(buf, more);
        assert(all.take(n) =~= buf.take(n));
        assert(all.skip(n + 1) =~= buf.skip(n + 1) + more);
        let line = strip_cr(buf.take(n));
        let tail = lines_of(buf.skip(n + 1));
        assert(lines_of(buf) == seq![line] + tail);
        assert(lines_of(all) == seq![line] + lines_of(buf.skip(n + 1) + more));
        assert(lines_of(buf)[0] == line);
        assert(lines_of(all)[0] == line);
        assert(lines_of(buf).drop_first() =~= tail);
        assert(lines_of(all).drop_first() =~= lines_of(buf.skip(n + 1) + more));
        if valid_utf8(line) && line.len() > 0 {
            let next = match header_field(decode_utf8(line)) {
                Some((k, v)) => acc.insert(header_name(k), v),
                None => acc,
            };
            lemma_head_of_lines_extends(buf.skip(n + 1), more, next);
        }
    }
}

/// Once the whole head has arrived, the bytes behind it (a body, the next
/// request) do not change what it reads as.
pub proof fn lemma_http_head_extends(buf: Seq<u8>, more: Seq<u8>)
    requires
        http_head(buf) is Some,
    ensures
        http_head(buf + more) == http_head(buf),
{
    lemma_head_of_lines_extends(buf, more, Map::empty());
}

/// A `Host`, `HOST` or `host` field is kept under the name `host`.
pub proof fn lemma_host_header_name()
    ensures
        header_name("Host"@) == "host"@,
        header_name("HOST"@) == "host"@,
        header_name("host"@) == "host"@,
{
    reveal_strlit("Host");
    reveal_strlit("HOST");
    reveal_strlit("host");
    assert(ascii_lowercase("Host"@) =~= "host"@);
    assert(ascii_lowercase("HOST"@) =~= "host"@);
    assert(ascii_lowercase("host"@) =~= "host"@);
}

/// The DER items that rustls' PEM reader `certs` finds in `pem` (the
/// `CERTIFICATE` sections, base64-decoded, in order), or `None` where it fails.
pub uninterp spec fn pem_certs(pem: Seq<u8>) -> Option<Seq<Seq<u8>>>;

/// The DER items that rustls' PEM reader `pkcs8_private_keys` finds in `pem`
/// (the `PRIVATE KEY` sections, base64-decoded, in order), or `None` where it
/// fails.
pub uninterp spec fn pem_pkcs8_keys(pem: Seq<u8>) -> Option<Seq<Seq<u8>>>;

/// The bytes of each vector.
pub open spec fn byte_views(v: Seq<Vec<u8>>) -> Seq<Seq<u8>> {
    v.map_values(|x: Vec<u8>| x@)
}

/// The bytes of each vector, where there are vectors.
pub open spec fn opt_byte_views(v: Option<Vec<Vec<u8>>>) -> Option<Seq<Seq<u8>>> {
    match v {
        Some(x) => Some(byte_views(x@)),
        None => None,
    }
}

/// Calls `rustls::internal::pemfile::certs` on the bytes of `pem`, and hands
/// back the DER bytes of each certificate.
#[verifier::external_body]
fn read_pem_certs(pem: &[u8]) -> (res: Option<Vec<Vec<u8>>>)
    ensures
        opt_byte_views(res) == pem_certs(pem@),
{
    match certs(&mut &pem[..]) {
        Ok(v) => Some(v.into_iter().map(|c| c.0).collect()),
        Err(()) => None,
    }
}

/// Calls `rustls::internal::pemfile::pkcs8_private_keys` on the bytes of
/// `pem`, and hands back the DER bytes of each key.
#[verifier::external_body]
fn read_pem_pkcs8_keys(pem: &[u8]) -> (res: Option<Vec<Vec<u8>>>)
    ensures
        opt_byte_views(res) == pem_pkcs8_keys(pem@),
{
    match pkcs8_private_keys(&mut &pem[..]) {
        Ok(v) => Some(v.into_iter().map(|k| k.0).collect()),
        Err(()) => None,
    }
}

/// Why the certificate and key of the server could not be read.
#[derive(Debug, PartialEq, Eq, Structural)]
pub enum SslError {
    /// The certificate input is not readable PEM.
    InvalidCert,
    /// The key input is not readable PEM.
    InvalidKey,
    /// The key input holds no PKCS#8 private key.
    NoKey,
}

/// The certificate chain and the private key of the server, from the PEM
/// text of its certificate file and of its key file: every certificate, in
/// order, and the first PKCS#8 key.
pub fn ssl_material(crt: &[u8], key: &[u8]) -> (res: Result<(Vec<Vec<u8>>, Vec<u8>), SslError>)
    ensures
        match pem_certs(crt@) {
            None => res == Err::<(Vec<Vec<u8>>, Vec<u8>), SslError>(SslError::InvalidCert),
            Some(cs) => match pem_pkcs8_keys(key@) {
                None => res == Err::<(Vec<Vec<u8>>, Vec<u8>), SslError>(SslError::InvalidKey),
                Some(ks) => if ks.len() == 0 {
                    res == Err::<(Vec<Vec<u8>>, Vec<u8>), SslError>(SslError::NoKey)
                } else {
                    res matches Ok((c, k)) && byte_views(c@) == cs && k@ == ks[0]
                },
            },
        },
{
    let chain = match read_pem_certs(crt) {
        Some(c) => c,
        None => {
            return Err(SslError::InvalidCert);
        },
    };
    let mut keys = match read_pem_pkcs8_keys(key) {
        Some(k) => k,
        None => {
            return Err(SslError::InvalidKey);
        },
    };
    if keys.len() == 0 {
        return Err(SslError::NoKey);
    }
    let ghost ks = keys@;
    let first = keys.remove(0);
    assert(first@ == byte_views(ks)[0]);
    Ok((chain, first))
}

/// A header line splits around its one separator: name, `": "` and value
/// put back together give the line, and neither name nor value holds a
/// separator. A line without a field has no separator or more than one.
pub proof fn lemma_header_field_splits(c: Seq<char>)
    ensures
        match header_field(c) {
            Some((k, v)) => {
                &&& c == k + ": "@ + v
                &&& forall|i: int| !#[trigger] sep_at(k, i)
                &&& forall|i: int| !#[trigger] sep_at(v, i)
            },
            None => (forall|i: int| !#[trigger] sep_at(c, i)) || exists|i: int, j: int|
                i != j && #[trigger] sep_at(c, i) && #[trigger] sep_at(c, j),
        },
{
    reveal_strlit(": ");
    if exists|i: int| #[trigger] sep_at(c, i) && (forall|j: int| #[trigger] sep_at(c, j) ==> j == i) {
        let i = choose|i: int| #[trigger] sep_at(c, i) && (forall|j: int| #[trigger] sep_at(c, j) ==> j == i);
        let k = c.take(i);
        let v = c.skip(i + 2);
        assert(c =~= k + ": "@ + v);
        assert forall|a: int| !#[trigger] sep_at(k, a) by {
            if sep_at(k, a) {
                assert(sep_at(c, a));
            }
        }
        assert forall|a: int| !#[trigger] sep_at(v, a) by {
            if sep_at(v, a) {
                assert(sep_at(c, a + i + 2));
            }
        }
    } else {
        if exists|i: int| #[trigger] sep_at(c, i) {
            let i = choose|i: int| #[trigger] sep_at(c, i);
            let j = choose|j: int| #[trigger] sep_at(c, j) && j != i;
            assert(sep_at(c, i) && sep_at(c, j) && i != j);
        }
    }
}

} // verus!
