//! Resolving the listening address and port from the configuration lines.
//!
//! Reading the configuration file is the caller's business; this module
//! consumes its lines as bytes and applies the format's rules: an empty
//! line, or one starting with `#`, is skipped; a line containing
//! `sock_ip_address=` sets the address to the trimmed text after the last
//! occurrence; otherwise a line containing `server_port=` sets the port to
//! the text after the last occurrence; any other line is misconfigured and
//! rejected. The address defaults to `127.0.0.1` and the port to `2537`.
//!
//! The trim removes ASCII whitespace only (space, tab, carriage return,
//! line feed) — a deliberate narrowing from general Unicode whitespace,
//! since the values are raw bytes here and an address or port never
//! carries exotic whitespace; a value wrapped in other Unicode spacing is
//! kept as written.

use crate::commands::matches_at;
use vstd::prelude::*;
use vstd::utf8::{decode_utf8, valid_utf8};

verus! {

/// The resolved listening address and port.
#[derive(Debug)]
pub struct ConfigData {
    sock_ip: String,
    port: String,
}

/// Why a configuration could not be resolved.
#[derive(PartialEq, Eq, Structural, Debug, Clone, Copy)]
pub enum ConfigError {
    /// A non-empty, non-comment line names neither setting.
    MisconfiguredLine,
    /// A resolved value is not valid UTF-8.
    InvalidText,
}

impl ConfigData {
    /// The characters of the resolved address.
    pub closed spec fn spec_sock_ip(&self) -> Seq<char> {
        self.sock_ip@
    }

    /// The characters of the resolved port.
    pub closed spec fn spec_port(&self) -> Seq<char> {
        self.port@
    }

    pub fn get_sock_ip(&self) -> (r: &str)
        ensures
            r@ == self.spec_sock_ip(),
    {
        self.sock_ip.as_str()
    }

    pub fn get_port(&self) -> (r: &str)
        ensures
            r@ == self.spec_port(),
    {
        self.port.as_str()
    }
}

/// The ASCII bytes of `sock_ip_address=`.
pub open spec fn sock_ip_key() -> Seq<u8> {
    seq![
        115u8,
        111u8,
        99u8,
        107u8,
        95u8,
        105u8,
        112u8,
        95u8,
        97u8,
        100u8,
        100u8,
        114u8,
        101u8,
        115u8,
        115u8,
        61u8,
    ]
}

/// The ASCII bytes of `server_port=`.
pub open spec fn server_port_key() -> Seq<u8> {
    seq![115u8, 101u8, 114u8, 118u8, 101u8, 114u8, 95u8, 112u8, 111u8, 114u8, 116u8, 61u8]
}

/// The ASCII bytes of the default address `127.0.0.1`.
pub open spec fn default_sock_ip() -> Seq<u8> {
    seq![49u8, 50u8, 55u8, 46u8, 48u8, 46u8, 48u8, 46u8, 49u8]
}

/// The ASCII bytes of the default port `2537`.
pub open spec fn default_port() -> Seq<u8> {
    seq![50u8, 53u8, 51u8, 55u8]
}

fn sock_ip_key_bytes() -> (v: Vec<u8>)
    ensures
        v@ == sock_ip_key(),
{
    let mut v: Vec<u8> = Vec::new();
    v.push(115);
    v.push(111);
    v.push(99);
    v.push(107);
    v.push(95);
    v.push(105);
    v.push(112);
    v.push(95);
    v.push(97);
    v.push(100);
    v.push(100);
    v.push(114);
    v.push(101);
    v.push(115);
    v.push(115);
    v.push(61);
    proof {
        assert(v@ =~= sock_ip_key());
    }
    v
}

fn server_port_key_bytes() -> (v: Vec<u8>)
    ensures
        v@ == server_port_key(),
{
    let mut v: Vec<u8> = Vec::new();
    v.push(115);
    v.push(101);
    v.push(114);
    v.push(118);
    v.push(101);
    v.push(114);
    v.push(95);
    v.push(112);
    v.push(111);
    v.push(114);
    v.push(116);
    v.push(61);
    proof {
        assert(v@ =~= server_port_key());
    }
    v
}

fn default_sock_ip_bytes() -> (v: Vec<u8>)
    ensures
        v@ == default_sock_ip(),
{
    let mut v: Vec<u8> = Vec::new();
    v.push(49);
    v.push(50);
    v.push(55);
    v.push(46);
    v.push(48);
    v.push(46);
    v.push(48);
    v.push(46);
    v.push(49);
    proof {
        assert(v@ =~= default_sock_ip());
    }
    v
}

fn default_port_bytes() -> (v: Vec<u8>)
    ensures
        v@ == default_port(),
{
    let mut v: Vec<u8> = Vec::new();
    v.push(50);
    v.push(53);
    v.push(51);
    v.push(55);
    proof {
        assert(v@ =~= default_port());
    }
    v
}

/// `needle` occurs in `hay` exactly at offset `i`.
pub open spec fn is_match_at(hay: Seq<u8>, needle: Seq<u8>, i: int) -> bool {
    0 <= i && i + needle.len() <= hay.len() && hay.subrange(i, i + needle.len()) == needle
}

/// The largest offset at most `i` where `needle` matches, scanning down.
pub open spec fn spec_last_match_from(hay: Seq<u8>, needle: Seq<u8>, i: int) -> Option<int>
    decreases i + 1,
{
    if i < 0 {
        None
    } else if is_match_at(hay, needle, i) {
        Some(i)
    } else {
        spec_last_match_from(hay, needle, i - 1)
    }
}

/// The offset of the last occurrence of `needle` in `hay`, if any.
pub open spec fn spec_last_match(hay: Seq<u8>, needle: Seq<u8>) -> Option<int> {
    spec_last_match_from(hay, needle, hay.len() - needle.len())
}

/// A found last-match offset really is a match.
proof fn lemma_last_match_is_match(hay: Seq<u8>, needle: Seq<u8>, i: int)
    requires
        spec_last_match_from(hay, needle, i) is Some,
    ensures
        is_match_at(hay, needle, spec_last_match_from(hay, needle, i)->0),
    decreases i + 1,
{
    if i >= 0 && !is_match_at(hay, needle, i) {
        lemma_last_match_is_match(hay, needle, i - 1);
    }
}

fn find_last(hay: &[u8], needle: &[u8]) -> (r: Option<usize>)
    ensures
        match r {
            Some(i) => spec_last_match(hay@, needle@) == Some(i as int),
            None => spec_last_match(hay@, needle@) is None,
        },
{
    if needle.len() > hay.len() {
        return None;
    }
    let top = hay.len() - needle.len();
    let mut i: usize = top;
    loop
        invariant
            needle@.len() <= hay@.len(),
            top == hay@.len() - needle@.len(),
            i <= top,
            spec_last_match(hay@, needle@) == spec_last_match_from(hay@, needle@, i as int),
        decreases i,
    {
        if matches_at(hay, needle, i) {
            return Some(i);
        }
        if i == 0 {
            proof {
                assert(spec_last_match_from(hay@, needle@, -1) is None);
            }
            return None;
        }
        i = i - 1;
    }
}

/// A byte the trim removes: space, tab, line feed or carriage return.
pub open spec fn is_ascii_ws(b: u8) -> bool {
    b == 32 || b == 9 || b == 10 || b == 13
}

/// The bytes with leading ASCII whitespace removed.
pub open spec fn trim_front(s: Seq<u8>) -> Seq<u8>
    decreases s.len(),
{
    if s.len() > 0 && is_ascii_ws(s[0]) {
        trim_front(s.drop_first())
    } else {
        s
    }
}

/// The bytes with trailing ASCII whitespace removed.
pub open spec fn trim_back(s: Seq<u8>) -> Seq<u8>
    decreases s.len(),
{
    if s.len() > 0 && is_ascii_ws(s.last()) {
        trim_back(s.drop_last())
    } else {
        s
    }
}

/// The bytes with ASCII whitespace removed from both ends. Non-ASCII
/// Unicode whitespace is deliberately left in place: the trim works on raw
/// bytes, before any UTF-8 decoding.
pub open spec fn trim_bytes(s: Seq<u8>) -> Seq<u8> {
    trim_back(trim_front(s))
}

fn is_ws_byte(b: u8) -> (r: bool)
    ensures
        r == is_ascii_ws(b),
{
    b == 32 || b == 9 || b == 10 || b == 13
}

fn trim_ascii(v: &[u8]) -> (r: Vec<u8>)
    ensures
        r@ == trim_bytes(v@),
{
    let n = v.len();
    proof {
        assert(v@.skip(0) =~= v@);
    }
    let mut lo: usize = 0;
    while lo < n && is_ws_byte(v[lo])
        invariant
            lo <= n,
            n == v@.len(),
            trim_front(v@) == trim_front(v@.skip(lo as int)),
        decreases n - lo,
    {
        proof {
            assert(v@.skip(lo as int).drop_first() =~= v@.skip(lo as int + 1));
        }
        lo = lo + 1;
    }
    let ghost t = v@.skip(lo as int);
    proof {
        assert(trim_front(v@) == t);
    }
    let mut hi: usize = n;
    proof {
        assert(t.take((n - lo) as int) =~= t);
    }
    while hi > lo && is_ws_byte(v[hi - 1])
        invariant
            lo <= hi <= n,
            n == v@.len(),
            t == v@.skip(lo as int),
            trim_back(t) == trim_back(t.take((hi - lo) as int)),
        decreases hi,
    {
        proof {
            assert(t.take((hi - lo) as int).last() == v@[hi - 1]);
            assert(t.take((hi - lo) as int).drop_last() =~= t.take((hi - lo - 1) as int));
        }
        hi = hi - 1;
    }
    proof {
        if hi > lo {
            assert(t.take((hi - lo) as int).last() == v@[hi - 1]);
        }
        assert(trim_back(t) == t.take((hi - lo) as int));
    }
    let s = vstd::slice::slice_subrange(v, lo, hi);
    let out = vstd::slice::slice_to_vec(s);
    proof {
        assert(v@.subrange(lo as int, hi as int) =~= t.take((hi - lo) as int));
    }
    out
}

/// What the value of a setting is on a line: the trimmed (for the address)
/// or raw (for the port) text after the last occurrence of its key.
pub open spec fn value_after(line: Seq<u8>, key: Seq<u8>, i: int) -> Seq<u8> {
    line.skip(i + key.len())
}

/// The configuration resolved from the remaining lines, starting from the
/// address and port resolved so far. `None` means a misconfigured line.
pub open spec fn spec_parse_lines(lines: Seq<Seq<u8>>, ip: Seq<u8>, port: Seq<u8>) -> Option<
    (Seq<u8>, Seq<u8>),
>
    decreases lines.len(),
{
    if lines.len() == 0 {
        Some((ip, port))
    } else {
        let line = lines[0];
        if line.len() == 0 || line[0] == 35 {
            spec_parse_lines(lines.drop_first(), ip, port)
        } else {
            match spec_last_match(line, sock_ip_key()) {
                Some(i) => spec_parse_lines(
                    lines.drop_first(),
                    trim_bytes(value_after(line, sock_ip_key(), i)),
                    port,
                ),
                None => match spec_last_match(line, server_port_key()) {
                    Some(i) => spec_parse_lines(
                        lines.drop_first(),
                        ip,
                        value_after(line, server_port_key(), i),
                    ),
                    None => None,
                },
            }
        }
    }
}

/// The configuration the lines resolve to, from the defaults.
pub open spec fn spec_config(lines: Seq<Seq<u8>>) -> Option<(Seq<u8>, Seq<u8>)> {
    spec_parse_lines(lines, default_sock_ip(), default_port())
}

/// Relies on `String::from_utf8`: it succeeds exactly on valid UTF-8 and
/// decodes the bytes to the characters `vstd::utf8::decode_utf8` models.
#[verifier::external_body]
fn bytes_to_string(v: Vec<u8>) -> (r: Option<String>)
    ensures
        r is Some <==> valid_utf8(v@),
        r matches Some(s) ==> s@ == decode_utf8(v@),
{
    String::from_utf8(v).ok()
}

fn value_after_exec(line: &[u8], key_len: usize, i: usize) -> (r: Vec<u8>)
    requires
        i + key_len <= line@.len(),
    ensures
        r@ == line@.skip(i + key_len),
{
    proof {
        assert(line.len() == line@.len());
    }
    let s = vstd::slice::slice_subrange(line, i + key_len, line.len());
    let out = vstd::slice::slice_to_vec(s);
    proof {
        assert(line@.subrange(i + key_len, line@.len() as int) =~= line@.skip(i + key_len));
    }
    out
}

/// Resolves the configuration from the file's lines, as `spec_config` says:
/// `Ok` exactly when no line is misconfigured and both resolved values are
/// valid UTF-8, and then the address and port are those values' text;
/// `MisconfiguredLine` exactly when some non-empty, non-comment line names
/// neither setting; `InvalidText` exactly when a resolved value is not
/// valid UTF-8.
pub fn parse_config_file(lines: &Vec<Vec<u8>>) -> (r: Result<ConfigData, ConfigError>)
    ensures
        ({
            let ld = lines@.map_values(|l: Vec<u8>| l@);
            match r {
                Ok(c) => spec_config(ld) matches Some(p) && valid_utf8(p.0) && valid_utf8(p.1)
                    && c.spec_sock_ip() == decode_utf8(p.0) && c.spec_port() == decode_utf8(p.1),
                Err(e) => if e == ConfigError::MisconfiguredLine {
                    spec_config(ld) is None
                } else {
                    spec_config(ld) matches Some(p) && !(valid_utf8(p.0) && valid_utf8(p.1))
                },
            }
        }),
{
    let ghost ld = lines@.map_values(|l: Vec<u8>| l@);
    let sock_key = sock_ip_key_bytes();
    let port_key = server_port_key_bytes();
    let mut ip: Vec<u8> = default_sock_ip_bytes();
    let mut port: Vec<u8> = default_port_bytes();
    let mut i: usize = 0;
    proof {
        assert(ld.skip(0) =~= ld);
    }
    while i < lines.len()
        invariant
            ld == lines@.map_values(|l: Vec<u8>| l@),
            i <= lines@.len(),
            sock_key@ == sock_ip_key(),
            port_key@ == server_port_key(),
            spec_parse_lines(ld.skip(i as int), ip@, port@) == spec_config(ld),
        decreases lines@.len() - i,
    {
        let line = &lines[i];
        let ghost rest = ld.skip(i as int);
        proof {
            assert(rest[0] == line@);
            assert(rest.drop_first() =~= ld.skip(i as int + 1));
        }
        if line.len() == 0 || line[0] == 35 {
            i = i + 1;
            continue;
        }
        match find_last(line.as_slice(), sock_key.as_slice()) {
            Some(k) => {
                proof {
                    lemma_last_match_is_match(
                        line@,
                        sock_key@,
                        line@.len() - sock_key@.len(),
                    );
                }
                let suffix = value_after_exec(line.as_slice(), sock_key.len(), k);
                ip = trim_ascii(suffix.as_slice());
                i = i + 1;
                continue;
            },
            None => {},
        }
        match find_last(line.as_slice(), port_key.as_slice()) {
            Some(k) => {
                proof {
                    lemma_last_match_is_match(
                        line@,
                        port_key@,
                        line@.len() - port_key@.len(),
                    );
                }
                port = value_after_exec(line.as_slice(), port_key.len(), k);
                i = i + 1;
            },
            None => {
                return Err(ConfigError::MisconfiguredLine);
            },
        }
    }
    proof {
        assert(ld.skip(i as int) =~= Seq::<Seq<u8>>::empty());
    }
    let ip_text = match bytes_to_string(ip) {
        Some(s) => s,
        None => {
            return Err(ConfigError::InvalidText);
        },
    };
    let port_text = match bytes_to_string(port) {
        Some(s) => s,
        None => {
            return Err(ConfigError::InvalidText);
        },
    };
    Ok(ConfigData { sock_ip: ip_text, port: port_text })
}

} // verus!
