//! Validation of user input that reaches the platform: package names and
//! network check targets.

use vstd::prelude::*;
use crate::numbers::{decimal, decimal_of, parse_u16, unsigned_value};
use crate::text::{
    all_alnum_or, alnum_or, append, append_lit, chars_of, ends_with, is_alnum, split, split_of,
    string_of, texts,
};

verus! {

/// A package name that cannot be taken for a pacman option or a shell expression.
#[derive(Debug)]
pub struct PackageName {
    name: String,
}

/// A package name is non-empty, starts with neither `-` nor `.`, and holds only
/// ASCII letters, digits and `@._+-`.
pub open spec fn valid_package_name(s: Seq<char>) -> bool {
    &&& s.len() > 0
    &&& s[0] != '-'
    &&& s[0] != '.'
    &&& all_alnum_or(s, "@._+-"@)
}

impl View for PackageName {
    type V = Seq<char>;

    closed spec fn view(&self) -> Seq<char> {
        self.name@
    }
}

impl PackageName {
    /// Accepts `name` as a package name, or says why not.
    pub fn new(name: &str) -> (r: Result<PackageName, String>)
        ensures
            match r {
                Ok(p) => valid_package_name(name@) && p@ == name@,
                Err(e) => !valid_package_name(name@) && e@ == "Invalid package name: "@ + name@,
            },
    {
        let v = chars_of(name);
        if v.len() == 0 || v[0] == '-' || v[0] == '.' || !alnum_or(v.as_slice(), "@._+-") {
            let mut m: Vec<char> = Vec::new();
            append_lit(&mut m, "Invalid package name: ");
            append(&mut m, v.as_slice());
            return Err(string_of(m.as_slice()));
        }
        Ok(PackageName { name: string_of(v.as_slice()) })
    }

    /// The name as text.
    pub fn as_str(&self) -> (r: &str)
        ensures
            r@ == self@,
    {
        self.name.as_str()
    }
}

/// A DNS label: 1 to 63 characters, ASCII letters, digits and `-`, not
/// beginning or ending with `-`.
pub open spec fn valid_label(s: Seq<char>) -> bool {
    &&& s.len() > 0
    &&& s.len() <= 63
    &&& s[0] != '-'
    &&& s.last() != '-'
    &&& all_alnum_or(s, "-"@)
}

/// `host` without one final dot.
pub open spec fn without_final_dot(host: Seq<char>) -> Seq<char> {
    if host.len() > 0 && host.last() == '.' {
        host.drop_last()
    } else {
        host
    }
}

/// A dot-separated name of at most 253 characters whose labels are all valid.
pub open spec fn valid_dotted_name(name: Seq<char>) -> bool {
    &&& name.len() > 0
    &&& name.len() <= 253
    &&& forall|i: int| 0 <= i < split(name, '.').len() ==> valid_label(#[trigger] split(name, '.')[i])
}

/// A host name with an optional final dot.
pub open spec fn valid_host_name(host: Seq<char>) -> bool {
    valid_dotted_name(without_final_dot(host))
}

/// Whether `s` is a valid DNS label.
fn label_ok(s: &[char]) -> (r: bool)
    ensures
        r == valid_label(s@),
{
    s.len() > 0 && s.len() <= 63 && s[0] != '-' && s[s.len() - 1] != '-' && alnum_or(s, "-")
}

/// Whether every piece is a valid DNS label.
fn labels_ok(parts: &Vec<Vec<char>>) -> (r: bool)
    ensures
        r == forall|i: int| 0 <= i < parts@.len() ==> valid_label(#[trigger] texts(parts@)[i]),
{
    let mut k: usize = 0;
    while k < parts.len()
        invariant
            k <= parts@.len(),
            forall|i: int| 0 <= i < k ==> valid_label(#[trigger] texts(parts@)[i]),
        decreases parts.len() - k,
    {
        if !label_ok(parts[k].as_slice()) {
            assert(!valid_label(texts(parts@)[k as int]));
            return false;
        }
        k = k + 1;
    }
    true
}

/// Accepts a network check target: an IP address (`is_ip` says whether `host`
/// parses as one) or a host name; a URL or a `host:port` is refused.
pub fn validate_host(host: &str, is_ip: bool) -> (r: Result<(), String>)
    ensures
        r is Ok <==> (is_ip || valid_host_name(host@)),
        r matches Err(e) ==> e@ == "Expected a hostname or IP address, without URL or port"@,
{
    if is_ip {
        return Ok(());
    }
    let h = chars_of(host);
    let mut name = h.clone();
    if name.len() > 0 && name[name.len() - 1] == '.' {
        name.pop();
    }
    assert(name@ =~= without_final_dot(host@));
    let ghost pieces = split(name@, '.');
    let ok = if name.len() > 0 && name.len() <= 253 {
        let parts = split_of(name.as_slice(), '.');
        let all = labels_ok(&parts);
        assert(all == forall|i: int| 0 <= i < pieces.len() ==> valid_label(#[trigger] pieces[i]));
        all
    } else {
        false
    };

    if ok {
        Ok(())
    } else {
        Err(string_of(chars_of("Expected a hostname or IP address, without URL or port").as_slice()))
    }
}


/// Accepts a network check target and port: the host as for [`validate_host`],
/// the port in `1..=65535`.
pub fn check_target(host: &str, is_ip: bool, port: u16) -> (r: Result<(), String>)
    ensures
        r is Ok <==> ((is_ip || valid_host_name(host@)) && port != 0),
        r matches Err(e) ==> if is_ip || valid_host_name(host@) {
            e@ == "Port must be 1..65535"@
        } else {
            e@ == "Expected a hostname or IP address, without URL or port"@
        },
{
    validate_host(host, is_ip)?;
    if port == 0 {
        return Err(string_of(chars_of("Port must be 1..65535").as_slice()));
    }
    Ok(())
}

/// The port given as text, when it is a number in `1..=65535`.
pub open spec fn port_number(port: Seq<char>) -> Option<int> {
    match unsigned_value(port) {
        Some(p) => if 1 <= p <= 65535 {
            Some(p)
        } else {
            None
        },
        None => None,
    }
}

/// What a network check on `host` and `port` would do, without doing it.
pub fn preview_network(host: &str, is_ip: bool, port: &str) -> (r: Result<String, String>)
    ensures
        match r {
            Ok(m) => {
                &&& is_ip || valid_host_name(host@)
                &&& port_number(port@) is Some
                &&& m@ == "DNS resolution and TCP connection to "@ + host@ + ", port "@ + decimal(
                    port_number(port@)->0 as nat,
                ) + " (not executed)"@
            },
            Err(e) => if is_ip || valid_host_name(host@) {
                port_number(port@) is None && e@ == "Port must be 1..65535"@
            } else {
                e@ == "Expected a hostname or IP address, without URL or port"@
            },
        },
{
    validate_host(host, is_ip)?;
    let p = match parse_u16(port) {
        Ok(p) => p,
        Err(_) => return Err(string_of(chars_of("Port must be 1..65535").as_slice())),
    };
    if p == 0 {
        return Err(string_of(chars_of("Port must be 1..65535").as_slice()));
    }
    let mut m: Vec<char> = Vec::new();
    append_lit(&mut m, "DNS resolution and TCP connection to ");
    append(&mut m, chars_of(host).as_slice());
    append_lit(&mut m, ", port ");
    append(&mut m, decimal_of(p as u64).as_slice());
    append_lit(&mut m, " (not executed)");
    Ok(string_of(m.as_slice()))
}

} // verus!
