//! What the Arch Linux backend decides from the data it reads: platform
//! detection, `os-release` values, and the gates before package installation.

use vstd::prelude::*;
use crate::text::{
    append, append_lit, chars_of, contains_seq, equals, lines, lines_of, lowercase, lowercase_of,
    occurs_lit, split_once, split_once_of, string_of, texts, trim, trim_char, trim_char_of, trim_of,
};

verus! {

/// What `status` reports about the system.
pub struct SystemStatus {
    pub platform: String,
    pub os: String,
    pub architecture: String,
    pub kernel: String,
    pub init: String,
    pub package_manager: String,
    pub user: String,
}

/// What `network` reports: addresses and routes, as the tools print them.
pub struct NetworkStatus {
    pub addresses: String,
    pub routes: String,
}

/// The platform a kernel release names: WSL2, the first WSL, or plain Linux.
pub open spec fn platform_of(kernel: Seq<char>) -> Seq<char> {
    let k = lowercase(kernel);
    if contains_seq(k, "microsoft-standard"@) || contains_seq(k, "wsl2"@) {
        "WSL2"@
    } else if contains_seq(k, "microsoft"@) {
        "WSL"@
    } else {
        "Linux"@
    }
}

/// The platform a kernel release names.
pub fn platform(kernel: &str) -> (r: &'static str)
    ensures
        r@ == platform_of(kernel@),
{
    let k = lowercase_of(chars_of(kernel).as_slice());
    if occurs_lit(k.as_slice(), "microsoft-standard") || occurs_lit(k.as_slice(), "wsl2") {
        "WSL2"
    } else if occurs_lit(k.as_slice(), "microsoft") {
        "WSL"
    } else {
        "Linux"
    }
}

/// The value of the first `key=value` line with the given key, without quotes.
pub open spec fn first_value(ls: Seq<Seq<char>>, key: Seq<char>) -> Option<Seq<char>>
    decreases ls.len(),
{
    if ls.len() == 0 {
        None
    } else {
        match split_once(ls[0], '=') {
            Some((k, v)) => if k == key {
                Some(trim_char(v, '"'))
            } else {
                first_value(ls.drop_first(), key)
            },
            None => first_value(ls.drop_first(), key),
        }
    }
}

/// The value of `key` in an `os-release` text.
pub fn os_value(data: &str, key: &str) -> (r: Option<String>)
    ensures
        match r {
            Some(v) => first_value(lines(data@), key@) == Some(v@),
            None => first_value(lines(data@), key@) is None,
        },
{
    let ls = lines_of(chars_of(data).as_slice());
    let kc = chars_of(key);
    let mut i: usize = 0;
    assert(texts(ls@).skip(0) =~= texts(ls@));
    while i < ls.len()
        invariant
            kc@ == key@,
            i <= ls@.len(),
            texts(ls@) == lines(data@),
            first_value(lines(data@), key@) == first_value(texts(ls@).skip(i as int), key@),
        decreases ls.len() - i,
    {
        assert(texts(ls@).skip(i as int)[0] == ls@[i as int]@);
        assert(texts(ls@).skip(i as int).drop_first() =~= texts(ls@).skip(i + 1));
        match split_once_of(ls[i].as_slice(), '=') {
            Some((k, v)) => {
                if crate::text::same(k.as_slice(), kc.as_slice()) {
                    return Some(string_of(trim_char_of(v.as_slice(), '"').as_slice()));
                }
            },
            None => {},
        }
        i = i + 1;
    }
    None
}

/// The package manager of the distribution an `os-release` text names.
pub open spec fn package_manager_of(os_release: Seq<char>) -> Seq<char> {
    if first_value(lines(os_release), "ID"@) == Some("arch"@) {
        "pacman"@
    } else {
        "unknown"@
    }
}

/// The Arch Linux backend: what it makes of the data it reads for `status`,
/// `install` and `network`.
pub struct Arch;

impl Arch {
    /// The system status from what was read: the kernel release, the
    /// `os-release` text, the machine architecture, the name of process 1 and
    /// the user name.
    pub fn status_from(&self, kernel: String, os_release: &str, architecture: String, init: &str, user: String) -> (r: SystemStatus)
        ensures
            r.platform@ == platform_of(kernel@),
            r.os@ == match first_value(lines(os_release@), "PRETTY_NAME"@) {
                Some(v) => v,
                None => "unknown"@,
            },
            r.architecture == architecture,
            r.kernel == kernel,
            r.init@ == trim(init@),
            r.package_manager@ == package_manager_of(os_release@),
            r.user == user,
    {
        let plat = string_of(chars_of(platform(kernel.as_str())).as_slice());
        let os = match os_value(os_release, "PRETTY_NAME") {
            Some(v) => v,
            None => string_of(chars_of("unknown").as_slice()),
        };
        let pm = match os_value(os_release, "ID") {
            Some(v) => if equals(chars_of(v.as_str()).as_slice(), "arch") {
                "pacman"
            } else {
                "unknown"
            },
            None => "unknown",
        };
        SystemStatus {
            platform: plat,
            os,
            architecture,
            kernel,
            init: string_of(trim_of(chars_of(init).as_slice()).as_slice()),
            package_manager: string_of(chars_of(pm).as_slice()),
            user,
        }
    }

    /// Packages are installed on Arch Linux only.
    pub fn install_supported(&self, os_release: &str) -> (r: Result<(), String>)
        ensures
            r is Ok <==> first_value(lines(os_release@), "ID"@) == Some("arch"@),
            r matches Err(e) ==> e@ == "Package installation currently supports Arch Linux only"@,
    {
        let ok = match os_value(os_release, "ID") {
            Some(v) => equals(chars_of(v.as_str()).as_slice(), "arch"),
            None => false,
        };
        if ok {
            Ok(())
        } else {
            Err(string_of(chars_of("Package installation currently supports Arch Linux only").as_slice()))
        }
    }

    /// Packages are installed by root only (`uid` is the output of `id -u`).
    pub fn install_as_root(&self, uid: &str) -> (r: Result<(), String>)
        ensures
            r is Ok <==> uid@ == "0"@,
            r matches Err(e) ==> e@ == "Package installation requires root: sudo mono install <package>"@,
    {
        if equals(chars_of(uid).as_slice(), "0") {
            Ok(())
        } else {
            Err(string_of(chars_of("Package installation requires root: sudo mono install <package>").as_slice()))
        }
    }

    /// The result of the package manager run, from its success and exit status text.
    pub fn pacman_result(&self, success: bool, status: &str) -> (r: Result<(), String>)
        ensures
            r is Ok <==> success,
            r matches Err(e) ==> e@ == "pacman failed: "@ + status@,
    {
        if success {
            Ok(())
        } else {
            let mut m: Vec<char> = Vec::new();
            append_lit(&mut m, "pacman failed: ");
            append(&mut m, chars_of(status).as_slice());
            Err(string_of(m.as_slice()))
        }
    }

    /// The network status from the address listing and the IPv4 and IPv6 routes.
    pub fn network_from(&self, addresses: String, v4: &str, v6: &str) -> (r: NetworkStatus)
        ensures
            r.addresses == addresses,
            r.routes@ == "IPv4:\n"@ + v4@ + "\nIPv6:\n"@ + v6@,
    {
        let mut m: Vec<char> = Vec::new();
        append_lit(&mut m, "IPv4:\n");
        append(&mut m, chars_of(v4).as_slice());
        append_lit(&mut m, "\nIPv6:\n");
        append(&mut m, chars_of(v6).as_slice());
        NetworkStatus { addresses, routes: string_of(m.as_slice()) }
    }
}

} // verus!
