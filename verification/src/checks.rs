//! Checks on the words a user passes to system commands, so that none can be
//! taken for an option, a pattern or a second command.

use vstd::prelude::*;
use vstd::utf8::encode_utf8;
use crate::text::{
    all_alnum_or, alnum_or, append, append_lit, chars_of, control, digit, has_char, hex, is_alnum,
    is_control, is_digit, is_hex, is_lower, lower, split, split_of, string_of, texts,
};

verus! {

/// A value that is not empty, does not start with `-`, and has no control character.
pub open spec fn is_safe(v: Seq<char>) -> bool {
    &&& v.len() > 0
    &&& v[0] != '-'
    &&& forall|i: int| 0 <= i < v.len() ==> !is_control(#[trigger] v[i])
}

/// Why a value is not safe.
pub open spec fn unsafe_message() -> Seq<char> {
    "Empty values, leading '-' and control characters are not accepted here"@
}

fn no_control(v: &[char]) -> (r: bool)
    ensures
        r == forall|i: int| 0 <= i < v@.len() ==> !is_control(#[trigger] v@[i]),
{
    let mut i: usize = 0;
    while i < v.len()
        invariant
            i <= v@.len(),
            forall|j: int| 0 <= j < i ==> !is_control(#[trigger] v@[j]),
        decreases v.len() - i,
    {
        if control(v[i]) {
            return false;
        }
        i = i + 1;
    }
    true
}

/// Accepts a value that is safe to pass as an argument.
pub fn safe(v: &[char]) -> (r: Result<(), String>)
    ensures
        r is Ok <==> is_safe(v@),
        r matches Err(e) ==> e@ == unsafe_message(),
{
    if v.len() > 0 && v[0] != '-' && no_control(v) {
        Ok(())
    } else {
        Err(string_of(chars_of("Empty values, leading '-' and control characters are not accepted here").as_slice()))
    }
}

/// A Linux user name: 1 to 32 characters, lowercase letters and `_`, and
/// after the first character also digits and `-`.
pub open spec fn is_username(v: Seq<char>) -> bool {
    &&& v.len() > 0
    &&& v.len() <= 32
    &&& forall|i: int|
        0 <= i < v.len() ==> is_lower(#[trigger] v[i]) || v[i] == '_' || (i > 0 && (is_digit(v[i])
            || v[i] == '-'))
}

/// Why a value is not a user name.
pub open spec fn username_message() -> Seq<char> {
    "Expected a Linux username (lowercase letters, digits, '_' or '-')"@
}

fn username_chars(v: &[char]) -> (r: bool)
    ensures
        r == forall|i: int|
            0 <= i < v@.len() ==> is_lower(#[trigger] v@[i]) || v@[i] == '_' || (i > 0 && (is_digit(
                v@[i],
            ) || v@[i] == '-')),
{
    let mut i: usize = 0;
    while i < v.len()
        invariant
            i <= v@.len(),
            forall|j: int|
                0 <= j < i ==> is_lower(#[trigger] v@[j]) || v@[j] == '_' || (j > 0 && (is_digit(
                    v@[j],
                ) || v@[j] == '-')),
        decreases v.len() - i,
    {
        let c = v[i];
        if !(lower(c) || c == '_' || (i > 0 && (digit(c) || c == '-'))) {
            return false;
        }
        i = i + 1;
    }
    true
}

/// Accepts a Linux user name.
pub fn username(v: &[char]) -> (r: Result<(), String>)
    ensures
        r is Ok <==> is_username(v@),
        r matches Err(e) ==> e@ == username_message(),
{
    if v.len() > 0 && v.len() <= 32 && username_chars(v) {
        Ok(())
    } else {
        Err(string_of(chars_of("Expected a Linux username (lowercase letters, digits, '_' or '-')").as_slice()))
    }
}

/// The systemd unit a service name means: safe, only letters, digits and
/// `_.@:-`, with `.service` added when it has no dot.
pub open spec fn unit_name(v: Seq<char>) -> Result<Seq<char>, Seq<char>> {
    if !is_safe(v) {
        Err(unsafe_message())
    } else if !all_alnum_or(v, "_.@:-"@) {
        Err("Invalid service name"@)
    } else if v.contains('.') {
        Ok(v)
    } else {
        Ok(v + ".service"@)
    }
}

/// The systemd unit a service name means.
pub fn unit(v: &[char]) -> (r: Result<Vec<char>, String>)
    ensures
        match r {
            Ok(u) => unit_name(v@) == Ok::<Seq<char>, Seq<char>>(u@),
            Err(e) => unit_name(v@) == Err::<Seq<char>, Seq<char>>(e@),
        },
{
    safe(v)?;
    if !alnum_or(v, "_.@:-") {
        return Err(string_of(chars_of("Invalid service name").as_slice()));
    }
    let mut u: Vec<char> = Vec::new();
    append(&mut u, v);
    if !has_char(v, '.') {
        append_lit(&mut u, ".service");
    } else {
        assert(u@ =~= v@);
    }
    Ok(u)
}

/// The characters that have a meaning in a process name pattern.
pub open spec fn is_pattern_char(c: char) -> bool {
    ".^$*+?()[]{}|\\"@.contains(c)
}

/// `s` with every pattern character preceded by a backslash.
pub open spec fn escaped(s: Seq<char>) -> Seq<char>
    decreases s.len(),
{
    if s.len() == 0 {
        Seq::empty()
    } else {
        escaped(s.drop_last()) + if is_pattern_char(s.last()) {
            seq!['\\', s.last()]
        } else {
            seq![s.last()]
        }
    }
}

/// The exact-match pattern for a process name: safe, at most 15 bytes (the
/// kernel's limit for the names `pkill -x` compares), every pattern character
/// escaped.
pub open spec fn process_pattern_of(v: Seq<char>) -> Result<Seq<char>, Seq<char>> {
    if !is_safe(v) {
        Err(unsafe_message())
    } else if encode_utf8(v).len() > 15 {
        Err("Process names longer than 15 bytes require an explicit PID"@)
    } else {
        Ok(escaped(v))
    }
}

/// The exact-match pattern for a process name.
pub fn process_pattern(value: &str) -> (r: Result<String, String>)
    ensures
        match r {
            Ok(p) => process_pattern_of(value@) == Ok::<Seq<char>, Seq<char>>(p@),
            Err(e) => process_pattern_of(value@) == Err::<Seq<char>, Seq<char>>(e@),
        },
{
    let v = chars_of(value);
    safe(v.as_slice())?;
    if crate::text::longer_than(v.as_slice(), 15) {
        return Err(string_of(chars_of("Process names longer than 15 bytes require an explicit PID").as_slice()));
    }
    let special = chars_of(".^$*+?()[]{}|\\");
    let mut out: Vec<char> = Vec::new();
    let mut i: usize = 0;
    assert(v@.take(0) =~= Seq::<char>::empty());
    while i < v.len()
        invariant
            v@ == value@,
            special@ == ".^$*+?()[]{}|\\"@,
            i <= v@.len(),
            out@ == escaped(v@.take(i as int)),
        decreases v.len() - i,
    {
        let c = v[i];
        assert(v@.take(i + 1).drop_last() =~= v@.take(i as int));
        if has_char(special.as_slice(), c) {
            out.push('\\');
        }
        out.push(c);
        assert(out@ =~= escaped(v@.take(i + 1)));
        i = i + 1;
    }
    assert(v@.take(v@.len() as int) =~= v@);
    Ok(string_of(out.as_slice()))
}

/// An application executable name: safe, only letters, digits and `._-`.
pub open spec fn app_name_error(v: Seq<char>) -> Option<Seq<char>> {
    if !is_safe(v) {
        Some(unsafe_message())
    } else if !all_alnum_or(v, "._-"@) {
        Some("Expected an application executable name"@)
    } else {
        None
    }
}

/// Accepts an application executable name.
pub fn app_name(v: &[char]) -> (r: Result<(), String>)
    ensures
        match r {
            Ok(_) => app_name_error(v@) is None,
            Err(e) => app_name_error(v@) == Some(e@),
        },
{
    safe(v)?;
    if !alnum_or(v, "._-") {
        return Err(string_of(chars_of("Expected an application executable name").as_slice()));
    }
    Ok(())
}

/// A Bluetooth MAC address: six pairs of hexadecimal digits separated by `:`.
pub open spec fn is_mac(v: Seq<char>) -> bool {
    let parts = split(v, ':');
    &&& parts.len() == 6
    &&& forall|i: int|
        0 <= i < parts.len() ==> (#[trigger] parts[i]).len() == 2 && is_hex(parts[i][0]) && is_hex(
            parts[i][1],
        )
}

/// Whether a value is a Bluetooth MAC address.
pub fn mac(v: &[char]) -> (r: bool)
    ensures
        r == is_mac(v@),
{
    let parts = split_of(v, ':');
    if parts.len() != 6 {
        return false;
    }
    let mut i: usize = 0;
    while i < parts.len()
        invariant
            texts(parts@) == split(v@, ':'),
            i <= parts@.len(),
            forall|j: int|
                0 <= j < i ==> (#[trigger] texts(parts@)[j]).len() == 2 && is_hex(texts(parts@)[j][0])
                    && is_hex(texts(parts@)[j][1]),
        decreases parts.len() - i,
    {
        let p = parts[i].as_slice();
        assert(texts(parts@)[i as int] == p@);
        if !(p.len() == 2 && hex(p[0]) && hex(p[1])) {
            return false;
        }
        i = i + 1;
    }
    true
}

} // verus!
