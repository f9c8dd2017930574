//! The host whose hook protocol most of the others share. All its names follow
//! from one word that the program is given, the one that `--agent` takes.

use vstd::prelude::*;
use crate::text::{cat2, chars_of, text_between};

verus! {

/// A character with ASCII letters made capitals.
pub open spec fn capital(c: char) -> char {
    if 'a' <= c && c <= 'z' {
        (c as u32 - 32) as char
    } else {
        c
    }
}

fn capital_char(c: char) -> (r: char)
    ensures
        r == capital(c),
{
    if 'a' <= c && c <= 'z' {
        let n: u8 = c as u8;
        (n - 32) as char
    } else {
        c
    }
}

/// The name under which the host is a source of payloads.
pub open spec fn source_of(name: Seq<char>) -> Seq<char> {
    name + "-code"@
}

/// The directory below the home directory that holds the host's settings.
pub open spec fn dir_of(name: Seq<char>) -> Seq<char> {
    "."@ + name
}

/// The name under which the host is shown.
pub open spec fn label_of(name: Seq<char>) -> Seq<char> {
    if name.len() > 0 {
        seq![capital(name[0])] + name.skip(1) + " Code"@
    } else {
        " Code"@
    }
}

/// The name under which the host is a source of payloads.
pub fn source(name: &str) -> (r: String)
    ensures
        r@ == source_of(name@),
{
    cat2(name, "-code")
}

/// The directory below the home directory that holds the host's settings.
pub fn dir(name: &str) -> (r: String)
    ensures
        r@ == dir_of(name@),
{
    cat2(".", name)
}

/// The name under which the host is shown.
pub fn label(name: &str) -> (r: String)
    ensures
        r@ == label_of(name@),
{
    let chars = chars_of(name);
    let mut r = String::new();
    if chars.len() > 0 {
        r.push(capital_char(chars[0]));
        let rest = text_between(&chars, 1, chars.len());
        r.append(rest.as_str());
        proof {
            assert(chars@.subrange(1, chars@.len() as int) =~= chars@.skip(1));
        }
    }
    r.append(" Code");
    proof {
        assert(r@ =~= label_of(name@));
    }
    r
}

// ---------------------------------------------------------------------------
// Laws
// ---------------------------------------------------------------------------

/// What the lead host is called, where its settings are, and how it is shown.
pub proof fn law_what_the_lead_host_is_called(name: Seq<char>)
    requires
        name.len() > 0,
        'a' <= name[0] <= 'z',
    ensures
        source_of(name) == name + "-code"@,
        dir_of(name) == "."@ + name,
        label_of(name).len() == name.len() + 5,
        'A' <= label_of(name)[0] <= 'Z',
        label_of(name)[0] as int == name[0] as int - 32,
        label_of(name).subrange(1, name.len() as int) == name.skip(1),
        label_of(name).skip(name.len() as int) == " Code"@,
{
    reveal_strlit(" Code");
    assert(" Code"@.len() == 5);
    assert(label_of(name).subrange(1, name.len() as int) =~= name.skip(1));
    assert(label_of(name).skip(name.len() as int) =~= " Code"@);
}

} // verus!
