//! Connection-scoped ("hop-by-hop") header names and their case-insensitive
//! matching.

use vstd::prelude::*;

verus! {

/// The lower-case form of an ASCII upper-case letter; any other character
/// stands for itself.
pub open spec fn fold_char(c: char) -> char {
    if 'A' <= c && c <= 'Z' {
        ((c as u8 + 32) as u8) as char
    } else {
        c
    }
}

/// A name with every ASCII upper-case letter replaced by its lower-case form.
pub open spec fn fold(name: Seq<char>) -> Seq<char> {
    name.map_values(|c: char| fold_char(c))
}

/// Two names are the same up to the case of their ASCII letters.
pub open spec fn same_name(a: Seq<char>, b: Seq<char>) -> bool {
    fold(a) == fold(b)
}

/// `name` matches one of `names`, up to ASCII case.
pub open spec fn hop_match(names: Seq<Seq<char>>, name: Seq<char>) -> bool {
    exists|i: int| 0 <= i < names.len() && same_name(#[trigger] names[i], name)
}

/// Calls `unicase::Ascii::new(a) == b`, which is `str::eq_ignore_ascii_case`
/// on the two strings: they have the same length and agree byte by byte once
/// ASCII upper-case letters are lowered. Bytes of non-ASCII characters are
/// compared as they are, so this is equality of the folded character
/// sequences.
#[verifier::external_body]
fn eq_ignore_case(a: &str, b: &str) -> (r: bool)
    ensures
        r == same_name(a@, b@),
{
    unicase::Ascii::new(a) == b
}

/// The set of header names that are meaningful for one transport connection
/// only and must not be relayed.
pub struct HopHeaders {
    names: Vec<String>,
}

impl View for HopHeaders {
    type V = Seq<Seq<char>>;

    closed spec fn view(&self) -> Seq<Seq<char>> {
        self.names.deep_view()
    }
}

/// The eight names that HTTP defines as connection-scoped, in their
/// customary order.
pub open spec fn standard_hop_names() -> Seq<Seq<char>> {
    seq![
        "Connection"@,
        "Keep-Alive"@,
        "Proxy-Authenticate"@,
        "Proxy-Authorization"@,
        "Te"@,
        "Trailers"@,
        "Transfer-Encoding"@,
        "Upgrade"@,
    ]
}

impl HopHeaders {
    /// The standard set.
    pub fn new() -> (r: HopHeaders)
        ensures
            r@ == standard_hop_names(),
    {
        let mut names: Vec<String> = Vec::new();
        names.push("Connection".to_owned());
        names.push("Keep-Alive".to_owned());
        names.push("Proxy-Authenticate".to_owned());
        names.push("Proxy-Authorization".to_owned());
        names.push("Te".to_owned());
        names.push("Trailers".to_owned());
        names.push("Transfer-Encoding".to_owned());
        names.push("Upgrade".to_owned());
        let r = HopHeaders { names };
        assert(r@ =~= standard_hop_names());
        r
    }

    /// A set made of the given names.
    pub fn from_names(names: Vec<String>) -> (r: HopHeaders)
        ensures
            r@ == names.deep_view(),
    {
        HopHeaders { names }
    }

    /// Whether `name` is one of the set, up to ASCII case.
    pub fn is_hop_header(&self, name: &str) -> (r: bool)
        ensures
            r == hop_match(self@, name@),
    {
        let mut i: usize = 0;
        while i < self.names.len()
            invariant
                i <= self.names.len(),
                forall|j: int| 0 <= j < i ==> !same_name(#[trigger] self@[j], name@),
            decreases self.names.len() - i,
        {
            if eq_ignore_case(self.names[i].as_str(), name) {
                assert(same_name(self@[i as int], name@));
                return true;
            }
            i += 1;
        }
        false
    }
}

} // verus!
