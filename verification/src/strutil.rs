//! Small string helpers shared by the classifier, the walker and the
//! front-matter scanner.

use vstd::prelude::*;

verus! {

/// Relies on `String::push` of std: it appends the given character at the
/// end of the string and changes nothing else.
#[verifier::external_body]
pub fn push_char(s: &mut String, c: char)
    ensures
        final(s)@ == old(s)@.push(c),
{
    s.push(c);
}

/// Compares two string slices character by character.
pub fn str_eq(a: &str, b: &str) -> (r: bool)
    ensures
        r == (a@ == b@),
{
    let na = a.unicode_len();
    let nb = b.unicode_len();
    if na != nb {
        return false;
    }
    let mut i: usize = 0;
    while i < na
        invariant
            i <= na,
            na == a@.len(),
            nb == b@.len(),
            na == nb,
            forall|k: int| 0 <= k < i ==> a@[k] == b@[k],
        decreases na - i,
    {
        if a.get_char(i) != b.get_char(i) {
            return false;
        }
        i += 1;
    }
    proof {
        assert(a@ =~= b@);
    }
    true
}

/// A '/'-separated relative-path join.  An empty left side names the tree
/// root itself, so the right side stands alone.
pub open spec fn spec_join(a: Seq<char>, b: Seq<char>) -> Seq<char> {
    if a.len() == 0 {
        b
    } else {
        a + seq!['/'] + b
    }
}

/// Joins a directory's relative path and an entry name into the entry's
/// relative path.
pub fn join_rel(a: &String, b: &String) -> (r: String)
    ensures
        r@ == spec_join(a@, b@),
{
    if a.as_str().unicode_len() == 0 {
        let r = b.clone();
        r
    } else {
        let mut r = a.clone();
        push_char(&mut r, '/');
        r.append(b.as_str());
        proof {
            assert(r@ =~= a@ + seq!['/'] + b@);
        }
        r
    }
}

} // verus!
