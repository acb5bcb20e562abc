use vstd::prelude::*;
use vstd::string::*;

verus! {

/// `path` as shown to a user: a leading `home` is written `~`.
pub open spec fn spec_abbreviate_home(path: Seq<char>, home: Seq<char>) -> Seq<char> {
    if home.len() <= path.len() && path.take(home.len() as int) == home {
        seq!['~'] + path.skip(home.len() as int)
    } else {
        path
    }
}

/// Whether `path` begins with `prefix`, character by character.
pub fn starts_with(path: &str, prefix: &str) -> (r: bool)
    ensures
        r == (prefix@.len() <= path@.len() && path@.take(prefix@.len() as int) == prefix@),
{
    let n = prefix.unicode_len();
    let m = path.unicode_len();
    if n > m {
        return false;
    }
    let mut i: usize = 0;
    while i < n
        invariant
            i <= n <= m,
            n == prefix@.len(),
            m == path@.len(),
            forall|j: int| 0 <= j < i ==> path@[j] == prefix@[j],
        decreases n - i,
    {
        if path.get_char(i) != prefix.get_char(i) {
            assert(path@.take(n as int)[i as int] != prefix@[i as int]);
            return false;
        }
        i = i + 1;
    }
    assert(path@.take(n as int) =~= prefix@);
    true
}

/// Writes a path for display, with the user's home directory abbreviated to `~`.
pub fn abbreviate_home(path: &String, home: &String) -> (r: String)
    ensures
        r@ == spec_abbreviate_home(path@, home@),
{
    let p = path.as_str();
    let h = home.as_str();
    if starts_with(p, h) {
        let rest = p.substring_char(h.unicode_len(), p.unicode_len());
        proof {
            reveal_strlit("~");
        }
        String::from_str("~").concat(rest)
    } else {
        path.clone()
    }
}

} // verus!
