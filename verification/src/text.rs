//! Substring search and path joining over character sequences.

use vstd::prelude::*;

verus! {

/// `needle` occurs in `hay` starting at character position `i`.
pub open spec fn occurs_at(hay: Seq<char>, needle: Seq<char>, i: int) -> bool {
    0 <= i && i + needle.len() <= hay.len() && hay.subrange(i, i + needle.len()) == needle
}

/// `needle` occurs somewhere in `hay`.
pub open spec fn contains_substr(hay: Seq<char>, needle: Seq<char>) -> bool {
    exists|i: int| occurs_at(hay, needle, i)
}

/// Substring search, character by character.
pub fn str_contains(hay: &str, needle: &str) -> (b: bool)
    ensures
        b == contains_substr(hay@, needle@),
{
    let n = hay.unicode_len();
    let m = needle.unicode_len();
    if m > n {
        assert(forall|i: int| !occurs_at(hay@, needle@, i));
        return false;
    }
    let mut i: usize = 0;
    while i <= n - m
        invariant
            m <= n,
            n == hay@.len(),
            m == needle@.len(),
            i <= n - m + 1,
            forall|k: int| 0 <= k < i ==> !occurs_at(hay@, needle@, k),
        decreases n - m + 1 - i,
    {
        let mut j: usize = 0;
        while j < m && hay.get_char(i + j) == needle.get_char(j)
            invariant
                i + m <= n,
                n == hay@.len(),
                m == needle@.len(),
                j <= m,
                forall|t: int| 0 <= t < j ==> hay@[i + t] == needle@[t],
            decreases m - j,
        {
            j += 1;
        }
        if j == m {
            assert(occurs_at(hay@, needle@, i as int)) by {
                assert(hay@.subrange(i as int, i + m) =~= needle@);
            }
            return true;
        }
        assert(!occurs_at(hay@, needle@, i as int)) by {
            if occurs_at(hay@, needle@, i as int) {
                assert(hay@.subrange(i as int, i + m)[j as int] == needle@[j as int]);
            }
        }
        i += 1;
    }
    assert(forall|k: int| !occurs_at(hay@, needle@, k));
    false
}

/// Join a path prefix and an entry name: the name alone under the empty
/// prefix, and `prefix/name` otherwise.
pub open spec fn path_join(prefix: Seq<char>, name: Seq<char>) -> Seq<char> {
    if prefix.len() == 0 {
        name
    } else {
        prefix + seq!['/'] + name
    }
}

/// The string holds no NUL character, so it can cross a C string boundary.
pub open spec fn nul_free(s: Seq<char>) -> bool {
    forall|i: int| 0 <= i < s.len() ==> s[i] != '\u{0}'
}

/// Joining NUL-free components gives a NUL-free path.
pub proof fn lemma_path_join_nul_free(prefix: Seq<char>, name: Seq<char>)
    requires
        nul_free(prefix),
        nul_free(name),
    ensures
        nul_free(path_join(prefix, name)),
{
    if prefix.len() > 0 {
        let joined = prefix + seq!['/'] + name;
        assert forall|i: int| 0 <= i < joined.len() implies joined[i] != '\u{0}' by {
            if i < prefix.len() {
                assert(joined[i] == prefix[i]);
            } else if i == prefix.len() {
                assert(joined[i] == '/');
            } else {
                assert(joined[i] == name[i - prefix.len() - 1]);
            }
        }
    }
}

/// Joining is associative as long as the middle component is a real name.
pub proof fn lemma_path_join_assoc(a: Seq<char>, b: Seq<char>, c: Seq<char>)
    requires
        b.len() > 0,
    ensures
        path_join(path_join(a, b), c) == path_join(a, path_join(b, c)),
{
    if a.len() == 0 {
    } else {
        assert((a + seq!['/'] + b) + seq!['/'] + c =~= a + seq!['/'] + (b + seq!['/'] + c));
    }
}

/// Executable form of `path_join`.
pub fn join_path(prefix: &str, name: &str) -> (r: String)
    ensures
        r@ == path_join(prefix@, name@),
{
    if prefix.unicode_len() == 0 {
        name.to_owned()
    } else {
        let mut s = String::from_str(prefix);
        s.append("/");
        s.append(name);
        proof {
            reveal_strlit("/");
            assert("/"@ =~= seq!['/']);
        }
        s
    }
}

} // verus!
