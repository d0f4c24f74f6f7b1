//! Path strings: absolute-path shape, joining, parents, and the
//! lexicographic order used for the home boundary.

use vstd::prelude::*;
use vstd::string::StrSliceExecFns;

verus! {

broadcast use vstd::string::group_string_axioms;

/// An absolute path: non-empty and starting with `/`.
pub open spec fn abs_path(s: Seq<char>) -> bool {
    s.len() >= 1 && s[0] == '/'
}

/// The filesystem root, the one-character path `/`.
pub open spec fn is_root(s: Seq<char>) -> bool {
    s.len() == 1 && s[0] == '/'
}

/// Appends `/` and a child name to a directory path.
pub fn join(path: &str, name: &str) -> (r: String)
    ensures
        r@ == path@ + seq!['/'] + name@,
{
    let mut r = path.to_owned();
    r.append("/");
    r.append(name);
    proof {
        reveal_strlit("/");
        assert(r@ =~= path@ + seq!['/'] + name@);
    }
    r
}

/// Index of the last `/` in `s`, or `-1` when there is none.
pub open spec fn last_slash(s: Seq<char>) -> int
    decreases s.len(),
{
    if s.len() == 0 {
        -1
    } else if s[s.len() - 1] == '/' {
        s.len() - 1
    } else {
        last_slash(s.drop_last())
    }
}

/// The parent of an absolute path: everything before the last `/`,
/// or the root when that separator is the leading one.
pub open spec fn parent_seq(s: Seq<char>) -> Seq<char> {
    if last_slash(s) <= 0 {
        seq!['/']
    } else {
        s.subrange(0, last_slash(s))
    }
}

/// A position whose suffix holds no `/` and which holds one itself is
/// the last `/` of the string.
proof fn lemma_last_slash_at(s: Seq<char>, k: int)
    requires
        0 <= k < s.len(),
        s[k] == '/',
        forall|j: int| k < j < s.len() ==> s[j] != '/',
    ensures
        last_slash(s) == k,
    decreases s.len(),
{
    if k < s.len() - 1 {
        assert(s.drop_last()[k] == '/');
        lemma_last_slash_at(s.drop_last(), k);
    }
}

/// The last `/` is never past the end of the string.
proof fn lemma_last_slash_bounds(s: Seq<char>)
    ensures
        -1 <= last_slash(s) < s.len(),
    decreases s.len(),
{
    if s.len() > 0 && s[s.len() - 1] != '/' {
        lemma_last_slash_bounds(s.drop_last());
    }
}

/// The parent of an absolute path is itself absolute.
pub proof fn lemma_parent_seq_abs(s: Seq<char>)
    requires
        abs_path(s),
    ensures
        abs_path(parent_seq(s)),
{
    lemma_last_slash_bounds(s);
    if last_slash(s) > 0 {
        assert(s.subrange(0, last_slash(s))[0] == s[0]);
    }
}

/// Lexicographic order on character sequences, by code point, with a
/// prefix ordered before every extension of it. This is the order in
/// which the standard library compares strings.
pub open spec fn lex_le(a: Seq<char>, b: Seq<char>) -> bool
    decreases a.len(),
{
    if a.len() == 0 {
        true
    } else if b.len() == 0 {
        false
    } else if a[0] == b[0] {
        lex_le(a.skip(1), b.skip(1))
    } else {
        (a[0] as u32) < (b[0] as u32)
    }
}

/// Dropping a common prefix does not change the lexicographic order.
proof fn lemma_lex_le_skip(a: Seq<char>, b: Seq<char>, i: int)
    requires
        0 <= i <= a.len(),
        i <= b.len(),
        forall|j: int| 0 <= j < i ==> a[j] == b[j],
    ensures
        lex_le(a, b) == lex_le(a.skip(i), b.skip(i)),
    decreases i,
{
    if i > 0 {
        assert(a[0] == b[0]);
        assert forall|j: int| 0 <= j < i - 1 implies a.skip(1)[j] == b.skip(1)[j] by {
            assert(a.skip(1)[j] == a[j + 1]);
            assert(b.skip(1)[j] == b[j + 1]);
        }
        lemma_lex_le_skip(a.skip(1), b.skip(1), i - 1);
        assert(a.skip(1).skip(i - 1) =~= a.skip(i));
        assert(b.skip(1).skip(i - 1) =~= b.skip(i));
    } else {
        assert(a.skip(0) =~= a);
        assert(b.skip(0) =~= b);
    }
}

/// The parent of an absolute path, as a string: the prefix before the
/// last `/`, or `/` itself when the path is the root or a direct child
/// of it.
pub fn parent_of(path: &str) -> (r: String)
    requires
        abs_path(path@),
    ensures
        r@ == parent_seq(path@),
        abs_path(r@),
{
    let n = path.unicode_len();
    let mut i: usize = n - 1;
    loop
        invariant
            abs_path(path@),
            n == path@.len(),
            i < n,
            forall|j: int| i < j < n ==> path@[j] != '/',
        decreases i,
    {
        let c = path.get_char(i);
        if c == '/' {
            proof {
                lemma_last_slash_at(path@, i as int);
            }
            if i == 0 {
                let r = "/".to_owned();
                proof {
                    reveal_strlit("/");
                    assert(r@ =~= parent_seq(path@));
                }
                return r;
            } else {
                let sub = path.substring_char(0, i);
                let r = sub.to_owned();
                return r;
            }
        }
        assert(i > 0);
        i = i - 1;
    }
}

/// Whether `a >= b` in the lexicographic order of [`lex_le`].
pub fn lex_ge(a: &str, b: &str) -> (r: bool)
    ensures
        r == lex_le(b@, a@),
{
    let la = a.unicode_len();
    let lb = b.unicode_len();
    let mut i: usize = 0;
    while i < la && i < lb
        invariant
            i <= la,
            i <= lb,
            la == a@.len(),
            lb == b@.len(),
            forall|j: int| 0 <= j < i ==> a@[j] == b@[j],
        decreases la - i,
    {
        let ca = a.get_char(i);
        let cb = b.get_char(i);
        if ca != cb {
            proof {
                lemma_lex_le_skip(b@, a@, i as int);
                assert(b@.skip(i as int)[0] == b@[i as int]);
                assert(a@.skip(i as int)[0] == a@[i as int]);
            }
            return (cb as u32) < (ca as u32);
        }
        i = i + 1;
    }
    proof {
        lemma_lex_le_skip(b@, a@, i as int);
    }
    lb <= la
}

/// Whether `path` is the filesystem root.
pub fn is_root_path(path: &str) -> (r: bool)
    ensures
        r == is_root(path@),
{
    if path.unicode_len() == 1 {
        path.get_char(0) == '/'
    } else {
        false
    }
}

} // verus!
