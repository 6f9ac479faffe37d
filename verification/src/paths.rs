//! Path computations on `/`-separated path strings: joining, taking the
//! parent directory, replacing the file name, and stripping a directory
//! prefix. Paths are ordinary strings here; no filesystem is touched.

use vstd::prelude::*;

verus! {

/// Index of the last `/` in `s`, or `-1` if there is none.
pub open spec fn spec_last_slash(s: Seq<char>) -> int
    decreases s.len(),
{
    if s.len() == 0 {
        -1
    } else if s.last() == '/' {
        s.len() - 1
    } else {
        spec_last_slash(s.drop_last())
    }
}

/// The directory part of `p`: everything before the last `/` (the root `/`
/// when the last `/` is leading, the empty path when there is no `/`).
/// `None` for the empty path and for the bare root, which have no parent.
pub open spec fn spec_parent(p: Seq<char>) -> Option<Seq<char>> {
    if p.len() == 0 || p == seq!['/'] {
        None
    } else {
        let i = spec_last_slash(p);
        if i == -1 {
            Some(Seq::empty())
        } else if i == 0 {
            Some(seq!['/'])
        } else {
            Some(p.take(i))
        }
    }
}

/// `a` extended by the component(s) `b`: `b` itself when `b` is absolute or
/// `a` is empty, otherwise the two glued with a single `/`.
pub open spec fn spec_join(a: Seq<char>, b: Seq<char>) -> Seq<char> {
    if b.len() > 0 && b[0] == '/' {
        b
    } else if a.len() == 0 {
        b
    } else if a.last() == '/' {
        a + b
    } else {
        a + seq!['/'] + b
    }
}

/// `p` with its final component replaced by `name`.
pub open spec fn spec_with_file_name(p: Seq<char>, name: Seq<char>) -> Seq<char> {
    match spec_parent(p) {
        Some(par) => spec_join(par, name),
        None => spec_join(p, name),
    }
}

/// The remainder of `p` after the directory prefix `pre`, when `pre` is a
/// prefix of `p` on a component boundary; `None` otherwise.
pub open spec fn spec_strip_prefix(p: Seq<char>, pre: Seq<char>) -> Option<Seq<char>> {
    if pre.len() == 0 {
        if p.len() > 0 && p[0] == '/' {
            None
        } else {
            Some(p)
        }
    } else if p == pre {
        Some(Seq::<char>::empty())
    } else if p.len() > pre.len() && p.take(pre.len() as int) == pre {
        if pre.last() == '/' {
            Some(p.skip(pre.len() as int))
        } else if p[pre.len() as int] == '/' {
            Some(p.skip(pre.len() as int + 1))
        } else {
            None
        }
    } else {
        None
    }
}

/// Character-for-character string equality.
pub fn str_eq(a: &str, b: &str) -> (r: bool)
    ensures
        r == (a@ == b@),
{
    let alen = a.unicode_len();
    let blen = b.unicode_len();
    if alen != blen {
        return false;
    }
    let mut i: usize = 0;
    while i < alen
        invariant
            i <= alen,
            alen == a@.len(),
            blen == b@.len(),
            alen == blen,
            forall|j: int| 0 <= j < i ==> a@[j] == b@[j],
        decreases alen - i,
    {
        if a.get_char(i) != b.get_char(i) {
            return false;
        }
        i += 1;
    }
    proof {
        assert(a@ =~= b@);
    }
    true
}

/// Whether `s` begins with the character `c`.
pub fn first_char_is(s: &str, c: char) -> (r: bool)
    ensures
        r == (s@.len() > 0 && s@[0] == c),
{
    let len = s.unicode_len();
    if len == 0 {
        false
    } else {
        s.get_char(0) == c
    }
}

/// A suffix free of `/` does not move the last slash.
proof fn lemma_last_slash_take(s: Seq<char>, i: int)
    requires
        0 <= i <= s.len(),
        forall|j: int| i <= j < s.len() ==> s[j] != '/',
    ensures
        spec_last_slash(s) == spec_last_slash(s.take(i)),
    decreases s.len() - i,
{
    if i == s.len() {
        assert(s.take(i) =~= s);
    } else {
        assert(s.drop_last() =~= s.take(s.len() - 1));
        lemma_last_slash_take(s.take(s.len() - 1), i);
        assert(s.take(s.len() - 1).take(i) =~= s.take(i));
    }
}

/// Index of the last `/` in `s`, if any.
fn find_last_slash(s: &str) -> (r: Option<usize>)
    ensures
        match r {
            Some(i) => 0 <= i < s@.len() && spec_last_slash(s@) == i as int && s@[i as int]
                == '/',
            None => spec_last_slash(s@) == -1 && forall|j: int|
                0 <= j < s@.len() ==> s@[j] != '/',
        },
{
    let len = s.unicode_len();
    let mut i: usize = len;
    while i > 0
        invariant
            i <= len,
            len == s@.len(),
            forall|j: int| i <= j < len ==> s@[j] != '/',
        decreases i,
    {
        if s.get_char(i - 1) == '/' {
            proof {
                lemma_last_slash_take(s@, i as int);
                assert(s@.take(i as int).last() == s@[i - 1]);
            }
            return Some(i - 1);
        }
        i -= 1;
    }
    proof {
        lemma_last_slash_take(s@, 0);
    }
    None
}

/// The directory part of `p`, as `spec_parent` gives it.
pub fn parent(p: &str) -> (r: Option<String>)
    ensures
        match spec_parent(p@) {
            Some(v) => r matches Some(s) && s@ == v,
            None => r is None,
        },
{
    let len = p.unicode_len();
    if len == 0 {
        return None;
    }
    match find_last_slash(p) {
        None => {
            proof {
                assert(p@ != seq!['/']) by {
                    assert(seq!['/'][0] == '/');
                    if p@ == seq!['/'] {
                        assert(p@[0] == '/');
                        assert(spec_last_slash(p@) != -1) by {
                            assert(p@.len() == 1);
                            assert(p@.last() == '/');
                        }
                    }
                }
            }
            Some(String::new())
        },
        Some(i) => {
            if i == 0 {
                if len == 1 {
                    proof {
                        assert(p@ =~= seq!['/']);
                    }
                    None
                } else {
                    let r = String::from_str("/");
                    proof {
                        reveal_strlit("/");
                        assert(r@ =~= seq!['/']);
                        assert(p@ != seq!['/']) by {
                            assert(p@.len() != 1);
                        }
                    }
                    Some(r)
                }
            } else {
                proof {
                    assert(p@ != seq!['/']) by {
                        if p@ == seq!['/'] {
                            assert(p@.len() == 1);
                            assert(spec_last_slash(p@) == 0);
                        }
                    }
                }
                Some(String::from_str(p.substring_char(0, i)))
            }
        },
    }
}

/// `a` extended by `b`, as `spec_join` gives it.
pub fn join(a: &str, b: &str) -> (r: String)
    ensures
        r@ == spec_join(a@, b@),
{
    let blen = b.unicode_len();
    if blen > 0 && b.get_char(0) == '/' {
        return String::from_str(b);
    }
    let alen = a.unicode_len();
    if alen == 0 {
        return String::from_str(b);
    }
    let mut s = String::from_str(a);
    if a.get_char(alen - 1) != '/' {
        s.append("/");
        proof {
            reveal_strlit("/");
            assert("/"@ =~= seq!['/']);
        }
    }
    s.append(b);
    s
}

/// `p` with its final component replaced by `name`.
pub fn with_file_name(p: &str, name: &str) -> (r: String)
    ensures
        r@ == spec_with_file_name(p@, name@),
{
    match parent(p) {
        Some(par) => join(par.as_str(), name),
        None => join(p, name),
    }
}

/// The remainder of `p` after the directory prefix `pre`, as
/// `spec_strip_prefix` gives it.
pub fn strip_prefix(p: &str, pre: &str) -> (r: Option<String>)
    ensures
        match spec_strip_prefix(p@, pre@) {
            Some(v) => r matches Some(s) && s@ == v,
            None => r is None,
        },
{
    let plen = p.unicode_len();
    let prelen = pre.unicode_len();
    if prelen == 0 {
        if plen > 0 && p.get_char(0) == '/' {
            return None;
        }
        return Some(String::from_str(p));
    }
    if plen < prelen {
        return None;
    }
    let mut i: usize = 0;
    while i < prelen
        invariant
            i <= prelen,
            plen == p@.len(),
            prelen == pre@.len(),
            prelen <= plen,
            prelen > 0,
            forall|j: int| 0 <= j < i ==> p@[j] == pre@[j],
        decreases prelen - i,
    {
        if p.get_char(i) != pre.get_char(i) {
            proof {
                assert(p@ != pre@);
                if p@.take(prelen as int) == pre@ {
                    assert(p@.take(prelen as int)[i as int] == p@[i as int]);
                }
            }
            return None;
        }
        i += 1;
    }
    proof {
        assert(p@.take(prelen as int) =~= pre@);
    }
    if plen == prelen {
        proof {
            assert(p@ =~= pre@);
        }
        return Some(String::new());
    }
    if pre.get_char(prelen - 1) == '/' {
        let r = String::from_str(p.substring_char(prelen, plen));
        proof {
            assert(r@ =~= p@.skip(prelen as int));
        }
        return Some(r);
    }
    if p.get_char(prelen) == '/' {
        let r = String::from_str(p.substring_char(prelen + 1, plen));
        proof {
            assert(r@ =~= p@.skip(prelen as int + 1));
        }
        return Some(r);
    }
    None
}

} // verus!
