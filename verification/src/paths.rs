//! Operations on the forward-slash separated relative paths that name
//! archive members: the safety check applied to ingested members, the
//! parent/descendant tests used by the hierarchy builder, and sorting.

use vstd::prelude::*;

use crate::strutil::{lex_le, lex_le_total, lex_le_trans, str_lex_le};

verus! {

/// A parent-directory component ("..") starts at index `i` of `p`.
pub open spec fn dotdot_at(p: Seq<char>, i: int) -> bool {
    &&& 0 <= i
    &&& i + 2 <= p.len()
    &&& (i == 0 || p[i - 1] == '/')
    &&& p[i] == '.'
    &&& p[i + 1] == '.'
    &&& (i + 2 == p.len() || p[i + 2] == '/')
}

/// A member path is safe to resolve under a destination root: it is
/// non-empty, relative, free of NUL characters, and contains no
/// parent-directory component, so its resolution cannot escape the root.
pub open spec fn is_safe_path(p: Seq<char>) -> bool {
    &&& p.len() > 0
    &&& p[0] != '/'
    &&& (forall|i: int| 0 <= i < p.len() ==> p[i] != '\0')
    &&& !(exists|i: int| dotdot_at(p, i))
}

/// Decides `is_safe_path`.
pub fn check_safe_path(p: &str) -> (r: bool)
    ensures
        r == is_safe_path(p@),
{
    let len = p.unicode_len();
    if len == 0 {
        return false;
    }
    if p.get_char(0) == '/' {
        return false;
    }
    let mut i: usize = 0;
    while i < len
        invariant
            0 <= i <= len,
            len == p@.len(),
            forall|k: int| 0 <= k < i ==> p@[k] != '\0',
            forall|k: int| 0 <= k < i ==> !dotdot_at(p@, k),
        decreases len - i,
    {
        let c = p.get_char(i);
        if c == '\0' {
            return false;
        }
        if c == '.' && i + 1 < len && p.get_char(i + 1) == '.'
            && (i == 0 || p.get_char(i - 1) == '/')
            && (i + 2 == len || p.get_char(i + 2) == '/') {
            proof {
                assert(dotdot_at(p@, i as int));
            }
            return false;
        }
        proof {
            assert(!dotdot_at(p@, i as int));
        }
        i = i + 1;
    }
    proof {
        assert(forall|k: int| k >= len ==> !dotdot_at(p@, k));
    }
    true
}

/// The index of the last '/' in `p`, or -1 when there is none.
pub open spec fn last_slash(p: Seq<char>) -> int
    decreases p.len(),
{
    if p.len() == 0 {
        -1
    } else if p[p.len() - 1] == '/' {
        p.len() - 1
    } else {
        last_slash(p.drop_last())
    }
}

/// The last-slash index is within bounds, and marks a '/' when it exists.
pub proof fn last_slash_bounds(p: Seq<char>)
    ensures
        -1 <= last_slash(p) < p.len(),
        last_slash(p) >= 0 ==> p[last_slash(p)] == '/',
    decreases p.len(),
{
    if p.len() > 0 && p[p.len() - 1] != '/' {
        last_slash_bounds(p.drop_last());
    }
}

/// Finds the index of the last '/' in `p`, or `None` when there is none.
pub fn find_last_slash(p: &str) -> (r: Option<usize>)
    ensures
        match r {
            Some(i) => last_slash(p@) == i as int,
            None => last_slash(p@) == -1,
        },
{
    let len = p.unicode_len();
    proof {
        assert(p@.take(len as int) =~= p@);
    }
    let mut i: usize = len;
    while i > 0
        invariant
            0 <= i <= len,
            len == p@.len(),
            last_slash(p@) == last_slash(p@.take(i as int)),
        decreases i,
    {
        proof {
            assert(p@.take(i as int).drop_last() =~= p@.take(i - 1));
        }
        if p.get_char(i - 1) == '/' {
            proof {
                assert(p@.take(i as int)[i - 1] == p@[i - 1]);
            }
            return Some(i - 1);
        }
        i = i - 1;
    }
    proof {
        assert(p@.take(0) =~= Seq::<char>::empty());
    }
    None
}

/// `p` lies at or below the directory named by `pre`, in path-component
/// terms: `pre` is empty, or `p` extends `pre` at a component boundary.
pub open spec fn path_starts_with(p: Seq<char>, pre: Seq<char>) -> bool {
    ||| pre.len() == 0
    ||| (p.len() >= pre.len() && p.take(pre.len() as int) == pre
        && (p.len() == pre.len() || p[pre.len() as int] == '/'))
}

/// Decides `path_starts_with`.
pub fn check_path_starts_with(p: &str, pre: &str) -> (r: bool)
    ensures
        r == path_starts_with(p@, pre@),
{
    let plen = p.unicode_len();
    let prelen = pre.unicode_len();
    if prelen == 0 {
        return true;
    }
    if plen < prelen {
        return false;
    }
    let mut i: usize = 0;
    while i < prelen
        invariant
            0 <= i <= prelen,
            prelen <= plen,
            plen == p@.len(),
            prelen == pre@.len(),
            0 < prelen,
            forall|k: int| 0 <= k < i ==> p@[k] == pre@[k],
        decreases prelen - i,
    {
        if p.get_char(i) != pre.get_char(i) {
            proof {
                assert(p@.take(prelen as int)[i as int] == p@[i as int]);
            }
            return false;
        }
        i = i + 1;
    }
    proof {
        assert(p@.take(prelen as int) =~= pre@);
    }
    if plen == prelen {
        true
    } else {
        p.get_char(prelen) == '/'
    }
}

/// `p` names a direct child of the directory `par`: its final separator
/// closes exactly the prefix `par`, or it has no separator and `par` is
/// the synthetic empty root.
pub open spec fn is_direct_child(p: Seq<char>, par: Seq<char>) -> bool {
    if par.len() == 0 {
        last_slash(p) == -1
    } else {
        last_slash(p) == par.len() && p.take(par.len() as int) == par
    }
}

/// Decides `is_direct_child`.
pub fn check_direct_child(p: &str, par: &str) -> (r: bool)
    ensures
        r == is_direct_child(p@, par@),
{
    let parlen = par.unicode_len();
    let ls = find_last_slash(p);
    if parlen == 0 {
        match ls {
            None => true,
            Some(_) => false,
        }
    } else {
        match ls {
            None => false,
            Some(i) => {
                if i != parlen {
                    false
                } else {
                    let plen = p.unicode_len();
                    proof {
                        last_slash_bounds(p@);
                    }
                    let mut k: usize = 0;
                    while k < parlen
                        invariant
                            0 <= k <= parlen,
                            parlen < plen,
                            plen == p@.len(),
                            parlen == par@.len(),
                            forall|j: int| 0 <= j < k ==> p@[j] == par@[j],
                        decreases parlen - k,
                    {
                        if p.get_char(k) != par.get_char(k) {
                            proof {
                                assert(p@.take(parlen as int)[k as int] == p@[k as int]);
                            }
                            return false;
                        }
                        k = k + 1;
                    }
                    proof {
                        assert(p@.take(parlen as int) =~= par@);
                    }
                    true
                }
            },
        }
    }
}

/// The path with one trailing separator removed, when it has one:
/// explicit directory members are recorded with a trailing '/'.
pub open spec fn strip_trailing_slash_spec(p: Seq<char>) -> Seq<char> {
    if p.len() > 0 && p[p.len() - 1] == '/' {
        p.drop_last()
    } else {
        p
    }
}

/// Removes one trailing '/' from a path, if present.
pub fn strip_trailing_slash(p: &str) -> (r: &str)
    ensures
        r@ == strip_trailing_slash_spec(p@),
{
    let len = p.unicode_len();
    if len > 0 && p.get_char(len - 1) == '/' {
        let r = p.substring_char(0, len - 1);
        proof {
            assert(p@.subrange(0, len - 1) =~= p@.drop_last());
        }
        r
    } else {
        p
    }
}

/// The sequence is sorted in the lexicographic order.
pub open spec fn strings_sorted(v: Seq<String>) -> bool {
    forall|i: int, j: int| 0 <= i < j < v.len() ==> lex_le(v[i]@, v[j]@)
}

proof fn sviews_remove(s: Seq<String>, i: int)
    requires
        0 <= i < s.len(),
    ensures
        crate::strutil::string_views(s.remove(i)) =~= crate::strutil::string_views(s).remove(i),
{
}

proof fn sviews_insert(s: Seq<String>, i: int, x: String)
    requires
        0 <= i <= s.len(),
    ensures
        crate::strutil::string_views(s.insert(i, x)) =~= crate::strutil::string_views(
            s,
        ).insert(i, x@),
{
}

/// Sorts a vector of strings lexicographically. The result is a
/// permutation of the input: the multiset of string views is unchanged.
pub fn sort_strings(v: &mut Vec<String>)
    ensures
        strings_sorted(final(v)@),
        crate::strutil::string_views(final(v)@).to_multiset() == crate::strutil::string_views(
            old(v)@,
        ).to_multiset(),
{
    let ghost orig = v@;
    let mut i: usize = 1;
    while i < v.len()
        invariant
            1 <= i,
            i <= v@.len() || v@.len() == 0,
            crate::strutil::string_views(v@).to_multiset() == crate::strutil::string_views(
                orig,
            ).to_multiset(),
            forall|a: int, b: int| 0 <= a < b < i && b < v@.len() ==> lex_le(v@[a]@, v@[b]@),
        decreases v@.len() - i,
    {
        let mut j: usize = 0;
        while j < i && str_lex_le(v[j].as_str(), v[i].as_str())
            invariant
                0 <= j <= i < v@.len(),
                forall|k: int| 0 <= k < j ==> lex_le(v@[k]@, v@[i as int]@),
            decreases i - j,
        {
            j = j + 1;
        }
        if j < i {
            proof {
                lex_le_total(v@[j as int]@, v@[i as int]@);
            }
            let ghost before = v@;
            let x = v.remove(i);
            let ghost mid = v@;
            v.insert(j, x);
            proof {
                broadcast use vstd::seq_lib::group_to_multiset_ensures;
                broadcast use vstd::multiset::group_multiset_axioms;

                let sv = |s: Seq<String>| crate::strutil::string_views(s);
                assert(mid == before.remove(i as int));
                assert(v@ == mid.insert(j as int, x));
                sviews_remove(before, i as int);
                sviews_insert(mid, j as int, x);
                assert(sv(mid) == sv(before).remove(i as int));
                assert(sv(v@) == sv(mid).insert(j as int, x@));
                assert(sv(before).remove(i as int).to_multiset()
                    == sv(before).to_multiset().remove(sv(before)[i as int]));
                assert(sv(mid).insert(j as int, x@).to_multiset()
                    == sv(mid).to_multiset().insert(x@));
                assert(sv(before)[i as int] == x@);
                assert(sv(before).contains(x@)) by {
                    assert(sv(before)[i as int] == x@);
                }
                assert(sv(before).to_multiset().count(x@) > 0);
                assert(sv(before).to_multiset().remove(x@).insert(x@)
                    =~= sv(before).to_multiset());
                assert(sv(v@).to_multiset() == sv(before).to_multiset());
                assert forall|a: int, b: int| 0 <= a < b < i + 1 && b < v@.len()
                    implies lex_le(v@[a]@, v@[b]@) by {
                    sorted_insert_helper(before, v@, i as int, j as int, a, b);
                }
            }
        }
        i = i + 1;
    }
}

/// After moving the element at `i` back to position `j` within a prefix
/// that was sorted up to `i`, the prefix is sorted up to `i + 1`.
proof fn sorted_insert_helper(before: Seq<String>, after: Seq<String>, i: int, j: int, a: int, b: int)
    requires
        0 <= j < i < before.len(),
        after == before.remove(i).insert(j, before[i]),
        forall|p: int, q: int| 0 <= p < q < i ==> lex_le(before[p]@, before[q]@),
        forall|k: int| 0 <= k < j ==> lex_le(before[k]@, before[i]@),
        lex_le(before[i]@, before[j]@),
        0 <= a < b < i + 1,
        b < after.len(),
    ensures
        lex_le(after[a]@, after[b]@),
{
    let x = before[i];
    assert(after.len() == before.len());
    assert forall|k: int| 0 <= k < i + 1 implies after[k] == spec_at(before, i, j, k) by {
        reveal_spec_at(before, i, j, k);
    }
    if a < j && b < j {
        // both below the insertion point: unchanged order
    } else if a < j && b == j {
        // after[b] is x
    } else if a < j && b > j {
        // after[b] == before[b - 1], and b - 1 >= j > a
    } else if a == j {
        // after[a] is x; x <= before[j] <= before[b - 1]
        if b > j {
            if b - 1 > j {
                lex_le_trans(x@, before[j]@, before[b - 1]@);
            }
        }
    } else {
        // j < a < b <= i: both shifted
    }
}

/// The element of `before.remove(i).insert(j, before[i])` at index `k`,
/// for `j <= i` and `k <= i`.
spec fn spec_at(before: Seq<String>, i: int, j: int, k: int) -> String {
    if k < j {
        before[k]
    } else if k == j {
        before[i]
    } else {
        before[k - 1]
    }
}

proof fn reveal_spec_at(before: Seq<String>, i: int, j: int, k: int)
    requires
        0 <= j < i < before.len(),
        0 <= k < i + 1,
    ensures
        before.remove(i).insert(j, before[i])[k] == spec_at(before, i, j, k),
{
}

} // verus!
