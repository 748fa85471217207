//! Lexical operations on path strings: suffix tests, parent directories,
//! relative-target resolution and lexicographic ordering. All paths are
//! ordinary strings; nothing here touches the filesystem.

use vstd::prelude::*;
use vstd::string::*;

verus! {

/// `suf` is a suffix of `s`.
pub open spec fn is_suffix_of(suf: Seq<char>, s: Seq<char>) -> bool {
    suf.len() <= s.len() && s.subrange(s.len() - suf.len(), s.len() as int) == suf
}

/// `pre` is a prefix of `s`.
pub open spec fn is_prefix_of(pre: Seq<char>, s: Seq<char>) -> bool {
    pre.len() <= s.len() && s.take(pre.len() as int) == pre
}

/// Lexical parent of a path: everything before the last separator, or the
/// empty string when the path has no separator.
pub open spec fn parent_seq(p: Seq<char>) -> Seq<char>
    decreases p.len(),
{
    if p.len() == 0 {
        p
    } else if p[p.len() - 1] == '/' {
        p.take(p.len() - 1)
    } else {
        parent_seq(p.take(p.len() - 1))
    }
}

/// Whether the filename of `s` ends with the suffix `suf`.
pub fn str_ends_with(s: &str, suf: &str) -> (r: bool)
    ensures
        r == is_suffix_of(suf@, s@),
{
    let n: usize = s.unicode_len();
    let m: usize = suf.unicode_len();
    if m > n {
        return false;
    }
    let mut i: usize = 0;
    while i < m
        invariant
            i <= m <= n,
            n == s@.len(),
            m == suf@.len(),
            forall|j: int| 0 <= j < i ==> s@[n - m + j] == suf@[j],
        decreases m - i,
    {
        if s.get_char(n - m + i) != suf.get_char(i) {
            proof {
                assert(s@.subrange(n - m, n as int)[i as int] == s@[n - m + i]);
            }
            return false;
        }
        i += 1;
    }
    proof {
        assert(s@.subrange(n - m, n as int) =~= suf@);
    }
    true
}

/// Lexical parent directory of `p`.
pub fn parent_of(p: &str) -> (r: String)
    ensures
        r@ == parent_seq(p@),
{
    let n: usize = p.unicode_len();
    let mut i: usize = n;
    proof {
        assert(p@.take(n as int) =~= p@);
    }
    while i > 0
        invariant
            i <= n,
            n == p@.len(),
            parent_seq(p@) == parent_seq(p@.take(i as int)),
        decreases i,
    {
        if p.get_char(i - 1) == '/' {
            let r = p.substring_char(0, i - 1);
            proof {
                assert(p@.take(i as int).take(i - 1) =~= p@.take(i - 1));
            }
            return r.to_owned();
        }
        proof {
            assert(p@.take(i as int).take(i - 1) =~= p@.take(i - 1));
        }
        i = i - 1;
    }
    String::new()
}

/// Lexical resolution of a relative link target against a directory:
/// leading `../` components pop one parent each, leading `./` components
/// are dropped, and the remainder is attached under the directory. The
/// filesystem is never consulted, so dangling targets resolve all the same.
pub open spec fn resolve_from(dir: Seq<char>, tgt: Seq<char>) -> Seq<char>
    decreases tgt.len(),
{
    if is_prefix_of(seq!['.', '.', '/'], tgt) {
        resolve_from(parent_seq(dir), tgt.skip(3))
    } else if is_prefix_of(seq!['.', '/'], tgt) {
        resolve_from(dir, tgt.skip(2))
    } else {
        dir + seq!['/'] + tgt
    }
}

/// Where a symlink at `link` pointing at `tgt` leads: an absolute target
/// stands as it is, a relative one is resolved against the link's parent
/// directory.
pub open spec fn resolve_link_spec(link: Seq<char>, tgt: Seq<char>) -> Seq<char> {
    if tgt.len() > 0 && tgt[0] == '/' {
        tgt
    } else {
        resolve_from(parent_seq(link), tgt)
    }
}

/// Resolves a symlink target purely lexically, against the link's parent
/// directory when the target is relative.
pub fn resolve_link(link: &str, tgt: &str) -> (r: String)
    ensures
        r@ == resolve_link_spec(link@, tgt@),
{
    let tn: usize = tgt.unicode_len();
    if tn > 0 && tgt.get_char(0) == '/' {
        return tgt.to_owned();
    }
    let mut dir: String = parent_of(link);
    let mut pos: usize = 0;
    proof {
        assert(tgt@.skip(0) =~= tgt@);
    }
    loop
        invariant
            pos <= tn,
            tn == tgt@.len(),
            resolve_from(parent_seq(link@), tgt@) == resolve_from(dir@, tgt@.skip(pos as int)),
            !(tgt@.len() > 0 && tgt@[0] == '/'),
        decreases tn - pos,
    {
        let rest_len: usize = tn - pos;
        if rest_len >= 3 && tgt.get_char(pos) == '.' && tgt.get_char(pos + 1) == '.'
            && tgt.get_char(pos + 2) == '/' {
            proof {
                assert(tgt@.skip(pos as int).take(3) =~= seq!['.', '.', '/']);
                assert(tgt@.skip(pos as int).skip(3) =~= tgt@.skip(pos + 3));
            }
            dir = parent_of(dir.as_str());
            pos = pos + 3;
        } else if rest_len >= 2 && tgt.get_char(pos) == '.' && tgt.get_char(pos + 1) == '/' {
            proof {
                let rest = tgt@.skip(pos as int);
                if is_prefix_of(seq!['.', '.', '/'], rest) {
                    assert(rest.take(3)[1] == rest[1]);
                    assert(rest[1] == tgt@[pos + 1]);
                    assert(false);
                }
                assert(rest.take(2) =~= seq!['.', '/']);
                assert(rest.skip(2) =~= tgt@.skip(pos + 2));
            }
            pos = pos + 2;
        } else {
            proof {
                let rest = tgt@.skip(pos as int);
                if is_prefix_of(seq!['.', '.', '/'], rest) {
                    assert(rest.take(3)[0] == rest[0] && rest[0] == tgt@[pos as int]);
                    assert(rest.take(3)[1] == rest[1] && rest[1] == tgt@[pos + 1]);
                    assert(rest.take(3)[2] == rest[2] && rest[2] == tgt@[pos + 2]);
                    assert(false);
                }
                if is_prefix_of(seq!['.', '/'], rest) {
                    assert(rest.take(2)[0] == rest[0] && rest[0] == tgt@[pos as int]);
                    assert(rest.take(2)[1] == rest[1] && rest[1] == tgt@[pos + 1]);
                    assert(false);
                }
            }
            let mut out = dir;
            out.append("/");
            let rest = tgt.substring_char(pos, tn);
            out.append(rest);
            proof {
                reveal_strlit("/");
                assert("/"@ =~= seq!['/']);
                assert(out@ =~= resolve_link_spec(link@, tgt@));
            }
            return out;
        }
    }
}

/// Whether `a` comes no later than `b` in lexicographic order on character
/// code points.
pub open spec fn lex_le(a: Seq<char>, b: Seq<char>) -> bool
    decreases a.len(),
{
    if a.len() == 0 {
        true
    } else if b.len() == 0 {
        false
    } else if (a[0] as u32) < (b[0] as u32) {
        true
    } else if (b[0] as u32) < (a[0] as u32) {
        false
    } else {
        lex_le(a.drop_first(), b.drop_first())
    }
}

/// Lexicographic order is total.
pub proof fn lemma_lex_le_total(a: Seq<char>, b: Seq<char>)
    ensures
        lex_le(a, b) || lex_le(b, a),
    decreases a.len(),
{
    if a.len() != 0 && b.len() != 0 && !((a[0] as u32) < (b[0] as u32)) && !((b[0] as u32) < (a[0]
        as u32)) {
        lemma_lex_le_total(a.drop_first(), b.drop_first());
    }
}

/// Lexicographic order is transitive.
pub proof fn lemma_lex_le_trans(a: Seq<char>, b: Seq<char>, c: Seq<char>)
    requires
        lex_le(a, b),
        lex_le(b, c),
    ensures
        lex_le(a, c),
    decreases a.len(),
{
    if a.len() != 0 && b.len() != 0 && c.len() != 0 && !((a[0] as u32) < (b[0] as u32))
        && !((b[0] as u32) < (a[0] as u32)) && !((b[0] as u32) < (c[0] as u32)) && !((c[0] as u32)
        < (b[0] as u32)) {
        lemma_lex_le_trans(a.drop_first(), b.drop_first(), c.drop_first());
    }
}

/// Compares two path strings in lexicographic order.
pub fn lex_le_exec(a: &str, b: &str) -> (r: bool)
    ensures
        r == lex_le(a@, b@),
{
    let n: usize = a.unicode_len();
    let m: usize = b.unicode_len();
    let mut i: usize = 0;
    proof {
        assert(a@.skip(0) =~= a@);
        assert(b@.skip(0) =~= b@);
    }
    while i < n && i < m
        invariant
            i <= n,
            i <= m,
            n == a@.len(),
            m == b@.len(),
            lex_le(a@, b@) == lex_le(a@.skip(i as int), b@.skip(i as int)),
            lex_le(b@, a@) == lex_le(b@.skip(i as int), a@.skip(i as int)),
        decreases n - i,
    {
        let ca = a.get_char(i);
        let cb = b.get_char(i);
        if (ca as u32) < (cb as u32) {
            return true;
        }
        if (cb as u32) < (ca as u32) {
            return false;
        }
        proof {
            assert(a@.skip(i as int).drop_first() =~= a@.skip(i + 1));
            assert(b@.skip(i as int).drop_first() =~= b@.skip(i + 1));
        }
        i += 1;
    }
    proof {
        if i >= n {
            assert(a@.skip(i as int).len() == 0);
        } else {
            assert(b@.skip(i as int).len() == 0);
            assert(a@.skip(i as int).len() != 0);
        }
    }
    i >= n
}

/// Lexical filename of a path: everything after the last separator, or the
/// whole path when it has no separator.
pub open spec fn file_name_seq(p: Seq<char>) -> Seq<char>
    decreases p.len(),
{
    if p.len() == 0 {
        p
    } else if p[p.len() - 1] == '/' {
        Seq::empty()
    } else {
        file_name_seq(p.take(p.len() - 1)) + seq![p[p.len() - 1]]
    }
}

/// The filename is the suffix that follows the last separator.
proof fn lemma_file_name_skip(p: Seq<char>, j: int)
    requires
        0 <= j <= p.len(),
        j > 0 ==> p[j - 1] == '/',
        forall|k: int| j <= k < p.len() ==> p[k] != '/',
    ensures
        file_name_seq(p) == p.skip(j),
    decreases p.len(),
{
    if j == p.len() {
        assert(p.skip(j) =~= Seq::<char>::empty());
        if j > 0 {
            assert(p[p.len() - 1] == '/');
        } else {
            assert(p.len() == 0);
        }
    } else {
        assert(p[p.len() - 1] != '/');
        let q = p.take(p.len() - 1);
        lemma_file_name_skip(q, j);
        assert(file_name_seq(p) == q.skip(j) + seq![p[p.len() - 1]]);
        assert(q.skip(j) + seq![p[p.len() - 1]] =~= p.skip(j));
    }
}

/// Lexical filename of `p`.
pub fn file_name_of(p: &str) -> (r: String)
    ensures
        r@ == file_name_seq(p@),
{
    let n: usize = p.unicode_len();
    let mut i: usize = n;
    while i > 0
        invariant
            i <= n,
            n == p@.len(),
            forall|k: int| i <= k < n ==> p@[k] != '/',
        decreases i,
    {
        if p.get_char(i - 1) == '/' {
            let r = p.substring_char(i, n);
            proof {
                lemma_file_name_skip(p@, i as int);
            }
            return r.to_owned();
        }
        i = i - 1;
    }
    proof {
        lemma_file_name_skip(p@, 0);
        assert(p@.skip(0) =~= p@);
    }
    p.to_owned()
}

/// `sub` occurs somewhere in `s`.
pub open spec fn has_substring(sub: Seq<char>, s: Seq<char>) -> bool {
    exists|k: int| 0 <= k <= s.len() - sub.len() && #[trigger] s.subrange(k, k + sub.len()) == sub
}

/// Whether `sub` occurs somewhere in `s`.
pub fn str_contains(s: &str, sub: &str) -> (r: bool)
    ensures
        r == has_substring(sub@, s@),
{
    let n: usize = s.unicode_len();
    let m: usize = sub.unicode_len();
    if m > n {
        return false;
    }
    if m == 0 {
        proof {
            assert(s@.subrange(0, 0 + sub@.len() as int) =~= sub@);
        }
        return true;
    }
    let mut k: usize = 0;
    while k <= n - m
        invariant
            1 <= m <= n,
            n == s@.len(),
            m == sub@.len(),
            k <= n - m + 1,
            forall|k2: int| 0 <= k2 < k ==> #[trigger] s@.subrange(k2, k2 + m) != sub@,
        decreases n - k,
    {
        let mut j: usize = 0;
        let mut matched = true;
        while j < m
            invariant
                m <= n,
                n == s@.len(),
                m == sub@.len(),
                k <= n - m,
                j <= m,
                matched ==> forall|j2: int| 0 <= j2 < j ==> s@[k + j2] == sub@[j2],
                !matched ==> s@.subrange(k as int, k + m) != sub@,
            decreases m - j,
        {
            if s.get_char(k + j) != sub.get_char(j) {
                proof {
                    assert(s@.subrange(k as int, k + m)[j as int] == s@[k + j]);
                }
                matched = false;
                j = m;
            } else {
                j += 1;
            }
        }
        if matched {
            proof {
                assert(s@.subrange(k as int, k + m) =~= sub@);
            }
            return true;
        }
        k += 1;
    }
    proof {
        assert forall|k2: int| 0 <= k2 <= s@.len() - sub@.len() implies #[trigger] s@.subrange(
            k2,
            k2 + sub@.len(),
        ) != sub@ by {
            assert(k2 < k);
        }
    }
    false
}

/// Compares two strings for equal text.
pub fn str_eq(a: &str, b: &str) -> (r: bool)
    ensures
        r == (a@ == b@),
{
    let n: usize = a.unicode_len();
    let m: usize = b.unicode_len();
    if n != m {
        return false;
    }
    let mut i: usize = 0;
    while i < n
        invariant
            i <= n,
            n == a@.len(),
            n == b@.len(),
            forall|j: int| 0 <= j < i ==> a@[j] == b@[j],
        decreases n - i,
    {
        if a.get_char(i) != b.get_char(i) {
            return false;
        }
        i += 1;
    }
    proof {
        assert(a@ =~= b@);
    }
    true
}

/// The views of a sequence of strings.
pub open spec fn views_of(items: Seq<String>) -> Seq<Seq<char>> {
    items.map_values(|s: String| s@)
}

/// The sequence of strings is sorted in lexicographic order.
pub open spec fn sorted_lex(s: Seq<Seq<char>>) -> bool {
    forall|i: int, j: int| 0 <= i < j < s.len() ==> lex_le(s[i], s[j])
}

/// Extending a prefix of a string sequence by its next member adds exactly
/// that member's text to the set of views.
pub proof fn lemma_views_take_succ(items: Seq<String>, i: int)
    requires
        0 <= i < items.len(),
    ensures
        views_of(items.take(i + 1)).to_set() == views_of(items.take(i)).to_set().insert(
            items[i]@,
        ),
{
    let t = views_of(items.take(i));
    let t1 = views_of(items.take(i + 1));
    assert(t1 =~= t.push(items[i]@));
    assert forall|x: Seq<char>| t1.to_set().contains(x) == t.to_set().insert(items[i]@).contains(
        x,
    ) by {
        if t1.contains(x) {
            let k = choose|k: int| 0 <= k < t1.len() && t1[k] == x;
            if k < t.len() {
                assert(t[k] == x);
            }
        }
        if t.contains(x) {
            let k = choose|k: int| 0 <= k < t.len() && t[k] == x;
            assert(t1[k] == x);
        }
        if x == items[i]@ {
            assert(t1[t.len() as int] == x);
        }
    }
    assert(t1.to_set() =~= t.to_set().insert(items[i]@));
}

/// Sorts path strings into the deterministic lexicographic order imposed
/// before any report or destructive action.
pub fn sort_paths(v: Vec<String>) -> (r: Vec<String>)
    ensures
        sorted_lex(views_of(r@)),
        views_of(r@).to_multiset() == views_of(v@).to_multiset(),
        views_of(r@).to_set() == views_of(v@).to_set(),
        r@.len() == v@.len(),
{
    let mut out: Vec<String> = Vec::new();
    let mut i: usize = 0;
    proof {
        assert(views_of(v@.take(0)) =~= views_of(out@));
    }
    while i < v.len()
        invariant
            i <= v@.len(),
            out@.len() == i,
            sorted_lex(views_of(out@)),
            views_of(out@).to_multiset() == views_of(v@.take(i as int)).to_multiset(),
        decreases v@.len() - i,
    {
        let x = v[i].clone();
        let mut k: usize = 0;
        while k < out.len() && lex_le_exec(out[k].as_str(), x.as_str())
            invariant
                k <= out@.len(),
                x@ == v@[i as int]@,
                forall|j: int| 0 <= j < k ==> lex_le(views_of(out@)[j], x@),
            decreases out@.len() - k,
        {
            k += 1;
        }
        proof {
            lemma_sorted_insert(views_of(out@), x@, k as int);
            assert(views_of(out@).insert(k as int, x@) =~= views_of(out@.insert(k as int, x)));
            lemma_insert_multiset(views_of(out@), x@, k as int);
            assert(views_of(v@.take(i + 1)) =~= views_of(v@.take(i as int)).push(x@));
            views_of(v@.take(i as int)).to_multiset_ensures();
        }
        out.insert(k, x);
        i += 1;
    }
    proof {
        assert(v@.take(v@.len() as int) =~= v@);
        lemma_same_multiset_same_set(views_of(out@), views_of(v@));
    }
    out
}

/// Inserting an element at the first position not below it keeps a
/// lexicographically sorted sequence sorted.
proof fn lemma_sorted_insert(s: Seq<Seq<char>>, x: Seq<char>, k: int)
    requires
        sorted_lex(s),
        0 <= k <= s.len(),
        forall|j: int| 0 <= j < k ==> lex_le(s[j], x),
        k < s.len() ==> !lex_le(s[k], x),
    ensures
        sorted_lex(s.insert(k, x)),
{
    let t = s.insert(k, x);
    s.insert_ensures(k, x);
    assert forall|i: int, j: int| 0 <= i < j < t.len() implies lex_le(t[i], t[j]) by {
        if i == k {
            if !lex_le(x, t[j]) {
                lemma_lex_le_total(x, s[j - 1]);
                lemma_lex_le_trans(s[k], s[j - 1], x);
            }
        } else if j == k {
            assert(lex_le(s[i], x));
        } else if i < k && j > k {
            if !lex_le(t[i], t[j]) {
                lemma_lex_le_total(s[i], s[j - 1]);
                if k < s.len() {
                    lemma_lex_le_trans(s[k], s[j - 1], s[i]);
                    lemma_lex_le_trans(s[k], s[i], x);
                }
            }
        } else {
            assert(lex_le(t[i], t[j]));
        }
    }
}

/// Inserting an element anywhere adds exactly that element to the
/// sequence's multiset.
proof fn lemma_insert_multiset(s: Seq<Seq<char>>, x: Seq<char>, k: int)
    requires
        0 <= k <= s.len(),
    ensures
        s.insert(k, x).to_multiset() == s.to_multiset().insert(x),
{
    let left = s.subrange(0, k);
    let right = s.subrange(k, s.len() as int);
    vstd::seq_lib::lemma_multiset_commutative(left.push(x), right);
    vstd::seq_lib::lemma_multiset_commutative(left, right);
    left.to_multiset_ensures();
    assert(left + right =~= s);
    assert(s.insert(k, x).to_multiset() =~= s.to_multiset().insert(x));
}

/// Sequences with equal multisets hold equal sets of elements.
proof fn lemma_same_multiset_same_set(a: Seq<Seq<char>>, b: Seq<Seq<char>>)
    requires
        a.to_multiset() == b.to_multiset(),
    ensures
        a.to_set() == b.to_set(),
{
    a.to_multiset_ensures();
    b.to_multiset_ensures();
    assert forall|x: Seq<char>| a.to_set().contains(x) == b.to_set().contains(x) by {
        assert(a.contains(x) <==> a.to_multiset().count(x) > 0);
        assert(b.contains(x) <==> b.to_multiset().count(x) > 0);
    }
    assert(a.to_set() =~= b.to_set());
}

} // verus!
