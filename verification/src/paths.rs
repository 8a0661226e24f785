//! A lexical model of absolute filesystem paths as character strings:
//! lexicographic ordering (the resolved batch's key order), normal form,
//! ancestry, relative suffixes, joining, and the final path segment.

use vstd::prelude::*;

verus! {

use vstd::string::StrSliceExecFns;

/// Strict lexicographic order on character sequences, by code point; the
/// key order of a resolved batch.
pub open spec fn lex_lt(a: Seq<char>, b: Seq<char>) -> bool
    decreases a.len(),
{
    if b.len() == 0 {
        false
    } else if a.len() == 0 {
        true
    } else if a[0] == b[0] {
        lex_lt(a.drop_first(), b.drop_first())
    } else {
        a[0] < b[0]
    }
}

/// Exactly one of `lex_lt(a, b)`, `lex_lt(b, a)`, `a == b` holds.
pub proof fn lemma_lex_lt_trichotomy(a: Seq<char>, b: Seq<char>)
    ensures
        lex_lt(a, b) || lex_lt(b, a) || a =~= b,
        lex_lt(a, b) ==> !lex_lt(b, a) && !(a =~= b),
        lex_lt(b, a) ==> !lex_lt(a, b) && !(a =~= b),
    decreases a.len(),
{
    if a.len() == 0 || b.len() == 0 {
    } else if a[0] == b[0] {
        lemma_lex_lt_trichotomy(a.drop_first(), b.drop_first());
        if a.drop_first() =~= b.drop_first() {
            assert forall|i: int| 0 <= i < a.len() implies a[i] == b[i] by {
                if i > 0 {
                    assert(a[i] == a.drop_first()[i - 1]);
                    assert(b[i] == b.drop_first()[i - 1]);
                }
            }
            assert(a =~= b);
        }
        if a =~= b {
            assert(a.drop_first() =~= b.drop_first());
        }
    } else {
        assert(a[0] != b[0]);
    }
}

/// `lex_lt` is transitive.
pub proof fn lemma_lex_lt_trans(a: Seq<char>, b: Seq<char>, c: Seq<char>)
    requires
        lex_lt(a, b),
        lex_lt(b, c),
    ensures
        lex_lt(a, c),
    decreases a.len() + b.len() + c.len(),
{
    if a.len() == 0 {
    } else if b.len() == 0 {
    } else if c.len() == 0 {
    } else {
        if a[0] == b[0] && b[0] == c[0] {
            lemma_lex_lt_trans(a.drop_first(), b.drop_first(), c.drop_first());
        }
    }
}

/// Decides `lex_lt` on two strings.
pub fn str_lt(a: &str, b: &str) -> (r: bool)
    ensures
        r == lex_lt(a@, b@),
{
    let alen = a.unicode_len();
    let blen = b.unicode_len();
    let mut i: usize = 0;
    proof {
        assert(a@.subrange(0, alen as int) =~= a@);
        assert(b@.subrange(0, blen as int) =~= b@);
    }
    loop
        invariant
            i <= alen,
            i <= blen,
            alen == a@.len(),
            blen == b@.len(),
            lex_lt(a@, b@) == lex_lt(
                a@.subrange(i as int, alen as int),
                b@.subrange(i as int, blen as int),
            ),
        decreases alen - i,
    {
        proof {
            let sa = a@.subrange(i as int, alen as int);
            let sb = b@.subrange(i as int, blen as int);
            if i < alen && i < blen {
                assert(sa.drop_first() =~= a@.subrange(i + 1, alen as int));
                assert(sb.drop_first() =~= b@.subrange(i + 1, blen as int));
            }
        }
        if i == blen {
            return false;
        }
        if i == alen {
            return true;
        }
        let ca = a.get_char(i);
        let cb = b.get_char(i);
        if ca == cb {
            i = i + 1;
        } else {
            return ca < cb;
        }
    }
}

/// A strict prefix sorts before what it prefixes.
pub proof fn lemma_prefix_lex_lt(a: Seq<char>, b: Seq<char>)
    requires
        a.len() < b.len(),
        forall|i: int| 0 <= i < a.len() ==> a[i] == b[i],
    ensures
        lex_lt(a, b),
    decreases a.len(),
{
    if a.len() > 0 {
        assert(a[0] == b[0]);
        assert forall|i: int| 0 <= i < a.drop_first().len() implies a.drop_first()[i]
            == b.drop_first()[i] by {
            assert(a.drop_first()[i] == a[i + 1]);
            assert(b.drop_first()[i] == b[i + 1]);
        }
        lemma_prefix_lex_lt(a.drop_first(), b.drop_first());
    }
}

/// An ancestor path sorts before every path beneath it. Within a resolved
/// batch, which is keyed in this order, a directory's own entry therefore
/// precedes the entries of everything inside it, so a directory creation
/// recorded in the same cycle as its contents is planned first.
pub proof fn lemma_ancestor_sorts_first(root: Seq<char>, p: Seq<char>)
    requires
        strictly_under(root, p),
    ensures
        lex_lt(root, p),
{
    assert forall|i: int| 0 <= i < root.len() implies root[i] == p[i] by {
        assert(p.subrange(0, root.len() as int)[i] == p[i]);
    }
    lemma_prefix_lex_lt(root, p);
}

/// Two adjacent separators somewhere in `p` (an empty component).
pub open spec fn has_empty_component(p: Seq<char>) -> bool {
    exists|i: int| 0 <= i < p.len() - 1 && #[trigger] p[i] == '/' && p[i + 1] == '/'
}

/// The component starting at index `i` is exactly `.`.
pub open spec fn dot_component_at(p: Seq<char>, i: int) -> bool {
    &&& 0 < i < p.len()
    &&& p[i - 1] == '/'
    &&& p[i] == '.'
    &&& (i + 1 == p.len() || p[i + 1] == '/')
}

/// The component starting at index `i` is exactly `..`.
pub open spec fn dotdot_component_at(p: Seq<char>, i: int) -> bool {
    &&& 0 < i
    &&& i + 1 < p.len()
    &&& p[i - 1] == '/'
    &&& p[i] == '.'
    &&& p[i + 1] == '.'
    &&& (i + 2 == p.len() || p[i + 2] == '/')
}

/// An absolute path in normal form: starts with `/`, does not end with `/`,
/// and has no empty, `.` or `..` components. On such paths, lexical path
/// operations agree with plain string operations.
pub open spec fn is_normal_abs(p: Seq<char>) -> bool {
    &&& p.len() >= 2
    &&& p[0] == '/'
    &&& p[p.len() - 1] != '/'
    &&& !has_empty_component(p)
    &&& !(exists|i: int| dot_component_at(p, i))
    &&& !(exists|i: int| dotdot_component_at(p, i))
}

/// Decides `is_normal_abs`.
pub fn is_normal_path(p: &str) -> (r: bool)
    ensures
        r == is_normal_abs(p@),
{
    let n = p.unicode_len();
    if n < 2 {
        return false;
    }
    if p.get_char(0) != '/' {
        return false;
    }
    if p.get_char(n - 1) == '/' {
        return false;
    }
    let mut i: usize = 1;
    while i < n
        invariant
            1 <= i <= n,
            n == p@.len(),
            2 <= n,
            forall|j: int| 1 <= j < i ==> !(#[trigger] p@[j] == '/' && p@[j - 1] == '/'),
            forall|j: int| 1 <= j < i ==> !dot_component_at(p@, j),
            forall|j: int| 1 <= j < i ==> !dotdot_component_at(p@, j),
        decreases n - i,
    {
        let c = p.get_char(i);
        if c == '/' && p.get_char(i - 1) == '/' {
            assert(has_empty_component(p@)) by {
                assert(p@[i - 1] == '/' && p@[i - 1 + 1] == '/');
            }
            return false;
        }
        if c == '.' && p.get_char(i - 1) == '/' {
            if i + 1 == n {
                assert(dot_component_at(p@, i as int));
                return false;
            }
            let c2 = p.get_char(i + 1);
            if c2 == '/' {
                assert(dot_component_at(p@, i as int));
                return false;
            }
            if c2 == '.' {
                if i + 2 == n {
                    assert(dotdot_component_at(p@, i as int));
                    return false;
                }
                if p.get_char(i + 2) == '/' {
                    assert(dotdot_component_at(p@, i as int));
                    return false;
                }
            }
        }
        i = i + 1;
    }
    proof {
        assert(!has_empty_component(p@)) by {
            if exists|k: int| 0 <= k < p@.len() - 1 && #[trigger] p@[k] == '/' && p@[k + 1] == '/' {
                let k = choose|k: int| 0 <= k < p@.len() - 1 && #[trigger] p@[k] == '/' && p@[k + 1] == '/';
                assert(p@[k + 1] == '/' && p@[k + 1 - 1] == '/');
            }
        }
    }
    true
}

/// `root` is a strict lexical ancestor of `p`: `p` is `root`, then `/`, then
/// at least one more character.
pub open spec fn strictly_under(root: Seq<char>, p: Seq<char>) -> bool {
    &&& root.len() < p.len()
    &&& p.subrange(0, root.len() as int) == root
    &&& p[root.len() as int] == '/'
}

/// What remains of `p` past `root` and the separator.
pub open spec fn rel_suffix(root: Seq<char>, p: Seq<char>) -> Seq<char> {
    p.subrange(root.len() as int + 1, p.len() as int)
}

/// Decides `strictly_under`.
pub fn starts_under(root: &str, p: &str) -> (r: bool)
    ensures
        r == strictly_under(root@, p@),
{
    let rlen = root.unicode_len();
    let plen = p.unicode_len();
    if plen <= rlen {
        return false;
    }
    let mut i: usize = 0;
    while i < rlen
        invariant
            0 <= i <= rlen,
            rlen == root@.len(),
            plen == p@.len(),
            rlen < plen,
            forall|j: int| 0 <= j < i ==> p@[j] == root@[j],
        decreases rlen - i,
    {
        if p.get_char(i) != root.get_char(i) {
            assert(p@.subrange(0, rlen as int) != root@) by {
                assert(p@.subrange(0, rlen as int)[i as int] == p@[i as int]);
            }
            return false;
        }
        i = i + 1;
    }
    proof {
        assert(p@.subrange(0, rlen as int) =~= root@);
    }
    p.get_char(rlen) == '/'
}

/// `rel` appended under `base`, inserting a separator unless `base` already
/// ends with one.
pub open spec fn join_path(base: Seq<char>, rel: Seq<char>) -> Seq<char> {
    if base.len() > 0 && base[base.len() - 1] == '/' {
        base + rel
    } else {
        base + seq!['/'] + rel
    }
}

/// Builds `join_path(base@, rel@)`.
pub fn join_under(base: &str, rel: &str) -> (r: String)
    ensures
        r@ == join_path(base@, rel@),
{
    let mut s = base.to_owned();
    let n = base.unicode_len();
    if n == 0 || base.get_char(n - 1) != '/' {
        proof {
            reveal_strlit("/");
        }
        s.append("/");
        proof {
            assert(s@ =~= base@ + seq!['/']);
        }
        s.append(rel);
        proof {
            assert(s@ =~= base@ + seq!['/'] + rel@);
        }
        s
    } else {
        s.append(rel);
        s
    }
}

/// Relies on `pathdiff::diff_paths`: for two absolute paths in normal form
/// where `base` is a strict lexical ancestor of `path`, both paths split into
/// the same leading components followed, for `path`, by the components of the
/// suffix, so the computed relative path is exactly that suffix.
#[verifier::external_body]
fn path_difference(path: &str, base: &str) -> (r: Option<String>)
    requires
        is_normal_abs(path@),
        is_normal_abs(base@),
        strictly_under(base@, path@),
    ensures
        r is Some,
        r matches Some(s) ==> s@ == rel_suffix(base@, path@),
{
    pathdiff::diff_paths(std::path::Path::new(path), std::path::Path::new(base))
        .and_then(|p| p.to_str().map(|s| s.to_owned()))
}

/// `path` can be mirrored: it and `source_root` are normal absolute paths and
/// `path` lies strictly under `source_root`.
pub open spec fn translatable(source_root: Seq<char>, path: Seq<char>) -> bool {
    &&& is_normal_abs(source_root)
    &&& is_normal_abs(path)
    &&& strictly_under(source_root, path)
}

/// The mirror-side target of `path`: its suffix past `source_root`, re-rooted
/// under `mirror_root`.
pub open spec fn translate_spec(
    source_root: Seq<char>,
    mirror_root: Seq<char>,
    path: Seq<char>,
) -> Seq<char> {
    join_path(mirror_root, rel_suffix(source_root, path))
}

/// Re-roots `path` from `source_root` to `mirror_root`, or reports that it
/// cannot be done because `path` does not lie under `source_root` (or one of
/// the two is not a normal absolute path).
pub fn translate(path: &str, source_root: &str, mirror_root: &str) -> (r: Option<String>)
    ensures
        r is Some <==> translatable(source_root@, path@),
        r matches Some(t) ==> t@ == translate_spec(source_root@, mirror_root@, path@),
{
    if !is_normal_path(source_root) {
        return None;
    }
    if !is_normal_path(path) {
        return None;
    }
    if !starts_under(source_root, path) {
        return None;
    }
    match path_difference(path, source_root) {
        Some(rel) => Some(join_under(mirror_root, rel.as_str())),
        None => None,
    }
}

/// The characters of `p` after its last separator: the final path segment,
/// empty when `p` is empty or ends with a separator.
pub open spec fn after_last_slash(p: Seq<char>) -> Seq<char>
    decreases p.len(),
{
    if p.len() == 0 {
        Seq::empty()
    } else if p[p.len() - 1] == '/' {
        Seq::empty()
    } else {
        after_last_slash(p.drop_last()).push(p[p.len() - 1])
    }
}

/// `after_last_slash(p)` is the separator-free suffix of `p` that begins
/// right after a separator (or at the start of `p`).
pub proof fn lemma_after_last_slash(p: Seq<char>)
    ensures
        after_last_slash(p).len() <= p.len(),
        after_last_slash(p) =~= p.subrange(p.len() - after_last_slash(p).len(), p.len() as int),
        forall|i: int|
            0 <= i < after_last_slash(p).len() ==> #[trigger] after_last_slash(p)[i] != '/',
        after_last_slash(p).len() < p.len() ==> p[p.len() - after_last_slash(p).len() - 1] == '/',
    decreases p.len(),
{
    if p.len() == 0 {
        assert(after_last_slash(p) =~= p.subrange(0, 0));
    } else if p[p.len() - 1] == '/' {
        assert(after_last_slash(p) =~= p.subrange(p.len() as int, p.len() as int));
    } else {
        let q = p.drop_last();
        lemma_after_last_slash(q);
        let s = after_last_slash(q);
        assert(after_last_slash(p) == s.push(p[p.len() - 1]));
        assert forall|i: int| 0 <= i < q.len() implies q[i] == p[i] by {}
        assert(s.push(p[p.len() - 1]) =~= p.subrange(p.len() - s.len() - 1, p.len() as int));
    }
}

/// If `s` is a separator-free suffix of `p` that covers all of `p` or begins
/// right after a separator, then it is the final segment of `p`.
pub proof fn lemma_after_last_slash_suffix(p: Seq<char>, k: int)
    requires
        0 < k <= p.len(),
        forall|i: int| p.len() - k <= i < p.len() ==> #[trigger] p[i] != '/',
        k == p.len() || p[p.len() - k - 1] == '/',
    ensures
        after_last_slash(p) =~= p.subrange(p.len() - k, p.len() as int),
    decreases k,
{
    let q = p.drop_last();
    if k == 1 {
        if p.len() == 1 {
            assert(after_last_slash(q) =~= Seq::<char>::empty());
        } else {
            assert(q[q.len() - 1] == p[p.len() - 2]);
            assert(p[p.len() - 2] == '/');
            assert(after_last_slash(q) =~= Seq::<char>::empty());
        }
        assert(p[p.len() - 1] != '/');
        assert(after_last_slash(p) == after_last_slash(q).push(p[p.len() - 1]));
        assert(after_last_slash(p) =~= p.subrange(p.len() - 1, p.len() as int));
    } else {
        assert forall|i: int| q.len() - (k - 1) <= i < q.len() implies #[trigger] q[i] != '/' by {
            assert(q[i] == p[i]);
        }
        assert(k - 1 == q.len() || q[q.len() - (k - 1) - 1] == '/') by {
            if k != p.len() {
                assert(q[q.len() - (k - 1) - 1] == p[p.len() - k - 1]);
            }
        }
        lemma_after_last_slash_suffix(q, k - 1);
        assert(after_last_slash(p) == after_last_slash(q).push(p[p.len() - 1]));
        assert(after_last_slash(q).push(p[p.len() - 1]) =~= p.subrange(
            p.len() - k,
            p.len() as int,
        ));
    }
}

/// The reserved editor-probe file name: a transient file some editors create
/// to test that a directory is writable; it must never be mirrored.
pub open spec fn probe_name() -> Seq<char> {
    seq!['4', '9', '1', '3']
}

/// The final segment of `p` is exactly the editor-probe name.
pub open spec fn is_probe_path(p: Seq<char>) -> bool {
    after_last_slash(p) == probe_name()
}

/// Decides `is_probe_path`.
pub fn path_names_probe(p: &str) -> (r: bool)
    ensures
        r == is_probe_path(p@),
{
    proof {
        lemma_after_last_slash(p@);
    }
    let n = p.unicode_len();
    if n < 4 {
        return false;
    }
    if p.get_char(n - 4) == '4' && p.get_char(n - 3) == '9' && p.get_char(n - 2) == '1'
        && p.get_char(n - 1) == '3' {
        if n == 4 || p.get_char(n - 5) == '/' {
            proof {
                lemma_after_last_slash_suffix(p@, 4);
                assert(p@.subrange(n - 4, n as int) =~= probe_name());
            }
            return true;
        }
        proof {
            let s = after_last_slash(p@);
            if s == probe_name() {
                assert(s.len() == 4);
                assert(false);
            }
        }
        return false;
    }
    proof {
        let s = after_last_slash(p@);
        if s == probe_name() {
            assert(s.len() == 4);
            assert(s[0] == p@[n - 4] && s[1] == p@[n - 3] && s[2] == p@[n - 2] && s[3] == p@[n
                - 1]);
            assert(false);
        }
    }
    false
}

} // verus!

