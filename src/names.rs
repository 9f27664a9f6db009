//! Canonical resource names: sanitization and the lexicographic order on names.
use std::cmp::Ordering;
use vstd::prelude::*;

verus! {

/// A character with the Unicode `White_Space` property, as `char::is_whitespace` defines it.
pub open spec fn is_ws(c: char) -> bool {
    let u = c as u32;
    (0x09 <= u <= 0x0D) || u == 0x20 || u == 0x85 || u == 0xA0 || u == 0x1680 || (0x2000 <= u
        <= 0x200A) || u == 0x2028 || u == 0x2029 || u == 0x202F || u == 0x205F || u == 0x3000
}

/// Every character of `s` is whitespace.
pub open spec fn all_ws(s: Seq<char>) -> bool {
    forall|i: int| 0 <= i < s.len() ==> is_ws(#[trigger] s[i])
}

/// `s` without its leading whitespace.
pub open spec fn skip_leading_ws(s: Seq<char>) -> Seq<char>
    decreases s.len(),
{
    if s.len() > 0 && is_ws(s[0]) {
        skip_leading_ws(s.drop_first())
    } else {
        s
    }
}

/// `s` without its trailing whitespace.
pub open spec fn skip_trailing_ws(s: Seq<char>) -> Seq<char>
    decreases s.len(),
{
    if s.len() > 0 && is_ws(s.last()) {
        skip_trailing_ws(s.drop_last())
    } else {
        s
    }
}

/// `s` with surrounding whitespace removed.
pub open spec fn trim_seq(s: Seq<char>) -> Seq<char> {
    skip_trailing_ws(skip_leading_ws(s))
}

/// `s` without any of its leading path separators.
pub open spec fn strip_separators(s: Seq<char>) -> Seq<char>
    decreases s.len(),
{
    if s.len() > 0 && s[0] == '/' {
        strip_separators(s.drop_first())
    } else {
        s
    }
}

/// The canonical form of a raw resource name.
pub open spec fn sanitized(s: Seq<char>) -> Seq<char> {
    strip_separators(trim_seq(s))
}

/// A name already in canonical form: no surrounding whitespace, no leading separator.
pub open spec fn is_canonical(s: Seq<char>) -> bool {
    s.len() > 0 ==> !is_ws(s[0]) && s[0] != '/' && !is_ws(s.last())
}

/// `k` path separators.
pub open spec fn separators(k: nat) -> Seq<char> {
    Seq::new(k, |i: int| '/')
}

/// Relies on `str::trim`: leading and trailing `White_Space` characters are removed.
#[verifier::external_body]
fn trim_whitespace(s: &str) -> (r: &str)
    ensures
        r@ == trim_seq(s@),
{
    s.trim()
}

/// Relies on `str::trim_start_matches` with a `char` pattern: every leading `/` is removed.
#[verifier::external_body]
fn trim_leading_separators(s: &str) -> (r: &str)
    ensures
        r@ == strip_separators(s@),
{
    s.trim_start_matches('/')
}

/// Returns the canonical name: surrounding whitespace trimmed, then all leading `/` removed.
pub fn sanitize_name(name: &str) -> (r: String)
    ensures
        r@ == sanitized(name@),
{
    let trimmed = trim_whitespace(name);
    trim_leading_separators(trimmed).to_owned()
}

proof fn lemma_skip_leading_prefix(w: Seq<char>, t: Seq<char>)
    requires
        all_ws(w),
    ensures
        skip_leading_ws(w + t) == skip_leading_ws(t),
    decreases w.len(),
{
    if w.len() > 0 {
        assert((w + t).drop_first() =~= w.drop_first() + t);
        lemma_skip_leading_prefix(w.drop_first(), t);
    } else {
        assert(w + t =~= t);
    }
}

proof fn lemma_skip_trailing_suffix(t: Seq<char>, w: Seq<char>)
    requires
        all_ws(w),
    ensures
        skip_trailing_ws(t + w) == skip_trailing_ws(t),
    decreases w.len(),
{
    if w.len() > 0 {
        assert((t + w).drop_last() =~= t + w.drop_last());
        lemma_skip_trailing_suffix(t, w.drop_last());
    } else {
        assert(t + w =~= t);
    }
}

proof fn lemma_strip_separators_prefix(k: nat, t: Seq<char>)
    ensures
        strip_separators(separators(k) + t) == strip_separators(t),
    decreases k,
{
    if k > 0 {
        assert((separators(k) + t).drop_first() =~= separators((k - 1) as nat) + t);
        lemma_strip_separators_prefix((k - 1) as nat, t);
    } else {
        assert(separators(k) + t =~= t);
    }
}

proof fn lemma_skip_trailing_shape(s: Seq<char>)
    ensures
        skip_trailing_ws(s).len() <= s.len(),
        skip_trailing_ws(s) =~= s.subrange(0, skip_trailing_ws(s).len() as int),
        skip_trailing_ws(s).len() > 0 ==> !is_ws(skip_trailing_ws(s).last()),
    decreases s.len(),
{
    if s.len() > 0 && is_ws(s.last()) {
        lemma_skip_trailing_shape(s.drop_last());
    }
}

proof fn lemma_strip_separators_shape(s: Seq<char>)
    ensures
        strip_separators(s).len() <= s.len(),
        strip_separators(s) =~= s.subrange(
            s.len() - strip_separators(s).len(),
            s.len() as int,
        ),
        strip_separators(s).len() > 0 ==> strip_separators(s)[0] != '/',
    decreases s.len(),
{
    if s.len() > 0 && s[0] == '/' {
        lemma_strip_separators_shape(s.drop_first());
    }
}

/// A name already in canonical form is left unchanged by sanitization.
pub proof fn lemma_sanitize_canonical(s: Seq<char>)
    requires
        is_canonical(s),
    ensures
        sanitized(s) == s,
{
    assert(skip_leading_ws(s) == s);
    assert(skip_trailing_ws(s) == s);
    assert(strip_separators(s) == s);
}

/// Sanitizing twice gives what sanitizing once gives, for every raw name whose
/// sanitized form does not itself begin with whitespace (as `"/ a"` does, which
/// sanitizes to `" a"`).
pub proof fn lemma_sanitize_idempotent(s: Seq<char>)
    requires
        sanitized(s).len() > 0 ==> !is_ws(sanitized(s)[0]),
    ensures
        sanitized(sanitized(s)) == sanitized(s),
{
    let t = trim_seq(s);
    let r = sanitized(s);
    lemma_skip_trailing_shape(skip_leading_ws(s));
    lemma_strip_separators_shape(t);
    if r.len() > 0 {
        assert(r.last() == t.last());
    }
    lemma_sanitize_canonical(r);
}

/// Sanitization strips surrounding whitespace and every leading separator:
/// `w1 + "/"*k + core + w2` becomes `core` when `w1` and `w2` are whitespace and
/// `core` is canonical.
pub proof fn lemma_sanitize_strips(w1: Seq<char>, k: nat, core: Seq<char>, w2: Seq<char>)
    requires
        all_ws(w1),
        all_ws(w2),
        is_canonical(core),
    ensures
        sanitized(w1 + separators(k) + core + w2) == core,
{
    let t = separators(k) + core;
    assert(w1 + separators(k) + core + w2 =~= w1 + (t + w2));
    lemma_skip_leading_prefix(w1, t + w2);
    if t.len() == 0 {
        assert(t + w2 =~= w2);
        assert(w2 =~= Seq::<char>::empty() + w2);
        lemma_skip_leading_prefix(w2, Seq::<char>::empty());
        assert(skip_leading_ws(Seq::<char>::empty()) == Seq::<char>::empty());
        assert(core =~= Seq::<char>::empty());
    } else {
        assert((t + w2)[0] == t[0]);
        assert(skip_leading_ws(t + w2) == t + w2);
        lemma_skip_trailing_suffix(t, w2);
        assert(t.last() == if core.len() > 0 { core.last() } else { '/' });
        assert(skip_trailing_ws(t) == t);
        lemma_strip_separators_prefix(k, core);
        assert(strip_separators(core) == core);
    }
}

/// Lexicographic order on names, by code point.
pub open spec fn name_lt(a: Seq<char>, b: Seq<char>) -> bool
    decreases a.len(),
{
    if a.len() == 0 {
        b.len() > 0
    } else if b.len() == 0 {
        false
    } else if a[0] != b[0] {
        a[0] < b[0]
    } else {
        name_lt(a.drop_first(), b.drop_first())
    }
}

/// `a` is not after `b` in the order on names.
pub open spec fn name_le(a: Seq<char>, b: Seq<char>) -> bool {
    name_lt(a, b) || a == b
}

/// The order on names is a strict total order.
pub proof fn lemma_name_order(a: Seq<char>, b: Seq<char>)
    ensures
        !name_lt(a, a),
        name_lt(a, b) ==> !name_lt(b, a),
        a != b ==> name_lt(a, b) || name_lt(b, a),
    decreases a.len(),
{
    if a.len() > 0 {
        lemma_name_order(a.drop_first(), a.drop_first());
    }
    if a.len() > 0 && b.len() > 0 {
        lemma_name_order(a.drop_first(), b.drop_first());
        if a[0] == b[0] && a != b {
            assert(a =~= seq![a[0]] + a.drop_first());
            assert(b =~= seq![b[0]] + b.drop_first());
        }
        if a[0] != b[0] {
        }
    } else if a.len() > 0 {
    } else if b.len() == 0 {
        assert(a =~= b);
    }
}

/// The order on names is transitive.
pub proof fn lemma_name_lt_transitive(a: Seq<char>, b: Seq<char>, c: Seq<char>)
    requires
        name_lt(a, b),
        name_lt(b, c),
    ensures
        name_lt(a, c),
    decreases a.len(),
{
    if a.len() > 0 && a[0] == b[0] && b[0] == c[0] {
        lemma_name_lt_transitive(a.drop_first(), b.drop_first(), c.drop_first());
    }
}

proof fn lemma_name_lt_skip(a: Seq<char>, b: Seq<char>, i: int)
    requires
        0 <= i <= a.len(),
        i <= b.len(),
        a.subrange(0, i) == b.subrange(0, i),
    ensures
        name_lt(a, b) == name_lt(a.subrange(i, a.len() as int), b.subrange(i, b.len() as int)),
    decreases i,
{
    if i > 0 {
        assert(a[0] == a.subrange(0, i)[0]);
        assert(b[0] == b.subrange(0, i)[0]);
        assert(a.drop_first().subrange(0, i - 1) =~= a.subrange(0, i).drop_first());
        assert(b.drop_first().subrange(0, i - 1) =~= b.subrange(0, i).drop_first());
        lemma_name_lt_skip(a.drop_first(), b.drop_first(), i - 1);
        assert(a.drop_first().subrange(i - 1, a.len() - 1) =~= a.subrange(i, a.len() as int));
        assert(b.drop_first().subrange(i - 1, b.len() - 1) =~= b.subrange(i, b.len() as int));
    } else {
        assert(a.subrange(0, a.len() as int) =~= a);
        assert(b.subrange(0, b.len() as int) =~= b);
    }
}

/// Compares two names in the order on names.
pub fn compare_names(a: &str, b: &str) -> (r: Ordering)
    ensures
        (r == Ordering::Less) == name_lt(a@, b@),
        (r == Ordering::Equal) == (a@ == b@),
        (r == Ordering::Greater) == name_lt(b@, a@),
{
    let la = a.unicode_len();
    let lb = b.unicode_len();
    let mut i: usize = 0;
    proof {
        lemma_name_order(a@, b@);
    }
    while i < la && i < lb
        invariant
            i <= la,
            i <= lb,
            la == a@.len(),
            lb == b@.len(),
            a@.subrange(0, i as int) == b@.subrange(0, i as int),
        decreases la - i,
    {
        let ca = a.get_char(i);
        let cb = b.get_char(i);
        if ca != cb {
            proof {
                lemma_name_lt_skip(a@, b@, i as int);
                lemma_name_lt_skip(b@, a@, i as int);
                assert(a@.subrange(i as int, la as int)[0] == ca);
                assert(b@.subrange(i as int, lb as int)[0] == cb);
            }
            if ca < cb {
                return Ordering::Less;
            } else {
                return Ordering::Greater;
            }
        }
        proof {
            assert(a@.subrange(0, i + 1) =~= a@.subrange(0, i as int).push(ca));
            assert(b@.subrange(0, i + 1) =~= b@.subrange(0, i as int).push(cb));
        }
        i = i + 1;
    }
    proof {
        lemma_name_lt_skip(a@, b@, i as int);
        lemma_name_lt_skip(b@, a@, i as int);
        if la == lb {
            assert(a@ =~= a@.subrange(0, i as int));
            assert(b@ =~= b@.subrange(0, i as int));
        }
    }
    if la < lb {
        Ordering::Less
    } else if la == lb {
        Ordering::Equal
    } else {
        Ordering::Greater
    }
}

} // verus!
