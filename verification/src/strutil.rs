use vstd::prelude::*;

use vstd::relations::total_ordering;
use vstd::string::StrSliceExecFns;

verus! {

/// Dictionary order on character sequences: shorter prefixes first,
/// otherwise decided by the first differing character's code point.
pub open spec fn lex_le(a: Seq<char>, b: Seq<char>) -> bool
    decreases a.len(),
{
    if a.len() == 0 {
        true
    } else if b.len() == 0 {
        false
    } else if a[0] == b[0] {
        lex_le(a.drop_first(), b.drop_first())
    } else {
        (a[0] as int) < (b[0] as int)
    }
}

/// The dictionary order as a relation value.
pub open spec fn lex_le_order() -> spec_fn(Seq<char>, Seq<char>) -> bool {
    |a: Seq<char>, b: Seq<char>| lex_le(a, b)
}

/// The dictionary order is reflexive.
pub proof fn lemma_lex_le_reflexive(a: Seq<char>)
    ensures
        lex_le(a, a),
    decreases a.len(),
{
    if a.len() > 0 {
        lemma_lex_le_reflexive(a.drop_first());
    }
}

/// The dictionary order is antisymmetric.
pub proof fn lemma_lex_le_antisymmetric(a: Seq<char>, b: Seq<char>)
    requires
        lex_le(a, b),
        lex_le(b, a),
    ensures
        a == b,
    decreases a.len(),
{
    if a.len() == 0 {
        assert(b.len() == 0);
        assert(a =~= b);
    } else {
        assert(b.len() > 0);
        if a[0] == b[0] {
            assert(lex_le(a.drop_first(), b.drop_first()));
            assert(lex_le(b.drop_first(), a.drop_first()));
            lemma_lex_le_antisymmetric(a.drop_first(), b.drop_first());
            assert(a.drop_first() == b.drop_first());
            assert(a.drop_first().len() == a.len() - 1);
            assert(b.drop_first().len() == b.len() - 1);
            assert forall|i: int| 0 <= i < a.len() implies a[i] == b[i] by {
                if i > 0 {
                    assert(a[i] == a.drop_first()[i - 1]);
                    assert(b[i] == b.drop_first()[i - 1]);
                }
            }
            assert(a =~= b);
        } else {
            assert((a[0] as int) < (b[0] as int));
            assert((b[0] as int) < (a[0] as int));
        }
    }
}

/// The dictionary order is transitive.
pub proof fn lemma_lex_le_transitive(a: Seq<char>, b: Seq<char>, c: Seq<char>)
    requires
        lex_le(a, b),
        lex_le(b, c),
    ensures
        lex_le(a, c),
    decreases a.len(),
{
    if a.len() == 0 || b.len() == 0 || c.len() == 0 {
    } else {
        if a[0] == b[0] && b[0] == c[0] {
            lemma_lex_le_transitive(a.drop_first(), b.drop_first(), c.drop_first());
        }
    }
}

/// Any two character sequences are comparable.
pub proof fn lemma_lex_le_connected(a: Seq<char>, b: Seq<char>)
    ensures
        lex_le(a, b) || lex_le(b, a),
    decreases a.len(),
{
    if a.len() == 0 || b.len() == 0 {
    } else if a[0] == b[0] {
        lemma_lex_le_connected(a.drop_first(), b.drop_first());
    }
}

/// The dictionary order is a total ordering.
pub proof fn lemma_lex_le_total_ordering()
    ensures
        total_ordering(lex_le_order()),
{
    let leq = lex_le_order();
    assert forall|x: Seq<char>| #[trigger] leq(x, x) by {
        lemma_lex_le_reflexive(x);
    }
    assert forall|x: Seq<char>, y: Seq<char>| #[trigger] leq(x, y) && #[trigger] leq(y, x)
        implies x == y by {
        lemma_lex_le_antisymmetric(x, y);
    }
    assert forall|x: Seq<char>, y: Seq<char>, z: Seq<char>|
        #[trigger] leq(x, y) && #[trigger] leq(y, z) implies leq(x, z) by {
        lemma_lex_le_transitive(x, y, z);
    }
    assert forall|x: Seq<char>, y: Seq<char>| true implies #[trigger] leq(x, y) || #[trigger] leq(
        y,
        x,
    ) by {
        lemma_lex_le_connected(x, y);
    }
}

/// A common prefix does not decide the dictionary order.
proof fn lemma_lex_le_common_prefix(a: Seq<char>, b: Seq<char>, i: int)
    requires
        0 <= i <= a.len(),
        i <= b.len(),
        forall|j: int| 0 <= j < i ==> a[j] == b[j],
    ensures
        lex_le(a, b) == lex_le(a.skip(i), b.skip(i)),
    decreases i,
{
    if i == 0 {
        assert(a.skip(0) =~= a);
        assert(b.skip(0) =~= b);
    } else {
        assert(a.len() > 0 && b.len() > 0 && a[0] == b[0]);
        assert(lex_le(a, b) == lex_le(a.drop_first(), b.drop_first()));
        assert(a.drop_first() =~= a.skip(1));
        assert(b.drop_first() =~= b.skip(1));
        lemma_lex_le_common_prefix(a.skip(1), b.skip(1), i - 1);
        assert(a.skip(1).skip(i - 1) =~= a.skip(i));
        assert(b.skip(1).skip(i - 1) =~= b.skip(i));
    }
}

/// Decide the dictionary order on two strings.
pub fn str_lex_le(a: &str, b: &str) -> (r: bool)
    ensures
        r == lex_le(a@, b@),
{
    let an = a.unicode_len();
    let bn = b.unicode_len();
    let mut i: usize = 0;
    loop
        invariant
            an == a@.len(),
            bn == b@.len(),
            i <= an,
            i <= bn,
            forall|j: int| 0 <= j < i ==> a@[j] == b@[j],
        decreases an - i,
    {
        if i == an || i == bn {
            proof {
                lemma_lex_le_common_prefix(a@, b@, i as int);
            }
            return i == an;
        }
        let ca = a.get_char(i);
        let cb = b.get_char(i);
        if ca != cb {
            proof {
                lemma_lex_le_common_prefix(a@, b@, i as int);
                assert(a@.skip(i as int)[0] == ca);
                assert(b@.skip(i as int)[0] == cb);
            }
            return (ca as u32) < (cb as u32);
        }
        i += 1;
    }
}

/// Every hyphen replaced by an underscore; all else unchanged.
pub open spec fn dashes_to_underscores(s: Seq<char>) -> Seq<char> {
    Seq::new(s.len(), |i: int| if s[i] == '-' { '_' } else { s[i] })
}

/// Normalize a file-system name into an identifier-safe module name:
/// hyphens become underscores.
pub fn module_name_of(s: &str) -> (r: String)
    ensures
        r@ == dashes_to_underscores(s@),
{
    proof {
        reveal_strlit("_");
    }
    let n = s.unicode_len();
    let mut out = String::new();
    let mut i: usize = 0;
    while i < n
        invariant
            n == s@.len(),
            i <= n,
            out@ =~= dashes_to_underscores(s@).take(i as int),
        decreases n - i,
    {
        let c = s.get_char(i);
        if c == '-' {
            out.append("_");
            assert("_"@ =~= seq!['_']) by {
                reveal_strlit("_");
            }
        } else {
            let piece = s.substring_char(i, i + 1);
            out.append(piece);
        }
        assert(out@ =~= dashes_to_underscores(s@).take(i + 1));
        i += 1;
    }
    assert(dashes_to_underscores(s@).take(n as int) =~= dashes_to_underscores(s@));
    out
}

/// The position of the first full stop; the whole length when there is
/// none.
pub open spec fn find_dot(s: Seq<char>) -> nat
    decreases s.len(),
{
    if s.len() == 0 {
        0
    } else if s[0] == '.' {
        0
    } else {
        1 + find_dot(s.drop_first())
    }
}

/// The segments of a dotted name, split at every full stop. A name
/// without full stops is a single segment; every full stop separates two
/// segments.
pub open spec fn split_dots(s: Seq<char>) -> Seq<Seq<char>>
    decreases s.len(),
{
    let i = find_dot(s) as int;
    if i < s.len() {
        seq![s.take(i)] + split_dots(s.skip(i + 1))
    } else {
        seq![s]
    }
}

/// When no character before `k` is a full stop and `s[k]` is one, the
/// first full stop is at `k`.
proof fn lemma_find_dot_at(s: Seq<char>, k: int)
    requires
        0 <= k < s.len(),
        forall|j: int| 0 <= j < k ==> s[j] != '.',
        s[k] == '.',
    ensures
        find_dot(s) == k,
    decreases k,
{
    if k == 0 {
    } else {
        assert(s.drop_first()[k - 1] == s[k]);
        assert(forall|j: int| 0 <= j < k - 1 ==> s.drop_first()[j] == s[j + 1]);
        lemma_find_dot_at(s.drop_first(), k - 1);
    }
}

/// A name without a full stop has none to find.
proof fn lemma_find_dot_none(s: Seq<char>)
    requires
        forall|j: int| 0 <= j < s.len() ==> s[j] != '.',
    ensures
        find_dot(s) == s.len(),
    decreases s.len(),
{
    if s.len() > 0 {
        assert(forall|j: int| 0 <= j < s.len() - 1 ==> s.drop_first()[j] == s[j + 1]);
        lemma_find_dot_none(s.drop_first());
    }
}

/// The mathematical values of a list of strings.
pub open spec fn name_views(s: Seq<String>) -> Seq<Seq<char>> {
    s.map_values(|x: String| x@)
}

/// Appending a string appends its contents.
pub proof fn lemma_name_views_push(s: Seq<String>, x: String)
    ensures
        name_views(s.push(x)) == name_views(s).push(x@),
{
    assert forall|j: int| 0 <= j < s.len() + 1 implies name_views(s.push(x))[j] == name_views(
        s,
    ).push(x@)[j] by {
        assert(name_views(s.push(x))[j] == s.push(x)[j]@);
        if j < s.len() {
            assert(s.push(x)[j] == s[j]);
            assert(name_views(s)[j] == s[j]@);
        } else {
            assert(s.push(x)[j] == x);
        }
    }
    assert(name_views(s.push(x)) =~= name_views(s).push(x@));
}

/// Removing a string removes its contents.
pub proof fn lemma_name_views_remove(s: Seq<String>, i: int)
    requires
        0 <= i < s.len(),
    ensures
        name_views(s.remove(i)) == name_views(s).remove(i),
{
    assert forall|j: int| 0 <= j < s.len() - 1 implies name_views(s.remove(i))[j] == name_views(
        s,
    ).remove(i)[j] by {
        assert(name_views(s.remove(i))[j] == s.remove(i)[j]@);
        if j < i {
            assert(s.remove(i)[j] == s[j]);
            assert(name_views(s).remove(i)[j] == name_views(s)[j]);
            assert(name_views(s)[j] == s[j]@);
        } else {
            assert(s.remove(i)[j] == s[j + 1]);
            assert(name_views(s).remove(i)[j] == name_views(s)[j + 1]);
            assert(name_views(s)[j + 1] == s[j + 1]@);
        }
    }
    assert(name_views(s.remove(i)) =~= name_views(s).remove(i));
}

/// Split a dotted name into its segments.
pub fn split_segments(s: &str) -> (r: Vec<String>)
    ensures
        name_views(r@) == split_dots(s@),
{
    let n = s.unicode_len();
    let mut out: Vec<String> = Vec::new();
    let mut start: usize = 0;
    let mut i: usize = 0;
    proof {
        assert(s@.skip(0) =~= s@);
        assert(name_views(out@) + split_dots(s@.skip(0)) =~= split_dots(s@));
    }
    while i < n
        invariant
            n == s@.len(),
            start <= i <= n,
            forall|j: int| start <= j < i ==> s@[j] != '.',
            name_views(out@) + split_dots(s@.skip(start as int)) =~= split_dots(s@),
        decreases n - i,
    {
        let c = s.get_char(i);
        if c == '.' {
            let piece = s.substring_char(start, i).to_owned();
            let ghost pre = out@;
            out.push(piece);
            proof {
                let rest = s@.skip(start as int);
                assert(forall|j: int| 0 <= j < i - start ==> rest[j] == s@[j + start]);
                assert(rest[i - start] == '.');
                lemma_find_dot_at(rest, i - start);
                assert(split_dots(rest) == seq![rest.take(i - start)] + split_dots(
                    rest.skip(i - start + 1),
                ));
                assert(rest.take(i - start) =~= s@.subrange(start as int, i as int));
                assert(rest.skip(i - start + 1) =~= s@.skip(i + 1));
                assert(name_views(out@) =~= name_views(pre).push(s@.subrange(
                    start as int,
                    i as int,
                )));
                assert(name_views(out@) + split_dots(s@.skip(i + 1)) =~= split_dots(s@));
            }
            start = i + 1;
        }
        i += 1;
    }
    let piece = s.substring_char(start, n).to_owned();
    let ghost pre = out@;
    out.push(piece);
    proof {
        let rest = s@.skip(start as int);
        assert(forall|j: int| 0 <= j < rest.len() ==> rest[j] == s@[j + start]);
        lemma_find_dot_none(rest);
        assert(split_dots(rest) == seq![rest]);
        assert(rest =~= s@.subrange(start as int, n as int));
        assert(name_views(out@) =~= name_views(pre).push(s@.subrange(start as int, n as int)));
        assert(name_views(out@) =~= split_dots(s@));
    }
    out
}

/// Whether `p` is a prefix of `s`.
pub open spec fn is_prefix(p: Seq<char>, s: Seq<char>) -> bool {
    p.len() <= s.len() && s.take(p.len() as int) == p
}

/// Decide whether `p` is a prefix of `s`.
pub fn has_prefix(s: &str, p: &str) -> (r: bool)
    ensures
        r == is_prefix(p@, s@),
{
    let pn = p.unicode_len();
    let sn = s.unicode_len();
    if pn > sn {
        return false;
    }
    let mut i: usize = 0;
    while i < pn
        invariant
            pn == p@.len(),
            sn == s@.len(),
            pn <= sn,
            i <= pn,
            forall|j: int| 0 <= j < i ==> s@[j] == p@[j],
        decreases pn - i,
    {
        if s.get_char(i) != p.get_char(i) {
            assert(s@.take(pn as int)[i as int] != p@[i as int]);
            return false;
        }
        i += 1;
    }
    assert(s@.take(pn as int) =~= p@);
    true
}

} // verus!
