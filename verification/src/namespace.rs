use vstd::prelude::*;

use vstd::relations::sorted_by;
use vstd::seq_lib::lemma_sorted_unique;
use vstd::string::{StringExecFns, StrSliceExecFns};

use crate::strutil::{
    lemma_name_views_push, lemma_name_views_remove,
    dashes_to_underscores, lemma_lex_le_connected, lemma_lex_le_reflexive,
    lemma_lex_le_total_ordering, lemma_lex_le_transitive, lex_le, lex_le_order, module_name_of,
    name_views, split_dots, split_segments, str_lex_le,
};

verus! {

/// `n` spaces: one level of namespace nesting indents by one.
pub open spec fn spaces(n: int) -> Seq<char> {
    Seq::new(n as nat, |i: int| ' ')
}

/// The line that re-exports an undotted unit at the top level.
pub open spec fn plain_line_view(m: Seq<char>) -> Seq<char> {
    "pub mod "@ + m + ";"@
}

/// The line that opens nesting level `k` with segment `seg`.
pub open spec fn open_line_view(k: int, seg: Seq<char>) -> Seq<char> {
    spaces(k) + "pub mod "@ + seg + " {"@
}

/// The line that includes the generated unit of file stem `stem` at the
/// innermost scope.
pub open spec fn include_line_view(stem: Seq<char>) -> Seq<char> {
    "include!(\""@ + stem + ".rs\");"@
}

/// The line that closes nesting level `k`.
pub open spec fn close_line_view(k: int) -> Seq<char> {
    spaces(k) + "}"@
}

/// The opening lines of a nested scope chain, one per segment.
pub open spec fn open_lines(segs: Seq<Seq<char>>) -> Seq<Seq<char>> {
    Seq::new(segs.len(), |k: int| open_line_view(k, segs[k]))
}

/// The closing lines of `n` nested scopes, innermost first.
pub open spec fn close_lines(n: int) -> Seq<Seq<char>> {
    Seq::new(n as nat, |k: int| close_line_view(n - 1 - k))
}

/// The lines contributed by one generated unit: an undotted name is
/// re-exported in place; a dotted name opens one scope per segment,
/// includes the unit at the innermost scope, and closes the scopes in
/// reverse order.
pub open spec fn unit_lines(stem: Seq<char>) -> Seq<Seq<char>> {
    let m = dashes_to_underscores(stem);
    let segs = split_dots(m);
    if segs.len() <= 1 {
        seq![plain_line_view(m)]
    } else {
        open_lines(segs) + seq![include_line_view(stem)] + close_lines(segs.len() as int)
    }
}

/// The whole aggregating unit: each given unit's lines, in the given
/// order.
pub open spec fn mod_unit_lines(stems: Seq<Seq<char>>) -> Seq<Seq<char>>
    decreases stems.len(),
{
    if stems.len() == 0 {
        Seq::<Seq<char>>::empty()
    } else {
        unit_lines(stems[0]) + mod_unit_lines(stems.drop_first())
    }
}

/// Appending one unit appends its lines.
proof fn lemma_mod_unit_lines_push(stems: Seq<Seq<char>>, s: Seq<char>)
    ensures
        mod_unit_lines(stems.push(s)) == mod_unit_lines(stems) + unit_lines(s),
    decreases stems.len(),
{
    if stems.len() == 0 {
        assert(stems.push(s)[0] == s);
        assert(stems.push(s).drop_first() =~= stems);
        assert(mod_unit_lines(stems.push(s)) == unit_lines(s) + mod_unit_lines(stems));
        assert(unit_lines(s) + mod_unit_lines(stems) =~= mod_unit_lines(stems) + unit_lines(s));
    } else {
        assert(stems.push(s)[0] == stems[0]);
        assert(stems.push(s).drop_first() =~= stems.drop_first().push(s));
        lemma_mod_unit_lines_push(stems.drop_first(), s);
        assert(unit_lines(stems[0]) + (mod_unit_lines(stems.drop_first()) + unit_lines(s)) =~= (
        unit_lines(stems[0]) + mod_unit_lines(stems.drop_first())) + unit_lines(s));
    }
}

/// `n` spaces, as text.
fn indent(n: usize) -> (r: String)
    ensures
        r@ == spaces(n as int),
{
    let mut out = String::new();
    let mut i: usize = 0;
    while i < n
        invariant
            i <= n,
            out@ =~= spaces(i as int),
        decreases n - i,
    {
        out.append(" ");
        assert(" "@ =~= seq![' ']) by {
            reveal_strlit(" ");
        }
        assert(out@ =~= spaces(i + 1));
        i += 1;
    }
    out
}

/// The lines contributed by one generated unit.
fn emit_unit_lines(stem: &str) -> (r: Vec<String>)
    ensures
        name_views(r@) == unit_lines(stem@),
{
    let m = module_name_of(stem);
    let segs = split_segments(m.as_str());
    let ghost seg_views = split_dots(m@);
    let mut out: Vec<String> = Vec::new();
    if segs.len() == 1 {
        let mut line = String::new();
        line.append("pub mod ");
        line.append(m.as_str());
        line.append(";");
        out.push(line);
        assert(name_views(out@) =~= unit_lines(stem@));
    } else {
        assert(seg_views.len() >= 1);
        let n = segs.len();
        let mut k: usize = 0;
        while k < n
            invariant
                n == segs@.len(),
                name_views(segs@) == seg_views,
                k <= n,
                out@.len() == k,
                name_views(out@) =~= open_lines(seg_views).take(k as int),
            decreases n - k,
        {
            let mut line = indent(k);
            line.append("pub mod ");
            line.append(segs[k].as_str());
            line.append(" {");
            assert(name_views(segs@)[k as int] == segs@[k as int]@);
            assert(line@ == open_line_view(k as int, seg_views[k as int]));
            let ghost pre = out@;
            out.push(line);
            proof {
                assert forall|j: int| 0 <= j < k + 1 implies name_views(out@)[j] == open_lines(
                    seg_views,
                ).take(k + 1)[j] by {
                    assert(name_views(out@)[j] == out@[j]@);
                    if j < k {
                        assert(out@[j] == pre[j]);
                        assert(name_views(pre)[j] == open_lines(seg_views).take(k as int)[j]);
                    }
                }
                assert(name_views(out@) =~= open_lines(seg_views).take(k + 1));
            }
            k += 1;
        }
        assert(open_lines(seg_views).take(n as int) =~= open_lines(seg_views));
        let mut include_line = String::new();
        include_line.append("include!(\"");
        include_line.append(stem);
        include_line.append(".rs\");");
        assert(include_line@ == include_line_view(stem@));
        let ghost mid = open_lines(seg_views) + seq![include_line_view(stem@)];
        let ghost pre_mid = out@;
        out.push(include_line);
        proof {
            assert forall|j: int| 0 <= j < n + 1 implies name_views(out@)[j] == mid[j] by {
                assert(name_views(out@)[j] == out@[j]@);
                if j < n {
                    assert(out@[j] == pre_mid[j]);
                    assert(name_views(pre_mid)[j] == open_lines(seg_views)[j]);
                }
            }
            assert(name_views(out@) =~= mid);
        }
        let mut k2: usize = 0;
        while k2 < n
            invariant
                n == segs@.len(),
                name_views(segs@) == seg_views,
                seg_views.len() == n,
                k2 <= n,
                out@.len() == n + 1 + k2,
                name_views(out@) =~= mid + close_lines(n as int).take(k2 as int),
                mid == open_lines(seg_views) + seq![include_line_view(stem@)],
            decreases n - k2,
        {
            let mut line = indent(n - 1 - k2);
            line.append("}");
            assert(line@ == close_line_view(n - 1 - k2));
            assert(close_lines(n as int)[k2 as int] == close_line_view(n - 1 - k2));
            let ghost pre = out@;
            out.push(line);
            proof {
                let target = mid + close_lines(n as int).take(k2 + 1);
                assert forall|j: int| 0 <= j < n + 1 + k2 + 1 implies name_views(out@)[j]
                    == target[j] by {
                    assert(name_views(out@)[j] == out@[j]@);
                    if j < n + 1 + k2 {
                        assert(out@[j] == pre[j]);
                        assert(name_views(pre)[j] == (mid + close_lines(n as int).take(
                            k2 as int,
                        ))[j]);
                    } else {
                        assert(target[j] == close_lines(n as int).take(k2 + 1)[k2 as int]);
                    }
                }
                assert(name_views(out@) =~= target);
            }
            k2 += 1;
        }
        assert(close_lines(n as int).take(n as int) =~= close_lines(n as int));
        assert(seg_views.len() == n);
        assert(name_views(out@) =~= unit_lines(stem@));
    }
    out
}

/// A copy of a name list, equal by contents.
fn clone_names(names: &Vec<String>) -> (r: Vec<String>)
    ensures
        name_views(r@) == name_views(names@),
{
    let mut out: Vec<String> = Vec::new();
    let n = names.len();
    let mut i: usize = 0;
    while i < n
        invariant
            n == names@.len(),
            i <= n,
            name_views(out@) =~= name_views(names@).take(i as int),
        decreases n - i,
    {
        let x = names[i].clone();
        proof {
            lemma_name_views_push(out@, x);
        }
        out.push(x);
        assert(name_views(out@) =~= name_views(names@).take(i + 1));
        i += 1;
    }
    assert(name_views(names@).take(n as int) =~= name_views(names@));
    out
}

/// Sort a name list into dictionary order. The result holds the same
/// names, as a multiset, and is sorted.
pub fn sort_names(names: &Vec<String>) -> (r: Vec<String>)
    ensures
        name_views(r@).to_multiset() == name_views(names@).to_multiset(),
        sorted_by(name_views(r@), lex_le_order()),
{
    broadcast use vstd::seq_lib::group_to_multiset_ensures;

    let mut rest = clone_names(names);
    let mut out: Vec<String> = Vec::new();
    proof {
        assert(name_views(out@) =~= Seq::<Seq<char>>::empty());
        assert(name_views(out@).to_multiset().add(name_views(rest@).to_multiset())
            =~= name_views(names@).to_multiset());
    }
    while rest.len() > 0
        invariant
            name_views(out@).to_multiset().add(name_views(rest@).to_multiset()) == name_views(
                names@,
            ).to_multiset(),
            forall|p: int, q: int|
                0 <= p < q < out@.len() ==> lex_le(
                    #[trigger] name_views(out@)[p],
                    #[trigger] name_views(out@)[q],
                ),
            forall|i: int, j: int|
                0 <= i < out@.len() && 0 <= j < rest@.len() ==> lex_le(
                    #[trigger] name_views(out@)[i],
                    #[trigger] name_views(rest@)[j],
                ),
        decreases rest@.len(),
    {
        let mut m: usize = 0;
        let mut j: usize = 1;
        proof {
            lemma_lex_le_reflexive(name_views(rest@)[0]);
        }
        while j < rest.len()
            invariant
                rest@.len() > 0,
                m < j,
                j <= rest@.len(),
                forall|k: int| 0 <= k < j ==> lex_le(
                    name_views(rest@)[m as int],
                    #[trigger] name_views(rest@)[k],
                ),
            decreases rest@.len() - j,
        {
            if str_lex_le(&rest[j], &rest[m]) {
                proof {
                    assert forall|k: int| 0 <= k < j + 1 implies lex_le(
                        name_views(rest@)[j as int],
                        #[trigger] name_views(rest@)[k],
                    ) by {
                        if k < j {
                            lemma_lex_le_transitive(
                                name_views(rest@)[j as int],
                                name_views(rest@)[m as int],
                                name_views(rest@)[k],
                            );
                        } else {
                            lemma_lex_le_reflexive(name_views(rest@)[j as int]);
                        }
                    }
                }
                m = j;
            } else {
                proof {
                    lemma_lex_le_connected(
                        name_views(rest@)[j as int],
                        name_views(rest@)[m as int],
                    );
                    assert(lex_le(name_views(rest@)[m as int], name_views(rest@)[j as int]));
                }
            }
            j += 1;
        }
        proof {
            lemma_lex_le_reflexive(name_views(rest@)[m as int]);
        }
        let ghost rest_pre = rest@;
        let ghost out_pre = out@;
        proof {
            lemma_name_views_remove(rest_pre, m as int);
        }
        let x = rest.remove(m);
        proof {
            lemma_name_views_push(out@, x);
        }
        out.push(x);
        proof {
            broadcast use vstd::multiset::group_multiset_axioms;

            let vx = name_views(rest_pre)[m as int];
            assert(vx == rest_pre[m as int]@);
            assert(name_views(rest@) == name_views(rest_pre).remove(m as int));
            assert(name_views(out@) == name_views(out_pre).push(vx));
            vstd::seq_lib::to_multiset_remove(name_views(rest_pre), m as int);
            vstd::seq_lib::to_multiset_build(name_views(out_pre), vx);
            assert(name_views(rest_pre).contains(vx));
            vstd::seq_lib::to_multiset_contains(name_views(rest_pre), vx);
            assert(name_views(rest_pre).to_multiset().count(vx) > 0);
            assert(name_views(out@).to_multiset().add(name_views(rest@).to_multiset())
                =~= name_views(names@).to_multiset());
            // The pushed name follows everything already emitted, and
            // every remaining name follows the pushed one.
            assert forall|i: int, j2: int|
                0 <= i < out@.len() && 0 <= j2 < rest@.len() implies lex_le(
                #[trigger] name_views(out@)[i],
                #[trigger] name_views(rest@)[j2],
            ) by {
                let old_j = if j2 < m { j2 } else { j2 + 1 };
                let rv = name_views(rest_pre);
                assert(name_views(rest@) == rv.remove(m as int));
                if j2 < m {
                    assert(rv.remove(m as int)[j2] == rv.subrange(0, m as int)[j2]);
                    assert(rv.subrange(0, m as int)[j2] == rv[j2]);
                } else {
                    assert(rv.remove(m as int)[j2] == rv.subrange(m + 1, rv.len() as int)[j2
                        - m]);
                    assert(rv.subrange(m + 1, rv.len() as int)[j2 - m] == rv[j2 + 1]);
                }
                assert(name_views(rest@)[j2] == name_views(rest_pre)[old_j]);
                if i < out_pre.len() {
                    assert(name_views(out@)[i] == name_views(out_pre)[i]);
                } else {
                    assert(name_views(out@)[i] == vx);
                }
            }
            assert forall|i: int, j2: int| 0 <= i < j2 < out@.len() implies lex_le(
                #[trigger] name_views(out@)[i],
                #[trigger] name_views(out@)[j2],
            ) by {
                if j2 < out_pre.len() {
                    assert(name_views(out@)[i] == name_views(out_pre)[i]);
                    assert(name_views(out@)[j2] == name_views(out_pre)[j2]);
                } else {
                    assert(name_views(out@)[j2] == vx);
                    assert(name_views(out@)[i] == name_views(out_pre)[i]);
                    assert(lex_le(name_views(out_pre)[i], name_views(rest_pre)[m as int]));
                }
            }
        }
    }
    proof {
        broadcast use vstd::multiset::group_multiset_axioms;

        assert(name_views(rest@) =~= Seq::<Seq<char>>::empty());
        vstd::seq_lib::to_multiset_len(name_views(rest@));
        vstd::multiset::lemma_multiset_empty_len(name_views(rest@).to_multiset());
        assert(name_views(rest@).to_multiset() =~= vstd::multiset::Multiset::<Seq<char>>::empty());
        assert(name_views(out@).to_multiset().add(name_views(rest@).to_multiset())
            =~= name_views(out@).to_multiset());
        let leq = lex_le_order();
        assert forall|p: int, q: int| 0 <= p < q < name_views(out@).len() implies #[trigger] leq(
            name_views(out@)[p],
            name_views(out@)[q],
        ) by {
            assert(lex_le(name_views(out@)[p], name_views(out@)[q]));
        }
        assert(sorted_by(name_views(out@), leq));
    }
    out
}

/// Assemble the aggregating namespace unit from the file stems of the
/// generated units, as lines of text.
///
/// The stems are sorted into dictionary order first, so the output is
/// one deterministic function of the set of stems, whatever order the
/// directory enumeration handed them over in.
pub fn assemble_namespace(stems: &Vec<String>) -> (r: Vec<String>)
    ensures
        name_views(r@) == mod_unit_lines(name_views(stems@).sort_by(lex_le_order())),
{
    let sorted = sort_names(stems);
    proof {
        lemma_lex_le_total_ordering();
        name_views(stems@).lemma_sort_by_ensures(lex_le_order());
        lemma_sorted_unique(
            name_views(sorted@),
            name_views(stems@).sort_by(lex_le_order()),
            lex_le_order(),
        );
        assert(name_views(sorted@) == name_views(stems@).sort_by(lex_le_order()));
    }
    let mut out: Vec<String> = Vec::new();
    let n = sorted.len();
    let mut i: usize = 0;
    while i < n
        invariant
            n == sorted@.len(),
            i <= n,
            name_views(out@) =~= mod_unit_lines(name_views(sorted@).take(i as int)),
        decreases n - i,
    {
        let mut lines = emit_unit_lines(sorted[i].as_str());
        let ghost pre = out@;
        out.append(&mut lines);
        proof {
            lemma_mod_unit_lines_push(
                name_views(sorted@).take(i as int),
                name_views(sorted@)[i as int],
            );
            assert(name_views(sorted@).take(i as int).push(name_views(sorted@)[i as int])
                =~= name_views(sorted@).take(i + 1));
            assert(name_views(out@) =~= name_views(pre) + unit_lines(name_views(sorted@)[i as int]));
            assert(name_views(out@) =~= mod_unit_lines(name_views(sorted@).take(i + 1)));
        }
        i += 1;
    }
    proof {
        assert(name_views(sorted@).take(n as int) =~= name_views(sorted@));
    }
    out
}

/// Namespace assembly is deterministic: two enumerations of the same
/// generated units, in whatever orders, assemble to the same aggregating
/// unit, line for line.
pub proof fn lemma_assembly_deterministic(s1: Seq<Seq<char>>, s2: Seq<Seq<char>>)
    requires
        s1.to_multiset() == s2.to_multiset(),
    ensures
        mod_unit_lines(s1.sort_by(lex_le_order())) == mod_unit_lines(s2.sort_by(lex_le_order())),
{
    lemma_lex_le_total_ordering();
    s1.lemma_sort_by_ensures(lex_le_order());
    s2.lemma_sort_by_ensures(lex_le_order());
    lemma_sorted_unique(s1.sort_by(lex_le_order()), s2.sort_by(lex_le_order()), lex_le_order());
    assert(s1.sort_by(lex_le_order()) == s2.sort_by(lex_le_order()));
}

} // verus!
