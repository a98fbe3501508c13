//! What a sanitised instruction name is made of.
use vstd::prelude::*;

use crate::output::{collapse, is_ascii_alnum, safe_char, sanitized};
use crate::std_text::ascii_lower;
use crate::text::{first_kept, join, last_kept_end, trim};

verus! {

/// The maximal runs of ASCII letters and digits of `s`, lower-cased, in order.
pub open spec fn alnum_runs(s: Seq<char>) -> Seq<Seq<char>>
    decreases s.len(),
{
    if s.len() == 0 {
        seq![]
    } else {
        let r = alnum_runs(s.drop_last());
        let c = s.last();
        if !is_ascii_alnum(c) {
            r
        } else if s.len() > 1 && is_ascii_alnum(s[s.len() - 2]) {
            r.drop_last().push(r.last().push(ascii_lower(c)))
        } else {
            r.push(seq![ascii_lower(c)])
        }
    }
}

/// `_` where the first character of `s` is no ASCII letter or digit.
pub open spec fn lead(s: Seq<char>) -> Seq<char> {
    if s.len() > 0 && !is_ascii_alnum(s[0]) {
        seq!['_']
    } else {
        seq![]
    }
}

/// `_` where the last character of `s` is no ASCII letter or digit.
pub open spec fn trail(s: Seq<char>) -> Seq<char> {
    if s.len() > 0 && !is_ascii_alnum(s.last()) {
        seq!['_']
    } else {
        seq![]
    }
}

proof fn lemma_join_push(r: Seq<Seq<char>>, x: Seq<char>)
    requires
        r.len() > 0,
    ensures
        join(r.push(x), "_"@) == join(r, "_"@) + "_"@ + x,
{
    assert(r.push(x).drop_last() =~= r);
}

proof fn lemma_join_extend(r: Seq<Seq<char>>, c: char)
    requires
        r.len() > 0,
    ensures
        join(r.drop_last().push(r.last().push(c)), "_"@) == join(r, "_"@).push(c),
{
    let r2 = r.drop_last().push(r.last().push(c));
    if r.len() == 1 {
        assert(r2.len() == 1);
    } else {
        assert(r2.drop_last() =~= r.drop_last());
        assert(join(r2, "_"@) =~= join(r, "_"@).push(c));
    }
}

proof fn lemma_join_ends(r: Seq<Seq<char>>)
    requires
        r.len() > 0,
        forall|k: int| 0 <= k < r.len() ==> (#[trigger] r[k]).len() > 0,
    ensures
        join(r, "_"@).len() > 0,
        join(r, "_"@)[0] == r[0][0],
        join(r, "_"@).last() == r.last().last(),
    decreases r.len(),
{
    reveal_strlit("_");
    if r.len() > 1 {
        lemma_join_ends(r.drop_last());
        let j = join(r.drop_last(), "_"@);
        assert((j + "_"@ + r.last())[0] == j[0]);
    }
}

proof fn lemma_runs(s: Seq<char>)
    ensures
        forall|k: int| 0 <= k < alnum_runs(s).len() ==> (#[trigger] alnum_runs(s)[k]).len() > 0,
        forall|k: int, j: int| 0 <= k < alnum_runs(s).len() && 0 <= j < alnum_runs(s)[k].len()
            ==> #[trigger] alnum_runs(s)[k][j] != '_',
        alnum_runs(s).len() == 0 ==> forall|i: int| 0 <= i < s.len() ==> !is_ascii_alnum(#[trigger] s[i]),
        s.len() > 0 && is_ascii_alnum(s.last()) ==> alnum_runs(s).len() > 0,
        alnum_runs(s).len() == 0 ==> collapse(s) == (if s.len() == 0 { Seq::<char>::empty() } else { seq!['_'] }),
        alnum_runs(s).len() > 0 ==> collapse(s) == lead(s) + join(alnum_runs(s), "_"@) + trail(s),
    decreases s.len(),
{
    reveal_strlit("_");
    if s.len() > 0 {
        let p = s.drop_last();
        let c = s.last();
        let r = alnum_runs(p);
        let rs = alnum_runs(s);
        lemma_runs(p);
        let cp = collapse(p);
        let cs = collapse(s);
        let lc = ascii_lower(c);
        assert(is_ascii_alnum(c) ==> safe_char(c) == lc && lc != '_');
        assert(!is_ascii_alnum(c) ==> safe_char(c) == '_');
        if p.len() > 0 {
            assert(s[0] == p[0]);
        }
        if !is_ascii_alnum(c) {
            assert(rs == r);
            if r.len() > 0 {
                lemma_join_ends(r);
                let jr = join(r, "_"@);
                if is_ascii_alnum(p.last()) {
                    assert(cp == lead(p) + jr);
                    assert(cp.last() == jr.last());
                    assert(cs == cp.push('_'));
                    assert(cs =~= lead(s) + jr + trail(s));
                } else {
                    assert(cp =~= lead(p) + jr + seq!['_']);
                    assert(cs == cp);
                    assert(cs =~= lead(s) + jr + trail(s));
                }
            } else {
                if p.len() == 0 {
                    assert(cs =~= seq!['_']);
                } else {
                    assert(cs == cp);
                }
                assert forall|i: int| 0 <= i < s.len() implies !is_ascii_alnum(#[trigger] s[i]) by {
                    if i < p.len() {
                        assert(s[i] == p[i]);
                    }
                }
            }
        } else {
            assert(cs == cp.push(lc));
            if p.len() > 0 && is_ascii_alnum(p.last()) {
                assert(s[s.len() - 2] == p.last());
                assert(rs == r.drop_last().push(r.last().push(lc)));
                lemma_join_extend(r, lc);
                assert(cp == lead(p) + join(r, "_"@));
                assert(cs =~= lead(s) + join(rs, "_"@) + trail(s));
            } else {
                if p.len() > 0 {
                    assert(s[s.len() - 2] == p.last());
                }
                assert(rs == r.push(seq![lc]));
                if r.len() > 0 {
                    lemma_join_push(r, seq![lc]);
                    assert(cp =~= lead(p) + join(r, "_"@) + seq!['_']);
                    assert(cs =~= lead(s) + join(rs, "_"@) + trail(s));
                } else if p.len() == 0 {
                    assert(join(rs, "_"@) == seq![lc]);
                    assert(cs =~= lead(s) + join(rs, "_"@) + trail(s));
                } else {
                    assert(!is_ascii_alnum(p[0]));
                    assert(join(rs, "_"@) == seq![lc]);
                    assert(cs =~= lead(s) + join(rs, "_"@) + trail(s));
                }
            }
            assert forall|k: int| 0 <= k < rs.len() implies (#[trigger] rs[k]).len() > 0 by {
                if k < r.len() {
                    assert(r[k].len() > 0);
                }
            }
            assert forall|k: int, j: int| 0 <= k < rs.len() && 0 <= j < rs[k].len() implies #[trigger] rs[k][j] != '_' by {
                if k < rs.len() - 1 || (rs.len() == r.len() && j < r[k].len()) {
                    assert(rs[k][j] == r[k][j]);
                }
            }
        }
    }
}

/// A sanitised name is made of the name's maximal runs of ASCII letters and digits,
/// lower-cased and joined by `_` in order; it is `instruction` when the name has none.
pub proof fn law_sanitized_runs(name: Seq<char>)
    ensures
        sanitized(name) == (if alnum_runs(name).len() == 0 {
            "instruction"@
        } else {
            join(alnum_runs(name), "_"@)
        }),
{
    reveal_strlit("_");
    lemma_runs(name);
    let c = collapse(name);
    let r = alnum_runs(name);
    let k = Some('_');
    if r.len() == 0 {
        if name.len() > 0 {
            assert(first_kept(c, k, 1) == 1);
        }
        assert(first_kept(c, k, 0) >= c.len());
    } else {
        lemma_join_ends(r);
        let j = join(r, "_"@);
        let a = lead(name).len() as int;
        let e = a + j.len();
        assert(j[0] == r[0][0] && r[0][0] != '_');
        assert(j.last() == r.last()[r.last().len() - 1] && r.last()[r.last().len() - 1] != '_');
        assert(c[a] == j[0]);
        assert(c[e - 1] == j.last());
        if a == 1 {
            assert(c[0] == '_');
            assert(first_kept(c, k, 1) == 1);
        }
        assert(first_kept(c, k, 0) == a);
        if trail(name).len() == 1 {
            assert(c[c.len() - 1] == '_');
            assert(last_kept_end(c, k, e) == e);
        }
        assert(last_kept_end(c, k, c.len() as int) == e);
        assert(trim(c, k) =~= j);
    }
}

} // verus!
