//! Facts about written components and how they read back: line structure,
//! searching, unfolding, splitting into lines, and the property map built
//! from content lines.
use vstd::prelude::*;
use vstd::string::*;

use crate::ical::{
    apply_line, apply_lines, begin_marker, component_props, crlf, end_marker, join_lines, key_base,
    prop_line, unfold,
};
use crate::props::{insert, keys, lookup, unique_keys, PropsModel};
use crate::text::{
    find_from, is_white_space, lines_from, next_char_at, occurs_at, remove_all, remove_from,
    str_lines, strip_cr, trim, trim_end, trim_start, upper_of, is_ascii_text, ascii_upper,
};

verus! {

broadcast use vstd::string::group_string_axioms;

// ---------------------------------------------------------------------------
// Lines ended by CRLF
// ---------------------------------------------------------------------------

/// Each line followed by CRLF.
pub open spec fn term(ls: Seq<Seq<char>>) -> Seq<char>
    decreases ls.len(),
{
    if ls.len() == 0 {
        Seq::empty()
    } else {
        ls[0] + crlf() + term(ls.drop_first())
    }
}

/// A line holds no carriage return and no line feed.
pub open spec fn clean_line(l: Seq<char>) -> bool {
    forall|j: int| 0 <= j < l.len() ==> l[j] != '\r' && l[j] != '\n'
}

/// `pat` occurs somewhere in `l`.
pub open spec fn has_text(l: Seq<char>, pat: Seq<char>) -> bool {
    exists|q: int| occurs_at(l, pat, q)
}

/// The characters of the line separator.
pub proof fn lemma_crlf()
    ensures
        crlf().len() == 2,
        crlf()[0] == '\r',
        crlf()[1] == '\n',
{
    reveal_strlit("\r\n");
}

/// Terminating the lines of a concatenation terminates each part.
pub proof fn lemma_term_concat(a: Seq<Seq<char>>, b: Seq<Seq<char>>)
    ensures
        term(a + b) == term(a) + term(b),
    decreases a.len(),
{
    if a.len() == 0 {
        assert(a + b =~= b);
        assert(term(a) + term(b) =~= term(b));
    } else {
        assert((a + b).drop_first() =~= a.drop_first() + b);
        assert((a + b)[0] == a[0]);
        lemma_term_concat(a.drop_first(), b);
        assert(term(a + b) =~= term(a) + term(b));
    }
}

/// Terminating a single line appends the separator to it.
pub proof fn lemma_term_one(l: Seq<char>)
    ensures
        term(seq![l]) == l + crlf(),
{
    let e = Seq::<Seq<char>>::empty();
    assert(seq![l].drop_first() =~= e);
    assert(term(e) =~= Seq::<char>::empty());
    assert(seq![l][0] == l);
    assert(term(seq![l]) == l + crlf() + term(e));
    assert(l + crlf() + Seq::<char>::empty() =~= l + crlf());
}

/// Joined lines are the lines before the last, each followed by CRLF, then
/// the last.
pub proof fn lemma_join_term(ls: Seq<Seq<char>>)
    requires
        ls.len() > 0,
    ensures
        join_lines(ls, crlf()) == term(ls.drop_last()) + ls.last(),
    decreases ls.len(),
{
    if ls.len() == 1 {
        assert(term(ls.drop_last()) =~= Seq::<char>::empty());
        assert(term(ls.drop_last()) + ls.last() =~= ls[0]);
    } else {
        let init = ls.drop_last();
        lemma_join_term(init);
        lemma_term_concat(init.drop_last(), seq![init.last()]);
        lemma_term_one(init.last());
        assert(init.drop_last() + seq![init.last()] =~= init);
        assert(join_lines(ls, crlf()) =~= term(ls.drop_last()) + ls.last());
    }
}

/// Joining `a + b` with `b` not empty: `a` with CRLF after each line, then
/// `b` joined.
pub proof fn lemma_join_concat(a: Seq<Seq<char>>, b: Seq<Seq<char>>)
    requires
        b.len() > 0,
    ensures
        join_lines(a + b, crlf()) == term(a) + join_lines(b, crlf()),
{
    lemma_join_term(a + b);
    lemma_join_term(b);
    assert((a + b).drop_last() =~= a + b.drop_last());
    assert((a + b).last() == b.last());
    lemma_term_concat(a, b.drop_last());
    assert(join_lines(a + b, crlf()) =~= term(a) + join_lines(b, crlf()));
}

/// Joined lines begin with the first line.
pub proof fn lemma_join_head(b: Seq<Seq<char>>)
    requires
        b.len() > 0,
    ensures
        join_lines(b, crlf()).len() >= b[0].len(),
        join_lines(b, crlf()).subrange(0, b[0].len() as int) == b[0],
{
    if b.len() == 1 {
        assert(join_lines(b, crlf()).subrange(0, b[0].len() as int) =~= b[0]);
    } else {
        assert(seq![b[0]] + b.drop_first() =~= b);
        lemma_join_concat(seq![b[0]], b.drop_first());
        lemma_term_one(b[0]);
        assert(join_lines(b, crlf()).subrange(0, b[0].len() as int) =~= b[0]);
    }
}

/// An occurrence, in lines each followed by CRLF, of a text without line
/// breaks lies inside one of the lines.
pub proof fn lemma_term_occurrence(ls: Seq<Seq<char>>, pat: Seq<char>, p: int)
    requires
        pat.len() > 0,
        clean_line(pat),
        occurs_at(term(ls), pat, p),
    ensures
        exists|i: int| 0 <= i < ls.len() && has_text(#[trigger] ls[i], pat),
    decreases ls.len(),
{
    lemma_crlf();
    if ls.len() == 0 {
        assert(term(ls) =~= Seq::<char>::empty());
    } else {
        let l0 = ls[0];
        let n = l0.len() as int;
        let rest = ls.drop_first();
        let s = term(ls);
        assert(s == l0 + crlf() + term(rest));
        let w = s.subrange(p, p + pat.len());
        if p + pat.len() <= n {
            assert(l0.subrange(p, p + pat.len()) =~= w);
            assert(occurs_at(l0, pat, p));
            assert(has_text(ls[0], pat));
        } else if p <= n + 1 {
            let idx = if p <= n {
                n
            } else {
                n + 1
            };
            assert(w[idx - p] == s[idx]);
            assert(pat[idx - p] == s[idx]);
        } else {
            let q = p - n - 2;
            assert(term(rest).subrange(q, q + pat.len()) =~= w);
            assert(occurs_at(term(rest), pat, q));
            lemma_term_occurrence(rest, pat, q);
            let i = choose|i: int| 0 <= i < rest.len() && has_text(#[trigger] rest[i], pat);
            assert(ls[i + 1] == rest[i]);
        }
    }
}

/// Every line feed is followed by something other than a space or a tab:
/// the text holds no folded line.
pub open spec fn no_fold(s: Seq<char>) -> bool {
    forall|p: int|
        0 <= p < s.len() - 1 && #[trigger] s[p] == '\n' ==> s[p + 1] != ' ' && s[p + 1] != '\t'
}

/// The lines of a written component: none holds a line break, and each but
/// the first is not empty and begins with neither a space nor a tab.
pub open spec fn well_formed_lines(ls: Seq<Seq<char>>) -> bool {
    &&& forall|i: int| 0 <= i < ls.len() ==> clean_line(#[trigger] ls[i])
    &&& forall|i: int|
        1 <= i < ls.len() ==> (#[trigger] ls[i]).len() > 0 && ls[i][0] != ' ' && ls[i][0] != '\t'
}

/// Joined lines hold no folded continuation where no line starts with
/// white space.
pub proof fn lemma_join_no_fold(ls: Seq<Seq<char>>)
    requires
        well_formed_lines(ls),
    ensures
        no_fold(join_lines(ls, crlf())),
    decreases ls.len(),
{
    lemma_crlf();
    if ls.len() == 0 {
    } else if ls.len() == 1 {
        assert(clean_line(ls[0]));
    } else {
        let init = ls.drop_last();
        assert(well_formed_lines(init)) by {
            assert forall|i: int| 0 <= i < init.len() implies clean_line(#[trigger] init[i]) by {
                assert(init[i] == ls[i]);
            }
            assert forall|i: int| 1 <= i < init.len() implies (#[trigger] init[i]).len() > 0
                && init[i][0] != ' ' && init[i][0] != '\t' by {
                assert(init[i] == ls[i]);
            }
        }
        lemma_join_no_fold(init);
        let x = join_lines(init, crlf());
        let last = ls.last();
        assert(clean_line(ls[ls.len() - 1]));
        assert(ls[ls.len() - 1].len() > 0 && ls[ls.len() - 1][0] != ' ' && ls[ls.len() - 1][0]
            != '\t');
        let s = join_lines(ls, crlf());
        assert(s == x + crlf() + last);
        assert forall|p: int| 0 <= p < s.len() - 1 && #[trigger] s[p] == '\n' implies s[p + 1]
            != ' ' && s[p + 1] != '\t' by {
            if p < x.len() {
                assert(s[p] == x[p]);
                if p + 1 < x.len() {
                    assert(s[p + 1] == x[p + 1]);
                } else {
                    assert(s[p + 1] == '\r');
                }
            } else if p == x.len() {
                assert(s[p] == '\r');
            } else if p == x.len() + 1 {
                assert(s[p + 1] == last[0]);
            } else {
                assert(s[p] == last[p - x.len() - 2]);
            }
        }
    }
}

/// Taking out a pattern that does not occur from position `i` on leaves the
/// text from `i` on as it is.
pub proof fn lemma_remove_absent(s: Seq<char>, pat: Seq<char>, i: nat)
    requires
        pat.len() > 0,
        i <= s.len(),
        forall|p: int| i <= p ==> !occurs_at(s, pat, p),
    ensures
        remove_from(s, pat, i) == s.subrange(i as int, s.len() as int),
    decreases s.len() - i,
{
    if i >= s.len() {
        assert(s.subrange(i as int, s.len() as int) =~= Seq::<char>::empty());
    } else {
        assert(!occurs_at(s, pat, i as int));
        lemma_remove_absent(s, pat, i + 1);
        assert(seq![s[i as int]] + s.subrange((i + 1) as int, s.len() as int) =~= s.subrange(
            i as int,
            s.len() as int,
        ));
    }
}

proof fn lemma_remove_absent_all(s: Seq<char>, pat: Seq<char>)
    requires
        pat.len() > 0,
        forall|p: int| !occurs_at(s, pat, p),
    ensures
        remove_all(s, pat) == s,
{
    lemma_remove_absent(s, pat, 0);
    assert(s.subrange(0, s.len() as int) =~= s);
}

/// A text without folded lines unfolds to itself.
pub proof fn lemma_unfold_identity(s: Seq<char>)
    requires
        no_fold(s),
    ensures
        unfold(s) == s,
{
    reveal_strlit("\r\n ");
    reveal_strlit("\r\n\t");
    reveal_strlit("\n ");
    reveal_strlit("\n\t");
    assert forall|p: int| !occurs_at(s, "\r\n "@, p) by {
        if occurs_at(s, "\r\n "@, p) {
            assert(s.subrange(p, p + 3)[1] == s[p + 1]);
            assert(s.subrange(p, p + 3)[2] == s[p + 2]);
            assert(s[p + 1] == '\n');
        }
    }
    lemma_remove_absent_all(s, "\r\n "@);
    assert forall|p: int| !occurs_at(s, "\r\n\t"@, p) by {
        if occurs_at(s, "\r\n\t"@, p) {
            assert(s.subrange(p, p + 3)[1] == s[p + 1]);
            assert(s.subrange(p, p + 3)[2] == s[p + 2]);
            assert(s[p + 1] == '\n');
        }
    }
    lemma_remove_absent_all(s, "\r\n\t"@);
    assert forall|p: int| !occurs_at(s, "\n "@, p) by {
        if occurs_at(s, "\n "@, p) {
            assert(s.subrange(p, p + 2)[0] == s[p]);
            assert(s.subrange(p, p + 2)[1] == s[p + 1]);
            assert(s[p] == '\n');
        }
    }
    lemma_remove_absent_all(s, "\n "@);
    assert forall|p: int| !occurs_at(s, "\n\t"@, p) by {
        if occurs_at(s, "\n\t"@, p) {
            assert(s.subrange(p, p + 2)[0] == s[p]);
            assert(s.subrange(p, p + 2)[1] == s[p + 1]);
            assert(s[p] == '\n');
        }
    }
    lemma_remove_absent_all(s, "\n\t"@);
}

/// The first occurrence at or after `i` is at `q` when it occurs there and
/// nowhere between.
pub proof fn lemma_find_first(s: Seq<char>, pat: Seq<char>, i: nat, q: nat)
    requires
        i <= q,
        occurs_at(s, pat, q as int),
        forall|p: int| i <= p < q ==> !occurs_at(s, pat, p),
    ensures
        find_from(s, pat, i) == Some(q),
    decreases q - i,
{
    if i < q {
        assert(!occurs_at(s, pat, i as int));
        lemma_find_first(s, pat, i + 1, q);
    }
}

/// The first position at or after `i` holding `c` is `q`.
pub proof fn lemma_next_char_at_eq(s: Seq<char>, c: char, i: nat, q: nat)
    requires
        i <= q <= s.len(),
        forall|p: int| i <= p < q ==> s[p] != c,
        q < s.len() ==> s[q as int] == c,
    ensures
        next_char_at(s, c, i) == q,
    decreases q - i,
{
    if i < q {
        lemma_next_char_at_eq(s, c, i + 1, q);
    }
}

/// The lines of `pre + term(ys)` read from the end of `pre` are `ys`.
pub proof fn lemma_lines_term(pre: Seq<char>, ys: Seq<Seq<char>>)
    requires
        forall|i: int| 0 <= i < ys.len() ==> clean_line(#[trigger] ys[i]),
    ensures
        lines_from(pre + term(ys), pre.len()) == ys,
    decreases ys.len(),
{
    lemma_crlf();
    let s = pre + term(ys);
    if ys.len() == 0 {
        assert(s =~= pre);
        assert(lines_from(s, pre.len()) =~= ys);
    } else {
        let y0 = ys[0];
        let rest = ys.drop_first();
        assert(clean_line(ys[0]));
        let i = pre.len();
        let j = i + y0.len() + 1;
        assert(s =~= pre + y0 + crlf() + term(rest));
        assert forall|p: int| i <= p < j implies s[p] != '\n' by {
            if p < i + y0.len() {
                assert(s[p] == y0[p - i]);
            } else {
                assert(s[p] == '\r');
            }
        }
        assert(s[j as int] == '\n');
        lemma_next_char_at_eq(s, '\n', i, j as nat);
        assert(s.subrange(i as int, j as int) =~= y0.push('\r'));
        assert(strip_cr(y0.push('\r')) =~= y0);
        let pre2 = pre + y0 + crlf();
        assert(s =~= pre2 + term(rest));
        assert(pre2.len() == j + 1);
        assert forall|k: int| 0 <= k < rest.len() implies clean_line(#[trigger] rest[k]) by {
            assert(rest[k] == ys[k + 1]);
        }
        lemma_lines_term(pre2, rest);
        assert(lines_from(s, i) =~= seq![y0] + rest);
        assert(seq![y0] + rest =~= ys);
    }
}

/// The lines of CRLF followed by `ys`, each followed by CRLF, are an empty
/// line and then `ys`.
pub proof fn lemma_body_lines(ys: Seq<Seq<char>>)
    requires
        forall|i: int| 0 <= i < ys.len() ==> clean_line(#[trigger] ys[i]),
    ensures
        str_lines(crlf() + term(ys)) == seq![Seq::<char>::empty()] + ys,
{
    lemma_crlf();
    let s = crlf() + term(ys);
    assert(s[0] == '\r');
    assert(s[1] == '\n');
    lemma_next_char_at_eq(s, '\n', 0, 1);
    assert(s.subrange(0, 1) =~= seq!['\r']);
    assert(strip_cr(seq!['\r']) =~= Seq::<char>::empty());
    lemma_lines_term(crlf(), ys);
    assert(str_lines(s) =~= seq![Seq::<char>::empty()] + ys);
}

// ---------------------------------------------------------------------------
// Property maps
// ---------------------------------------------------------------------------

/// What `lookup` gives after an `insert`.
pub proof fn lemma_lookup_insert(m: PropsModel, k: Seq<char>, v: Seq<char>, k2: Seq<char>)
    ensures
        lookup(insert(m, k, v), k2) == (if k2 == k {
            Some(v)
        } else {
            lookup(m, k2)
        }),
    decreases m.len(),
{
    if m.len() == 0 {
        let r = insert(m, k, v);
        let e = Seq::<(Seq<char>, Seq<char>)>::empty();
        assert(r[0] == (k, v));
        assert(r.drop_first() =~= e);
        assert(lookup(e, k2) is None);
        assert(lookup(m, k2) is None);
    } else if m[0].0 == k {
        let r = insert(m, k, v);
        assert(r[0] == (k, v));
        assert(r.drop_first() =~= m.drop_first());
    } else {
        let r = insert(m, k, v);
        assert(r[0] == m[0]);
        assert(r.drop_first() =~= insert(m.drop_first(), k, v));
        lemma_lookup_insert(m.drop_first(), k, v, k2);
    }
}

/// Every name after an `insert` is the inserted one or one there was.
pub proof fn lemma_insert_keys(m: PropsModel, k: Seq<char>, v: Seq<char>)
    ensures
        insert(m, k, v).len() >= m.len(),
        forall|j: int|
            0 <= j < insert(m, k, v).len() ==> (#[trigger] insert(m, k, v)[j]).0 == k || exists|
                i: int,
            |
                0 <= i < m.len() && m[i].0 == insert(m, k, v)[j].0,
    decreases m.len(),
{
    let r = insert(m, k, v);
    if m.len() == 0 {
    } else if m[0].0 == k {
        assert forall|j: int| 0 <= j < r.len() implies (#[trigger] r[j]).0 == k || exists|i: int|
            0 <= i < m.len() && m[i].0 == r[j].0 by {
            if j > 0 {
                assert(r[j] == m[j]);
            }
        }
    } else {
        let m1 = m.drop_first();
        lemma_insert_keys(m1, k, v);
        let r1 = insert(m1, k, v);
        assert(r == seq![m[0]] + r1);
        assert forall|j: int| 0 <= j < r.len() implies (#[trigger] r[j]).0 == k || exists|i: int|
            0 <= i < m.len() && m[i].0 == r[j].0 by {
            if j == 0 {
                assert(m[0].0 == r[0].0);
            } else {
                assert(r[j] == r1[j - 1]);
                if r1[j - 1].0 != k {
                    let i = choose|i: int| 0 <= i < m1.len() && m1[i].0 == r1[j - 1].0;
                    assert(m[i + 1] == m1[i]);
                }
            }
        }
    }
}

/// `insert` keeps names unique.
pub proof fn lemma_insert_unique(m: PropsModel, k: Seq<char>, v: Seq<char>)
    requires
        unique_keys(m),
    ensures
        unique_keys(insert(m, k, v)),
    decreases m.len(),
{
    let r = insert(m, k, v);
    if m.len() == 0 {
    } else if m[0].0 == k {
        assert forall|i: int, j: int| 0 <= i < j < r.len() implies r[i].0 != r[j].0 by {
            assert(r[j] == m[j]);
            if i > 0 {
                assert(r[i] == m[i]);
            }
        }
    } else {
        let m1 = m.drop_first();
        assert(unique_keys(m1)) by {
            assert forall|i: int, j: int| 0 <= i < j < m1.len() implies m1[i].0 != m1[j].0 by {
                assert(m1[i] == m[i + 1]);
                assert(m1[j] == m[j + 1]);
            }
        }
        lemma_insert_unique(m1, k, v);
        lemma_insert_keys(m1, k, v);
        let r1 = insert(m1, k, v);
        assert(r == seq![m[0]] + r1);
        assert forall|i: int, j: int| 0 <= i < j < r.len() implies r[i].0 != r[j].0 by {
            assert(r[j] == r1[j - 1]);
            if i == 0 {
                assert(r1[j - 1] == insert(m1, k, v)[j - 1]);
                if r1[j - 1].0 != k {
                    let q = choose|q: int| 0 <= q < m1.len() && m1[q].0 == r1[j - 1].0;
                    assert(m[q + 1] == m1[q]);
                }
            } else {
                assert(r[i] == r1[i - 1]);
            }
        }
    }
}

/// Reading one more line reads the lines before it first.
pub proof fn lemma_apply_lines_push(m: PropsModel, ls: Seq<Seq<char>>, l: Seq<char>)
    ensures
        apply_lines(m, ls.push(l)) == apply_line(apply_lines(m, ls), l),
    decreases ls.len(),
{
    if ls.len() == 0 {
        let e = Seq::<Seq<char>>::empty();
        assert(ls.push(l).drop_first() =~= e);
        assert(ls.push(l)[0] == l);
        assert(apply_lines(apply_line(m, l), e) == apply_line(m, l));
        assert(apply_lines(m, ls) == m);
    } else {
        assert(ls.push(l).drop_first() =~= ls.drop_first().push(l));
        assert(ls.push(l)[0] == ls[0]);
        lemma_apply_lines_push(apply_line(m, ls[0]), ls.drop_first(), l);
    }
}

/// Reading two runs of lines reads the first, then the second.
pub proof fn lemma_apply_lines_concat(m: PropsModel, a: Seq<Seq<char>>, b: Seq<Seq<char>>)
    ensures
        apply_lines(m, a + b) == apply_lines(apply_lines(m, a), b),
    decreases a.len(),
{
    if a.len() == 0 {
        assert(a + b =~= b);
    } else {
        assert((a + b).drop_first() =~= a.drop_first() + b);
        assert((a + b)[0] == a[0]);
        lemma_apply_lines_concat(apply_line(m, a[0]), a.drop_first(), b);
    }
}

/// A name and value that a content line carries back unchanged: no line
/// breaks, no `:` or `;` in the name, a value that is not empty and does not
/// end in white space, and a line that does not begin with white space.
pub open spec fn line_carries(k: Seq<char>, v: Seq<char>) -> bool {
    &&& clean_line(k)
    &&& clean_line(v)
    &&& forall|j: int| 0 <= j < k.len() ==> #[trigger] k[j] != ':' && k[j] != ';'
    &&& v.len() > 0
    &&& !is_white_space(v.last())
    &&& k.len() > 0 ==> !is_white_space(k[0]) && k[0] != ' ' && k[0] != '\t'
}

/// Reading the line `k:v` stores `v` under the upper case of `k`.
pub proof fn lemma_apply_prop_line(m: PropsModel, k: Seq<char>, v: Seq<char>)
    requires
        line_carries(k, v),
    ensures
        apply_line(m, prop_line(k, v)) == insert(m, upper_of(k), v),
{
    reveal_strlit(":");
    let line = prop_line(k, v);
    assert(line == k + seq![':'] + v);
    assert(line.len() > 0);
    assert(line[0] != ' ' && !is_white_space(line[0])) by {
        if k.len() > 0 {
            assert(line[0] == k[0]);
        } else {
            assert(line[0] == ':');
        }
    }
    assert(trim_start(line) == line);
    assert(line.last() == v.last());
    assert(trim_end(line) == line);
    assert(trim(line) == line);
    assert forall|p: int| 0 <= p < k.len() implies line[p] != ':' by {
        assert(line[p] == k[p]);
    }
    assert(line[k.len() as int] == ':');
    lemma_next_char_at_eq(line, ':', 0, k.len());
    assert(line.take(k.len() as int) =~= k);
    lemma_next_char_at_eq(k, ';', 0, k.len());
    assert(k.take(k.len() as int) =~= k);
    assert(key_base(k) == k);
    assert(line.skip((k.len() + 1) as int) =~= v);
}

/// Reading an empty line changes nothing.
pub proof fn lemma_apply_empty_line(m: PropsModel)
    ensures
        apply_line(m, Seq::<char>::empty()) == m,
{
    assert(trim_start(Seq::<char>::empty()) == Seq::<char>::empty());
    assert(trim_end(Seq::<char>::empty()) == Seq::<char>::empty());
}

// ---------------------------------------------------------------------------
// Reading back a written component
// ---------------------------------------------------------------------------

/// Lines each followed by CRLF end in a line feed.
pub proof fn lemma_term_last(ls: Seq<Seq<char>>)
    requires
        ls.len() > 0,
    ensures
        term(ls).len() >= 2,
        term(ls).last() == '\n',
{
    lemma_crlf();
    assert(ls.drop_last() + seq![ls.last()] =~= ls);
    lemma_term_concat(ls.drop_last(), seq![ls.last()]);
    lemma_term_one(ls.last());
}

/// The properties read from the component `c` of the joined lines
/// `pre, BEGIN:c, ys, END:c, post` are those of the lines `ys`, where no
/// line breaks or folds are in the lines, no line of `pre` holds the
/// `BEGIN:c` marker and no line of `ys` holds the `END:c` marker.
pub proof fn lemma_read_written(
    pre: Seq<Seq<char>>,
    c: Seq<char>,
    ys: Seq<Seq<char>>,
    post: Seq<Seq<char>>,
)
    requires
        well_formed_lines(
            pre + seq![begin_marker(c)] + ys + seq![end_marker(c)] + post,
        ),
        forall|i: int| 0 <= i < pre.len() ==> !has_text(#[trigger] pre[i], begin_marker(c)),
        forall|i: int| 0 <= i < ys.len() ==> !has_text(#[trigger] ys[i], end_marker(c)),
    ensures
        component_props(
            join_lines(pre + seq![begin_marker(c)] + ys + seq![end_marker(c)] + post, crlf()),
            c,
        ) == apply_lines(Seq::empty(), ys),
{
    lemma_crlf();
    reveal_strlit("BEGIN:");
    reveal_strlit("END:");
    let bm = begin_marker(c);
    let em = end_marker(c);
    let ls = pre + seq![bm] + ys + seq![em] + post;
    let a_lines = pre + seq![bm] + ys;
    let b_lines = seq![em] + post;
    assert(ls =~= a_lines + b_lines);
    assert(clean_line(ls[pre.len() as int]));
    assert(ls[pre.len() as int] == bm);
    assert(clean_line(bm));
    assert(ls[(pre.len() + 1 + ys.len()) as int] == em);
    assert(clean_line(ls[(pre.len() + 1 + ys.len()) as int]));
    assert(clean_line(em));
    assert forall|i: int| 0 <= i < ys.len() implies clean_line(#[trigger] ys[i]) by {
        assert(ls[pre.len() + 1 + i] == ys[i]);
        assert(clean_line(ls[pre.len() + 1 + i]));
    }
    lemma_join_concat(a_lines, b_lines);
    lemma_term_concat(pre + seq![bm], ys);
    lemma_term_concat(pre, seq![bm]);
    lemma_term_one(bm);
    lemma_join_head(b_lines);
    let jb = join_lines(b_lines, crlf());
    let tp = term(pre);
    let ty = term(ys);
    let s = join_lines(ls, crlf());
    assert(s == tp + bm + crlf() + ty + jb);
    let a = tp.len() as int;
    let b = a + bm.len();
    let e = b + 2 + ty.len();
    // No folded lines: the text unfolds to itself.
    lemma_join_no_fold(ls);
    lemma_unfold_identity(s);
    // The BEGIN marker first occurs after the lines of `pre`.
    assert(s.subrange(a, a + bm.len()) =~= bm);
    assert forall|p: int| 0 <= p < a implies !occurs_at(s, bm, p) by {
        if occurs_at(s, bm, p) {
            if p + bm.len() <= a {
                assert(tp.subrange(p, p + bm.len()) =~= s.subrange(p, p + bm.len()));
                lemma_term_occurrence(pre, bm, p);
            } else {
                lemma_term_last(pre);
                assert(s[a - 1] == tp.last());
                assert(s.subrange(p, p + bm.len())[a - 1 - p] == s[a - 1]);
                assert(bm[a - 1 - p] == '\n');
            }
        }
    }
    lemma_find_first(s, bm, 0, a as nat);
    // The END marker first occurs after the lines of `ys`.
    assert(s.subrange(e, e + em.len()) =~= em);
    assert forall|p: int| b <= p < e implies !occurs_at(s, em, p) by {
        if occurs_at(s, em, p) {
            assert(s.subrange(p, p + em.len())[0] == s[p]);
            if p == b {
                assert(s[p] == '\r');
            } else if p == b + 1 {
                assert(s[p] == '\n');
            } else {
                let q = p - b - 2;
                if q + em.len() <= ty.len() {
                    assert(ty.subrange(q, q + em.len()) =~= s.subrange(p, p + em.len()));
                    lemma_term_occurrence(ys, em, q);
                } else {
                    lemma_term_last(ys);
                    assert(s[e - 1] == ty.last());
                    assert(s.subrange(p, p + em.len())[e - 1 - p] == s[e - 1]);
                    assert(em[e - 1 - p] == '\n');
                }
            }
        }
    }
    lemma_find_first(s, em, b as nat, e as nat);
    // What lies between is CRLF and the lines of `ys`.
    assert(s.subrange(b, e) =~= crlf() + ty);
    lemma_body_lines(ys);
    lemma_apply_lines_concat(Seq::empty(), seq![Seq::<char>::empty()], ys);
    lemma_apply_empty_line(Seq::empty());
    let m0: PropsModel = Seq::empty();
    let x = Seq::<char>::empty();
    let e0 = Seq::<Seq<char>>::empty();
    assert(seq![x].drop_first() =~= e0);
    assert(seq![x][0] == x);
    assert(apply_lines(apply_line(m0, x), e0) == apply_line(m0, x));
    assert(apply_lines(m0, seq![x]) == apply_line(m0, x));
}

// ---------------------------------------------------------------------------
// The lines of the properties
// ---------------------------------------------------------------------------

/// A line that can follow another in a written component: no line breaks,
/// not empty, not beginning with a space or a tab.
pub open spec fn good_line(l: Seq<char>) -> bool {
    clean_line(l) && l.len() > 0 && l[0] != ' ' && l[0] != '\t'
}

/// The non-empty value stored under `k`.
pub open spec fn written_value(m: PropsModel, k: Seq<char>) -> Option<Seq<char>> {
    match lookup(m, k) {
        Some(v) => if v.len() > 0 {
            Some(v)
        } else {
            None
        },
        None => None,
    }
}

/// Every listed name with a non-empty value is written so that it reads
/// back: its line carries it and does not hold the `END:` marker of
/// `component`.
pub open spec fn writes_back(m: PropsModel, keys: Seq<Seq<char>>, component: Seq<char>) -> bool {
    forall|j: int|
        0 <= j < keys.len() && (#[trigger] written_value(m, keys[j])) is Some ==> {
            &&& line_carries(keys[j], written_value(m, keys[j])->0)
            &&& !has_text(prop_line(keys[j], written_value(m, keys[j])->0), end_marker(component))
        }
}

/// A name made of ASCII capital letters and hyphens.
pub open spec fn upper_name(k: Seq<char>) -> bool {
    forall|j: int| 0 <= j < k.len() ==> ('A' <= #[trigger] k[j] && k[j] <= 'Z') || k[j] == '-'
}

/// Such a name is its own upper case.
pub proof fn lemma_upper_name(k: Seq<char>)
    requires
        upper_name(k),
    ensures
        upper_of(k) == k,
{
    assert(is_ascii_text(k));
    assert(ascii_upper(k) =~= k);
}

/// A property line written for a key and a value is one that reads back.
pub proof fn lemma_prop_line_good(k: Seq<char>, v: Seq<char>)
    requires
        line_carries(k, v),
    ensures
        good_line(prop_line(k, v)),
{
    reveal_strlit(":");
    let l = prop_line(k, v);
    assert(l == k + seq![':'] + v);
    assert forall|j: int| 0 <= j < l.len() implies l[j] != '\r' && l[j] != '\n' by {
        if j < k.len() {
            assert(l[j] == k[j]);
        } else if j == k.len() {
            assert(l[j] == ':');
        } else {
            assert(l[j] == v[j - k.len() - 1]);
        }
    }
    if k.len() > 0 {
        assert(l[0] == k[0]);
    } else {
        assert(l[0] == ':');
    }
}

/// What `lookup` gives after appending an entry.
pub proof fn lemma_lookup_push(m: PropsModel, e: (Seq<char>, Seq<char>), k: Seq<char>)
    ensures
        lookup(m.push(e), k) == (match lookup(m, k) {
            Some(v) => Some(v),
            None => if e.0 == k {
                Some(e.1)
            } else {
                None
            },
        }),
    decreases m.len(),
{
    if m.len() == 0 {
        let e0 = Seq::<(Seq<char>, Seq<char>)>::empty();
        assert(m.push(e).drop_first() =~= e0);
        assert(m.push(e)[0] == e);
        assert(lookup(e0, k) is None);
    } else {
        assert(m.push(e).drop_first() =~= m.drop_first().push(e));
        assert(m.push(e)[0] == m[0]);
        lemma_lookup_push(m.drop_first(), e, k);
    }
}

/// The lines of the listed names read into `m0`.
pub proof fn lemma_read_fixed(m0: PropsModel, m: PropsModel, ks: Seq<Seq<char>>)
    requires
        forall|j: int|
            0 <= j < ks.len() && (#[trigger] written_value(m, ks[j])) is Some ==> line_carries(
                ks[j],
                written_value(m, ks[j])->0,
            ) && upper_of(ks[j]) == ks[j],
    ensures
        forall|k: Seq<char>|
            #![trigger lookup(apply_lines(m0, crate::ical::fixed_lines(m, ks)), k)]
            lookup(apply_lines(m0, crate::ical::fixed_lines(m, ks)), k) == if ks.contains(k)
                && written_value(m, k) is Some {
                written_value(m, k)
            } else {
                lookup(m0, k)
            },
    decreases ks.len(),
{
    if ks.len() == 0 {
        let e = Seq::<Seq<char>>::empty();
        assert(crate::ical::fixed_lines(m, ks) =~= e);
    } else {
        let ks1 = ks.drop_last();
        let kl = ks.last();
        assert forall|j: int|
            0 <= j < ks1.len() && (#[trigger] written_value(m, ks1[j])) is Some implies line_carries(
            ks1[j],
            written_value(m, ks1[j])->0,
        ) && upper_of(ks1[j]) == ks1[j] by {
            assert(ks1[j] == ks[j]);
        }
        lemma_read_fixed(m0, m, ks1);
        let f1 = crate::ical::fixed_lines(m, ks1);
        let r1 = apply_lines(m0, f1);
        assert(ks[ks.len() - 1] == kl);
        if written_value(m, kl) is Some {
            let v = written_value(m, kl)->0;
            assert(crate::ical::fixed_lines(m, ks) == f1.push(prop_line(kl, v)));
            lemma_apply_lines_push(m0, f1, prop_line(kl, v));
            lemma_apply_prop_line(r1, kl, v);
            assert forall|k: Seq<char>|
                #![trigger lookup(apply_lines(m0, crate::ical::fixed_lines(m, ks)), k)]
                lookup(apply_lines(m0, crate::ical::fixed_lines(m, ks)), k) == if ks.contains(k)
                    && written_value(m, k) is Some {
                    written_value(m, k)
                } else {
                    lookup(m0, k)
                } by {
                lemma_lookup_insert(r1, kl, v, k);
                if k != kl {
                    assert(ks.contains(k) == ks1.contains(k)) by {
                        if ks.contains(k) {
                            let j = choose|j: int| 0 <= j < ks.len() && ks[j] == k;
                            assert(ks1[j] == ks[j]);
                        }
                        if ks1.contains(k) {
                            let j = choose|j: int| 0 <= j < ks1.len() && ks1[j] == k;
                            assert(ks[j] == ks1[j]);
                        }
                    }
                    assert(lookup(r1, k) == lookup(apply_lines(m0, f1), k));
                } else {
                    assert(ks.contains(k));
                }
            }
        } else {
            assert(crate::ical::fixed_lines(m, ks) == f1);
            assert forall|k: Seq<char>|
                #![trigger lookup(apply_lines(m0, crate::ical::fixed_lines(m, ks)), k)]
                lookup(apply_lines(m0, crate::ical::fixed_lines(m, ks)), k) == if ks.contains(k)
                    && written_value(m, k) is Some {
                    written_value(m, k)
                } else {
                    lookup(m0, k)
                } by {
                assert(lookup(r1, k) == lookup(apply_lines(m0, f1), k));
                if k != kl {
                    assert(ks.contains(k) == ks1.contains(k)) by {
                        if ks.contains(k) {
                            let j = choose|j: int| 0 <= j < ks.len() && ks[j] == k;
                            assert(ks1[j] == ks[j]);
                        }
                        if ks1.contains(k) {
                            let j = choose|j: int| 0 <= j < ks1.len() && ks1[j] == k;
                            assert(ks[j] == ks1[j]);
                        }
                    }
                }
            }
        }
    }
}

/// The lines of the listed names are good lines without the END marker.
pub proof fn lemma_fixed_good(m: PropsModel, ks: Seq<Seq<char>>, em: Seq<char>)
    requires
        forall|j: int|
            0 <= j < ks.len() && (#[trigger] written_value(m, ks[j])) is Some ==> line_carries(
                ks[j],
                written_value(m, ks[j])->0,
            ) && !has_text(prop_line(ks[j], written_value(m, ks[j])->0), em),
    ensures
        forall|i: int|
            0 <= i < crate::ical::fixed_lines(m, ks).len() ==> good_line(
                #[trigger] crate::ical::fixed_lines(m, ks)[i],
            ) && !has_text(crate::ical::fixed_lines(m, ks)[i], em),
    decreases ks.len(),
{
    if ks.len() > 0 {
        let ks1 = ks.drop_last();
        assert forall|j: int|
            0 <= j < ks1.len() && (#[trigger] written_value(m, ks1[j])) is Some implies line_carries(
            ks1[j],
            written_value(m, ks1[j])->0,
        ) && !has_text(prop_line(ks1[j], written_value(m, ks1[j])->0), em) by {
            assert(ks1[j] == ks[j]);
        }
        lemma_fixed_good(m, ks1, em);
        let f1 = crate::ical::fixed_lines(m, ks1);
        let kl = ks.last();
        assert(ks[ks.len() - 1] == kl);
        if written_value(m, kl) is Some {
            let v = written_value(m, kl)->0;
            lemma_prop_line_good(kl, v);
            assert(crate::ical::fixed_lines(m, ks) == f1.push(prop_line(kl, v)));
            assert forall|i: int| 0 <= i < crate::ical::fixed_lines(m, ks).len() implies good_line(
                #[trigger] crate::ical::fixed_lines(m, ks)[i],
            ) && !has_text(crate::ical::fixed_lines(m, ks)[i], em) by {
                if i < f1.len() {
                    assert(crate::ical::fixed_lines(m, ks)[i] == f1[i]);
                }
            }
        } else {
            assert(crate::ical::fixed_lines(m, ks) == f1);
        }
    }
}

/// A name is in a concatenation of lists exactly where it is in one of them.
pub proof fn lemma_contains_concat(a: Seq<Seq<char>>, b: Seq<Seq<char>>, k: Seq<char>)
    ensures
        (a + b).contains(k) <==> a.contains(k) || b.contains(k),
{
    if (a + b).contains(k) {
        let j = choose|j: int| 0 <= j < (a + b).len() && (a + b)[j] == k;
        if j < a.len() {
            assert(a[j] == k);
        } else {
            assert(b[j - a.len()] == k);
        }
    }
    if a.contains(k) {
        let j = choose|j: int| 0 <= j < a.len() && a[j] == k;
        assert((a + b)[j] == k);
    }
    if b.contains(k) {
        let j = choose|j: int| 0 <= j < b.len() && b[j] == k;
        assert((a + b)[a.len() + j] == k);
    }
}

/// A component written with `component_text` and read back: what the lines
/// `mid` after the `BEGIN:` line give, then the `kept` lines, then the lines
/// of the listed names.
pub proof fn lemma_component_reads_back(
    pre: Seq<Seq<char>>,
    c: Seq<char>,
    mid: Seq<Seq<char>>,
    post: Seq<Seq<char>>,
    keys: Seq<Seq<char>>,
    kept: Seq<Seq<char>>,
    m: PropsModel,
)
    requires
        writes_back(m, keys, c),
        forall|i: int| 0 <= i < kept.len() ==> good_line(#[trigger] kept[i]) && !has_text(
            kept[i],
            end_marker(c),
        ),
        well_formed_lines(pre + seq![begin_marker(c)] + mid + seq![end_marker(c)] + post),
        forall|i: int| 0 <= i < pre.len() ==> !has_text(#[trigger] pre[i], begin_marker(c)),
        forall|i: int| 0 <= i < mid.len() ==> !has_text(#[trigger] mid[i], end_marker(c)),
    ensures
        component_props(
            crate::ical::component_text(
                pre + seq![begin_marker(c)] + mid,
                keys,
                kept,
                seq![end_marker(c)] + post,
                m,
            ),
            c,
        ) == apply_lines(
            apply_lines(apply_lines(Seq::empty(), mid), kept),
            crate::ical::fixed_lines(m, keys),
        ),
{
    let bm = begin_marker(c);
    let em = end_marker(c);
    let f = crate::ical::fixed_lines(m, keys);
    let x = kept;
    let s1 = pre + seq![bm] + mid;
    let s2 = seq![em] + post;
    let st = pre + seq![bm] + mid + seq![em] + post;
    assert(st =~= s1 + s2);
    lemma_fixed_good(m, keys, em);
    let fe = x + f;
    let ys = mid + fe;
    let ls = pre + seq![bm] + ys + seq![em] + post;
    assert(s1 + fe + s2 =~= ls);
    assert(crate::ical::component_text(s1, keys, x, s2, m) == join_lines(ls, crlf())) by {
        assert(s1 + x + f + s2 =~= ls);
    }
    assert(well_formed_lines(ls)) by {
        assert forall|i: int| 0 <= i < ls.len() implies clean_line(#[trigger] ls[i]) by {
            if i < s1.len() {
                assert(ls[i] == st[i]);
            } else if i < s1.len() + fe.len() {
                assert(ls[i] == fe[i - s1.len()]);
                if i - s1.len() < x.len() {
                    assert(fe[i - s1.len()] == x[i - s1.len()]);
                } else {
                    assert(fe[i - s1.len()] == f[i - s1.len() - x.len()]);
                }
            } else {
                assert(ls[i] == st[i - fe.len()]);
            }
        }
        assert forall|i: int| 1 <= i < ls.len() implies (#[trigger] ls[i]).len() > 0 && ls[i][0]
            != ' ' && ls[i][0] != '\t' by {
            if i < s1.len() {
                assert(ls[i] == st[i]);
            } else if i < s1.len() + fe.len() {
                assert(ls[i] == fe[i - s1.len()]);
                if i - s1.len() < x.len() {
                    assert(fe[i - s1.len()] == x[i - s1.len()]);
                } else {
                    assert(fe[i - s1.len()] == f[i - s1.len() - x.len()]);
                }
            } else {
                assert(ls[i] == st[i - fe.len()]);
            }
        }
    }
    assert forall|i: int| 0 <= i < ys.len() implies !has_text(#[trigger] ys[i], em) by {
        if i < mid.len() {
            assert(ys[i] == mid[i]);
        } else if i < mid.len() + x.len() {
            assert(ys[i] == x[i - mid.len()]);
        } else {
            assert(ys[i] == f[i - mid.len() - x.len()]);
        }
    }
    lemma_read_written(pre, c, ys, post);
    assert(ys =~= (mid + x) + f);
    lemma_apply_lines_concat(Seq::empty(), mid + x, f);
    lemma_apply_lines_concat(Seq::empty(), mid, x);
}

/// Reading one line stores under its name (see `line_key`), or nothing.
pub proof fn lemma_apply_line_key(m: PropsModel, l: Seq<char>)
    ensures
        apply_line(m, l) == (match crate::ical::line_key(trim(l)) {
            Some(k) => insert(m, k, trim(l).skip((next_char_at(trim(l), ':', 0) + 1) as int)),
            None => m,
        }),
{
}

/// Lines none of which is stored under `k` leave what is stored under `k`.
pub proof fn lemma_lines_leave_key(m: PropsModel, ls: Seq<Seq<char>>, k: Seq<char>)
    requires
        forall|i: int| 0 <= i < ls.len() ==> crate::ical::line_key(trim(#[trigger] ls[i])) != Some(k),
    ensures
        lookup(apply_lines(m, ls), k) == lookup(m, k),
    decreases ls.len(),
{
    if ls.len() > 0 {
        lemma_apply_line_key(m, ls[0]);
        let m1 = apply_line(m, ls[0]);
        match crate::ical::line_key(trim(ls[0])) {
            Some(k0) => {
                lemma_lookup_insert(m, k0, trim(ls[0]).skip((next_char_at(trim(ls[0]), ':', 0) + 1) as int), k);
            },
            None => {},
        }
        assert forall|i: int| 0 <= i < ls.drop_first().len() implies crate::ical::line_key(
            trim(#[trigger] ls.drop_first()[i]),
        ) != Some(k) by {
            assert(ls.drop_first()[i] == ls[i + 1]);
        }
        lemma_lines_leave_key(m1, ls.drop_first(), k);
    }
}

/// The same lines read into two maps that agree on `k` agree on `k`.
pub proof fn lemma_lines_same_key(a: PropsModel, b: PropsModel, ls: Seq<Seq<char>>, k: Seq<char>)
    requires
        lookup(a, k) == lookup(b, k),
    ensures
        lookup(apply_lines(a, ls), k) == lookup(apply_lines(b, ls), k),
    decreases ls.len(),
{
    if ls.len() > 0 {
        lemma_apply_line_key(a, ls[0]);
        lemma_apply_line_key(b, ls[0]);
        match crate::ical::line_key(trim(ls[0])) {
            Some(k0) => {
                let v = trim(ls[0]).skip((next_char_at(trim(ls[0]), ':', 0) + 1) as int);
                lemma_lookup_insert(a, k0, v, k);
                lemma_lookup_insert(b, k0, v, k);
            },
            None => {},
        }
        lemma_lines_same_key(apply_line(a, ls[0]), apply_line(b, ls[0]), ls.drop_first(), k);
    }
}

/// The first character left by `trim_start` is not white space.
proof fn lemma_trim_start_first(s: Seq<char>)
    ensures
        trim_start(s).len() > 0 ==> !is_white_space(trim_start(s)[0]),
    decreases s.len(),
{
    if s.len() > 0 && is_white_space(s[0]) {
        lemma_trim_start_first(s.drop_first());
    }
}

/// `trim_end` keeps a prefix, whose last character is not white space.
proof fn lemma_trim_end_prefix(x: Seq<char>)
    ensures
        trim_end(x).len() <= x.len(),
        trim_end(x) == x.take(trim_end(x).len() as int),
        trim_end(x).len() > 0 ==> !is_white_space(trim_end(x).last()),
    decreases x.len(),
{
    if x.len() > 0 && is_white_space(x.last()) {
        lemma_trim_end_prefix(x.drop_last());
        assert(trim_end(x) == trim_end(x.drop_last()));
        assert(x.drop_last().take(trim_end(x).len() as int) =~= x.take(trim_end(x).len() as int));
    } else {
        assert(x.take(x.len() as int) =~= x);
    }
}

/// A trimmed text begins and ends with other than white space, and trimming
/// it again leaves it as it is.
pub proof fn lemma_trimmed(s: Seq<char>)
    ensures
        trim(s).len() > 0 ==> !is_white_space(trim(s)[0]) && !is_white_space(trim(s).last()),
        trim(trim(s)) == trim(s),
{
    let t = trim(s);
    lemma_trim_start_first(s);
    lemma_trim_end_prefix(trim_start(s));
    if t.len() > 0 {
        assert(t == trim_start(s).take(t.len() as int));
        assert(t[0] == trim_start(s)[0]);
        assert(trim_start(t) == t);
        assert(trim_end(t) == t);
    } else {
        assert(trim_start(t) == t);
        assert(trim_end(t) == t);
    }
}

/// Where `find_from` finds nothing, `pat` occurs at no position from `i` on.
pub proof fn lemma_find_none(s: Seq<char>, pat: Seq<char>, i: nat)
    requires
        find_from(s, pat, i) is None,
    ensures
        forall|p: int| i <= p ==> !occurs_at(s, pat, p),
    decreases s.len() + 1 - i,
{
    if i + pat.len() <= s.len() {
        lemma_find_none(s, pat, i + 1);
    }
}

/// Every kept line is a good line without the `end` marker, and is its own
/// trimmed form.
pub proof fn lemma_kept_good(ls: Seq<Seq<char>>, d: nat, listed: Seq<Seq<char>>, end: Seq<char>)
    ensures
        forall|i: int|
            0 <= i < crate::ical::kept_from(ls, d, listed, end).len() ==> good_line(
                #[trigger] crate::ical::kept_from(ls, d, listed, end)[i],
            ) && !has_text(crate::ical::kept_from(ls, d, listed, end)[i], end) && trim(
                crate::ical::kept_from(ls, d, listed, end)[i],
            ) == crate::ical::kept_from(ls, d, listed, end)[i],
    decreases ls.len(),
{
    if ls.len() > 0 {
        let t = trim(ls[0]);
        let rest = ls.drop_first();
        lemma_kept_good(rest, d + 1, listed, end);
        lemma_kept_good(rest, d, listed, end);
        if d > 0 {
            lemma_kept_good(rest, (d - 1) as nat, listed, end);
        }
        let r = crate::ical::kept_from(ls, d, listed, end);
        let k0 = crate::ical::kept_from(rest, d, listed, end);
        let k1 = crate::ical::kept_from(rest, d + 1, listed, end);
        let km = crate::ical::kept_from(rest, (d - 1) as nat, listed, end);
        assert(r == k0 || r == seq![t] + k0 || r == seq![t] + k1 || r == seq![t] + km);
        if r != k0 {
            lemma_trimmed(ls[0]);
            lemma_find_none(t, end, 0);
            assert(is_white_space(' ') && is_white_space('\t'));
            assert(good_line(t) && !has_text(t, end) && trim(t) == t);
        }
        assert forall|i: int| 0 <= i < r.len() implies good_line(#[trigger] r[i]) && !has_text(
            r[i],
            end,
        ) && trim(r[i]) == r[i] by {
            if r == k0 {
            } else if i == 0 {
                assert(r[0] == t);
            } else if r == seq![t] + k0 {
                assert(r[i] == k0[i - 1]);
            } else if r == seq![t] + k1 {
                assert(r[i] == k1[i - 1]);
            } else {
                assert(r[i] == km[i - 1]);
            }
        }
    }
}

/// Reading the kept lines gives a name that is neither listed nor `BEGIN`
/// or `END` what reading all the lines gives it, where every line trims to
/// a clean line without the `end` marker.
pub proof fn lemma_kept_same(
    a: PropsModel,
    b: PropsModel,
    ls: Seq<Seq<char>>,
    d: nat,
    listed: Seq<Seq<char>>,
    end: Seq<char>,
    k: Seq<char>,
)
    requires
        lookup(a, k) == lookup(b, k),
        !listed.contains(k),
        k != "BEGIN"@,
        k != "END"@,
        forall|i: int|
            0 <= i < ls.len() ==> clean_line(trim(#[trigger] ls[i])) && crate::text::find(
                trim(ls[i]),
                end,
            ) is None,
    ensures
        lookup(apply_lines(a, crate::ical::kept_from(ls, d, listed, end)), k) == lookup(
            apply_lines(b, ls),
            k,
        ),
    decreases ls.len(),
{
    if ls.len() > 0 {
        let t = trim(ls[0]);
        let rest = ls.drop_first();
        assert forall|i: int| 0 <= i < rest.len() implies clean_line(trim(#[trigger] rest[i]))
            && crate::text::find(trim(rest[i]), end) is None by {
            assert(rest[i] == ls[i + 1]);
        }
        lemma_trimmed(ls[0]);
        lemma_apply_line_key(b, ls[0]);
        lemma_apply_line_key(a, t);
        let b1 = apply_line(b, ls[0]);
        let a1 = apply_line(a, t);
        let val = t.skip((next_char_at(t, ':', 0) + 1) as int);
        match crate::ical::line_key(t) {
            Some(k0) => {
                lemma_lookup_insert(a, k0, val, k);
                lemma_lookup_insert(b, k0, val, k);
            },
            None => {},
        }
        assert(lookup(a1, k) == lookup(b1, k));
        assert(apply_lines(b, ls) == apply_lines(b1, rest));
        let r = crate::ical::kept_from(ls, d, listed, end);
        let dropped = t.len() == 0 || !clean_line(t) || crate::text::find(t, end) is Some || (
        crate::ical::line_key(t) != Some("BEGIN"@) && d == 0 && match crate::ical::line_key(t) {
            Some(k1) => k1 == "END"@ || listed.contains(k1),
            None => true,
        });
        if dropped {
            assert(r == crate::ical::kept_from(rest, d, listed, end));
            assert(lookup(a, k) == lookup(b1, k));
            lemma_kept_same(a, b1, rest, d, listed, end, k);
        } else {
            let d2: nat = if crate::ical::line_key(t) == Some("BEGIN"@) {
                d + 1
            } else if d > 0 && crate::ical::line_key(t) == Some("END"@) {
                (d - 1) as nat
            } else {
                d
            };
            let k2 = crate::ical::kept_from(rest, d2, listed, end);
            assert(r == seq![t] + k2);
            assert((seq![t] + k2)[0] == t);
            assert((seq![t] + k2).drop_first() =~= k2);
            assert(apply_lines(a, r) == apply_lines(a1, k2));
            lemma_kept_same(a1, b1, rest, d2, listed, end, k);
        }
    }
}

} // verus!
