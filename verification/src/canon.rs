//! Canonical form of an N-Triples response body.
//!
//! Two store states are considered equal iff their canonical forms are equal:
//! every line is trimmed, the lines are sorted, and each line is terminated by
//! a single newline.

use vstd::prelude::*;

verus! {

/// Whitespace stripped from the ends of a line.
pub open spec fn line_ws(c: char) -> bool {
    c == ' ' || c == '\t' || c == '\r'
}

/// The lines of `s`: segments split at `'\n'`, a trailing segment only if
/// it is non-empty (so a final newline does not produce an empty line).
pub open spec fn lines_spec(s: Seq<char>) -> Seq<Seq<char>>
    decreases s.len(),
{
    if s.len() == 0 {
        Seq::empty()
    } else if s[0] == '\n' {
        seq![Seq::empty()] + lines_spec(s.drop_first())
    } else {
        let rest = lines_spec(s.drop_first());
        if rest.len() == 0 {
            seq![seq![s[0]]]
        } else {
            seq![seq![s[0]] + rest[0]] + rest.drop_first()
        }
    }
}

/// `l` without leading whitespace.
pub open spec fn trim_start_spec(l: Seq<char>) -> Seq<char>
    decreases l.len(),
{
    if l.len() > 0 && line_ws(l[0]) {
        trim_start_spec(l.drop_first())
    } else {
        l
    }
}

/// `l` without trailing whitespace.
pub open spec fn trim_end_spec(l: Seq<char>) -> Seq<char>
    decreases l.len(),
{
    if l.len() > 0 && line_ws(l.last()) {
        trim_end_spec(l.drop_last())
    } else {
        l
    }
}

/// `l` without leading and trailing whitespace.
pub open spec fn trim_spec(l: Seq<char>) -> Seq<char> {
    trim_end_spec(trim_start_spec(l))
}

/// Lexicographic order on character sequences, by unicode scalar value.
pub open spec fn lex_leq(a: Seq<char>, b: Seq<char>) -> bool
    decreases a.len(),
{
    if a.len() == 0 {
        true
    } else if b.len() == 0 {
        false
    } else if a[0] == b[0] {
        lex_leq(a.drop_first(), b.drop_first())
    } else {
        (a[0] as int) < (b[0] as int)
    }
}

/// The order used to sort canonical lines, as a function value.
pub open spec fn line_order() -> spec_fn(Seq<char>, Seq<char>) -> bool {
    |a: Seq<char>, b: Seq<char>| lex_leq(a, b)
}

/// The trimming map, as a function value.
pub open spec fn trim_map() -> spec_fn(Seq<char>) -> Seq<char> {
    |l: Seq<char>| trim_spec(l)
}

/// The lexicographic order relates every sequence to itself.
proof fn lemma_lex_leq_refl(a: Seq<char>)
    ensures
        lex_leq(a, a),
    decreases a.len(),
{
    if a.len() > 0 {
        lemma_lex_leq_refl(a.drop_first());
    }
}

/// Any two sequences are related one way or the other.
proof fn lemma_lex_leq_connected(a: Seq<char>, b: Seq<char>)
    ensures
        lex_leq(a, b) || lex_leq(b, a),
    decreases a.len(),
{
    if a.len() > 0 && b.len() > 0 && a[0] == b[0] {
        lemma_lex_leq_connected(a.drop_first(), b.drop_first());
    }
}

/// Sequences related both ways are equal.
proof fn lemma_lex_leq_antisym(a: Seq<char>, b: Seq<char>)
    requires
        lex_leq(a, b),
        lex_leq(b, a),
    ensures
        a == b,
    decreases a.len(),
{
    if a.len() == 0 {
        assert(b.len() == 0);
        assert(a =~= b);
    } else {
        assert(b.len() > 0);
        assert(a[0] == b[0]);
        lemma_lex_leq_antisym(a.drop_first(), b.drop_first());
        assert(a =~= b) by {
            assert(a.len() == b.len());
            assert(forall|i: int|
                1 <= i < a.len() ==> a[i] == a.drop_first()[i - 1] && b[i] == b.drop_first()[i
                    - 1]);
        }
    }
}

/// The lexicographic order is transitive.
proof fn lemma_lex_leq_trans(a: Seq<char>, b: Seq<char>, c: Seq<char>)
    requires
        lex_leq(a, b),
        lex_leq(b, c),
    ensures
        lex_leq(a, c),
    decreases a.len(),
{
    if a.len() > 0 {
        assert(b.len() > 0);
        assert(c.len() > 0);
        if a[0] == b[0] && b[0] == c[0] {
            lemma_lex_leq_trans(a.drop_first(), b.drop_first(), c.drop_first());
        }
    }
}

/// The line order is a total order, as vstd's sorting lemmas require.
pub proof fn lemma_line_order_total()
    ensures
        vstd::relations::total_ordering(line_order()),
{
    let leq = line_order();
    assert forall|a: Seq<char>| #[trigger] leq(a, a) by {
        lemma_lex_leq_refl(a);
    }
    assert forall|a: Seq<char>, b: Seq<char>| #![trigger leq(a, b)] leq(a, b) || leq(b, a) by {
        lemma_lex_leq_connected(a, b);
    }
    assert forall|a: Seq<char>, b: Seq<char>| #[trigger] leq(a, b) && #[trigger] leq(b, a)
        implies a == b by {
        lemma_lex_leq_antisym(a, b);
    }
    assert forall|a: Seq<char>, b: Seq<char>, c: Seq<char>|
        #[trigger] leq(a, b) && #[trigger] leq(b, c) implies leq(a, c) by {
        lemma_lex_leq_trans(a, b, c);
    }
}

/// Skipping a shared first character does not change the order.
proof fn lemma_lex_leq_skip(a: Seq<char>, b: Seq<char>, i: int)
    requires
        0 <= i < a.len(),
        i < b.len(),
        a[i] == b[i],
    ensures
        lex_leq(a.skip(i), b.skip(i)) == lex_leq(a.skip(i + 1), b.skip(i + 1)),
{
    let sa = a.skip(i);
    let sb = b.skip(i);
    assert(sa[0] == a[i]);
    assert(sb[0] == b[i]);
    assert(sa.drop_first() =~= a.skip(i + 1));
    assert(sb.drop_first() =~= b.skip(i + 1));
}

/// Decides `lex_leq` on two strings.
fn lex_leq_str(a: &str, b: &str) -> (r: bool)
    ensures
        r == lex_leq(a@, b@),
{
    let an = a.unicode_len();
    let bn = b.unicode_len();
    let mut i: usize = 0;
    proof {
        assert(a@.skip(0) =~= a@);
        assert(b@.skip(0) =~= b@);
    }
    while i < an && i < bn
        invariant
            i <= an,
            i <= bn,
            an == a@.len(),
            bn == b@.len(),
            lex_leq(a@, b@) == lex_leq(a@.skip(i as int), b@.skip(i as int)),
        decreases an - i,
    {
        let ca = a.get_char(i);
        let cb = b.get_char(i);
        if ca == cb {
            proof {
                lemma_lex_leq_skip(a@, b@, i as int);
            }
            i = i + 1;
        } else {
            proof {
                let sa = a@.skip(i as int);
                let sb = b@.skip(i as int);
                assert(sa[0] == a@[i as int]);
                assert(sb[0] == b@[i as int]);
                assert(sa.len() > 0 && sb.len() > 0);
            }
            let r = (ca as u32) < (cb as u32);
            proof {
                assert(r == ((a@[i as int] as int) < (b@[i as int] as int)));
            }
            return r;
        }
    }
    proof {
        let sa = a@.skip(i as int);
        let sb = b@.skip(i as int);
        if i == an {
            assert(sa.len() == 0);
        } else {
            assert(sa.len() > 0);
            assert(sb.len() == 0);
        }
    }
    i >= an
}

/// Concatenation of `ls` with a newline after every line.
pub open spec fn join_spec(ls: Seq<Seq<char>>) -> Seq<char>
    decreases ls.len(),
{
    if ls.len() == 0 {
        Seq::empty()
    } else {
        ls[0] + seq!['\n'] + join_spec(ls.drop_first())
    }
}

/// The canonical form: lines trimmed, sorted, each terminated by a newline.
pub open spec fn canon_spec(s: Seq<char>) -> Seq<char> {
    join_spec(lines_spec(s).map_values(trim_map()).sort_by(line_order()))
}

/// A sequence without newlines is a single line (or no line at all, if empty).
proof fn lemma_lines_single(a: Seq<char>)
    requires
        !a.contains('\n'),
    ensures
        a.len() == 0 ==> lines_spec(a) == Seq::<Seq<char>>::empty(),
        a.len() > 0 ==> lines_spec(a) =~= seq![a],
    decreases a.len(),
{
    if a.len() > 0 {
        assert(a[0] != '\n');
        assert(!a.drop_first().contains('\n')) by {
            if a.drop_first().contains('\n') {
                let i = choose|i: int|
                    0 <= i < a.drop_first().len() && a.drop_first()[i] == '\n';
                assert(a[i + 1] == '\n');
            }
        }
        lemma_lines_single(a.drop_first());
        if a.len() == 1 {
            assert(a.drop_first().len() == 0);
            assert(lines_spec(a.drop_first()).len() == 0);
            assert(seq![a[0]] =~= a);
            assert(lines_spec(a) =~= seq![a]);
        } else {
            let rest = lines_spec(a.drop_first());
            assert(rest =~= seq![a.drop_first()]);
            assert(rest[0] == a.drop_first());
            assert(seq![a[0]] + a.drop_first() =~= a);
            assert(rest.drop_first() =~= Seq::<Seq<char>>::empty());
            assert(lines_spec(a) =~= seq![a]);
        }
    }
}

/// Splitting off the first line: a newline after a newline-free prefix
/// separates that prefix from the lines of the remainder.
proof fn lemma_lines_decompose(a: Seq<char>, rest: Seq<char>)
    requires
        !a.contains('\n'),
    ensures
        lines_spec(a + seq!['\n'] + rest) =~= seq![a] + lines_spec(rest),
    decreases a.len(),
{
    let s = a + seq!['\n'] + rest;
    if a.len() == 0 {
        assert(s[0] == '\n');
        assert(s.drop_first() =~= rest);
        assert(a =~= Seq::<char>::empty());
        assert(lines_spec(s) =~= seq![a] + lines_spec(rest));
    } else {
        assert(s[0] == a[0]);
        assert(a[0] != '\n');
        assert(!a.drop_first().contains('\n')) by {
            if a.drop_first().contains('\n') {
                let i = choose|i: int|
                    0 <= i < a.drop_first().len() && a.drop_first()[i] == '\n';
                assert(a[i + 1] == '\n');
            }
        }
        assert(s.drop_first() =~= a.drop_first() + seq!['\n'] + rest);
        lemma_lines_decompose(a.drop_first(), rest);
        let rest_lines = lines_spec(s.drop_first());
        assert(rest_lines =~= seq![a.drop_first()] + lines_spec(rest));
        assert(rest_lines.len() > 0);
        assert(seq![s[0]] + rest_lines[0] =~= a);
        assert(rest_lines.drop_first() =~= lines_spec(rest));
    }
}

/// No line produced by `lines_spec` contains a newline.
proof fn lemma_lines_no_nl(s: Seq<char>)
    ensures
        forall|i: int|
            0 <= i < lines_spec(s).len() ==> !(#[trigger] lines_spec(s)[i]).contains('\n'),
    decreases s.len(),
{
    if s.len() > 0 {
        lemma_lines_no_nl(s.drop_first());
        let rest = lines_spec(s.drop_first());
        if s[0] == '\n' {
            assert forall|i: int| 0 <= i < lines_spec(s).len() implies !(#[trigger] lines_spec(
                s,
            )[i]).contains('\n') by {
                if i == 0 {
                    assert(!Seq::<char>::empty().contains('\n'));
                } else {
                    assert(lines_spec(s)[i] == rest[i - 1]);
                }
            }
        } else {
            assert forall|i: int| 0 <= i < lines_spec(s).len() implies !(#[trigger] lines_spec(
                s,
            )[i]).contains('\n') by {
                if rest.len() == 0 {
                    assert(lines_spec(s)[i] =~= seq![s[0]]);
                    assert(!seq![s[0]].contains('\n'));
                } else if i == 0 {
                    let first = seq![s[0]] + rest[0];
                    assert(lines_spec(s)[0] == first);
                    assert(!rest[0].contains('\n'));
                    if first.contains('\n') {
                        let j = choose|j: int| 0 <= j < first.len() && first[j] == '\n';
                        assert(j > 0);
                        assert(rest[0][j - 1] == '\n');
                    }
                } else {
                    assert(lines_spec(s)[i] == rest[i]);
                }
            }
        }
    }
}

/// `trim_start_spec` keeps exactly the suffix from the first non-whitespace
/// character on.
proof fn lemma_trim_start_index(l: Seq<char>, a: int)
    requires
        0 <= a <= l.len(),
        forall|j: int| 0 <= j < a ==> line_ws(l[j]),
        a < l.len() ==> !line_ws(l[a]),
    ensures
        trim_start_spec(l) =~= l.subrange(a, l.len() as int),
    decreases a,
{
    if a == 0 {
        assert(l.subrange(0, l.len() as int) =~= l);
    } else {
        assert(line_ws(l[0]));
        let d = l.drop_first();
        lemma_trim_start_index(d, a - 1);
        assert(d.subrange(a - 1, d.len() as int) =~= l.subrange(a, l.len() as int));
    }
}

/// `trim_end_spec` keeps exactly the prefix up to the last non-whitespace
/// character.
proof fn lemma_trim_end_index(l: Seq<char>, b: int)
    requires
        0 <= b <= l.len(),
        forall|j: int| b <= j < l.len() ==> line_ws(l[j]),
        b > 0 ==> !line_ws(l[b - 1]),
    ensures
        trim_end_spec(l) =~= l.subrange(0, b),
    decreases l.len(),
{
    if b == l.len() {
        assert(l.subrange(0, l.len() as int) =~= l);
    } else {
        assert(line_ws(l.last()));
        let d = l.drop_last();
        lemma_trim_end_index(d, b);
        assert(d.subrange(0, b) =~= l.subrange(0, b));
    }
}

/// Trims leading and trailing whitespace, as `trim_spec` describes.
fn trim_str(line: &str) -> (r: String)
    ensures
        r@ == trim_spec(line@),
{
    let n = line.unicode_len();
    let mut a: usize = 0;
    while a < n && (line.get_char(a) == ' ' || line.get_char(a) == '\t' || line.get_char(a)
        == '\r')
        invariant
            a <= n,
            n == line@.len(),
            forall|j: int| 0 <= j < a ==> line_ws(line@[j]),
        decreases n - a,
    {
        a = a + 1;
    }
    if a == n {
        proof {
            lemma_trim_start_index(line@, a as int);
            assert(trim_start_spec(line@) =~= Seq::<char>::empty());
        }
        String::new()
    } else {
        let mut b: usize = n;
        while b > a && (line.get_char(b - 1) == ' ' || line.get_char(b - 1) == '\t'
            || line.get_char(b - 1) == '\r')
            invariant
                a <= b <= n,
                n == line@.len(),
                forall|j: int| b <= j < n ==> line_ws(line@[j]),
            decreases b,
        {
            b = b - 1;
        }
        proof {
            if b == a {
                assert(line_ws(line@[a as int]));
                assert(false);
            }
        }
        let r = line.substring_char(a, b).to_owned();
        proof {
            lemma_trim_start_index(line@, a as int);
            let t = line@.subrange(a as int, n as int);
            assert forall|j: int| (b - a) <= j < t.len() implies line_ws(t[j]) by {
                assert(t[j] == line@[a + j]);
            }
            assert(!line_ws(t[b - a - 1]));
            lemma_trim_end_index(t, b - a);
            assert(t.subrange(0, b - a) =~= line@.subrange(a as int, b as int));
        }
        r
    }
}

/// Splits `s` into its lines, as `lines_spec` describes.
pub(crate) fn split_lines(s: &str) -> (r: Vec<String>)
    ensures
        r.deep_view() == lines_spec(s@),
{
    let n = s.unicode_len();
    let mut r: Vec<String> = Vec::new();
    let mut start: usize = 0;
    let mut i: usize = 0;
    proof {
        assert(r.deep_view() =~= Seq::<Seq<char>>::empty());
        assert(s@.subrange(0, n as int) =~= s@);
        assert(lines_spec(s@) =~= r.deep_view() + lines_spec(s@.subrange(0, n as int)));
    }
    while i < n
        invariant
            start <= i <= n,
            n == s@.len(),
            forall|j: int| start <= j < i ==> s@[j] != '\n',
            lines_spec(s@) =~= r.deep_view() + lines_spec(s@.subrange(start as int, n as int)),
        decreases n - i,
    {
        let c = s.get_char(i);
        if c == '\n' {
            let line = s.substring_char(start, i).to_owned();
            proof {
                let a = s@.subrange(start as int, i as int);
                let rest = s@.subrange(i as int + 1, n as int);
                assert(!a.contains('\n')) by {
                    if a.contains('\n') {
                        let j = choose|j: int| 0 <= j < a.len() && a[j] == '\n';
                        assert(s@[start + j] == '\n');
                    }
                }
                assert(s@.subrange(start as int, n as int) =~= a + seq!['\n'] + rest);
                lemma_lines_decompose(a, rest);
                let old_dv = r.deep_view();
                assert(lines_spec(s@) =~= (old_dv + seq![a]) + lines_spec(rest));
            }
            let ghost old_dv = r.deep_view();
            r.push(line);
            proof {
                assert(r.deep_view() =~= old_dv + seq![s@.subrange(start as int, i as int)]);
            }
            start = i + 1;
        }
        i = i + 1;
    }
    proof {
        let tail = s@.subrange(start as int, n as int);
        assert(!tail.contains('\n')) by {
            if tail.contains('\n') {
                let j = choose|j: int| 0 <= j < tail.len() && tail[j] == '\n';
                assert(s@[start + j] == '\n');
            }
        }
        lemma_lines_single(tail);
    }
    if start < n {
        let line = s.substring_char(start, n).to_owned();
        let ghost old_dv = r.deep_view();
        r.push(line);
        proof {
            let tail = s@.subrange(start as int, n as int);
            assert(r.deep_view() =~= old_dv + seq![tail]);
            assert(r.deep_view() =~= lines_spec(s@));
        }
    }
    r
}

/// Inserting an element anywhere adds one occurrence to the multiset.
proof fn lemma_insert_to_multiset(s: Seq<Seq<char>>, i: int, x: Seq<char>)
    requires
        0 <= i <= s.len(),
    ensures
        s.insert(i, x).to_multiset() =~= s.to_multiset().insert(x),
{
    broadcast use vstd::seq_lib::group_to_multiset_ensures;
    broadcast use vstd::multiset::group_multiset_axioms;

    let t = s.insert(i, x);
    s.insert_ensures(i, x);
    assert(t.remove(i) =~= s);
    assert(t[i] == x);
    assert(s.to_multiset() =~= t.to_multiset().remove(x));
    assert(t.contains(x));
    assert(t.to_multiset().count(x) > 0);
    assert forall|y: Seq<char>|
        #[trigger] t.to_multiset().count(y) == s.to_multiset().insert(x).count(y) by {
        if y == x {
            assert(t.to_multiset().remove(x).count(x) == t.to_multiset().count(x) - 1);
        } else {
            assert(t.to_multiset().remove(x).count(y) == t.to_multiset().count(y));
        }
    }
}

/// Sorts the lines into the order that `sort_by(line_order())` describes.
fn sort_strings(v: &Vec<String>) -> (r: Vec<String>)
    ensures
        r.deep_view() == v.deep_view().sort_by(line_order()),
{
    let ghost dv = v.deep_view();
    let mut r: Vec<String> = Vec::new();
    let mut idx: usize = 0;
    proof {
        broadcast use vstd::seq_lib::group_to_multiset_ensures;

        assert(r.deep_view() =~= Seq::<Seq<char>>::empty());
        assert(dv.take(0) =~= Seq::<Seq<char>>::empty());
        assert(r.deep_view().to_multiset() =~= dv.take(0).to_multiset());
    }
    while idx < v.len()
        invariant
            idx <= v.len(),
            dv == v.deep_view(),
            v@.len() == dv.len(),
            r@.len() == r.deep_view().len(),
            vstd::relations::sorted_by(r.deep_view(), line_order()),
            r.deep_view().to_multiset() == dv.take(idx as int).to_multiset(),
        decreases v.len() - idx,
    {
        let x = v[idx].clone();
        proof {
            assert(x@ == dv[idx as int]);
        }
        let mut pos: usize = 0;
        while pos < r.len() && lex_leq_str(r[pos].as_str(), x.as_str())
            invariant
                pos <= r.len(),
                r@.len() == r.deep_view().len(),
                forall|j: int| 0 <= j < pos ==> lex_leq(#[trigger] r.deep_view()[j], x@),
            decreases r.len() - pos,
        {
            proof {
                assert(r.deep_view()[pos as int] == r@[pos as int]@);
            }
            pos = pos + 1;
        }
        let ghost old_dv = r.deep_view();
        let ghost leq = line_order();
        proof {
            if pos < r@.len() {
                assert(!lex_leq(old_dv[pos as int], x@));
                lemma_lex_leq_connected(old_dv[pos as int], x@);
                assert(lex_leq(x@, old_dv[pos as int]));
            }
        }
        r.insert(pos, x);
        proof {
            broadcast use vstd::seq_lib::group_to_multiset_ensures;

            old_dv.insert_ensures(pos as int, x@);
            assert(r.deep_view() =~= old_dv.insert(pos as int, x@));
            let new_dv = r.deep_view();
            assert forall|a: int, b: int| 0 <= a < b < new_dv.len() implies lex_leq(
                #[trigger] new_dv[a],
                #[trigger] new_dv[b],
            ) by {
                let pi = pos as int;
                if a < pi && b < pi {
                    assert(leq(old_dv[a], old_dv[b]));
                } else if a < pi && b == pi {
                    assert(lex_leq(old_dv[a], x@));
                } else if a < pi && b > pi {
                    assert(leq(old_dv[a], old_dv[b - 1]));
                } else if a == pi && b > pi {
                    assert(lex_leq(x@, old_dv[pi]));
                    if b - 1 > pi {
                        assert(leq(old_dv[pi], old_dv[b - 1]));
                        lemma_lex_leq_trans(x@, old_dv[pi], old_dv[b - 1]);
                    }
                } else {
                    assert(leq(old_dv[a - 1], old_dv[b - 1]));
                }
            }
            lemma_insert_to_multiset(old_dv, pos as int, x@);
            assert(dv.take(idx as int + 1) =~= dv.take(idx as int).push(dv[idx as int]));
            assert(dv.take(idx as int).push(dv[idx as int]).to_multiset() =~= dv.take(
                idx as int,
            ).to_multiset().insert(dv[idx as int]));
            assert(r.deep_view().to_multiset() =~= dv.take(idx as int + 1).to_multiset());
        }
        idx = idx + 1;
    }
    proof {
        lemma_line_order_total();
        assert(dv.take(dv.len() as int) =~= dv);
        dv.lemma_sort_by_ensures(line_order());
        vstd::seq_lib::lemma_sorted_unique(r.deep_view(), dv.sort_by(line_order()), line_order());
        assert(r.deep_view() =~= dv.sort_by(line_order()));
    }
    r
}

/// Appending one line extends the joined text by that line and a newline.
proof fn lemma_join_push(ls: Seq<Seq<char>>, x: Seq<char>)
    ensures
        join_spec(ls.push(x)) =~= join_spec(ls) + x + seq!['\n'],
    decreases ls.len(),
{
    if ls.len() == 0 {
        let t = ls.push(x);
        assert(t.len() == 1);
        assert(t[0] == x);
        assert(t.drop_first() =~= Seq::<Seq<char>>::empty());
        assert(t.drop_first() == Seq::<Seq<char>>::empty());
        assert(join_spec(Seq::<Seq<char>>::empty()) =~= Seq::<char>::empty());
        assert(join_spec(t) == t[0] + seq!['\n'] + join_spec(t.drop_first()));
        assert(join_spec(t) =~= x + seq!['\n']);
        assert(join_spec(ls) =~= Seq::<char>::empty());
    } else {
        assert(ls.push(x)[0] == ls[0]);
        assert(ls.push(x).drop_first() =~= ls.drop_first().push(x));
        lemma_join_push(ls.drop_first(), x);
        assert(join_spec(ls.push(x)) =~= ls[0] + seq!['\n'] + join_spec(ls.drop_first().push(x)));
        assert(join_spec(ls.drop_first().push(x)) =~= join_spec(ls.drop_first()) + x + seq!['\n']);
        assert(join_spec(ls) =~= ls[0] + seq!['\n'] + join_spec(ls.drop_first()));
    }
}

/// Joins the lines with a terminating newline each, as `join_spec` describes.
fn join_with_newlines(v: &Vec<String>) -> (r: String)
    ensures
        r@ == join_spec(v.deep_view()),
{
    let mut r = String::new();
    let mut i: usize = 0;
    proof {
        assert(v.deep_view().take(0) =~= Seq::<Seq<char>>::empty());
    }
    while i < v.len()
        invariant
            i <= v.len(),
            v@.len() == v.deep_view().len(),
            r@ == join_spec(v.deep_view().take(i as int)),
        decreases v.len() - i,
    {
        r.append(v[i].as_str());
        r.append("\n");
        proof {
            reveal_strlit("\n");
            assert("\n"@ =~= seq!['\n']);
            let dv = v.deep_view();
            assert(dv[i as int] == v@[i as int]@);
            lemma_join_push(dv.take(i as int), dv[i as int]);
            assert(dv.take(i as int + 1) =~= dv.take(i as int).push(dv[i as int]));
            assert(r@ =~= join_spec(dv.take(i as int + 1)));
        }
        i = i + 1;
    }
    proof {
        assert(v.deep_view().take(v@.len() as int) =~= v.deep_view());
    }
    r
}

/// Trims every line.
fn trim_lines(v: &Vec<String>) -> (r: Vec<String>)
    ensures
        r.deep_view() == v.deep_view().map_values(trim_map()),
{
    let mut r: Vec<String> = Vec::new();
    let mut i: usize = 0;
    proof {
        assert(r.deep_view() =~= v.deep_view().take(0).map_values(trim_map()));
    }
    while i < v.len()
        invariant
            i <= v.len(),
            v@.len() == v.deep_view().len(),
            r.deep_view() == v.deep_view().take(i as int).map_values(trim_map()),
        decreases v.len() - i,
    {
        let ghost old_dv = r.deep_view();
        let t = trim_str(v[i].as_str());
        r.push(t);
        proof {
            let dv = v.deep_view();
            assert(r.deep_view() =~= old_dv.push(trim_spec(dv[i as int])));
            assert(dv.take(i as int + 1) =~= dv.take(i as int).push(dv[i as int]));
            assert(dv.take(i as int + 1).map_values(trim_map()) =~= dv.take(
                i as int,
            ).map_values(trim_map()).push(trim_spec(dv[i as int])));
        }
        i = i + 1;
    }
    proof {
        assert(v.deep_view().take(v@.len() as int) =~= v.deep_view());
    }
    r
}

/// Canonicalizes a store state: trims every line, sorts the lines, and
/// terminates each by a single newline. Two states are considered equal iff
/// this form is byte-equal.
pub fn normalize_dbstate(state: String) -> (r: String)
    ensures
        r@ == canon_spec(state@),
{
    let lines = split_lines(state.as_str());
    let trimmed = trim_lines(&lines);
    let sorted = sort_strings(&trimmed);
    join_with_newlines(&sorted)
}

/// A trimmed-at-the-start line does not start with whitespace.
proof fn lemma_trim_start_head(l: Seq<char>)
    ensures
        trim_start_spec(l).len() > 0 ==> !line_ws(trim_start_spec(l)[0]),
    decreases l.len(),
{
    if l.len() > 0 && line_ws(l[0]) {
        lemma_trim_start_head(l.drop_first());
    }
}

/// A trimmed-at-the-end line does not end with whitespace.
proof fn lemma_trim_end_last(l: Seq<char>)
    ensures
        trim_end_spec(l).len() > 0 ==> !line_ws(trim_end_spec(l).last()),
    decreases l.len(),
{
    if l.len() > 0 && line_ws(l.last()) {
        lemma_trim_end_last(l.drop_last());
    }
}

/// Trimming the end keeps a prefix of the line.
proof fn lemma_trim_end_prefix(l: Seq<char>)
    ensures
        trim_end_spec(l).len() <= l.len(),
        forall|i: int| 0 <= i < trim_end_spec(l).len() ==> trim_end_spec(l)[i] == l[i],
    decreases l.len(),
{
    if l.len() > 0 && line_ws(l.last()) {
        let dl = l.drop_last();
        lemma_trim_end_prefix(dl);
        assert(trim_end_spec(l) == trim_end_spec(dl));
        assert forall|i: int| 0 <= i < trim_end_spec(l).len() implies trim_end_spec(l)[i]
            == l[i] by {
            assert(trim_end_spec(dl)[i] == dl[i]);
            assert(dl[i] == l[i]);
        }
    }
}

/// Every character of a trimmed line occurs in the line.
proof fn lemma_trim_chars(l: Seq<char>, c: char)
    requires
        trim_spec(l).contains(c),
    ensures
        l.contains(c),
    decreases l.len(),
{
    let t = trim_spec(l);
    let i = choose|i: int| 0 <= i < t.len() && t[i] == c;
    lemma_trim_end_prefix(trim_start_spec(l));
    assert(trim_start_spec(l)[i] == c);
    lemma_trim_start_suffix(l, c);
}

/// Every character of a start-trimmed line occurs in the line.
proof fn lemma_trim_start_suffix(l: Seq<char>, c: char)
    requires
        trim_start_spec(l).contains(c),
    ensures
        l.contains(c),
    decreases l.len(),
{
    if l.len() > 0 && line_ws(l[0]) {
        lemma_trim_start_suffix(l.drop_first(), c);
        let j = choose|j: int| 0 <= j < l.drop_first().len() && l.drop_first()[j] == c;
        assert(l[j + 1] == c);
    }
}

/// Trimming is idempotent.
proof fn lemma_trim_idempotent(l: Seq<char>)
    ensures
        trim_spec(trim_spec(l)) == trim_spec(l),
{
    let t = trim_spec(l);
    lemma_trim_start_head(l);
    lemma_trim_end_last(trim_start_spec(l));
    lemma_trim_end_prefix(trim_start_spec(l));
    if t.len() == 0 {
        assert(trim_start_spec(t) =~= t);
        assert(trim_end_spec(t) =~= t);
    } else {
        assert(t[0] == trim_start_spec(l)[0]);
        assert(trim_start_spec(l).len() > 0);
        assert(!line_ws(t[0]));
        assert(trim_start_spec(t) == t);
        assert(!line_ws(t.last()));
        assert(trim_end_spec(t) == t);
    }
}

/// Joining newline-free lines and splitting again gives the lines back.
proof fn lemma_lines_of_join(ls: Seq<Seq<char>>)
    requires
        forall|i: int| 0 <= i < ls.len() ==> !(#[trigger] ls[i]).contains('\n'),
    ensures
        lines_spec(join_spec(ls)) =~= ls,
    decreases ls.len(),
{
    if ls.len() > 0 {
        assert(forall|i: int|
            0 <= i < ls.drop_first().len() ==> !(#[trigger] ls.drop_first()[i]).contains('\n'));
        lemma_lines_of_join(ls.drop_first());
        lemma_lines_decompose(ls[0], join_spec(ls.drop_first()));
        assert(join_spec(ls) == ls[0] + seq!['\n'] + join_spec(ls.drop_first()));
        assert(lines_spec(join_spec(ls)) =~= seq![ls[0]] + ls.drop_first());
        assert(seq![ls[0]] + ls.drop_first() =~= ls);
    }
}

/// Canonicalization is idempotent: canonicalizing a canonical state changes
/// nothing.
pub proof fn lemma_canon_idempotent(s: Seq<char>)
    ensures
        canon_spec(canon_spec(s)) == canon_spec(s),
{
    broadcast use vstd::seq_lib::group_to_multiset_ensures;

    let lines = lines_spec(s);
    let trimmed = lines.map_values(trim_map());
    lemma_line_order_total();
    trimmed.lemma_sort_by_ensures(line_order());
    let sorted = trimmed.sort_by(line_order());
    let out = join_spec(sorted);
    lemma_lines_no_nl(s);
    assert forall|i: int| 0 <= i < sorted.len() implies !(#[trigger] sorted[i]).contains('\n')
        && trim_spec(sorted[i]) == sorted[i] by {
        assert(sorted.contains(sorted[i]));
        assert(sorted.to_multiset().count(sorted[i]) > 0);
        assert(trimmed.to_multiset().count(sorted[i]) > 0);
        assert(trimmed.contains(sorted[i]));
        let j = choose|j: int| 0 <= j < trimmed.len() && trimmed[j] == sorted[i];
        assert(trimmed[j] == trim_spec(lines[j]));
        assert(!lines[j].contains('\n'));
        assert(!trim_spec(lines[j]).contains('\n')) by {
            if trim_spec(lines[j]).contains('\n') {
                lemma_trim_chars(lines[j], '\n');
            }
        }
        lemma_trim_idempotent(lines[j]);
    }
    lemma_lines_of_join(sorted);
    assert(lines_spec(out) == sorted);
    assert(lines_spec(out).map_values(trim_map()) =~= sorted);
    sorted.lemma_sort_by_ensures(line_order());
    vstd::seq_lib::lemma_sorted_unique(sorted.sort_by(line_order()), sorted, line_order());
    assert(canon_spec(out) == join_spec(sorted));
}

/// Mapping a function over permuted lines permutes the mapped lines.
proof fn lemma_map_values_multiset(
    a: Seq<Seq<char>>,
    b: Seq<Seq<char>>,
    f: spec_fn(Seq<char>) -> Seq<char>,
)
    requires
        a.to_multiset() == b.to_multiset(),
    ensures
        a.map_values(f).to_multiset() == b.map_values(f).to_multiset(),
    decreases a.len(),
{
    broadcast use vstd::seq_lib::group_to_multiset_ensures;
    broadcast use vstd::multiset::group_multiset_axioms;

    if a.len() == 0 {
        assert(a.to_multiset().len() == a.len());
        assert(b.to_multiset().len() == b.len());
        assert(b.len() == 0);
        assert(a.map_values(f) =~= Seq::<Seq<char>>::empty());
        assert(b.map_values(f) =~= Seq::<Seq<char>>::empty());
        assert(a.map_values(f).to_multiset() =~= b.map_values(f).to_multiset());
    } else {
        let x = a.last();
        let ai = a.len() - 1;
        assert(a.contains(x));
        assert(a.to_multiset().count(x) > 0);
        assert(b.to_multiset().count(x) > 0);
        assert(b.contains(x));
        let j = choose|j: int| 0 <= j < b.len() && b[j] == x;
        let a2 = a.remove(ai);
        let b2 = b.remove(j);
        assert(a2.to_multiset() == a.to_multiset().remove(x));
        assert(b2.to_multiset() == b.to_multiset().remove(x));
        lemma_map_values_multiset(a2, b2, f);
        assert(a.map_values(f).remove(ai) =~= a2.map_values(f));
        assert(b.map_values(f).remove(j) =~= b2.map_values(f));
        let am = a.map_values(f).to_multiset();
        let bm = b.map_values(f).to_multiset();
        assert(a.map_values(f).remove(ai).to_multiset() == am.remove(f(x)));
        assert(b.map_values(f).remove(j).to_multiset() == bm.remove(f(x)));
        assert(am.remove(f(x)) == bm.remove(f(x)));
        assert(a.map_values(f).contains(f(x))) by {
            assert(a.map_values(f)[ai] == f(x));
        }
        assert(b.map_values(f).contains(f(x))) by {
            assert(b.map_values(f)[j] == f(x));
        }
        assert(am.count(f(x)) > 0);
        assert(bm.count(f(x)) > 0);
        assert forall|y: Seq<char>| #[trigger] am.count(y) == bm.count(y) by {
            if y == f(x) {
                assert(am.remove(f(x)).count(y) == am.count(y) - 1);
                assert(bm.remove(f(x)).count(y) == bm.count(y) - 1);
            } else {
                assert(am.remove(f(x)).count(y) == am.count(y));
                assert(bm.remove(f(x)).count(y) == bm.count(y));
            }
        }
        assert(am =~= bm);
    }
}

/// Canonicalization is invariant under permutation of the lines: two states
/// whose lines are the same multiset canonicalize identically.
pub proof fn lemma_canon_permutation_invariant(x: Seq<char>, y: Seq<char>)
    requires
        lines_spec(x).to_multiset() == lines_spec(y).to_multiset(),
    ensures
        canon_spec(x) == canon_spec(y),
{
    lemma_map_values_multiset(lines_spec(x), lines_spec(y), trim_map());
    lemma_line_order_total();
    let tx = lines_spec(x).map_values(trim_map());
    let ty = lines_spec(y).map_values(trim_map());
    tx.lemma_sort_by_ensures(line_order());
    ty.lemma_sort_by_ensures(line_order());
    vstd::seq_lib::lemma_sorted_unique(
        tx.sort_by(line_order()),
        ty.sort_by(line_order()),
        line_order(),
    );
    assert(tx.sort_by(line_order()) == ty.sort_by(line_order()));
}

} // verus!
