//! Line-based diff between two canonical text renderings.
//!
//! The two inputs are split into lines at `'\n'`; a longest-common-subsequence
//! table aligns them, tagging every line as common to both sides, left-only,
//! or right-only. The rendering keeps common lines unprefixed and prefixes
//! left-only lines with `- ` and right-only lines with `+ `, each line
//! followed by a newline. The boolean result is true exactly when any
//! non-common line exists, which is exactly when the two line sequences
//! differ.

use crate::strutil::push_char;
use vstd::prelude::*;

verus! {

/// Index of the first `'\n'` in `s`, or `s.len()` when there is none.
pub open spec fn first_nl(s: Seq<char>) -> nat
    decreases s.len(),
{
    if s.len() == 0 {
        0
    } else if s[0] == '\n' {
        0
    } else {
        1 + first_nl(s.drop_first())
    }
}

/// `s` split at every `'\n'`: one more piece than there are newlines.
pub open spec fn spec_split_lines(s: Seq<char>) -> Seq<Seq<char>>
    decreases s.len(),
{
    let i = first_nl(s) as int;
    if i >= s.len() {
        seq![s]
    } else {
        seq![s.take(i)] + spec_split_lines(s.skip(i + 1))
    }
}

/// The lines concatenated back, each followed by a `'\n'`.
pub open spec fn spec_unlines(ls: Seq<Seq<char>>) -> Seq<char>
    decreases ls.len(),
{
    if ls.len() == 0 {
        Seq::empty()
    } else {
        ls[0] + seq!['\n'] + spec_unlines(ls.drop_first())
    }
}

proof fn lemma_first_nl_props(s: Seq<char>)
    ensures
        first_nl(s) <= s.len(),
        first_nl(s) < s.len() ==> s[first_nl(s) as int] == '\n',
        forall|j: int| 0 <= j < first_nl(s) ==> s[j] != '\n',
    decreases s.len(),
{
    if s.len() != 0 && s[0] != '\n' {
        lemma_first_nl_props(s.drop_first());
        assert(first_nl(s) == 1 + first_nl(s.drop_first()));
        assert(forall|j: int|
            1 <= j < first_nl(s) ==> s[j] == s.drop_first()[j - 1] && s.drop_first()[j - 1]
                != '\n');
    }
}

proof fn lemma_first_nl_found(s: Seq<char>, k: int)
    requires
        0 <= k < s.len(),
        s[k] == '\n',
        forall|j: int| 0 <= j < k ==> s[j] != '\n',
    ensures
        first_nl(s) == k,
    decreases k,
{
    if k > 0 {
        assert(forall|j: int| 0 <= j < k - 1 ==> s.drop_first()[j] == s[j + 1] && s[j + 1]
            != '\n');
        lemma_first_nl_found(s.drop_first(), k - 1);
    }
}

proof fn lemma_first_nl_none(s: Seq<char>)
    requires
        forall|j: int| 0 <= j < s.len() ==> s[j] != '\n',
    ensures
        first_nl(s) == s.len(),
    decreases s.len(),
{
    if s.len() != 0 {
        lemma_first_nl_none(s.drop_first());
    }
}

/// Splitting and joining round-trip: the lines of `s`, each closed with a
/// newline, concatenate to `s` followed by one final newline. In particular
/// splitting loses nothing, so equal line sequences come from equal strings.
pub proof fn lemma_unlines_split(s: Seq<char>)
    ensures
        spec_unlines(spec_split_lines(s)) == s.push('\n'),
    decreases s.len(),
{
    lemma_first_nl_props(s);
    let i = first_nl(s) as int;
    if i >= s.len() {
        assert(spec_split_lines(s) =~= seq![s]);
        assert(seq![s].len() == 1);
        assert(seq![s][0] == s);
        assert(seq![s].drop_first() =~= Seq::<Seq<char>>::empty());
        assert(spec_unlines(Seq::<Seq<char>>::empty()) == Seq::<char>::empty());
        assert(spec_unlines(seq![s]) =~= s + seq!['\n']);
        assert(s + seq!['\n'] =~= s.push('\n'));
    } else {
        let rest = s.skip(i + 1);
        lemma_unlines_split(rest);
        let ls = spec_split_lines(s);
        assert(ls == seq![s.take(i)] + spec_split_lines(rest));
        assert(ls.drop_first() =~= spec_split_lines(rest));
        assert(ls[0] == s.take(i));
        assert(spec_unlines(ls) == s.take(i) + seq!['\n'] + spec_unlines(spec_split_lines(rest)));
        assert(spec_unlines(ls) =~= s.push('\n'));
    }
}

/// Splitting loses nothing: two different inputs never have the same lines,
/// so diffing inputs that differ anywhere always reports a difference.
pub proof fn lemma_different_inputs_differ(x: Seq<char>, y: Seq<char>)
    requires
        x != y,
    ensures
        spec_split_lines(x) != spec_split_lines(y),
{
    if spec_split_lines(x) == spec_split_lines(y) {
        lemma_unlines_split(x);
        lemma_unlines_split(y);
        assert(x.push('\n') == y.push('\n'));
        assert(x.push('\n').drop_last() =~= x);
        assert(y.push('\n').drop_last() =~= y);
        assert(false);
    }
}

/// Splits `s` into its lines.
pub fn split_lines(s: &str) -> (lines: Vec<String>)
    ensures
        lines.deep_view() == spec_split_lines(s@),
        lines@.len() <= s@.len() + 1,
{
    let n = s.unicode_len();
    let mut lines: Vec<String> = Vec::new();
    proof {
        assert(lines.deep_view() =~= Seq::<Seq<char>>::empty());
        assert(s@.skip(0) =~= s@);
    }
    let mut start: usize = 0;
    let mut i: usize = 0;
    while i < n
        invariant
            start <= i <= n,
            n == s@.len(),
            lines@.len() <= start,
            forall|k: int| start <= k < i ==> s@[k] != '\n',
            spec_split_lines(s@) =~= lines.deep_view() + spec_split_lines(s@.skip(start as int)),
        decreases n - i,
    {
        if s.get_char(i) == '\n' {
            let line = s.substring_char(start, i).to_owned();
            let ghost old_lines = lines.deep_view();
            lines.push(line);
            proof {
                let tail = s@.skip(start as int);
                assert(forall|j: int|
                    0 <= j < i - start ==> tail[j] == s@[start + j] && s@[start + j] != '\n');
                lemma_first_nl_found(tail, i - start);
                assert(tail.take(i - start) =~= s@.subrange(start as int, i as int));
                assert(tail.skip(i - start + 1) =~= s@.skip(i as int + 1));
                assert(spec_split_lines(tail) == seq![s@.subrange(start as int, i as int)]
                    + spec_split_lines(s@.skip(i as int + 1)));
                assert(lines.deep_view() =~= old_lines.push(line@));
                assert(line@ == s@.subrange(start as int, i as int));
                assert(spec_split_lines(s@) =~= lines.deep_view() + spec_split_lines(
                    s@.skip(i as int + 1),
                ));
            }
            start = i + 1;
        }
        i = i + 1;
    }
    let line = s.substring_char(start, n).to_owned();
    let ghost old_lines = lines.deep_view();
    lines.push(line);
    proof {
        let tail = s@.skip(start as int);
        assert(forall|j: int|
            0 <= j < tail.len() ==> tail[j] == s@[start + j] && s@[start + j] != '\n');
        lemma_first_nl_none(tail);
        assert(spec_split_lines(tail) =~= seq![tail]);
        assert(lines.deep_view() =~= old_lines.push(line@));
        assert(line@ == s@.subrange(start as int, n as int));
        assert(line@ =~= tail);
        assert(spec_split_lines(s@) =~= lines.deep_view());
    }
    lines
}

/// One aligned line: present on both sides, only on the left, or only on the
/// right.
pub enum DiffEntry {
    Both(Seq<char>),
    Left(Seq<char>),
    Right(Seq<char>),
}

/// The lines an alignment claims for the left input, in order.
pub open spec fn left_proj(es: Seq<DiffEntry>) -> Seq<Seq<char>>
    decreases es.len(),
{
    if es.len() == 0 {
        Seq::empty()
    } else {
        match es[0] {
            DiffEntry::Both(x) => seq![x] + left_proj(es.drop_first()),
            DiffEntry::Left(x) => seq![x] + left_proj(es.drop_first()),
            DiffEntry::Right(_) => left_proj(es.drop_first()),
        }
    }
}

/// The lines an alignment claims for the right input, in order.
pub open spec fn right_proj(es: Seq<DiffEntry>) -> Seq<Seq<char>>
    decreases es.len(),
{
    if es.len() == 0 {
        Seq::empty()
    } else {
        match es[0] {
            DiffEntry::Both(x) => seq![x] + right_proj(es.drop_first()),
            DiffEntry::Right(x) => seq![x] + right_proj(es.drop_first()),
            DiffEntry::Left(_) => right_proj(es.drop_first()),
        }
    }
}

/// Whether any line is on one side only.
pub open spec fn has_difference(es: Seq<DiffEntry>) -> bool
    decreases es.len(),
{
    if es.len() == 0 {
        false
    } else {
        !(es[0] is Both) || has_difference(es.drop_first())
    }
}

/// The rendering of one aligned line.
pub open spec fn entry_text(e: DiffEntry) -> Seq<char> {
    match e {
        DiffEntry::Both(x) => x + seq!['\n'],
        DiffEntry::Left(x) => seq!['-', ' '] + x + seq!['\n'],
        DiffEntry::Right(x) => seq!['+', ' '] + x + seq!['\n'],
    }
}

/// The rendering of a whole alignment.
pub open spec fn spec_render_entries(es: Seq<DiffEntry>) -> Seq<char>
    decreases es.len(),
{
    if es.len() == 0 {
        Seq::empty()
    } else {
        entry_text(es[0]) + spec_render_entries(es.drop_first())
    }
}

/// An alignment of the two line sequences: reading off its left lines gives
/// the left input's lines, and likewise on the right.
pub open spec fn alignment_ok(es: Seq<DiffEntry>, l: Seq<Seq<char>>, r: Seq<Seq<char>>) -> bool {
    left_proj(es) == l && right_proj(es) == r
}

proof fn lemma_entry_push(es: Seq<DiffEntry>, e: DiffEntry)
    ensures
        left_proj(es.push(e)) == left_proj(es) + (match e {
            DiffEntry::Both(x) => seq![x],
            DiffEntry::Left(x) => seq![x],
            DiffEntry::Right(_) => Seq::empty(),
        }),
        right_proj(es.push(e)) == right_proj(es) + (match e {
            DiffEntry::Both(x) => seq![x],
            DiffEntry::Right(x) => seq![x],
            DiffEntry::Left(_) => Seq::empty(),
        }),
        has_difference(es.push(e)) == (has_difference(es) || !(e is Both)),
        spec_render_entries(es.push(e)) == spec_render_entries(es) + entry_text(e),
    decreases es.len(),
{
    let lc = (match e {
        DiffEntry::Both(x) => seq![x],
        DiffEntry::Left(x) => seq![x],
        DiffEntry::Right(_) => Seq::<Seq<char>>::empty(),
    });
    let rc = (match e {
        DiffEntry::Both(x) => seq![x],
        DiffEntry::Right(x) => seq![x],
        DiffEntry::Left(_) => Seq::<Seq<char>>::empty(),
    });
    if es.len() == 0 {
        assert(es.push(e).len() == 1);
        assert(es.push(e)[0] == e);
        assert(es.push(e).drop_first() =~= Seq::<DiffEntry>::empty());
        assert(has_difference(Seq::<DiffEntry>::empty()) == false);
        assert(left_proj(Seq::<DiffEntry>::empty()) =~= Seq::<Seq<char>>::empty());
        assert(right_proj(Seq::<DiffEntry>::empty()) =~= Seq::<Seq<char>>::empty());
        assert(spec_render_entries(Seq::<DiffEntry>::empty()) =~= Seq::<char>::empty());
        assert(left_proj(es.push(e)) =~= left_proj(es) + lc);
        assert(right_proj(es.push(e)) =~= right_proj(es) + rc);
        assert(spec_render_entries(es.push(e)) =~= spec_render_entries(es) + entry_text(e));
    } else {
        lemma_entry_push(es.drop_first(), e);
        assert(es.push(e).drop_first() =~= es.drop_first().push(e));
        assert(es.push(e)[0] == es[0]);
        assert(left_proj(es.push(e)) =~= left_proj(es) + lc);
        assert(right_proj(es.push(e)) =~= right_proj(es) + rc);
        assert(spec_render_entries(es.push(e)) =~= spec_render_entries(es) + entry_text(e));
    }
}

proof fn lemma_all_both(es: Seq<DiffEntry>)
    requires
        !has_difference(es),
    ensures
        left_proj(es) == right_proj(es),
        spec_render_entries(es) == spec_unlines(left_proj(es)),
    decreases es.len(),
{
    if es.len() != 0 {
        lemma_all_both(es.drop_first());
        let x = es[0]->Both_0;
        assert(left_proj(es) == seq![x] + left_proj(es.drop_first()));
        assert(left_proj(es).drop_first() =~= left_proj(es.drop_first()));
        assert(left_proj(es)[0] == x);
        assert(spec_unlines(left_proj(es)) == x + seq!['\n'] + spec_unlines(
            left_proj(es.drop_first()),
        ));
        assert(spec_render_entries(es) =~= spec_unlines(left_proj(es)));
    }
}

/// Line diff of `left` against `right`.
///
/// The boolean is true exactly when the two line sequences differ; when they
/// do not, the rendering is the left input's lines each closed with a
/// newline, which is the input itself with one final newline appended (see
/// [`lemma_unlines_split`]). In every case the rendering reads off an
/// alignment of the two inputs' lines.
pub fn diff(left: &str, right: &str) -> (r: (bool, String))
    requires
        left@.len() + 2 <= usize::MAX,
        right@.len() + 2 <= usize::MAX,
    ensures
        r.0 == (spec_split_lines(left@) != spec_split_lines(right@)),
        !r.0 ==> r.1@ == spec_unlines(spec_split_lines(left@)),
        exists|es: Seq<DiffEntry>|
            alignment_ok(es, spec_split_lines(left@), spec_split_lines(right@)) && r.0
                == has_difference(es) && r.1@ == spec_render_entries(es),
{
    let l = split_lines(left);
    let rr = split_lines(right);
    let n = l.len();
    let m = rr.len();
    // Suffix LCS table, rows pushed for i = n down to 0: table[n - i][j]
    // holds the LCS length of l[i..] and rr[j..]. The table only steers
    // which side a non-common line is taken from; the contract does not
    // depend on its values.
    let mut table: Vec<Vec<usize>> = Vec::new();
    let mut ii: usize = 0;
    while ii <= n
        invariant
            ii <= n + 1,
            n == l@.len(),
            m == rr@.len(),
            n + 1 <= usize::MAX,
            m + 1 <= usize::MAX,
            table@.len() == ii,
            forall|k: int| 0 <= k < table@.len() ==> #[trigger] table@[k]@.len() == m + 1,
            forall|k: int, jj: int|
                0 <= k < table@.len() && 0 <= jj < m + 1 ==> #[trigger] table@[k]@[jj] <= n,
        decreases n + 1 - ii,
    {
        let i = n - ii;
        // columns built from j = m down to 0: row[k] holds column m - k
        let mut row: Vec<usize> = Vec::new();
        let mut jj: usize = 0;
        while jj <= m
            invariant
                jj <= m + 1,
                ii <= n,
                i == n - ii,
                n == l@.len(),
                m == rr@.len(),
                n + 1 <= usize::MAX,
                m + 1 <= usize::MAX,
                table@.len() == ii,
                forall|k: int| 0 <= k < table@.len() ==> #[trigger] table@[k]@.len() == m + 1,
                forall|k: int, jx: int|
                    0 <= k < table@.len() && 0 <= jx < m + 1 ==> #[trigger] table@[k]@[jx] <= n,
                row@.len() == jj,
                forall|k: int| 0 <= k < row@.len() ==> #[trigger] row@[k] <= n,
            decreases m + 1 - jj,
        {
            let j = m - jj;
            let v: usize = if i == n || j == m {
                0
            } else if l[i].eq(&rr[j]) {
                // 1 + L(i+1, j+1); the row for i+1 is the last one pushed
                let below = &table[ii - 1];
                let d: usize = below[j + 1];
                if d < n {
                    d + 1
                } else {
                    n
                }
            } else {
                let below = &table[ii - 1];
                let x: usize = below[j];  // L(i+1, j)
                let y: usize = row[jj - 1];  // L(i, j+1), already computed
                if x >= y {
                    x
                } else {
                    y
                }
            };
            row.push(v);
            jj = jj + 1;
        }
        // row holds columns m down to 0; reverse it into column order
        let mut ordered: Vec<usize> = Vec::new();
        let mut k: usize = 0;
        while k <= m
            invariant
                k <= m + 1,
                m + 1 <= usize::MAX,
                row@.len() == m + 1,
                forall|kk: int| 0 <= kk < row@.len() ==> #[trigger] row@[kk] <= n,
                ordered@.len() == k,
                forall|kk: int| 0 <= kk < ordered@.len() ==> #[trigger] ordered@[kk] <= n,
            decreases m + 1 - k,
        {
            ordered.push(row[m - k]);
            k = k + 1;
        }
        table.push(ordered);
        ii = ii + 1;
    }
    // Forward walk over both line sequences.
    let mut out = String::new();
    let mut differs = false;
    let ghost mut es: Seq<DiffEntry> = Seq::empty();
    let mut a: usize = 0;
    let mut b: usize = 0;
    while a < n || b < m
        invariant
            a <= n,
            b <= m,
            n == l@.len(),
            m == rr@.len(),
            n + 1 <= usize::MAX,
            m + 1 <= usize::MAX,
            table@.len() == n + 1,
            forall|k: int| 0 <= k < table@.len() ==> #[trigger] table@[k]@.len() == m + 1,
            left_proj(es) =~= l.deep_view().take(a as int),
            right_proj(es) =~= rr.deep_view().take(b as int),
            differs == has_difference(es),
            out@ == spec_render_entries(es),
            l.deep_view() == rr.deep_view() ==> a == b && !differs,
        decreases (n - a) + (m - b),
    {
        if a < n && b < m && l[a].eq(&rr[b]) {
            proof {
                lemma_entry_push(es, DiffEntry::Both(l@[a as int]@));
            }
            out.append(l[a].as_str());
            push_char(&mut out, '\n');
            proof {
                es = es.push(DiffEntry::Both(l@[a as int]@));
                assert(left_proj(es) =~= l.deep_view().take(a + 1));
                assert(right_proj(es) =~= rr.deep_view().take(b + 1));
                assert(entry_text(DiffEntry::Both(l@[a as int]@)) =~= l@[a as int]@ + seq!['\n']);
                assert(out@ =~= spec_render_entries(es));
            }
            a = a + 1;
            b = b + 1;
        } else {
            proof {
                if l.deep_view() == rr.deep_view() {
                    // equal inputs always take the common branch
                    assert(l.deep_view().len() == n);
                    assert(rr.deep_view().len() == m);
                    assert(n == m);
                    assert(a == b && a < n && b < m);
                    assert(l.deep_view()[a as int] == rr.deep_view()[b as int]);
                    assert(l@[a as int]@ == rr@[b as int]@);
                    assert(false);
                }
            }
            let take_left: bool = if b == m {
                true
            } else if a == n {
                false
            } else {
                let below = &table[n - a - 1];
                let here = &table[n - a];
                below[b] >= here[b + 1]
            };
            if take_left {
                proof {
                    lemma_entry_push(es, DiffEntry::Left(l@[a as int]@));
                }
                out.append("- ");
                out.append(l[a].as_str());
                push_char(&mut out, '\n');
                proof {
                    reveal_strlit("- ");
                    es = es.push(DiffEntry::Left(l@[a as int]@));
                    assert(left_proj(es) =~= l.deep_view().take(a + 1));
                    assert(right_proj(es) =~= rr.deep_view().take(b as int));
                    assert("- "@ =~= seq!['-', ' ']);
                    assert(entry_text(DiffEntry::Left(l@[a as int]@)) =~= seq!['-', ' '] + l@[a as int]@
                        + seq!['\n']);
                    assert(out@ =~= spec_render_entries(es));
                }
                a = a + 1;
            } else {
                proof {
                    lemma_entry_push(es, DiffEntry::Right(rr@[b as int]@));
                }
                out.append("+ ");
                out.append(rr[b].as_str());
                push_char(&mut out, '\n');
                proof {
                    reveal_strlit("+ ");
                    es = es.push(DiffEntry::Right(rr@[b as int]@));
                    assert(left_proj(es) =~= l.deep_view().take(a as int));
                    assert(right_proj(es) =~= rr.deep_view().take(b + 1));
                    assert("+ "@ =~= seq!['+', ' ']);
                    assert(entry_text(DiffEntry::Right(rr@[b as int]@)) =~= seq!['+', ' ']
                        + rr@[b as int]@ + seq!['\n']);
                    assert(out@ =~= spec_render_entries(es));
                }
                b = b + 1;
            }
            differs = true;
        }
    }
    proof {
        assert(left_proj(es) =~= l.deep_view());
        assert(right_proj(es) =~= rr.deep_view());
        if !differs {
            lemma_all_both(es);
        }
        if l.deep_view() == rr.deep_view() {
            assert(!differs);
        }
        if !differs {
            assert(l.deep_view() == rr.deep_view());
        }
        assert(alignment_ok(es, spec_split_lines(left@), spec_split_lines(right@)));
    }
    (differs, out)
}

} // verus!
