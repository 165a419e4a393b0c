//! The heading normalizer: a pure per-line rewrite that pushes every heading
//! marker of a document `depth` nesting levels deeper and, for a positive
//! depth, prepends a synthesized title heading. Non-heading lines pass
//! through byte-identical.
//!
//! A document is its sequence of lines, split on `'\n'`; a line is a heading
//! marker exactly when it starts with `'#'`.

use vstd::prelude::*;
use vstd::string::StrSliceExecFns;
use vstd::string::StringExecFns;

verus! {

/// `n` repetitions of the heading mark `'#'`.
pub open spec fn hashes(n: nat) -> Seq<char> {
    Seq::new(n, |i: int| '#')
}

/// A line is a heading marker when it opens with a `'#'`.
pub open spec fn is_heading_line(line: Seq<char>) -> bool {
    line.len() > 0 && line[0] == '#'
}

/// The per-line rewrite: a heading marker gains `depth` leading `'#'` marks;
/// any other line is left as it is.
pub open spec fn shift_line(line: Seq<char>, depth: nat) -> Seq<char> {
    if is_heading_line(line) {
        hashes(depth) + line
    } else {
        line
    }
}

/// The lines of a document, split on `'\n'`. An empty document is one empty
/// line; a trailing `'\n'` yields a final empty line.
pub open spec fn split_lines(s: Seq<char>) -> Seq<Seq<char>>
    decreases s.len(),
{
    if s.len() == 0 {
        seq![Seq::<char>::empty()]
    } else if s[0] == '\n' {
        seq![Seq::<char>::empty()] + split_lines(s.skip(1))
    } else {
        let rest = split_lines(s.skip(1));
        seq![seq![s[0]] + rest[0]] + rest.skip(1)
    }
}

/// Joins lines back into a document with `'\n'` between them: the inverse of
/// `split_lines` on newline-free lines.
pub open spec fn join_lines(lines: Seq<Seq<char>>) -> Seq<char>
    decreases lines.len(),
{
    if lines.len() == 0 {
        Seq::empty()
    } else if lines.len() == 1 {
        lines[0]
    } else {
        lines[0] + seq!['\n'] + join_lines(lines.skip(1))
    }
}

/// The per-line rewrite applied to every line.
pub open spec fn shift_all(lines: Seq<Seq<char>>, depth: nat) -> Seq<Seq<char>> {
    lines.map_values(|line: Seq<char>| shift_line(line, depth))
}

/// A whole document with every heading marker pushed `depth` levels deeper.
pub open spec fn shifted_content(s: Seq<char>, depth: nat) -> Seq<char> {
    join_lines(shift_all(split_lines(s), depth))
}

/// What normalization produces: at depth zero the content unchanged; at a
/// positive depth the synthesized title line, a blank line, then the shifted
/// content.
pub open spec fn normalized(content: Seq<char>, depth: nat, title: Seq<char>) -> Seq<char> {
    if depth == 0 {
        content
    } else {
        hashes(depth) + seq![' '] + title + seq!['\n', '\n'] + shifted_content(content, depth)
    }
}

/// Holds of a sequence that contains no `'\n'` — a single line.
pub open spec fn line_free(line: Seq<char>) -> bool {
    forall|k: int| 0 <= k < line.len() ==> line[k] != '\n'
}

proof fn lemma_split_lines_nonempty(s: Seq<char>)
    ensures
        split_lines(s).len() >= 1,
{
}

proof fn lemma_join_cons(first: Seq<char>, rest: Seq<Seq<char>>)
    ensures
        rest.len() == 0 ==> join_lines(seq![first] + rest) == first,
        rest.len() > 0 ==> join_lines(seq![first] + rest) == first + seq!['\n'] + join_lines(
            rest,
        ),
{
    let ls = seq![first] + rest;
    assert(ls[0] == first);
    if rest.len() > 0 {
        assert(ls.skip(1) =~= rest);
    }
}

proof fn lemma_shift_all_cons(first: Seq<char>, rest: Seq<Seq<char>>, depth: nat)
    ensures
        shift_all(seq![first] + rest, depth) == seq![shift_line(first, depth)] + shift_all(
            rest,
            depth,
        ),
{
    assert(shift_all(seq![first] + rest, depth) =~= seq![shift_line(first, depth)] + shift_all(
        rest,
        depth,
    ));
}

/// Appends `depth` heading marks to `out`.
fn append_hashes(out: &mut String, depth: usize)
    ensures
        final(out)@ == old(out)@ + hashes(depth as nat),
{
    proof {
        assert(old(out)@ + hashes(0) =~= old(out)@);
    }
    let mut k: usize = 0;
    while k < depth
        invariant
            k <= depth,
            out@ == old(out)@ + hashes(k as nat),
        decreases depth - k,
    {
        out.append("#");
        proof {
            reveal_strlit("#");
            assert(old(out)@ + hashes(k as nat) + "#"@ =~= old(out)@ + hashes((k + 1) as nat));
        }
        k = k + 1;
    }
}

/// Rewrites every heading marker line of `content` to sit `depth` levels
/// deeper, leaving all other lines byte-identical.
pub fn shift_headings(content: &str, depth: usize) -> (r: String)
    ensures
        r@ == shifted_content(content@, depth as nat),
{
    let ghost d = depth as nat;
    let ghost goal = shifted_content(content@, d);
    let n = content.unicode_len();
    let mut out = String::new();
    let mut at_line_start = true;
    let mut i: usize = 0;
    proof {
        assert(content@.skip(0) =~= content@);
        assert(out@ + goal =~= goal);
    }
    while i < n
        invariant
            0 <= i <= n,
            n == content@.len(),
            goal == shifted_content(content@, d),
            d == depth as nat,
            at_line_start ==> goal == out@ + join_lines(
                shift_all(split_lines(content@.skip(i as int)), d),
            ),
            !at_line_start ==> goal == out@ + join_lines(
                seq![split_lines(content@.skip(i as int))[0]] + shift_all(
                    split_lines(content@.skip(i as int)).skip(1),
                    d,
                ),
            ),
        decreases n - i,
    {
        let ghost rest = content@.skip(i as int);
        let ghost rr = split_lines(content@.skip(i + 1));
        proof {
            assert(rest.len() > 0);
            assert(rest[0] == content@[i as int]);
            assert(rest.skip(1) =~= content@.skip(i + 1));
            lemma_split_lines_nonempty(content@.skip(i + 1));
        }
        let c = content.get_char(i);
        if c == '\n' {
            proof {
                assert(split_lines(rest) == seq![Seq::<char>::empty()] + rr);
                lemma_shift_all_cons(Seq::<char>::empty(), rr, d);
                lemma_join_cons(Seq::<char>::empty(), shift_all(rr, d));
                if at_line_start {
                    assert(goal == out@ + join_lines(
                        seq![shift_line(Seq::<char>::empty(), d)] + shift_all(rr, d),
                    ));
                    assert(shift_line(Seq::<char>::empty(), d) == Seq::<char>::empty());
                } else {
                    assert(split_lines(rest)[0] == Seq::<char>::empty());
                    assert(split_lines(rest).skip(1) =~= rr);
                }
                assert(shift_all(rr, d).len() > 0);
                reveal_strlit("\n");
                assert(Seq::<char>::empty() + seq!['\n'] + join_lines(shift_all(rr, d)) =~= seq![
                    '\n',
                ] + join_lines(shift_all(rr, d)));
                assert(out@ + (seq!['\n'] + join_lines(shift_all(rr, d))) =~= (out@ + "\n"@)
                    + join_lines(shift_all(rr, d)));
            }
            out.append("\n");
            at_line_start = true;
        } else {
            proof {
                assert(split_lines(rest) == seq![seq![rest[0]] + rr[0]] + rr.skip(1));
            }
            if at_line_start {
                let ghost pre = out@;
                let ghost full_line = seq![rest[0]] + rr[0];
                let ghost pfx: Seq<char> = if rest[0] == '#' {
                    hashes(d)
                } else {
                    Seq::<char>::empty()
                };
                proof {
                    lemma_shift_all_cons(full_line, rr.skip(1), d);
                    lemma_join_cons(shift_line(full_line, d), shift_all(rr.skip(1), d));
                    lemma_join_cons(rr[0], shift_all(rr.skip(1), d));
                    assert(goal == pre + join_lines(
                        seq![shift_line(full_line, d)] + shift_all(rr.skip(1), d),
                    ));
                    assert(is_heading_line(full_line) <==> rest[0] == '#');
                    assert(shift_line(full_line, d) =~= pfx + seq![rest[0]] + rr[0]);
                }
                if c == '#' {
                    append_hashes(&mut out, depth);
                }
                let piece = content.substring_char(i, i + 1);
                out.append(piece);
                at_line_start = false;
                proof {
                    assert(piece@ =~= seq![rest[0]]);
                    assert(out@ =~= pre + pfx + seq![rest[0]]);
                    let tail = shift_all(rr.skip(1), d);
                    if rr.skip(1).len() == 0 {
                        assert(goal == pre + (pfx + seq![rest[0]] + rr[0]));
                        assert(pre + (pfx + seq![rest[0]] + rr[0]) =~= out@ + rr[0]);
                        assert(join_lines(seq![rr[0]] + tail) == rr[0]);
                    } else {
                        assert(goal == pre + ((pfx + seq![rest[0]] + rr[0]) + seq!['\n']
                            + join_lines(tail)));
                        assert(pre + ((pfx + seq![rest[0]] + rr[0]) + seq!['\n'] + join_lines(
                            tail,
                        )) =~= out@ + (rr[0] + seq!['\n'] + join_lines(tail)));
                        assert(join_lines(seq![rr[0]] + tail) == rr[0] + seq!['\n'] + join_lines(
                            tail,
                        ));
                    }
                    assert(goal == out@ + join_lines(seq![rr[0]] + tail));
                    assert(split_lines(content@.skip(i + 1))[0] == rr[0]);
                    assert(split_lines(content@.skip(i + 1)).skip(1) =~= rr.skip(1));
                }
            } else {
                let piece = content.substring_char(i, i + 1);
                proof {
                    assert(piece@ =~= seq![rest[0]]);
                    assert(split_lines(rest)[0] == seq![rest[0]] + rr[0]);
                    assert(split_lines(rest).skip(1) =~= rr.skip(1));
                    lemma_join_cons(seq![rest[0]] + rr[0], shift_all(rr.skip(1), d));
                    lemma_join_cons(rr[0], shift_all(rr.skip(1), d));
                    if rr.skip(1).len() == 0 {
                        assert(goal == out@ + (seq![rest[0]] + rr[0]));
                        assert(out@ + (seq![rest[0]] + rr[0]) =~= (out@ + piece@) + (rr[0]));
                    } else {
                        assert(goal == out@ + (seq![rest[0]] + rr[0] + seq!['\n'] + join_lines(
                            shift_all(rr.skip(1), d),
                        )));
                        assert(out@ + (seq![rest[0]] + rr[0] + seq!['\n'] + join_lines(
                            shift_all(rr.skip(1), d),
                        )) =~= (out@ + piece@) + (rr[0] + seq!['\n'] + join_lines(
                            shift_all(rr.skip(1), d),
                        )));
                    }
                    assert(goal == (out@ + piece@) + join_lines(
                        seq![rr[0]] + shift_all(rr.skip(1), d),
                    ));
                    assert(split_lines(content@.skip(i + 1))[0] == rr[0]);
                    assert(split_lines(content@.skip(i + 1)).skip(1) =~= rr.skip(1));
                }
                out.append(piece);
            }
        }
        i = i + 1;
    }
    proof {
        assert(content@.skip(n as int) =~= Seq::<char>::empty());
        let ghost tail = split_lines(Seq::<char>::empty());
        assert(tail == seq![Seq::<char>::empty()]);
        assert(shift_all(tail, d) =~= seq![Seq::<char>::empty()]);
        assert(join_lines(seq![Seq::<char>::empty()]) == Seq::<char>::empty());
        if at_line_start {
            assert(out@ + join_lines(shift_all(tail, d)) =~= out@);
        } else {
            assert(tail[0] == Seq::<char>::empty());
            assert(tail.skip(1) =~= Seq::<Seq<char>>::empty());
            assert(shift_all(tail.skip(1), d) =~= Seq::<Seq<char>>::empty());
            assert(join_lines(seq![tail[0]] + shift_all(tail.skip(1), d)) == join_lines(
                seq![Seq::<char>::empty()],
            ));
            assert(out@ + join_lines(seq![tail[0]] + shift_all(tail.skip(1), d)) =~= out@);
        }
    }
    out
}

proof fn lemma_split_lines_line_free(s: Seq<char>)
    ensures
        forall|j: int|
            0 <= j < split_lines(s).len() ==> line_free(#[trigger] split_lines(s)[j]),
    decreases s.len(),
{
    if s.len() == 0 {
    } else if s[0] == '\n' {
        lemma_split_lines_line_free(s.skip(1));
        assert forall|j: int| 0 <= j < split_lines(s).len() implies line_free(
            #[trigger] split_lines(s)[j],
        ) by {
            if j > 0 {
                assert(split_lines(s)[j] == split_lines(s.skip(1))[j - 1]);
            }
        }
    } else {
        lemma_split_lines_line_free(s.skip(1));
        lemma_split_lines_nonempty(s.skip(1));
        let rest = split_lines(s.skip(1));
        assert forall|j: int| 0 <= j < split_lines(s).len() implies line_free(
            #[trigger] split_lines(s)[j],
        ) by {
            if j == 0 {
                assert(line_free(rest[0]));
                assert(split_lines(s)[0] == seq![s[0]] + rest[0]);
                assert forall|k: int| 0 <= k < (seq![s[0]] + rest[0]).len() implies (seq![s[0]]
                    + rest[0])[k] != '\n' by {
                    if k > 0 {
                        assert((seq![s[0]] + rest[0])[k] == rest[0][k - 1]);
                    }
                }
            } else {
                assert(split_lines(s)[j] == rest.skip(1)[j - 1]);
                assert(rest.skip(1)[j - 1] == rest[j]);
            }
        }
    }
}

proof fn lemma_split_single_line(line: Seq<char>)
    requires
        line_free(line),
    ensures
        split_lines(line) == seq![line],
    decreases line.len(),
{
    if line.len() == 0 {
        assert(line =~= Seq::<char>::empty());
    } else {
        assert(line[0] != '\n');
        assert(line_free(line.skip(1)));
        lemma_split_single_line(line.skip(1));
        assert(seq![line[0]] + line.skip(1) =~= line);
        assert(split_lines(line.skip(1)).skip(1) =~= Seq::<Seq<char>>::empty());
        assert(split_lines(line) =~= seq![line]);
    }
}

proof fn lemma_split_line_prefix(a: Seq<char>, t: Seq<char>)
    requires
        line_free(a),
    ensures
        split_lines(a + seq!['\n'] + t) == seq![a] + split_lines(t),
    decreases a.len(),
{
    let s = a + seq!['\n'] + t;
    if a.len() == 0 {
        assert(s[0] == '\n');
        assert(s.skip(1) =~= t);
        assert(a =~= Seq::<char>::empty());
        assert(split_lines(s) == seq![a] + split_lines(t));
    } else {
        assert(s[0] == a[0]);
        assert(a[0] != '\n');
        assert(line_free(a.skip(1)));
        lemma_split_line_prefix(a.skip(1), t);
        assert(s.skip(1) =~= a.skip(1) + seq!['\n'] + t);
        let rest = split_lines(s.skip(1));
        assert(rest == seq![a.skip(1)] + split_lines(t));
        assert(rest[0] == a.skip(1));
        assert(rest.skip(1) =~= split_lines(t));
        assert(seq![s[0]] + rest[0] =~= a);
        assert(split_lines(s) =~= seq![a] + split_lines(t));
    }
}

proof fn lemma_split_join(ls: Seq<Seq<char>>)
    requires
        ls.len() >= 1,
        forall|j: int| 0 <= j < ls.len() ==> line_free(#[trigger] ls[j]),
    ensures
        split_lines(join_lines(ls)) == ls,
    decreases ls.len(),
{
    if ls.len() == 1 {
        lemma_split_single_line(ls[0]);
        assert(join_lines(ls) == ls[0]);
        assert(seq![ls[0]] =~= ls);
    } else {
        assert forall|j: int| 0 <= j < ls.skip(1).len() implies line_free(
            #[trigger] ls.skip(1)[j],
        ) by {
            assert(ls.skip(1)[j] == ls[j + 1]);
        }
        lemma_split_join(ls.skip(1));
        lemma_split_line_prefix(ls[0], join_lines(ls.skip(1)));
        assert(split_lines(join_lines(ls)) == seq![ls[0]] + split_lines(join_lines(ls.skip(1))));
        assert(seq![ls[0]] + ls.skip(1) =~= ls);
    }
}

/// Law — heading shift correctness: shifting a document by `depth` rewrites
/// it line by line. The output has exactly the input's lines; every heading
/// marker line gains exactly `depth` leading `'#'` marks, and every other
/// line is byte-identical to its input line.
pub proof fn lemma_heading_shift_correct(s: Seq<char>, depth: nat)
    ensures
        split_lines(shifted_content(s, depth)).len() == split_lines(s).len(),
        forall|j: int|
            0 <= j < split_lines(s).len() ==> split_lines(shifted_content(s, depth))[j]
                == shift_line(#[trigger] split_lines(s)[j], depth),
        forall|j: int|
            0 <= j < split_lines(s).len() && is_heading_line(#[trigger] split_lines(s)[j])
                ==> split_lines(shifted_content(s, depth))[j] == hashes(depth) + split_lines(s)[j],
        forall|j: int|
            0 <= j < split_lines(s).len() && !is_heading_line(#[trigger] split_lines(s)[j])
                ==> split_lines(shifted_content(s, depth))[j] == split_lines(s)[j],
{
    let ls = split_lines(s);
    let moved = shift_all(ls, depth);
    lemma_split_lines_line_free(s);
    lemma_split_lines_nonempty(s);
    assert forall|j: int| 0 <= j < moved.len() implies line_free(#[trigger] moved[j]) by {
        assert(moved[j] == shift_line(ls[j], depth));
        assert(line_free(ls[j]));
        if is_heading_line(ls[j]) {
            assert forall|k: int| 0 <= k < moved[j].len() implies moved[j][k] != '\n' by {
                if k < depth {
                    assert(moved[j][k] == '#');
                } else {
                    assert(moved[j][k] == ls[j][k - depth]);
                }
            }
        }
    }
    lemma_split_join(moved);
}

/// Law — title injection: with a positive depth, the first line of the
/// normalized output is exactly `depth` `'#'` marks, one space, then the
/// title; with depth zero the output is the content unchanged. Stated for
/// titles that are a single line.
pub proof fn lemma_title_injection(content: Seq<char>, depth: nat, title: Seq<char>)
    requires
        line_free(title),
    ensures
        depth == 0 ==> normalized(content, depth, title) == content,
        depth > 0 ==> split_lines(normalized(content, depth, title))[0] == hashes(depth)
            + seq![' '] + title,
        depth > 0 ==> split_lines(normalized(content, depth, title))[1] == Seq::<char>::empty(),
        depth > 0 ==> split_lines(normalized(content, depth, title)).skip(2) == split_lines(
            shifted_content(content, depth),
        ),
{
    if depth > 0 {
        let first = hashes(depth) + seq![' '] + title;
        let rest = seq!['\n'] + shifted_content(content, depth);
        assert forall|k: int| 0 <= k < first.len() implies first[k] != '\n' by {
            if k < depth {
                assert(first[k] == '#');
            } else if k == depth {
                assert(first[k] == ' ');
            } else {
                assert(first[k] == title[k - depth - 1]);
            }
        }
        assert(normalized(content, depth, title) =~= first + seq!['\n'] + rest);
        lemma_split_line_prefix(first, rest);
        assert(rest =~= Seq::<char>::empty() + seq!['\n'] + shifted_content(content, depth));
        lemma_split_line_prefix(Seq::<char>::empty(), shifted_content(content, depth));
        let inner = split_lines(shifted_content(content, depth));
        assert(split_lines(normalized(content, depth, title)) == seq![first] + (seq![
            Seq::<char>::empty(),
        ] + inner));
        assert(split_lines(normalized(content, depth, title))[0] == first);
        assert(split_lines(normalized(content, depth, title))[1] == Seq::<char>::empty());
        assert(split_lines(normalized(content, depth, title)).skip(2) =~= inner);
    }
}

/// Normalizes one chapter: shifts every heading marker `depth` levels deeper
/// and, when `depth` is positive, prepends the synthesized title heading and
/// a blank line. At depth zero the content passes through unchanged.
pub fn normalize(content: &str, depth: usize, title: &str) -> (r: String)
    ensures
        r@ == normalized(content@, depth as nat, title@),
{
    if depth == 0 {
        content.to_owned()
    } else {
        let mut out = String::new();
        append_hashes(&mut out, depth);
        out.append(" ");
        out.append(title);
        out.append("\n\n");
        let body = shift_headings(content, depth);
        out.append(body.as_str());
        proof {
            reveal_strlit(" ");
            reveal_strlit("\n\n");
            assert(" "@ =~= seq![' ']);
            assert("\n\n"@ =~= seq!['\n', '\n']);
            assert(Seq::<char>::empty() + hashes(depth as nat) + " "@ + title@ + "\n\n"@ + body@
                =~= normalized(content@, depth as nat, title@));
        }
        out
    }
}

} // verus!
