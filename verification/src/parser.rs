//! The tip parser: a single forward pass that segments plain text into
//! `(title, content)` records at `###` heading lines.
//!
//! A heading line opens a new tip whose title is the heading text with the
//! leading markers and surrounding white space stripped. Every following
//! line, up to the next heading or the end of input, is appended to the
//! tip's content together with a newline. Text before the first heading is
//! discarded.

use vstd::prelude::*;

use crate::codec;
use crate::codec::spec_base64_decode;
use crate::model::{tips_model, DecodeError, Tip};
use crate::text::{chars_of, string_from_chars, trim_chars, trim_spec};

verus! {

/// Whether a line starts with the `###` heading marker.
pub open spec fn is_heading(l: Seq<char>) -> bool {
    l.len() >= 3 && l[0] == '#' && l[1] == '#' && l[2] == '#'
}

/// The line with every leading `###` group removed, as
/// `str::trim_start_matches("###")` leaves it.
pub open spec fn strip_heading_marks(l: Seq<char>) -> Seq<char>
    decreases l.len(),
{
    if is_heading(l) {
        strip_heading_marks(l.skip(3))
    } else {
        l
    }
}

/// The title a heading line yields: marker groups stripped, then white space
/// trimmed from both ends.
pub open spec fn heading_title(l: Seq<char>) -> Seq<char> {
    trim_spec(strip_heading_marks(l))
}

/// The position of the first `'\n'` in `s`, or `s.len()` if there is none.
pub open spec fn line_break(s: Seq<char>) -> nat
    decreases s.len(),
{
    if s.len() == 0 {
        0
    } else if s[0] == '\n' {
        0
    } else {
        1 + line_break(s.drop_first())
    }
}

/// A line with one trailing carriage return removed, as `str::lines` strips it.
pub open spec fn strip_cr(l: Seq<char>) -> Seq<char> {
    if l.len() > 0 && l.last() == '\r' { l.drop_last() } else { l }
}

/// The lines of `s`, as `str::lines` yields them: split at `'\n'`, one
/// trailing `'\r'` stripped from each line, and no empty line after a final
/// newline.
pub open spec fn split_lines_spec(s: Seq<char>) -> Seq<Seq<char>>
    decreases s.len(),
{
    if s.len() == 0 {
        Seq::empty()
    } else {
        let k = line_break(s);
        if k >= s.len() {
            seq![strip_cr(s)]
        } else {
            seq![strip_cr(s.take(k as int))] + split_lines_spec(s.skip(k as int + 1))
        }
    }
}

/// The parser state: the tip under construction, if any, and the completed
/// tips, in order of emission.
pub type ParseState = (Option<(Seq<char>, Seq<char>)>, Seq<(Seq<char>, Seq<char>)>);

/// A fresh tip opened by a heading line: its title, and empty content.
pub open spec fn opened_tip(l: Seq<char>) -> (Seq<char>, Seq<char>) {
    (heading_title(l), Seq::empty())
}

/// One transition of the parser state machine on one line.
pub open spec fn step(st: ParseState, l: Seq<char>) -> ParseState {
    match st.0 {
        Some(cur) => {
            if is_heading(l) {
                (Some(opened_tip(l)), st.1.push(cur))
            } else {
                (Some((cur.0, cur.1 + l + seq!['\n'])), st.1)
            }
        },
        None => {
            if is_heading(l) {
                (Some(opened_tip(l)), st.1)
            } else {
                st
            }
        },
    }
}

/// The state after running the machine over all of `lines` from `st`.
pub open spec fn run_lines(st: ParseState, lines: Seq<Seq<char>>) -> ParseState
    decreases lines.len(),
{
    if lines.len() == 0 {
        st
    } else {
        step(run_lines(st, lines.drop_last()), lines.last())
    }
}

/// At end of input the tip still under construction, if any, is emitted.
pub open spec fn finish(st: ParseState) -> Seq<(Seq<char>, Seq<char>)> {
    match st.0 {
        Some(cur) => st.1.push(cur),
        None => st.1,
    }
}

/// The tips parsed from a sequence of lines, starting from the empty state.
pub open spec fn parse_lines_spec(lines: Seq<Seq<char>>) -> Seq<(Seq<char>, Seq<char>)> {
    finish(run_lines((None, Seq::empty()), lines))
}

/// The tips parsed from plain text.
pub open spec fn parse_text_spec(s: Seq<char>) -> Seq<(Seq<char>, Seq<char>)> {
    parse_lines_spec(split_lines_spec(s))
}

/// Decides [`is_heading`].
pub fn line_is_heading(line: &Vec<char>) -> (r: bool)
    ensures
        r == is_heading(line@),
{
    line.len() >= 3 && line[0] == '#' && line[1] == '#' && line[2] == '#'
}

/// The characters of `line` from position `from` on.
fn chars_from(line: &Vec<char>, from: usize) -> (r: Vec<char>)
    requires
        from <= line.len(),
    ensures
        r@ == line@.skip(from as int),
{
    let mut r: Vec<char> = Vec::new();
    let n = line.len();
    let mut k = from;
    while k < n
        invariant
            from <= k <= n,
            n == line.len(),
            r@ == line@.subrange(from as int, k as int),
        decreases n - k,
    {
        r.push(line[k]);
        assert(line@.subrange(from as int, k + 1)
            == line@.subrange(from as int, k as int).push(line@[k as int]));
        k = k + 1;
    }
    assert(line@.subrange(from as int, n as int) == line@.skip(from as int));
    r
}

/// Computes [`heading_title`] of a line.
pub fn heading_title_exec(line: &Vec<char>) -> (t: String)
    ensures
        t@ == heading_title(line@),
{
    let n = line.len();
    let mut off: usize = 0;
    proof {
        assert(line@.skip(0) == line@);
    }
    while n - off >= 3 && line[off] == '#' && line[off + 1] == '#' && line[off + 2] == '#'
        invariant
            off <= n,
            n == line.len(),
            strip_heading_marks(line@) == strip_heading_marks(line@.skip(off as int)),
        decreases n - off,
    {
        proof {
            let rest = line@.skip(off as int);
            assert(rest[0] == line@[off as int]);
            assert(rest[1] == line@[off + 1]);
            assert(rest[2] == line@[off + 2]);
            assert(is_heading(rest));
            assert(rest.skip(3) == line@.skip(off + 3));
        }
        off = off + 3;
    }
    proof {
        let rest = line@.skip(off as int);
        if rest.len() >= 3 {
            assert(rest[0] == line@[off as int]);
            assert(rest[1] == line@[off + 1]);
            assert(rest[2] == line@[off + 2]);
        }
        assert(!is_heading(rest));
    }
    let rest = chars_from(line, off);
    let trimmed = trim_chars(&rest);
    string_from_chars(&trimmed)
}

/// Splits text into lines, as `str::lines` does: at `'\n'`, with one
/// trailing `'\r'` stripped from each line, and no empty final line.
pub fn split_lines(v: &Vec<char>) -> (r: Vec<Vec<char>>)
    ensures
        r.deep_view() == split_lines_spec(v@),
{
    let mut r: Vec<Vec<char>> = Vec::new();
    let n = v.len();
    let mut p: usize = 0;
    proof {
        assert(r.deep_view() =~= Seq::<Seq<char>>::empty());
        assert(v@.skip(0) == v@);
        assert(r.deep_view() + split_lines_spec(v@) =~= split_lines_spec(v@));
    }
    while p < n
        invariant
            p <= n,
            n == v.len(),
            split_lines_spec(v@) == r.deep_view() + split_lines_spec(v@.skip(p as int)),
        decreases n - p,
    {
        let ghost suffix = v@.skip(p as int);
        let mut q = p;
        while q < n && v[q] != '\n'
            invariant
                p <= q <= n,
                n == v.len(),
                forall|k: int| p <= k < q ==> v@[k] != '\n',
            decreases n - q,
        {
            q = q + 1;
        }
        proof {
            assert forall|k: int| 0 <= k < q - p implies suffix[k] != '\n' by {
                assert(suffix[k] == v@[p + k]);
            }
            if q < n {
                assert(suffix[q - p] == v@[q as int]);
            }
            lemma_line_break_at(suffix, q - p);
        }
        let mut line = chars_from(v, p);
        line.truncate(q - p);
        proof {
            assert(line@ =~= suffix.take(q - p));
        }
        if line.len() > 0 && line[line.len() - 1] == '\r' {
            let _ = line.pop();
        }
        proof {
            assert(line@ == strip_cr(suffix.take(q - p)));
        }
        let ghost line_snap = line@;
        let ghost old_dv = r.deep_view();
        r.push(line);
        proof {
            assert(r.deep_view() =~~= old_dv.push(line_snap));
        }
        if q == n {
            proof {
                assert(suffix.take(q - p) =~= suffix);
                assert(line_break(suffix) >= suffix.len());
                assert(split_lines_spec(suffix) == seq![line_snap]);
                assert(v@.skip(n as int) =~= Seq::<char>::empty());
                assert(split_lines_spec(v@.skip(n as int)) =~= Seq::<Seq<char>>::empty());
                assert(old_dv.push(line_snap) =~= old_dv + seq![line_snap]);
                assert(r.deep_view() + split_lines_spec(v@.skip(n as int))
                    =~= old_dv + split_lines_spec(suffix));
            }
            p = n;
        } else {
            proof {
                let k = line_break(suffix) as int;
                assert(k == q - p);
                assert(suffix.skip(k + 1) =~= v@.skip(q + 1));
                assert(split_lines_spec(suffix)
                    == seq![line_snap] + split_lines_spec(v@.skip(q + 1)));
                assert(old_dv.push(line_snap) =~= old_dv + seq![line_snap]);
                assert(r.deep_view() + split_lines_spec(v@.skip(q + 1))
                    =~= old_dv + split_lines_spec(suffix));
            }
            p = q + 1;
        }
    }
    proof {
        assert(v@.skip(p as int) =~= Seq::<char>::empty());
        assert(r.deep_view() + split_lines_spec(v@.skip(p as int)) =~= r.deep_view());
    }
    r
}

/// Appends the characters of `src` to `dst`.
fn extend_chars(dst: &mut Vec<char>, src: &Vec<char>)
    ensures
        final(dst)@ == old(dst)@ + src@,
{
    let n = src.len();
    for i in 0..n
        invariant
            n == src.len(),
            dst@ == old(dst)@ + src@.take(i as int),
    {
        dst.push(src[i]);
        assert(old(dst)@ + src@.take(i + 1)
            =~= (old(dst)@ + src@.take(i as int)).push(src@[i as int]));
    }
    assert(old(dst)@ + src@.take(n as int) =~= old(dst)@ + src@);
}

/// The model of the executable parser state: the tip under construction,
/// held as its title and accumulated content characters, and the tips
/// emitted so far.
pub open spec fn st_model(cur: Option<(String, Vec<char>)>, done: Seq<Tip>) -> ParseState {
    (
        match cur {
            Some(p) => Some((p.0@, p.1@)),
            None => None,
        },
        tips_model(done),
    )
}

/// One transition of the parser on one line: a heading line emits the tip
/// under construction, if any, and opens a new one; any other line extends
/// the current content, or is discarded when no tip is open.
pub fn process_line(state: (Option<(String, Vec<char>)>, Vec<Tip>), line: &Vec<char>) -> (r: (
    Option<(String, Vec<char>)>,
    Vec<Tip>,
))
    ensures
        st_model(r.0, r.1@) == step(st_model(state.0, state.1@), line@),
{
    let (cur, mut done) = state;
    let ghost old_model = st_model(cur, done@);
    match cur {
        Some(p) => {
            let (title, mut content) = p;
            if line_is_heading(line) {
                let ghost old_tips = tips_model(done@);
                let ghost emitted = (title@, content@);
                let tip = Tip { title, content: string_from_chars(&content) };
                done.push(tip);
                proof {
                    assert(tips_model(done@) =~= old_tips.push(emitted));
                }
                let t = heading_title_exec(line);
                let r = (Some((t, Vec::<char>::new())), done);
                proof {
                    assert(st_model(r.0, r.1@) =~~= step(old_model, line@));
                }
                r
            } else {
                extend_chars(&mut content, line);
                content.push('\n');
                proof {
                    assert(content@ =~= old_model.0->Some_0.1 + line@ + seq!['\n']);
                }
                let r = (Some((title, content)), done);
                proof {
                    assert(st_model(r.0, r.1@) =~~= step(old_model, line@));
                }
                r
            }
        },
        None => {
            if line_is_heading(line) {
                let t = heading_title_exec(line);
                let r = (Some((t, Vec::<char>::new())), done);
                proof {
                    assert(st_model(r.0, r.1@) =~~= step(old_model, line@));
                }
                r
            } else {
                (None, done)
            }
        },
    }
}

/// Runs the parser over all lines, starting from the empty state, and emits
/// the tip still under construction at end of input.
pub fn parse_lines(lines: &Vec<Vec<char>>) -> (tips: Vec<Tip>)
    ensures
        tips_model(tips@) == parse_lines_spec(lines.deep_view()),
{
    let ghost ls = lines.deep_view();
    let mut cur: Option<(String, Vec<char>)> = None;
    let mut done: Vec<Tip> = Vec::new();
    proof {
        assert(tips_model(done@) =~= Seq::<(Seq<char>, Seq<char>)>::empty());
        assert(ls.take(0) =~= Seq::<Seq<char>>::empty());
    }
    let n = lines.len();
    let mut i: usize = 0;
    while i < n
        invariant
            i <= n,
            n == lines.len(),
            ls == lines.deep_view(),
            st_model(cur, done@) == run_lines((None, Seq::empty()), ls.take(i as int)),
        decreases n - i,
    {
        let line = &lines[i];
        proof {
            assert(line@ == ls[i as int]);
        }
        let st = process_line((cur, done), line);
        cur = st.0;
        done = st.1;
        proof {
            assert(ls.take(i + 1).drop_last() =~= ls.take(i as int));
            assert(ls.take(i + 1).last() == ls[i as int]);
        }
        i = i + 1;
    }
    proof {
        assert(ls.take(n as int) =~= ls);
    }
    match cur {
        Some(p) => {
            let (title, content) = p;
            let ghost old_tips = tips_model(done@);
            let ghost emitted = (title@, content@);
            let tip = Tip { title, content: string_from_chars(&content) };
            done.push(tip);
            proof {
                assert(tips_model(done@) =~= old_tips.push(emitted));
            }
        },
        None => {},
    }
    done
}

/// The number of heading lines among `lines`.
pub open spec fn heading_count(lines: Seq<Seq<char>>) -> nat
    decreases lines.len(),
{
    if lines.len() == 0 {
        0
    } else {
        heading_count(lines.drop_last()) + if is_heading(lines.last()) {
            1nat
        } else {
            0
        }
    }
}

/// The newline-join of a sequence of lines: each line followed by `'\n'`.
pub open spec fn join_nl(ls: Seq<Seq<char>>) -> Seq<char>
    decreases ls.len(),
{
    if ls.len() == 0 {
        Seq::empty()
    } else {
        join_nl(ls.drop_last()) + ls.last() + seq!['\n']
    }
}

/// The positions of the heading lines, in increasing order.
pub open spec fn heading_positions(lines: Seq<Seq<char>>) -> Seq<int>
    decreases lines.len(),
{
    if lines.len() == 0 {
        Seq::empty()
    } else if is_heading(lines.last()) {
        heading_positions(lines.drop_last()).push(lines.len() - 1)
    } else {
        heading_positions(lines.drop_last())
    }
}

/// Where the segment opened by the `k`-th heading ends: at the next
/// heading, or at the end of input.
pub open spec fn segment_end(lines: Seq<Seq<char>>, k: int) -> int {
    let hp = heading_positions(lines);
    if k + 1 < hp.len() {
        hp[k + 1]
    } else {
        lines.len() as int
    }
}

/// The heading positions are indices of heading lines, in increasing order.
proof fn lemma_heading_positions_bounds(lines: Seq<Seq<char>>)
    ensures
        forall|k: int|
            0 <= k < heading_positions(lines).len() ==> {
                let p = #[trigger] heading_positions(lines)[k];
                0 <= p < lines.len() && is_heading(lines[p])
            },
        forall|k: int|
            0 < k < heading_positions(lines).len() ==> heading_positions(lines)[k - 1]
                < #[trigger] heading_positions(lines)[k],
    decreases lines.len(),
{
    if lines.len() > 0 {
        lemma_heading_positions_bounds(lines.drop_last());
        let prev = lines.drop_last();
        let hp = heading_positions(lines);
        let hp0 = heading_positions(prev);
        assert(forall|j: int| 0 <= j < prev.len() ==> prev[j] == lines[j]);
        assert forall|k: int| 0 <= k < hp.len() implies {
            let p = #[trigger] hp[k];
            0 <= p < lines.len() && is_heading(lines[p])
        } by {
            if k < hp0.len() {
                assert(hp[k] == hp0[k]);
                assert(lines[hp0[k]] == prev[hp0[k]]);
            }
        }
    }
}

/// The heading positions are exactly the indices of heading lines, in
/// increasing order.
proof fn lemma_heading_positions_props(lines: Seq<Seq<char>>)
    ensures
        heading_positions(lines).len() == heading_count(lines),
        forall|k: int|
            0 <= k < heading_positions(lines).len() ==> {
                let p = #[trigger] heading_positions(lines)[k];
                0 <= p < lines.len() && is_heading(lines[p])
            },
        forall|k: int, j: int|
            #![trigger heading_positions(lines)[k], lines[j]]
            0 <= k < heading_positions(lines).len() && heading_positions(lines)[k] < j
                && j < segment_end(lines, k) ==> !is_heading(lines[j]),
        forall|k: int|
            0 < k < heading_positions(lines).len() ==> heading_positions(lines)[k - 1]
                < #[trigger] heading_positions(lines)[k],
        heading_positions(lines).len() > 0 ==> heading_positions(lines).first() >= 0,
        forall|j: int|
            0 <= j < lines.len() && is_heading(#[trigger] lines[j]) ==> heading_positions(
                lines,
            ).contains(j),
    decreases lines.len(),
{
    if lines.len() > 0 {
        lemma_heading_positions_props(lines.drop_last());
        let prev = lines.drop_last();
        let hp = heading_positions(lines);
        let hp0 = heading_positions(prev);
        assert(forall|j: int| 0 <= j < prev.len() ==> prev[j] == lines[j]);
        assert forall|j: int|
            0 <= j < lines.len() && is_heading(#[trigger] lines[j]) implies hp.contains(j) by {
            if j < lines.len() - 1 {
                assert(hp0.contains(j));
                let w = choose|w: int| 0 <= w < hp0.len() && hp0[w] == j;
                assert(hp[w] == j);
            } else {
                assert(hp[hp.len() - 1] == j);
            }
        }
        assert forall|k: int, j: int|
            #![trigger heading_positions(lines)[k], lines[j]]
            0 <= k < hp.len() && hp[k] < j && j < segment_end(lines, k) implies !is_heading(
            lines[j],
        ) by {
            if is_heading(lines.last()) {
                if k < hp0.len() {
                    if k + 1 < hp.len() {
                        assert(segment_end(lines, k) == if k + 1 < hp0.len() {
                            hp0[k + 1]
                        } else {
                            prev.len() as int
                        });
                        assert(j < prev.len());
                        assert(j < segment_end(prev, k));
                    }
                }
            } else {
                if j < prev.len() {
                    if k + 1 < hp0.len() {
                        assert(segment_end(lines, k) == segment_end(prev, k));
                    } else {
                        assert(j < segment_end(prev, k));
                    }
                } else {
                    assert(lines[j] == lines.last());
                }
            }
        }
    }
}

proof fn lemma_join_nl_push(ls: Seq<Seq<char>>, l: Seq<char>)
    ensures
        join_nl(ls.push(l)) == join_nl(ls) + l + seq!['\n'],
{
    assert(ls.push(l).drop_last() =~= ls);
    assert(ls.push(l).last() == l);
}

/// The content of the `k`-th tip's segment: the newline-join of the lines
/// between the `k`-th heading and the segment's end.
pub open spec fn seg_content(lines: Seq<Seq<char>>, k: int) -> Seq<char> {
    join_nl(lines.subrange(heading_positions(lines)[k] + 1, segment_end(lines, k)))
}

/// The shape of the parser state after running over `lines`: one completed
/// tip per heading but the last, whose tip is still under construction;
/// each holds its heading's title and the newline-join of its segment.
pub open spec fn run_state_ok(lines: Seq<Seq<char>>) -> bool {
    let st = run_lines((Option::None, Seq::empty()), lines);
    let hp = heading_positions(lines);
    &&& (st.0 is Some <==> hp.len() > 0)
    &&& st.1.len() == if hp.len() > 0 {
        (hp.len() - 1) as int
    } else {
        0
    }
    &&& (hp.len() > 0 ==> st.0->Some_0.0 == heading_title(lines[hp.last()]) && st.0->Some_0.1
        == join_nl(lines.subrange(hp.last() + 1, lines.len() as int)))
    &&& forall|k: int|
        0 <= k < st.1.len() ==> #[trigger] st.1[k].0 == heading_title(lines[hp[k]]) && st.1[k].1
            == seg_content(lines, k)
}

#[verifier::spinoff_prover]
proof fn lemma_run_segments_step_heading(lines: Seq<Seq<char>>)
    requires
        lines.len() > 0,
        is_heading(lines.last()),
        run_state_ok(lines.drop_last()),
    ensures
        run_state_ok(lines),
{
    let st0: ParseState = (Option::None, Seq::empty());
    lemma_heading_positions_bounds(lines);
    lemma_heading_positions_bounds(lines.drop_last());
    let prev = lines.drop_last();
    let l = lines.last();
    let n = lines.len() as int;
    let stp = run_lines(st0, prev);
    let st = run_lines(st0, lines);
    let hp = heading_positions(lines);
    let hp0 = heading_positions(prev);
    assert(st == step(stp, l));
    assert(forall|j: int| 0 <= j < prev.len() ==> prev[j] == lines[j]);
    assert(hp == hp0.push(n - 1));
    assert(st.0->Some_0.0 == heading_title(lines[hp.last()]));
    assert(st.0->Some_0.1 =~= join_nl(lines.subrange(n, n))) by {
        assert(lines.subrange(n, n) =~= Seq::<Seq<char>>::empty());
    }
    match stp.0 {
        Option::Some(cur) => {
            assert(st.1 == stp.1.push(cur));
            assert forall|k: int| 0 <= k < st.1.len() implies #[trigger] st.1[k].0
                == heading_title(lines[hp[k]]) && st.1[k].1 == seg_content(lines, k) by {
                if k < stp.1.len() {
                    assert(st.1[k] == stp.1[k]);
                    assert(hp[k] == hp0[k]);
                    assert(segment_end(lines, k) == segment_end(prev, k)) by {
                        if k + 1 >= hp0.len() {
                            assert(hp[k + 1] == n - 1);
                            assert(segment_end(prev, k) == prev.len() as int);
                        }
                    }
                    assert(lines.subrange(hp[k] + 1, segment_end(lines, k)) =~= prev.subrange(
                        hp0[k] + 1,
                        segment_end(prev, k),
                    ));
                    assert(lines[hp[k]] == prev[hp0[k]]);
                } else {
                    assert(st.1[k] == cur);
                    assert(hp[k] == hp0.last());
                    assert(segment_end(lines, k) == n - 1);
                    assert(lines.subrange(hp0.last() + 1, n - 1) =~= prev.subrange(
                        hp0.last() + 1,
                        prev.len() as int,
                    ));
                    assert(lines[hp[k]] == prev[hp0.last()]);
                }
            }
        },
        Option::None => {
            assert(hp0.len() == 0);
            assert(st.1 =~= stp.1);
        },
    }
}

#[verifier::spinoff_prover]
proof fn lemma_run_segments_step_other(lines: Seq<Seq<char>>)
    requires
        lines.len() > 0,
        !is_heading(lines.last()),
        run_state_ok(lines.drop_last()),
    ensures
        run_state_ok(lines),
{
    let st0: ParseState = (Option::None, Seq::empty());
    lemma_heading_positions_bounds(lines);
    lemma_heading_positions_bounds(lines.drop_last());
    let prev = lines.drop_last();
    let l = lines.last();
    let n = lines.len() as int;
    let stp = run_lines(st0, prev);
    let st = run_lines(st0, lines);
    let hp = heading_positions(lines);
    let hp0 = heading_positions(prev);
    assert(st == step(stp, l));
    assert(forall|j: int| 0 <= j < prev.len() ==> prev[j] == lines[j]);
    assert(hp =~= hp0);
    match stp.0 {
        Option::Some(cur) => {
            assert(st.0->Some_0.0 == cur.0);
            assert(hp.last() == hp0.last());
            assert(lines[hp.last()] == prev[hp0.last()]);
            assert(st.0->Some_0.1 == join_nl(lines.subrange(hp.last() + 1, n))) by {
                let before = prev.subrange(hp0.last() + 1, prev.len() as int);
                let after = lines.subrange(hp.last() + 1, n);
                assert(after =~= before.push(l));
                lemma_join_nl_push(before, l);
            }
            assert(st.1 == stp.1);
            assert forall|k: int| 0 <= k < st.1.len() implies #[trigger] st.1[k].0
                == heading_title(lines[hp[k]]) && st.1[k].1 == seg_content(lines, k) by {
                assert(st.1[k] == stp.1[k]);
                assert(k + 1 < hp0.len());
                assert(segment_end(lines, k) == segment_end(prev, k));
                assert(lines.subrange(hp[k] + 1, segment_end(lines, k)) =~= prev.subrange(
                    hp0[k] + 1,
                    segment_end(prev, k),
                ));
                assert(lines[hp[k]] == prev[hp0[k]]);
            }
        },
        Option::None => {
            assert(st == stp);
        },
    }
}

proof fn lemma_run_segments(lines: Seq<Seq<char>>)
    ensures
        run_state_ok(lines),
    decreases lines.len(),
{
    if lines.len() > 0 {
        lemma_run_segments(lines.drop_last());
        if is_heading(lines.last()) {
            lemma_run_segments_step_heading(lines);
        } else {
            lemma_run_segments_step_other(lines);
        }
    }
}

/// Law: the parser segments its input at the heading lines. It yields one
/// tip per heading; the `k`-th tip's title is the `k`-th heading's text,
/// and its content is the newline-join of exactly the lines between that
/// heading and the next one (or the end of input) — lines among which there
/// is no heading.
pub proof fn lemma_parse_segments(lines: Seq<Seq<char>>)
    ensures
        parse_lines_spec(lines).len() == heading_positions(lines).len(),
        heading_positions(lines).len() == heading_count(lines),
        forall|k: int|
            0 <= k < heading_positions(lines).len() ==> {
                let p = #[trigger] heading_positions(lines)[k];
                &&& 0 <= p < lines.len()
                &&& is_heading(lines[p])
                &&& parse_lines_spec(lines)[k].0 == heading_title(lines[p])
                &&& parse_lines_spec(lines)[k].1 == join_nl(
                    lines.subrange(p + 1, segment_end(lines, k)),
                )
            },
        forall|k: int, j: int|
            #![trigger heading_positions(lines)[k], lines[j]]
            0 <= k < heading_positions(lines).len() && heading_positions(lines)[k] < j && j
                < segment_end(lines, k) ==> !is_heading(lines[j]),
{
    lemma_run_segments(lines);
    lemma_heading_positions_props(lines);
    let st = run_lines((Option::None, Seq::empty()), lines);
    let hp = heading_positions(lines);
    if hp.len() > 0 {
        assert(parse_lines_spec(lines) == st.1.push(st.0->Some_0));
        assert forall|k: int| 0 <= k < hp.len() implies {
            let p = #[trigger] hp[k];
            parse_lines_spec(lines)[k].0 == heading_title(lines[p]) && parse_lines_spec(lines)[k].1
                == join_nl(lines.subrange(p + 1, segment_end(lines, k)))
        } by {
            if k < st.1.len() {
                assert(parse_lines_spec(lines)[k] == st.1[k]);
            } else {
                assert(parse_lines_spec(lines)[k] == st.0->Some_0);
                assert(segment_end(lines, k) == lines.len() as int);
            }
        }
    }
}

proof fn lemma_heading_count_zero(lines: Seq<Seq<char>>)
    requires
        forall|i: int| 0 <= i < lines.len() ==> !is_heading(#[trigger] lines[i]),
    ensures
        heading_count(lines) == 0,
    decreases lines.len(),
{
    if lines.len() > 0 {
        assert(forall|i: int|
            0 <= i < lines.drop_last().len() ==> !is_heading(#[trigger] lines.drop_last()[i]));
        lemma_heading_count_zero(lines.drop_last());
    }
}

/// Law: text in which no line carries the heading marker parses to no tips
/// at all.
pub proof fn lemma_parse_no_heading(s: Seq<char>)
    requires
        forall|i: int|
            0 <= i < split_lines_spec(s).len() ==> !is_heading(#[trigger] split_lines_spec(s)[i]),
    ensures
        parse_text_spec(s) == Seq::<(Seq<char>, Seq<char>)>::empty(),
{
    lemma_heading_count_zero(split_lines_spec(s));
    lemma_parse_segments(split_lines_spec(s));
    assert(parse_text_spec(s) =~= Seq::<(Seq<char>, Seq<char>)>::empty());
}

/// The tips parsed from one transport-encoded body, or the decode failure.
pub open spec fn spec_parse_tips(c: Seq<char>) -> Result<Seq<(Seq<char>, Seq<char>)>, DecodeError> {
    match spec_base64_decode(c) {
        Ok(text) => Ok(parse_text_spec(text)),
        Err(e) => Err(e),
    }
}

/// Decodes a transport-encoded body and parses it into tips.
pub fn parse_tips(c: String) -> (r: Result<Vec<Tip>, DecodeError>)
    ensures
        match r {
            Ok(tips) => spec_parse_tips(c@) == Ok::<Seq<(Seq<char>, Seq<char>)>, DecodeError>(
                tips_model(tips@),
            ),
            Err(e) => spec_parse_tips(c@) == Err::<Seq<(Seq<char>, Seq<char>)>, DecodeError>(e),
        },
{
    match codec::base64_decode(c) {
        Ok(text) => {
            let chars = chars_of(text.as_str());
            let lines = split_lines(&chars);
            Ok(parse_lines(&lines))
        },
        Err(e) => Err(e),
    }
}

/// One record of the ingestion pipeline's output: a tip not yet assigned a
/// storage identity.
#[derive(Debug, Clone)]
pub struct Entity {
    pub title: String,
    pub content: String,
}

impl Entity {
    /// The mathematical value of a pipeline record.
    pub open spec fn model(self) -> (Seq<char>, Seq<char>) {
        (self.title@, self.content@)
    }
}

/// The sequence of models underlying the pipeline's output records.
pub open spec fn pipeline_model(es: Seq<Entity>) -> Seq<(Seq<char>, Seq<char>)> {
    es.map_values(|e: Entity| e.model())
}

fn convert_tip_to_entity(tip: Tip) -> (e: Entity)
    ensures
        e.model() == tip.model(),
{
    Entity { title: tip.title, content: tip.content }
}

/// A field-for-field copy of a tip.
fn clone_tip(t: &Tip) -> (r: Tip)
    ensures
        r.model() == t.model(),
{
    Tip { title: t.title.clone(), content: t.content.clone() }
}

/// The flattened tips of all bodies in order; the first body that fails to
/// decode fails the whole run with its error.
pub open spec fn spec_parse_bodies(bodies: Seq<Seq<char>>) -> Result<
    Seq<(Seq<char>, Seq<char>)>,
    DecodeError,
>
    decreases bodies.len(),
{
    if bodies.len() == 0 {
        Ok(Seq::empty())
    } else {
        match spec_parse_bodies(bodies.drop_last()) {
            Ok(acc) => match spec_parse_tips(bodies.last()) {
                Ok(tips) => Ok(acc + tips),
                Err(e) => Err(e),
            },
            Err(e) => Err(e),
        }
    }
}

proof fn lemma_parse_bodies_err_extends(p: Seq<Seq<char>>, q: Seq<Seq<char>>, e: DecodeError)
    requires
        spec_parse_bodies(p) == Err::<Seq<(Seq<char>, Seq<char>)>, DecodeError>(e),
    ensures
        spec_parse_bodies(p + q) == Err::<Seq<(Seq<char>, Seq<char>)>, DecodeError>(e),
    decreases q.len(),
{
    if q.len() == 0 {
        assert(p + q =~= p);
    } else {
        lemma_parse_bodies_err_extends(p, q.drop_last(), e);
        assert((p + q).drop_last() =~= p + q.drop_last());
        assert((p + q).len() > 0);
    }
}

/// Parses every fetched body in order and flattens all tips into one
/// sequence of pipeline records; the first body that fails to decode aborts
/// the run with its error.
pub fn parse(bodies: &Vec<String>) -> (r: Result<Vec<Entity>, DecodeError>)
    ensures
        match r {
            Ok(es) => spec_parse_bodies(bodies.deep_view()) == Ok::<
                Seq<(Seq<char>, Seq<char>)>,
                DecodeError,
            >(pipeline_model(es@)),
            Err(e) => spec_parse_bodies(bodies.deep_view()) == Err::<
                Seq<(Seq<char>, Seq<char>)>,
                DecodeError,
            >(e),
        },
{
    let ghost bs = bodies.deep_view();
    let mut acc: Vec<Entity> = Vec::new();
    proof {
        assert(bs.take(0) =~= Seq::<Seq<char>>::empty());
        assert(pipeline_model(acc@) =~= Seq::<(Seq<char>, Seq<char>)>::empty());
    }
    let n = bodies.len();
    let mut i: usize = 0;
    while i < n
        invariant
            i <= n,
            n == bodies.len(),
            bs == bodies.deep_view(),
            spec_parse_bodies(bs.take(i as int)) == Ok::<
                Seq<(Seq<char>, Seq<char>)>,
                DecodeError,
            >(pipeline_model(acc@)),
        decreases n - i,
    {
        let body = bodies[i].clone();
        proof {
            assert(body@ == bs[i as int]);
            assert(bs.take(i + 1).drop_last() =~= bs.take(i as int));
            assert(bs.take(i + 1).last() == bs[i as int]);
        }
        match parse_tips(body) {
            Ok(tips) => {
                let ghost before = pipeline_model(acc@);
                let m = tips.len();
                let mut j: usize = 0;
                proof {
                    assert(tips_model(tips@).take(0) =~= Seq::<(Seq<char>, Seq<char>)>::empty());
                    assert(before + tips_model(tips@).take(0) =~= before);
                }
                while j < m
                    invariant
                        j <= m,
                        m == tips.len(),
                        pipeline_model(acc@) == before + tips_model(tips@).take(j as int),
                    decreases m - j,
                {
                    let ghost prev = pipeline_model(acc@);
                    let tip = clone_tip(&tips[j]);
                    proof {
                        assert(tip.model() == tips_model(tips@)[j as int]) by {
                            assert(tips@[j as int].model() == tips_model(tips@)[j as int]);
                        }
                    }
                    let e = convert_tip_to_entity(tip);
                    acc.push(e);
                    proof {
                        assert(pipeline_model(acc@) =~= prev.push(e.model()));
                        assert(tips_model(tips@).take(j + 1)
                            =~= tips_model(tips@).take(j as int).push(tips_model(tips@)[j as int]));
                        assert(pipeline_model(acc@) =~= before + tips_model(tips@).take(j + 1));
                    }
                    j = j + 1;
                }
                proof {
                    assert(tips_model(tips@).take(m as int) =~= tips_model(tips@));
                }
            },
            Err(e) => {
                proof {
                    assert(spec_parse_bodies(bs.take(i + 1))
                        == Err::<Seq<(Seq<char>, Seq<char>)>, DecodeError>(e));
                    lemma_parse_bodies_err_extends(bs.take(i + 1), bs.skip(i + 1), e);
                    assert(bs.take(i + 1) + bs.skip(i + 1) =~= bs);
                }
                return Err(e);
            },
        }
        i = i + 1;
    }
    proof {
        assert(bs.take(n as int) =~= bs);
    }
    Ok(acc)
}

proof fn lemma_line_break_at(s: Seq<char>, k: int)
    requires
        0 <= k <= s.len(),
        forall|i: int| 0 <= i < k ==> s[i] != '\n',
        k < s.len() ==> s[k] == '\n',
    ensures
        line_break(s) == k,
    decreases k,
{
    if s.len() == 0 {
    } else if k == 0 {
    } else {
        assert(s[0] != '\n');
        lemma_line_break_at(s.drop_first(), k - 1);
    }
}

} // verus!
