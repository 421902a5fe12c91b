//! Properties of the filter over whole inputs.
use vstd::prelude::*;
use crate::bytes::has_prefix;
use crate::config::Options;
use crate::filter::{initial_run, run_from, step, FilterRun};
use crate::state::{
    comment_marker, copy_header_state, end_of_copy_marker, is_copy_header, lo_create_marker,
    lo_fn_marker, lo_write_marker, newline_line, next_state_of, State,
};

verus! {

/// The lines written out by a run that succeeds.
pub open spec fn emitted(r: FilterRun, lines: Seq<Seq<u8>>, o: Options) -> Seq<Seq<u8>> {
    match run_from(r, lines, o) {
        Some((_, out)) => out,
        None => Seq::empty(),
    }
}

/// Whether some line written out directly follows another blank one.
pub open spec fn has_repeated_blank(out: Seq<Seq<u8>>) -> bool {
    exists|i: int|
        0 <= i && i + 1 < out.len() && #[trigger] out[i] == newline_line() && out[i + 1]
            == newline_line()
}

/// A blank line classifies as an empty line, or a repeated one.
proof fn lemma_blank_state(prev: State, o: Options)
    ensures
        next_state_of(prev, newline_line(), o) == Some(
            if prev == State::EmptyLine || prev == State::ConsecutiveEmptyLine {
                State::ConsecutiveEmptyLine
            } else {
                State::EmptyLine
            },
        ),
{
    reveal_strlit("\n");
    reveal_strlit("SELECT pg_catalog.lo_create");
    reveal_strlit("SELECT pg_catalog.lo_");
    reveal_strlit("SELECT pg_catalog.lowrite");
}

proof fn lemma_blank_invariant(lines: Seq<Seq<u8>>, o: Options)
    requires
        run_from(initial_run(), lines, o) is Some,
    ensures
        ({
            let (r, out) = run_from(initial_run(), lines, o)->0;
            &&& !has_repeated_blank(out)
            &&& out.len() > 0 && out.last() == newline_line() ==> r.prev_included_state
                == State::EmptyLine
        }),
    decreases lines.len(),
{
    if lines.len() > 0 {
        let pre = lines.drop_last();
        let line = lines.last();
        assert(run_from(initial_run(), pre, o) is Some);
        lemma_blank_invariant(pre, o);
        let (r1, out1) = run_from(initial_run(), pre, o)->0;
        let (r2, keep) = step(r1, line, o)->0;
        if line == newline_line() {
            lemma_blank_state(r1.state, o);
        }
        if keep {
            let out = out1.push(line);
            assert forall|i: int| 0 <= i && i + 1 < out.len() && #[trigger] out[i] == newline_line()
                implies out[i + 1] != newline_line() by {
                if i + 1 < out1.len() {
                    assert(out1[i] == out[i] && out1[i + 1] == out[i + 1]);
                } else {
                    assert(out1.last() == out[i]);
                }
            }
        }
    }
}

/// No two lines written out one after the other are both blank.
pub proof fn lemma_no_repeated_blank_lines(lines: Seq<Seq<u8>>, o: Options)
    requires
        run_from(initial_run(), lines, o) is Some,
    ensures
        !has_repeated_blank(emitted(initial_run(), lines, o)),
{
    lemma_blank_invariant(lines, o);
}

/// With large objects excluded, an `lo_create` line is written out whatever
/// came before it, and every other large-object line is dropped.
pub proof fn lemma_large_objects(r: FilterRun, line: Seq<u8>, o: Options)
    requires
        o.exclude_large_objects,
    ensures
        has_prefix(line, lo_create_marker()) ==> step(r, line, o) == Some(
            (FilterRun { state: State::Statement, prev_included_state: State::Statement }, true),
        ),
        !has_prefix(line, lo_create_marker()) && (has_prefix(line, lo_fn_marker()) || has_prefix(
            line,
            lo_write_marker(),
        )) ==> step(r, line, o) == Some(
            (
                FilterRun { state: State::LargeObject, prev_included_state: r.prev_included_state },
                false,
            ),
        ),
{
}

/// The positions in `lines` of the lines written out.
pub open spec fn kept_positions(r: FilterRun, lines: Seq<Seq<u8>>, o: Options) -> Seq<int>
    decreases lines.len(),
{
    if lines.len() == 0 {
        Seq::empty()
    } else {
        let before = kept_positions(r, lines.drop_last(), o);
        match run_from(r, lines.drop_last(), o) {
            Some((r1, _)) => match step(r1, lines.last(), o) {
                Some((_, true)) => before.push(lines.len() - 1),
                _ => before,
            },
            None => before,
        }
    }
}

/// `idx` picks `out` from `lines` in increasing positions.
pub open spec fn picks_in_order(out: Seq<Seq<u8>>, lines: Seq<Seq<u8>>, idx: Seq<int>) -> bool {
    &&& idx.len() == out.len()
    &&& forall|k: int| 0 <= k < idx.len() ==> 0 <= #[trigger] idx[k] < lines.len()
    &&& forall|k: int| 0 <= k < idx.len() ==> out[k] == lines[#[trigger] idx[k]]
    &&& forall|j: int, k: int| 0 <= j < k < idx.len() ==> #[trigger] idx[j] < #[trigger] idx[k]
}

proof fn lemma_kept_positions(r: FilterRun, lines: Seq<Seq<u8>>, o: Options)
    requires
        run_from(r, lines, o) is Some,
    ensures
        picks_in_order(emitted(r, lines, o), lines, kept_positions(r, lines, o)),
    decreases lines.len(),
{
    if lines.len() > 0 {
        let pre = lines.drop_last();
        lemma_kept_positions(r, pre, o);
        let out = emitted(r, lines, o);
        let idx = kept_positions(r, lines, o);
        let idx1 = kept_positions(r, pre, o);
        assert forall|k: int| 0 <= k < idx1.len() implies 0 <= #[trigger] idx1[k] < lines.len()
            - 1 && lines[idx1[k]] == pre[idx1[k]] by {}
        assert(picks_in_order(out, lines, idx));
    }
}

/// The lines written out keep the order that they had in the input.
pub proof fn lemma_order_preserved(lines: Seq<Seq<u8>>, o: Options)
    requires
        run_from(initial_run(), lines, o) is Some,
    ensures
        exists|idx: Seq<int>| picks_in_order(emitted(initial_run(), lines, o), lines, idx),
{
    lemma_kept_positions(initial_run(), lines, o);
}

/// Running over `a` then `b` is running over `a + b`.
pub proof fn lemma_run_append(r: FilterRun, a: Seq<Seq<u8>>, b: Seq<Seq<u8>>, o: Options)
    ensures
        run_from(r, a + b, o) == match run_from(r, a, o) {
            None => None,
            Some((r1, out1)) => match run_from(r1, b, o) {
                None => None,
                Some((r2, out2)) => Some((r2, out1 + out2)),
            },
        },
    decreases b.len(),
{
    if b.len() == 0 {
        assert(a + b =~= a);
        if let Some((r1, out1)) = run_from(r, a, o) {
            assert(out1 + Seq::<Seq<u8>>::empty() =~= out1);
        }
    } else {
        assert((a + b).drop_last() =~= a + b.drop_last());
        assert((a + b).last() == b.last());
        lemma_run_append(r, a, b.drop_last(), o);
        if let Some((r1, out1)) = run_from(r, a, o) {
            if let Some((r2, out2)) = run_from(r1, b.drop_last(), o) {
                assert(out1 + out2.push(b.last()) =~= (out1 + out2).push(b.last()));
            }
        }
    }
}

/// A run over one line is one step.
pub proof fn lemma_single_line(r: FilterRun, line: Seq<u8>, o: Options)
    ensures
        run_from(r, seq![line], o) == match step(r, line, o) {
            None => None,
            Some((r1, keep)) => Some(
                (
                    r1,
                    if keep {
                        seq![line]
                    } else {
                        Seq::empty()
                    },
                ),
            ),
        },
{
    assert(seq![line].drop_last() =~= Seq::<Seq<u8>>::empty());
    assert(seq![line].last() == line);
    assert(run_from(r, Seq::<Seq<u8>>::empty(), o) == Some((r, Seq::<Seq<u8>>::empty())));
    assert(Seq::<Seq<u8>>::empty().push(line) =~= seq![line]);
}

/// A data row of a copy block: no rule but the last one applies to it.
pub open spec fn is_plain_row(line: Seq<u8>) -> bool {
    &&& !has_prefix(line, lo_create_marker())
    &&& !has_prefix(line, lo_fn_marker())
    &&& !has_prefix(line, lo_write_marker())
    &&& line != newline_line()
    &&& !has_prefix(line, comment_marker())
    &&& !has_prefix(line, end_of_copy_marker())
    &&& !is_copy_header(line)
}

proof fn lemma_first_byte(line: Seq<u8>, pat: Seq<u8>)
    requires
        has_prefix(line, pat),
        pat.len() > 0,
    ensures
        line[0] == pat[0],
{
    assert(line.subrange(0, pat.len() as int)[0] == line[0]);
}

/// A copy header is classified by its own text alone.
pub proof fn lemma_header_state(prev: State, header: Seq<u8>, o: Options)
    requires
        is_copy_header(header),
    ensures
        next_state_of(prev, header, o) == copy_header_state(header, o),
{
    reveal_strlit("SELECT pg_catalog.lo_create");
    reveal_strlit("SELECT pg_catalog.lo_");
    reveal_strlit("SELECT pg_catalog.lowrite");
    reveal_strlit("\n");
    reveal_strlit("--");
    reveal_strlit("\\.");
    reveal_strlit("COPY ");
    reveal_strlit("FROM stdin;\n");
    lemma_first_byte(header, crate::state::copy_prefix());
    if has_prefix(header, lo_create_marker()) {
        lemma_first_byte(header, lo_create_marker());
    }
    if has_prefix(header, lo_fn_marker()) {
        lemma_first_byte(header, lo_fn_marker());
    }
    if has_prefix(header, lo_write_marker()) {
        lemma_first_byte(header, lo_write_marker());
    }
    if has_prefix(header, comment_marker()) {
        lemma_first_byte(header, comment_marker());
    }
    if has_prefix(header, end_of_copy_marker()) {
        lemma_first_byte(header, end_of_copy_marker());
    }
}

/// A terminator line ends an excluded block, and leaves any other state as
/// it was.
pub proof fn lemma_terminator_state(prev: State, term: Seq<u8>, o: Options)
    requires
        has_prefix(term, end_of_copy_marker()),
    ensures
        next_state_of(prev, term, o) == Some(
            if prev == State::ExcludedCopyBlock {
                State::EndOfExcludedCopyBlock
            } else {
                prev
            },
        ),
{
    reveal_strlit("SELECT pg_catalog.lo_create");
    reveal_strlit("SELECT pg_catalog.lo_");
    reveal_strlit("SELECT pg_catalog.lowrite");
    reveal_strlit("\n");
    reveal_strlit("--");
    reveal_strlit("\\.");
    lemma_first_byte(term, end_of_copy_marker());
    if has_prefix(term, lo_create_marker()) {
        lemma_first_byte(term, lo_create_marker());
    }
    if has_prefix(term, lo_fn_marker()) {
        lemma_first_byte(term, lo_fn_marker());
    }
    if has_prefix(term, lo_write_marker()) {
        lemma_first_byte(term, lo_write_marker());
    }
    if has_prefix(term, comment_marker()) {
        lemma_first_byte(term, comment_marker());
    }
}

proof fn lemma_rows_in_state(r: FilterRun, rows: Seq<Seq<u8>>, o: Options)
    requires
        r.state == State::ExcludedCopyBlock || (r.state == State::Statement
            && r.prev_included_state == State::Statement),
        forall|k: int| 0 <= k < rows.len() ==> is_plain_row(#[trigger] rows[k]),
    ensures
        run_from(r, rows, o) == Some(
            (r, if r.state == State::Statement { rows } else { Seq::empty() }),
        ),
    decreases rows.len(),
{
    if rows.len() > 0 {
        lemma_rows_in_state(r, rows.drop_last(), o);
        assert(is_plain_row(rows[rows.len() - 1]));
        if r.state == State::Statement {
            assert(rows.drop_last().push(rows.last()) =~= rows);
        }
    }
}

/// Every line of a copy block whose header is excluded, up to and
/// including its terminator, is dropped.
pub proof fn lemma_excluded_block_dropped(
    r: FilterRun,
    header: Seq<u8>,
    rows: Seq<Seq<u8>>,
    term: Seq<u8>,
    o: Options,
)
    requires
        is_copy_header(header),
        copy_header_state(header, o) == Some(State::ExcludedCopyBlock),
        forall|k: int| 0 <= k < rows.len() ==> is_plain_row(#[trigger] rows[k]),
        has_prefix(term, end_of_copy_marker()),
    ensures
        run_from(r, seq![header] + rows + seq![term], o) == Some(
            (
                FilterRun {
                    state: State::EndOfExcludedCopyBlock,
                    prev_included_state: r.prev_included_state,
                },
                Seq::<Seq<u8>>::empty(),
            ),
        ),
{
    let inside = FilterRun {
        state: State::ExcludedCopyBlock,
        prev_included_state: r.prev_included_state,
    };
    lemma_header_state(r.state, header, o);
    lemma_single_line(r, header, o);
    assert(run_from(r, seq![header], o) == Some((inside, Seq::<Seq<u8>>::empty())));
    lemma_rows_in_state(inside, rows, o);
    lemma_run_append(r, seq![header], rows, o);
    assert(Seq::<Seq<u8>>::empty() + Seq::<Seq<u8>>::empty() =~= Seq::<Seq<u8>>::empty());
    lemma_terminator_state(State::ExcludedCopyBlock, term, o);
    lemma_single_line(inside, term, o);
    lemma_run_append(r, seq![header] + rows, seq![term], o);
}

/// Every line of a copy block whose header is kept, up to and including its
/// terminator, is written out, whatever came before it.
pub proof fn lemma_kept_block_written(
    r: FilterRun,
    header: Seq<u8>,
    rows: Seq<Seq<u8>>,
    term: Seq<u8>,
    o: Options,
)
    requires
        is_copy_header(header),
        copy_header_state(header, o) == Some(State::Statement),
        forall|k: int| 0 <= k < rows.len() ==> is_plain_row(#[trigger] rows[k]),
        has_prefix(term, end_of_copy_marker()),
    ensures
        run_from(r, seq![header] + rows + seq![term], o) == Some(
            (
                FilterRun { state: State::Statement, prev_included_state: State::Statement },
                seq![header] + rows + seq![term],
            ),
        ),
{
    let inside = FilterRun { state: State::Statement, prev_included_state: State::Statement };
    lemma_header_state(r.state, header, o);
    lemma_single_line(r, header, o);
    assert(Seq::<Seq<u8>>::empty().push(header) =~= seq![header]);
    assert(run_from(r, seq![header], o) == Some((inside, seq![header])));
    lemma_rows_in_state(inside, rows, o);
    lemma_run_append(r, seq![header], rows, o);
    lemma_terminator_state(State::Statement, term, o);
    lemma_single_line(inside, term, o);
    assert(Seq::<Seq<u8>>::empty().push(term) =~= seq![term]);
    lemma_run_append(r, seq![header] + rows, seq![term], o);
}

/// An excluded copy block is dropped whole, and a later copy block that is
/// kept is written out whole, whatever stands between them.
pub proof fn lemma_copy_block_atomicity(
    r: FilterRun,
    dropped: (Seq<u8>, Seq<Seq<u8>>, Seq<u8>),
    between: Seq<Seq<u8>>,
    kept: (Seq<u8>, Seq<Seq<u8>>, Seq<u8>),
    o: Options,
)
    requires
        is_copy_header(dropped.0),
        copy_header_state(dropped.0, o) == Some(State::ExcludedCopyBlock),
        forall|k: int| 0 <= k < dropped.1.len() ==> is_plain_row(#[trigger] dropped.1[k]),
        has_prefix(dropped.2, end_of_copy_marker()),
        run_from(
            FilterRun {
                state: State::EndOfExcludedCopyBlock,
                prev_included_state: r.prev_included_state,
            },
            between,
            o,
        ) is Some,
        is_copy_header(kept.0),
        copy_header_state(kept.0, o) == Some(State::Statement),
        forall|k: int| 0 <= k < kept.1.len() ==> is_plain_row(#[trigger] kept.1[k]),
        has_prefix(kept.2, end_of_copy_marker()),
    ensures
        ({
            let first = seq![dropped.0] + dropped.1 + seq![dropped.2];
            let second = seq![kept.0] + kept.1 + seq![kept.2];
            let after = FilterRun {
                state: State::EndOfExcludedCopyBlock,
                prev_included_state: r.prev_included_state,
            };
            emitted(r, first + between + second, o) == emitted(after, between, o) + second
        }),
{
    let first = seq![dropped.0] + dropped.1 + seq![dropped.2];
    let second = seq![kept.0] + kept.1 + seq![kept.2];
    let after = FilterRun {
        state: State::EndOfExcludedCopyBlock,
        prev_included_state: r.prev_included_state,
    };
    lemma_excluded_block_dropped(r, dropped.0, dropped.1, dropped.2, o);
    let (r2, mid) = run_from(after, between, o)->0;
    lemma_kept_block_written(r2, kept.0, kept.1, kept.2, o);
    lemma_run_append(r, first, between, o);
    assert(Seq::<Seq<u8>>::empty() + mid =~= mid);
    lemma_run_append(r, first + between, second, o);
}

} // verus!
