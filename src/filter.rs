//! The filter loop: classifies each line in turn and keeps those that must
//! be written out.
use vstd::prelude::*;
use crate::config::{FilterError, Options};
use crate::state::{included, next_state_of, State};

verus! {

/// What the filter remembers between two lines.
#[derive(Debug, Clone, Copy, PartialEq, Eq, Structural)]
pub struct FilterRun {
    /// State of the line read last.
    pub state: State,
    /// State of the line written last, `Init` before the first.
    pub prev_included_state: State,
}

pub open spec fn initial_run() -> FilterRun {
    FilterRun { state: State::Init, prev_included_state: State::Init }
}

/// The run after `line` and whether `line` is written out; `None` where the
/// line cannot be classified.
pub open spec fn step(r: FilterRun, line: Seq<u8>, o: Options) -> Option<(FilterRun, bool)> {
    match next_state_of(r.state, line, o) {
        None => None,
        Some(s) => {
            let keep = included(s, o.exclude_large_objects, r.prev_included_state);
            Some(
                (
                    FilterRun {
                        state: s,
                        prev_included_state: if keep {
                            s
                        } else {
                            r.prev_included_state
                        },
                    },
                    keep,
                ),
            )
        },
    }
}

/// The run after `lines`, started in `r`, and the lines written out, in
/// order; `None` where some line cannot be classified.
pub open spec fn run_from(r: FilterRun, lines: Seq<Seq<u8>>, o: Options) -> Option<
    (FilterRun, Seq<Seq<u8>>),
>
    decreases lines.len(),
{
    if lines.len() == 0 {
        Some((r, Seq::empty()))
    } else {
        match run_from(r, lines.drop_last(), o) {
            None => None,
            Some((r1, out)) => match step(r1, lines.last(), o) {
                None => None,
                Some((r2, keep)) => Some(
                    (
                        r2,
                        if keep {
                            out.push(lines.last())
                        } else {
                            out
                        },
                    ),
                ),
            },
        }
    }
}

pub open spec fn lines_of(v: Seq<Vec<u8>>) -> Seq<Seq<u8>> {
    v.map_values(|l: Vec<u8>| l@)
}

impl FilterRun {
    /// The run before the first line.
    pub fn new() -> (r: FilterRun)
        ensures
            r == initial_run(),
    {
        FilterRun { state: State::Init, prev_included_state: State::Init }
    }

    /// Classifies `line` and says whether it is written out.
    pub fn process_line(&mut self, line: &[u8], opts: &Options) -> (r: Result<bool, FilterError>)
        ensures
            step(*old(self), line@, *opts) matches Some((n, keep)) ==> r == Ok::<bool, FilterError>(
                keep,
            ) && *final(self) == n,
            step(*old(self), line@, *opts) is None ==> r == Err::<bool, FilterError>(
                FilterError::InvalidText,
            ) && *final(self) == *old(self),
    {
        let state = self.state.next_state(line, opts)?;
        self.state = state;
        if state.must_include(opts, &self.prev_included_state) {
            self.prev_included_state = state;
            Ok(true)
        } else {
            Ok(false)
        }
    }
}

/// The lines of `lines` that are written out, in order.
pub fn filter_lines(lines: &Vec<Vec<u8>>, opts: &Options) -> (r: Result<Vec<Vec<u8>>, FilterError>)
    ensures
        run_from(initial_run(), lines_of(lines@), *opts) matches Some((_, out)) ==> r is Ok
            && lines_of(r->Ok_0@) == out,
        run_from(initial_run(), lines_of(lines@), *opts) is None ==> r == Err::<
            Vec<Vec<u8>>,
            FilterError,
        >(FilterError::InvalidText),
{
    let mut run = FilterRun::new();
    let mut out: Vec<Vec<u8>> = Vec::new();
    let mut i: usize = 0;
    while i < lines.len()
        invariant
            i <= lines@.len(),
            run_from(initial_run(), lines_of(lines@).subrange(0, i as int), *opts) == Some(
                (run, lines_of(out@)),
            ),
        decreases lines@.len() - i,
    {
        let ghost pre = lines_of(lines@).subrange(0, i as int);
        let ghost next = lines_of(lines@).subrange(0, i + 1);
        assert(next.drop_last() =~= pre);
        assert(next.last() == lines@[i as int]@);
        match run.process_line(lines[i].as_slice(), opts) {
            Err(e) => {
                proof {
                    lemma_run_stays_failed(lines_of(lines@), (i + 1) as int, *opts);
                }
                return Err(e);
            },
            Ok(keep) => {
                if keep {
                    let ghost before = out@;
                    out.push(lines[i].clone());
                    assert(lines_of(out@) =~= lines_of(before).push(lines@[i as int]@));
                }
            },
        }
        i = i + 1;
    }
    assert(lines_of(lines@).subrange(0, i as int) =~= lines_of(lines@));
    Ok(out)
}

/// Once a prefix of the input fails, every longer prefix fails too.
proof fn lemma_run_stays_failed(lines: Seq<Seq<u8>>, n: int, o: Options)
    requires
        0 < n <= lines.len(),
        run_from(initial_run(), lines.subrange(0, n), o) is None,
    ensures
        run_from(initial_run(), lines, o) is None,
    decreases lines.len() - n,
{
    if n < lines.len() {
        assert(lines.subrange(0, n + 1).drop_last() =~= lines.subrange(0, n));
        lemma_run_stays_failed(lines, n + 1, o);
    } else {
        assert(lines.subrange(0, n) =~= lines);
    }
}

} // verus!
