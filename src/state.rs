//! Classification of each line of a dump, and whether it is kept.
use vstd::prelude::*;
use crate::bytes::{ascii_bytes, ascii_marker, ends_with, has_prefix, has_suffix, starts_with};
use crate::config::{FilterError, Options};
use crate::text::{
    any_occurs, copy_needle, decode_text, lower_of, lowercase, lowered_needles, occurs_any,
    texts_of,
};

verus! {

/// The class of the line that was read last.
#[derive(Debug, Clone, Copy, PartialEq, Eq, Structural)]
pub enum State {
    /// No line has been read yet.
    Init,
    Comment,
    EmptyLine,
    ConsecutiveEmptyLine,
    ExcludedCopyBlock,
    EndOfExcludedCopyBlock,
    LargeObject,
    Statement,
}

pub const LO_CREATE: &'static str = "SELECT pg_catalog.lo_create";

pub const LO_FN: &'static str = "SELECT pg_catalog.lo_";

pub const LO_WRITE: &'static str = "SELECT pg_catalog.lowrite";

pub const NEWLINE: &'static str = "\n";

pub const COMMENT: &'static str = "--";

pub const END_OF_COPY_BLOCK: &'static str = "\\.";

pub const COPY_BLOCK_PREFIX: &'static str = "COPY ";

pub const COPY_BLOCK_SUFFIX: &'static str = "FROM stdin;\n";

pub open spec fn lo_create_marker() -> Seq<u8> {
    ascii_bytes("SELECT pg_catalog.lo_create"@)
}

pub open spec fn lo_fn_marker() -> Seq<u8> {
    ascii_bytes("SELECT pg_catalog.lo_"@)
}

pub open spec fn lo_write_marker() -> Seq<u8> {
    ascii_bytes("SELECT pg_catalog.lowrite"@)
}

pub open spec fn newline_line() -> Seq<u8> {
    ascii_bytes("\n"@)
}

pub open spec fn comment_marker() -> Seq<u8> {
    ascii_bytes("--"@)
}

pub open spec fn end_of_copy_marker() -> Seq<u8> {
    ascii_bytes("\\."@)
}

pub open spec fn copy_prefix() -> Seq<u8> {
    ascii_bytes("COPY "@)
}

pub open spec fn copy_suffix() -> Seq<u8> {
    ascii_bytes("FROM stdin;\n"@)
}

/// A line that opens a copy block: `COPY ... FROM stdin;` and its newline.
pub open spec fn is_copy_header(line: Seq<u8>) -> bool {
    has_prefix(line, copy_prefix()) && has_suffix(line, copy_suffix())
}

/// The state of a copy header whose lower-cased text is `text`, given the
/// lower-cased needles of the blocks to drop and of the blocks to keep.
pub open spec fn header_state(
    text: Seq<char>,
    excluded: Seq<Seq<char>>,
    included: Seq<Seq<char>>,
) -> State {
    if any_occurs(text, excluded) {
        State::ExcludedCopyBlock
    } else if included.len() > 0 && !any_occurs(text, included) {
        State::ExcludedCopyBlock
    } else {
        State::Statement
    }
}

/// The lower-cased needles of `blocks` in schema `schema`.
pub open spec fn needles_of(schema: Seq<char>, blocks: Seq<String>) -> Seq<Seq<char>> {
    texts_of(blocks).map_values(|b: Seq<char>| lower_of(copy_needle(schema, b)))
}

/// The state of copy header `line`; `None` where it is not UTF-8.
pub open spec fn copy_header_state(line: Seq<u8>, o: Options) -> Option<State> {
    if vstd::utf8::valid_utf8(line) {
        Some(
            header_state(
                lower_of(vstd::utf8::decode_utf8(line)),
                needles_of(o.schema@, o.excluded_copy_blocks@),
                needles_of(o.schema@, o.included_copy_blocks@),
            ),
        )
    } else {
        None
    }
}

/// The state after line `line` in state `prev`; `None` where the line cannot
/// be classified.
pub open spec fn next_state_of(prev: State, line: Seq<u8>, o: Options) -> Option<State> {
    if has_prefix(line, lo_create_marker()) {
        Some(State::Statement)
    } else if has_prefix(line, lo_fn_marker()) || has_prefix(line, lo_write_marker()) {
        Some(State::LargeObject)
    } else if line == newline_line() {
        if prev == State::EmptyLine || prev == State::ConsecutiveEmptyLine {
            Some(State::ConsecutiveEmptyLine)
        } else {
            Some(State::EmptyLine)
        }
    } else if has_prefix(line, comment_marker()) {
        Some(State::Comment)
    } else if has_prefix(line, end_of_copy_marker()) {
        if prev == State::ExcludedCopyBlock {
            Some(State::EndOfExcludedCopyBlock)
        } else {
            Some(prev)
        }
    } else if is_copy_header(line) {
        copy_header_state(line, o)
    } else if prev == State::ExcludedCopyBlock {
        Some(State::ExcludedCopyBlock)
    } else {
        Some(State::Statement)
    }
}

/// Whether a line of state `s` is written out, given the state of the last
/// line that was.
pub open spec fn included(s: State, exclude_large_objects: bool, prev_included: State) -> bool {
    match s {
        State::Comment => false,
        State::ConsecutiveEmptyLine => false,
        State::ExcludedCopyBlock => false,
        State::EndOfExcludedCopyBlock => false,
        State::LargeObject => !exclude_large_objects,
        State::EmptyLine => prev_included != State::EmptyLine,
        _ => true,
    }
}

/// The state of a copy header from its lower-cased text and the
/// lower-cased needles of the blocks to drop and to keep.
pub fn block_state(line_lower: &str, excluded: &Vec<String>, included: &Vec<String>) -> (r: State)
    ensures
        r == header_state(line_lower@, texts_of(excluded@), texts_of(included@)),
{
    if occurs_any(line_lower, excluded) {
        State::ExcludedCopyBlock
    } else if included.len() > 0 && !occurs_any(line_lower, included) {
        State::ExcludedCopyBlock
    } else {
        State::Statement
    }
}

impl State {
    /// Classifies `buf`, read in state `self`.
    pub fn next_state(&self, buf: &[u8], opts: &Options) -> (r: Result<State, FilterError>)
        ensures
            next_state_of(*self, buf@, *opts) matches Some(s) ==> r == Ok::<State, FilterError>(s),
            next_state_of(*self, buf@, *opts) is None ==> r == Err::<State, FilterError>(
                FilterError::InvalidText,
            ),
    {
        proof {
            reveal_strlit("SELECT pg_catalog.lo_create");
            reveal_strlit("SELECT pg_catalog.lo_");
            reveal_strlit("SELECT pg_catalog.lowrite");
            reveal_strlit("\n");
            reveal_strlit("--");
            reveal_strlit("\\.");
            reveal_strlit("COPY ");
            reveal_strlit("FROM stdin;\n");
        }
        assert(newline_line().subrange(0, 1) =~= newline_line());
        if starts_with(buf, ascii_marker(LO_CREATE)) {
            // kept whatever else holds: OID columns refer to the new object
            Ok(State::Statement)
        } else if starts_with(buf, ascii_marker(LO_FN)) || starts_with(buf, ascii_marker(LO_WRITE)) {
            Ok(State::LargeObject)
        } else if buf.len() == 1 && starts_with(buf, ascii_marker(NEWLINE)) {
            assert(buf@ =~= newline_line());
            match self {
                State::EmptyLine => Ok(State::ConsecutiveEmptyLine),
                State::ConsecutiveEmptyLine => Ok(State::ConsecutiveEmptyLine),
                _ => Ok(State::EmptyLine),
            }
        } else if starts_with(buf, ascii_marker(COMMENT)) {
            Ok(State::Comment)
        } else if starts_with(buf, ascii_marker(END_OF_COPY_BLOCK)) {
            match self {
                State::ExcludedCopyBlock => Ok(State::EndOfExcludedCopyBlock),
                state => Ok(*state),
            }
        } else if starts_with(buf, ascii_marker(COPY_BLOCK_PREFIX)) && ends_with(
            buf,
            ascii_marker(COPY_BLOCK_SUFFIX),
        ) {
            match decode_text(buf) {
                None => Err(FilterError::InvalidText),
                Some(text) => {
                    let l = lowercase(text.as_str());
                    let excluded = lowered_needles(opts.schema.as_str(), &opts.excluded_copy_blocks);
                    let included = lowered_needles(opts.schema.as_str(), &opts.included_copy_blocks);
                    let r = block_state(l.as_str(), &excluded, &included);
                    Ok(r)
                },
            }
        } else {
            // Every row of a dropped block lands here, unless an earlier rule
            // claims it first: a row that begins like a large-object call, a
            // comment or a blank line leaves the block's state and is then
            // judged on its own. The order of the rules is kept as it is.
            match self {
                State::ExcludedCopyBlock => Ok(State::ExcludedCopyBlock),
                _ => Ok(State::Statement),
            }
        }
    }

    /// Whether a line classified as `self` is written out.
    pub fn must_include(&self, opts: &Options, prev_included_state: &State) -> (r: bool)
        ensures
            r == included(*self, opts.exclude_large_objects, *prev_included_state),
    {
        match self {
            State::Comment => false,
            State::ConsecutiveEmptyLine => false,
            State::ExcludedCopyBlock => false,
            State::EndOfExcludedCopyBlock => false,
            State::LargeObject if opts.exclude_large_objects => false,
            State::EmptyLine if *prev_included_state == State::EmptyLine => false,
            _ => true,
        }
    }
}

} // verus!
