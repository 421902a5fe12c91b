use pgdump_filter::config::{FilterError, Options};
use pgdump_filter::filter::{filter_lines, FilterRun};
use pgdump_filter::state::{block_state, State};

fn lines(v: &[&str]) -> Vec<Vec<u8>> {
    v.iter().map(|s| s.as_bytes().to_vec()).collect()
}

fn texts(v: &[&str]) -> Vec<String> {
    v.iter().map(|s| s.to_string()).collect()
}

fn plain() -> Options {
    Options::new(vec![], vec![], false, "public".to_string(), 32).unwrap()
}

fn run(input: &[&str], opts: &Options) -> Vec<Vec<u8>> {
    filter_lines(&lines(input), opts).unwrap()
}

#[test]
fn comment_dropped_and_blank_lines_collapsed() {
    let out = run(&["-- comment\n", "\n", "\n", "SELECT 1;\n"], &plain());
    assert_eq!(out, lines(&["\n", "SELECT 1;\n"]));
}

#[test]
fn excluded_copy_block_dropped_whole() {
    let opts = Options::new(texts(&["orders"]), vec![], false, "public".to_string(), 32).unwrap();
    let out = run(
        &["SELECT 1;\n", "COPY public.orders FROM stdin;\n", "1\t2\n", "\\.\n", "SELECT 2;\n"],
        &opts,
    );
    assert_eq!(out, lines(&["SELECT 1;\n", "SELECT 2;\n"]));
}

#[test]
fn lo_create_kept_when_large_objects_excluded() {
    let opts = Options::new(vec![], vec![], true, "public".to_string(), 32).unwrap();
    let out = run(
        &["SELECT pg_catalog.lo_create(-1);\n", "SELECT pg_catalog.lowrite(0, '...');\n"],
        &opts,
    );
    assert_eq!(out, lines(&["SELECT pg_catalog.lo_create(-1);\n"]));
}

#[test]
fn large_objects_kept_by_default() {
    let out = run(
        &[
            "SELECT pg_catalog.lo_open(1, 2);\n",
            "SELECT pg_catalog.lowrite(0, 'x');\n",
            "SELECT pg_catalog.lo_close(0);\n",
        ],
        &plain(),
    );
    assert_eq!(out.len(), 3);
}

#[test]
fn large_object_calls_dropped() {
    let opts = Options::new(vec![], vec![], true, "public".to_string(), 32).unwrap();
    let out = run(
        &[
            "SELECT pg_catalog.lo_open(1, 2);\n",
            "SELECT pg_catalog.lo_create(7);\n",
            "SELECT pg_catalog.lo_close(0);\n",
            "SELECT 3;\n",
        ],
        &opts,
    );
    assert_eq!(out, lines(&["SELECT pg_catalog.lo_create(7);\n", "SELECT 3;\n"]));
}

#[test]
fn block_outside_allow_list_dropped() {
    let opts = Options::new(vec![], texts(&["orders"]), false, "public".to_string(), 32).unwrap();
    let out = run(
        &[
            "COPY public.customers FROM stdin;\n",
            "7\tann\n",
            "\\.\n",
            "COPY public.orders FROM stdin;\n",
            "1\t2\n",
            "\\.\n",
        ],
        &opts,
    );
    assert_eq!(out, lines(&["COPY public.orders FROM stdin;\n", "1\t2\n", "\\.\n"]));
}

#[test]
fn both_block_lists_rejected() {
    let r = Options::new(texts(&["a"]), texts(&["b"]), false, "public".to_string(), 32);
    assert_eq!(r.err(), Some(FilterError::ConflictingBlockLists));
}

#[test]
fn one_block_list_accepted() {
    assert!(Options::new(texts(&["a"]), vec![], false, "public".to_string(), 32).is_ok());
    assert!(Options::new(vec![], texts(&["b"]), false, "public".to_string(), 32).is_ok());
}

#[test]
fn no_two_blank_lines_in_a_row() {
    let out = run(&["\n", "\n", "-- c\n", "\n", "x\n", "\n", "\n", "\n"], &plain());
    assert_eq!(out, lines(&["\n", "x\n", "\n"]));
    for w in out.windows(2) {
        assert!(!(w[0] == b"\n" && w[1] == b"\n"));
    }
}

#[test]
fn blank_after_dropped_comment_still_collapsed() {
    let out = run(&["a\n", "\n", "-- c\n", "\n", "b\n"], &plain());
    assert_eq!(out, lines(&["a\n", "\n", "b\n"]));
}

#[test]
fn order_of_kept_lines_preserved() {
    let opts = Options::new(texts(&["t"]), vec![], false, "public".to_string(), 32).unwrap();
    let out = run(
        &["c\n", "-- x\n", "b\n", "COPY public.t FROM stdin;\n", "9\n", "\\.\n", "a\n"],
        &opts,
    );
    assert_eq!(out, lines(&["c\n", "b\n", "a\n"]));
}

#[test]
fn later_kept_block_unaffected() {
    let opts = Options::new(texts(&["orders"]), vec![], false, "public".to_string(), 32).unwrap();
    let out = run(
        &[
            "COPY public.orders FROM stdin;\n",
            "1\t2\n",
            "\\.\n",
            "COPY public.items FROM stdin;\n",
            "3\t4\n",
            "\\.\n",
        ],
        &opts,
    );
    assert_eq!(out, lines(&["COPY public.items FROM stdin;\n", "3\t4\n", "\\.\n"]));
}

#[test]
fn block_names_match_without_regard_to_case() {
    let opts = Options::new(texts(&["Orders"]), vec![], false, "public".to_string(), 32).unwrap();
    let out = run(&["COPY PUBLIC.ORDERS FROM stdin;\n", "1\n", "\\.\n"], &opts);
    assert!(out.is_empty());
}

#[test]
fn block_name_must_be_whole() {
    let opts = Options::new(texts(&["order"]), vec![], false, "public".to_string(), 32).unwrap();
    let out = run(&["COPY public.orders FROM stdin;\n", "1\n", "\\.\n"], &opts);
    assert_eq!(out.len(), 3);
}

#[test]
fn schema_qualifies_block_name() {
    let opts = Options::new(texts(&["orders"]), vec![], false, "sales".to_string(), 32).unwrap();
    let out = run(
        &["COPY public.orders FROM stdin;\n", "1\n", "\\.\n", "COPY sales.orders FROM stdin;\n", "2\n", "\\.\n"],
        &opts,
    );
    assert_eq!(out, lines(&["COPY public.orders FROM stdin;\n", "1\n", "\\.\n"]));
}

#[test]
fn header_without_newline_is_not_a_header() {
    let opts = Options::new(texts(&["orders"]), vec![], false, "public".to_string(), 32).unwrap();
    let out = run(&["COPY public.orders FROM stdin;", ], &opts);
    assert_eq!(out.len(), 1);
}

#[test]
fn invalid_utf8_header_is_an_error() {
    let bad: Vec<u8> = vec![b'C', b'O', b'P', b'Y', b' ', 0xff, b' ', b'F', b'R', b'O', b'M', b' ', b's', b't', b'd', b'i', b'n', b';', b'\n'];
    let r = filter_lines(&vec![bad], &plain());
    assert_eq!(r.err(), Some(FilterError::InvalidText));
}

#[test]
fn invalid_utf8_data_row_passes_through() {
    let row: Vec<u8> = vec![0xff, b'\n'];
    let r = filter_lines(&vec![row.clone()], &plain()).unwrap();
    assert_eq!(r, vec![row]);
}

#[test]
fn lo_call_inside_dropped_block_leaks() {
    // rows are classified by their first bytes before the block's state is
    // consulted, so such a row is judged on its own
    let opts = Options::new(texts(&["t"]), vec![], false, "public".to_string(), 32).unwrap();
    let out = run(
        &["COPY public.t FROM stdin;\n", "SELECT pg_catalog.lo_create(1);\n", "5\n", "\\.\n"],
        &opts,
    );
    assert_eq!(out, lines(&["SELECT pg_catalog.lo_create(1);\n", "5\n", "\\.\n"]));
}

#[test]
fn terminator_outside_block_keeps_state() {
    let s = State::Statement.next_state(b"\\.\n", &plain()).unwrap();
    assert_eq!(s, State::Statement);
    let s = State::ExcludedCopyBlock.next_state(b"\\.\n", &plain()).unwrap();
    assert_eq!(s, State::EndOfExcludedCopyBlock);
    let s = State::Init.next_state(b"\\.\n", &plain()).unwrap();
    assert_eq!(s, State::Init);
}

#[test]
fn states_of_each_rule() {
    let o = plain();
    assert_eq!(State::Init.next_state(b"\n", &o), Ok(State::EmptyLine));
    assert_eq!(State::EmptyLine.next_state(b"\n", &o), Ok(State::ConsecutiveEmptyLine));
    assert_eq!(State::ConsecutiveEmptyLine.next_state(b"\n", &o), Ok(State::ConsecutiveEmptyLine));
    assert_eq!(State::Init.next_state(b"--x\n", &o), Ok(State::Comment));
    assert_eq!(State::Init.next_state(b"SELECT pg_catalog.lo_open(1);\n", &o), Ok(State::LargeObject));
    assert_eq!(State::ExcludedCopyBlock.next_state(b"1\t2\n", &o), Ok(State::ExcludedCopyBlock));
    assert_eq!(State::Comment.next_state(b"1\t2\n", &o), Ok(State::Statement));
}

#[test]
fn inclusion_rules() {
    let o = plain();
    let lo = Options::new(vec![], vec![], true, "public".to_string(), 32).unwrap();
    assert!(!State::Comment.must_include(&o, &State::Init));
    assert!(!State::ConsecutiveEmptyLine.must_include(&o, &State::Init));
    assert!(!State::ExcludedCopyBlock.must_include(&o, &State::Init));
    assert!(!State::EndOfExcludedCopyBlock.must_include(&o, &State::Init));
    assert!(State::LargeObject.must_include(&o, &State::Init));
    assert!(!State::LargeObject.must_include(&lo, &State::Init));
    assert!(!State::EmptyLine.must_include(&o, &State::EmptyLine));
    assert!(State::EmptyLine.must_include(&o, &State::Statement));
    assert!(State::Statement.must_include(&o, &State::EmptyLine));
}

#[test]
fn process_line_tracks_last_written_state() {
    let o = plain();
    let mut run = FilterRun::new();
    assert_eq!(run.process_line(b"\n", &o), Ok(true));
    assert_eq!(run.prev_included_state, State::EmptyLine);
    assert_eq!(run.process_line(b"-- c\n", &o), Ok(false));
    assert_eq!(run.state, State::Comment);
    assert_eq!(run.prev_included_state, State::EmptyLine);
    assert_eq!(run.process_line(b"\n", &o), Ok(false));
}

#[test]
fn block_state_on_lowered_text() {
    let line = "copy public.orders from stdin;\n";
    assert_eq!(block_state(line, &texts(&["copy public.orders "]), &vec![]), State::ExcludedCopyBlock);
    assert_eq!(block_state(line, &vec![], &texts(&["copy public.items "])), State::ExcludedCopyBlock);
    assert_eq!(block_state(line, &vec![], &texts(&["copy public.orders "])), State::Statement);
    assert_eq!(block_state(line, &vec![], &vec![]), State::Statement);
}
