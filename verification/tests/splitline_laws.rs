use chonkit::splitline::{LinePattern, Splitline};

const CSV: &str = "NAME,AGE\nJohn,32\nJane,28\nBob,45\nAlice,23\nEve,30\n";

#[test]
fn chunks_join_back_to_the_input() {
    for size in [1, 2, 3, 10] {
        let chunks = Splitline::new(size, vec![], false).chunk(CSV);
        assert_eq!(chunks.concat(), CSV, "size {size}");
    }
    let no_newline = "a\nb\nc";
    assert_eq!(Splitline::new(1, vec![], false).chunk(no_newline).concat(), no_newline);
}

#[test]
fn single_line_is_one_chunk() {
    assert_eq!(Splitline::new(1, vec![], false).chunk(" a "), vec![" a ".to_string()]);
    assert_eq!(Splitline::new(usize::MAX, vec![], false).chunk("a \n"), vec!["a \n".to_string()]);
}

#[test]
fn max_size_without_patterns_is_one_chunk() {
    let chunks = Splitline::new(usize::MAX, vec![], true).chunk(CSV);
    assert_eq!(chunks, vec![CSV.to_string()]);
}

#[test]
fn chunks_hold_at_most_size_lines_besides_the_header() {
    for size in [1, 2, 4] {
        let chunker = Splitline::new(size, vec![LinePattern::new("^Bob").unwrap()], true);
        for chunk in chunker.chunk(CSV) {
            assert!(chunk.matches('\n').count() <= size + 1, "{chunk:?}");
        }
    }
}

#[test]
fn prepended_header_starts_every_later_chunk() {
    let chunks = Splitline::new(2, vec![], true).chunk(CSV);
    assert_eq!(chunks.len(), 3);
    for chunk in &chunks[1..] {
        assert!(chunk.starts_with("NAME,AGE\n"), "{chunk:?}");
    }
}

#[test]
fn indented_first_line_still_splits_by_size() {
    let chunks = Splitline::new(1, vec![], false).chunk("    a\nb\nc");
    assert_eq!(chunks, vec!["    a\nb\n".to_string(), "c".to_string()]);
}
