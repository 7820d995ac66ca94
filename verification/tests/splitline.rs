use chonkit::splitline::{LinePattern, Splitline};

#[test]
fn splitline_single_chunk() {
    let input = "NAME,AGE,GENDER\nJohn,32,M\nJane,28,F\nBob,45,M\nAlice,23,F";

    let chunker = Splitline::new(1000, vec![], false);

    let expected = ["NAME,AGE,GENDER\nJohn,32,M\nJane,28,F\nBob,45,M\nAlice,23,F"];

    let chunks = chunker.chunk(input);

    assert_eq!(1, chunks.len());

    for (chunk, test) in chunks.into_iter().zip(expected.into_iter()) {
        assert_eq!(test, chunk);
    }
}

#[test]
fn splitline_size() {
    let input = "NAME,AGE,GENDER\nJohn,32,M\nJane,28,F\nBob,45,M\nAlice,23,F";

    let chunker = Splitline::new(2, vec![], false);

    let expected = [
        "NAME,AGE,GENDER\nJohn,32,M\nJane,28,F\n",
        "Bob,45,M\nAlice,23,F",
    ];

    let chunks = chunker.chunk(input);

    assert_eq!(2, chunks.len());

    for (chunk, test) in chunks.into_iter().zip(expected.into_iter()) {
        assert_eq!(test, chunk);
    }
}

#[test]
fn splitline_patterns() {
    let input = "NAME,AGE,GENDER\nJohn,32,M\nJane,28,F\nBob,45,M\nAlice,23,F\nFOO,BAR,QUX,QAZ\n1,2,3,4\n5,6,7,8";

    let chunker = Splitline::new(10, vec![LinePattern::new("FOO,BAR,QUX,QAZ").unwrap()], false);

    let expected = [
        "NAME,AGE,GENDER\nJohn,32,M\nJane,28,F\nBob,45,M\nAlice,23,F\n",
        "FOO,BAR,QUX,QAZ\n1,2,3,4\n5,6,7,8",
    ];

    let chunks = chunker.chunk(input);

    assert_eq!(2, chunks.len());

    for (chunk, test) in chunks.into_iter().zip(expected.into_iter()) {
        assert_eq!(test, chunk);
    }
}

#[test]
fn splitline_patterns_prepend() {
    let input = "NAME,AGE,GENDER\nJohn,32,M\nJane,28,F\nBob,45,M\nAlice,23,F\nFOO,BAR,QUX,QAZ\n1,2,3,4\n5,6,7,8\n9,10,11,12\n13,14,15,16";

    let chunker = Splitline::new(2, vec![LinePattern::new("FOO,BAR,QUX,QAZ").unwrap()], true);

    let expected = [
        "NAME,AGE,GENDER\nJohn,32,M\nJane,28,F\n",
        "NAME,AGE,GENDER\nBob,45,M\nAlice,23,F\n",
        "FOO,BAR,QUX,QAZ\n1,2,3,4\n5,6,7,8\n",
        "FOO,BAR,QUX,QAZ\n9,10,11,12\n13,14,15,16",
    ];

    let chunks = chunker.chunk(input);

    assert_eq!(4, chunks.len());

    for (chunk, test) in chunks.into_iter().zip(expected.into_iter()) {
        assert_eq!(test, chunk);
    }
}

#[test]
fn splitline_patterns_prepend_newline() {
    let input = "NAME,AGE,GENDER\nJohn,32,M\nJane,28,F\nBob,45,M\nAlice,23,F\nFOO,BAR,QUX,QAZ\n1,2,3,4\n5,6,7,8\n9,10,11,12\n13,14,15,16\n";

    let chunker = Splitline::new(2, vec![LinePattern::new("FOO,BAR,QUX,QAZ").unwrap()], true);

    let expected = [
        "NAME,AGE,GENDER\nJohn,32,M\nJane,28,F\n",
        "NAME,AGE,GENDER\nBob,45,M\nAlice,23,F\n",
        "FOO,BAR,QUX,QAZ\n1,2,3,4\n5,6,7,8\n",
        "FOO,BAR,QUX,QAZ\n9,10,11,12\n13,14,15,16\n",
    ];

    let chunks = chunker.chunk(input);

    assert_eq!(4, chunks.len());

    for (chunk, test) in chunks.into_iter().zip(expected.into_iter()) {
        assert_eq!(test, chunk);
    }
}

#[test]
fn splitline_empty() {
    let chunker = Splitline::new(2, vec![], false);
    let chunks = chunker.chunk("");
    assert!(chunks.is_empty());
}

#[test]
fn splitline_header() {
    let chunker = Splitline::new(2, vec![], false);
    let expected = ["NAME,AGE,GENDER"];
    let chunks = chunker.chunk("NAME,AGE,GENDER");
    assert_eq!(1, chunks.len());
    for (chunk, test) in chunks.into_iter().zip(expected.into_iter()) {
        assert_eq!(test, chunk);
    }
}

#[test]
fn splitline_header_newline() {
    let chunker = Splitline::new(2, vec![], false);
    let expected = ["NAME,AGE,GENDER\n"];
    let chunks = chunker.chunk("NAME,AGE,GENDER\n");
    assert_eq!(1, chunks.len());
    for (chunk, test) in chunks.into_iter().zip(expected.into_iter()) {
        assert_eq!(test, chunk);
    }
}

#[test]
fn splitline_section_split() {
    let chunker = Splitline::new(200, vec![LinePattern::new(r#"^\s*\d\. .+$"#).unwrap()], false);
    let input = r#"
        1. A
          1.1 A1
          1.2 A2
          1.2.1 A2.1
        2. B
          2.1 B1
          2.2 B2
          2.2.1 B2.1
        3. C
          3.1 C1
          3.2 C2
          3.3 C3
        "#;

    let expected = [
        r#"
        1. A
          1.1 A1
          1.2 A2
          1.2.1 A2.1
        "#,
        r#"
        2. B
          2.1 B1
          2.2 B2
          2.2.1 B2.1
        "#,
        r#"
        3. C
          3.1 C1
          3.2 C2
          3.3 C3
            "#,
    ];

    let chunks = chunker.chunk(input);

    assert_eq!(3, chunks.len());

    for (chunk, test) in chunks.into_iter().zip(expected.into_iter()) {
        assert_eq!(test.trim(), chunk.trim());
    }
}
