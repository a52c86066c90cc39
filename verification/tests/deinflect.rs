use wordbase::deinflect::{Deinflection, Deinflectors, Identity, Latin};
use wordbase::types::Deinflection as SourceDeinflection;

fn deinf(lemma: &str) -> SourceDeinflection {
    SourceDeinflection::new(0, lemma, lemma.to_string())
}

/// The distinct lemmas of `found`, first occurrence first, checked against
/// `expected` as sets; each span must match the expected source span.
fn assert_deinflects<const N: usize>(
    deinflector: &Latin,
    text: &str,
    cursor: usize,
    expected: [SourceDeinflection; N],
) {
    let found = deinflector.deinflect_at(text, cursor);
    let mut lemmas: Vec<String> = Vec::new();
    for d in &found {
        if !lemmas.contains(&d.lemma) {
            lemmas.push(d.lemma.clone());
        }
    }
    let mut expected_lemmas: Vec<String> = Vec::new();
    for e in &expected {
        if !expected_lemmas.contains(&e.lemma) {
            expected_lemmas.push(e.lemma.clone());
        }
    }
    lemmas.sort();
    expected_lemmas.sort();
    assert_eq!(lemmas, expected_lemmas, "text = {text:?}, cursor = {cursor}");
    for d in &found {
        let e = expected.iter().find(|e| e.lemma == d.lemma).unwrap();
        assert_eq!(d.span.start, e.source_span.start);
        assert_eq!(d.span.end, e.source_span.end);
    }
}

#[test]
fn transformations() {
    let deinflector = Latin;
    assert_deinflects(&deinflector, "hello", 0, [deinf("hello"), deinf("HELLO")]);
    assert_deinflects(&deinflector, "HELLO", 0, [deinf("hello"), deinf("HELLO")]);
    assert_deinflects(
        &deinflector,
        "Hello",
        0,
        [deinf("Hello"), deinf("hello"), deinf("HELLO")],
    );

    assert_deinflects(&deinflector, "hi world", 0, [deinf("hi"), deinf("HI")]);
    assert_deinflects(&deinflector, "hi\nworld", 0, [deinf("hi"), deinf("HI")]);

    assert_deinflects(
        &deinflector,
        "foo hello world",
        0,
        [
            SourceDeinflection::new(0, "foo", "foo".into()),
            SourceDeinflection::new(0, "foo", "FOO".into()),
        ],
    );
    assert_deinflects(
        &deinflector,
        "foo hello world",
        "f".len(),
        [
            SourceDeinflection::new(0, "foo", "foo".into()),
            SourceDeinflection::new(0, "foo", "FOO".into()),
        ],
    );
    assert_deinflects(
        &deinflector,
        "foo hello world",
        "foo".len(),
        [
            SourceDeinflection::new(0, "foo", "foo".into()),
            SourceDeinflection::new(0, "foo", "FOO".into()),
        ],
    );

    let start = "foo ".len();
    assert_deinflects(
        &deinflector,
        "foo hello world",
        "foo ".len(),
        [
            SourceDeinflection::new(start, "hello", "hello".into()),
            SourceDeinflection::new(start, "hello", "HELLO".into()),
        ],
    );
    assert_deinflects(
        &deinflector,
        "foo hello world",
        "foo h".len(),
        [
            SourceDeinflection::new(start, "hello", "hello".into()),
            SourceDeinflection::new(start, "hello", "HELLO".into()),
        ],
    );
    assert_deinflects(
        &deinflector,
        "foo hello world",
        "foo he".len(),
        [
            SourceDeinflection::new(start, "hello", "hello".into()),
            SourceDeinflection::new(start, "hello", "HELLO".into()),
        ],
    );

    let start = "foo hello ".len();
    assert_deinflects(
        &deinflector,
        "foo hello world",
        "foo hello world".len(),
        [
            SourceDeinflection::new(start, "world", "world".into()),
            SourceDeinflection::new(start, "world", "WORLD".into()),
        ],
    );
}

#[test]
fn latin_cursor_past_last_word() {
    assert!(Latin.deinflect_at("foo bar", 100).is_empty());
    assert!(Latin.deinflect_at("", 0).is_empty());
    assert!(Latin.deinflect_at("   ", 0).is_empty());
}

#[test]
fn latin_gives_written_lower_upper_in_order() {
    let r = Latin.deinflect_at("Hello", 0);
    let lemmas: Vec<&str> = r.iter().map(|d| d.lemma.as_str()).collect();
    assert_eq!(lemmas, ["Hello", "hello", "HELLO"]);
}

#[test]
fn identity_spans_whole_text() {
    let r = Identity.deinflect_text("食べた");
    assert_eq!(r.len(), 1);
    assert_eq!(r[0].lemma, "食べた");
    assert_eq!(r[0].span.start, 0);
    assert_eq!(r[0].span.end, "食べた".len());
}

#[test]
fn deinflectors_keep_first_per_lemma() {
    let d = Deinflectors::new();
    let r = d.deinflect("hello", 0);
    let lemmas: Vec<&str> = r.iter().map(|d| d.lemma.as_str()).collect();
    // identity gives "hello"; latin's "hello" repeats it and is dropped
    assert_eq!(lemmas, ["hello", "HELLO"]);
}

#[test]
fn deinflection_constructors() {
    let d = Deinflection::new("abc".to_string());
    assert_eq!((d.span.start, d.span.end), (0, 3));
    let d = Deinflection::with_start(4, "日本".to_string());
    assert_eq!((d.span.start, d.span.end), (4, 4 + "日本".len()));
    assert!(Deinflection::new("x".into()) == Deinflection::with_start(9, "x".into()));
}

#[test]
fn deinflected_spans_slice_the_text() {
    let text = "été über naïve";
    let d = Deinflectors::new();
    for cursor in 0..=text.len() {
        for x in d.deinflect(text, cursor) {
            let slice = text.get(x.span.start..x.span.end).expect("span on char boundaries");
            if x.span.start > 0 {
                assert_eq!(slice.to_lowercase(), x.lemma.to_lowercase());
            }
        }
    }
    let r = d.deinflect(text, 6);
    assert_eq!(&text[r[1].span.start..r[1].span.end], "über");
}
