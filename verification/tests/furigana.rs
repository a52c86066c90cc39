use wordbase::lang::jpn::furigana_parts;

fn pairs(v: &[(&str, &str)]) -> Vec<(String, String)> {
    v.iter().map(|(a, b)| ((*a).to_owned(), (*b).to_owned())).collect()
}

fn jmdict(headword: &str, reading: &str) -> Option<Vec<(String, String)>> {
    jmdict_furigana::get(headword, reading)
        .map(|s| s.iter().map(|(h, r)| ((*h).to_owned(), (*r).to_owned())).collect())
}

#[test]
fn furigana_from_jmdict() {
    futures::executor::block_on(jmdict_furigana::init());
    assert_eq!(furigana_parts(jmdict("食べる", "たべる"), vec![]), pairs(&[("食", "た"), ("べる", "")]));
    assert_eq!(furigana_parts(jmdict("大人", "おとな"), vec![]), pairs(&[("大人", "おとな")]));
    let fallback = pairs(&[("ｘ", "ｙ")]);
    assert_eq!(furigana_parts(jmdict("ｘｘｘ", "ｙｙｙ"), fallback.clone()), fallback);
}
