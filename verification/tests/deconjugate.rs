use wordbase::deconjugate::{rules, Deconjugate, WordForm};

#[test]
fn foo() {
    println!("{:?}", Deconjugate.word("します"));
    output("hello world");
}

fn output(word: &str) {
    for (conjugated, forms) in Deconjugate.first_word(word) {
        println!("- {conjugated}:");
        for form in forms {
            println!("  - {form:?}");
        }
    }
}

#[test]
fn first_word_prefixes_longest_first() {
    let r = Deconjugate.first_word("します");
    let prefixes: Vec<&str> = r.iter().map(|(p, _)| p.as_str()).collect();
    assert_eq!(prefixes, ["します", "しま", "し"]);
    assert!(r.iter().all(|(_, forms)| forms.is_empty()));
    assert!(Deconjugate.first_word("").is_empty());
}

#[test]
fn word_records_nothing() {
    assert!(Deconjugate.word("しません").is_empty());
}

#[test]
fn rule_table() {
    let table = rules();
    assert_eq!(table.len(), 356);
    assert!(table.iter().any(|r| r.conjugated == "ません" && r.conjugated_form == WordForm::Negative));
    assert!(WordForm::GodanVerb.is_terminal());
    assert!(!WordForm::Negative.is_terminal());
}
