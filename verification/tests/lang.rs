use wordbase::jp;
use wordbase::lang::jp as lang_jp;

fn splits_into(reading: &str, target: &[&str]) {
    assert_eq!(jp::mora(reading), target.to_vec());
}

fn morae_split_into(reading: &str, target: &[&str]) {
    assert_eq!(lang_jp::morae(reading), target.to_vec());
}

#[test]
fn mora() {
    splits_into("hello", &["h", "e", "l", "l", "o"]);
    splits_into("あいうえお", &["あ", "い", "う", "え", "お"]);
    splits_into("日本", &["日", "本"]);
    splits_into("ぎじゅつ", &["ぎ", "じゅ", "つ"]);
    splits_into("さぎょう", &["さ", "ぎょ", "う"]);
    splits_into("さっそく", &["さ", "っ", "そ", "く"]);
}

#[test]
fn morae() {
    morae_split_into("hello", &["h", "e", "l", "l", "o"]);
    morae_split_into("あいうえお", &["あ", "い", "う", "え", "お"]);
    morae_split_into("日本", &["日", "本"]);
    morae_split_into("ぎじゅつ", &["ぎ", "じゅ", "つ"]);
    morae_split_into("さぎょう", &["さ", "ぎょ", "う"]);
    morae_split_into("さっそく", &["さ", "っ", "そ", "く"]);
}

fn follows_pattern(downstep: usize, target: [bool; 4]) {
    let a = [
        jp::is_high(downstep, 0),
        jp::is_high(downstep, 1),
        jp::is_high(downstep, 2),
        jp::is_high(downstep, 3),
    ];
    assert_eq!(a, target);
    let b = [
        lang_jp::is_high(downstep, 0),
        lang_jp::is_high(downstep, 1),
        lang_jp::is_high(downstep, 2),
        lang_jp::is_high(downstep, 3),
    ];
    assert_eq!(b, target);
}

#[test]
fn jp_is_high() {
    // heiban
    follows_pattern(0, [false, true, true, true]);
    // atamadaka
    follows_pattern(1, [true, false, false, false]);
    // nakadaka
    follows_pattern(2, [false, true, false, false]);
    follows_pattern(3, [false, true, true, false]);
    // odaka
    follows_pattern(4, [false, true, true, true]);
}

#[test]
fn morae_empty_and_leading_small_kana() {
    assert_eq!(lang_jp::morae(""), Vec::<String>::new());
    // a small kana with nothing before it is a mora of its own
    assert_eq!(lang_jp::morae("ゃあ"), vec!["ゃ".to_string(), "あ".to_string()]);
    assert_eq!(lang_jp::morae("きゃきゅ"), vec!["きゃ".to_string(), "きゅ".to_string()]);
}

#[test]
fn morae_join_back_to_reading() {
    for reading in ["きょうりょく", "がっこう", "hello", "ちぇっく"] {
        assert_eq!(lang_jp::morae(reading).concat(), reading);
        assert_eq!(jp::mora(reading).concat(), reading);
    }
}

#[test]
fn small_kana() {
    assert!(lang_jp::is_small_kana('ゃ'));
    assert!(lang_jp::is_small_kana('ョ'));
    assert!(!lang_jp::is_small_kana('っ'));
    assert!(!lang_jp::is_small_kana('あ'));
    assert!(jp::is_small_kana('ぁ'));
}

#[test]
fn is_high_past_downstep() {
    // odaka/nakadaka: high from the second mora up to the downstep
    assert!(lang_jp::is_high(5, 4));
    assert!(!lang_jp::is_high(5, 5));
    assert!(!lang_jp::is_high(5, 0));
    // heiban stays high
    assert!(lang_jp::is_high(0, 100));
}
