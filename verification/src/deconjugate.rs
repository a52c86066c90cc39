//! Japanese deconjugation: the table of rules that relate a base form of a
//! word to one of its conjugated forms, and lookups of a word against it.

use vstd::prelude::*;

use crate::text::{chars_of, string_of};

verus! {

/// Grammatical form of a word, as a base form or as the form a conjugation
/// produces.
#[derive(Debug, Clone, Copy, PartialEq, Eq, Hash, Structural)]
pub enum WordForm {
    GodanVerb,
    IchidanVerb,
    SuruVerb,
    KuruVerb,
    IrregularVerb,
    Adjective,
    Negative,
    Past,
    Te,
    Conjunctive,
    Volitional,
    Passive,
    Causative,
    Imperative,
    Potential,
    PotentialPassive,
    Conditional,
    ImperativeNegative,
    Zaru,
    Zu,
    Nu,
    Neba,
    Tari,
    Shimau,
    Chau,
    Chimau,
    Polite,
    Tara,
    Tai,
    Nasai,
    Sugiru,
    Sou,
    E,
    Ba,
    Ki,
    Toku,
    ColloquialNegative,
    ProvisionalColloquialNegative,
    Continuous,
    Adverbial,
    Noun,
    Any,
    NoForm,
}

impl WordForm {
    /// Whether a word in this form cannot be deconjugated any further: a
    /// plain verb of one of the four classes, or an adjective.
    pub open spec fn terminal(self) -> bool {
        ||| self == WordForm::GodanVerb
        ||| self == WordForm::IchidanVerb
        ||| self == WordForm::SuruVerb
        ||| self == WordForm::KuruVerb
        ||| self == WordForm::Adjective
    }

    /// Whether no further deconjugation follows this form.
    pub fn is_terminal(self) -> (r: bool)
        ensures
            r == self.terminal(),
    {
        match self {
            WordForm::GodanVerb | WordForm::IchidanVerb | WordForm::SuruVerb | WordForm::KuruVerb
            | WordForm::Adjective => true,
            _ => false,
        }
    }
}

/// One deconjugation rule: a word in `base_form` ending in `base` has a
/// conjugation in `conjugated_form` ending in `conjugated`.
#[derive(Debug, Clone, Copy)]
pub struct Rule {
    pub base: &'static str,
    pub conjugated: &'static str,
    pub base_form: WordForm,
    pub conjugated_form: WordForm,
}

/// Form of a deconjugated word.
#[derive(Debug, Clone, Copy, PartialEq, Eq)]
pub struct ConjugationInfo {
    pub form: WordForm,
}

/// Number of rules in the deconjugation table.
pub const RULE_COUNT: usize = 356;

/// The deconjugation table, in the order rules are tried.
pub open spec fn rule_table() -> Seq<Rule> {
    seq![
        Rule { base: "る", conjugated: "らない", base_form: WordForm::GodanVerb, conjugated_form: WordForm::Negative },
        Rule { base: "う", conjugated: "わない", base_form: WordForm::GodanVerb, conjugated_form: WordForm::Negative },
        Rule { base: "つ", conjugated: "たない", base_form: WordForm::GodanVerb, conjugated_form: WordForm::Negative },
        Rule { base: "す", conjugated: "さない", base_form: WordForm::GodanVerb, conjugated_form: WordForm::Negative },
        Rule { base: "く", conjugated: "かない", base_form: WordForm::GodanVerb, conjugated_form: WordForm::Negative },
        Rule { base: "ぐ", conjugated: "がない", base_form: WordForm::GodanVerb, conjugated_form: WordForm::Negative },
        Rule { base: "ぶ", conjugated: "ばない", base_form: WordForm::GodanVerb, conjugated_form: WordForm::Negative },
        Rule { base: "む", conjugated: "まない", base_form: WordForm::GodanVerb, conjugated_form: WordForm::Negative },
        Rule { base: "ぬ", conjugated: "なない", base_form: WordForm::GodanVerb, conjugated_form: WordForm::Negative },
        Rule { base: "る", conjugated: "ない", base_form: WordForm::IchidanVerb, conjugated_form: WordForm::Negative },
        Rule { base: "くる", conjugated: "こない", base_form: WordForm::KuruVerb, conjugated_form: WordForm::Negative },
        Rule { base: "来る", conjugated: "来ない", base_form: WordForm::KuruVerb, conjugated_form: WordForm::Negative },
        Rule { base: "する", conjugated: "しない", base_form: WordForm::SuruVerb, conjugated_form: WordForm::Negative },
        Rule { base: "為る", conjugated: "為ない", base_form: WordForm::SuruVerb, conjugated_form: WordForm::Negative },
        Rule { base: "る", conjugated: "った", base_form: WordForm::GodanVerb, conjugated_form: WordForm::Past },
        Rule { base: "う", conjugated: "った", base_form: WordForm::GodanVerb, conjugated_form: WordForm::Past },
        Rule { base: "つ", conjugated: "った", base_form: WordForm::GodanVerb, conjugated_form: WordForm::Past },
        Rule { base: "す", conjugated: "した", base_form: WordForm::GodanVerb, conjugated_form: WordForm::Past },
        Rule { base: "く", conjugated: "いた", base_form: WordForm::GodanVerb, conjugated_form: WordForm::Past },
        Rule { base: "ぐ", conjugated: "いだ", base_form: WordForm::GodanVerb, conjugated_form: WordForm::Past },
        Rule { base: "ぶ", conjugated: "んだ", base_form: WordForm::GodanVerb, conjugated_form: WordForm::Past },
        Rule { base: "む", conjugated: "んだ", base_form: WordForm::GodanVerb, conjugated_form: WordForm::Past },
        Rule { base: "ぬ", conjugated: "んだ", base_form: WordForm::GodanVerb, conjugated_form: WordForm::Past },
        Rule { base: "る", conjugated: "た", base_form: WordForm::IchidanVerb, conjugated_form: WordForm::Past },
        Rule { base: "くる", conjugated: "きた", base_form: WordForm::KuruVerb, conjugated_form: WordForm::Past },
        Rule { base: "来る", conjugated: "来た", base_form: WordForm::KuruVerb, conjugated_form: WordForm::Past },
        Rule { base: "する", conjugated: "した", base_form: WordForm::SuruVerb, conjugated_form: WordForm::Past },
        Rule { base: "為る", conjugated: "為た", base_form: WordForm::SuruVerb, conjugated_form: WordForm::Past },
        Rule { base: "行く", conjugated: "行った", base_form: WordForm::GodanVerb, conjugated_form: WordForm::Past },
        Rule { base: "いく", conjugated: "いった", base_form: WordForm::GodanVerb, conjugated_form: WordForm::Past },
        Rule { base: "問う", conjugated: "問うた", base_form: WordForm::GodanVerb, conjugated_form: WordForm::Past },
        Rule { base: "とう", conjugated: "とうた", base_form: WordForm::GodanVerb, conjugated_form: WordForm::Past },
        Rule { base: "請う", conjugated: "請うた", base_form: WordForm::GodanVerb, conjugated_form: WordForm::Past },
        Rule { base: "こう", conjugated: "こうた", base_form: WordForm::GodanVerb, conjugated_form: WordForm::Past },
        Rule { base: "る", conjugated: "って", base_form: WordForm::GodanVerb, conjugated_form: WordForm::Te },
        Rule { base: "う", conjugated: "って", base_form: WordForm::GodanVerb, conjugated_form: WordForm::Te },
        Rule { base: "つ", conjugated: "って", base_form: WordForm::GodanVerb, conjugated_form: WordForm::Te },
        Rule { base: "す", conjugated: "して", base_form: WordForm::GodanVerb, conjugated_form: WordForm::Te },
        Rule { base: "く", conjugated: "いて", base_form: WordForm::GodanVerb, conjugated_form: WordForm::Te },
        Rule { base: "ぐ", conjugated: "いで", base_form: WordForm::GodanVerb, conjugated_form: WordForm::Te },
        Rule { base: "ぶ", conjugated: "んで", base_form: WordForm::GodanVerb, conjugated_form: WordForm::Te },
        Rule { base: "ぬ", conjugated: "んで", base_form: WordForm::GodanVerb, conjugated_form: WordForm::Te },
        Rule { base: "む", conjugated: "んで", base_form: WordForm::GodanVerb, conjugated_form: WordForm::Te },
        Rule { base: "る", conjugated: "て", base_form: WordForm::IchidanVerb, conjugated_form: WordForm::Te },
        Rule { base: "くる", conjugated: "きて", base_form: WordForm::KuruVerb, conjugated_form: WordForm::Te },
        Rule { base: "来る", conjugated: "来て", base_form: WordForm::KuruVerb, conjugated_form: WordForm::Te },
        Rule { base: "する", conjugated: "して", base_form: WordForm::SuruVerb, conjugated_form: WordForm::Te },
        Rule { base: "為る", conjugated: "為て", base_form: WordForm::SuruVerb, conjugated_form: WordForm::Te },
        Rule { base: "行く", conjugated: "行って", base_form: WordForm::GodanVerb, conjugated_form: WordForm::Te },
        Rule { base: "いく", conjugated: "いって", base_form: WordForm::GodanVerb, conjugated_form: WordForm::Te },
        Rule { base: "問う", conjugated: "問うて", base_form: WordForm::GodanVerb, conjugated_form: WordForm::Te },
        Rule { base: "とう", conjugated: "とうて", base_form: WordForm::GodanVerb, conjugated_form: WordForm::Te },
        Rule { base: "請う", conjugated: "請うて", base_form: WordForm::GodanVerb, conjugated_form: WordForm::Te },
        Rule { base: "こう", conjugated: "こうて", base_form: WordForm::GodanVerb, conjugated_form: WordForm::Te },
        Rule { base: "る", conjugated: "っとく", base_form: WordForm::GodanVerb, conjugated_form: WordForm::Toku },
        Rule { base: "う", conjugated: "っとく", base_form: WordForm::GodanVerb, conjugated_form: WordForm::Toku },
        Rule { base: "つ", conjugated: "っとく", base_form: WordForm::GodanVerb, conjugated_form: WordForm::Toku },
        Rule { base: "す", conjugated: "しとく", base_form: WordForm::GodanVerb, conjugated_form: WordForm::Toku },
        Rule { base: "く", conjugated: "いとく", base_form: WordForm::GodanVerb, conjugated_form: WordForm::Toku },
        Rule { base: "ぐ", conjugated: "いどく", base_form: WordForm::GodanVerb, conjugated_form: WordForm::Toku },
        Rule { base: "ぶ", conjugated: "んどく", base_form: WordForm::GodanVerb, conjugated_form: WordForm::Toku },
        Rule { base: "ぬ", conjugated: "んどく", base_form: WordForm::GodanVerb, conjugated_form: WordForm::Toku },
        Rule { base: "む", conjugated: "んどく", base_form: WordForm::GodanVerb, conjugated_form: WordForm::Toku },
        Rule { base: "る", conjugated: "とく", base_form: WordForm::IchidanVerb, conjugated_form: WordForm::Toku },
        Rule { base: "くる", conjugated: "きとく", base_form: WordForm::KuruVerb, conjugated_form: WordForm::Toku },
        Rule { base: "来る", conjugated: "来とく", base_form: WordForm::KuruVerb, conjugated_form: WordForm::Toku },
        Rule { base: "する", conjugated: "しとく", base_form: WordForm::SuruVerb, conjugated_form: WordForm::Toku },
        Rule { base: "為る", conjugated: "為とく", base_form: WordForm::SuruVerb, conjugated_form: WordForm::Toku },
        Rule { base: "行く", conjugated: "行っとく", base_form: WordForm::GodanVerb, conjugated_form: WordForm::Toku },
        Rule { base: "問う", conjugated: "問うとく", base_form: WordForm::GodanVerb, conjugated_form: WordForm::Toku },
        Rule { base: "請う", conjugated: "請うとく", base_form: WordForm::GodanVerb, conjugated_form: WordForm::Toku },
        Rule { base: "る", conjugated: "れ", base_form: WordForm::GodanVerb, conjugated_form: WordForm::Imperative },
        Rule { base: "う", conjugated: "え", base_form: WordForm::GodanVerb, conjugated_form: WordForm::Imperative },
        Rule { base: "つ", conjugated: "て", base_form: WordForm::GodanVerb, conjugated_form: WordForm::Imperative },
        Rule { base: "す", conjugated: "せ", base_form: WordForm::GodanVerb, conjugated_form: WordForm::Imperative },
        Rule { base: "く", conjugated: "け", base_form: WordForm::GodanVerb, conjugated_form: WordForm::Imperative },
        Rule { base: "ぐ", conjugated: "げ", base_form: WordForm::GodanVerb, conjugated_form: WordForm::Imperative },
        Rule { base: "ぶ", conjugated: "べ", base_form: WordForm::GodanVerb, conjugated_form: WordForm::Imperative },
        Rule { base: "む", conjugated: "め", base_form: WordForm::GodanVerb, conjugated_form: WordForm::Imperative },
        Rule { base: "ぬ", conjugated: "ね", base_form: WordForm::GodanVerb, conjugated_form: WordForm::Imperative },
        Rule { base: "る", conjugated: "ろ", base_form: WordForm::IchidanVerb, conjugated_form: WordForm::Imperative },
        Rule { base: "る", conjugated: "よ", base_form: WordForm::IchidanVerb, conjugated_form: WordForm::Imperative },
        Rule { base: "くる", conjugated: "こい", base_form: WordForm::KuruVerb, conjugated_form: WordForm::Imperative },
        Rule { base: "来る", conjugated: "来い", base_form: WordForm::KuruVerb, conjugated_form: WordForm::Imperative },
        Rule { base: "する", conjugated: "しろ", base_form: WordForm::SuruVerb, conjugated_form: WordForm::Imperative },
        Rule { base: "為る", conjugated: "為ろ", base_form: WordForm::SuruVerb, conjugated_form: WordForm::Imperative },
        Rule { base: "する", conjugated: "せよ", base_form: WordForm::SuruVerb, conjugated_form: WordForm::Imperative },
        Rule { base: "為る", conjugated: "為よ", base_form: WordForm::SuruVerb, conjugated_form: WordForm::Imperative },
        Rule { base: "る", conjugated: "ろう", base_form: WordForm::GodanVerb, conjugated_form: WordForm::Volitional },
        Rule { base: "う", conjugated: "おう", base_form: WordForm::GodanVerb, conjugated_form: WordForm::Volitional },
        Rule { base: "つ", conjugated: "とう", base_form: WordForm::GodanVerb, conjugated_form: WordForm::Volitional },
        Rule { base: "す", conjugated: "そう", base_form: WordForm::GodanVerb, conjugated_form: WordForm::Volitional },
        Rule { base: "く", conjugated: "こう", base_form: WordForm::GodanVerb, conjugated_form: WordForm::Volitional },
        Rule { base: "ぐ", conjugated: "ごう", base_form: WordForm::GodanVerb, conjugated_form: WordForm::Volitional },
        Rule { base: "ぶ", conjugated: "ぼう", base_form: WordForm::GodanVerb, conjugated_form: WordForm::Volitional },
        Rule { base: "む", conjugated: "もう", base_form: WordForm::GodanVerb, conjugated_form: WordForm::Volitional },
        Rule { base: "ぬ", conjugated: "のう", base_form: WordForm::GodanVerb, conjugated_form: WordForm::Volitional },
        Rule { base: "る", conjugated: "よう", base_form: WordForm::IchidanVerb, conjugated_form: WordForm::Volitional },
        Rule { base: "くる", conjugated: "こよう", base_form: WordForm::KuruVerb, conjugated_form: WordForm::Volitional },
        Rule { base: "来る", conjugated: "来よう", base_form: WordForm::KuruVerb, conjugated_form: WordForm::Volitional },
        Rule { base: "する", conjugated: "しよう", base_form: WordForm::SuruVerb, conjugated_form: WordForm::Volitional },
        Rule { base: "為る", conjugated: "為よう", base_form: WordForm::SuruVerb, conjugated_form: WordForm::Volitional },
        Rule { base: "る", conjugated: "られる", base_form: WordForm::GodanVerb, conjugated_form: WordForm::Passive },
        Rule { base: "う", conjugated: "われる", base_form: WordForm::GodanVerb, conjugated_form: WordForm::Passive },
        Rule { base: "つ", conjugated: "たれる", base_form: WordForm::GodanVerb, conjugated_form: WordForm::Passive },
        Rule { base: "す", conjugated: "される", base_form: WordForm::GodanVerb, conjugated_form: WordForm::Passive },
        Rule { base: "く", conjugated: "かれる", base_form: WordForm::GodanVerb, conjugated_form: WordForm::Passive },
        Rule { base: "ぐ", conjugated: "がれる", base_form: WordForm::GodanVerb, conjugated_form: WordForm::Passive },
        Rule { base: "ぶ", conjugated: "ばれる", base_form: WordForm::GodanVerb, conjugated_form: WordForm::Passive },
        Rule { base: "む", conjugated: "まれる", base_form: WordForm::GodanVerb, conjugated_form: WordForm::Passive },
        Rule { base: "ぬ", conjugated: "なれる", base_form: WordForm::GodanVerb, conjugated_form: WordForm::Passive },
        Rule { base: "る", conjugated: "られる", base_form: WordForm::IchidanVerb, conjugated_form: WordForm::PotentialPassive },
        Rule { base: "くる", conjugated: "こられる", base_form: WordForm::KuruVerb, conjugated_form: WordForm::PotentialPassive },
        Rule { base: "来る", conjugated: "来られる", base_form: WordForm::KuruVerb, conjugated_form: WordForm::PotentialPassive },
        Rule { base: "する", conjugated: "される", base_form: WordForm::SuruVerb, conjugated_form: WordForm::Passive },
        Rule { base: "為る", conjugated: "為れる", base_form: WordForm::SuruVerb, conjugated_form: WordForm::Passive },
        Rule { base: "る", conjugated: "れる", base_form: WordForm::GodanVerb, conjugated_form: WordForm::Potential },
        Rule { base: "う", conjugated: "える", base_form: WordForm::GodanVerb, conjugated_form: WordForm::Potential },
        Rule { base: "つ", conjugated: "てる", base_form: WordForm::GodanVerb, conjugated_form: WordForm::Potential },
        Rule { base: "す", conjugated: "せる", base_form: WordForm::GodanVerb, conjugated_form: WordForm::Potential },
        Rule { base: "く", conjugated: "ける", base_form: WordForm::GodanVerb, conjugated_form: WordForm::Potential },
        Rule { base: "ぐ", conjugated: "げる", base_form: WordForm::GodanVerb, conjugated_form: WordForm::Potential },
        Rule { base: "ぶ", conjugated: "べる", base_form: WordForm::GodanVerb, conjugated_form: WordForm::Potential },
        Rule { base: "む", conjugated: "める", base_form: WordForm::GodanVerb, conjugated_form: WordForm::Potential },
        Rule { base: "ぬ", conjugated: "ねる", base_form: WordForm::GodanVerb, conjugated_form: WordForm::Potential },
        Rule { base: "る", conjugated: "れる", base_form: WordForm::IchidanVerb, conjugated_form: WordForm::Potential },
        Rule { base: "くる", conjugated: "これる", base_form: WordForm::KuruVerb, conjugated_form: WordForm::Potential },
        Rule { base: "来る", conjugated: "来れる", base_form: WordForm::KuruVerb, conjugated_form: WordForm::Potential },
        Rule { base: "する", conjugated: "できる", base_form: WordForm::SuruVerb, conjugated_form: WordForm::Potential },
        Rule { base: "る", conjugated: "らせる", base_form: WordForm::GodanVerb, conjugated_form: WordForm::Causative },
        Rule { base: "う", conjugated: "わせる", base_form: WordForm::GodanVerb, conjugated_form: WordForm::Causative },
        Rule { base: "つ", conjugated: "たせる", base_form: WordForm::GodanVerb, conjugated_form: WordForm::Causative },
        Rule { base: "す", conjugated: "させる", base_form: WordForm::GodanVerb, conjugated_form: WordForm::Causative },
        Rule { base: "く", conjugated: "かせる", base_form: WordForm::GodanVerb, conjugated_form: WordForm::Causative },
        Rule { base: "ぐ", conjugated: "がせる", base_form: WordForm::GodanVerb, conjugated_form: WordForm::Causative },
        Rule { base: "ぶ", conjugated: "ばせる", base_form: WordForm::GodanVerb, conjugated_form: WordForm::Causative },
        Rule { base: "む", conjugated: "ませる", base_form: WordForm::GodanVerb, conjugated_form: WordForm::Causative },
        Rule { base: "ぬ", conjugated: "なせる", base_form: WordForm::GodanVerb, conjugated_form: WordForm::Causative },
        Rule { base: "る", conjugated: "させる", base_form: WordForm::IchidanVerb, conjugated_form: WordForm::Causative },
        Rule { base: "くる", conjugated: "こさせる", base_form: WordForm::KuruVerb, conjugated_form: WordForm::Causative },
        Rule { base: "来る", conjugated: "来させる", base_form: WordForm::KuruVerb, conjugated_form: WordForm::Causative },
        Rule { base: "する", conjugated: "させる", base_form: WordForm::SuruVerb, conjugated_form: WordForm::Causative },
        Rule { base: "為る", conjugated: "為せる", base_form: WordForm::SuruVerb, conjugated_form: WordForm::Causative },
        Rule { base: "る", conjugated: "れば", base_form: WordForm::GodanVerb, conjugated_form: WordForm::Ba },
        Rule { base: "う", conjugated: "えば", base_form: WordForm::GodanVerb, conjugated_form: WordForm::Ba },
        Rule { base: "つ", conjugated: "てば", base_form: WordForm::GodanVerb, conjugated_form: WordForm::Ba },
        Rule { base: "す", conjugated: "せば", base_form: WordForm::GodanVerb, conjugated_form: WordForm::Ba },
        Rule { base: "く", conjugated: "けば", base_form: WordForm::GodanVerb, conjugated_form: WordForm::Ba },
        Rule { base: "ぐ", conjugated: "げば", base_form: WordForm::GodanVerb, conjugated_form: WordForm::Ba },
        Rule { base: "ぶ", conjugated: "べば", base_form: WordForm::GodanVerb, conjugated_form: WordForm::Ba },
        Rule { base: "む", conjugated: "めば", base_form: WordForm::GodanVerb, conjugated_form: WordForm::Ba },
        Rule { base: "ぬ", conjugated: "ねば", base_form: WordForm::GodanVerb, conjugated_form: WordForm::Ba },
        Rule { base: "る", conjugated: "れば", base_form: WordForm::IchidanVerb, conjugated_form: WordForm::Ba },
        Rule { base: "くる", conjugated: "くれば", base_form: WordForm::KuruVerb, conjugated_form: WordForm::Ba },
        Rule { base: "来る", conjugated: "来れば", base_form: WordForm::KuruVerb, conjugated_form: WordForm::Ba },
        Rule { base: "する", conjugated: "すれば", base_form: WordForm::SuruVerb, conjugated_form: WordForm::Ba },
        Rule { base: "為る", conjugated: "為れば", base_form: WordForm::SuruVerb, conjugated_form: WordForm::Ba },
        Rule { base: "る", conjugated: "らざる", base_form: WordForm::GodanVerb, conjugated_form: WordForm::Zaru },
        Rule { base: "う", conjugated: "わざる", base_form: WordForm::GodanVerb, conjugated_form: WordForm::Zaru },
        Rule { base: "つ", conjugated: "たざる", base_form: WordForm::GodanVerb, conjugated_form: WordForm::Zaru },
        Rule { base: "す", conjugated: "さざる", base_form: WordForm::GodanVerb, conjugated_form: WordForm::Zaru },
        Rule { base: "く", conjugated: "かざる", base_form: WordForm::GodanVerb, conjugated_form: WordForm::Zaru },
        Rule { base: "ぐ", conjugated: "がざる", base_form: WordForm::GodanVerb, conjugated_form: WordForm::Zaru },
        Rule { base: "ぶ", conjugated: "ばざる", base_form: WordForm::GodanVerb, conjugated_form: WordForm::Zaru },
        Rule { base: "む", conjugated: "まざる", base_form: WordForm::GodanVerb, conjugated_form: WordForm::Zaru },
        Rule { base: "ぬ", conjugated: "なざる", base_form: WordForm::GodanVerb, conjugated_form: WordForm::Zaru },
        Rule { base: "る", conjugated: "ざる", base_form: WordForm::IchidanVerb, conjugated_form: WordForm::Zaru },
        Rule { base: "くる", conjugated: "こざる", base_form: WordForm::KuruVerb, conjugated_form: WordForm::Zaru },
        Rule { base: "来る", conjugated: "来ざる", base_form: WordForm::KuruVerb, conjugated_form: WordForm::Zaru },
        Rule { base: "する", conjugated: "せざる", base_form: WordForm::SuruVerb, conjugated_form: WordForm::Zaru },
        Rule { base: "為る", conjugated: "為ざる", base_form: WordForm::SuruVerb, conjugated_form: WordForm::Zaru },
        Rule { base: "る", conjugated: "らねば", base_form: WordForm::GodanVerb, conjugated_form: WordForm::Neba },
        Rule { base: "う", conjugated: "わねば", base_form: WordForm::GodanVerb, conjugated_form: WordForm::Neba },
        Rule { base: "つ", conjugated: "たねば", base_form: WordForm::GodanVerb, conjugated_form: WordForm::Neba },
        Rule { base: "す", conjugated: "さねば", base_form: WordForm::GodanVerb, conjugated_form: WordForm::Neba },
        Rule { base: "く", conjugated: "かねば", base_form: WordForm::GodanVerb, conjugated_form: WordForm::Neba },
        Rule { base: "ぐ", conjugated: "がねば", base_form: WordForm::GodanVerb, conjugated_form: WordForm::Neba },
        Rule { base: "ぶ", conjugated: "ばねば", base_form: WordForm::GodanVerb, conjugated_form: WordForm::Neba },
        Rule { base: "む", conjugated: "まねば", base_form: WordForm::GodanVerb, conjugated_form: WordForm::Neba },
        Rule { base: "ぬ", conjugated: "なねば", base_form: WordForm::GodanVerb, conjugated_form: WordForm::Neba },
        Rule { base: "る", conjugated: "ねば", base_form: WordForm::IchidanVerb, conjugated_form: WordForm::Neba },
        Rule { base: "くる", conjugated: "こねば", base_form: WordForm::KuruVerb, conjugated_form: WordForm::Neba },
        Rule { base: "来る", conjugated: "来ねば", base_form: WordForm::KuruVerb, conjugated_form: WordForm::Neba },
        Rule { base: "する", conjugated: "せねば", base_form: WordForm::SuruVerb, conjugated_form: WordForm::Neba },
        Rule { base: "為る", conjugated: "為ねば", base_form: WordForm::SuruVerb, conjugated_form: WordForm::Neba },
        Rule { base: "る", conjugated: "らず", base_form: WordForm::GodanVerb, conjugated_form: WordForm::Zu },
        Rule { base: "う", conjugated: "わず", base_form: WordForm::GodanVerb, conjugated_form: WordForm::Zu },
        Rule { base: "つ", conjugated: "たず", base_form: WordForm::GodanVerb, conjugated_form: WordForm::Zu },
        Rule { base: "す", conjugated: "さず", base_form: WordForm::GodanVerb, conjugated_form: WordForm::Zu },
        Rule { base: "く", conjugated: "かず", base_form: WordForm::GodanVerb, conjugated_form: WordForm::Zu },
        Rule { base: "ぐ", conjugated: "がず", base_form: WordForm::GodanVerb, conjugated_form: WordForm::Zu },
        Rule { base: "ぶ", conjugated: "ばず", base_form: WordForm::GodanVerb, conjugated_form: WordForm::Zu },
        Rule { base: "む", conjugated: "まず", base_form: WordForm::GodanVerb, conjugated_form: WordForm::Zu },
        Rule { base: "ぬ", conjugated: "なず", base_form: WordForm::GodanVerb, conjugated_form: WordForm::Zu },
        Rule { base: "る", conjugated: "ず", base_form: WordForm::IchidanVerb, conjugated_form: WordForm::Zu },
        Rule { base: "くる", conjugated: "こず", base_form: WordForm::KuruVerb, conjugated_form: WordForm::Zu },
        Rule { base: "来る", conjugated: "来ず", base_form: WordForm::KuruVerb, conjugated_form: WordForm::Zu },
        Rule { base: "する", conjugated: "せず", base_form: WordForm::SuruVerb, conjugated_form: WordForm::Zu },
        Rule { base: "為る", conjugated: "為ず", base_form: WordForm::SuruVerb, conjugated_form: WordForm::Zu },
        Rule { base: "る", conjugated: "らぬ", base_form: WordForm::GodanVerb, conjugated_form: WordForm::Nu },
        Rule { base: "う", conjugated: "わぬ", base_form: WordForm::GodanVerb, conjugated_form: WordForm::Nu },
        Rule { base: "つ", conjugated: "たぬ", base_form: WordForm::GodanVerb, conjugated_form: WordForm::Nu },
        Rule { base: "す", conjugated: "さぬ", base_form: WordForm::GodanVerb, conjugated_form: WordForm::Nu },
        Rule { base: "く", conjugated: "かぬ", base_form: WordForm::GodanVerb, conjugated_form: WordForm::Nu },
        Rule { base: "ぐ", conjugated: "がぬ", base_form: WordForm::GodanVerb, conjugated_form: WordForm::Nu },
        Rule { base: "ぶ", conjugated: "ばぬ", base_form: WordForm::GodanVerb, conjugated_form: WordForm::Nu },
        Rule { base: "む", conjugated: "まぬ", base_form: WordForm::GodanVerb, conjugated_form: WordForm::Nu },
        Rule { base: "ぬ", conjugated: "なぬ", base_form: WordForm::GodanVerb, conjugated_form: WordForm::Nu },
        Rule { base: "る", conjugated: "ぬ", base_form: WordForm::IchidanVerb, conjugated_form: WordForm::Nu },
        Rule { base: "くる", conjugated: "こぬ", base_form: WordForm::KuruVerb, conjugated_form: WordForm::Nu },
        Rule { base: "来る", conjugated: "来ぬ", base_form: WordForm::KuruVerb, conjugated_form: WordForm::Nu },
        Rule { base: "する", conjugated: "せぬ", base_form: WordForm::SuruVerb, conjugated_form: WordForm::Nu },
        Rule { base: "為る", conjugated: "為ぬ", base_form: WordForm::SuruVerb, conjugated_form: WordForm::Nu },
        Rule { base: "る", conjugated: "らん", base_form: WordForm::GodanVerb, conjugated_form: WordForm::ColloquialNegative },
        Rule { base: "う", conjugated: "わん", base_form: WordForm::GodanVerb, conjugated_form: WordForm::ColloquialNegative },
        Rule { base: "つ", conjugated: "たん", base_form: WordForm::GodanVerb, conjugated_form: WordForm::ColloquialNegative },
        Rule { base: "す", conjugated: "さん", base_form: WordForm::GodanVerb, conjugated_form: WordForm::ColloquialNegative },
        Rule { base: "く", conjugated: "かん", base_form: WordForm::GodanVerb, conjugated_form: WordForm::ColloquialNegative },
        Rule { base: "ぐ", conjugated: "がん", base_form: WordForm::GodanVerb, conjugated_form: WordForm::ColloquialNegative },
        Rule { base: "ぶ", conjugated: "ばん", base_form: WordForm::GodanVerb, conjugated_form: WordForm::ColloquialNegative },
        Rule { base: "む", conjugated: "まん", base_form: WordForm::GodanVerb, conjugated_form: WordForm::ColloquialNegative },
        Rule { base: "ぬ", conjugated: "なん", base_form: WordForm::GodanVerb, conjugated_form: WordForm::ColloquialNegative },
        Rule { base: "る", conjugated: "ん", base_form: WordForm::IchidanVerb, conjugated_form: WordForm::ColloquialNegative },
        Rule { base: "くる", conjugated: "こん", base_form: WordForm::KuruVerb, conjugated_form: WordForm::ColloquialNegative },
        Rule { base: "来る", conjugated: "来ん", base_form: WordForm::KuruVerb, conjugated_form: WordForm::ColloquialNegative },
        Rule { base: "する", conjugated: "せん", base_form: WordForm::SuruVerb, conjugated_form: WordForm::ColloquialNegative },
        Rule { base: "為る", conjugated: "為ん", base_form: WordForm::SuruVerb, conjugated_form: WordForm::ColloquialNegative },
        Rule { base: "る", conjugated: "らなきゃ", base_form: WordForm::GodanVerb, conjugated_form: WordForm::ProvisionalColloquialNegative },
        Rule { base: "う", conjugated: "わなきゃ", base_form: WordForm::GodanVerb, conjugated_form: WordForm::ProvisionalColloquialNegative },
        Rule { base: "つ", conjugated: "たなきゃ", base_form: WordForm::GodanVerb, conjugated_form: WordForm::ProvisionalColloquialNegative },
        Rule { base: "す", conjugated: "さなきゃ", base_form: WordForm::GodanVerb, conjugated_form: WordForm::ProvisionalColloquialNegative },
        Rule { base: "く", conjugated: "かなきゃ", base_form: WordForm::GodanVerb, conjugated_form: WordForm::ProvisionalColloquialNegative },
        Rule { base: "ぐ", conjugated: "がなきゃ", base_form: WordForm::GodanVerb, conjugated_form: WordForm::ProvisionalColloquialNegative },
        Rule { base: "ぶ", conjugated: "ばなきゃ", base_form: WordForm::GodanVerb, conjugated_form: WordForm::ProvisionalColloquialNegative },
        Rule { base: "む", conjugated: "まなきゃ", base_form: WordForm::GodanVerb, conjugated_form: WordForm::ProvisionalColloquialNegative },
        Rule { base: "ぬ", conjugated: "ななきゃ", base_form: WordForm::GodanVerb, conjugated_form: WordForm::ProvisionalColloquialNegative },
        Rule { base: "る", conjugated: "なきゃ", base_form: WordForm::IchidanVerb, conjugated_form: WordForm::ProvisionalColloquialNegative },
        Rule { base: "くる", conjugated: "こなきゃ", base_form: WordForm::KuruVerb, conjugated_form: WordForm::ProvisionalColloquialNegative },
        Rule { base: "来る", conjugated: "来なきゃ", base_form: WordForm::KuruVerb, conjugated_form: WordForm::ProvisionalColloquialNegative },
        Rule { base: "する", conjugated: "しなきゃ", base_form: WordForm::SuruVerb, conjugated_form: WordForm::ProvisionalColloquialNegative },
        Rule { base: "為る", conjugated: "為なきゃ", base_form: WordForm::SuruVerb, conjugated_form: WordForm::ProvisionalColloquialNegative },
        Rule { base: "る", conjugated: "るな", base_form: WordForm::GodanVerb, conjugated_form: WordForm::ImperativeNegative },
        Rule { base: "う", conjugated: "うな", base_form: WordForm::GodanVerb, conjugated_form: WordForm::ImperativeNegative },
        Rule { base: "つ", conjugated: "つな", base_form: WordForm::GodanVerb, conjugated_form: WordForm::ImperativeNegative },
        Rule { base: "す", conjugated: "すな", base_form: WordForm::GodanVerb, conjugated_form: WordForm::ImperativeNegative },
        Rule { base: "く", conjugated: "くな", base_form: WordForm::GodanVerb, conjugated_form: WordForm::ImperativeNegative },
        Rule { base: "ぐ", conjugated: "ぐな", base_form: WordForm::GodanVerb, conjugated_form: WordForm::ImperativeNegative },
        Rule { base: "ぶ", conjugated: "ぶな", base_form: WordForm::GodanVerb, conjugated_form: WordForm::ImperativeNegative },
        Rule { base: "む", conjugated: "むな", base_form: WordForm::GodanVerb, conjugated_form: WordForm::ImperativeNegative },
        Rule { base: "ぬ", conjugated: "ぬな", base_form: WordForm::GodanVerb, conjugated_form: WordForm::ImperativeNegative },
        Rule { base: "る", conjugated: "るな", base_form: WordForm::IchidanVerb, conjugated_form: WordForm::ImperativeNegative },
        Rule { base: "くる", conjugated: "くるな", base_form: WordForm::KuruVerb, conjugated_form: WordForm::ImperativeNegative },
        Rule { base: "来る", conjugated: "来るな", base_form: WordForm::KuruVerb, conjugated_form: WordForm::ImperativeNegative },
        Rule { base: "する", conjugated: "するな", base_form: WordForm::SuruVerb, conjugated_form: WordForm::ImperativeNegative },
        Rule { base: "為る", conjugated: "為るな", base_form: WordForm::SuruVerb, conjugated_form: WordForm::ImperativeNegative },
        Rule { base: "る", conjugated: "ったり", base_form: WordForm::GodanVerb, conjugated_form: WordForm::Tari },
        Rule { base: "う", conjugated: "ったり", base_form: WordForm::GodanVerb, conjugated_form: WordForm::Tari },
        Rule { base: "つ", conjugated: "ったり", base_form: WordForm::GodanVerb, conjugated_form: WordForm::Tari },
        Rule { base: "す", conjugated: "したり", base_form: WordForm::GodanVerb, conjugated_form: WordForm::Tari },
        Rule { base: "く", conjugated: "いたり", base_form: WordForm::GodanVerb, conjugated_form: WordForm::Tari },
        Rule { base: "ぐ", conjugated: "いだり", base_form: WordForm::GodanVerb, conjugated_form: WordForm::Tari },
        Rule { base: "ぶ", conjugated: "んだり", base_form: WordForm::GodanVerb, conjugated_form: WordForm::Tari },
        Rule { base: "む", conjugated: "んだり", base_form: WordForm::GodanVerb, conjugated_form: WordForm::Tari },
        Rule { base: "ぬ", conjugated: "んだり", base_form: WordForm::GodanVerb, conjugated_form: WordForm::Tari },
        Rule { base: "る", conjugated: "たり", base_form: WordForm::IchidanVerb, conjugated_form: WordForm::Tari },
        Rule { base: "くる", conjugated: "きたり", base_form: WordForm::KuruVerb, conjugated_form: WordForm::Tari },
        Rule { base: "来る", conjugated: "来たり", base_form: WordForm::KuruVerb, conjugated_form: WordForm::Tari },
        Rule { base: "する", conjugated: "したり", base_form: WordForm::SuruVerb, conjugated_form: WordForm::Tari },
        Rule { base: "為る", conjugated: "為たり", base_form: WordForm::SuruVerb, conjugated_form: WordForm::Tari },
        Rule { base: "行く", conjugated: "行ったり", base_form: WordForm::GodanVerb, conjugated_form: WordForm::Tari },
        Rule { base: "問う", conjugated: "問うたり", base_form: WordForm::GodanVerb, conjugated_form: WordForm::Tari },
        Rule { base: "請う", conjugated: "請うたり", base_form: WordForm::GodanVerb, conjugated_form: WordForm::Tari },
        Rule { base: "る", conjugated: "っちゃう", base_form: WordForm::GodanVerb, conjugated_form: WordForm::Chau },
        Rule { base: "う", conjugated: "っちゃう", base_form: WordForm::GodanVerb, conjugated_form: WordForm::Chau },
        Rule { base: "つ", conjugated: "っちゃう", base_form: WordForm::GodanVerb, conjugated_form: WordForm::Chau },
        Rule { base: "す", conjugated: "しちゃう", base_form: WordForm::GodanVerb, conjugated_form: WordForm::Chau },
        Rule { base: "く", conjugated: "いちゃう", base_form: WordForm::GodanVerb, conjugated_form: WordForm::Chau },
        Rule { base: "ぐ", conjugated: "いちゃう", base_form: WordForm::GodanVerb, conjugated_form: WordForm::Chau },
        Rule { base: "ぶ", conjugated: "んじゃう", base_form: WordForm::GodanVerb, conjugated_form: WordForm::Chau },
        Rule { base: "ぬ", conjugated: "んじゃう", base_form: WordForm::GodanVerb, conjugated_form: WordForm::Chau },
        Rule { base: "む", conjugated: "んじゃう", base_form: WordForm::GodanVerb, conjugated_form: WordForm::Chau },
        Rule { base: "る", conjugated: "ちゃう", base_form: WordForm::IchidanVerb, conjugated_form: WordForm::Chau },
        Rule { base: "くる", conjugated: "きちゃう", base_form: WordForm::KuruVerb, conjugated_form: WordForm::Chau },
        Rule { base: "来る", conjugated: "来ちゃう", base_form: WordForm::KuruVerb, conjugated_form: WordForm::Chau },
        Rule { base: "する", conjugated: "しちゃう", base_form: WordForm::SuruVerb, conjugated_form: WordForm::Chau },
        Rule { base: "為る", conjugated: "為ちゃう", base_form: WordForm::SuruVerb, conjugated_form: WordForm::Chau },
        Rule { base: "行く", conjugated: "行っちゃう", base_form: WordForm::GodanVerb, conjugated_form: WordForm::Chau },
        Rule { base: "問う", conjugated: "問うちゃう", base_form: WordForm::GodanVerb, conjugated_form: WordForm::Chau },
        Rule { base: "請う", conjugated: "請うちゃう", base_form: WordForm::GodanVerb, conjugated_form: WordForm::Chau },
        Rule { base: "る", conjugated: "っちまう", base_form: WordForm::GodanVerb, conjugated_form: WordForm::Chimau },
        Rule { base: "う", conjugated: "っちまう", base_form: WordForm::GodanVerb, conjugated_form: WordForm::Chimau },
        Rule { base: "つ", conjugated: "っちまう", base_form: WordForm::GodanVerb, conjugated_form: WordForm::Chimau },
        Rule { base: "す", conjugated: "しちまう", base_form: WordForm::GodanVerb, conjugated_form: WordForm::Chimau },
        Rule { base: "く", conjugated: "いちまう", base_form: WordForm::GodanVerb, conjugated_form: WordForm::Chimau },
        Rule { base: "ぐ", conjugated: "いちまう", base_form: WordForm::GodanVerb, conjugated_form: WordForm::Chimau },
        Rule { base: "ぶ", conjugated: "んじまう", base_form: WordForm::GodanVerb, conjugated_form: WordForm::Chimau },
        Rule { base: "ぬ", conjugated: "んじまう", base_form: WordForm::GodanVerb, conjugated_form: WordForm::Chimau },
        Rule { base: "む", conjugated: "んじまう", base_form: WordForm::GodanVerb, conjugated_form: WordForm::Chimau },
        Rule { base: "る", conjugated: "ちまう", base_form: WordForm::IchidanVerb, conjugated_form: WordForm::Chimau },
        Rule { base: "くる", conjugated: "きちまう", base_form: WordForm::KuruVerb, conjugated_form: WordForm::Chimau },
        Rule { base: "来る", conjugated: "来ちまう", base_form: WordForm::KuruVerb, conjugated_form: WordForm::Chimau },
        Rule { base: "する", conjugated: "しちまう", base_form: WordForm::SuruVerb, conjugated_form: WordForm::Chimau },
        Rule { base: "為る", conjugated: "為ちまう", base_form: WordForm::SuruVerb, conjugated_form: WordForm::Chimau },
        Rule { base: "行く", conjugated: "行っちまう", base_form: WordForm::GodanVerb, conjugated_form: WordForm::Chimau },
        Rule { base: "問う", conjugated: "問うちゃう", base_form: WordForm::GodanVerb, conjugated_form: WordForm::Chimau },
        Rule { base: "請う", conjugated: "請うちゃう", base_form: WordForm::GodanVerb, conjugated_form: WordForm::Chimau },
        Rule { base: "で", conjugated: "でいる", base_form: WordForm::Te, conjugated_form: WordForm::Continuous },
        Rule { base: "て", conjugated: "ている", base_form: WordForm::Te, conjugated_form: WordForm::Continuous },
        Rule { base: "で", conjugated: "でおる", base_form: WordForm::Te, conjugated_form: WordForm::Continuous },
        Rule { base: "て", conjugated: "ておる", base_form: WordForm::Te, conjugated_form: WordForm::Continuous },
        Rule { base: "で", conjugated: "でる", base_form: WordForm::Te, conjugated_form: WordForm::Continuous },
        Rule { base: "て", conjugated: "てる", base_form: WordForm::Te, conjugated_form: WordForm::Continuous },
        Rule { base: "て", conjugated: "とる", base_form: WordForm::Te, conjugated_form: WordForm::Continuous },
        Rule { base: "で", conjugated: "でしまう", base_form: WordForm::Te, conjugated_form: WordForm::Shimau },
        Rule { base: "て", conjugated: "てしまう", base_form: WordForm::Te, conjugated_form: WordForm::Shimau },
        Rule { base: "い", conjugated: "くて", base_form: WordForm::Adjective, conjugated_form: WordForm::Te },
        Rule { base: "い", conjugated: "く", base_form: WordForm::Adjective, conjugated_form: WordForm::Adverbial },
        Rule { base: "い", conjugated: "くない", base_form: WordForm::Adjective, conjugated_form: WordForm::Negative },
        Rule { base: "い", conjugated: "かった", base_form: WordForm::Adjective, conjugated_form: WordForm::Past },
        Rule { base: "い", conjugated: "ければ", base_form: WordForm::Adjective, conjugated_form: WordForm::Ba },
        Rule { base: "い", conjugated: "くなきゃ", base_form: WordForm::Adjective, conjugated_form: WordForm::ProvisionalColloquialNegative },
        Rule { base: "い", conjugated: "かったら", base_form: WordForm::Adjective, conjugated_form: WordForm::Tara },
        Rule { base: "い", conjugated: "さ", base_form: WordForm::Adjective, conjugated_form: WordForm::Noun },
        Rule { base: "い", conjugated: "そう", base_form: WordForm::Adjective, conjugated_form: WordForm::Sou },
        Rule { base: "い", conjugated: "すぎる", base_form: WordForm::Adjective, conjugated_form: WordForm::Sugiru },
        Rule { base: "い", conjugated: "き", base_form: WordForm::Adjective, conjugated_form: WordForm::Ki },
        Rule { base: "い", conjugated: "かろう", base_form: WordForm::Adjective, conjugated_form: WordForm::Volitional },
        Rule { base: "ない", conjugated: "ねえ", base_form: WordForm::Adjective, conjugated_form: WordForm::E },
        Rule { base: "ない", conjugated: "ねぇ", base_form: WordForm::Adjective, conjugated_form: WordForm::E },
        Rule { base: "ない", conjugated: "ねー", base_form: WordForm::Adjective, conjugated_form: WordForm::E },
        Rule { base: "たい", conjugated: "てえ", base_form: WordForm::Adjective, conjugated_form: WordForm::E },
        Rule { base: "たい", conjugated: "てぇ", base_form: WordForm::Adjective, conjugated_form: WordForm::E },
        Rule { base: "たい", conjugated: "てー", base_form: WordForm::Adjective, conjugated_form: WordForm::E },
        Rule { base: "る", conjugated: "り", base_form: WordForm::GodanVerb, conjugated_form: WordForm::Conjunctive },
        Rule { base: "う", conjugated: "い", base_form: WordForm::GodanVerb, conjugated_form: WordForm::Conjunctive },
        Rule { base: "つ", conjugated: "ち", base_form: WordForm::GodanVerb, conjugated_form: WordForm::Conjunctive },
        Rule { base: "す", conjugated: "し", base_form: WordForm::GodanVerb, conjugated_form: WordForm::Conjunctive },
        Rule { base: "く", conjugated: "き", base_form: WordForm::GodanVerb, conjugated_form: WordForm::Conjunctive },
        Rule { base: "ぐ", conjugated: "ぎ", base_form: WordForm::GodanVerb, conjugated_form: WordForm::Conjunctive },
        Rule { base: "ぶ", conjugated: "び", base_form: WordForm::GodanVerb, conjugated_form: WordForm::Conjunctive },
        Rule { base: "む", conjugated: "み", base_form: WordForm::GodanVerb, conjugated_form: WordForm::Conjunctive },
        Rule { base: "ぬ", conjugated: "に", base_form: WordForm::GodanVerb, conjugated_form: WordForm::Conjunctive },
        Rule { base: "くる", conjugated: "き", base_form: WordForm::KuruVerb, conjugated_form: WordForm::Conjunctive },
        Rule { base: "来る", conjugated: "来", base_form: WordForm::KuruVerb, conjugated_form: WordForm::Conjunctive },
        Rule { base: "する", conjugated: "し", base_form: WordForm::SuruVerb, conjugated_form: WordForm::Conjunctive },
        Rule { base: "為る", conjugated: "為", base_form: WordForm::SuruVerb, conjugated_form: WordForm::Conjunctive },
        Rule { base: "", conjugated: "ます", base_form: WordForm::Conjunctive, conjugated_form: WordForm::Polite },
        Rule { base: "ます", conjugated: "ません", base_form: WordForm::Polite, conjugated_form: WordForm::Negative },
        Rule { base: "ます", conjugated: "ました", base_form: WordForm::Polite, conjugated_form: WordForm::Past },
        Rule { base: "ます", conjugated: "ましょう", base_form: WordForm::Polite, conjugated_form: WordForm::Volitional },
        Rule { base: "せん", conjugated: "せんでした", base_form: WordForm::Negative, conjugated_form: WordForm::Past },
        Rule { base: "", conjugated: "たら", base_form: WordForm::Conjunctive, conjugated_form: WordForm::Tara },
        Rule { base: "", conjugated: "たい", base_form: WordForm::Conjunctive, conjugated_form: WordForm::Tai },
        Rule { base: "", conjugated: "なさい", base_form: WordForm::Conjunctive, conjugated_form: WordForm::Nasai },
        Rule { base: "", conjugated: "そう", base_form: WordForm::Conjunctive, conjugated_form: WordForm::Sou },
        Rule { base: "", conjugated: "すぎる", base_form: WordForm::Conjunctive, conjugated_form: WordForm::Sugiru },
    ]
}

/// The deconjugation table (see [`rule_table`]).
pub fn rules() -> (r: Vec<Rule>)
    ensures
        r@ == rule_table(),
        r@.len() == RULE_COUNT,
{
    let r = vec![
        Rule { base: "る", conjugated: "らない", base_form: WordForm::GodanVerb, conjugated_form: WordForm::Negative },
        Rule { base: "う", conjugated: "わない", base_form: WordForm::GodanVerb, conjugated_form: WordForm::Negative },
        Rule { base: "つ", conjugated: "たない", base_form: WordForm::GodanVerb, conjugated_form: WordForm::Negative },
        Rule { base: "す", conjugated: "さない", base_form: WordForm::GodanVerb, conjugated_form: WordForm::Negative },
        Rule { base: "く", conjugated: "かない", base_form: WordForm::GodanVerb, conjugated_form: WordForm::Negative },
        Rule { base: "ぐ", conjugated: "がない", base_form: WordForm::GodanVerb, conjugated_form: WordForm::Negative },
        Rule { base: "ぶ", conjugated: "ばない", base_form: WordForm::GodanVerb, conjugated_form: WordForm::Negative },
        Rule { base: "む", conjugated: "まない", base_form: WordForm::GodanVerb, conjugated_form: WordForm::Negative },
        Rule { base: "ぬ", conjugated: "なない", base_form: WordForm::GodanVerb, conjugated_form: WordForm::Negative },
        Rule { base: "る", conjugated: "ない", base_form: WordForm::IchidanVerb, conjugated_form: WordForm::Negative },
        Rule { base: "くる", conjugated: "こない", base_form: WordForm::KuruVerb, conjugated_form: WordForm::Negative },
        Rule { base: "来る", conjugated: "来ない", base_form: WordForm::KuruVerb, conjugated_form: WordForm::Negative },
        Rule { base: "する", conjugated: "しない", base_form: WordForm::SuruVerb, conjugated_form: WordForm::Negative },
        Rule { base: "為る", conjugated: "為ない", base_form: WordForm::SuruVerb, conjugated_form: WordForm::Negative },
        Rule { base: "る", conjugated: "った", base_form: WordForm::GodanVerb, conjugated_form: WordForm::Past },
        Rule { base: "う", conjugated: "った", base_form: WordForm::GodanVerb, conjugated_form: WordForm::Past },
        Rule { base: "つ", conjugated: "った", base_form: WordForm::GodanVerb, conjugated_form: WordForm::Past },
        Rule { base: "す", conjugated: "した", base_form: WordForm::GodanVerb, conjugated_form: WordForm::Past },
        Rule { base: "く", conjugated: "いた", base_form: WordForm::GodanVerb, conjugated_form: WordForm::Past },
        Rule { base: "ぐ", conjugated: "いだ", base_form: WordForm::GodanVerb, conjugated_form: WordForm::Past },
        Rule { base: "ぶ", conjugated: "んだ", base_form: WordForm::GodanVerb, conjugated_form: WordForm::Past },
        Rule { base: "む", conjugated: "んだ", base_form: WordForm::GodanVerb, conjugated_form: WordForm::Past },
        Rule { base: "ぬ", conjugated: "んだ", base_form: WordForm::GodanVerb, conjugated_form: WordForm::Past },
        Rule { base: "る", conjugated: "た", base_form: WordForm::IchidanVerb, conjugated_form: WordForm::Past },
        Rule { base: "くる", conjugated: "きた", base_form: WordForm::KuruVerb, conjugated_form: WordForm::Past },
        Rule { base: "来る", conjugated: "来た", base_form: WordForm::KuruVerb, conjugated_form: WordForm::Past },
        Rule { base: "する", conjugated: "した", base_form: WordForm::SuruVerb, conjugated_form: WordForm::Past },
        Rule { base: "為る", conjugated: "為た", base_form: WordForm::SuruVerb, conjugated_form: WordForm::Past },
        Rule { base: "行く", conjugated: "行った", base_form: WordForm::GodanVerb, conjugated_form: WordForm::Past },
        Rule { base: "いく", conjugated: "いった", base_form: WordForm::GodanVerb, conjugated_form: WordForm::Past },
        Rule { base: "問う", conjugated: "問うた", base_form: WordForm::GodanVerb, conjugated_form: WordForm::Past },
        Rule { base: "とう", conjugated: "とうた", base_form: WordForm::GodanVerb, conjugated_form: WordForm::Past },
        Rule { base: "請う", conjugated: "請うた", base_form: WordForm::GodanVerb, conjugated_form: WordForm::Past },
        Rule { base: "こう", conjugated: "こうた", base_form: WordForm::GodanVerb, conjugated_form: WordForm::Past },
        Rule { base: "る", conjugated: "って", base_form: WordForm::GodanVerb, conjugated_form: WordForm::Te },
        Rule { base: "う", conjugated: "って", base_form: WordForm::GodanVerb, conjugated_form: WordForm::Te },
        Rule { base: "つ", conjugated: "って", base_form: WordForm::GodanVerb, conjugated_form: WordForm::Te },
        Rule { base: "す", conjugated: "して", base_form: WordForm::GodanVerb, conjugated_form: WordForm::Te },
        Rule { base: "く", conjugated: "いて", base_form: WordForm::GodanVerb, conjugated_form: WordForm::Te },
        Rule { base: "ぐ", conjugated: "いで", base_form: WordForm::GodanVerb, conjugated_form: WordForm::Te },
        Rule { base: "ぶ", conjugated: "んで", base_form: WordForm::GodanVerb, conjugated_form: WordForm::Te },
        Rule { base: "ぬ", conjugated: "んで", base_form: WordForm::GodanVerb, conjugated_form: WordForm::Te },
        Rule { base: "む", conjugated: "んで", base_form: WordForm::GodanVerb, conjugated_form: WordForm::Te },
        Rule { base: "る", conjugated: "て", base_form: WordForm::IchidanVerb, conjugated_form: WordForm::Te },
        Rule { base: "くる", conjugated: "きて", base_form: WordForm::KuruVerb, conjugated_form: WordForm::Te },
        Rule { base: "来る", conjugated: "来て", base_form: WordForm::KuruVerb, conjugated_form: WordForm::Te },
        Rule { base: "する", conjugated: "して", base_form: WordForm::SuruVerb, conjugated_form: WordForm::Te },
        Rule { base: "為る", conjugated: "為て", base_form: WordForm::SuruVerb, conjugated_form: WordForm::Te },
        Rule { base: "行く", conjugated: "行って", base_form: WordForm::GodanVerb, conjugated_form: WordForm::Te },
        Rule { base: "いく", conjugated: "いって", base_form: WordForm::GodanVerb, conjugated_form: WordForm::Te },
        Rule { base: "問う", conjugated: "問うて", base_form: WordForm::GodanVerb, conjugated_form: WordForm::Te },
        Rule { base: "とう", conjugated: "とうて", base_form: WordForm::GodanVerb, conjugated_form: WordForm::Te },
        Rule { base: "請う", conjugated: "請うて", base_form: WordForm::GodanVerb, conjugated_form: WordForm::Te },
        Rule { base: "こう", conjugated: "こうて", base_form: WordForm::GodanVerb, conjugated_form: WordForm::Te },
        Rule { base: "る", conjugated: "っとく", base_form: WordForm::GodanVerb, conjugated_form: WordForm::Toku },
        Rule { base: "う", conjugated: "っとく", base_form: WordForm::GodanVerb, conjugated_form: WordForm::Toku },
        Rule { base: "つ", conjugated: "っとく", base_form: WordForm::GodanVerb, conjugated_form: WordForm::Toku },
        Rule { base: "す", conjugated: "しとく", base_form: WordForm::GodanVerb, conjugated_form: WordForm::Toku },
        Rule { base: "く", conjugated: "いとく", base_form: WordForm::GodanVerb, conjugated_form: WordForm::Toku },
        Rule { base: "ぐ", conjugated: "いどく", base_form: WordForm::GodanVerb, conjugated_form: WordForm::Toku },
        Rule { base: "ぶ", conjugated: "んどく", base_form: WordForm::GodanVerb, conjugated_form: WordForm::Toku },
        Rule { base: "ぬ", conjugated: "んどく", base_form: WordForm::GodanVerb, conjugated_form: WordForm::Toku },
        Rule { base: "む", conjugated: "んどく", base_form: WordForm::GodanVerb, conjugated_form: WordForm::Toku },
        Rule { base: "る", conjugated: "とく", base_form: WordForm::IchidanVerb, conjugated_form: WordForm::Toku },
        Rule { base: "くる", conjugated: "きとく", base_form: WordForm::KuruVerb, conjugated_form: WordForm::Toku },
        Rule { base: "来る", conjugated: "来とく", base_form: WordForm::KuruVerb, conjugated_form: WordForm::Toku },
        Rule { base: "する", conjugated: "しとく", base_form: WordForm::SuruVerb, conjugated_form: WordForm::Toku },
        Rule { base: "為る", conjugated: "為とく", base_form: WordForm::SuruVerb, conjugated_form: WordForm::Toku },
        Rule { base: "行く", conjugated: "行っとく", base_form: WordForm::GodanVerb, conjugated_form: WordForm::Toku },
        Rule { base: "問う", conjugated: "問うとく", base_form: WordForm::GodanVerb, conjugated_form: WordForm::Toku },
        Rule { base: "請う", conjugated: "請うとく", base_form: WordForm::GodanVerb, conjugated_form: WordForm::Toku },
        Rule { base: "る", conjugated: "れ", base_form: WordForm::GodanVerb, conjugated_form: WordForm::Imperative },
        Rule { base: "う", conjugated: "え", base_form: WordForm::GodanVerb, conjugated_form: WordForm::Imperative },
        Rule { base: "つ", conjugated: "て", base_form: WordForm::GodanVerb, conjugated_form: WordForm::Imperative },
        Rule { base: "す", conjugated: "せ", base_form: WordForm::GodanVerb, conjugated_form: WordForm::Imperative },
        Rule { base: "く", conjugated: "け", base_form: WordForm::GodanVerb, conjugated_form: WordForm::Imperative },
        Rule { base: "ぐ", conjugated: "げ", base_form: WordForm::GodanVerb, conjugated_form: WordForm::Imperative },
        Rule { base: "ぶ", conjugated: "べ", base_form: WordForm::GodanVerb, conjugated_form: WordForm::Imperative },
        Rule { base: "む", conjugated: "め", base_form: WordForm::GodanVerb, conjugated_form: WordForm::Imperative },
        Rule { base: "ぬ", conjugated: "ね", base_form: WordForm::GodanVerb, conjugated_form: WordForm::Imperative },
        Rule { base: "る", conjugated: "ろ", base_form: WordForm::IchidanVerb, conjugated_form: WordForm::Imperative },
        Rule { base: "る", conjugated: "よ", base_form: WordForm::IchidanVerb, conjugated_form: WordForm::Imperative },
        Rule { base: "くる", conjugated: "こい", base_form: WordForm::KuruVerb, conjugated_form: WordForm::Imperative },
        Rule { base: "来る", conjugated: "来い", base_form: WordForm::KuruVerb, conjugated_form: WordForm::Imperative },
        Rule { base: "する", conjugated: "しろ", base_form: WordForm::SuruVerb, conjugated_form: WordForm::Imperative },
        Rule { base: "為る", conjugated: "為ろ", base_form: WordForm::SuruVerb, conjugated_form: WordForm::Imperative },
        Rule { base: "する", conjugated: "せよ", base_form: WordForm::SuruVerb, conjugated_form: WordForm::Imperative },
        Rule { base: "為る", conjugated: "為よ", base_form: WordForm::SuruVerb, conjugated_form: WordForm::Imperative },
        Rule { base: "る", conjugated: "ろう", base_form: WordForm::GodanVerb, conjugated_form: WordForm::Volitional },
        Rule { base: "う", conjugated: "おう", base_form: WordForm::GodanVerb, conjugated_form: WordForm::Volitional },
        Rule { base: "つ", conjugated: "とう", base_form: WordForm::GodanVerb, conjugated_form: WordForm::Volitional },
        Rule { base: "す", conjugated: "そう", base_form: WordForm::GodanVerb, conjugated_form: WordForm::Volitional },
        Rule { base: "く", conjugated: "こう", base_form: WordForm::GodanVerb, conjugated_form: WordForm::Volitional },
        Rule { base: "ぐ", conjugated: "ごう", base_form: WordForm::GodanVerb, conjugated_form: WordForm::Volitional },
        Rule { base: "ぶ", conjugated: "ぼう", base_form: WordForm::GodanVerb, conjugated_form: WordForm::Volitional },
        Rule { base: "む", conjugated: "もう", base_form: WordForm::GodanVerb, conjugated_form: WordForm::Volitional },
        Rule { base: "ぬ", conjugated: "のう", base_form: WordForm::GodanVerb, conjugated_form: WordForm::Volitional },
        Rule { base: "る", conjugated: "よう", base_form: WordForm::IchidanVerb, conjugated_form: WordForm::Volitional },
        Rule { base: "くる", conjugated: "こよう", base_form: WordForm::KuruVerb, conjugated_form: WordForm::Volitional },
        Rule { base: "来る", conjugated: "来よう", base_form: WordForm::KuruVerb, conjugated_form: WordForm::Volitional },
        Rule { base: "する", conjugated: "しよう", base_form: WordForm::SuruVerb, conjugated_form: WordForm::Volitional },
        Rule { base: "為る", conjugated: "為よう", base_form: WordForm::SuruVerb, conjugated_form: WordForm::Volitional },
        Rule { base: "る", conjugated: "られる", base_form: WordForm::GodanVerb, conjugated_form: WordForm::Passive },
        Rule { base: "う", conjugated: "われる", base_form: WordForm::GodanVerb, conjugated_form: WordForm::Passive },
        Rule { base: "つ", conjugated: "たれる", base_form: WordForm::GodanVerb, conjugated_form: WordForm::Passive },
        Rule { base: "す", conjugated: "される", base_form: WordForm::GodanVerb, conjugated_form: WordForm::Passive },
        Rule { base: "く", conjugated: "かれる", base_form: WordForm::GodanVerb, conjugated_form: WordForm::Passive },
        Rule { base: "ぐ", conjugated: "がれる", base_form: WordForm::GodanVerb, conjugated_form: WordForm::Passive },
        Rule { base: "ぶ", conjugated: "ばれる", base_form: WordForm::GodanVerb, conjugated_form: WordForm::Passive },
        Rule { base: "む", conjugated: "まれる", base_form: WordForm::GodanVerb, conjugated_form: WordForm::Passive },
        Rule { base: "ぬ", conjugated: "なれる", base_form: WordForm::GodanVerb, conjugated_form: WordForm::Passive },
        Rule { base: "る", conjugated: "られる", base_form: WordForm::IchidanVerb, conjugated_form: WordForm::PotentialPassive },
        Rule { base: "くる", conjugated: "こられる", base_form: WordForm::KuruVerb, conjugated_form: WordForm::PotentialPassive },
        Rule { base: "来る", conjugated: "来られる", base_form: WordForm::KuruVerb, conjugated_form: WordForm::PotentialPassive },
        Rule { base: "する", conjugated: "される", base_form: WordForm::SuruVerb, conjugated_form: WordForm::Passive },
        Rule { base: "為る", conjugated: "為れる", base_form: WordForm::SuruVerb, conjugated_form: WordForm::Passive },
        Rule { base: "る", conjugated: "れる", base_form: WordForm::GodanVerb, conjugated_form: WordForm::Potential },
        Rule { base: "う", conjugated: "える", base_form: WordForm::GodanVerb, conjugated_form: WordForm::Potential },
        Rule { base: "つ", conjugated: "てる", base_form: WordForm::GodanVerb, conjugated_form: WordForm::Potential },
        Rule { base: "す", conjugated: "せる", base_form: WordForm::GodanVerb, conjugated_form: WordForm::Potential },
        Rule { base: "く", conjugated: "ける", base_form: WordForm::GodanVerb, conjugated_form: WordForm::Potential },
        Rule { base: "ぐ", conjugated: "げる", base_form: WordForm::GodanVerb, conjugated_form: WordForm::Potential },
        Rule { base: "ぶ", conjugated: "べる", base_form: WordForm::GodanVerb, conjugated_form: WordForm::Potential },
        Rule { base: "む", conjugated: "める", base_form: WordForm::GodanVerb, conjugated_form: WordForm::Potential },
        Rule { base: "ぬ", conjugated: "ねる", base_form: WordForm::GodanVerb, conjugated_form: WordForm::Potential },
        Rule { base: "る", conjugated: "れる", base_form: WordForm::IchidanVerb, conjugated_form: WordForm::Potential },
        Rule { base: "くる", conjugated: "これる", base_form: WordForm::KuruVerb, conjugated_form: WordForm::Potential },
        Rule { base: "来る", conjugated: "来れる", base_form: WordForm::KuruVerb, conjugated_form: WordForm::Potential },
        Rule { base: "する", conjugated: "できる", base_form: WordForm::SuruVerb, conjugated_form: WordForm::Potential },
        Rule { base: "る", conjugated: "らせる", base_form: WordForm::GodanVerb, conjugated_form: WordForm::Causative },
        Rule { base: "う", conjugated: "わせる", base_form: WordForm::GodanVerb, conjugated_form: WordForm::Causative },
        Rule { base: "つ", conjugated: "たせる", base_form: WordForm::GodanVerb, conjugated_form: WordForm::Causative },
        Rule { base: "す", conjugated: "させる", base_form: WordForm::GodanVerb, conjugated_form: WordForm::Causative },
        Rule { base: "く", conjugated: "かせる", base_form: WordForm::GodanVerb, conjugated_form: WordForm::Causative },
        Rule { base: "ぐ", conjugated: "がせる", base_form: WordForm::GodanVerb, conjugated_form: WordForm::Causative },
        Rule { base: "ぶ", conjugated: "ばせる", base_form: WordForm::GodanVerb, conjugated_form: WordForm::Causative },
        Rule { base: "む", conjugated: "ませる", base_form: WordForm::GodanVerb, conjugated_form: WordForm::Causative },
        Rule { base: "ぬ", conjugated: "なせる", base_form: WordForm::GodanVerb, conjugated_form: WordForm::Causative },
        Rule { base: "る", conjugated: "させる", base_form: WordForm::IchidanVerb, conjugated_form: WordForm::Causative },
        Rule { base: "くる", conjugated: "こさせる", base_form: WordForm::KuruVerb, conjugated_form: WordForm::Causative },
        Rule { base: "来る", conjugated: "来させる", base_form: WordForm::KuruVerb, conjugated_form: WordForm::Causative },
        Rule { base: "する", conjugated: "させる", base_form: WordForm::SuruVerb, conjugated_form: WordForm::Causative },
        Rule { base: "為る", conjugated: "為せる", base_form: WordForm::SuruVerb, conjugated_form: WordForm::Causative },
        Rule { base: "る", conjugated: "れば", base_form: WordForm::GodanVerb, conjugated_form: WordForm::Ba },
        Rule { base: "う", conjugated: "えば", base_form: WordForm::GodanVerb, conjugated_form: WordForm::Ba },
        Rule { base: "つ", conjugated: "てば", base_form: WordForm::GodanVerb, conjugated_form: WordForm::Ba },
        Rule { base: "す", conjugated: "せば", base_form: WordForm::GodanVerb, conjugated_form: WordForm::Ba },
        Rule { base: "く", conjugated: "けば", base_form: WordForm::GodanVerb, conjugated_form: WordForm::Ba },
        Rule { base: "ぐ", conjugated: "げば", base_form: WordForm::GodanVerb, conjugated_form: WordForm::Ba },
        Rule { base: "ぶ", conjugated: "べば", base_form: WordForm::GodanVerb, conjugated_form: WordForm::Ba },
        Rule { base: "む", conjugated: "めば", base_form: WordForm::GodanVerb, conjugated_form: WordForm::Ba },
        Rule { base: "ぬ", conjugated: "ねば", base_form: WordForm::GodanVerb, conjugated_form: WordForm::Ba },
        Rule { base: "る", conjugated: "れば", base_form: WordForm::IchidanVerb, conjugated_form: WordForm::Ba },
        Rule { base: "くる", conjugated: "くれば", base_form: WordForm::KuruVerb, conjugated_form: WordForm::Ba },
        Rule { base: "来る", conjugated: "来れば", base_form: WordForm::KuruVerb, conjugated_form: WordForm::Ba },
        Rule { base: "する", conjugated: "すれば", base_form: WordForm::SuruVerb, conjugated_form: WordForm::Ba },
        Rule { base: "為る", conjugated: "為れば", base_form: WordForm::SuruVerb, conjugated_form: WordForm::Ba },
        Rule { base: "る", conjugated: "らざる", base_form: WordForm::GodanVerb, conjugated_form: WordForm::Zaru },
        Rule { base: "う", conjugated: "わざる", base_form: WordForm::GodanVerb, conjugated_form: WordForm::Zaru },
        Rule { base: "つ", conjugated: "たざる", base_form: WordForm::GodanVerb, conjugated_form: WordForm::Zaru },
        Rule { base: "す", conjugated: "さざる", base_form: WordForm::GodanVerb, conjugated_form: WordForm::Zaru },
        Rule { base: "く", conjugated: "かざる", base_form: WordForm::GodanVerb, conjugated_form: WordForm::Zaru },
        Rule { base: "ぐ", conjugated: "がざる", base_form: WordForm::GodanVerb, conjugated_form: WordForm::Zaru },
        Rule { base: "ぶ", conjugated: "ばざる", base_form: WordForm::GodanVerb, conjugated_form: WordForm::Zaru },
        Rule { base: "む", conjugated: "まざる", base_form: WordForm::GodanVerb, conjugated_form: WordForm::Zaru },
        Rule { base: "ぬ", conjugated: "なざる", base_form: WordForm::GodanVerb, conjugated_form: WordForm::Zaru },
        Rule { base: "る", conjugated: "ざる", base_form: WordForm::IchidanVerb, conjugated_form: WordForm::Zaru },
        Rule { base: "くる", conjugated: "こざる", base_form: WordForm::KuruVerb, conjugated_form: WordForm::Zaru },
        Rule { base: "来る", conjugated: "来ざる", base_form: WordForm::KuruVerb, conjugated_form: WordForm::Zaru },
        Rule { base: "する", conjugated: "せざる", base_form: WordForm::SuruVerb, conjugated_form: WordForm::Zaru },
        Rule { base: "為る", conjugated: "為ざる", base_form: WordForm::SuruVerb, conjugated_form: WordForm::Zaru },
        Rule { base: "る", conjugated: "らねば", base_form: WordForm::GodanVerb, conjugated_form: WordForm::Neba },
        Rule { base: "う", conjugated: "わねば", base_form: WordForm::GodanVerb, conjugated_form: WordForm::Neba },
        Rule { base: "つ", conjugated: "たねば", base_form: WordForm::GodanVerb, conjugated_form: WordForm::Neba },
        Rule { base: "す", conjugated: "さねば", base_form: WordForm::GodanVerb, conjugated_form: WordForm::Neba },
        Rule { base: "く", conjugated: "かねば", base_form: WordForm::GodanVerb, conjugated_form: WordForm::Neba },
        Rule { base: "ぐ", conjugated: "がねば", base_form: WordForm::GodanVerb, conjugated_form: WordForm::Neba },
        Rule { base: "ぶ", conjugated: "ばねば", base_form: WordForm::GodanVerb, conjugated_form: WordForm::Neba },
        Rule { base: "む", conjugated: "まねば", base_form: WordForm::GodanVerb, conjugated_form: WordForm::Neba },
        Rule { base: "ぬ", conjugated: "なねば", base_form: WordForm::GodanVerb, conjugated_form: WordForm::Neba },
        Rule { base: "る", conjugated: "ねば", base_form: WordForm::IchidanVerb, conjugated_form: WordForm::Neba },
        Rule { base: "くる", conjugated: "こねば", base_form: WordForm::KuruVerb, conjugated_form: WordForm::Neba },
        Rule { base: "来る", conjugated: "来ねば", base_form: WordForm::KuruVerb, conjugated_form: WordForm::Neba },
        Rule { base: "する", conjugated: "せねば", base_form: WordForm::SuruVerb, conjugated_form: WordForm::Neba },
        Rule { base: "為る", conjugated: "為ねば", base_form: WordForm::SuruVerb, conjugated_form: WordForm::Neba },
        Rule { base: "る", conjugated: "らず", base_form: WordForm::GodanVerb, conjugated_form: WordForm::Zu },
        Rule { base: "う", conjugated: "わず", base_form: WordForm::GodanVerb, conjugated_form: WordForm::Zu },
        Rule { base: "つ", conjugated: "たず", base_form: WordForm::GodanVerb, conjugated_form: WordForm::Zu },
        Rule { base: "す", conjugated: "さず", base_form: WordForm::GodanVerb, conjugated_form: WordForm::Zu },
        Rule { base: "く", conjugated: "かず", base_form: WordForm::GodanVerb, conjugated_form: WordForm::Zu },
        Rule { base: "ぐ", conjugated: "がず", base_form: WordForm::GodanVerb, conjugated_form: WordForm::Zu },
        Rule { base: "ぶ", conjugated: "ばず", base_form: WordForm::GodanVerb, conjugated_form: WordForm::Zu },
        Rule { base: "む", conjugated: "まず", base_form: WordForm::GodanVerb, conjugated_form: WordForm::Zu },
        Rule { base: "ぬ", conjugated: "なず", base_form: WordForm::GodanVerb, conjugated_form: WordForm::Zu },
        Rule { base: "る", conjugated: "ず", base_form: WordForm::IchidanVerb, conjugated_form: WordForm::Zu },
        Rule { base: "くる", conjugated: "こず", base_form: WordForm::KuruVerb, conjugated_form: WordForm::Zu },
        Rule { base: "来る", conjugated: "来ず", base_form: WordForm::KuruVerb, conjugated_form: WordForm::Zu },
        Rule { base: "する", conjugated: "せず", base_form: WordForm::SuruVerb, conjugated_form: WordForm::Zu },
        Rule { base: "為る", conjugated: "為ず", base_form: WordForm::SuruVerb, conjugated_form: WordForm::Zu },
        Rule { base: "る", conjugated: "らぬ", base_form: WordForm::GodanVerb, conjugated_form: WordForm::Nu },
        Rule { base: "う", conjugated: "わぬ", base_form: WordForm::GodanVerb, conjugated_form: WordForm::Nu },
        Rule { base: "つ", conjugated: "たぬ", base_form: WordForm::GodanVerb, conjugated_form: WordForm::Nu },
        Rule { base: "す", conjugated: "さぬ", base_form: WordForm::GodanVerb, conjugated_form: WordForm::Nu },
        Rule { base: "く", conjugated: "かぬ", base_form: WordForm::GodanVerb, conjugated_form: WordForm::Nu },
        Rule { base: "ぐ", conjugated: "がぬ", base_form: WordForm::GodanVerb, conjugated_form: WordForm::Nu },
        Rule { base: "ぶ", conjugated: "ばぬ", base_form: WordForm::GodanVerb, conjugated_form: WordForm::Nu },
        Rule { base: "む", conjugated: "まぬ", base_form: WordForm::GodanVerb, conjugated_form: WordForm::Nu },
        Rule { base: "ぬ", conjugated: "なぬ", base_form: WordForm::GodanVerb, conjugated_form: WordForm::Nu },
        Rule { base: "る", conjugated: "ぬ", base_form: WordForm::IchidanVerb, conjugated_form: WordForm::Nu },
        Rule { base: "くる", conjugated: "こぬ", base_form: WordForm::KuruVerb, conjugated_form: WordForm::Nu },
        Rule { base: "来る", conjugated: "来ぬ", base_form: WordForm::KuruVerb, conjugated_form: WordForm::Nu },
        Rule { base: "する", conjugated: "せぬ", base_form: WordForm::SuruVerb, conjugated_form: WordForm::Nu },
        Rule { base: "為る", conjugated: "為ぬ", base_form: WordForm::SuruVerb, conjugated_form: WordForm::Nu },
        Rule { base: "る", conjugated: "らん", base_form: WordForm::GodanVerb, conjugated_form: WordForm::ColloquialNegative },
        Rule { base: "う", conjugated: "わん", base_form: WordForm::GodanVerb, conjugated_form: WordForm::ColloquialNegative },
        Rule { base: "つ", conjugated: "たん", base_form: WordForm::GodanVerb, conjugated_form: WordForm::ColloquialNegative },
        Rule { base: "す", conjugated: "さん", base_form: WordForm::GodanVerb, conjugated_form: WordForm::ColloquialNegative },
        Rule { base: "く", conjugated: "かん", base_form: WordForm::GodanVerb, conjugated_form: WordForm::ColloquialNegative },
        Rule { base: "ぐ", conjugated: "がん", base_form: WordForm::GodanVerb, conjugated_form: WordForm::ColloquialNegative },
        Rule { base: "ぶ", conjugated: "ばん", base_form: WordForm::GodanVerb, conjugated_form: WordForm::ColloquialNegative },
        Rule { base: "む", conjugated: "まん", base_form: WordForm::GodanVerb, conjugated_form: WordForm::ColloquialNegative },
        Rule { base: "ぬ", conjugated: "なん", base_form: WordForm::GodanVerb, conjugated_form: WordForm::ColloquialNegative },
        Rule { base: "る", conjugated: "ん", base_form: WordForm::IchidanVerb, conjugated_form: WordForm::ColloquialNegative },
        Rule { base: "くる", conjugated: "こん", base_form: WordForm::KuruVerb, conjugated_form: WordForm::ColloquialNegative },
        Rule { base: "来る", conjugated: "来ん", base_form: WordForm::KuruVerb, conjugated_form: WordForm::ColloquialNegative },
        Rule { base: "する", conjugated: "せん", base_form: WordForm::SuruVerb, conjugated_form: WordForm::ColloquialNegative },
        Rule { base: "為る", conjugated: "為ん", base_form: WordForm::SuruVerb, conjugated_form: WordForm::ColloquialNegative },
        Rule { base: "る", conjugated: "らなきゃ", base_form: WordForm::GodanVerb, conjugated_form: WordForm::ProvisionalColloquialNegative },
        Rule { base: "う", conjugated: "わなきゃ", base_form: WordForm::GodanVerb, conjugated_form: WordForm::ProvisionalColloquialNegative },
        Rule { base: "つ", conjugated: "たなきゃ", base_form: WordForm::GodanVerb, conjugated_form: WordForm::ProvisionalColloquialNegative },
        Rule { base: "す", conjugated: "さなきゃ", base_form: WordForm::GodanVerb, conjugated_form: WordForm::ProvisionalColloquialNegative },
        Rule { base: "く", conjugated: "かなきゃ", base_form: WordForm::GodanVerb, conjugated_form: WordForm::ProvisionalColloquialNegative },
        Rule { base: "ぐ", conjugated: "がなきゃ", base_form: WordForm::GodanVerb, conjugated_form: WordForm::ProvisionalColloquialNegative },
        Rule { base: "ぶ", conjugated: "ばなきゃ", base_form: WordForm::GodanVerb, conjugated_form: WordForm::ProvisionalColloquialNegative },
        Rule { base: "む", conjugated: "まなきゃ", base_form: WordForm::GodanVerb, conjugated_form: WordForm::ProvisionalColloquialNegative },
        Rule { base: "ぬ", conjugated: "ななきゃ", base_form: WordForm::GodanVerb, conjugated_form: WordForm::ProvisionalColloquialNegative },
        Rule { base: "る", conjugated: "なきゃ", base_form: WordForm::IchidanVerb, conjugated_form: WordForm::ProvisionalColloquialNegative },
        Rule { base: "くる", conjugated: "こなきゃ", base_form: WordForm::KuruVerb, conjugated_form: WordForm::ProvisionalColloquialNegative },
        Rule { base: "来る", conjugated: "来なきゃ", base_form: WordForm::KuruVerb, conjugated_form: WordForm::ProvisionalColloquialNegative },
        Rule { base: "する", conjugated: "しなきゃ", base_form: WordForm::SuruVerb, conjugated_form: WordForm::ProvisionalColloquialNegative },
        Rule { base: "為る", conjugated: "為なきゃ", base_form: WordForm::SuruVerb, conjugated_form: WordForm::ProvisionalColloquialNegative },
        Rule { base: "る", conjugated: "るな", base_form: WordForm::GodanVerb, conjugated_form: WordForm::ImperativeNegative },
        Rule { base: "う", conjugated: "うな", base_form: WordForm::GodanVerb, conjugated_form: WordForm::ImperativeNegative },
        Rule { base: "つ", conjugated: "つな", base_form: WordForm::GodanVerb, conjugated_form: WordForm::ImperativeNegative },
        Rule { base: "す", conjugated: "すな", base_form: WordForm::GodanVerb, conjugated_form: WordForm::ImperativeNegative },
        Rule { base: "く", conjugated: "くな", base_form: WordForm::GodanVerb, conjugated_form: WordForm::ImperativeNegative },
        Rule { base: "ぐ", conjugated: "ぐな", base_form: WordForm::GodanVerb, conjugated_form: WordForm::ImperativeNegative },
        Rule { base: "ぶ", conjugated: "ぶな", base_form: WordForm::GodanVerb, conjugated_form: WordForm::ImperativeNegative },
        Rule { base: "む", conjugated: "むな", base_form: WordForm::GodanVerb, conjugated_form: WordForm::ImperativeNegative },
        Rule { base: "ぬ", conjugated: "ぬな", base_form: WordForm::GodanVerb, conjugated_form: WordForm::ImperativeNegative },
        Rule { base: "る", conjugated: "るな", base_form: WordForm::IchidanVerb, conjugated_form: WordForm::ImperativeNegative },
        Rule { base: "くる", conjugated: "くるな", base_form: WordForm::KuruVerb, conjugated_form: WordForm::ImperativeNegative },
        Rule { base: "来る", conjugated: "来るな", base_form: WordForm::KuruVerb, conjugated_form: WordForm::ImperativeNegative },
        Rule { base: "する", conjugated: "するな", base_form: WordForm::SuruVerb, conjugated_form: WordForm::ImperativeNegative },
        Rule { base: "為る", conjugated: "為るな", base_form: WordForm::SuruVerb, conjugated_form: WordForm::ImperativeNegative },
        Rule { base: "る", conjugated: "ったり", base_form: WordForm::GodanVerb, conjugated_form: WordForm::Tari },
        Rule { base: "う", conjugated: "ったり", base_form: WordForm::GodanVerb, conjugated_form: WordForm::Tari },
        Rule { base: "つ", conjugated: "ったり", base_form: WordForm::GodanVerb, conjugated_form: WordForm::Tari },
        Rule { base: "す", conjugated: "したり", base_form: WordForm::GodanVerb, conjugated_form: WordForm::Tari },
        Rule { base: "く", conjugated: "いたり", base_form: WordForm::GodanVerb, conjugated_form: WordForm::Tari },
        Rule { base: "ぐ", conjugated: "いだり", base_form: WordForm::GodanVerb, conjugated_form: WordForm::Tari },
        Rule { base: "ぶ", conjugated: "んだり", base_form: WordForm::GodanVerb, conjugated_form: WordForm::Tari },
        Rule { base: "む", conjugated: "んだり", base_form: WordForm::GodanVerb, conjugated_form: WordForm::Tari },
        Rule { base: "ぬ", conjugated: "んだり", base_form: WordForm::GodanVerb, conjugated_form: WordForm::Tari },
        Rule { base: "る", conjugated: "たり", base_form: WordForm::IchidanVerb, conjugated_form: WordForm::Tari },
        Rule { base: "くる", conjugated: "きたり", base_form: WordForm::KuruVerb, conjugated_form: WordForm::Tari },
        Rule { base: "来る", conjugated: "来たり", base_form: WordForm::KuruVerb, conjugated_form: WordForm::Tari },
        Rule { base: "する", conjugated: "したり", base_form: WordForm::SuruVerb, conjugated_form: WordForm::Tari },
        Rule { base: "為る", conjugated: "為たり", base_form: WordForm::SuruVerb, conjugated_form: WordForm::Tari },
        Rule { base: "行く", conjugated: "行ったり", base_form: WordForm::GodanVerb, conjugated_form: WordForm::Tari },
        Rule { base: "問う", conjugated: "問うたり", base_form: WordForm::GodanVerb, conjugated_form: WordForm::Tari },
        Rule { base: "請う", conjugated: "請うたり", base_form: WordForm::GodanVerb, conjugated_form: WordForm::Tari },
        Rule { base: "る", conjugated: "っちゃう", base_form: WordForm::GodanVerb, conjugated_form: WordForm::Chau },
        Rule { base: "う", conjugated: "っちゃう", base_form: WordForm::GodanVerb, conjugated_form: WordForm::Chau },
        Rule { base: "つ", conjugated: "っちゃう", base_form: WordForm::GodanVerb, conjugated_form: WordForm::Chau },
        Rule { base: "す", conjugated: "しちゃう", base_form: WordForm::GodanVerb, conjugated_form: WordForm::Chau },
        Rule { base: "く", conjugated: "いちゃう", base_form: WordForm::GodanVerb, conjugated_form: WordForm::Chau },
        Rule { base: "ぐ", conjugated: "いちゃう", base_form: WordForm::GodanVerb, conjugated_form: WordForm::Chau },
        Rule { base: "ぶ", conjugated: "んじゃう", base_form: WordForm::GodanVerb, conjugated_form: WordForm::Chau },
        Rule { base: "ぬ", conjugated: "んじゃう", base_form: WordForm::GodanVerb, conjugated_form: WordForm::Chau },
        Rule { base: "む", conjugated: "んじゃう", base_form: WordForm::GodanVerb, conjugated_form: WordForm::Chau },
        Rule { base: "る", conjugated: "ちゃう", base_form: WordForm::IchidanVerb, conjugated_form: WordForm::Chau },
        Rule { base: "くる", conjugated: "きちゃう", base_form: WordForm::KuruVerb, conjugated_form: WordForm::Chau },
        Rule { base: "来る", conjugated: "来ちゃう", base_form: WordForm::KuruVerb, conjugated_form: WordForm::Chau },
        Rule { base: "する", conjugated: "しちゃう", base_form: WordForm::SuruVerb, conjugated_form: WordForm::Chau },
        Rule { base: "為る", conjugated: "為ちゃう", base_form: WordForm::SuruVerb, conjugated_form: WordForm::Chau },
        Rule { base: "行く", conjugated: "行っちゃう", base_form: WordForm::GodanVerb, conjugated_form: WordForm::Chau },
        Rule { base: "問う", conjugated: "問うちゃう", base_form: WordForm::GodanVerb, conjugated_form: WordForm::Chau },
        Rule { base: "請う", conjugated: "請うちゃう", base_form: WordForm::GodanVerb, conjugated_form: WordForm::Chau },
        Rule { base: "る", conjugated: "っちまう", base_form: WordForm::GodanVerb, conjugated_form: WordForm::Chimau },
        Rule { base: "う", conjugated: "っちまう", base_form: WordForm::GodanVerb, conjugated_form: WordForm::Chimau },
        Rule { base: "つ", conjugated: "っちまう", base_form: WordForm::GodanVerb, conjugated_form: WordForm::Chimau },
        Rule { base: "す", conjugated: "しちまう", base_form: WordForm::GodanVerb, conjugated_form: WordForm::Chimau },
        Rule { base: "く", conjugated: "いちまう", base_form: WordForm::GodanVerb, conjugated_form: WordForm::Chimau },
        Rule { base: "ぐ", conjugated: "いちまう", base_form: WordForm::GodanVerb, conjugated_form: WordForm::Chimau },
        Rule { base: "ぶ", conjugated: "んじまう", base_form: WordForm::GodanVerb, conjugated_form: WordForm::Chimau },
        Rule { base: "ぬ", conjugated: "んじまう", base_form: WordForm::GodanVerb, conjugated_form: WordForm::Chimau },
        Rule { base: "む", conjugated: "んじまう", base_form: WordForm::GodanVerb, conjugated_form: WordForm::Chimau },
        Rule { base: "る", conjugated: "ちまう", base_form: WordForm::IchidanVerb, conjugated_form: WordForm::Chimau },
        Rule { base: "くる", conjugated: "きちまう", base_form: WordForm::KuruVerb, conjugated_form: WordForm::Chimau },
        Rule { base: "来る", conjugated: "来ちまう", base_form: WordForm::KuruVerb, conjugated_form: WordForm::Chimau },
        Rule { base: "する", conjugated: "しちまう", base_form: WordForm::SuruVerb, conjugated_form: WordForm::Chimau },
        Rule { base: "為る", conjugated: "為ちまう", base_form: WordForm::SuruVerb, conjugated_form: WordForm::Chimau },
        Rule { base: "行く", conjugated: "行っちまう", base_form: WordForm::GodanVerb, conjugated_form: WordForm::Chimau },
        Rule { base: "問う", conjugated: "問うちゃう", base_form: WordForm::GodanVerb, conjugated_form: WordForm::Chimau },
        Rule { base: "請う", conjugated: "請うちゃう", base_form: WordForm::GodanVerb, conjugated_form: WordForm::Chimau },
        Rule { base: "で", conjugated: "でいる", base_form: WordForm::Te, conjugated_form: WordForm::Continuous },
        Rule { base: "て", conjugated: "ている", base_form: WordForm::Te, conjugated_form: WordForm::Continuous },
        Rule { base: "で", conjugated: "でおる", base_form: WordForm::Te, conjugated_form: WordForm::Continuous },
        Rule { base: "て", conjugated: "ておる", base_form: WordForm::Te, conjugated_form: WordForm::Continuous },
        Rule { base: "で", conjugated: "でる", base_form: WordForm::Te, conjugated_form: WordForm::Continuous },
        Rule { base: "て", conjugated: "てる", base_form: WordForm::Te, conjugated_form: WordForm::Continuous },
        Rule { base: "て", conjugated: "とる", base_form: WordForm::Te, conjugated_form: WordForm::Continuous },
        Rule { base: "で", conjugated: "でしまう", base_form: WordForm::Te, conjugated_form: WordForm::Shimau },
        Rule { base: "て", conjugated: "てしまう", base_form: WordForm::Te, conjugated_form: WordForm::Shimau },
        Rule { base: "い", conjugated: "くて", base_form: WordForm::Adjective, conjugated_form: WordForm::Te },
        Rule { base: "い", conjugated: "く", base_form: WordForm::Adjective, conjugated_form: WordForm::Adverbial },
        Rule { base: "い", conjugated: "くない", base_form: WordForm::Adjective, conjugated_form: WordForm::Negative },
        Rule { base: "い", conjugated: "かった", base_form: WordForm::Adjective, conjugated_form: WordForm::Past },
        Rule { base: "い", conjugated: "ければ", base_form: WordForm::Adjective, conjugated_form: WordForm::Ba },
        Rule { base: "い", conjugated: "くなきゃ", base_form: WordForm::Adjective, conjugated_form: WordForm::ProvisionalColloquialNegative },
        Rule { base: "い", conjugated: "かったら", base_form: WordForm::Adjective, conjugated_form: WordForm::Tara },
        Rule { base: "い", conjugated: "さ", base_form: WordForm::Adjective, conjugated_form: WordForm::Noun },
        Rule { base: "い", conjugated: "そう", base_form: WordForm::Adjective, conjugated_form: WordForm::Sou },
        Rule { base: "い", conjugated: "すぎる", base_form: WordForm::Adjective, conjugated_form: WordForm::Sugiru },
        Rule { base: "い", conjugated: "き", base_form: WordForm::Adjective, conjugated_form: WordForm::Ki },
        Rule { base: "い", conjugated: "かろう", base_form: WordForm::Adjective, conjugated_form: WordForm::Volitional },
        Rule { base: "ない", conjugated: "ねえ", base_form: WordForm::Adjective, conjugated_form: WordForm::E },
        Rule { base: "ない", conjugated: "ねぇ", base_form: WordForm::Adjective, conjugated_form: WordForm::E },
        Rule { base: "ない", conjugated: "ねー", base_form: WordForm::Adjective, conjugated_form: WordForm::E },
        Rule { base: "たい", conjugated: "てえ", base_form: WordForm::Adjective, conjugated_form: WordForm::E },
        Rule { base: "たい", conjugated: "てぇ", base_form: WordForm::Adjective, conjugated_form: WordForm::E },
        Rule { base: "たい", conjugated: "てー", base_form: WordForm::Adjective, conjugated_form: WordForm::E },
        Rule { base: "る", conjugated: "り", base_form: WordForm::GodanVerb, conjugated_form: WordForm::Conjunctive },
        Rule { base: "う", conjugated: "い", base_form: WordForm::GodanVerb, conjugated_form: WordForm::Conjunctive },
        Rule { base: "つ", conjugated: "ち", base_form: WordForm::GodanVerb, conjugated_form: WordForm::Conjunctive },
        Rule { base: "す", conjugated: "し", base_form: WordForm::GodanVerb, conjugated_form: WordForm::Conjunctive },
        Rule { base: "く", conjugated: "き", base_form: WordForm::GodanVerb, conjugated_form: WordForm::Conjunctive },
        Rule { base: "ぐ", conjugated: "ぎ", base_form: WordForm::GodanVerb, conjugated_form: WordForm::Conjunctive },
        Rule { base: "ぶ", conjugated: "び", base_form: WordForm::GodanVerb, conjugated_form: WordForm::Conjunctive },
        Rule { base: "む", conjugated: "み", base_form: WordForm::GodanVerb, conjugated_form: WordForm::Conjunctive },
        Rule { base: "ぬ", conjugated: "に", base_form: WordForm::GodanVerb, conjugated_form: WordForm::Conjunctive },
        Rule { base: "くる", conjugated: "き", base_form: WordForm::KuruVerb, conjugated_form: WordForm::Conjunctive },
        Rule { base: "来る", conjugated: "来", base_form: WordForm::KuruVerb, conjugated_form: WordForm::Conjunctive },
        Rule { base: "する", conjugated: "し", base_form: WordForm::SuruVerb, conjugated_form: WordForm::Conjunctive },
        Rule { base: "為る", conjugated: "為", base_form: WordForm::SuruVerb, conjugated_form: WordForm::Conjunctive },
        Rule { base: "", conjugated: "ます", base_form: WordForm::Conjunctive, conjugated_form: WordForm::Polite },
        Rule { base: "ます", conjugated: "ません", base_form: WordForm::Polite, conjugated_form: WordForm::Negative },
        Rule { base: "ます", conjugated: "ました", base_form: WordForm::Polite, conjugated_form: WordForm::Past },
        Rule { base: "ます", conjugated: "ましょう", base_form: WordForm::Polite, conjugated_form: WordForm::Volitional },
        Rule { base: "せん", conjugated: "せんでした", base_form: WordForm::Negative, conjugated_form: WordForm::Past },
        Rule { base: "", conjugated: "たら", base_form: WordForm::Conjunctive, conjugated_form: WordForm::Tara },
        Rule { base: "", conjugated: "たい", base_form: WordForm::Conjunctive, conjugated_form: WordForm::Tai },
        Rule { base: "", conjugated: "なさい", base_form: WordForm::Conjunctive, conjugated_form: WordForm::Nasai },
        Rule { base: "", conjugated: "そう", base_form: WordForm::Conjunctive, conjugated_form: WordForm::Sou },
        Rule { base: "", conjugated: "すぎる", base_form: WordForm::Conjunctive, conjugated_form: WordForm::Sugiru },
    ];
    proof {
        assert(r@ =~= rule_table());
    }
    r
}
/// Whether `s` ends with `suffix`.
pub open spec fn has_suffix(s: Seq<char>, suffix: Seq<char>) -> bool {
    suffix.len() <= s.len() && s.skip(s.len() - suffix.len()) == suffix
}

/// Whether `s` ends with `suffix` (as `str::ends_with`).
pub fn ends_with(s: &str, suffix: &str) -> (r: bool)
    ensures
        r == has_suffix(s@, suffix@),
{
    let a = chars_of(s);
    let b = chars_of(suffix);
    if b.len() > a.len() {
        return false;
    }
    let alen = a.len();
    let off = alen - b.len();
    let mut j: usize = 0;
    while j < b.len()
        invariant
            a@ == s@,
            b@ == suffix@,
            off == a@.len() - b@.len(),
            b@.len() <= a@.len(),
            alen == a@.len(),
            j <= b@.len(),
            forall|k: int| 0 <= k < j ==> a@[off + k] == b@[k],
        decreases b@.len() - j,
    {
        if a[off + j] != b[j] {
            proof {
                assert(s@.skip(off as int)[j as int] != suffix@[j as int]);
            }
            return false;
        }
        j = j + 1;
    }
    proof {
        assert(s@.skip(off as int) =~= suffix@);
    }
    true
}

/// Deconjugator over the rule table.
#[derive(Debug, Clone, Copy)]
pub struct Deconjugate;

impl Deconjugate {
    /// Conjugation information for `word`. Each rule whose conjugated ending
    /// `word` carries is a candidate derivation, but none is recorded yet, so
    /// the result is always empty.
    pub fn word(&self, word: &str) -> (r: Vec<ConjugationInfo>)
        ensures
            r@.len() == 0,
    {
        let table = rules();
        let found: Vec<ConjugationInfo> = Vec::new();
        let mut i: usize = 0;
        while i < table.len()
            invariant
                i <= table@.len(),
                found@.len() == 0,
            decreases table@.len() - i,
        {
            let rule = table[i];
            // A word in no form yet may take any rule; the rule applies when
            // the word ends with its conjugated ending.
            if ends_with(word, rule.conjugated) {
                // The derivation to `rule.base_form` is found here; it is not
                // recorded.
            }
            i = i + 1;
        }
        found
    }

    /// Every prefix of `text` that ends at a character boundary, longest
    /// first, each with its conjugation information.
    pub fn first_word(&self, text: &str) -> (r: Vec<(String, Vec<ConjugationInfo>)>)
        ensures
            r@.len() == text@.len(),
            forall|k: int|
                0 <= k < r@.len() ==> (#[trigger] r@[k]).0@ == text@.take(text@.len() - k)
                    && r@[k].1@.len() == 0,
    {
        let cs = chars_of(text);
        let n = cs.len();
        let mut out: Vec<(String, Vec<ConjugationInfo>)> = Vec::new();
        let mut k: usize = 0;
        while k < n
            invariant
                n == cs@.len(),
                cs@ == text@,
                k <= n,
                out@.len() == k,
                forall|m: int|
                    0 <= m < k ==> (#[trigger] out@[m]).0@ == text@.take(n - m) && out@[m].1@.len()
                        == 0,
            decreases n - k,
        {
            let prefix = string_of(&cs, 0, n - k);
            let info = self.word(prefix.as_str());
            proof {
                assert(cs@.subrange(0, n - k) =~= text@.take(n - k));
            }
            out.push((prefix, info));
            k = k + 1;
        }
        out
    }
}

} // verus!
