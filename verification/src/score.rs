//! Risk scores and the decimal text of their numbers.

use vstd::prelude::*;
use vstd::string::StringExecFns;

use crate::sifis_api::{ApiLabel, ApiLabelView, Hazard, HazardView, RiskScore, RiskScoreView};
use crate::text::chars_of;

verus! {

/// The character that writes the digit `d`.
pub open spec fn digit_char(d: int) -> char {
    if d == 0 {
        '0'
    } else if d == 1 {
        '1'
    } else if d == 2 {
        '2'
    } else if d == 3 {
        '3'
    } else if d == 4 {
        '4'
    } else if d == 5 {
        '5'
    } else if d == 6 {
        '6'
    } else if d == 7 {
        '7'
    } else if d == 8 {
        '8'
    } else {
        '9'
    }
}

/// The decimal writing of `n`, without sign and without leading zeros.
pub open spec fn digits(n: u8) -> Seq<char> {
    if n < 10 {
        seq![digit_char(n as int)]
    } else if n < 100 {
        seq![digit_char(n as int / 10), digit_char(n as int % 10)]
    } else {
        seq![digit_char(n as int / 100), digit_char(n as int / 10 % 10), digit_char(n as int % 10)]
    }
}

/// The number from 0 to 255 of which `text` is the decimal writing, if it is
/// that of one.
pub open spec fn small_number(text: Seq<char>) -> Option<u8> {
    if exists|n: u8| #[trigger] digits(n) == text {
        Some(choose|n: u8| #[trigger] digits(n) == text)
    } else {
        None
    }
}

/// The score that a number of a document stands for: a whole number from 0
/// to 255 where the text writes one, else the text as it is.
pub open spec fn score_of(text: Seq<char>) -> RiskScoreView {
    match small_number(text) {
        Some(n) => RiskScoreView::Integer(n),
        None => RiskScoreView::Decimal(text),
    }
}

/// The text that writes a score as a number of a document.
pub open spec fn score_text(score: RiskScoreView) -> Seq<char> {
    match score {
        RiskScoreView::Integer(n) => digits(n),
        RiskScoreView::Decimal(text) => text,
    }
}

/// The score holds its number in the one way there is: a whole number from 0
/// to 255 is never kept as text.
pub open spec fn score_is_sound(score: RiskScoreView) -> bool {
    score matches RiskScoreView::Decimal(text) ==> small_number(text) is None
}

/// Every score of the category is sound.
pub open spec fn sound_hazards(hazards: Seq<Option<HazardView>>) -> bool {
    forall|i: int|
        0 <= i < hazards.len() ==> ((#[trigger] hazards[i]) matches Some(hazard)
            ==> (hazard.risk_score matches Some(score) ==> score_is_sound(score)))
}

/// Every score of the label is sound.
pub open spec fn sound_label(label: ApiLabelView) -> bool {
    &&& sound_hazards(label.security_label.safety)
    &&& sound_hazards(label.security_label.privacy)
    &&& sound_hazards(label.security_label.financial)
}

/// Every score of every label is sound.
pub open spec fn sound_labels(api_labels: Seq<ApiLabelView>) -> bool {
    forall|i: int| 0 <= i < api_labels.len() ==> sound_label(#[trigger] api_labels[i])
}

/// Two digits that one character writes are the same digit.
proof fn lemma_digit_chars_differ(x: int, y: int)
    requires
        0 <= x < 10,
        0 <= y < 10,
        digit_char(x) == digit_char(y),
    ensures
        x == y,
{
}

/// Two numbers with the same decimal writing are the same number.
pub proof fn lemma_digits_differ(a: u8, b: u8)
    requires
        digits(a) == digits(b),
    ensures
        a == b,
{
    let x = a as int;
    let y = b as int;
    assert(digits(a).len() == digits(b).len());
    assert(digits(a)[0] == digits(b)[0]);
    assert(digits(a).len() == if a < 10 { 1nat } else if a < 100 { 2nat } else { 3nat });
    assert(digits(b).len() == if b < 10 { 1nat } else if b < 100 { 2nat } else { 3nat });
    if a < 10 {
        assert(digits(a)[0] == digit_char(x));
        assert(digits(b)[0] == digit_char(y));
        lemma_digit_chars_differ(x, y);
    } else if a < 100 {
        assert(digits(a)[1] == digits(b)[1]);
        assert(digits(a)[0] == digit_char(x / 10));
        assert(digits(b)[0] == digit_char(y / 10));
        assert(digits(a)[1] == digit_char(x % 10));
        assert(digits(b)[1] == digit_char(y % 10));
        lemma_digit_chars_differ(x / 10, y / 10);
        lemma_digit_chars_differ(x % 10, y % 10);
        assert(x == 10 * (x / 10) + x % 10);
        assert(y == 10 * (y / 10) + y % 10);
    } else {
        assert(digits(a)[1] == digits(b)[1]);
        assert(digits(a)[2] == digits(b)[2]);
        assert(digits(a)[0] == digit_char(x / 100));
        assert(digits(b)[0] == digit_char(y / 100));
        assert(digits(a)[1] == digit_char(x / 10 % 10));
        assert(digits(b)[1] == digit_char(y / 10 % 10));
        assert(digits(a)[2] == digit_char(x % 10));
        assert(digits(b)[2] == digit_char(y % 10));
        lemma_digit_chars_differ(x / 100, y / 100);
        lemma_digit_chars_differ(x / 10 % 10, y / 10 % 10);
        lemma_digit_chars_differ(x % 10, y % 10);
        assert(x == 10 * (x / 10) + x % 10);
        assert(y == 10 * (y / 10) + y % 10);
        assert(x / 10 == 10 * (x / 100) + x / 10 % 10);
        assert(y / 10 == 10 * (y / 100) + y / 10 % 10);
    }
}

/// The decimal writing of a number reads back as that number.
pub proof fn lemma_small_number_of_digits(n: u8)
    ensures
        small_number(digits(n)) == Some(n),
{
    let text = digits(n);
    assert(digits(n) == text);
    let m = choose|m: u8| #[trigger] digits(m) == text;
    lemma_digits_differ(m, n);
}

/// A sound score is the score of its own text: writing it into a document
/// and reading it back changes nothing. A score that a document gave is sound.
pub proof fn lemma_score_round_trip(score: RiskScoreView, text: Seq<char>)
    ensures
        score_is_sound(score) ==> score_of(score_text(score)) == score,
        score_is_sound(score_of(text)),
{
    if let RiskScoreView::Integer(n) = score {
        lemma_small_number_of_digits(n);
    }
}

/// The digit that a character writes, if it writes one.
fn digit_value(c: char) -> (value: Option<u8>)
    ensures
        match value {
            Some(d) => d < 10 && digit_char(d as int) == c,
            None => forall|d: int| 0 <= d < 10 ==> digit_char(d) != c,
        },
{
    if c == '0' {
        Some(0)
    } else if c == '1' {
        Some(1)
    } else if c == '2' {
        Some(2)
    } else if c == '3' {
        Some(3)
    } else if c == '4' {
        Some(4)
    } else if c == '5' {
        Some(5)
    } else if c == '6' {
        Some(6)
    } else if c == '7' {
        Some(7)
    } else if c == '8' {
        Some(8)
    } else if c == '9' {
        Some(9)
    } else {
        None
    }
}

/// The text that writes the digit `d`.
fn digit_text(d: u8) -> (text: &'static str)
    requires
        d < 10,
    ensures
        text@ == seq![digit_char(d as int)],
{
    proof {
        reveal_strlit("0");
        reveal_strlit("1");
        reveal_strlit("2");
        reveal_strlit("3");
        reveal_strlit("4");
        reveal_strlit("5");
        reveal_strlit("6");
        reveal_strlit("7");
        reveal_strlit("8");
        reveal_strlit("9");
    }
    let text = if d == 0 {
        "0"
    } else if d == 1 {
        "1"
    } else if d == 2 {
        "2"
    } else if d == 3 {
        "3"
    } else if d == 4 {
        "4"
    } else if d == 5 {
        "5"
    } else if d == 6 {
        "6"
    } else if d == 7 {
        "7"
    } else if d == 8 {
        "8"
    } else {
        "9"
    };
    assert(text@ =~= seq![digit_char(d as int)]);
    text
}

/// The decimal writing of `n`.
pub fn number_text(n: u8) -> (text: String)
    ensures
        text@ == digits(n),
{
    if n < 10 {
        let text = String::from_str(digit_text(n));
        assert(text@ =~= digits(n));
        text
    } else if n < 100 {
        let text = String::from_str(digit_text(n / 10)).concat(digit_text(n % 10));
        assert(text@ =~= digits(n));
        text
    } else {
        let text = String::from_str(digit_text(n / 100)).concat(digit_text(n / 10 % 10)).concat(
            digit_text(n % 10),
        );
        assert(text@ =~= digits(n));
        text
    }
}

/// No number has a decimal writing of this length.
proof fn lemma_wrong_length(text: Seq<char>)
    requires
        text.len() == 0 || text.len() > 3,
    ensures
        small_number(text) is None,
{
    assert forall|n: u8| #[trigger] digits(n) != text by {
        assert(1 <= digits(n).len() <= 3);
    }
}

/// Reads `text` as a whole number from 0 to 255 in its one decimal writing.
pub fn read_small_number(text: &str) -> (number: Option<u8>)
    ensures
        number == small_number(text@),
{
    let chars = chars_of(text);
    let count = chars.len();
    if count == 0 || count > 3 {
        proof {
            lemma_wrong_length(text@);
        }
        return None;
    }
    let first = digit_value(chars[0]);
    let second = if count > 1 {
        digit_value(chars[1])
    } else {
        Some(0)
    };
    let third = if count > 2 {
        digit_value(chars[2])
    } else {
        Some(0)
    };
    let value: Option<u8> = match (first, second, third) {
        (Some(a), Some(b), Some(c)) => {
            if count == 1 {
                Some(a)
            } else if a == 0 {
                None
            } else if count == 2 {
                Some(a * 10 + b)
            } else if a > 2 || (a == 2 && (b > 5 || (b == 5 && c > 5))) {
                None
            } else {
                Some(a * 100 + b * 10 + c)
            }
        },
        _ => None,
    };
    proof {
        match value {
            Some(n) => {
                assert(digits(n) =~= text@);
                let m = choose|m: u8| #[trigger] digits(m) == text@;
                lemma_digits_differ(m, n);
            },
            None => {
                assert forall|n: u8| #[trigger] digits(n) != text@ by {
                    if digits(n) == text@ {
                        assert(digits(n).len() == count);
                        assert(digits(n)[0] == chars@[0]);
                        if count > 1 {
                            assert(digits(n)[1] == chars@[1]);
                        }
                        if count > 2 {
                            assert(digits(n)[2] == chars@[2]);
                        }
                    }
                }
            },
        }
    }
    value
}

/// The score that a number of a document stands for.
pub fn read_score(text: &str) -> (score: RiskScore)
    ensures
        score@ == score_of(text@),
        score_is_sound(score@),
{
    proof {
        lemma_score_round_trip(score_of(text@), text@);
    }
    match read_small_number(text) {
        Some(n) => RiskScore::Integer(n),
        None => RiskScore::Decimal(String::from_str(text)),
    }
}

/// The text that writes a score as a number of a document.
pub fn write_score(score: &RiskScore) -> (text: String)
    ensures
        text@ == score_text(score@),
{
    match score {
        RiskScore::Integer(n) => number_text(*n),
        RiskScore::Decimal(text) => text.clone(),
    }
}

/// Whether the score holds its number in the one way there is.
pub fn is_sound_score(score: &RiskScore) -> (sound: bool)
    ensures
        sound == score_is_sound(score@),
{
    match score {
        RiskScore::Integer(_) => true,
        RiskScore::Decimal(text) => read_small_number(text.as_str()).is_none(),
    }
}

/// Whether every score of the category is sound.
fn hazards_are_sound(hazards: &Vec<Option<Hazard>>) -> (sound: bool)
    ensures
        sound == sound_hazards(hazards.deep_view()),
{
    let ghost all = hazards.deep_view();
    let mut i: usize = 0;
    while i < hazards.len()
        invariant
            i <= hazards.len(),
            all == hazards.deep_view(),
            forall|k: int|
                0 <= k < i ==> ((#[trigger] all[k]) matches Some(hazard) ==> (
                hazard.risk_score matches Some(score) ==> score_is_sound(score))),
        decreases hazards.len() - i,
    {
        assert(all[i as int] == hazards@[i as int].deep_view());
        match &hazards[i] {
            Some(hazard) => match &hazard.risk_score {
                Some(score) => {
                    if !is_sound_score(score) {
                        return false;
                    }
                },
                None => {},
            },
            None => {},
        }
        i += 1;
    }
    true
}

/// Whether every score of every label is sound.
pub fn labels_are_sound(api_labels: &Vec<ApiLabel>) -> (sound: bool)
    ensures
        sound == sound_labels(api_labels.deep_view()),
{
    let ghost all = api_labels.deep_view();
    let mut i: usize = 0;
    while i < api_labels.len()
        invariant
            i <= api_labels.len(),
            all == api_labels.deep_view(),
            forall|k: int| 0 <= k < i ==> sound_label(#[trigger] all[k]),
        decreases api_labels.len() - i,
    {
        assert(all[i as int] == api_labels@[i as int]@);
        let kinds = &api_labels[i].security_label;
        if !(hazards_are_sound(&kinds.safety) && hazards_are_sound(&kinds.privacy)
            && hazards_are_sound(&kinds.financial)) {
            return false;
        }
        i += 1;
    }
    true
}

} // verus!
