//! The score as the screen shows it.

use vstd::prelude::*;
use vstd::string::StringExecFns;
use crate::components::ScoreBoard;

verus! {

/// The text of the score board: a fixed label, then the score.
pub struct Text {
    pub sections: Vec<String>,
}

/// The label that stands before the score.
pub const SCORE_LABEL: &'static str = "Score: ";

/// The character for the digit `d`.
pub open spec fn digit(d: nat) -> char {
    if d == 0 {
        '0'
    } else if d == 1 {
        '1'
    } else if d == 2 {
        '2'
    } else if d == 3 {
        '3'
    } else if d == 4 {
        '4'
    } else if d == 5 {
        '5'
    } else if d == 6 {
        '6'
    } else if d == 7 {
        '7'
    } else if d == 8 {
        '8'
    } else {
        '9'
    }
}

/// The number `n` written in decimal digits, without leading zeros.
pub open spec fn decimal(n: nat) -> Seq<char>
    decreases n,
{
    if n < 10 {
        seq![digit(n)]
    } else {
        decimal(n / 10).push(digit(n % 10))
    }
}

/// The digit `d` as text.
pub fn digit_text(d: usize) -> (text: &'static str)
    requires
        d < 10,
    ensures
        text@ == seq![digit(d as nat)],
{
    proof {
        reveal_strlit("0");
        reveal_strlit("1");
        reveal_strlit("2");
        reveal_strlit("3");
        reveal_strlit("4");
        reveal_strlit("5");
        reveal_strlit("6");
        reveal_strlit("7");
        reveal_strlit("8");
        reveal_strlit("9");
    }
    let text = if d == 0 {
        "0"
    } else if d == 1 {
        "1"
    } else if d == 2 {
        "2"
    } else if d == 3 {
        "3"
    } else if d == 4 {
        "4"
    } else if d == 5 {
        "5"
    } else if d == 6 {
        "6"
    } else if d == 7 {
        "7"
    } else if d == 8 {
        "8"
    } else {
        "9"
    };
    assert(text@ =~= seq![digit(d as nat)]);
    text
}

/// The number `score` as text, in decimal digits.
pub fn score_text(score: usize) -> (text: String)
    ensures
        text@ == decimal(score as nat),
    decreases score,
{
    if score < 10 {
        String::from_str(digit_text(score))
    } else {
        let mut text = score_text(score / 10);
        text.append(digit_text(score % 10));
        assert(text@ =~= decimal(score as nat));
        text
    }
}

/// The text of a board that shows nothing yet: the label and an empty
/// section for the score.
pub fn setup() -> (text: Text)
    ensures
        text.sections@.len() == 2,
        text.sections@[0]@ == SCORE_LABEL@,
        text.sections@[1]@ == Seq::<char>::empty(),
{
    let mut sections: Vec<String> = Vec::new();
    sections.push(String::from_str(SCORE_LABEL));
    sections.push(String::new());
    Text { sections }
}

/// Writes the score into the second section of the text.
pub fn update_scoreboard(scoreboard: &ScoreBoard, text: &mut Text)
    requires
        old(text).sections@.len() >= 2,
    ensures
        final(text).sections@.len() == old(text).sections@.len(),
        final(text).sections@[1]@ == decimal(scoreboard.score as nat),
        forall|k: int|
            0 <= k < old(text).sections@.len() && k != 1 ==> #[trigger] final(text).sections@[k]
                == old(text).sections@[k],
{
    text.sections.set(1, score_text(scoreboard.score));
}

} // verus!
