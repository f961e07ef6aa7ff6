//! Answers to the questions that a run asked.

use crate::text::{trim, trimmed};
use crate::web::models::{QuestionRequest, QuestionRequestModel};
use crate::web::types::{has_control, is_control_fn};
use crate::web::util::{safe_error_message, shown_error};
use crate::words::{some_char, trimming};
use vstd::prelude::*;

verus! {

/// The answers to one question.
pub open spec fn trimmed_answer() -> spec_fn(Seq<Seq<char>>) -> Seq<Seq<char>> {
    |values: Seq<Seq<char>>| values.map_values(trimming())
}

/// Whether some answer holds a control character.
pub open spec fn holds_control(answers: Seq<Seq<Seq<char>>>) -> bool {
    exists|i: int, j: int|
        0 <= i < answers.len() && 0 <= j < answers[i].len() && some_char(
            #[trigger] answers[i][j],
            is_control_fn(),
        )
}

/// Whether one of the questions has no answer.
pub open spec fn unanswered(questions: nat, answers: Seq<Seq<Seq<char>>>) -> bool {
    answers.len() < questions || exists|i: int|
        0 <= i < questions && (#[trigger] answers[i]).len() == 0
}

/// Answers as they are handed to a run, or why they are not. `fault` is what the
/// one who asks finds wrong with them.
pub open spec fn normalized(
    request: QuestionRequestModel,
    answers: Seq<Seq<Seq<char>>>,
    fault: Option<Seq<char>>,
) -> Result<Seq<Seq<Seq<char>>>, Seq<char>> {
    let answers = answers.map_values(trimmed_answer());
    if holds_control(answers) {
        Err("answers cannot contain control characters"@)
    } else if fault is Some {
        Err(shown_error(fault->0))
    } else if unanswered(request.questions.len(), answers) {
        Err(shown_error("every question needs an answer"@))
    } else {
        Ok(answers)
    }
}

fn trim_values(values: &Vec<String>) -> (out: Vec<String>)
    ensures
        out.deep_view() == trimmed_answer()(values.deep_view()),
{
    let mut out: Vec<String> = Vec::new();
    let mut i: usize = 0;
    while i < values.len()
        invariant
            i <= values.len(),
            out.len() == i,
            forall|j: int| 0 <= j < i ==> #[trigger] out[j]@ == trimmed(values[j]@),
        decreases values.len() - i,
    {
        out.push(trim(values[i].as_str()));
        i += 1;
    }
    assert(out.deep_view() =~= trimmed_answer()(values.deep_view()));
    out
}

fn any_control(answers: &Vec<Vec<String>>) -> (yes: bool)
    ensures
        yes == holds_control(answers.deep_view()),
{
    let mut i: usize = 0;
    while i < answers.len()
        invariant
            i <= answers.len(),
            forall|a: int, b: int|
                0 <= a < i && 0 <= b < answers.deep_view()[a].len() ==> !some_char(
                    #[trigger] answers.deep_view()[a][b],
                    is_control_fn(),
                ),
        decreases answers.len() - i,
    {
        assert(answers.deep_view()[i as int] == answers[i as int].deep_view());
        let mut j: usize = 0;
        while j < answers[i].len()
            invariant
                i < answers.len(),
                j <= answers[i as int].len(),
                answers.deep_view()[i as int] == answers[i as int].deep_view(),
                forall|a: int, b: int|
                    0 <= a < i && 0 <= b < answers.deep_view()[a].len() ==> !some_char(
                        #[trigger] answers.deep_view()[a][b],
                        is_control_fn(),
                    ),
                forall|b: int|
                    0 <= b < j ==> !some_char(
                        #[trigger] answers.deep_view()[i as int][b],
                        is_control_fn(),
                    ),
            decreases answers[i as int].len() - j,
        {
            assert(answers.deep_view()[i as int][j as int] == answers[i as int][j as int]@);
            if has_control(answers[i][j].as_str()) {
                return true;
            }
            j += 1;
        }
        i += 1;
    }
    false
}

/// The answers without the white space around them.
pub fn trim_answers(answers: &Vec<Vec<String>>) -> (done: Vec<Vec<String>>)
    ensures
        done.deep_view() == answers.deep_view().map_values(trimmed_answer()),
{
    let mut done: Vec<Vec<String>> = Vec::new();
    let mut i: usize = 0;
    while i < answers.len()
        invariant
            i <= answers.len(),
            done.len() == i,
            forall|j: int|
                0 <= j < i ==> #[trigger] done[j].deep_view() == trimmed_answer()(
                    answers[j].deep_view(),
                ),
        decreases answers.len() - i,
    {
        done.push(trim_values(&answers[i]));
        i += 1;
    }
    assert(done.deep_view() =~= answers.deep_view().map_values(trimmed_answer()));
    done
}

fn is_unanswered(questions: usize, answers: &Vec<Vec<String>>) -> (yes: bool)
    ensures
        yes == unanswered(questions as nat, answers.deep_view()),
{
    if answers.len() < questions {
        return true;
    }
    let ghost all = answers.deep_view();
    let mut i: usize = 0;
    while i < questions
        invariant
            i <= questions <= answers.len(),
            all == answers.deep_view(),
            forall|k: int| 0 <= k < i ==> (#[trigger] all[k]).len() > 0,
        decreases questions - i,
    {
        assert(all[i as int] == answers[i as int].deep_view());
        if answers[i].len() == 0 {
            return true;
        }
        i += 1;
    }
    false
}

/// Answers as they are handed to a run: trimmed, without control characters, at
/// least one to every question, and without anything that the one who asks finds
/// wrong with them, which is `fault`.
pub fn normalize_answers(
    request: &QuestionRequest,
    answers: Vec<Vec<String>>,
    fault: Option<String>,
) -> (result: Result<Vec<Vec<String>>, String>)
    ensures
        match normalized(request.deep_view(), answers.deep_view(), fault.deep_view()) {
            Ok(values) => result matches Ok(got) && got.deep_view() == values,
            Err(message) => result matches Err(got) && got@ == message,
        },
{
    let done = trim_answers(&answers);
    if any_control(&done) {
        return Err("answers cannot contain control characters".to_owned());
    }
    if let Some(fault) = fault {
        return Err(safe_error_message(fault.as_str()));
    }
    if is_unanswered(request.questions.len(), &done) {
        return Err(safe_error_message("every question needs an answer"));
    }
    Ok(done)
}

} // verus!
