//! The decision logic of a small console quiz: building a list of
//! questions from the lines a user typed in, and replaying a stored
//! list of questions against the user's answers.
//!
//! Reading and writing the console and the question file is the
//! caller's business; these functions work on plain lines of text and
//! return the full transcript of what is to be written, as a sequence
//! of events, so that every decision in between is verified.

use crate::text::is_u8_numeral;
use crate::text::requests_stop;
use crate::text::stop_requested;
use crate::text::trimmed;
use vstd::prelude::*;

verus! {

/// One quiz question: the text asked, the answer that counts as
/// correct, and the wrong answers offered beside it.
#[derive(Debug, Clone, PartialEq, Eq)]
pub struct Question {
    /// The question itself.
    pub content: String,
    /// The correct answer.
    pub correct_answer: String,
    /// The incorrect answers offered along with the correct one.
    pub incorrect_answers: Vec<String>,
}

/// The mathematical shape of a [`Question`]: its three fields as
/// character sequences.
#[verifier::ext_equal]
pub struct QuestionModel {
    pub content: Seq<char>,
    pub correct_answer: Seq<char>,
    pub incorrect_answers: Seq<Seq<char>>,
}

impl DeepView for Question {
    type V = QuestionModel;

    open spec fn deep_view(&self) -> QuestionModel {
        QuestionModel {
            content: self.content@,
            correct_answer: self.correct_answer@,
            incorrect_answers: self.incorrect_answers.deep_view(),
        }
    }
}

/// The ways the question editor can run out of input: each names the
/// line that was asked for and never arrived.
#[derive(Debug, Clone, Copy, PartialEq, Eq)]
pub enum AddError {
    /// Input ended where a question was expected.
    MissingQuestion,
    /// Input ended where the correct answer was expected.
    MissingCorrectAnswer,
    /// Input ended where one of the incorrect answers was expected.
    MissingIncorrectAnswer,
}

/// One line the question editor writes while it runs, in order: the
/// prompts it asks with and the progress notes after each saved
/// question.
#[derive(Debug, Clone, Copy, PartialEq, Eq)]
pub enum AddEvent {
    /// "Enter a question:"
    AskQuestion,
    /// "Enter the correct answer:"
    AskCorrectAnswer,
    /// "Enter incorrect answer {n}:" for `n` from one to three
    AskIncorrectAnswer(u8),
    /// "Question added successfully."
    QuestionAdded,
    /// "Total questions added {count}."
    TotalAdded(usize),
    /// "Continue ? [Y/n]:"
    AskContinue,
}

/// The events of one complete editor round that saved a question
/// numbered `count`.
pub open spec fn round_events(count: int) -> Seq<AddEvent> {
    seq![
        AddEvent::AskQuestion,
        AddEvent::AskCorrectAnswer,
        AddEvent::AskIncorrectAnswer(1),
        AddEvent::AskIncorrectAnswer(2),
        AddEvent::AskIncorrectAnswer(3),
        AddEvent::QuestionAdded,
        AddEvent::TotalAdded(count as usize),
        AddEvent::AskContinue,
    ]
}

/// The question read from the first five of the given lines.
pub open spec fn question_of(lines: Seq<Seq<char>>) -> QuestionModel {
    QuestionModel {
        content: lines[0],
        correct_answer: lines[1],
        incorrect_answers: seq![lines[2], lines[3], lines[4]],
    }
}

/// What the question editor does with the given input lines, with
/// `count` questions already saved: the questions it collects, or the
/// error it stops with, together with every line it writes on the way.
///
/// Each round reads five lines (question, correct answer, three
/// incorrect answers) and then one more that decides whether to go on;
/// a round that reads `n`, in either letter case and however padded
/// with blanks, ends the editor successfully. Input that ends mid-round
/// is an error naming the line that was missing; input that ends right
/// after a saved question is a missing-question error, since the editor
/// only stops when told to.
pub open spec fn add_spec(lines: Seq<Seq<char>>, count: nat) -> (Result<
    Seq<QuestionModel>,
    AddError,
>, Seq<AddEvent>)
    decreases lines.len(),
{
    if lines.len() == 0 {
        (Err(AddError::MissingQuestion), seq![AddEvent::AskQuestion])
    } else if lines.len() == 1 {
        (Err(AddError::MissingCorrectAnswer), seq![AddEvent::AskQuestion, AddEvent::AskCorrectAnswer])
    } else if lines.len() == 2 {
        (Err(AddError::MissingIncorrectAnswer), seq![
            AddEvent::AskQuestion,
            AddEvent::AskCorrectAnswer,
            AddEvent::AskIncorrectAnswer(1),
        ])
    } else if lines.len() == 3 {
        (Err(AddError::MissingIncorrectAnswer), seq![
            AddEvent::AskQuestion,
            AddEvent::AskCorrectAnswer,
            AddEvent::AskIncorrectAnswer(1),
            AddEvent::AskIncorrectAnswer(2),
        ])
    } else if lines.len() == 4 {
        (Err(AddError::MissingIncorrectAnswer), seq![
            AddEvent::AskQuestion,
            AddEvent::AskCorrectAnswer,
            AddEvent::AskIncorrectAnswer(1),
            AddEvent::AskIncorrectAnswer(2),
            AddEvent::AskIncorrectAnswer(3),
        ])
    } else {
        let q = question_of(lines);
        let ev = round_events(count + 1 as int);
        if lines.len() == 5 {
            (Err(AddError::MissingQuestion), ev + seq![AddEvent::AskQuestion])
        } else if stop_requested(lines[5]) {
            (Ok(seq![q]), ev)
        } else {
            let rest = add_spec(lines.skip(6), count + 1);
            (
                match rest.0 {
                    Ok(more) => Ok(seq![q] + more),
                    Err(e) => Err(e),
                },
                ev + rest.1,
            )
        }
    }
}

/// The editor's result and transcript agree with the specified
/// outcome.
pub open spec fn add_matches(
    spec_r: (Result<Seq<QuestionModel>, AddError>, Seq<AddEvent>),
    r: (Result<Vec<Question>, AddError>, Vec<AddEvent>),
) -> bool {
    &&& r.1@ == spec_r.1
    &&& match r.0 {
        Ok(qs) => spec_r.0 matches Ok(qm) && qs.deep_view() == qm,
        Err(e) => spec_r.0 == Err::<Seq<QuestionModel>, AddError>(e),
    }
}

/// The loop of [`add`], part-way through: what is already collected
/// composes with the outcome on the remaining lines to the outcome on
/// the whole input.
spec fn add_unrolled(
    all: Seq<Seq<char>>,
    qs: Seq<QuestionModel>,
    es: Seq<AddEvent>,
    i: int,
    count: nat,
) -> bool {
    let rest = add_spec(all.skip(i), count);
    &&& add_spec(all, 0).1 == es + rest.1
    &&& add_spec(all, 0).0 == (match rest.0 {
        Ok(more) => Ok::<Seq<QuestionModel>, AddError>(qs + more),
        Err(e) => Err::<Seq<QuestionModel>, AddError>(e),
    })
}

/// Builds a list of questions from the lines of user input, exactly as
/// [`add_spec`] describes, and returns it together with the transcript
/// of prompts and progress notes to write out.
pub fn add(lines: &Vec<String>) -> (r: (Result<Vec<Question>, AddError>, Vec<AddEvent>))
    ensures
        add_matches(add_spec(lines.deep_view(), 0), r),
{
    let ghost all = lines.deep_view();
    let mut questions: Vec<Question> = Vec::new();
    let mut events: Vec<AddEvent> = Vec::new();
    let mut i: usize = 0;
    let mut count: usize = 0;
    proof {
        assert(all.skip(0) =~= all);
        if add_spec(all, 0).0 is Ok {
            assert(Seq::<QuestionModel>::empty() + add_spec(all, 0).0->Ok_0 =~= add_spec(
                all,
                0,
            ).0->Ok_0);
        }
        assert(Seq::<AddEvent>::empty() + add_spec(all, 0).1 =~= add_spec(all, 0).1);
    }
    loop
        invariant
            all == lines.deep_view(),
            all.len() == lines@.len(),
            i <= lines@.len(),
            5 * (count as int) <= i as int,
            count == questions@.len(),
            add_unrolled(all, questions.deep_view(), events@, i as int, count as nat),
        decreases all.len() - i + 1,
    {
        let ghost i0 = i as int;
        let ghost q0 = questions.deep_view();
        let ghost e0 = events@;
        let ghost rest0 = add_spec(all.skip(i0), count as nat);

        events.push(AddEvent::AskQuestion);
        if i >= lines.len() {
            proof {
                assert(all.skip(i0).len() == 0);
                assert(events@ =~= e0 + rest0.1);
            }
            return (Err(AddError::MissingQuestion), events);
        }
        let content = lines[i].clone();
        i = i + 1;

        events.push(AddEvent::AskCorrectAnswer);
        if i >= lines.len() {
            proof {
                assert(all.skip(i0).len() == 1);
                assert(events@ =~= e0 + rest0.1);
            }
            return (Err(AddError::MissingCorrectAnswer), events);
        }
        let correct_answer = lines[i].clone();
        i = i + 1;

        events.push(AddEvent::AskIncorrectAnswer(1));
        if i >= lines.len() {
            proof {
                assert(all.skip(i0).len() == 2);
                assert(events@ =~= e0 + rest0.1);
            }
            return (Err(AddError::MissingIncorrectAnswer), events);
        }
        let wrong_1 = lines[i].clone();
        i = i + 1;

        events.push(AddEvent::AskIncorrectAnswer(2));
        if i >= lines.len() {
            proof {
                assert(all.skip(i0).len() == 3);
                assert(events@ =~= e0 + rest0.1);
            }
            return (Err(AddError::MissingIncorrectAnswer), events);
        }
        let wrong_2 = lines[i].clone();
        i = i + 1;

        events.push(AddEvent::AskIncorrectAnswer(3));
        if i >= lines.len() {
            proof {
                assert(all.skip(i0).len() == 4);
                assert(events@ =~= e0 + rest0.1);
            }
            return (Err(AddError::MissingIncorrectAnswer), events);
        }
        let wrong_3 = lines[i].clone();
        i = i + 1;

        let incorrect_answers = vec![wrong_1, wrong_2, wrong_3];
        let question = Question { content, correct_answer, incorrect_answers };
        proof {
            assert(question.deep_view().incorrect_answers =~= question_of(
                all.skip(i0),
            ).incorrect_answers);
            assert(question.deep_view() == question_of(all.skip(i0)));
        }
        questions.push(question);
        count = count + 1;
        events.push(AddEvent::QuestionAdded);
        events.push(AddEvent::TotalAdded(count));
        events.push(AddEvent::AskContinue);
        proof {
            assert(questions.deep_view() =~= q0.push(question_of(all.skip(i0))));
            assert(events@ =~= e0 + round_events(count as int));
        }

        if i < lines.len() {
            let stop = requests_stop(lines[i].as_str());
            proof {
                assert(all[i as int] == lines@[i as int]@);
                assert(all.skip(i0)[5] == all[i0 + 5]);
            }
            i = i + 1;
            if stop {
                proof {
                    assert(all.skip(i0).len() >= 6);
                    assert(rest0.0 == Ok::<Seq<QuestionModel>, AddError>(seq![
                        question_of(all.skip(i0)),
                    ]));
                    assert(q0 + seq![question_of(all.skip(i0))] =~= questions.deep_view());
                    assert(events@ =~= e0 + rest0.1);
                }
                return (Ok(questions), events);
            }
            proof {
                let rest1 = add_spec(all.skip(i as int), count as nat);
                assert(all.skip(i0).skip(6) =~= all.skip(i0 + 6));
                assert(rest0.1 =~= round_events(count as int) + rest1.1);
                if rest1.0 is Ok {
                    assert(q0 + (seq![question_of(all.skip(i0))] + rest1.0->Ok_0)
                        =~= questions.deep_view() + rest1.0->Ok_0);
                }
                assert(e0 + rest0.1 =~= events@ + rest1.1);
            }
        } else {
            proof {
                let rest1 = add_spec(all.skip(i as int), count as nat);
                assert(all.skip(i0).len() == 5);
                assert(all.skip(i as int).len() == 0);
                assert(rest0.1 =~= round_events(count as int) + rest1.1);
                assert(e0 + rest0.1 =~= events@ + rest1.1);
            }
        }
    }
}

/// The input and output port of the quiz program: reading the user's
/// lines, writing prompts and verdicts, and loading and storing the
/// question file. Implementations live with the program that owns the
/// console and the file; the decision logic here never touches either.
pub trait IOWrapper {
    /// Reads one line of user input, or reports that input ended.
    fn read_line(&mut self) -> Option<String>;

    /// Writes a message without a line break.
    fn write(&mut self, message: String);

    /// Writes a message followed by a line break.
    fn write_line(&mut self, message: String);

    /// Loads the stored question list.
    fn read_json_file(&mut self) -> Vec<Question>;

    /// Stores the question list.
    fn write_json_file(&mut self, questions: Vec<Question>);
}

/// The verdict line written after each question. The quiz never
/// checks an answer against the right one: every line that parses as a
/// number counts as wrong, a line that is not a number asks for a
/// valid one, and a missing line asks for an answer at all.
#[derive(Debug, Clone, Copy, PartialEq, Eq)]
pub enum PlayReply {
    /// "wrong"
    Wrong,
    /// "please enter a valid number"
    InvalidNumber,
    /// "please enter your answer"
    MissingAnswer,
}

/// One line the quiz writes while it plays, in order.
#[derive(Debug, Clone, PartialEq, Eq)]
pub enum PlayEvent {
    /// The question's own text.
    Heading(String),
    /// "{number}. {answer}": one offered answer under its running
    /// number.
    Choice(usize, String),
    /// "Choose the right answer ?"
    AskChoice,
    /// The verdict on the user's answer.
    Reply(PlayReply),
}

/// The mathematical shape of a [`PlayEvent`].
#[verifier::ext_equal]
pub enum PlayEventModel {
    Heading(Seq<char>),
    Choice(usize, Seq<char>),
    AskChoice,
    Reply(PlayReply),
}

impl DeepView for PlayEvent {
    type V = PlayEventModel;

    open spec fn deep_view(&self) -> PlayEventModel {
        match self {
            PlayEvent::Heading(s) => PlayEventModel::Heading(s@),
            PlayEvent::Choice(n, s) => PlayEventModel::Choice(*n, s@),
            PlayEvent::AskChoice => PlayEventModel::AskChoice,
            PlayEvent::Reply(v) => PlayEventModel::Reply(*v),
        }
    }
}

/// The verdict on one answer line, if one arrived: any line that
/// parses as a small number is wrong (the quiz never checks it against
/// the right answer), anything else is asked again.
pub open spec fn reply_of(answer: Option<Seq<char>>) -> PlayReply {
    match answer {
        None => PlayReply::MissingAnswer,
        Some(a) => if is_u8_numeral(trimmed(a)) {
            PlayReply::Wrong
        } else {
            PlayReply::InvalidNumber
        },
    }
}

/// The answer line offered for question number `t`, if the input had
/// one left.
pub open spec fn answer_at(answers: Seq<Seq<char>>, t: int) -> Option<Seq<char>> {
    if 0 <= t < answers.len() {
        Some(answers[t])
    } else {
        None
    }
}

/// The lines written for one question whose answers continue the
/// running number `base`: the question text, its incorrect answers
/// under the numbers `base + 1` up, the correct answer under the last
/// of those numbers again, the prompt, and the verdict.
pub open spec fn question_events(q: QuestionModel, answer: Option<Seq<char>>, base: int) -> Seq<
    PlayEventModel,
> {
    seq![PlayEventModel::Heading(q.content)] + Seq::new(
        q.incorrect_answers.len(),
        |j: int| PlayEventModel::Choice((base + j + 1) as usize, q.incorrect_answers[j]),
    ) + seq![
        PlayEventModel::Choice((base + q.incorrect_answers.len()) as usize, q.correct_answer),
        PlayEventModel::AskChoice,
        PlayEventModel::Reply(reply_of(answer)),
    ]
}

/// How many numbered answer lines the questions from `t` on will
/// write.
pub open spec fn option_total(qs: Seq<QuestionModel>, t: int) -> int
    decreases qs.len() - t,
{
    if t < 0 || t >= qs.len() {
        0
    } else {
        qs[t].incorrect_answers.len() + option_total(qs, t + 1)
    }
}

proof fn lemma_option_total_nonneg(qs: Seq<QuestionModel>, t: int)
    ensures
        option_total(qs, t) >= 0,
    decreases qs.len() - t,
{
    if 0 <= t < qs.len() {
        lemma_option_total_nonneg(qs, t + 1);
    }
}

/// The lines the quiz writes for the questions from `t` on, with the
/// running answer number starting at `base`.
pub open spec fn play_from(
    qs: Seq<QuestionModel>,
    answers: Seq<Seq<char>>,
    t: int,
    base: int,
) -> Seq<PlayEventModel>
    decreases qs.len() - t,
{
    if t < 0 || t >= qs.len() {
        Seq::empty()
    } else {
        question_events(qs[t], answer_at(answers, t), base) + play_from(
            qs,
            answers,
            t + 1,
            base + qs[t].incorrect_answers.len(),
        )
    }
}

/// Everything the quiz writes when the given questions are played
/// against the given answer lines, one answer line per question.
pub open spec fn play_spec(qs: Seq<QuestionModel>, answers: Seq<Seq<char>>) -> Seq<
    PlayEventModel,
> {
    play_from(qs, answers, 0, 0)
}

/// Plays the given questions against the user's answer lines and
/// returns the transcript to write out, exactly as [`play_spec`]
/// describes it. The running answer numbering is shared across all
/// questions, so their total count must fit the number type.
pub fn play(questions: &Vec<Question>, answers: &Vec<String>) -> (r: Vec<PlayEvent>)
    requires
        option_total(questions.deep_view(), 0) <= usize::MAX,
    ensures
        r.deep_view() == play_spec(questions.deep_view(), answers.deep_view()),
{
    let ghost qs = questions.deep_view();
    let ghost ans = answers.deep_view();
    let mut events: Vec<PlayEvent> = Vec::new();
    let mut index: usize = 0;
    let mut t: usize = 0;
    proof {
        assert(events.deep_view() + play_from(qs, ans, 0, 0) =~= play_from(qs, ans, 0, 0));
    }
    while t < questions.len()
        invariant
            qs == questions.deep_view(),
            ans == answers.deep_view(),
            qs.len() == questions@.len(),
            ans.len() == answers@.len(),
            t <= questions@.len(),
            index + option_total(qs, t as int) == option_total(qs, 0) <= usize::MAX,
            play_spec(qs, ans) == events.deep_view() + play_from(qs, ans, t as int, index as int),
        decreases questions@.len() - t,
    {
        let ghost e0 = events.deep_view();
        let ghost base = index as int;
        let ghost qm = qs[t as int];
        proof {
            assert(qm == questions@[t as int].deep_view());
            lemma_option_total_nonneg(qs, t + 1 as int);
        }
        let question = &questions[t];
        proof {
            assert(question.content@ == qm.content);
            assert(question.correct_answer@ == qm.correct_answer);
        }
        events.push(PlayEvent::Heading(question.content.clone()));
        let k = question.incorrect_answers.len();
        proof {
            assert(qm.incorrect_answers.len() == k);
            assert(option_total(qs, t as int) == k + option_total(qs, t + 1 as int));
        }
        let mut j: usize = 0;
        while j < k
            invariant
                0 <= j <= k,
                qm == qs[t as int],
                t < qs.len() == questions@.len(),
                qm == questions@[t as int].deep_view(),
                k == qm.incorrect_answers.len(),
                index as int == base + j,
                base + k <= usize::MAX,
                events.deep_view() =~= e0 + seq![PlayEventModel::Heading(qm.content)] + Seq::new(
                    j as nat,
                    |m: int| PlayEventModel::Choice((base + m + 1) as usize, qm.incorrect_answers[m]),
                ),
            decreases k - j,
        {
            let choice_text = questions[t].incorrect_answers[j].clone();
            proof {
                assert(choice_text@ == qm.incorrect_answers[j as int]);
            }
            index = index + 1;
            let ghost before_choice = events.deep_view();
            let ghost choice_model = PlayEventModel::Choice(index, choice_text@);
            events.push(PlayEvent::Choice(index, choice_text));
            proof {
                assert(events.deep_view() =~~= before_choice.push(choice_model));
                assert(choice_model == PlayEventModel::Choice(
                    (base + j + 1) as usize,
                    qm.incorrect_answers[j as int],
                ));
                assert(events.deep_view() =~~= e0 + seq![PlayEventModel::Heading(qm.content)]
                    + Seq::new(
                    (j + 1) as nat,
                    |m: int| PlayEventModel::Choice((base + m + 1) as usize, qm.incorrect_answers[m]),
                ));
            }
            j = j + 1;
        }
        let ghost before_correct = events.deep_view();
        events.push(PlayEvent::Choice(index, question.correct_answer.clone()));
        proof {
            assert(events.deep_view() =~~= before_correct.push(
                PlayEventModel::Choice((base + k) as usize, qm.correct_answer),
            ));
        }
        let ghost before_prompt = events.deep_view();
        events.push(PlayEvent::AskChoice);
        proof {
            assert(events.deep_view() =~~= before_prompt.push(PlayEventModel::AskChoice));
        }
        let reply = if t < answers.len() {
            let a = &answers[t];
            proof {
                assert(ans[t as int] == answers@[t as int]@);
            }
            if parse_answer(a.as_str()) {
                PlayReply::Wrong
            } else {
                PlayReply::InvalidNumber
            }
        } else {
            PlayReply::MissingAnswer
        };
        let ghost before_reply = events.deep_view();
        events.push(PlayEvent::Reply(reply));
        proof {
            assert(reply == reply_of(answer_at(ans, t as int)));
            assert(events.deep_view() =~~= before_reply.push(PlayEventModel::Reply(reply)));
            assert(events.deep_view() =~~= e0 + question_events(
                qm,
                answer_at(ans, t as int),
                base,
            ));
            assert(play_spec(qs, ans) =~= events.deep_view() + play_from(
                qs,
                ans,
                t + 1 as int,
                base + k as int,
            ));
        }
        t = t + 1;
    }
    events
}

/// Whether an answer line parses as a small decimal number, the
/// quantity the quiz's verdict goes by.
fn parse_answer(s: &str) -> (r: bool)
    ensures
        r == is_u8_numeral(trimmed(s@)),
{
    let parsed = crate::text::parse_u8(s);
    parsed.is_some()
}

} // verus!

