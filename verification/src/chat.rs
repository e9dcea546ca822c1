//! The request that is sent to the chat service for a student's question.

use vstd::prelude::*;
use vstd::string::*;
use regex::Regex;
use crate::text::joined;

verus! {

/// The model that answers.
pub const MODEL: &'static str = "gpt-4o-mini";

/// The role under which the question is sent.
pub const ROLE: &'static str = "user";

/// What stands before the student's question.
pub const PREAMBLE: &'static str = "You are advising a student from Menlo-Atherton High School about the schools mental health resources. The school offers a variety of mental health services:\n\nPAWS (Peace & Wellness Space): Open from 9am to 3pm, Monday through Friday (except on government holidays). PAWS provides mental health, substance misuse, and overall wellness services through partnerships with Star Vista, Miricenter, and Acknowledge Alliance. Students can drop in for crisis intervention, wellness check-ins, or to practice coping strategies. They can refer themselves or a friend by scanning QR codes posted on campus in English and Spanish.\n\nCounselors & Appointments: The school has counselors available by appointment via the counseling tab on www.mabears.org. For 504 plan support, students can reach out to Intervention Counselors Kerry Larratt (A-L) or Andrea Booth (M-Z) for personalized assistance.\n\nMental Health Resources:\n\nCare Solace: Offers 24/7/365 support to connect students and families to treatment providers anonymously, available at Care Solace website or by calling 1-855-515-0595. Services are available in 200+ languages and accommodate all types of insurance or no insurance.\nStar Vista S.O.S. Team: Provides crisis intervention for youth and can be accessed at 1-650-579-0350.\nKara Grief Services: Offers grief support for those dealing with loss, available at 1-650-321-5272 or at Kara Grief website.\nAlternative Testing Setting: Available for students requiring accommodations for testing (D-24), including extended time as indicated in 504 or IEP plans.\n\nHotlines & Immediate Support:\n\nSuicide and Crisis Lifeline: Call 988 or text \"Help\" to 988.\nCA Youth Crisis Line: Call 1-800-843-5200.\nTrevor Project LGBTQ+ Lifeline: Call 1-866-488-7386 or text \"START\" to 678678.\nThe students question is: \"";

/// What stands behind the student's question.
pub const CLOSING: &'static str = "\". Provide a response that is specific, empathetic, and relevant to the question asked, and only offer information that pertains to Menlo-Athertons mental health resources. Make the response sound as human and compassionate as possible, acknowledging the students concern or problem.";

/// One message of a conversation.
#[derive(Debug, PartialEq, Eq)]
pub struct Message {
    pub role: String,
    pub content: String,
}

/// A request to the chat service.
#[derive(Debug, PartialEq, Eq)]
pub struct ChatGptRequest {
    pub model: String,
    pub messages: Vec<Message>,
}

impl ChatGptRequest {
    /// A request to `model` with the conversation `messages`.
    pub fn new(model: String, messages: Vec<Message>) -> (request: Self)
        ensures
            request.model == model,
            request.messages == messages,
    {
        Self { model, messages }
    }
}

impl Message {
    /// A message with the text `content`, sent as `role`.
    pub fn new(role: String, content: String) -> (message: Self)
        ensures
            message.role == role,
            message.content == content,
    {
        Self { role, content }
    }
}

/// Whether `c` is a quote or a bracket, which a backslash is put before.
pub open spec fn needs_escape(c: char) -> bool {
    c == '"' || c == '\'' || c == '`' || c == '[' || c == ']' || c == '{' || c == '}' || c == '(' || c == ')'
        || c == '<' || c == '>'
}

/// `text` with a backslash before every quote and bracket.
pub open spec fn escaped(text: Seq<char>) -> Seq<char>
    decreases text.len(),
{
    if text.len() == 0 {
        text
    } else if needs_escape(text.last()) {
        escaped(text.drop_last()).push('\\').push(text.last())
    } else {
        escaped(text.drop_last()).push(text.last())
    }
}

/// The text that is sent for the question `prompt`.
pub open spec fn full_prompt(prompt: Seq<char>) -> Seq<char> {
    PREAMBLE@ + escaped(prompt) + CLOSING@
}

/// `Regex::replace_all` for the pattern that matches one quote or bracket,
/// with the match behind a backslash as replacement: every match, that is
/// every such character, is replaced, and the rest of the text is kept.
#[verifier::external_body]
fn escape_with_regex(prompt: &str) -> (text: String)
    ensures
        text@ == escaped(prompt@),
{
    Regex::new("([\"'`\\[\\]{}()<>])").unwrap().replace_all(prompt, "\\$1").into_owned()
}

/// `prompt` with a backslash before every quote and bracket.
pub fn escape_prompt(prompt: &str) -> (text: String)
    ensures
        text@ == escaped(prompt@),
{
    escape_with_regex(prompt)
}

/// The request for the question `prompt`: one message of the user, with the
/// escaped question between the preamble and the closing.
pub fn chat_request(prompt: &str) -> (request: ChatGptRequest)
    ensures
        request.model@ == MODEL@,
        request.messages@.len() == 1,
        request.messages@[0].role@ == ROLE@,
        request.messages@[0].content@ == full_prompt(prompt@),
{
    let question = escape_prompt(prompt);
    let opening = joined(PREAMBLE, question.as_str());
    let content = joined(opening.as_str(), CLOSING);
    let mut messages: Vec<Message> = Vec::new();
    messages.push(Message::new(String::from_str(ROLE), content));
    ChatGptRequest::new(String::from_str(MODEL), messages)
}

/// What came back from the chat service.
#[derive(Debug, PartialEq, Eq)]
pub enum ChatReply {
    /// The service answered; the text is its answer.
    Answered(String),
    /// The service turned the request down; the text is its reason.
    Refused(String),
    /// The service was not reached; the text says why.
    Failed(String),
}

/// The HTTP status under which a reply of the chat service is passed on.
pub open spec fn chat_status(reply: ChatReply) -> u16 {
    match reply {
        ChatReply::Answered(_) => 200,
        ChatReply::Refused(_) => 400,
        ChatReply::Failed(_) => 500,
    }
}

/// The text that came with a reply of the chat service.
pub open spec fn chat_text(reply: ChatReply) -> Seq<char> {
    match reply {
        ChatReply::Answered(text) => text@,
        ChatReply::Refused(text) => text@,
        ChatReply::Failed(text) => text@,
    }
}

/// What is answered for a reply of the chat service: its answer is passed on
/// as a success, its refusal as a bad request, and a failure to reach it as
/// an internal error, each with the text that came with it.
pub fn chat_answer(reply: ChatReply) -> (answer: (u16, String))
    ensures
        answer.0 == chat_status(reply),
        answer.1@ == chat_text(reply),
{
    match reply {
        ChatReply::Answered(text) => (200, text),
        ChatReply::Refused(text) => (400, text),
        ChatReply::Failed(text) => (500, text),
    }
}

} // verus!
