//! Classifier-facing logic: prompt construction and validation of the
//! label a classifier returns.
//!
//! The classifier itself is an external collaborator reached over the
//! network; this module builds the exact request messages it is sent and
//! decides, for any answer it may give, whether that answer is accepted:
//! a label is kept only when it matches a configured candidate
//! case-insensitively.

use vstd::prelude::*;
use vstd::string::StrSliceExecFns;
use vstd::string::StringExecFns;

use crate::records::opt_text;
use crate::text::str_eq;
use crate::text::trim_spaces;
use crate::text::trim_view;

verus! {

/// The case-folded form of a character sequence, as `str::to_lowercase`
/// computes it.
pub uninterp spec fn lower_of(s: Seq<char>) -> Seq<char>;

/// Relies on str::to_lowercase: the result depends on the characters alone,
/// and an empty string stays empty.
#[verifier::external_body]
pub fn lowercase(s: &str) -> (r: String)
    ensures
        r@ == lower_of(s@),
        s@.len() == 0 ==> r@.len() == 0,
{
    s.to_lowercase()
}

/// The views of a list of owned strings.
pub open spec fn names_of(v: Seq<String>) -> Seq<Seq<char>> {
    v.map_values(|s: String| s@)
}

/// Whether a raw classifier answer matches some candidate,
/// case-insensitively and ignoring surrounding whitespace.
pub open spec fn label_accepted(raw: Seq<char>, candidates: Seq<Seq<char>>) -> bool {
    exists|i: int|
        0 <= i < candidates.len() && lower_of(candidates[i]) == lower_of(trim_view(raw))
}

/// The label that is stored for a raw classifier answer: the case-folded,
/// trimmed answer when it is accepted, nothing otherwise. A `None` answer
/// stands for a failed or skipped classifier call.
pub open spec fn accepted_label(raw: Option<Seq<char>>, candidates: Seq<Seq<char>>) -> Option<
    Seq<char>,
> {
    match raw {
        Some(r) => if label_accepted(r, candidates) {
            Some(lower_of(trim_view(r)))
        } else {
            None
        },
        None => None,
    }
}

/// Validates a raw classifier answer against the candidate set: returns the
/// trimmed, case-folded answer when it matches some candidate
/// case-insensitively, and nothing otherwise.
pub fn accept_label(raw: &str, candidates: &Vec<String>) -> (r: Option<String>)
    ensures
        opt_text(r) == accepted_label(Some(raw@), names_of(candidates@)),
{
    let trimmed = trim_spaces(raw);
    let label = lowercase(trimmed);
    let n = candidates.len();
    let mut i: usize = 0;
    while i < n
        invariant
            n == candidates@.len(),
            i <= n,
            label@ == lower_of(trim_view(raw@)),
            forall|j: int| 0 <= j < i ==> lower_of(candidates@[j]@) != label@,
        decreases n - i,
    {
        let cand_lower = lowercase(candidates[i].as_str());
        if str_eq(label.as_str(), cand_lower.as_str()) {
            proof {
                assert(names_of(candidates@)[i as int] == candidates@[i as int]@);
            }
            return Some(label);
        }
        i += 1;
    }
    proof {
        assert(forall|j: int|
            0 <= j < candidates@.len() ==> names_of(candidates@)[j] == candidates@[j]@);
    }
    None
}

/// Case-folds every string of a list, in order.
pub fn lowercase_all(names: &Vec<String>) -> (r: Vec<String>)
    ensures
        r@.len() == names@.len(),
        forall|i: int| 0 <= i < r@.len() ==> r@[i]@ == lower_of(names@[i]@),
{
    let n = names.len();
    let mut r: Vec<String> = Vec::new();
    let mut i: usize = 0;
    while i < n
        invariant
            n == names@.len(),
            i <= n,
            r@.len() == i,
            forall|j: int| 0 <= j < i ==> r@[j]@ == lower_of(names@[j]@),
        decreases n - i,
    {
        r.push(lowercase(names[i].as_str()));
        i += 1;
    }
    r
}

/// The candidate strings joined with a comma and a space.
pub open spec fn joined(s: Seq<Seq<char>>) -> Seq<char>
    decreases s.len(),
{
    if s.len() == 0 {
        Seq::empty()
    } else if s.len() == 1 {
        s[0]
    } else {
        joined(s.drop_last()) + ", "@ + s.last()
    }
}

/// Joins a list of strings with `", "`.
pub fn join_labels(labels: &Vec<String>) -> (r: String)
    ensures
        r@ == joined(names_of(labels@)),
{
    let n = labels.len();
    let mut out = String::new();
    let mut i: usize = 0;
    while i < n
        invariant
            n == labels@.len(),
            i <= n,
            out@ == joined(names_of(labels@).subrange(0, i as int)),
        decreases n - i,
    {
        let ghost all = names_of(labels@);
        if i > 0 {
            out.append(", ");
        }
        out.append(labels[i].as_str());
        proof {
            let sub = all.subrange(0, i + 1 as int);
            assert(sub.drop_last() =~= all.subrange(0, i as int));
            assert(sub.last() == all[i as int]);
            assert(all[i as int] == labels@[i as int]@);
            if i == 0 {
                assert(out@ =~= sub[0]);
            }
        }
        i += 1;
    }
    proof {
        assert(names_of(labels@).subrange(0, n as int) =~= names_of(labels@));
    }
    out
}

/// Configuration of the external classifier service.
#[derive(Debug)]
pub struct OpenAiConfig {
    pub api_key: String,
    pub model: String,
}

impl Clone for OpenAiConfig {
    fn clone(&self) -> (r: Self)
        ensures
            r == *self,
    {
        OpenAiConfig { api_key: self.api_key.clone(), model: self.model.clone() }
    }
}

/// One chat message handed to the classifier service.
#[derive(Debug)]
pub struct OpenAiMessage {
    pub role: String,
    pub content: String,
}

impl Clone for OpenAiMessage {
    fn clone(&self) -> (r: Self)
        ensures
            r == *self,
    {
        OpenAiMessage { role: self.role.clone(), content: self.content.clone() }
    }
}

impl OpenAiMessage {
    /// A message carrying the system role.
    pub fn system(content: String) -> (r: Self)
        ensures
            r.role@ == "system"@,
            r.content == content,
    {
        OpenAiMessage { role: String::from_str("system"), content }
    }

    /// A message carrying the user role.
    pub fn user(content: String) -> (r: Self)
        ensures
            r.role@ == "user"@,
            r.content == content,
    {
        OpenAiMessage { role: String::from_str("user"), content }
    }
}

/// The system prompt that asks for exactly one value of the given kind.
pub open spec fn system_prompt_view(label_type: Seq<char>) -> Seq<char> {
    "Ты — классификатор телеграм-каналов. Твоя задача — выбрать одно значение "@ + label_type
        + " из списка. Возвращай только одно значение без пояснений."@
}

/// The user prompt carrying the case-folded candidate list and the channel text.
pub open spec fn user_prompt_view(candidates: Seq<Seq<char>>, data: Seq<char>) -> Seq<char> {
    "Возможные значения: ["@ + joined(candidates.map_values(|c: Seq<char>| lower_of(c)))
        + "]\n\nОписание канала:\n\""@ + trim_view(data)
        + "\"\n\nВыбери наиболее подходящее. Верни только одно точное значение из списка."@
}

/// Builds the two messages of one classification request: the system
/// instruction for the label kind, and the user prompt listing the
/// case-folded candidates and the channel text.
pub fn build_classifier_messages(label_type: &str, data: &str, candidates: &Vec<String>) -> (r:
    Vec<OpenAiMessage>)
    ensures
        r@.len() == 2,
        r@[0].role@ == "system"@,
        r@[0].content@ == system_prompt_view(label_type@),
        r@[1].role@ == "user"@,
        r@[1].content@ == user_prompt_view(names_of(candidates@), data@),
{
    let lowered = lowercase_all(candidates);
    let candidates_str = join_labels(&lowered);
    proof {
        assert(names_of(lowered@) =~= names_of(candidates@).map_values(
            |c: Seq<char>| lower_of(c),
        ));
    }

    let mut system_prompt = String::from_str(
        "Ты — классификатор телеграм-каналов. Твоя задача — выбрать одно значение ",
    );
    system_prompt.append(label_type);
    system_prompt.append(" из списка. Возвращай только одно значение без пояснений.");

    let mut user_prompt = String::from_str("Возможные значения: [");
    user_prompt.append(candidates_str.as_str());
    user_prompt.append("]\n\nОписание канала:\n\"");
    user_prompt.append(trim_spaces(data));
    user_prompt.append(
        "\"\n\nВыбери наиболее подходящее. Верни только одно точное значение из списка.",
    );

    let mut r: Vec<OpenAiMessage> = Vec::new();
    r.push(OpenAiMessage::system(system_prompt));
    r.push(OpenAiMessage::user(user_prompt));
    r
}

} // verus!
