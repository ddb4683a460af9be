use vstd::prelude::*;
use vstd::string::*;
use crate::error::PipelineError;
use crate::text::{find_sub, find_sub_str, substr_copy, lemma_find_sub_characterization};

verus! {

/// The stock prompt templates for rewriting a transcript.
pub enum PromptTemplate {
    MedManSports,
    MamaMeditations,
}

impl PromptTemplate {
    /// The path of this template's prompt file.
    pub fn template_path(&self) -> (r: &'static str)
        ensures
            self is MedManSports ==> r@ == "prompt_dev/medmansports.md"@,
            self is MamaMeditations ==> r@ == "prompt_dev/mamameditation.md"@,
    {
        match self {
            PromptTemplate::MedManSports => "prompt_dev/medmansports.md",
            PromptTemplate::MamaMeditations => "prompt_dev/mamameditation.md",
        }
    }
}

/// `s` with every occurrence of `pat` replaced by `sub`, scanning from the
/// left.
pub open spec fn replaced(s: Seq<char>, pat: Seq<char>, sub: Seq<char>) -> Seq<char>
    decreases s.len(),
    when pat.len() > 0
    via replaced_decreases
{
    match find_sub(s, pat) {
        Some(i) => s.take(i) + sub + replaced(s.skip(i + pat.len()), pat, sub),
        None => s,
    }
}

#[via_fn]
proof fn replaced_decreases(s: Seq<char>, pat: Seq<char>, sub: Seq<char>) {
    lemma_find_sub_characterization(s, pat);
}

/// The transcript placeholder that a prompt template carries.
pub open spec fn placeholder() -> Seq<char> {
    "{{TRANSCRIPT_TEXT}}"@
}

/// The prompt for one completion request: the template text with every
/// placeholder replaced by the transcript.
pub fn fill_template(template: &str, transcript: &str) -> (r: String)
    ensures
        r@ == replaced(template@, placeholder(), transcript@),
{
    proof {
        reveal_strlit("{{TRANSCRIPT_TEXT}}");
    }
    let pat = "{{TRANSCRIPT_TEXT}}";
    let plen = pat.unicode_len();
    let mut out = String::new();
    let mut rem: &str = template;
    proof {
        assert(out@ + replaced(rem@, placeholder(), transcript@) =~= replaced(
            template@,
            placeholder(),
            transcript@,
        ));
    }
    loop
        invariant_except_break
            pat@ == placeholder(),
            plen == placeholder().len(),
            plen > 0,
            replaced(template@, placeholder(), transcript@) == out@ + replaced(
                rem@,
                placeholder(),
                transcript@,
            ),
        ensures
            replaced(template@, placeholder(), transcript@) == out@,
        decreases rem@.len(),
    {
        let rem_len = rem.unicode_len();
        match find_sub_str(rem, pat) {
            Some(i) => {
                proof {
                    lemma_find_sub_characterization(rem@, placeholder());
                }
                let ghost out_pre = out@;
                let head = rem.substring_char(0, i);
                out.append(head);
                out.append(transcript);
                let new_rem = rem.substring_char(i + plen, rem_len);
                proof {
                    assert(head@ =~= rem@.take(i as int));
                    assert(new_rem@ =~= rem@.skip(i + placeholder().len()));
                    assert(out@ + replaced(new_rem@, placeholder(), transcript@) =~= out_pre
                        + replaced(rem@, placeholder(), transcript@));
                }
                rem = new_rem;
            },
            None => {
                out.append(rem);
                break;
            },
        }
    }
    out
}

/// Decides one remote completion exchange: a non-success status surfaces
/// the response body as the failure detail, an empty candidate list is its
/// own distinct error, and otherwise the first candidate is the result.
pub fn completion_outcome(status_success: bool, body: String, choices: Vec<String>) -> (r: Result<
    String,
    PipelineError,
>)
    ensures
        match r {
            Ok(text) => status_success && choices@.len() > 0 && text == choices@[0],
            Err(e) => {
                ||| (!status_success && (e matches PipelineError::RemoteApi { detail } && detail
                    == body))
                ||| (status_success && choices@.len() == 0 && (e matches PipelineError::RemoteApi {
                    detail,
                } && detail@ == "No response choices returned"@))
            },
        },
{
    if !status_success {
        return Err(PipelineError::RemoteApi { detail: body });
    }
    let mut choices = choices;
    if choices.len() == 0 {
        return Err(
            PipelineError::RemoteApi {
                detail: String::from_str("No response choices returned"),
            },
        );
    }
    Ok(choices.remove(0))
}

} // verus!
