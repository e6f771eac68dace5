//! Prompt profiles: styles and dictation transforms in one domain. A
//! profile run composes the exact user message from the profile's
//! template, records a provenance snapshot, and asks an LLM transport for
//! the output; the transport is a trait, so the domain stays testable.

use vstd::prelude::*;

use crate::storage::repositories::transcriptions::str_equal;
use crate::text::{blank_chars, chars_of, extend_chars, is_blank, string_of};

verus! {

pub const KIND_STYLE: &'static str = "style";
pub const KIND_TRANSFORM: &'static str = "transform";

/// The parts of a stored profile that a run reads.
#[derive(Clone, Debug)]
pub struct PromptProfile {
    pub id: String,
    pub name: String,
    /// `style` or `transform`.
    pub kind: String,
    pub system_prompt: String,
    /// Template for the user message; `{text}` is the transcript slot.
    pub user_template: String,
    /// Reference into the provider configuration kept in the settings.
    pub provider_id: String,
    pub model: String,
    pub enabled: bool,
}

/// Provenance recorded per representation, so outputs stay interpretable
/// after profile edits or deletions.
#[derive(Clone, Debug)]
pub struct PromptProvenance {
    pub profile_id: String,
    pub profile_name: String,
    pub kind: String,
    pub provider_id: String,
    pub model: String,
    /// The exact prompt sent to the provider.
    pub effective_prompt_snapshot: String,
}

/// A synchronous LLM transport: the production one wraps the HTTP client,
/// tests inject a mock.
pub trait LlmTransport: Send + Sync {
    fn complete(&self, system_prompt: &str, user_prompt: &str, model: &str) -> Result<String, String>;
}

/// The transcript slot of a user template.
pub open spec fn placeholder() -> Seq<char> {
    seq!['{', 't', 'e', 'x', 't', '}']
}

/// `s` with every occurrence of `pat` replaced by `rep`, scanning left to
/// right without overlap (what `str::replace` returns), for non-empty `pat`.
pub open spec fn replace_all(s: Seq<char>, pat: Seq<char>, rep: Seq<char>) -> Seq<char>
    decreases s.len(),
{
    if pat.len() == 0 || s.len() < pat.len() {
        s
    } else if s.take(pat.len() as int) == pat {
        rep + replace_all(s.skip(pat.len() as int), pat, rep)
    } else {
        seq![s[0]] + replace_all(s.drop_first(), pat, rep)
    }
}

/// Whether `pat` occurs in `s` at position `i`.
fn occurs_at(s: &[char], i: usize, pat: &[char]) -> (r: bool)
    requires
        i <= s@.len(),
    ensures
        r == (i + pat@.len() <= s@.len() && s@.subrange(i as int, i + pat@.len()) == pat@),
{
    if pat.len() > s.len() - i {
        return false;
    }
    let mut k: usize = 0;
    while k < pat.len()
        invariant
            k <= pat@.len(),
            i + pat@.len() <= s@.len(),
            i + pat.len() <= s.len(),
            forall|j: int| 0 <= j < k ==> s@[i + j] == pat@[j],
        decreases pat@.len() - k,
    {
        if s[i + k] != pat[k] {
            assert(s@.subrange(i as int, i + pat@.len())[k as int] != pat@[k as int]);
            return false;
        }
        k = k + 1;
    }
    assert(s@.subrange(i as int, i + pat@.len()) =~= pat@);
    true
}

/// `s` with every occurrence of `pat` replaced by `rep`.
pub fn replace_chars(s: &[char], pat: &[char], rep: &[char]) -> (r: Vec<char>)
    requires
        pat@.len() > 0,
    ensures
        r@ == replace_all(s@, pat@, rep@),
{
    let mut out: Vec<char> = Vec::new();
    let mut i: usize = 0;
    assert(s@.skip(0) == s@);
    while i < s.len()
        invariant
            i <= s@.len(),
            pat@.len() > 0,
            replace_all(s@, pat@, rep@) == out@ + replace_all(s@.skip(i as int), pat@, rep@),
        decreases s@.len() - i,
    {
        let ghost rest = s@.skip(i as int);
        if occurs_at(s, i, pat) {
            assert(rest.take(pat@.len() as int) == s@.subrange(i as int, i + pat@.len()));
            assert(rest.skip(pat@.len() as int) == s@.skip(i + pat@.len()));
            let ghost before = out@;
            extend_chars(&mut out, rep);
            assert(before + (rep@ + replace_all(s@.skip(i + pat@.len()), pat@, rep@)) == out@
                + replace_all(s@.skip(i + pat@.len()), pat@, rep@));
            i = i + pat.len();
        } else {
            proof {
                if rest.len() >= pat@.len() {
                    assert(rest.take(pat@.len() as int) == s@.subrange(i as int, i + pat@.len()));
                }
            }
            assert(rest[0] == s@[i as int]);
            assert(rest.drop_first() == s@.skip(i + 1));
            let ghost before = out@;
            out.push(s[i]);
            assert(before + (seq![s@[i as int]] + replace_all(s@.skip(i + 1), pat@, rep@)) == out@
                + replace_all(s@.skip(i + 1), pat@, rep@));
            i = i + 1;
        }
    }
    assert(s@.skip(i as int) == Seq::<char>::empty());
    assert(out@ + Seq::<char>::empty() == out@);
    out
}

/// The exact user message of a run: the template with every `{text}`
/// replaced by the transcript; any other brace text is left as it is.
pub fn compose_user_prompt(template: &str, transcript_text: &str) -> (r: String)
    ensures
        r@ == replace_all(template@, placeholder(), transcript_text@),
{
    let t = chars_of(template);
    let p = chars_of("{text}");
    proof {
        reveal_strlit("{text}");
    }
    assert(p@ == placeholder());
    let x = chars_of(transcript_text);
    let out = replace_chars(t.as_slice(), p.as_slice(), x.as_slice());
    string_of(out.as_slice())
}

/// The prompt snapshot recorded for a run: the system prompt and the user
/// message, each under its heading.
pub open spec fn prompt_snapshot(system_prompt: Seq<char>, user_prompt: Seq<char>) -> Seq<char> {
    "SYSTEM:\n"@ + system_prompt + "\n\nUSER:\n"@ + user_prompt
}

/// Whether `p` is the provenance of running `profile` with user message
/// `user_prompt`.
pub open spec fn provenance_of(p: PromptProvenance, profile: PromptProfile, user_prompt: Seq<char>) -> bool {
    &&& p.profile_id == profile.id
    &&& p.profile_name == profile.name
    &&& p.kind == profile.kind
    &&& p.provider_id == profile.provider_id
    &&& p.model == profile.model
    &&& p.effective_prompt_snapshot@ == prompt_snapshot(profile.system_prompt@, user_prompt)
}

/// The provenance snapshot of a profile run.
pub fn build_provenance(profile: &PromptProfile, user_prompt: &str) -> (r: PromptProvenance)
    ensures
        provenance_of(r, *profile, user_prompt@),
{
    let mut s = chars_of("SYSTEM:\n");
    let sys = chars_of(profile.system_prompt.as_str());
    extend_chars(&mut s, sys.as_slice());
    let mid = chars_of("\n\nUSER:\n");
    extend_chars(&mut s, mid.as_slice());
    let u = chars_of(user_prompt);
    extend_chars(&mut s, u.as_slice());
    PromptProvenance {
        profile_id: profile.id.clone(),
        profile_name: profile.name.clone(),
        kind: profile.kind.clone(),
        provider_id: profile.provider_id.clone(),
        model: profile.model.clone(),
        effective_prompt_snapshot: string_of(s.as_slice()),
    }
}

/// The refusal of a disabled profile.
pub open spec fn disabled_message(name: Seq<char>) -> Seq<char> {
    "profile '"@ + name + "' is disabled"@
}

/// The outcome of a run once the transport has answered: its output with
/// the provenance, or its error unchanged.
pub fn finish_run(answer: Result<String, String>, provenance: PromptProvenance) -> (r: Result<
    (String, PromptProvenance),
    String,
>)
    ensures
        answer matches Ok(out) ==> r == Ok::<(String, PromptProvenance), String>((out, provenance)),
        answer matches Err(e) ==> r == Err::<(String, PromptProvenance), String>(e),
{
    match answer {
        Ok(out) => Ok((out, provenance)),
        Err(e) => Err(e),
    }
}

/// Run one profile against a transcript through `transport`. A disabled
/// profile is refused before anything is sent. Otherwise the transport is
/// asked once, with the profile's system prompt, the composed user message
/// and the profile's model; its output comes back with the provenance of
/// the run, its error unchanged (see [`finish_run`]).
pub fn run_profile<T: LlmTransport + ?Sized>(
    profile: &PromptProfile,
    transcript_text: &str,
    transport: &T,
) -> (r: Result<(String, PromptProvenance), String>)
    ensures
        !profile.enabled ==> (r matches Err(e) && e@ == disabled_message(profile.name@)),
        profile.enabled ==> (r matches Ok(v) ==> provenance_of(
            v.1,
            *profile,
            replace_all(profile.user_template@, placeholder(), transcript_text@),
        )),
        profile.enabled ==> exists|s: &str, u: &str, m: &str, a: Result<String, String>|
            #![trigger call_ensures(T::complete, (transport, s, u, m), a)]
            {
                &&& s@ == profile.system_prompt@
                &&& u@ == replace_all(profile.user_template@, placeholder(), transcript_text@)
                &&& m@ == profile.model@
                &&& call_ensures(T::complete, (transport, s, u, m), a)
                &&& match a {
                    Ok(o) => r matches Ok(v) && v.0 == o,
                    Err(e) => r == Err::<(String, PromptProvenance), String>(e),
                }
            },
{
    if !profile.enabled {
        let mut m = chars_of("profile '");
        let n = chars_of(profile.name.as_str());
        extend_chars(&mut m, n.as_slice());
        let tail = chars_of("' is disabled");
        extend_chars(&mut m, tail.as_slice());
        return Err(string_of(m.as_slice()));
    }
    let user_prompt = compose_user_prompt(profile.user_template.as_str(), transcript_text);
    let provenance = build_provenance(profile, user_prompt.as_str());
    let system_prompt = profile.system_prompt.as_str();
    let user = user_prompt.as_str();
    let model = profile.model.as_str();
    let answer = transport.complete(system_prompt, user, model);
    let ghost seen = answer;
    let r = finish_run(answer, provenance);
    assert(call_ensures(T::complete, (transport, system_prompt, user, model), seen));
    r
}

/// Whether a provider is asked to skip its reasoning phase: the
/// `custom` and `openrouter` providers are.
pub fn disables_reasoning(provider_id: &str) -> (r: bool)
    ensures
        r == (provider_id@ == "custom"@ || provider_id@ == "openrouter"@),
{
    str_equal(provider_id, "custom") || str_equal(provider_id, "openrouter")
}

/// A note is only transformed when its current content holds more than
/// whitespace.
pub fn check_transformable(content: &str) -> (r: Result<(), String>)
    ensures
        match r {
            Ok(()) => !is_blank(content@),
            Err(e) => is_blank(content@) && e@ == "note is empty; nothing to transform"@,
        },
{
    let cs = chars_of(content);
    if blank_chars(cs.as_slice()) {
        Err(String::from_str("note is empty; nothing to transform"))
    } else {
        Ok(())
    }
}

} // verus!
