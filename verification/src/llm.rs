//! Text-cleanup support: the chat request that asks a language model to
//! clean a transcript, and the handling of its reply.
//!
//! The surrounding application posts the messages built here to the
//! configured endpoint and hands the reply body's content back through
//! [`extract_from_tags`]; every decision about what is sent and what is kept
//! is made here.

use vstd::prelude::*;
use crate::text::{
    find_char, find_char_spec, is_space_char, is_wspace, lemma_find_char, lemma_name_len,
    name_len, strip_end, strip_end_spec, trim, trim_spec,
};

verus! {

/// The instruction sent as the system message of every cleanup request.
pub const DEFAULT_SYSTEM_PROMPT: &'static str = "You are a speech-to-text post-processor. Clean up the transcription while preserving the speaker's meaning and voice. Your tasks:\n- Remove filler words (um, uh, like, you know, basically, I mean, so, right, okay)\n- Handle self-corrections by keeping only the final intended version\n- Fix grammar, punctuation, and sentence structure\n- Format with structure: use bullet points or numbered lists when items are enumerated, add paragraph breaks between distinct topics\n- Improve clarity and conciseness without changing the meaning or making it sound robotic\nOutput only the cleaned result.";

/// Which request and response shape the cleanup endpoint speaks.
#[derive(Debug, Clone, Copy, PartialEq, Eq, Structural)]
pub enum ApiType {
    Ollama,
    OpenAI,
}

/// One example pair shown to the model before the real transcript.
#[derive(Debug)]
pub struct FewShotExample {
    pub input: String,
    pub output: String,
}

impl Clone for FewShotExample {
    /// Field-for-field copy.
    fn clone(&self) -> (r: Self)
        ensures
            r == self,
    {
        FewShotExample { input: self.input.clone(), output: self.output.clone() }
    }
}

/// Configuration of the cleanup call.
#[derive(Debug)]
pub struct LlmConfig {
    pub endpoint: String,
    pub model: String,
    pub system_prompt: String,
    pub api_type: ApiType,
    pub few_shot_examples: Vec<FewShotExample>,
}

impl Clone for LlmConfig {
    /// Field-for-field copy.
    fn clone(&self) -> (r: Self)
        ensures
            r.endpoint@ == self.endpoint@,
            r.model@ == self.model@,
            r.system_prompt@ == self.system_prompt@,
            r.api_type == self.api_type,
            r.few_shot_examples@ == self.few_shot_examples@,
    {
        let mut examples: Vec<FewShotExample> = Vec::new();
        let mut i: usize = 0;
        while i < self.few_shot_examples.len()
            invariant
                0 <= i <= self.few_shot_examples@.len(),
                examples@.len() == i,
                forall|k: int| 0 <= k < i ==> examples@[k] == self.few_shot_examples@[k],
            decreases self.few_shot_examples@.len() - i,
        {
            examples.push(self.few_shot_examples[i].clone());
            i = i + 1;
        }
        proof {
            assert(examples@ =~= self.few_shot_examples@);
        }
        LlmConfig {
            endpoint: self.endpoint.clone(),
            model: self.model.clone(),
            system_prompt: self.system_prompt.clone(),
            api_type: self.api_type,
            few_shot_examples: examples,
        }
    }
}

/// The five default example pairs, as contracts state them.
pub open spec fn default_examples_ok(s: Seq<FewShotExample>) -> bool {
    &&& s.len() == 5
    &&& s[0].input@
        == "so um I was thinking we should meet on Tuesday no wait Wednesday at like 2 PM to go over the uh the project proposal you know"@
    &&& s[0].output@
        == "I was thinking we should meet on Wednesday at 2 PM to go over the project proposal."@
    &&& s[1].input@
        == "okay so for the grocery store I need um bananas oranges apples and oh also we need like milk and bread and uh some eggs I think"@
    &&& s[1].output@ == "Grocery list:\n- Bananas\n- Oranges\n- Apples\n- Milk\n- Bread\n- Eggs"@
    &&& s[2].input@
        == "so basically to set up the project you first need to um clone the repo and then you install the dependencies with npm install and then uh you need to create a dot env file with your API key and finally just run npm run dev to start it"@
    &&& s[2].output@
        == "To set up the project:\n1. Clone the repo\n2. Install dependencies with `npm install`\n3. Create a `.env` file with your API key\n4. Run `npm run dev` to start it"@
    &&& s[3].input@
        == "so the meeting went really well um we decided to launch the new feature next month and uh Sarah is going to handle the design and Mike will do the backend and oh we also need to hire like two more engineers for the mobile team because they're basically swamped right now"@
    &&& s[3].output@
        == "The meeting went really well. We decided to launch the new feature next month. Sarah is going to handle the design and Mike will do the backend.\n\nWe also need to hire two more engineers for the mobile team because they're swamped right now."@
    &&& s[4].input@ == "The quick brown fox jumped over the lazy dog."@
    &&& s[4].output@ == "The quick brown fox jumped over the lazy dog."@
}

/// The example pairs used when the configuration supplies none.
pub fn default_few_shot_examples() -> (r: Vec<FewShotExample>)
    ensures
        default_examples_ok(r@),
{
    let mut v: Vec<FewShotExample> = Vec::new();
    v.push(
        FewShotExample {
            input: String::from_str(
                "so um I was thinking we should meet on Tuesday no wait Wednesday at like 2 PM to go over the uh the project proposal you know",
            ),
            output: String::from_str(
                "I was thinking we should meet on Wednesday at 2 PM to go over the project proposal.",
            ),
        },
    );
    v.push(
        FewShotExample {
            input: String::from_str(
                "okay so for the grocery store I need um bananas oranges apples and oh also we need like milk and bread and uh some eggs I think",
            ),
            output: String::from_str(
                "Grocery list:\n- Bananas\n- Oranges\n- Apples\n- Milk\n- Bread\n- Eggs",
            ),
        },
    );
    v.push(
        FewShotExample {
            input: String::from_str(
                "so basically to set up the project you first need to um clone the repo and then you install the dependencies with npm install and then uh you need to create a dot env file with your API key and finally just run npm run dev to start it",
            ),
            output: String::from_str(
                "To set up the project:\n1. Clone the repo\n2. Install dependencies with `npm install`\n3. Create a `.env` file with your API key\n4. Run `npm run dev` to start it",
            ),
        },
    );
    v.push(
        FewShotExample {
            input: String::from_str(
                "so the meeting went really well um we decided to launch the new feature next month and uh Sarah is going to handle the design and Mike will do the backend and oh we also need to hire like two more engineers for the mobile team because they're basically swamped right now",
            ),
            output: String::from_str(
                "The meeting went really well. We decided to launch the new feature next month. Sarah is going to handle the design and Mike will do the backend.\n\nWe also need to hire two more engineers for the mobile team because they're swamped right now.",
            ),
        },
    );
    v.push(
        FewShotExample {
            input: String::from_str("The quick brown fox jumped over the lazy dog."),
            output: String::from_str("The quick brown fox jumped over the lazy dog."),
        },
    );
    v
}

impl Default for LlmConfig {
    /// A local Ollama endpoint with the stock prompt and examples.
    fn default() -> (r: Self)
        ensures
            r.endpoint@ == "http://localhost:11434"@,
            r.model@ == "mistral"@,
            r.system_prompt@ == DEFAULT_SYSTEM_PROMPT@,
            r.api_type == ApiType::Ollama,
            default_examples_ok(r.few_shot_examples@),
    {
        LlmConfig {
            endpoint: String::from_str("http://localhost:11434"),
            model: String::from_str("mistral"),
            system_prompt: String::from_str(DEFAULT_SYSTEM_PROMPT),
            api_type: ApiType::Ollama,
            few_shot_examples: default_few_shot_examples(),
        }
    }
}

/// One chat message of a cleanup request.
#[derive(Debug)]
pub struct ChatMessage {
    pub role: String,
    pub content: String,
}

/// A transcript as it is presented to the model: wrapped in
/// `<transcription>` tags.
pub open spec fn tag_wrap(s: Seq<char>) -> Seq<char> {
    "<transcription>"@ + s + "</transcription>"@
}

/// Wrap a transcript in `<transcription>` tags.
fn wrap_transcript(s: &str) -> (r: String)
    ensures
        r@ == tag_wrap(s@),
{
    let mut out = String::from_str("<transcription>");
    out.append(s);
    out.append("</transcription>");
    out
}

/// The first `upto` example pairs stand pairwise in `msgs` after the
/// system prompt: each pair is the tagged input as a user message, then the
/// expected output as an assistant message.
pub open spec fn example_messages_ok(
    msgs: Seq<ChatMessage>,
    examples: Seq<FewShotExample>,
    upto: int,
) -> bool
    decreases upto,
{
    upto <= 0 || {
        &&& example_messages_ok(msgs, examples, upto - 1)
        &&& msgs[2 * upto - 1].role@ == "user"@
        &&& msgs[2 * upto - 1].content@ == tag_wrap(examples[upto - 1].input@)
        &&& msgs[2 * upto].role@ == "assistant"@
        &&& msgs[2 * upto].content@ == examples[upto - 1].output@
    }
}

/// Extending the message list beyond the examples it already holds keeps
/// them standing.
proof fn lemma_example_messages_frame(
    pre: Seq<ChatMessage>,
    post: Seq<ChatMessage>,
    examples: Seq<FewShotExample>,
    upto: int,
)
    requires
        example_messages_ok(pre, examples, upto),
        forall|m: int| 0 <= m < pre.len() ==> post[m] == pre[m],
        0 <= upto,
        2 * upto < pre.len(),
    ensures
        example_messages_ok(post, examples, upto),
    decreases upto,
{
    if upto > 0 {
        lemma_example_messages_frame(pre, post, examples, upto - 1);
        assert(post[2 * upto - 1] == pre[2 * upto - 1]);
        assert(post[2 * upto] == pre[2 * upto]);
    }
}

/// The message list of a cleanup request: the system prompt, the example
/// pairs wrapped in tags, then the transcript to clean, wrapped the same
/// way.
pub fn build_cleanup_messages(config: &LlmConfig, raw_text: &str) -> (msgs: Vec<ChatMessage>)
    ensures
        msgs@.len() == 2 + 2 * config.few_shot_examples@.len(),
        msgs@[0].role@ == "system"@,
        msgs@[0].content@ == config.system_prompt@,
        example_messages_ok(msgs@, config.few_shot_examples@, config.few_shot_examples@.len() as int),
        msgs@[msgs@.len() - 1].role@ == "user"@,
        msgs@[msgs@.len() - 1].content@ == tag_wrap(raw_text@),
{
    let mut msgs: Vec<ChatMessage> = Vec::new();
    msgs.push(
        ChatMessage {
            role: String::from_str("system"),
            content: config.system_prompt.clone(),
        },
    );
    proof {
        assert(example_messages_ok(msgs@, config.few_shot_examples@, 0));
    }
    let mut i: usize = 0;
    while i < config.few_shot_examples.len()
        invariant
            0 <= i <= config.few_shot_examples@.len(),
            msgs@.len() == 1 + 2 * i,
            msgs@[0].role@ == "system"@,
            msgs@[0].content@ == config.system_prompt@,
            example_messages_ok(msgs@, config.few_shot_examples@, i as int),
        decreases config.few_shot_examples@.len() - i,
    {
        let example = &config.few_shot_examples[i];
        let ghost pre = msgs@;
        msgs.push(
            ChatMessage {
                role: String::from_str("user"),
                content: wrap_transcript(example.input.as_str()),
            },
        );
        msgs.push(
            ChatMessage {
                role: String::from_str("assistant"),
                content: example.output.clone(),
            },
        );
        proof {
            assert forall|m: int| 0 <= m < pre.len() implies msgs@[m] == pre[m] by {}
            if i > 0 {
                lemma_example_messages_frame(pre, msgs@, config.few_shot_examples@, i as int);
            } else {
                assert(example_messages_ok(msgs@, config.few_shot_examples@, 0));
            }
            assert(msgs@[2 * (i as int) + 1].role@ == "user"@);
            assert(msgs@[2 * (i as int) + 1].content@ == tag_wrap(
                config.few_shot_examples@[i as int].input@,
            ));
            assert(msgs@[2 * (i as int) + 2].role@ == "assistant"@);
            assert(msgs@[2 * (i as int) + 2].content@
                == config.few_shot_examples@[i as int].output@);
            assert(example_messages_ok(msgs@, config.few_shot_examples@, i as int + 1));
        }
        i = i + 1;
    }
    let ghost pre_final = msgs@;
    msgs.push(
        ChatMessage {
            role: String::from_str("user"),
            content: wrap_transcript(raw_text),
        },
    );
    proof {
        let n_ex = config.few_shot_examples@.len() as int;
        assert forall|m: int| 0 <= m < pre_final.len() implies msgs@[m] == pre_final[m] by {}
        if n_ex > 0 {
            lemma_example_messages_frame(pre_final, msgs@, config.few_shot_examples@, n_ex);
        }
    }
    msgs
}

/// The URL a cleanup request is posted to: the endpoint without trailing
/// slashes, then the path the API shape expects.
pub fn chat_url(endpoint: &str, api_type: &ApiType) -> (r: String)
    ensures
        *api_type is Ollama ==> r@ == strip_end_spec(endpoint@, '/') + "/api/chat"@,
        *api_type is OpenAI ==> r@ == strip_end_spec(endpoint@, '/') + "/v1/chat/completions"@,
{
    let base = strip_end(endpoint, '/');
    let mut out = base.to_owned();
    match api_type {
        ApiType::Ollama => out.append("/api/chat"),
        ApiType::OpenAI => out.append("/v1/chat/completions"),
    }
    out
}

/// A closing tag `</name>` stands in `t` at position `j`.
pub open spec fn is_close_tag_at(t: Seq<char>, name: Seq<char>, j: int) -> bool {
    &&& 0 <= j
    &&& j + name.len() + 3 <= t.len()
    &&& t[j] == '<'
    &&& t[j + 1] == '/'
    &&& t.subrange(j + 2, j + 2 + name.len()) == name
    &&& t[j + 2 + name.len()] == '>'
}

/// Position of the first closing tag `</name>` at or after `from`, or -1.
pub open spec fn find_close_tag_spec(t: Seq<char>, name: Seq<char>, from: int) -> int
    decreases t.len() - from,
{
    if from < 0 || from >= t.len() {
        -1
    } else if is_close_tag_at(t, name, from) {
        from
    } else {
        find_close_tag_spec(t, name, from + 1)
    }
}

/// `find_close_tag_spec` finds the first closing tag at or after `from`.
proof fn lemma_find_close_tag(t: Seq<char>, name: Seq<char>, from: int)
    requires
        0 <= from,
    ensures
        find_close_tag_spec(t, name, from) == -1 ==> forall|k: int|
            from <= k < t.len() ==> !is_close_tag_at(t, name, k),
        find_close_tag_spec(t, name, from) != -1 ==> {
            &&& from <= find_close_tag_spec(t, name, from) < t.len()
            &&& is_close_tag_at(t, name, find_close_tag_spec(t, name, from))
            &&& forall|k: int|
                from <= k < find_close_tag_spec(t, name, from) ==> !is_close_tag_at(t, name, k)
        },
    decreases t.len() - from,
{
    if from < t.len() && !is_close_tag_at(t, name, from) {
        lemma_find_close_tag(t, name, from + 1);
    }
}

/// Whether `</name>` stands at `j`, where the name is `s[ns..ne]`.
fn close_tag_matches_at(s: &str, ns: usize, ne: usize, j: usize) -> (r: bool)
    requires
        ns <= ne <= s@.len(),
    ensures
        r == is_close_tag_at(s@, s@.subrange(ns as int, ne as int), j as int),
{
    let n = s.unicode_len();
    let nl = ne - ns;
    let ghost name = s@.subrange(ns as int, ne as int);
    if (j as u128) + (nl as u128) + 3 > (n as u128) {
        return false;
    }
    if s.get_char(j) != '<' {
        return false;
    }
    if s.get_char(j + 1) != '/' {
        return false;
    }
    let mut k: usize = 0;
    while k < nl
        invariant
            n == s@.len(),
            ns <= ne <= n,
            nl == ne - ns,
            name == s@.subrange(ns as int, ne as int),
            j + nl + 3 <= n,
            0 <= k <= nl,
            forall|m: int| 0 <= m < k ==> #[trigger] s@[j + 2 + m] == s@[ns + m],
        decreases nl - k,
    {
        if s.get_char(j + 2 + k) != s.get_char(ns + k) {
            proof {
                assert(s@.subrange(j as int + 2, j as int + 2 + nl as int)[k as int] == s@[j + 2
                    + k]);
                assert(name[k as int] == s@[ns + k]);
            }
            return false;
        }
        k = k + 1;
    }
    if s.get_char(j + 2 + nl) != '>' {
        return false;
    }
    proof {
        assert forall|m: int| 0 <= m < nl implies s@.subrange(
            j as int + 2,
            j as int + 2 + nl as int,
        )[m] == name[m] by {
            assert(s@[j + 2 + m] == s@[ns + m]);
        }
        assert(s@.subrange(j as int + 2, j as int + 2 + nl as int) =~= name);
    }
    true
}

/// Find the first closing tag `</name>` at or after `from`, where the name
/// is `s[ns..ne]`.
fn find_close_tag(s: &str, ns: usize, ne: usize, from: usize) -> (r: Option<usize>)
    requires
        ns <= ne <= s@.len(),
    ensures
        match r {
            Some(j) => from <= j && j == find_close_tag_spec(
                s@,
                s@.subrange(ns as int, ne as int),
                from as int,
            ),
            None => find_close_tag_spec(s@, s@.subrange(ns as int, ne as int), from as int)
                == -1,
        },
{
    let n = s.unicode_len();
    let ghost name = s@.subrange(ns as int, ne as int);
    let mut j: usize = from;
    while j < n
        invariant
            n == s@.len(),
            ns <= ne <= n,
            name == s@.subrange(ns as int, ne as int),
            from <= j,
            forall|k: int| from <= k < j ==> !is_close_tag_at(s@, name, k),
        decreases n - j,
    {
        if close_tag_matches_at(s, ns, ne, j) {
            proof {
                lemma_find_close_tag(s@, name, from as int);
                let spec_j = find_close_tag_spec(s@, name, from as int);
                if spec_j == -1 {
                    assert(!is_close_tag_at(s@, name, j as int));
                }
            }
            return Some(j);
        }
        j = j + 1;
    }
    proof {
        lemma_find_close_tag(s@, name, from as int);
    }
    None
}

/// What a model reply is reduced to.  Replies sometimes come wrapped in an
/// XML-style tag pair mimicking the `<transcription>` tags of the request;
/// the content of the first such pair, trimmed, is the answer, and a reply
/// without a complete tag pair stands as it is.
pub open spec fn extract_from_tags_spec(t: Seq<char>) -> Seq<char> {
    let o = find_char_spec(t, '<', 0);
    if o == -1 {
        t
    } else {
        let e = find_char_spec(t, '>', o + 1);
        if e == -1 {
            t
        } else {
            let content = t.subrange(o + 1, e);
            if content.len() == 0 || content[0] == '/' {
                t
            } else {
                let name = content.subrange(0, name_len(content));
                if name.len() == 0 {
                    t
                } else {
                    let j = find_close_tag_spec(t, name, e + 1);
                    if j == -1 {
                        t
                    } else {
                        trim_spec(t.subrange(e + 1, j))
                    }
                }
            }
        }
    }
}

/// Reduce a model reply: the trimmed content of the first complete tag pair,
/// or the reply unchanged when no such pair exists.
pub fn extract_from_tags(text: &str) -> (r: String)
    ensures
        r@ == extract_from_tags_spec(text@),
{
    let n = text.unicode_len();
    proof {
        lemma_find_char(text@, '<', 0);
    }
    let o = match find_char(text, '<', 0) {
        Some(o) => o,
        None => {
            return text.to_owned();
        },
    };
    proof {
        lemma_find_char(text@, '>', o as int + 1);
    }
    let e = match find_char(text, '>', o + 1) {
        Some(e) => e,
        None => {
            return text.to_owned();
        },
    };
    let ghost content = text@.subrange(o as int + 1, e as int);
    if e == o + 1 {
        return text.to_owned();
    }
    if text.get_char(o + 1) == '/' {
        proof {
            assert(content[0] == text@[o as int + 1]);
        }
        return text.to_owned();
    }
    proof {
        assert(content[0] == text@[o as int + 1]);
        lemma_name_len(content);
    }
    let mut k: usize = 0;
    loop
        invariant
            n == text@.len(),
            o + 1 <= e <= n,
            content == text@.subrange(o as int + 1, e as int),
            0 <= k <= content.len(),
            forall|m: int|
                0 <= m < k ==> !is_wspace(#[trigger] content[m]) && content[m] != '/',
        ensures
            k == name_len(content),
        decreases content.len() - k,
    {
        if o + 1 + k >= e {
            proof {
                lemma_name_len(content);
                if name_len(content) < k {
                    assert(is_wspace(content[name_len(content)]) || content[name_len(content)]
                        == '/');
                }
                assert(k == name_len(content));
            }
            break;
        }
        let c = text.get_char(o + 1 + k);
        proof {
            assert(content[k as int] == text@[o as int + 1 + k]);
        }
        if is_space_char(c) || c == '/' {
            proof {
                lemma_name_len(content);
                if name_len(content) < k {
                    assert(is_wspace(content[name_len(content)]) || content[name_len(content)]
                        == '/');
                }
                if name_len(content) > k {
                    assert(!is_wspace(content[k as int]) && content[k as int] != '/');
                }
                assert(k == name_len(content));
            }
            break;
        }
        k = k + 1;
    }
    if k == 0 {
        return text.to_owned();
    }
    let ghost name = content.subrange(0, k as int);
    proof {
        assert(name =~= text@.subrange(o as int + 1, o as int + 1 + k as int));
    }
    let j = match find_close_tag(text, o + 1, o + 1 + k, e + 1) {
        Some(j) => j,
        None => {
            return text.to_owned();
        },
    };
    proof {
        lemma_find_close_tag(text@, name, e as int + 1);
        assert(is_close_tag_at(text@, name, j as int));
    }
    let inner = text.substring_char(e + 1, j);
    let trimmed = trim(inner);
    trimmed.to_owned()
}

} // verus!
