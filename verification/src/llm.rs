//! Assistant-side data: chat messages, provider configuration, and the
//! pure text helpers the chat panel uses.
use vstd::prelude::*;
use vstd::string::{StrSliceExecFns, StringExecFns};

use crate::text::{chars_to_string, dec_digits, str_to_chars, trim_chars, trim_spec, trim_start_spec};

verus! {

/// Who authored a message.
#[derive(Debug, Clone, PartialEq, Eq, Structural)]
pub enum Role {
    User,
    Assistant,
    System,
}

/// A chat message as shown in the panel.
#[derive(Debug, Clone)]
pub struct Message {
    pub role: Role,
    pub content: String,
}

impl Message {
    pub fn user(content: String) -> (m: Message)
        ensures
            m.role == Role::User,
            m.content == content,
    {
        Message { role: Role::User, content }
    }

    pub fn assistant(content: String) -> (m: Message)
        ensures
            m.role == Role::Assistant,
            m.content == content,
    {
        Message { role: Role::Assistant, content }
    }

    pub fn system(content: String) -> (m: Message)
        ensures
            m.role == Role::System,
            m.content == content,
    {
        Message { role: Role::System, content }
    }
}

/// Which assistant backend to talk to, and with what parameters.
#[derive(Debug, Clone)]
pub struct LLMConfig {
    pub provider: String,
    pub model: String,
    /// An API key given directly; takes precedence over the environment.
    pub api_key: Option<String>,
    /// The environment variable consulted when no key is given directly.
    pub api_key_env: String,
    pub ollama_host: String,
    pub ollama_model: String,
    pub system_prompt: Option<String>,
}

/// The standing instructions handed to the assistant at session start.
pub fn default_system_prompt() -> (s: String)
    ensures
        s@.len() > 0,
{
    let s = String::from_str(
        "You are Sheesh, an expert SSH and Linux assistant embedded in a terminal manager. \
You help users understand and manage their remote SSH sessions. \
When the user shares terminal output, analyse it and provide clear, actionable guidance. \
Prefer concise answers; use shell code blocks for any commands you suggest. \
You can run commands directly on the user's remote session via the run_command tool — \
always explain what a command does before proposing to run it.",
    );
    proof {
        reveal_strlit(
            "You are Sheesh, an expert SSH and Linux assistant embedded in a terminal manager. \
You help users understand and manage their remote SSH sessions. \
When the user shares terminal output, analyse it and provide clear, actionable guidance. \
Prefer concise answers; use shell code blocks for any commands you suggest. \
You can run commands directly on the user's remote session via the run_command tool — \
always explain what a command does before proposing to run it.",
        );
    }
    s
}

impl Default for LLMConfig {
    fn default() -> (c: LLMConfig)
        ensures
            c.provider@ == "anthropic"@,
            c.model@ == "latest"@,
            (c.api_key is None),
            c.api_key_env@ == "ANTHROPIC_API_KEY"@,
            c.ollama_host@ == "http://localhost:11434"@,
            c.ollama_model@ == "llama3"@,
            (c.system_prompt is Some),
    {
        LLMConfig {
            provider: String::from_str("anthropic"),
            model: String::from_str("latest"),
            api_key: Option::None,
            api_key_env: String::from_str("ANTHROPIC_API_KEY"),
            ollama_host: String::from_str("http://localhost:11434"),
            ollama_model: String::from_str("llama3"),
            system_prompt: Option::Some(default_system_prompt()),
        }
    }
}

/// The Anthropic backend: an API key and a model name.
#[derive(Debug)]
pub struct AnthropicProvider {
    pub api_key: String,
    pub model: String,
}

impl AnthropicProvider {
    pub fn new(api_key: String, model: String) -> (p: AnthropicProvider)
        ensures
            p.api_key == api_key,
            p.model == model,
    {
        AnthropicProvider { api_key, model }
    }

    pub fn name(&self) -> (r: &'static str)
        ensures
            r@ == "Anthropic"@,
    {
        "Anthropic"
    }
}

/// A local Ollama backend: a host and a model name.
#[derive(Debug)]
pub struct OllamaProvider {
    pub host: String,
    pub model: String,
}

impl OllamaProvider {
    pub fn new(host: String, model: String) -> (p: OllamaProvider)
        ensures
            p.host == host,
            p.model == model,
    {
        OllamaProvider { host, model }
    }

    pub fn name(&self) -> (r: &'static str)
        ensures
            r@ == "Ollama"@,
    {
        "Ollama"
    }
}

/// The OpenAI backend: an API key and a model name.
#[derive(Debug)]
pub struct OpenAIProvider {
    pub api_key: String,
    pub model: String,
}

impl OpenAIProvider {
    pub fn new(api_key: String, model: String) -> (p: OpenAIProvider)
        ensures
            p.api_key == api_key,
            p.model == model,
    {
        OpenAIProvider { api_key, model }
    }

    pub fn name(&self) -> (r: &'static str)
        ensures
            r@ == "OpenAI"@,
    {
        "OpenAI"
    }
}

/// A tool-use id of the session's own, so an id the backend reused is
/// never echoed twice; the caller advances the counter.
pub fn unique_tool_id(counter: u64) -> (s: String)
    ensures
        s@ == "local_tool_"@ + dec_digits(counter as int),
{
    let mut s = String::from_str("local_tool_");
    let digits = crate::text::u64_to_string(counter);
    s.append(digits.as_str());
    s
}

/// Whether `p` starts the sequence `s`.
pub open spec fn starts_with(s: Seq<char>, p: Seq<char>) -> bool {
    s.len() >= p.len() && s.subrange(0, p.len() as int) == p
}

/// Whether the characters at `i` match `pat` exactly.
fn match_at(chars: &[char], i: usize, pat: &[char]) -> (r: bool)
    requires
        i + pat@.len() <= chars@.len(),
    ensures
        r == (chars@.subrange(i as int, i + pat@.len()) == pat@),
{
    let n = chars.len();
    let mut k: usize = 0;
    while k < pat.len()
        invariant
            0 <= k <= pat@.len(),
            n == chars@.len(),
            i + pat@.len() <= chars@.len(),
            forall|m: int| 0 <= m < k ==> chars@[i + m] == pat@[m],
        decreases pat@.len() - k,
    {
        if chars[i + k] != pat[k] {
            proof {
                assert(chars@.subrange(i as int, i + pat@.len())[k as int] != pat@[k as int]);
            }
            return false;
        }
        k = k + 1;
    }
    proof {
        assert(chars@.subrange(i as int, i + pat@.len()) =~= pat@);
    }
    true
}

/// Find the first occurrence of `pat` in `chars` at or after `from`.
/// An empty pattern matches immediately at `from`.
pub fn find_seq(chars: &[char], from: usize, pat: &[char]) -> (r: Option<usize>)
    ensures
        (pat@.len() == 0 ==> r == Option::Some(from)),
        pat@.len() > 0 ==> (match r {
            Option::Some(i) => from <= i && i + pat@.len() <= chars@.len() && chars@.subrange(
                i as int,
                i + pat@.len(),
            ) == pat@ && forall|j: int|
                from <= j < i ==> #[trigger] chars@.subrange(j, j + pat@.len()) != pat@,
            Option::None => forall|j: int|
                from <= j && j + pat@.len() <= chars@.len() ==> #[trigger] chars@.subrange(
                    j,
                    j + pat@.len(),
                ) != pat@,
        }),
{
    let sl = pat.len();
    if sl == 0 {
        return Option::Some(from);
    }
    if chars.len() < sl || from > chars.len() - sl {
        return Option::None;
    }
    let last = chars.len() - sl;
    let mut i = from;
    while i <= last
        invariant
            from <= i <= last + 1,
            last + pat@.len() == chars@.len(),
            last + sl <= usize::MAX,
            sl == pat@.len(),
            pat@.len() >= 1,
            forall|j: int| from <= j < i ==> #[trigger] chars@.subrange(j, j + pat@.len()) != pat@,
        decreases last + 1 - i,
    {
        if match_at(chars, i, pat) {
            return Option::Some(i);
        }
        i = i + 1;
    }
    Option::None
}

/// Find the first occurrence of `target` in `chars` at or after `from`.
pub fn find_char_from(chars: &[char], from: usize, target: char) -> (r: Option<usize>)
    requires
        from <= chars@.len(),
    ensures
        (match r {
            Option::Some(i) => from <= i < chars@.len() && chars@[i as int] == target && forall|
                j: int,
            | from <= j < i ==> chars@[j] != target,
            Option::None => forall|j: int| from <= j < chars@.len() ==> chars@[j] != target,
        }),
{
    let mut i = from;
    while i < chars.len()
        invariant
            from <= i <= chars@.len(),
            forall|j: int| from <= j < i ==> chars@[j] != target,
        decreases chars@.len() - i,
    {
        if chars[i] == target {
            return Option::Some(i);
        }
        i = i + 1;
    }
    Option::None
}

/// A line with a trailing carriage return dropped.
pub open spec fn strip_cr(l: Seq<char>) -> Seq<char> {
    if l.len() > 0 && l.last() == '\r' {
        l.drop_last()
    } else {
        l
    }
}

/// The lines of a text, split at newlines, each without a trailing
/// carriage return; text after the last newline is a final line, and a
/// trailing newline adds none.
pub open spec fn lines_loop(s: Seq<char>, cur: Seq<char>, acc: Seq<Seq<char>>) -> Seq<Seq<char>>
    decreases s.len(),
{
    if s.len() == 0 {
        if cur.len() > 0 {
            acc.push(strip_cr(cur))
        } else {
            acc
        }
    } else if s[0] == '\n' {
        lines_loop(s.drop_first(), Seq::empty(), acc.push(strip_cr(cur)))
    } else {
        lines_loop(s.drop_first(), cur.push(s[0]), acc)
    }
}

pub open spec fn lines_of(s: Seq<char>) -> Seq<Seq<char>> {
    lines_loop(s, Seq::empty(), Seq::empty())
}

/// Split a text into its lines.
pub fn split_text_lines(s: &str) -> (r: Vec<Vec<char>>)
    ensures
        r.deep_view() == lines_of(s@),
{
    let chars = str_to_chars(s);
    let mut out: Vec<Vec<char>> = Vec::new();
    let mut seg: Vec<char> = Vec::new();
    let mut i: usize = 0;
    proof {
        assert(chars@.skip(0) =~= chars@);
        assert(out.deep_view() =~= Seq::<Seq<char>>::empty());
    }
    while i < chars.len()
        invariant
            0 <= i <= chars.len(),
            chars@ == s@,
            lines_of(s@) == lines_loop(chars@.skip(i as int), seg@, out.deep_view()),
        decreases chars.len() - i,
    {
        let c = chars[i];
        proof {
            assert(chars@.skip(i as int)[0] == chars@[i as int]);
            assert(chars@.skip(i as int).drop_first() =~= chars@.skip(i + 1));
        }
        if c == '\n' {
            let ghost segv = seg@;
            if seg.len() > 0 && seg[seg.len() - 1] == '\r' {
                let popped = seg.pop();
                proof {
                    assert(seg@ =~= strip_cr(segv));
                }
            }
            let ghost dv0 = out.deep_view();
            let ghost sv = seg@;
            out.push(seg);
            proof {
                assert(out.deep_view() =~~= dv0.push(sv));
                assert(sv == strip_cr(segv));
            }
            seg = Vec::new();
        } else {
            seg.push(c);
        }
        i = i + 1;
    }
    proof {
        assert(chars@.skip(i as int) =~= Seq::<char>::empty());
    }
    if seg.len() > 0 {
        let ghost segv = seg@;
        if seg[seg.len() - 1] == '\r' {
            let popped = seg.pop();
            proof {
                assert(seg@ =~= strip_cr(segv));
            }
        }
        let ghost dv0 = out.deep_view();
        let ghost sv = seg@;
        out.push(seg);
        proof {
            assert(out.deep_view() =~~= dv0.push(sv));
            assert(sv == strip_cr(segv));
        }
    }
    out
}

/// How many visual rows one line takes at the given width: one when it is
/// empty or the width is zero, else its character count divided by the
/// width, rounded up.
pub open spec fn row_count_of(seg: Seq<char>, w: int) -> int {
    if w == 0 {
        1
    } else if seg.len() == 0 {
        1
    } else {
        (seg.len() + w - 1) / w
    }
}

pub open spec fn rows_sum(segs: Seq<Seq<char>>, w: int) -> int
    decreases segs.len(),
{
    if segs.len() == 0 {
        0
    } else {
        rows_sum(segs.drop_last(), w) + row_count_of(segs.last(), w)
    }
}

/// The visual rows a text occupies when wrapped to `width` columns, at
/// least one.
pub open spec fn spec_wrapped_line_count(s: Seq<char>, width: int) -> int {
    let total = rows_sum(lines_of(s), width);
    if total < 1 {
        1
    } else {
        total
    }
}

/// Count the visual rows `text` occupies when wrapped to `width` columns.
/// Each newline starts a new logical line; long lines count as several
/// rows.
pub fn wrapped_line_count(text: &str, width: usize) -> (count: usize)
    requires
        text@.len() < usize::MAX,
    ensures
        count == spec_wrapped_line_count(text@, width as int),
{
    let lines = split_text_lines(text);
    let ghost lv = lines.deep_view();
    let mut total: usize = 0;
    let mut i: usize = 0;
    let ghost n = text@.len();
    proof {
        assert(lv.take(0) =~= Seq::<Seq<char>>::empty());
        lemma_lines_chars_bound(text@, Seq::empty(), Seq::empty());
    }
    while i < lines.len()
        invariant
            0 <= i <= lines@.len(),
            lv == lines.deep_view(),
            total == rows_sum(lv.take(i as int), width as int),
            total <= sum_lens(lv.take(i as int)) + i,
            sum_lens(lv) + lv.len() <= text@.len() + 1,
            text@.len() < usize::MAX,
        decreases lines@.len() - i,
    {
        proof {
            assert(lv.take(i + 1).drop_last() =~= lv.take(i as int));
            assert(lv.take(i + 1).last() == lv[i as int]);
            assert(lv[i as int] =~= lines@[i as int]@);
            lemma_sum_lens_take(lv, i as int);
        }
        let line = &lines[i];
        let len = line.len();
        let rows: usize = if width == 0 {
            1
        } else if len == 0 {
            1
        } else {
            proof {
                assert((len - 1) / (width as int) + 1 == (len + width - 1) / (width as int))
                    by (nonlinear_arith)
                    requires
                        len >= 1,
                        width >= 1,
                ;
                assert((len - 1) / (width as int) <= len - 1) by (nonlinear_arith)
                    requires
                        len >= 1,
                        width >= 1,
                ;
            }
            (len - 1) / width + 1
        };
        proof {
            assert(rows == row_count_of(lv[i as int], width as int));
            assert(rows <= lv[i as int].len() + 1);
            assert(total + rows <= sum_lens(lv.take(i + 1)) + i + 1);
            assert(sum_lens(lv.take(i + 1)) <= sum_lens(lv));
            assert(i + 1 <= lv.len());
            assert(total + rows <= text@.len() + 1);
            assert(text@.len() + 1 <= usize::MAX);
            assert(total + rows <= usize::MAX);
        }
        total = total + rows;
        i = i + 1;
    }
    proof {
        assert(lv.take(i as int) =~= lv);
    }
    if total == 0 {
        1
    } else {
        total
    }
}

/// The total character count of a list of lines.
pub open spec fn sum_lens(segs: Seq<Seq<char>>) -> int
    decreases segs.len(),
{
    if segs.len() == 0 {
        0
    } else {
        sum_lens(segs.drop_last()) + segs.last().len()
    }
}

proof fn lemma_sum_lens_take(segs: Seq<Seq<char>>, i: int)
    requires
        0 <= i < segs.len(),
    ensures
        sum_lens(segs.take(i + 1)) == sum_lens(segs.take(i)) + segs[i].len(),
        sum_lens(segs.take(i + 1)) <= sum_lens(segs),
    decreases segs.len() - i,
{
    assert(segs.take(i + 1).drop_last() =~= segs.take(i));
    assert(segs.take(i + 1).last() == segs[i]);
    if i + 1 == segs.len() {
        assert(segs.take(i + 1) =~= segs);
    } else {
        lemma_sum_lens_take(segs, i + 1);
        assert(sum_lens(segs.take(i + 2)) == sum_lens(segs.take(i + 1)) + segs[i + 1].len());
    }
}

/// Every line the splitter yields fits inside the source text: the
/// character counts plus one per line stay within the text's length plus
/// one, and no line ends in a carriage return.
proof fn lemma_lines_chars_bound(s: Seq<char>, cur: Seq<char>, acc: Seq<Seq<char>>)
    ensures
        sum_lens(lines_loop(s, cur, acc)) + lines_loop(s, cur, acc).len() <= sum_lens(acc)
            + acc.len() + cur.len() + s.len() + 1,
    decreases s.len(),
{
    if s.len() == 0 {
        if cur.len() > 0 {
            assert(acc.push(strip_cr(cur)).drop_last() =~= acc);
            assert(strip_cr(cur).len() <= cur.len());
        }
    } else if s[0] == '\n' {
        lemma_lines_chars_bound(s.drop_first(), Seq::empty(), acc.push(strip_cr(cur)));
        assert(acc.push(strip_cr(cur)).drop_last() =~= acc);
        assert(acc.push(strip_cr(cur)).last() == strip_cr(cur));
        assert(sum_lens(acc.push(strip_cr(cur))) == sum_lens(acc) + strip_cr(cur).len());
        assert(strip_cr(cur).len() <= cur.len());
    } else {
        lemma_lines_chars_bound(s.drop_first(), cur.push(s[0]), acc);
    }
}

/// A fence line: after leading whitespace, three backticks.
pub open spec fn is_fence(l: Seq<char>) -> bool {
    starts_with(trim_start_spec(l), seq!['`', '`', '`'])
}

fn is_fence_exec(l: &Vec<char>) -> (r: bool)
    ensures
        r == is_fence(l@),
{
    let n = l.len();
    let mut k: usize = 0;
    proof {
        assert(l@.skip(0) =~= l@);
    }
    while k < n && crate::text::is_whitespace_char(l[k])
        invariant
            0 <= k <= n,
            n == l@.len(),
            trim_start_spec(l@) == trim_start_spec(l@.skip(k as int)),
        decreases n - k,
    {
        proof {
            assert(l@.skip(k as int)[0] == l@[k as int]);
            assert(l@.skip(k as int).drop_first() =~= l@.skip(k + 1));
        }
        k = k + 1;
    }
    proof {
        assert(trim_start_spec(l@.skip(k as int)) == l@.skip(k as int));
    }
    if n - k < 3 {
        return false;
    }
    let hit = l[k] == '`' && l[k + 1] == '`' && l[k + 2] == '`';
    proof {
        let t = l@.skip(k as int);
        assert(t[0] == l@[k as int]);
        assert(t[1] == l@[k + 1]);
        assert(t[2] == l@[k + 2]);
        if hit {
            assert(t.subrange(0, 3) =~= seq!['`', '`', '`']);
        } else {
            assert(t.subrange(0, 3)[0] == t[0]);
            assert(t.subrange(0, 3)[1] == t[1]);
            assert(t.subrange(0, 3)[2] == t[2]);
        }
    }
    hit
}

/// Collecting the fenced code blocks: outside a block a fence opens one;
/// inside, lines gather with their newlines until the closing fence, whose
/// trimmed gathering — when not empty — becomes one block. An unclosed
/// block is discarded.
pub open spec fn ecb_loop(
    lines: Seq<Seq<char>>,
    in_block: bool,
    cur: Seq<char>,
    acc: Seq<Seq<char>>,
) -> Seq<Seq<char>>
    decreases lines.len(),
{
    if lines.len() == 0 {
        acc
    } else {
        let l = lines[0];
        if is_fence(l) {
            if in_block {
                let t = trim_spec(cur);
                ecb_loop(
                    lines.drop_first(),
                    false,
                    Seq::empty(),
                    acc + (if t.len() > 0 {
                        seq![t]
                    } else {
                        Seq::<Seq<char>>::empty()
                    }),
                )
            } else {
                ecb_loop(lines.drop_first(), true, Seq::empty(), acc)
            }
        } else if in_block {
            ecb_loop(lines.drop_first(), true, cur + l + seq!['\n'], acc)
        } else {
            ecb_loop(lines.drop_first(), false, cur, acc)
        }
    }
}

/// The fenced code blocks of a text.
pub open spec fn spec_extract_code_blocks(s: Seq<char>) -> Seq<Seq<char>> {
    ecb_loop(lines_of(s), false, Seq::empty(), Seq::empty())
}

/// Extract all fenced code block contents from a response text.
pub fn extract_code_blocks(text: &str) -> (blocks: Vec<String>)
    ensures
        blocks.deep_view() == spec_extract_code_blocks(text@),
{
    let lines = split_text_lines(text);
    let ghost lv = lines.deep_view();
    let mut blocks: Vec<String> = Vec::new();
    let mut in_block: bool = false;
    let mut cur: Vec<char> = Vec::new();
    let mut i: usize = 0;
    proof {
        assert(lv.skip(0) =~= lv);
        assert(blocks.deep_view() =~= Seq::<Seq<char>>::empty());
        assert(cur@ =~= Seq::<char>::empty());
    }
    while i < lines.len()
        invariant
            0 <= i <= lines.len(),
            lv == lines.deep_view(),
            spec_extract_code_blocks(text@) == ecb_loop(
                lv.skip(i as int),
                in_block,
                cur@,
                blocks.deep_view(),
            ),
        decreases lines.len() - i,
    {
        proof {
            assert(lv.skip(i as int)[0] == lv[i as int]);
            assert(lv.skip(i as int).drop_first() =~= lv.skip(i + 1));
            assert(lv[i as int] =~= lines@[i as int]@);
        }
        if is_fence_exec(&lines[i]) {
            if in_block {
                let t = trim_chars(&cur);
                if t.len() > 0 {
                    let ghost dv0 = blocks.deep_view();
                    let piece = chars_to_string(&t);
                    let ghost pv = piece@;
                    blocks.push(piece);
                    proof {
                        assert(blocks.deep_view() =~~= dv0.push(pv));
                        assert(blocks.deep_view() =~~= dv0 + seq![pv]);
                    }
                } else {
                    proof {
                        assert(blocks.deep_view() + Seq::<Seq<char>>::empty()
                            =~= blocks.deep_view());
                    }
                }
                in_block = false;
                cur = Vec::new();
            } else {
                in_block = true;
                cur = Vec::new();
            }
        } else if in_block {
            let ghost cv = cur@;
            let mut k: usize = 0;
            let line = &lines[i];
            proof {
                assert(cv + lv[i as int].take(0) =~= cv);
            }
            while k < line.len()
                invariant
                    0 <= k <= line@.len(),
                    line@ == lv[i as int],
                    cur@ == cv + lv[i as int].take(k as int),
                decreases line@.len() - k,
            {
                cur.push(line[k]);
                proof {
                    assert(lv[i as int].take(k + 1) =~= lv[i as int].take(k as int).push(
                        line@[k as int],
                    ));
                    assert(cur@ =~= cv + lv[i as int].take(k + 1));
                }
                k = k + 1;
            }
            cur.push('\n');
            proof {
                assert(lv[i as int].take(k as int) =~= lv[i as int]);
                assert(cur@ =~= cv + lv[i as int] + seq!['\n']);
            }
        }
        i = i + 1;
    }
    proof {
        assert(lv.skip(i as int) =~= Seq::<Seq<char>>::empty());
    }
    blocks
}

pub open spec fn prefix_you() -> Seq<char> {
    seq!['Y', 'o', 'u', ':', ' ']
}

pub open spec fn prefix_assistant_label() -> Seq<char> {
    seq!['A', 's', 's', 'i', 's', 't', 'a', 'n', 't', ':', ' ']
}

pub open spec fn prefix_system_label() -> Seq<char> {
    seq!['S', 'y', 's', 't', 'e', 'm', ':', ' ']
}

pub open spec fn prefix_indent() -> Seq<char> {
    seq![' ', ' ', ' ', ' ', ' ', ' ']
}

/// The raw content of a rendered history line, with the role label or the
/// continuation indent stripped.
pub open spec fn spec_line_content(s: Seq<char>) -> Seq<char> {
    if starts_with(s, prefix_you()) {
        s.skip(5)
    } else if starts_with(s, prefix_assistant_label()) {
        s.skip(11)
    } else if starts_with(s, prefix_system_label()) {
        s.skip(8)
    } else if starts_with(s, prefix_indent()) {
        s.skip(6)
    } else {
        s
    }
}

pub fn starts_with_chars(chars: &[char], pat: &[char]) -> (r: bool)
    ensures
        r == starts_with(chars@, pat@),
{
    if chars.len() < pat.len() {
        return false;
    }
    match_at(chars, 0, pat)
}

/// Strip the role label or continuation indent from a rendered history
/// line.
pub fn line_content(text: &str) -> (r: String)
    ensures
        r@ == spec_line_content(text@),
{
    let chars = crate::text::str_to_chars(text);
    let mut you: Vec<char> = Vec::new();
    you.push('Y');
    you.push('o');
    you.push('u');
    you.push(':');
    you.push(' ');
    proof {
        assert(you@ =~= prefix_you());
    }
    let mut assistant_label: Vec<char> = Vec::new();
    assistant_label.push('A');
    assistant_label.push('s');
    assistant_label.push('s');
    assistant_label.push('i');
    assistant_label.push('s');
    assistant_label.push('t');
    assistant_label.push('a');
    assistant_label.push('n');
    assistant_label.push('t');
    assistant_label.push(':');
    assistant_label.push(' ');
    proof {
        assert(assistant_label@ =~= prefix_assistant_label());
    }
    let mut system_label: Vec<char> = Vec::new();
    system_label.push('S');
    system_label.push('y');
    system_label.push('s');
    system_label.push('t');
    system_label.push('e');
    system_label.push('m');
    system_label.push(':');
    system_label.push(' ');
    proof {
        assert(system_label@ =~= prefix_system_label());
    }
    let mut indent: Vec<char> = Vec::new();
    let mut k: usize = 0;
    while k < 6
        invariant
            0 <= k <= 6,
            indent@ =~= prefix_indent().take(k as int),
        decreases 6 - k,
    {
        indent.push(' ');
        proof {
            assert(indent@ =~= prefix_indent().take(k + 1));
        }
        k = k + 1;
    }
    proof {
        assert(prefix_indent().take(6) =~= prefix_indent());
    }
    let n = chars.len();
    let strip: usize = if starts_with_chars(chars.as_slice(), you.as_slice()) {
        5
    } else if starts_with_chars(chars.as_slice(), assistant_label.as_slice()) {
        11
    } else if starts_with_chars(chars.as_slice(), system_label.as_slice()) {
        8
    } else if starts_with_chars(chars.as_slice(), indent.as_slice()) {
        6
    } else {
        0
    };
    let mut out: Vec<char> = Vec::new();
    let mut i = strip;
    proof {
        assert(out@ =~= chars@.skip(strip as int).take(0));
    }
    while i < n
        invariant
            strip <= i <= n,
            n == chars@.len(),
            out@ =~= chars@.skip(strip as int).take(i - strip),
        decreases n - i,
    {
        out.push(chars[i]);
        proof {
            assert(chars@.skip(strip as int)[i - strip] == chars@[i as int]);
            assert(out@ =~= chars@.skip(strip as int).take(i + 1 - strip));
        }
        i = i + 1;
    }
    proof {
        assert(chars@.skip(strip as int).take(n - strip) =~= chars@.skip(strip as int));
        if strip == 0 {
            assert(chars@.skip(0) =~= chars@);
        }
    }
    crate::text::chars_to_string(&out)
}

} // verus!
