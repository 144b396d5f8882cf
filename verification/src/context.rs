//! The context of a request: what a model is shown, how large it is, and how an
//! old conversation is cut down to fit.
use vstd::prelude::*;

use crate::config;
use crate::config::EnvVar;
use crate::json;
use crate::provider;
use crate::provider::{Message, MessageView, Response, Role};
use crate::text;

verus! {

pub const DEFAULT_SYSTEM_PROMPT: &'static str =
    "你是一个个人 AI 编码 Agent。先理解任务，再按需调用工具；工具失败时根据错误调整方案，先修正根因再重试，不要在同一失败上无变化地循环；任务完成后给出简洁、可核验的最终回答。面对“给我写一个前端”这类未指定技术栈的请求，优先沿用当前项目已有技术栈；没有现有栈时默认创建可直接打开的原生 HTML/CSS/JavaScript 页面，并明确说明这个假设。开始写入嵌套路径前确保父目录存在，优先使用工具提供的目录创建能力；如果工具报告路径不存在，立即创建目录并重试一次。面对需要三个或更多步骤的复杂任务，先调用 plan 的 set 制定计划，开始和完成每一步时用 update 更新状态，必要时用 add 调整；简单单步任务不要使用 plan，避免形式主义。若动态上下文提供了命中的技能正文，应把它作为当前任务的工作方法；未命中的技能只有索引，不要假装已读取其正文。";

pub const SUMMARY_PROMPT: &'static str =
    "把给定的早期对话压缩成简短事实摘要。保留用户目标、关键决策、文件改动、工具结果、未完成事项；不要虚构。只输出摘要。";

pub const DEFAULT_TOKEN_BUDGET: usize = 32_000;

pub const DEFAULT_RECENT_MESSAGES: usize = 12;

pub const MAX_PROJECT_RULE_BYTES: usize = 65_536;

/// How often summaries are summarised again before the text is cut.
pub const MAX_SUMMARY_DEPTH: usize = 8;

/// Chinese, Japanese and Korean ideographs, by code range.
pub open spec fn cjk(c: char) -> bool {
    let u = c as u32;
    0x3400 <= u <= 0x4DBF || 0x4E00 <= u <= 0x9FFF || 0xF900 <= u <= 0xFAFF
}

/// Tests for an ideograph.
pub fn is_cjk(character: char) -> (r: bool)
    ensures
        r == cjk(character),
{
    let u: u32 = character as u32;
    (0x3400 <= u && u <= 0x4DBF) || (0x4E00 <= u && u <= 0x9FFF) || (0xF900 <= u && u <= 0xFAFF)
}

/// How many ideographs a text holds.
pub open spec fn cjk_count(s: Seq<char>) -> nat
    decreases s.len(),
{
    if s.len() == 0 {
        0
    } else {
        cjk_count(s.drop_last()) + if cjk(s.last()) {
            1nat
        } else {
            0nat
        }
    }
}

/// The estimate for so many ideographs and so many other characters: two tokens for
/// three of the first, one for four of the others, both rounded up. The doubled
/// count does not pass the highest machine number.
pub open spec fn token_estimate(ideographs: nat, others: nat) -> nat {
    let doubled: nat = if 2 * ideographs > usize::MAX {
        usize::MAX as nat
    } else {
        2 * ideographs
    };
    (doubled + 2) / 3 + (others + 3) / 4
}

/// The estimated tokens of a text.
pub open spec fn text_tokens(s: Seq<char>) -> nat {
    token_estimate(cjk_count(s), (s.len() - cjk_count(s)) as nat)
}

fn estimate(ideographs: usize, others: usize) -> (r: usize)
    ensures
        r == token_estimate(ideographs as nat, others as nat),
{
    let doubled: usize = if ideographs > usize::MAX / 2 {
        usize::MAX
    } else {
        ideographs * 2
    };
    let a: usize = doubled / 3 + (if doubled % 3 > 0 {
        1usize
    } else {
        0usize
    });
    let b: usize = others / 4 + (if others % 4 > 0 {
        1usize
    } else {
        0usize
    });
    a + b
}

/// Estimates the tokens of a text.
pub fn estimate_text_tokens(s: &str) -> (r: usize)
    ensures
        r == text_tokens(s@),
{
    let v = text::chars_of(s);
    let mut ideographs: usize = 0;
    let mut others: usize = 0;
    let mut i: usize = 0;
    assert(v@.take(0) =~= Seq::<char>::empty());
    while i < v.len()
        invariant
            i <= v@.len(),
            ideographs == cjk_count(v@.take(i as int)),
            ideographs + others == i,
        decreases v@.len() - i,
    {
        proof {
            assert(v@.take(i + 1).drop_last() =~= v@.take(i as int));
        }
        if is_cjk(v[i]) {
            ideographs = ideographs + 1;
        } else {
            others = others + 1;
        }
        i = i + 1;
    }
    assert(v@.take(i as int) =~= s@);
    estimate(ideographs, others)
}

proof fn lemma_cjk_bound(s: Seq<char>)
    ensures
        cjk_count(s) <= s.len(),
    decreases s.len(),
{
    if s.len() > 0 {
        lemma_cjk_bound(s.drop_last());
    }
}

proof fn lemma_cjk_joined(a: Seq<char>, b: Seq<char>)
    ensures
        cjk_count(a + b) == cjk_count(a) + cjk_count(b),
    decreases b.len(),
{
    if b.len() == 0 {
        assert(a + b =~= a);
    } else {
        assert((a + b).drop_last() =~= a + b.drop_last());
        assert((a + b).last() == b.last());
        lemma_cjk_joined(a, b.drop_last());
    }
}

/// Two tokens for three ideographs and one for four other characters, each rounded up: a
/// text costs nothing only where it is empty, two texts together cost no less than either
/// and no more than both, and their order makes no difference.
pub proof fn law_estimates_add_up(a: Seq<char>, b: Seq<char>)
    ensures
        2 * cjk_count(a) <= usize::MAX ==> text_tokens(a) == (2 * cjk_count(a) + 2) / 3 + (a.len()
            - cjk_count(a) + 3) / 4,
        text_tokens(a) == 0 <==> a.len() == 0,
        text_tokens(a) <= text_tokens(a + b),
        text_tokens(b) <= text_tokens(a + b),
        text_tokens(a + b) <= text_tokens(a) + text_tokens(b),
        text_tokens(a + b) == text_tokens(b + a),
{
    lemma_cjk_bound(a);
    lemma_cjk_bound(b);
    lemma_cjk_joined(a, b);
    lemma_cjk_joined(b, a);
}

/// The estimated tokens of one message: its text, its tool calls as JSON, its
/// images, and a fixed part.
pub open spec fn message_tokens(m: MessageView) -> nat {
    let content = match m.content {
        Some(c) => text_tokens(c),
        None => 0,
    };
    let images: nat = if m.image_urls.len() * 384 > usize::MAX {
        usize::MAX as nat
    } else {
        m.image_urls.len() * 384
    };
    content + text_tokens(json::json_text_of(provider::calls_json(m.tool_calls))) + images + 6
}

/// The estimated tokens of a conversation.
pub open spec fn conversation_tokens(messages: Seq<MessageView>) -> nat
    decreases messages.len(),
{
    if messages.len() == 0 {
        0
    } else {
        conversation_tokens(messages.drop_last()) + message_tokens(messages.last())
    }
}

fn add_up(a: Option<usize>, b: usize) -> (r: Option<usize>)
    ensures
        match (a, r) {
            (Some(x), Some(y)) => y == x + b,
            (Some(x), None) => x + b > usize::MAX,
            (None, _) => r is None,
        },
{
    match a {
        Some(x) => x.checked_add(b),
        None => None,
    }
}

fn sum_tokens(messages: &Vec<Message>) -> (r: Option<usize>)
    ensures
        match r {
            Some(n) => n == conversation_tokens(provider::message_views(messages@)),
            None => conversation_tokens(provider::message_views(messages@)) > usize::MAX,
        },
{
    let ghost all = provider::message_views(messages@);
    let mut total: Option<usize> = Some(0);
    let mut i: usize = 0;
    assert(all.take(0) =~= Seq::<MessageView>::empty());
    while i < messages.len()
        invariant
            i <= messages@.len(),
            all == provider::message_views(messages@),
            match total {
                Some(n) => n == conversation_tokens(all.take(i as int)),
                None => conversation_tokens(all.take(i as int)) > usize::MAX,
            },
        decreases messages@.len() - i,
    {
        let content: usize = match &messages[i].content {
            Some(c) => estimate_text_tokens(c.as_str()),
            None => 0,
        };
        let calls: usize = estimate_text_tokens(
            json::json_text(&provider::calls_to_json(&messages[i].tool_calls)).as_str(),
        );
        let images: usize = match messages[i].image_urls.len().checked_mul(384) {
            Some(n) => n,
            None => usize::MAX,
        };
        proof {
            assert(all.take(i + 1).drop_last() =~= all.take(i as int));
            assert(all.take(i + 1).last() == messages@[i as int]@);
        }
        total = add_up(add_up(add_up(add_up(total, content), calls), images), 6);
        i = i + 1;
    }
    assert(all.take(i as int) =~= all);
    total
}

/// Estimates the tokens of a conversation.
pub fn estimate_messages(messages: &Vec<Message>) -> (r: usize)
    requires
        conversation_tokens(provider::message_views(messages@)) <= usize::MAX,
    ensures
        r == conversation_tokens(provider::message_views(messages@)),
{
    match sum_tokens(messages) {
        Some(n) => n,
        None => 0,
    }
}

/// Estimates the tokens of a conversation, where the number fits the machine.
pub fn try_estimate_messages(messages: &Vec<Message>) -> (r: Option<usize>)
    ensures
        match r {
            Some(n) => n == conversation_tokens(provider::message_views(messages@)),
            None => conversation_tokens(provider::message_views(messages@)) > usize::MAX,
        },
{
    if sum_tokens(messages).is_some() {
        Some(estimate_messages(messages))
    } else {
        None
    }
}

/// A chunk that takes no further character.
pub open spec fn chunk_full(chunk: Seq<char>, budget: usize) -> bool {
    chunk.len() >= char_limit(budget) || text_tokens(chunk) >= budget
}

/// The most characters of a chunk.
pub open spec fn char_limit(budget: usize) -> nat {
    if budget * 3 > usize::MAX {
        usize::MAX as nat
    } else if budget == 0 {
        1
    } else {
        (budget * 3) as nat
    }
}

/// The texts put end to end.
pub open spec fn concat(chunks: Seq<Seq<char>>) -> Seq<char>
    decreases chunks.len(),
{
    if chunks.len() == 0 {
        Seq::empty()
    } else {
        concat(chunks.drop_last()) + chunks.last()
    }
}

/// A chunk that grew until it was full, and no further.
pub open spec fn just_full(chunk: Seq<char>, budget: usize) -> bool {
    &&& chunk.len() > 0
    &&& chunk_full(chunk, budget)
    &&& grows(chunk, budget)
}

/// No proper part of the beginning of a chunk is full.
pub open spec fn grows(chunk: Seq<char>, budget: usize) -> bool {
    forall|k: int| 0 < k < chunk.len() ==> !chunk_full(#[trigger] chunk.take(k), budget)
}

/// The chunks of a text: put end to end they are the text; each but the last is
/// just full, and the last is not empty.
pub open spec fn is_chunking(s: Seq<char>, chunks: Seq<Seq<char>>, budget: usize) -> bool {
    &&& concat(chunks) == s
    &&& forall|i: int| 0 <= i < chunks.len() - 1 ==> just_full(#[trigger] chunks[i], budget)
    &&& chunks.len() > 0 ==> chunks.last().len() > 0 && grows(chunks.last(), budget)
}

/// Cuts a text into chunks of about `budget` tokens.
pub fn split_for_token_budget(s: &str, budget: usize) -> (r: Vec<String>)
    ensures
        is_chunking(s@, text::views(r@), budget),
{
    let limit: usize = match budget.checked_mul(3) {
        Some(n) => if n == 0 {
            1
        } else {
            n
        },
        None => usize::MAX,
    };
    let v = text::chars_of(s);
    let mut chunks: Vec<String> = Vec::new();
    let mut start: usize = 0;
    let mut i: usize = 0;
    let mut ideographs: usize = 0;
    assert(text::views(chunks@) =~= Seq::<Seq<char>>::empty());
    assert(v@.take(0) =~= Seq::<char>::empty());
    assert(v@.subrange(0, 0) =~= Seq::<char>::empty());
    while i < v.len()
        invariant
            start <= i <= v@.len(),
            v@ == s@,
            limit == char_limit(budget),
            concat(text::views(chunks@)) == v@.take(start as int),
            forall|k: int|
                0 <= k < chunks@.len() ==> just_full(#[trigger] text::views(chunks@)[k], budget),
            ideographs == cjk_count(v@.subrange(start as int, i as int)),
            ideographs <= i - start,
            forall|k: int|
                0 < k <= i - start ==> !chunk_full(
                    #[trigger] v@.subrange(start as int, i as int).take(k),
                    budget,
                ),
        decreases v@.len() - i,
    {
        let ghost current = v@.subrange(start as int, i as int);
        let ghost grown = v@.subrange(start as int, i + 1);
        proof {
            assert(grown.drop_last() =~= current);
            assert(grown.last() == v@[i as int]);
            assert forall|k: int| 0 < k < grown.len() implies !chunk_full(
                #[trigger] grown.take(k),
                budget,
            ) by {
                assert(grown.take(k) =~= current.take(k));
            }
        }
        if is_cjk(v[i]) {
            ideographs = ideographs + 1;
        }
        i = i + 1;
        if i - start >= limit || estimate(ideographs, i - start - ideographs) >= budget {
            let ghost before = text::views(chunks@);
            let chunk = text::string_of_range(v.as_slice(), start, i);
            chunks.push(chunk);
            proof {
                let after = text::views(chunks@);
                assert(after =~= before.push(grown));
                assert(after.drop_last() =~= before);
                assert(v@.take(start as int) + grown =~= v@.take(i as int));
                assert forall|k: int| 0 <= k < chunks@.len() implies just_full(
                    #[trigger] after[k],
                    budget,
                ) by {
                    if k < before.len() {
                        assert(after[k] == before[k]);
                    }
                }
                assert(v@.subrange(i as int, i as int) =~= Seq::<char>::empty());
            }
            start = i;
            ideographs = 0;
        } else {
            proof {
                assert(grown.take(grown.len() as int) =~= grown);
            }
        }
    }
    if start < v.len() {
        let ghost before = text::views(chunks@);
        let chunk = text::string_of_range(v.as_slice(), start, v.len());
        chunks.push(chunk);
        proof {
            let after = text::views(chunks@);
            assert(after =~= before.push(chunk@));
            assert(after.drop_last() =~= before);
            assert(v@.take(start as int) + chunk@ =~= v@);
            assert forall|k: int| 0 <= k < after.len() - 1 implies just_full(
                #[trigger] after[k],
                budget,
            ) by {
                assert(after[k] == before[k]);
            }
        }
    } else {
        assert(v@.take(start as int) =~= v@);
    }
    chunks
}

/// The first characters of a text, with a mark where something was cut off.
pub open spec fn truncated(s: Seq<char>, max_chars: nat) -> Seq<char> {
    if s.len() > max_chars {
        s.take(max_chars as int) + "…[摘要已截断]"@
    } else {
        s
    }
}

/// Cuts a text after so many characters.
pub fn truncate_chars(s: &str, max_chars: usize) -> (r: String)
    ensures
        r@ == truncated(s@, max_chars as nat),
{
    let v = text::chars_of(s);
    if v.len() > max_chars {
        let mut r = text::string_of_range(v.as_slice(), 0, max_chars);
        assert(v@.subrange(0, max_chars as int) =~= s@.take(max_chars as int));
        r.append("…[摘要已截断]");
        r
    } else {
        s.to_owned()
    }
}

/// The settings of a context.
#[derive(Clone, Copy, Debug, PartialEq, Eq, Structural)]
pub struct ContextConfig {
    pub token_budget: usize,
    pub recent_messages: usize,
    pub mild_compression_percent: usize,
    pub strong_compression_percent: usize,
    pub summary_chunk_tokens: usize,
}

/// What a setting gives: its number, a default where it is missing, or the error
/// that names it.
pub open spec fn setting(var: EnvVar, name: Seq<char>, default: usize) -> Result<
    usize,
    Seq<char>,
> {
    match var {
        EnvVar::Missing => Ok(default),
        EnvVar::NotUnicode(_) => Err("读取环境变量 "@ + name + " 失败"@),
        EnvVar::Value(s) => match text::unsigned_value(s@, usize::MAX as nat) {
            Some(n) => Ok(n as usize),
            None => Err("环境变量 "@ + name + " 必须是正整数"@),
        },
    }
}

/// Reads a setting.
pub fn optional_usize(var: &EnvVar, name: &str, default: usize) -> (r: Result<usize, String>)
    ensures
        match r {
            Ok(n) => setting(*var, name@, default) == Ok::<usize, Seq<char>>(n),
            Err(e) => setting(*var, name@, default) == Err::<usize, Seq<char>>(e@),
        },
{
    match var {
        EnvVar::Missing => Ok(default),
        EnvVar::NotUnicode(_) => {
            let mut e = "读取环境变量 ".to_owned();
            e.append(name);
            e.append(" 失败");
            Err(e)
        },
        EnvVar::Value(s) => match text::parse_unsigned(s.as_str(), usize::MAX as u64) {
            Some(n) => Ok(n as usize),
            None => {
                let mut e = "环境变量 ".to_owned();
                e.append(name);
                e.append(" 必须是正整数");
                Err(e)
            },
        },
    }
}

/// The settings that four numbers give, or what is wrong with them.
pub open spec fn config_of(budget: usize, recent: usize, mild: usize, strong: usize) -> Result<
    ContextConfig,
    Seq<char>,
> {
    if budget < 256 {
        Err("CONTEXT_TOKEN_BUDGET 不能小于 256"@)
    } else if recent == 0 {
        Err("CONTEXT_RECENT_MESSAGES 不能为 0"@)
    } else if !(0 < mild < strong <= 100) {
        Err("压缩阈值必须满足 0 < CONTEXT_MILD_PERCENT < CONTEXT_STRONG_PERCENT <= 100"@)
    } else {
        Ok(
            ContextConfig {
                token_budget: budget,
                recent_messages: recent,
                mild_compression_percent: mild,
                strong_compression_percent: strong,
                summary_chunk_tokens: if budget / 3 > 128 {
                    budget / 3
                } else {
                    128
                },
            },
        )
    }
}

/// The settings that the environment gives, or the first error.
pub open spec fn env_config(
    budget: EnvVar,
    recent: EnvVar,
    mild: EnvVar,
    strong: EnvVar,
) -> Result<ContextConfig, Seq<char>> {
    match setting(budget, "CONTEXT_TOKEN_BUDGET"@, DEFAULT_TOKEN_BUDGET) {
        Err(e) => Err(e),
        Ok(b) => match setting(recent, "CONTEXT_RECENT_MESSAGES"@, DEFAULT_RECENT_MESSAGES) {
            Err(e) => Err(e),
            Ok(r) => match setting(mild, "CONTEXT_MILD_PERCENT"@, 60) {
                Err(e) => Err(e),
                Ok(m) => match setting(strong, "CONTEXT_STRONG_PERCENT"@, 85) {
                    Err(e) => Err(e),
                    Ok(s) => config_of(b, r, m, s),
                },
            },
        },
    }
}

/// The issue speaks of a setting of the context.
pub open spec fn about_context(issue: config::IssueView) -> bool {
    "CONTEXT_"@.is_prefix_of(issue.variable)
}

/// Some issue speaks of a setting of the context.
pub open spec fn some_about_context(issues: Seq<config::IssueView>) -> bool {
    exists|i: int| 0 <= i < issues.len() && about_context(#[trigger] issues[i])
}

proof fn lemma_some_joined(a: Seq<config::IssueView>, b: Seq<config::IssueView>)
    ensures
        some_about_context(a + b) <==> some_about_context(a) || some_about_context(b),
{
    let c = a + b;
    if some_about_context(a) {
        let i = choose|i: int| 0 <= i < a.len() && about_context(#[trigger] a[i]);
        assert(about_context(c[i]));
    }
    if some_about_context(b) {
        let i = choose|i: int| 0 <= i < b.len() && about_context(#[trigger] b[i]);
        assert(about_context(c[a.len() + i]));
    }
    if some_about_context(c) {
        let i = choose|i: int| 0 <= i < c.len() && about_context(#[trigger] c[i]);
        if i < a.len() {
            assert(about_context(a[i]));
        } else {
            assert(about_context(b[i - a.len()]));
        }
    }
}

/// Every issue of the list is about the variable.
spec fn all_about(issues: Seq<config::IssueView>, variable: Seq<char>) -> bool {
    forall|i: int| 0 <= i < issues.len() ==> (#[trigger] issues[i]).variable == variable
}

proof fn lemma_no_other(issues: Seq<config::IssueView>, variable: Seq<char>)
    requires
        all_about(issues, variable),
        !"CONTEXT_"@.is_prefix_of(variable),
    ensures
        !some_about_context(issues),
{
}

proof fn lemma_same(issues: Seq<config::IssueView>, variable: Seq<char>)
    requires
        all_about(issues, variable),
        "CONTEXT_"@.is_prefix_of(variable),
    ensures
        some_about_context(issues) <==> issues.len() > 0,
{
    if issues.len() > 0 {
        assert(about_context(issues[0]));
    }
}

proof fn lemma_names()
    ensures
        !"CONTEXT_"@.is_prefix_of("API_TYPE"@),
        !"CONTEXT_"@.is_prefix_of("OPENAI_API_KEY"@),
        !"CONTEXT_"@.is_prefix_of("OPENAI_BASE_URL"@),
        !"CONTEXT_"@.is_prefix_of("MODEL_NAME"@),
        !"CONTEXT_"@.is_prefix_of("SKILLS_MAX_MATCHES"@),
        !"CONTEXT_"@.is_prefix_of("CRON_TICK_SECONDS"@),
        !"CONTEXT_"@.is_prefix_of("CRON_STAGGER_SECONDS"@),
        !"CONTEXT_"@.is_prefix_of("CRON_RUN_TIMEOUT_SECS"@),
        !"CONTEXT_"@.is_prefix_of("HEARTBEAT_INTERVAL_SECS"@),
        !"CONTEXT_"@.is_prefix_of("MULTIMODAL_ENABLED"@),
        !"CONTEXT_"@.is_prefix_of("OLLAMA_TOOLS_ENABLED"@),
        !"CONTEXT_"@.is_prefix_of("HEARTBEAT_ENABLED"@),
        "CONTEXT_"@.is_prefix_of("CONTEXT_TOKEN_BUDGET"@),
        "CONTEXT_"@.is_prefix_of("CONTEXT_RECENT_MESSAGES"@),
        "CONTEXT_"@.is_prefix_of("CONTEXT_MILD_PERCENT"@),
        "CONTEXT_"@.is_prefix_of("CONTEXT_STRONG_PERCENT"@),
        "CONTEXT_"@.is_prefix_of("CONTEXT_MILD_PERCENT / CONTEXT_STRONG_PERCENT"@),
{
    reveal_strlit("CONTEXT_");
    reveal_strlit("API_TYPE");
    reveal_strlit("OPENAI_API_KEY");
    reveal_strlit("OPENAI_BASE_URL");
    reveal_strlit("MODEL_NAME");
    reveal_strlit("SKILLS_MAX_MATCHES");
    reveal_strlit("CRON_TICK_SECONDS");
    reveal_strlit("CRON_STAGGER_SECONDS");
    reveal_strlit("CRON_RUN_TIMEOUT_SECS");
    reveal_strlit("HEARTBEAT_INTERVAL_SECS");
    reveal_strlit("MULTIMODAL_ENABLED");
    reveal_strlit("OLLAMA_TOOLS_ENABLED");
    reveal_strlit("HEARTBEAT_ENABLED");
    reveal_strlit("CONTEXT_TOKEN_BUDGET");
    reveal_strlit("CONTEXT_RECENT_MESSAGES");
    reveal_strlit("CONTEXT_MILD_PERCENT");
    reveal_strlit("CONTEXT_STRONG_PERCENT");
    reveal_strlit("CONTEXT_MILD_PERCENT / CONTEXT_STRONG_PERCENT");
    assert("OPENAI_API_KEY"@[0] != "CONTEXT_"@[0]);
    assert("OPENAI_BASE_URL"@[0] != "CONTEXT_"@[0]);
    assert("MODEL_NAME"@[0] != "CONTEXT_"@[0]);
    assert("API_TYPE"@[0] != "CONTEXT_"@[0]);
    assert("SKILLS_MAX_MATCHES"@[0] != "CONTEXT_"@[0]);
    assert("CRON_TICK_SECONDS"@[1] != "CONTEXT_"@[1]);
    assert("CRON_STAGGER_SECONDS"@[1] != "CONTEXT_"@[1]);
    assert("CRON_RUN_TIMEOUT_SECS"@[1] != "CONTEXT_"@[1]);
    assert("HEARTBEAT_INTERVAL_SECS"@[0] != "CONTEXT_"@[0]);
    assert("HEARTBEAT_ENABLED"@[0] != "CONTEXT_"@[0]);
    assert("MULTIMODAL_ENABLED"@[0] != "CONTEXT_"@[0]);
    assert("OLLAMA_TOOLS_ENABLED"@[0] != "CONTEXT_"@[0]);
    assert("CONTEXT_TOKEN_BUDGET"@.take(8) =~= "CONTEXT_"@);
    assert("CONTEXT_RECENT_MESSAGES"@.take(8) =~= "CONTEXT_"@);
    assert("CONTEXT_MILD_PERCENT"@.take(8) =~= "CONTEXT_"@);
    assert("CONTEXT_STRONG_PERCENT"@.take(8) =~= "CONTEXT_"@);
    assert("CONTEXT_MILD_PERCENT / CONTEXT_STRONG_PERCENT"@.take(8) =~= "CONTEXT_"@);
}

/// The numbers of the environment have an issue about the context where one of the four
/// settings of the context has one.
proof fn lemma_number_issues(vars: Seq<(String, EnvVar)>)
    ensures
        some_about_context(config::all_number_issues(vars)) <==> {
            ||| config::number_issues(
                "CONTEXT_TOKEN_BUDGET"@,
                config::env_at(vars, "CONTEXT_TOKEN_BUDGET"@),
                256,
                usize::MAX,
            ).len() > 0
            ||| config::number_issues(
                "CONTEXT_RECENT_MESSAGES"@,
                config::env_at(vars, "CONTEXT_RECENT_MESSAGES"@),
                1,
                usize::MAX,
            ).len() > 0
            ||| config::number_issues(
                "CONTEXT_MILD_PERCENT"@,
                config::env_at(vars, "CONTEXT_MILD_PERCENT"@),
                1,
                99,
            ).len() > 0
            ||| config::number_issues(
                "CONTEXT_STRONG_PERCENT"@,
                config::env_at(vars, "CONTEXT_STRONG_PERCENT"@),
                2,
                100,
            ).len() > 0
        },
{
    lemma_names();
    let a = config::number_issues("CONTEXT_TOKEN_BUDGET"@, config::env_at(vars, "CONTEXT_TOKEN_BUDGET"@), 256, usize::MAX);
    let b = config::number_issues("CONTEXT_RECENT_MESSAGES"@, config::env_at(vars, "CONTEXT_RECENT_MESSAGES"@), 1, usize::MAX);
    let c = config::number_issues("CONTEXT_MILD_PERCENT"@, config::env_at(vars, "CONTEXT_MILD_PERCENT"@), 1, 99);
    let d = config::number_issues("CONTEXT_STRONG_PERCENT"@, config::env_at(vars, "CONTEXT_STRONG_PERCENT"@), 2, 100);
    let e = config::number_issues("SKILLS_MAX_MATCHES"@, config::env_at(vars, "SKILLS_MAX_MATCHES"@), 1, 64);
    let f = config::number_issues("CRON_TICK_SECONDS"@, config::env_at(vars, "CRON_TICK_SECONDS"@), 1, usize::MAX);
    let g = config::number_issues("CRON_STAGGER_SECONDS"@, config::env_at(vars, "CRON_STAGGER_SECONDS"@), 0, usize::MAX);
    let h = config::number_issues("CRON_RUN_TIMEOUT_SECS"@, config::env_at(vars, "CRON_RUN_TIMEOUT_SECS"@), 1, usize::MAX);
    let i = config::number_issues("HEARTBEAT_INTERVAL_SECS"@, config::env_at(vars, "HEARTBEAT_INTERVAL_SECS"@), 1, usize::MAX);
    lemma_same(a, "CONTEXT_TOKEN_BUDGET"@);
    lemma_same(b, "CONTEXT_RECENT_MESSAGES"@);
    lemma_same(c, "CONTEXT_MILD_PERCENT"@);
    lemma_same(d, "CONTEXT_STRONG_PERCENT"@);
    lemma_no_other(e, "SKILLS_MAX_MATCHES"@);
    lemma_no_other(f, "CRON_TICK_SECONDS"@);
    lemma_no_other(g, "CRON_STAGGER_SECONDS"@);
    lemma_no_other(h, "CRON_RUN_TIMEOUT_SECS"@);
    lemma_no_other(i, "HEARTBEAT_INTERVAL_SECS"@);
    lemma_some_joined(a, b);
    lemma_some_joined(a + b, c);
    lemma_some_joined(a + b + c, d);
    lemma_some_joined(a + b + c + d, e);
    lemma_some_joined(a + b + c + d + e, f);
    lemma_some_joined(a + b + c + d + e + f, g);
    lemma_some_joined(a + b + c + d + e + f + g, h);
    lemma_some_joined(a + b + c + d + e + f + g + h, i);
}

/// The setting can be read as text, where it is given.
pub open spec fn readable(value: EnvVar) -> bool {
    !(value is NotUnicode)
}

/// The check of the environment and the context agree: the settings of the context are
/// accepted exactly where the check names no issue about one of them.
pub proof fn law_check_and_context_agree(
    vars: Seq<(String, EnvVar)>,
    api_type: Result<provider::ApiType, String>,
)
    requires
        readable(config::env_at(vars, "CONTEXT_TOKEN_BUDGET"@)),
        readable(config::env_at(vars, "CONTEXT_RECENT_MESSAGES"@)),
        readable(config::env_at(vars, "CONTEXT_MILD_PERCENT"@)),
        readable(config::env_at(vars, "CONTEXT_STRONG_PERCENT"@)),
    ensures
        env_config(
            config::env_at(vars, "CONTEXT_TOKEN_BUDGET"@),
            config::env_at(vars, "CONTEXT_RECENT_MESSAGES"@),
            config::env_at(vars, "CONTEXT_MILD_PERCENT"@),
            config::env_at(vars, "CONTEXT_STRONG_PERCENT"@),
        ) is Ok <==> !some_about_context(config::environment_issues(vars, api_type)),
{
    lemma_names();
    lemma_number_issues(vars);
    let mild = config::env_at(vars, "CONTEXT_MILD_PERCENT"@);
    let strong = config::env_at(vars, "CONTEXT_STRONG_PERCENT"@);
    let a = config::api_issues(api_type);
    let b = config::key_issues(api_type, config::env_at(vars, "OPENAI_API_KEY"@));
    let c = config::url_issues(
        config::chosen(api_type),
        config::env_at(vars, "OPENAI_BASE_URL"@),
    );
    let d = config::required_issues("MODEL_NAME"@, config::env_at(vars, "MODEL_NAME"@));
    let e = config::all_number_issues(vars);
    let f = config::threshold_issues(mild, strong);
    let g = config::bool_issues("MULTIMODAL_ENABLED"@, config::env_at(vars, "MULTIMODAL_ENABLED"@));
    let h = config::bool_issues("OLLAMA_TOOLS_ENABLED"@, config::env_at(vars, "OLLAMA_TOOLS_ENABLED"@));
    let i = config::bool_issues("HEARTBEAT_ENABLED"@, config::env_at(vars, "HEARTBEAT_ENABLED"@));
    lemma_no_other(a, "API_TYPE"@);
    lemma_no_other(b, "OPENAI_API_KEY"@);
    lemma_no_other(c, "OPENAI_BASE_URL"@);
    lemma_no_other(d, "MODEL_NAME"@);
    lemma_same(f, "CONTEXT_MILD_PERCENT / CONTEXT_STRONG_PERCENT"@);
    lemma_no_other(g, "MULTIMODAL_ENABLED"@);
    lemma_no_other(h, "OLLAMA_TOOLS_ENABLED"@);
    lemma_no_other(i, "HEARTBEAT_ENABLED"@);
    lemma_some_joined(g, h);
    lemma_some_joined(g + h, i);
    lemma_some_joined(a, b);
    lemma_some_joined(a + b, c);
    lemma_some_joined(a + b + c, d);
    lemma_some_joined(a + b + c + d, e);
    lemma_some_joined(a + b + c + d + e, f);
    lemma_some_joined(a + b + c + d + e + f, g + h + i);
}

/// Without settings a context holds 32000 tokens and 12 recent messages, is compressed
/// at 60 and 85 percent, and is summarised in parts of a third of its tokens.
pub proof fn law_default_settings()
    ensures
        env_config(EnvVar::Missing, EnvVar::Missing, EnvVar::Missing, EnvVar::Missing) == Ok::<
            ContextConfig,
            Seq<char>,
        >(
            (ContextConfig {
                token_budget: 32_000,
                recent_messages: 12,
                mild_compression_percent: 60,
                strong_compression_percent: 85,
                summary_chunk_tokens: 10_666,
            }),
        ),
{
}

impl ContextConfig {
    /// Settings that a context can work with.
    pub open spec fn wf(self) -> bool {
        &&& self.token_budget >= 256
        &&& self.recent_messages > 0
        &&& 0 < self.mild_compression_percent < self.strong_compression_percent <= 100
        &&& self.summary_chunk_tokens >= 128
    }

    /// Reads the settings of the environment.
    pub fn from_env(
        budget: &EnvVar,
        recent: &EnvVar,
        mild: &EnvVar,
        strong: &EnvVar,
    ) -> (r: Result<ContextConfig, String>)
        ensures
            match r {
                Ok(c) => env_config(*budget, *recent, *mild, *strong) == Ok::<
                    ContextConfig,
                    Seq<char>,
                >(c) && c.wf(),
                Err(e) => env_config(*budget, *recent, *mild, *strong) == Err::<
                    ContextConfig,
                    Seq<char>,
                >(e@),
            },
    {
        let token_budget: usize = match optional_usize(
            budget,
            "CONTEXT_TOKEN_BUDGET",
            DEFAULT_TOKEN_BUDGET,
        ) {
            Ok(n) => n,
            Err(e) => return Err(e),
        };
        let recent_messages: usize = match optional_usize(
            recent,
            "CONTEXT_RECENT_MESSAGES",
            DEFAULT_RECENT_MESSAGES,
        ) {
            Ok(n) => n,
            Err(e) => return Err(e),
        };
        let mild_compression_percent: usize = match optional_usize(
            mild,
            "CONTEXT_MILD_PERCENT",
            60,
        ) {
            Ok(n) => n,
            Err(e) => return Err(e),
        };
        let strong_compression_percent: usize = match optional_usize(
            strong,
            "CONTEXT_STRONG_PERCENT",
            85,
        ) {
            Ok(n) => n,
            Err(e) => return Err(e),
        };
        if token_budget < 256 {
            return Err("CONTEXT_TOKEN_BUDGET 不能小于 256".to_owned());
        }
        if recent_messages == 0 {
            return Err("CONTEXT_RECENT_MESSAGES 不能为 0".to_owned());
        }
        if mild_compression_percent == 0 || mild_compression_percent >= strong_compression_percent
            || strong_compression_percent > 100 {
            return Err(
                "压缩阈值必须满足 0 < CONTEXT_MILD_PERCENT < CONTEXT_STRONG_PERCENT <= 100".to_owned(),
            );
        }
        let third: usize = token_budget / 3;
        Ok(
            ContextConfig {
                token_budget,
                recent_messages,
                mild_compression_percent,
                strong_compression_percent,
                summary_chunk_tokens: if third > 128 {
                    third
                } else {
                    128
                },
            },
        )
    }
}

/// How much of an old conversation is summarised.
#[derive(Clone, Copy, Debug, PartialEq, Eq, Structural)]
pub enum CompressionMode {
    Mild,
    Strong,
}

/// So many percent of a budget; the product does not pass the highest machine number.
pub open spec fn percent_of(budget: usize, percent: usize) -> nat {
    let product: nat = if budget * percent > usize::MAX {
        usize::MAX as nat
    } else {
        (budget * percent) as nat
    };
    product / 100
}

fn threshold(budget: usize, percent: usize) -> (r: usize)
    ensures
        r == percent_of(budget, percent),
{
    let product: usize = match budget.checked_mul(percent) {
        Some(n) => n,
        None => usize::MAX,
    };
    product / 100
}

/// What a context of so many tokens calls for.
pub open spec fn mode_for(config: ContextConfig, total: nat) -> Option<CompressionMode> {
    if total > percent_of(config.token_budget, config.strong_compression_percent) {
        Some(CompressionMode::Strong)
    } else if total > percent_of(config.token_budget, config.mild_compression_percent) {
        Some(CompressionMode::Mild)
    } else {
        None
    }
}

/// How many of the oldest messages are offered for a summary.
pub open spec fn compressible(len: nat, recent: nat, mode: CompressionMode) -> nat {
    if len <= recent {
        0
    } else {
        match mode {
            CompressionMode::Strong => (len - recent) as nat,
            CompressionMode::Mild => ((len - recent + 2) / 3) as nat,
        }
    }
}

/// The last place at or before `at` where no tool result is torn from its call.
pub open spec fn before_tools(messages: Seq<MessageView>, at: nat) -> nat
    decreases at,
{
    if at > 0 && at < messages.len() && messages[at as int].role == Role::Tool {
        before_tools(messages, (at - 1) as nat)
    } else {
        at
    }
}

/// How many of the oldest messages a summary replaces.
pub open spec fn split_point(
    messages: Seq<MessageView>,
    recent: usize,
    mode: CompressionMode,
) -> nat {
    before_tools(messages, compressible(messages.len(), recent as nat, mode))
}

/// Finds how many of the oldest messages a summary replaces; zero where none does.
pub fn compression_split(
    history: &Vec<Message>,
    recent_messages: usize,
    mode: CompressionMode,
) -> (split: usize)
    ensures
        split == split_point(provider::message_views(history@), recent_messages, mode),
        split <= history@.len(),
{
    let n: usize = history.len();
    if n <= recent_messages {
        return 0;
    }
    let old: usize = n - recent_messages;
    let mut split: usize = match mode {
        CompressionMode::Mild => old / 3 + (if old % 3 > 0 {
            1usize
        } else {
            0usize
        }),
        CompressionMode::Strong => old,
    };
    let ghost views = provider::message_views(history@);
    let ghost start = split as nat;
    while split > 0 && split < n && history[split].role == Role::Tool
        invariant
            split <= n,
            n == history@.len(),
            views == provider::message_views(history@),
            before_tools(views, start) == before_tools(views, split as nat),
        decreases split,
    {
        split = split - 1;
    }
    split
}

/// A conversation whose oldest messages were replaced by a summary.
pub open spec fn with_summary(
    messages: Seq<MessageView>,
    split: nat,
    summary: Seq<char>,
) -> Seq<MessageView> {
    if split == 0 {
        messages
    } else {
        seq![provider::text_message(Role::System, "此前对话摘要：\n"@ + summary)] + messages.skip(
            split as int,
        )
    }
}

/// Replaces the oldest messages by a summary.
pub fn apply_summary(history: &Vec<Message>, split: usize, summary: &str) -> (r: Vec<Message>)
    requires
        split <= history@.len(),
    ensures
        provider::message_views(r@) == with_summary(
            provider::message_views(history@),
            split as nat,
            summary@,
        ),
{
    let ghost views = provider::message_views(history@);
    let rest = provider::clone_messages(history, split, history.len());
    assert(views.subrange(split as int, views.len() as int) =~= views.skip(split as int));
    if split == 0 {
        assert(views.skip(0) =~= views);
        return rest;
    }
    let mut head: Vec<Message> = Vec::new();
    let mut content = "此前对话摘要：\n".to_owned();
    content.append(summary);
    head.push(Message::text(Role::System, content.as_str()));
    assert(provider::message_views(head@) =~= seq![
        provider::text_message(Role::System, content@),
    ]);
    provider::concat_messages(head, rest)
}

/// What is done with a text that is to be summarised.
#[derive(Debug)]
pub enum SummaryStep {
    /// It was summarised often enough: this is what is kept.
    Cut(String),
    /// One request summarises it.
    Ask(String),
    /// Each chunk is summarised; the summaries, put together, are the next text.
    AskEach(Vec<String>),
}

/// Decides how a text is summarised after so many passes.
pub fn summary_step(source: &str, depth: usize, chunk_tokens: usize) -> (r: SummaryStep)
    ensures
        if depth >= MAX_SUMMARY_DEPTH {
            r matches SummaryStep::Cut(t) && t@ == truncated(
                source@,
                if chunk_tokens * 3 > usize::MAX {
                    usize::MAX as nat
                } else {
                    (chunk_tokens * 3) as nat
                },
            )
        } else if text_tokens(source@) <= chunk_tokens {
            r matches SummaryStep::Ask(t) && t@ == source@
        } else {
            r matches SummaryStep::AskEach(chunks) && is_chunking(
                source@,
                text::views(chunks@),
                chunk_tokens,
            )
        },
{
    if depth >= MAX_SUMMARY_DEPTH {
        let max_chars: usize = match chunk_tokens.checked_mul(3) {
            Some(n) => n,
            None => usize::MAX,
        };
        return SummaryStep::Cut(truncate_chars(source, max_chars));
    }
    if estimate_text_tokens(source) <= chunk_tokens {
        return SummaryStep::Ask(source.to_owned());
    }
    SummaryStep::AskEach(split_for_token_budget(source, chunk_tokens))
}

/// Puts the summaries of chunks together.
pub fn merge_summaries(summaries: &Vec<String>) -> (r: String)
    ensures
        r@ == text::join(text::views(summaries@), "\n\n"@),
{
    text::join_texts(summaries, "\n\n")
}

/// The messages of a request for a summary.
pub fn summary_request(source: &str) -> (r: Vec<Message>)
    ensures
        provider::message_views(r@) == seq![
            provider::text_message(Role::System, SUMMARY_PROMPT@),
            provider::text_message(Role::User, source@),
        ],
{
    let mut r: Vec<Message> = Vec::new();
    r.push(Message::text(Role::System, SUMMARY_PROMPT));
    r.push(Message::text(Role::User, source));
    assert(provider::message_views(r@) =~= seq![
        provider::text_message(Role::System, SUMMARY_PROMPT@),
        provider::text_message(Role::User, source@),
    ]);
    r
}

/// Takes the answer to a request for a summary: only text will do.
pub fn summary_answer(response: Response) -> (r: Result<String, String>)
    ensures
        match response {
            Response::Text(t) => r is Ok && r->Ok_0@ == t@,
            Response::ToolCalls(_) => r is Err && r->Err_0@
                == "模型在上下文压缩时返回了工具调用"@,
            Response::ToolAssemblyFailed(e) => r is Err && r->Err_0@
                == "模型在上下文压缩时产生无效工具调用（"@ + e.code@ + "）："@ + e.message@,
        },
{
    match response {
        Response::Text(t) => Ok(t),
        Response::ToolCalls(_) => Err("模型在上下文压缩时返回了工具调用".to_owned()),
        Response::ToolAssemblyFailed(e) => {
            let mut m = "模型在上下文压缩时产生无效工具调用（".to_owned();
            m.append(e.code.as_str());
            m.append("）：");
            m.append(e.message.as_str());
            Err(m)
        },
    }
}

/// A text on its way to a summary.
#[derive(Debug)]
pub enum Summary {
    /// This is the summary.
    Done(String),
    /// One request gives the summary of the text.
    Whole(String),
    /// The chunks are summarised one by one, after so many passes over the text.
    Parts { depth: usize, chunks: Vec<String>, summaries: Vec<String> },
}

/// The state that the text is in after so many passes, with no request answered.
pub open spec fn starts_as(source: Seq<char>, depth: nat, chunk_tokens: usize, s: Summary) -> bool {
    if depth >= MAX_SUMMARY_DEPTH {
        s matches Summary::Done(t) && t@ == truncated(
            source,
            if chunk_tokens * 3 > usize::MAX {
                usize::MAX as nat
            } else {
                (chunk_tokens * 3) as nat
            },
        )
    } else if text_tokens(source) <= chunk_tokens {
        s matches Summary::Whole(t) && t@ == source
    } else {
        s matches Summary::Parts { depth: d, chunks, summaries } && d == depth && is_chunking(
            source,
            text::views(chunks@),
            chunk_tokens,
        ) && summaries@.len() == 0
    }
}

/// How far a text is from its summary: the passes that may be left, and the chunks that are
/// left in this one.
pub open spec fn summary_left(s: Summary) -> (nat, nat) {
    match s {
        Summary::Done(_) => (0, 0),
        Summary::Whole(_) => (0, 1),
        Summary::Parts { depth, chunks, summaries } => (
            (MAX_SUMMARY_DEPTH - depth) as nat,
            (chunks@.len() - summaries@.len()) as nat,
        ),
    }
}

/// Less is left in `a` than in `b`.
pub open spec fn less_left(a: (nat, nat), b: (nat, nat)) -> bool {
    a.0 < b.0 || a.0 == b.0 && a.1 < b.1
}

proof fn lemma_chunks_of_something(source: Seq<char>, chunks: Seq<Seq<char>>, budget: usize)
    requires
        text_tokens(source) > budget,
        is_chunking(source, chunks, budget),
    ensures
        chunks.len() > 0,
{
    if chunks.len() == 0 {
        assert(source =~= Seq::<char>::empty());
        assert(text_tokens(source) == 0);
    }
}

impl Summary {
    /// Some chunk waits for its summary.
    pub open spec fn wf(self) -> bool {
        self matches Summary::Parts { depth, chunks, summaries } ==> depth < MAX_SUMMARY_DEPTH
            && summaries@.len() < chunks@.len()
    }

    /// Starts over with a text after so many passes.
    fn over(source: &str, depth: usize, chunk_tokens: usize) -> (r: Self)
        ensures
            r.wf(),
            starts_as(source@, depth as nat, chunk_tokens, r),
    {
        match summary_step(source, depth, chunk_tokens) {
            SummaryStep::Cut(t) => Summary::Done(t),
            SummaryStep::Ask(t) => Summary::Whole(t),
            SummaryStep::AskEach(chunks) => {
                proof {
                    lemma_chunks_of_something(source@, text::views(chunks@), chunk_tokens);
                }
                Summary::Parts { depth, chunks, summaries: Vec::new() }
            },
        }
    }

    /// Begins with a text.
    pub fn begin(source: &str, chunk_tokens: usize) -> (r: Self)
        ensures
            r.wf(),
            starts_as(source@, 0, chunk_tokens, r),
    {
        Summary::over(source, 0, chunk_tokens)
    }

    /// The text that is summarised next, unless the summary is there.
    pub fn next_source(&self) -> (r: Option<&str>)
        requires
            self.wf(),
        ensures
            json::opt_view(r) == (match *self {
                Summary::Done(_) => None::<Seq<char>>,
                Summary::Whole(t) => Some(t@),
                Summary::Parts { chunks, summaries, .. } => Some(
                    chunks@[summaries@.len() as int]@,
                ),
            }),
    {
        match self {
            Summary::Done(_) => None,
            Summary::Whole(t) => Some(t.as_str()),
            Summary::Parts { chunks, summaries, .. } => Some(chunks[summaries.len()].as_str()),
        }
    }

    /// Takes the summary of the text that was next. Once every chunk has its summary, the
    /// summaries, put together, are the text of the next pass.
    pub fn on_summary(self, summary: String, chunk_tokens: usize) -> (r: Self)
        requires
            self.wf(),
        ensures
            r.wf(),
            match self {
                Summary::Done(_) => r == self,
                Summary::Whole(_) => r matches Summary::Done(t) && t@ == summary@,
                Summary::Parts { depth, chunks, summaries } => {
                    let all = text::views(summaries@).push(summary@);
                    if all.len() == chunks@.len() {
                        starts_as(text::join(all, "\n\n"@), (depth + 1) as nat, chunk_tokens, r)
                    } else {
                        r matches Summary::Parts { depth: d, chunks: c, summaries: s } && d == depth
                            && c == chunks && text::views(s@) == all
                    }
                },
            },
            // Each answer brings the end nearer.
            self !is Done ==> less_left(summary_left(r), summary_left(self)),
    {
        match self {
            Summary::Done(t) => Summary::Done(t),
            Summary::Whole(_) => Summary::Done(summary),
            Summary::Parts { depth, chunks, summaries } => {
                let mut summaries = summaries;
                let ghost before = text::views(summaries@);
                let ghost own = summary@;
                summaries.push(summary);
                assert(text::views(summaries@) =~= before.push(own));
                if summaries.len() == chunks.len() {
                    let merged = merge_summaries(&summaries);
                    Summary::over(merged.as_str(), depth + 1, chunk_tokens)
                } else {
                    Summary::Parts { depth, chunks, summaries }
                }
            },
        }
    }
}

/// What `String::from_utf8_lossy` makes of bytes.
pub uninterp spec fn lossy_text_of(bytes: Seq<u8>) -> Seq<char>;

/// `String::from_utf8_lossy`: the text of the bytes, replacement characters
/// standing for what is no UTF-8. Depends on the bytes alone; of bytes that are
/// UTF-8 it is the text.
#[verifier::external_body]
pub(crate) fn lossy_text(bytes: &[u8]) -> (r: String)
    ensures
        r@ == lossy_text_of(bytes@),
        vstd::utf8::valid_utf8(bytes@) ==> r@ == vstd::utf8::decode_utf8(bytes@),
{
    String::from_utf8_lossy(bytes).into_owned()
}

/// The rules of a project, from the bytes of its rule file: the first part of it.
pub fn load_project_rules(bytes: &Vec<u8>) -> (r: String)
    ensures
        r@ == lossy_text_of(
            if bytes@.len() > MAX_PROJECT_RULE_BYTES {
                bytes@.take(MAX_PROJECT_RULE_BYTES as int)
            } else {
                bytes@
            },
        ),
        bytes@.len() <= MAX_PROJECT_RULE_BYTES && vstd::utf8::valid_utf8(bytes@) ==> r@
            == vstd::utf8::decode_utf8(bytes@),
{
    if bytes.len() > MAX_PROJECT_RULE_BYTES {
        let part = vstd::slice::slice_subrange(bytes.as_slice(), 0, MAX_PROJECT_RULE_BYTES);
        assert(part@ =~= bytes@.take(MAX_PROJECT_RULE_BYTES as int));
        lossy_text(part)
    } else {
        lossy_text(bytes.as_slice())
    }
}

/// The branch that is shown for what git printed, if it succeeded.
pub open spec fn branch_label(output: Option<Seq<char>>) -> Seq<char> {
    match output {
        Some(s) => if text::trim(s).len() > 0 {
            text::trim(s)
        } else {
            "（非 Git 仓库或 detached HEAD）"@
        },
        None => "（非 Git 仓库或 detached HEAD）"@,
    }
}

/// An optional block on a line of its own.
pub open spec fn block(b: Option<Seq<char>>) -> Seq<char> {
    match b {
        Some(t) => seq!['\n'] + t,
        None => Seq::empty(),
    }
}

fn append_block(s: &mut String, b: Option<&str>)
    ensures
        final(s)@ == old(s)@ + block(json::opt_view(b)),
{
    let ghost before = s@;
    match b {
        Some(t) => {
            s.push('\n');
            s.append(t);
            assert(s@ =~= before + (seq!['\n'] + t@));
        },
        None => {
            assert(s@ =~= before + Seq::<char>::empty());
        },
    }
}

/// The text of the last message of the user, empty where there is none.
pub open spec fn last_query(messages: Seq<MessageView>) -> Seq<char>
    decreases messages.len(),
{
    if messages.len() == 0 {
        Seq::empty()
    } else if messages.last().role == Role::User {
        match messages.last().content {
            Some(c) => c,
            None => Seq::empty(),
        }
    } else {
        last_query(messages.drop_last())
    }
}

/// The text of the last message of the user, by which skills are chosen.
pub fn latest_query(history: &Vec<Message>) -> (r: String)
    ensures
        r@ == last_query(provider::message_views(history@)),
{
    let ghost all = provider::message_views(history@);
    let mut i: usize = history.len();
    assert(all.take(i as int) =~= all);
    while i > 0
        invariant
            i <= history@.len(),
            all == provider::message_views(history@),
            last_query(all) == last_query(all.take(i as int)),
        decreases i,
    {
        proof {
            assert(all.take(i as int).drop_last() =~= all.take(i - 1));
            assert(all.take(i as int).last() == history@[i - 1]@);
        }
        if history[i - 1].role == Role::User {
            return match &history[i - 1].content {
                Some(c) => c.clone(),
                None => String::new(),
            };
        }
        i = i - 1;
    }
    String::new()
}

/// What a context is made from.
#[derive(Debug)]
pub struct ContextManager {
    pub workspace: String,
    pub system_prompt: String,
    pub project_rules: Option<String>,
    pub config: ContextConfig,
}

/// What a context manager says.
pub struct ContextView {
    pub workspace: Seq<char>,
    pub system_prompt: Seq<char>,
    pub project_rules: Option<Seq<char>>,
    pub config: ContextConfig,
}

impl View for ContextManager {
    type V = ContextView;

    open spec fn view(&self) -> ContextView {
        ContextView {
            workspace: self.workspace@,
            system_prompt: self.system_prompt@,
            project_rules: json::opt_text(self.project_rules),
            config: self.config,
        }
    }
}

/// The rules as a message, where a project has rules.
pub open spec fn rule_messages(rules: Option<Seq<char>>) -> Seq<MessageView> {
    match rules {
        Some(r) => seq![
            provider::text_message(Role::System, "项目规则（AGENTS.md）：\n"@ + r),
        ],
        None => Seq::empty(),
    }
}

/// The context of a request: from what never changes to what always does.
pub open spec fn composed(
    c: ContextView,
    history: Seq<MessageView>,
    environment: Seq<char>,
) -> Seq<MessageView> {
    seq![provider::text_message(Role::System, c.system_prompt)] + rule_messages(c.project_rules)
        + history + seq![provider::text_message(Role::System, environment)]
}

/// How the context of the next request comes about.
#[derive(Debug)]
pub enum ContextStep {
    /// This is the context.
    Ready(Vec<Message>),
    /// So many of the oldest messages are summarised first.
    Summarise { split: usize },
}

impl ContextManager {
    /// The token budget of a context.
    pub fn token_budget(&self) -> (r: usize)
        ensures
            r == self@.config.token_budget,
    {
        self.config.token_budget
    }

    /// The same context for another provider.
    pub fn with_provider(&self) -> (r: Self)
        ensures
            r@ == self@,
    {
        ContextManager {
            workspace: self.workspace.clone(),
            system_prompt: self.system_prompt.clone(),
            project_rules: provider::clone_opt(&self.project_rules),
            config: self.config,
        }
    }

    /// The same context with another budget.
    pub fn with_token_budget(&self, token_budget: usize) -> (r: Self)
        ensures
            r@ == (ContextView {
                config: ContextConfig { token_budget, ..self@.config },
                ..self@
            }),
    {
        let mut copy = self.with_provider();
        copy.config.token_budget = token_budget;
        copy
    }

    /// A context with the usual instructions.
    pub fn new(workspace: &str, config: ContextConfig, project_rules: Option<String>) -> (r: Self)
        ensures
            r@ == (ContextView {
                workspace: workspace@,
                system_prompt: DEFAULT_SYSTEM_PROMPT@,
                project_rules: json::opt_text(project_rules),
                config,
            }),
    {
        ContextManager::with_system_prompt(workspace, config, project_rules, DEFAULT_SYSTEM_PROMPT)
    }

    /// A context with the usual instructions, for a task with skills.
    pub fn new_with_skills(
        workspace: &str,
        config: ContextConfig,
        project_rules: Option<String>,
    ) -> (r: Self)
        ensures
            r@ == (ContextView {
                workspace: workspace@,
                system_prompt: DEFAULT_SYSTEM_PROMPT@,
                project_rules: json::opt_text(project_rules),
                config,
            }),
    {
        ContextManager::new(workspace, config, project_rules)
    }

    /// A context with instructions of its own.
    pub fn with_system_prompt(
        workspace: &str,
        config: ContextConfig,
        project_rules: Option<String>,
        system_prompt: &str,
    ) -> (r: Self)
        ensures
            r@ == (ContextView {
                workspace: workspace@,
                system_prompt: system_prompt@,
                project_rules: json::opt_text(project_rules),
                config,
            }),
    {
        ContextManager {
            workspace: workspace.to_owned(),
            system_prompt: system_prompt.to_owned(),
            project_rules,
            config,
        }
    }

    /// What changes from request to request: the directory, the branch, the plan and
    /// the skills.
    pub fn dynamic_environment(
        &self,
        branch_output: Option<&str>,
        plan: Option<&str>,
        skills: Option<&str>,
    ) -> (r: String)
        ensures
            r@ == "动态环境：cwd="@ + self@.workspace + "；git_branch="@ + branch_label(
                json::opt_view(branch_output),
            ) + block(json::opt_view(plan)) + block(json::opt_view(skills)),
    {
        let mut r = "动态环境：cwd=".to_owned();
        r.append(self.workspace.as_str());
        r.append("；git_branch=");
        let branch = match branch_output {
            Some(s) => text::trim_text(s),
            None => String::new(),
        };
        if branch.as_str().is_empty() {
            r.append("（非 Git 仓库或 detached HEAD）");
        } else {
            r.append(branch.as_str());
        }
        append_block(&mut r, plan);
        append_block(&mut r, skills);
        r
    }

    /// Puts a context together.
    pub fn compose(&self, history: &Vec<Message>, environment: &str) -> (r: Vec<Message>)
        ensures
            provider::message_views(r@) == composed(
                self@,
                provider::message_views(history@),
                environment@,
            ),
            ({
                let p: int = if self.project_rules is Some {
                    2
                } else {
                    1
                };
                &&& r@.len() == p + history@.len() + 1
                &&& forall|i: int|
                    0 <= i < history@.len() ==> r@[p + i]@ == (#[trigger] history@[i])@
                &&& r@[0]@ == provider::text_message(Role::System, self.system_prompt@)
                &&& r@.last()@ == provider::text_message(Role::System, environment@)
            }),
    {
        let mut r: Vec<Message> = Vec::new();
        r.push(Message::text(Role::System, self.system_prompt.as_str()));
        let ghost first = seq![provider::text_message(Role::System, self@.system_prompt)];
        assert(provider::message_views(r@) =~= first);
        match &self.project_rules {
            Some(rules) => {
                let mut content = "项目规则（AGENTS.md）：\n".to_owned();
                content.append(rules.as_str());
                provider::push_message(&mut r, Message::text(Role::System, content.as_str()));
            },
            None => {},
        }
        assert(provider::message_views(r@) =~= first + rule_messages(self@.project_rules));
        let copy = provider::clone_messages(history, 0, history.len());
        assert(provider::message_views(copy@) =~= provider::message_views(history@));
        let mut all = provider::concat_messages(r, copy);
        provider::push_message(&mut all, Message::text(Role::System, environment));
        assert(provider::message_views(all@) =~= composed(
            self@,
            provider::message_views(history@),
            environment@,
        ));
        proof {
            let said = provider::message_views(all@);
            assert(said.len() == all@.len());
            assert(forall|i: int| 0 <= i < all@.len() ==> (#[trigger] all@[i])@ == said[i]);
            assert(forall|i: int|
                0 <= i < history@.len() ==> (#[trigger] history@[i])@ == provider::message_views(
                    history@,
                )[i]);
        }
        all
    }

    /// Decides whether a context, with its tools as JSON, calls for compression.
    pub fn compression_mode(&self, context: &Vec<Message>, tools_json: &str) -> (r: Option<
        CompressionMode,
    >)
        ensures
            r == mode_for(
                self@.config,
                conversation_tokens(provider::message_views(context@)) + text_tokens(tools_json@),
            ),
    {
        let tools: usize = estimate_text_tokens(tools_json);
        let strong: usize = threshold(
            self.config.token_budget,
            self.config.strong_compression_percent,
        );
        let mild: usize = threshold(self.config.token_budget, self.config.mild_compression_percent);
        match add_up(try_estimate_messages(context), tools) {
            Some(total) => if total > strong {
                Some(CompressionMode::Strong)
            } else if total > mild {
                Some(CompressionMode::Mild)
            } else {
                None
            },
            None => Some(CompressionMode::Strong),
        }
    }

    /// Decides how the context of the next request comes about: it is there, or so many of
    /// the oldest messages are summarised first (`compress_history` takes the summary; the
    /// context is then put together anew).
    pub fn prepare(&self, history: &Vec<Message>, environment: &str, tools_json: &str) -> (r:
        ContextStep)
        ensures
            ({
                let views = provider::message_views(history@);
                let ready = composed(self@, views, environment@);
                let split = match mode_for(
                    self@.config,
                    conversation_tokens(ready) + text_tokens(tools_json@),
                ) {
                    Some(mode) => split_point(views, self@.config.recent_messages, mode),
                    None => 0,
                };
                if split == 0 {
                    r matches ContextStep::Ready(m) && provider::message_views(m@) == ready
                } else {
                    r matches ContextStep::Summarise { split: n } && n == split
                }
            }),
            r matches ContextStep::Summarise { split } ==> 0 < split <= history@.len(),
    {
        let context = self.compose(history, environment);
        let mode = match self.compression_mode(&context, tools_json) {
            Some(mode) => mode,
            None => return ContextStep::Ready(context),
        };
        let split: usize = compression_split(history, self.config.recent_messages, mode);
        if split == 0 {
            ContextStep::Ready(context)
        } else {
            ContextStep::Summarise { split }
        }
    }

    /// Replaces the oldest messages of a conversation by their summary.
    pub fn compress_history(&self, history: &mut Vec<Message>, split: usize, summary: &str)
        requires
            split <= old(history)@.len(),
        ensures
            provider::message_views(final(history)@) == with_summary(
                provider::message_views(old(history)@),
                split as nat,
                summary@,
            ),
    {
        *history = apply_summary(history, split, summary);
    }

    /// How many messages of a request that was too long are summarised: none where
    /// there are at most two, else as in strong compression.
    pub fn overflow_split(&self, messages: &Vec<Message>) -> (split: usize)
        ensures
            split <= messages@.len(),
            split == (if messages@.len() <= 2 {
                0
            } else {
                split_point(
                    provider::message_views(messages@),
                    self@.config.recent_messages,
                    CompressionMode::Strong,
                )
            }),
    {
        if messages.len() <= 2 {
            0
        } else {
            compression_split(messages, self.config.recent_messages, CompressionMode::Strong)
        }
    }

    /// The shorter copy of a request that was too long, where a summary made it
    /// smaller (and its size is a number that the machine can hold).
    pub fn compact_for_overflow(&self, messages: &Vec<Message>, summary: &str) -> (r: Option<
        Vec<Message>,
    >)
        ensures
            ({
                let views = provider::message_views(messages@);
                let split = split_point(
                    views,
                    self@.config.recent_messages,
                    CompressionMode::Strong,
                );
                let shorter = with_summary(views, split, summary@);
                if messages@.len() > 2 && conversation_tokens(shorter) < conversation_tokens(
                    views,
                ) && conversation_tokens(shorter) <= usize::MAX {
                    r is Some && provider::message_views(r->0@) == shorter
                } else {
                    r is None
                }
            }),
    {
        if messages.len() <= 2 {
            return None;
        }
        let split: usize = self.overflow_split(messages);
        let shorter = apply_summary(messages, split, summary);
        match (try_estimate_messages(&shorter), try_estimate_messages(messages)) {
            (Some(a), Some(b)) => if a < b {
                Some(shorter)
            } else {
                None
            },
            (Some(_), None) => Some(shorter),
            (None, _) => None,
        }
    }
}

proof fn lemma_before_tools(messages: Seq<MessageView>, at: nat)
    ensures
        before_tools(messages, at) <= at,
        ({
            let k = before_tools(messages, at);
            k == 0 || k >= messages.len() || messages[k as int].role != Role::Tool
        }),
        forall|i: int|
            before_tools(messages, at) < i <= at && i < messages.len() ==> (
            #[trigger] messages[i]).role == Role::Tool,
    decreases at,
{
    if at > 0 && at < messages.len() && messages[at as int].role == Role::Tool {
        lemma_before_tools(messages, (at - 1) as nat);
    }
}

/// Compression keeps the recent messages: whatever the mode, the last ones come
/// through unchanged and in order, and nothing but old messages is replaced.
pub proof fn law_recent_messages_are_kept(
    messages: Seq<MessageView>,
    recent: usize,
    mode: CompressionMode,
    summary: Seq<char>,
)
    ensures
        ({
            let split = split_point(messages, recent, mode);
            let after = with_summary(messages, split, summary);
            &&& messages.len() <= recent ==> after == messages
            &&& messages.len() > recent ==> split + recent <= messages.len()
            &&& messages.len() > recent ==> after.skip(after.len() - recent) == messages.skip(
                messages.len() - recent,
            )
        }),
{
    lemma_before_tools(messages, compressible(messages.len(), recent as nat, mode));
    let split = split_point(messages, recent, mode);
    let after = with_summary(messages, split, summary);
    if messages.len() > recent {
        assert(after.skip(after.len() - recent) =~= messages.skip(messages.len() - recent));
    }
}

/// A tool result is never the first message that compression keeps, so it is not
/// torn from the call it belongs to.
pub proof fn law_tool_results_stay_with_their_calls(
    messages: Seq<MessageView>,
    recent: usize,
    mode: CompressionMode,
)
    requires
        recent > 0,
    ensures
        ({
            let split = split_point(messages, recent, mode);
            0 < split ==> split < messages.len() && messages[split as int].role != Role::Tool
        }),
{
    lemma_before_tools(messages, compressible(messages.len(), recent as nat, mode));
}

/// Mild compression replaces no more messages than strong compression does.
pub proof fn law_mild_is_milder(messages: Seq<MessageView>, recent: usize)
    ensures
        split_point(messages, recent, CompressionMode::Mild) <= split_point(
            messages,
            recent,
            CompressionMode::Strong,
        ),
{
    let a = compressible(messages.len(), recent as nat, CompressionMode::Mild);
    let b = compressible(messages.len(), recent as nat, CompressionMode::Strong);
    lemma_before_tools_monotone(messages, a, b);
}

proof fn lemma_before_tools_monotone(messages: Seq<MessageView>, a: nat, b: nat)
    requires
        a <= b,
    ensures
        before_tools(messages, a) <= before_tools(messages, b),
    decreases b,
{
    if a < b && b < messages.len() && messages[b as int].role == Role::Tool {
        lemma_before_tools_monotone(messages, a, (b - 1) as nat);
    } else {
        lemma_before_tools(messages, a);
    }
}

/// A larger context never calls for less compression.
pub proof fn law_gates_are_ordered(config: ContextConfig, a: nat, b: nat)
    requires
        a <= b,
        config.wf(),
    ensures
        mode_for(config, a) is Some ==> mode_for(config, b) is Some,
        mode_for(config, a) == Some(CompressionMode::Strong) ==> mode_for(config, b) == Some(
            CompressionMode::Strong,
        ),
{
    let m = config.mild_compression_percent as int;
    let s = config.strong_compression_percent as int;
    let t = config.token_budget as int;
    assert(t * m <= t * s) by (nonlinear_arith)
        requires
            0 <= t,
            m <= s,
    ;
}

/// What is handed to the summary when the first `split` messages are taken out of a
/// conversation: their documents, in order, as one text.
pub fn summary_source(history: &Vec<Message>, split: usize) -> (r: String)
    requires
        split <= history@.len(),
    ensures
        r@ == json::json_text_of(
            provider::messages_json(provider::message_views(history@).take(split as int)),
        ),
{
    let ghost old = provider::message_views(history@).take(split as int);
    let mut items: Vec<json::Json> = Vec::new();
    let mut i: usize = 0;
    while i < split
        invariant
            i <= split <= history@.len(),
            old == provider::message_views(history@).take(split as int),
            items@.len() == i,
            forall|k: int|
                0 <= k < i ==> (#[trigger] items@[k])@ == provider::message_json(old[k]),
        decreases split - i,
    {
        items.push(provider::message_to_json(&history[i]));
        i = i + 1;
    }
    assert(json::list_view(items@) =~= provider::messages_json(old)->Array_0);
    json::json_text(&json::array(items))
}

/// A context is the system prompt, the project rules where there are any, the conversation
/// as it stands and the environment: every message of the conversation once, in its place.
pub proof fn law_the_conversation_stands_in_order(
    c: ContextView,
    history: Seq<MessageView>,
    environment: Seq<char>,
)
    ensures
        ({
            let context = composed(c, history, environment);
            let p: int = if c.project_rules is Some {
                2
            } else {
                1
            };
            &&& context.len() == p + history.len() + 1
            &&& forall|i: int| 0 <= i < history.len() ==> context[p + i] == #[trigger] history[i]
            &&& context[0].role is System && context[0].content == Some(c.system_prompt)
            &&& c.project_rules is Some ==> context[1].role is System && context[1].content == Some(
                "项目规则（AGENTS.md）：\n"@ + c.project_rules->0,
            )
            &&& context.last().role is System && context.last().content == Some(environment)
        }),
{
}

/// Where a message of the conversation answers a call, the call still stands before it in
/// the context.
pub proof fn law_answers_follow_their_calls(
    c: ContextView,
    history: Seq<MessageView>,
    environment: Seq<char>,
    call: int,
    answer: int,
)
    requires
        0 <= call < answer < history.len(),
    ensures
        exists|i: int, j: int|
            0 <= i < j < composed(c, history, environment).len() && #[trigger] composed(
                c,
                history,
                environment,
            )[i] == history[call] && #[trigger] composed(c, history, environment)[j]
                == history[answer],
{
    let p: int = if c.project_rules is Some {
        2
    } else {
        1
    };
    law_the_conversation_stands_in_order(c, history, environment);
    assert(composed(c, history, environment)[p + call] == history[call]);
    assert(composed(c, history, environment)[p + answer] == history[answer]);
}

/// A conversation that grows at its end leaves what the context held of it in place.
pub proof fn law_a_longer_conversation_keeps_its_start(
    c: ContextView,
    a: Seq<MessageView>,
    b: Seq<MessageView>,
    environment: Seq<char>,
)
    ensures
        composed(c, a + b, environment).take(composed(c, a, environment).len() - 1) == composed(
            c,
            a,
            environment,
        ).drop_last(),
        composed(c, a + b, environment).len() == composed(c, a, environment).len() + b.len(),
{
    assert(composed(c, a + b, environment).take(composed(c, a, environment).len() - 1)
        =~= composed(c, a, environment).drop_last());
}

/// A summary takes the place of the oldest messages and of nothing else: one message with
/// its text comes first, and every later message follows as it was.
pub proof fn law_a_summary_replaces_the_oldest(
    messages: Seq<MessageView>,
    split: nat,
    summary: Seq<char>,
)
    requires
        split <= messages.len(),
    ensures
        split == 0 ==> with_summary(messages, split, summary) == messages,
        split > 0 ==> with_summary(messages, split, summary).len() == messages.len() - split + 1,
        split > 0 ==> with_summary(messages, split, summary)[0].role is System && with_summary(
            messages,
            split,
            summary,
        )[0].content == Some("此前对话摘要：\n"@ + summary),
        split > 0 ==> forall|i: int|
            split <= i < messages.len() ==> with_summary(messages, split, summary)[i - split + 1]
                == #[trigger] messages[i],
{
}

/// Strong compression leaves the recent messages alone; mild compression takes a third of
/// what strong takes, rounded up. Neither takes anything of a conversation that is all
/// recent.
pub proof fn law_what_compression_takes(len: nat, recent: nat)
    ensures
        len <= recent ==> compressible(len, recent, CompressionMode::Strong) == 0,
        len <= recent ==> compressible(len, recent, CompressionMode::Mild) == 0,
        len > recent ==> compressible(len, recent, CompressionMode::Strong) + recent == len,
        len > recent ==> len - recent <= 3 * compressible(len, recent, CompressionMode::Mild) < len
            - recent + 3,
{
}

/// The split moves back over results of tools only, until the message at it is none.
pub proof fn law_the_split_steps_over_results(messages: Seq<MessageView>, at: nat)
    requires
        at < messages.len(),
    ensures
        before_tools(messages, at) <= at,
        before_tools(messages, at) > 0 ==> messages[before_tools(messages, at) as int].role
            != Role::Tool,
        forall|i: int|
            before_tools(messages, at) < i <= at ==> (#[trigger] messages[i]).role == Role::Tool,
        messages[at as int].role != Role::Tool ==> before_tools(messages, at) == at,
    decreases at,
{
    if at > 0 && messages[at as int].role == Role::Tool {
        law_the_split_steps_over_results(messages, (at - 1) as nat);
    }
}

/// A conversation calls for strong compression when it takes more than the strong share of
/// the budget, for mild compression when it takes more than the mild share only, and for
/// none below both.
pub proof fn law_compression_follows_the_shares(config: ContextConfig, total: nat)
    requires
        config.token_budget * config.strong_compression_percent <= usize::MAX,
        config.mild_compression_percent <= config.strong_compression_percent,
    ensures
        mode_for(config, total) == Some(CompressionMode::Strong) <==> 100 * total
            > config.token_budget * config.strong_compression_percent,
        mode_for(config, total) is None <==> 100 * total <= config.token_budget
            * config.mild_compression_percent,
        mode_for(config, total) == Some(CompressionMode::Mild) <==> config.token_budget
            * config.mild_compression_percent < 100 * total <= config.token_budget
            * config.strong_compression_percent,
{
    let b = config.token_budget as int;
    let m = config.mild_compression_percent as int;
    let s = config.strong_compression_percent as int;
    assert(b * m <= b * s) by (nonlinear_arith)
        requires
            0 <= b,
            m <= s,
    ;
    assert(0 <= b * m) by (nonlinear_arith)
        requires
            0 <= b,
            0 <= m,
    ;
}

/// A conversation takes what its parts take together; a message takes something even when it
/// says nothing, more with every image and no less with more text.
pub proof fn law_conversations_add_up(a: Seq<MessageView>, b: Seq<MessageView>, m: MessageView)
    ensures
        conversation_tokens(a + b) == conversation_tokens(a) + conversation_tokens(b),
        conversation_tokens(seq![m]) == message_tokens(m),
        message_tokens(m) >= 6,
        m.image_urls.len() * 384 <= usize::MAX ==> message_tokens(m) == message_tokens(
            MessageView { image_urls: Seq::empty(), ..m },
        ) + 384 * m.image_urls.len(),
        m.content is Some ==> message_tokens(m) == message_tokens(
            MessageView { content: None, ..m },
        ) + text_tokens(m.content->0),
    decreases b.len(),
{
    assert(seq![m].drop_last() =~= Seq::<MessageView>::empty());
    reveal_with_fuel(conversation_tokens, 2);
    if b.len() == 0 {
        assert(a + b =~= a);
    } else {
        law_conversations_add_up(a, b.drop_last(), m);
        assert((a + b).drop_last() =~= a + b.drop_last());
        assert((a + b).last() == b.last());
    }
}

/// Pieces put together give what they were cut from, however they are grouped.
pub proof fn law_pieces_join(a: Seq<Seq<char>>, b: Seq<Seq<char>>, s: Seq<char>)
    ensures
        concat(a + b) == concat(a) + concat(b),
        concat(seq![s]) == s,
    decreases b.len(),
{
    assert(seq![s].drop_last() =~= Seq::<Seq<char>>::empty());
    reveal_with_fuel(concat, 2);
    assert(concat(seq![s]) =~= s);
    if b.len() == 0 {
        assert(a + b =~= a);
    } else {
        law_pieces_join(a, b.drop_last(), s);
        assert((a + b).drop_last() =~= a + b.drop_last());
        assert((a + b).last() == b.last());
    }
    assert(concat(a + b) =~= concat(a) + concat(b));
}

/// A text that fits stays; a longer one keeps its start and says that it was cut.
pub proof fn law_long_summaries_keep_their_start(s: Seq<char>, max_chars: nat)
    ensures
        s.len() <= max_chars ==> truncated(s, max_chars) == s,
        s.len() > max_chars ==> s.take(max_chars as int).is_prefix_of(truncated(s, max_chars)),
        s.len() > max_chars ==> "…[摘要已截断]"@.is_suffix_of(truncated(s, max_chars)),
        s.len() > max_chars ==> truncated(s, max_chars).len() == max_chars + "…[摘要已截断]"@.len(),
{
    if s.len() > max_chars {
        let t = truncated(s, max_chars);
        assert(t.subrange(t.len() - "…[摘要已截断]"@.len(), t.len() as int) =~= "…[摘要已截断]"@);
    }
}

/// The settings of a context are taken exactly where the budget and the number of recent
/// messages are large enough and the two shares are in order; then they are the ones given.
pub proof fn law_settings_are_taken_as_given(
    budget: usize,
    recent: usize,
    mild: usize,
    strong: usize,
)
    ensures
        config_of(budget, recent, mild, strong) is Ok <==> budget >= 256 && recent > 0 && mild > 0
            && mild < strong && strong <= 100,
        config_of(budget, recent, mild, strong) matches Ok(c) ==> c.token_budget == budget
            && c.recent_messages == recent && c.mild_compression_percent == mild
            && c.strong_compression_percent == strong && c.summary_chunk_tokens >= 128 && (3
            * c.summary_chunk_tokens <= budget || c.summary_chunk_tokens == 128),
{
}

/// A setting that is written out as a number is read as it; one that is not there has its
/// default; anything else is refused, by name.
pub proof fn law_settings_are_read(var: EnvVar, name: Seq<char>, default: usize, n: usize)
    ensures
        var is Missing ==> setting(var, name, default) == Ok::<usize, Seq<char>>(default),
        var is NotUnicode ==> setting(var, name, default) is Err,
        var matches EnvVar::Value(s) ==> s@ == text::decimal(n as nat) ==> setting(
            var,
            name,
            default,
        ) == Ok::<usize, Seq<char>>(n),
        setting(var, name, default) is Err ==> text::has_text(
            setting(var, name, default)->Err_0,
            name,
        ),
{
    text::law_decimals_read_back(n as nat, usize::MAX as nat);
    if setting(var, name, default) is Err {
        let s = setting(var, name, default)->Err_0;
        let at = if var is NotUnicode {
            "读取环境变量 "@.len() as int
        } else {
            "环境变量 "@.len() as int
        };
        assert(s.subrange(at, at + name.len()) =~= name);
        assert(text::occurs_at(s, name, at));
    }
}

/// The query of a conversation is the text of the last message of the user, and nothing where
/// there is none.
pub proof fn law_the_query_is_the_users_last(messages: Seq<MessageView>)
    ensures
        (forall|i: int| 0 <= i < messages.len() ==> (#[trigger] messages[i]).role != Role::User)
            ==> last_query(messages) == Seq::<char>::empty(),
        forall|k: int|
            0 <= k < messages.len() && (#[trigger] messages[k]).role == Role::User && (forall|j: int|
                k < j < messages.len() ==> (#[trigger] messages[j]).role != Role::User)
                ==> last_query(messages) == (match messages[k].content {
                Some(c) => c,
                None => Seq::empty(),
            }),
    decreases messages.len(),
{
    if messages.len() > 0 {
        let w = messages.drop_last();
        law_the_query_is_the_users_last(w);
        assert(messages[messages.len() - 1] == messages.last());
        assert forall|k: int|
            0 <= k < messages.len() && (#[trigger] messages[k]).role == Role::User && (forall|j: int|
                k < j < messages.len() ==> (#[trigger] messages[j]).role != Role::User) implies last_query(
            messages,
        ) == (match messages[k].content {
            Some(c) => c,
            None => Seq::empty(),
        }) by {
            if k < w.len() {
                assert(w[k] == messages[k]);
                assert(messages[messages.len() - 1].role != Role::User);
                assert forall|j: int| k < j < w.len() implies (#[trigger] w[j]).role
                    != Role::User by {
                    assert(messages[j] == w[j]);
                }
            }
        }
        if forall|i: int| 0 <= i < messages.len() ==> (#[trigger] messages[i]).role != Role::User {
            assert forall|i: int| 0 <= i < w.len() implies (#[trigger] w[i]).role
                != Role::User by {
                assert(messages[i] == w[i]);
            }
        }
    }
}

/// The branch is named as it was told, without the white space around it.
pub proof fn law_the_branch_is_named(output: Option<Seq<char>>)
    ensures
        output is Some && !text::blank(output->0) ==> branch_label(output) == text::trim(output->0),
        output is None || text::blank(output->0) ==> branch_label(output)
            == "（非 Git 仓库或 detached HEAD）"@,
{
    if output is Some {
        text::lemma_blank_trim(output->0);
    }
}

/// A text that is short enough is summarised whole; a longer one in parts that give it back
/// when put together; at the greatest depth it is cut.
pub proof fn law_summaries_begin_with_the_whole_text(
    source: Seq<char>,
    depth: nat,
    chunk_tokens: usize,
    s: Summary,
)
    requires
        starts_as(source, depth, chunk_tokens, s),
    ensures
        s is Done <==> depth >= MAX_SUMMARY_DEPTH,
        s matches Summary::Whole(t) ==> t@ == source && text_tokens(source) <= chunk_tokens,
        s matches Summary::Parts { chunks, summaries, .. } ==> text_tokens(source) > chunk_tokens
            && concat(text::views(chunks@)) == source && summaries@.len() == 0 && forall|i: int|
            0 <= i < chunks@.len() ==> (#[trigger] chunks@[i])@.len() > 0,
        s matches Summary::Done(t) ==> source.len() <= 3 * chunk_tokens && 3 * chunk_tokens
            <= usize::MAX ==> t@ == source,
{
    if let Summary::Parts { chunks, .. } = s {
        let v = text::views(chunks@);
        assert forall|i: int| 0 <= i < chunks@.len() implies (#[trigger] chunks@[i])@.len()
            > 0 by {
            assert(v[i] == chunks@[i]@);
            if i < v.len() - 1 {
                assert(just_full(v[i], chunk_tokens));
            } else {
                assert(v.last() == v[i]);
            }
        }
    }
}

/// A part of a text that was cut to be summarised is within its limit until its last
/// character.
pub proof fn law_parts_are_within_their_limit(chunk: Seq<char>, budget: usize, k: int)
    requires
        grows(chunk, budget),
        0 < k < chunk.len(),
    ensures
        text_tokens(chunk.take(k)) < budget,
        k < char_limit(budget),
{
    assert(!chunk_full(chunk.take(k), budget));
}

/// What is added to the environment stands on a line of its own; what is not there adds
/// nothing.
pub proof fn law_blocks_stand_apart(b: Option<Seq<char>>)
    ensures
        b is None ==> block(b).len() == 0,
        b is Some ==> block(b).len() == b->0.len() + 1 && block(b)[0] == '\n' && block(b).skip(1)
            == b->0,
{
    if b is Some {
        assert(block(b).skip(1) =~= b->0);
    }
}

} // verus!
