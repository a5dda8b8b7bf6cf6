//! The prompts the assistant sends for each action, and the checks and
//! choices made before a request goes to the provider.
use vstd::prelude::*;

use crate::ai::action_classifier::AiAction;
use crate::ai::openai_compatible::{spec_error_text, AiClientError, ChatMessage};
use crate::config::ipc::{find_provider, same_provider};
use crate::config::{AiProviderConfig, AppConfig};
use crate::text::{contains, lower, trim};
use crate::types::PublicError;

verus! {

/// The system instructions of every action.
pub open spec fn action_system_prompt() -> Seq<char> {
    "你是一个 Windows 桌面划词 AI 助手。只根据用户提供的文本回答，不联网，不编造来源。除非翻译动作明确指定目标语言，否则回答使用中文。"@
}

/// What an explicit output target asks for.
#[derive(Debug, Clone, Copy, PartialEq, Eq, Structural)]
pub enum OutputTargetKind {
    /// Morse code.
    Morse,
    /// An approximate ancient or pictographic script.
    AncientScript,
    /// A style or register of the same language.
    StyleRewrite,
    /// A language to translate into.
    Language,
}

/// How a target is read: Morse first, then an ancient script, then a style,
/// else a language.
pub open spec fn spec_output_target_kind(target: Seq<char>) -> OutputTargetKind {
    let l = lower(target);
    if target.contains('摩') || contains(l, "morse"@) {
        OutputTargetKind::Morse
    } else if contains(target, "甲骨"@) || contains(target, "象形"@) || contains(target, "古文字"@)
        || contains(l, "pictograph"@) {
        OutputTargetKind::AncientScript
    } else if contains(target, "文言"@) || contains(target, "白话"@) || contains(target, "风格"@)
        || contains(target, "口吻"@) || contains(target, "语气"@) || contains(target, "敬语"@)
        || contains(l, "style"@) {
        OutputTargetKind::StyleRewrite
    } else {
        OutputTargetKind::Language
    }
}

/// The kind of an output target (see `spec_output_target_kind`).
pub fn output_target_kind(target: &str) -> (k: OutputTargetKind)
    ensures
        k == spec_output_target_kind(target@),
{
    let t = crate::text::chars_of(target);
    let l = crate::text::to_lower_chars(&t);
    if crate::text::contains_char(&t, '摩') || crate::text::contains_str(&l, "morse") {
        OutputTargetKind::Morse
    } else if crate::text::contains_str(&t, "甲骨") || crate::text::contains_str(&t, "象形")
        || crate::text::contains_str(&t, "古文字") || crate::text::contains_str(&l, "pictograph") {
        OutputTargetKind::AncientScript
    } else if crate::text::contains_str(&t, "文言") || crate::text::contains_str(&t, "白话")
        || crate::text::contains_str(&t, "风格") || crate::text::contains_str(&t, "口吻")
        || crate::text::contains_str(&t, "语气") || crate::text::contains_str(&t, "敬语")
        || crate::text::contains_str(&l, "style") {
        OutputTargetKind::StyleRewrite
    } else {
        OutputTargetKind::Language
    }
}

/// The prompt for an explicit output target.
pub open spec fn spec_targeted_output_prompt(target: Seq<char>, text: Seq<char>) -> Seq<char> {
    match spec_output_target_kind(target) {
        OutputTargetKind::Morse => "请把以下内容转换成"@ + target + "，并且只输出转换结果。\n要求：\n- 使用标准摩斯密码表示可转换的字母和数字\n- 单词或语义间隔可用 / 分隔\n- 不要解释，不要添加标题，不要使用 Markdown\n- 不要扩展不存在的信息\n\n内容：\n"@ + text,
        OutputTargetKind::AncientScript => "请把以下内容转换成"@ + target + "，并且只输出转换结果。\n要求：\n- 这是近似转写，不要求真实考古字形一一对应\n- 优先保留原意，用接近甲骨文、象形文字或古文字气质的表达\n- 不要解释，不要添加标题，不要使用 Markdown\n- 不要扩展不存在的信息\n\n内容：\n"@ + text,
        OutputTargetKind::StyleRewrite => "请把以下内容改写成"@ + target + "，并且只输出改写结果。\n要求：\n- 严格遵循目标风格或语体："@ + target + "\n- 保留原文含义、称谓、换行和标点风格\n- 不要解释，不要添加标题，不要使用 Markdown\n- 不要扩展不存在的信息\n\n内容：\n"@ + text,
        OutputTargetKind::Language => "请把以下内容翻译成"@ + target + "，并且只输出译文。\n要求：\n- 严格使用目标语言："@ + target + "\n- 不要根据原文语言自动切换到其他目标语言\n- 只输出可直接替换原文的译文，不要解释，不要添加标题，不要使用 Markdown\n- 保留原文的语气、称谓、换行和标点风格\n- 不要扩展不存在的信息\n\n内容：\n"@ + text,
    }
}

/// The user prompt of `action` on `text`. `target` is the explicit output
/// target, already trimmed and not empty; only `TranslateOnly` reads it.
pub open spec fn spec_action_prompt(action: AiAction, text: Seq<char>, target: Option<Seq<char>>) -> Seq<char> {
    match action {
        AiAction::TranslateExplain => "请把以下内容翻译成中文，并用简短语言解释重点。\n要求：\n- 先给自然中文翻译\n- 再给 2-4 条解释\n- 不要扩展不存在的信息\n\n内容：\n"@ + text,
        AiAction::Explain => "请解释以下内容。\n要求：\n- 用中文回答\n- 先给一句话概括\n- 再解释关键概念\n- 如果内容可能有歧义，指出歧义\n- 不要联网，不要编造来源\n\n内容：\n"@ + text,
        AiAction::Summarize => "请总结以下内容。\n要求：\n- 先给 3-5 条要点\n- 再给一句结论\n- 保留关键数字、名称和条件\n- 不要添加原文没有的信息\n\n内容：\n"@ + text,
        AiAction::CodeExplain => "请解释以下代码。\n要求：\n- 判断语言或技术栈\n- 说明这段代码在做什么\n- 标出关键逻辑\n- 如有明显问题，指出可能风险\n- 不要重写整段代码，除非我追问\n\n代码：\n"@ + text,
        AiAction::ErrorExplain => "请解释以下报错。\n要求：\n- 判断可能原因\n- 给出排查步骤\n- 给出可能修复方向\n- 如果信息不足，说明还需要哪些上下文\n\n报错：\n"@ + text,
        AiAction::ExpandPrompt => "请把以下原始提示词或需求描述扩写成更清晰、更结构化、更容易让 AI 执行的中文提示词。\n要求：\n- 保留用户原意，不擅自改变目标\n- 不添加原文没有依据的事实、数据或背景\n- 补齐可执行表达，包括目标、上下文、约束、输出格式和注意事项\n- 先给出「优化后提示词」\n- 再用 3-5 条列出「主要改进点」\n- 如果原始需求信息不足，在提示词中加入需要用户补充的占位项\n\n原始提示词或需求描述：\n"@ + text,
        AiAction::MenuFallback => "请根据以下内容给出简洁解释。\n要求：\n- 用中文回答\n- 不要联网\n- 不要添加原文没有的信息\n\n内容：\n"@ + text,
        AiAction::TranslateOnly => match target {
            Some(t) => spec_targeted_output_prompt(t, text),
            None => "请把以下内容翻译成目标语言，并且只输出译文。\n要求：\n- 如果原文主要是中文，翻译成自然英文\n- 如果原文主要是英文或其他语言，翻译成自然中文\n- 只输出译文，不要解释，不要添加标题，不要使用 Markdown\n- 不要扩展不存在的信息\n\n内容：\n"@ + text,
        },
    }
}

/// Every prompt is a head fixed by the action and the target, followed by
/// the selected text itself: the prompt of a text is the prompt of the empty
/// text with the text appended, so it ends with the text, whole.
pub proof fn lemma_prompt_ends_with_the_text(action: AiAction, text: Seq<char>, target: Option<Seq<char>>)
    ensures
        spec_action_prompt(action, text, target) == spec_action_prompt(action, Seq::<char>::empty(), target)
            + text,
        crate::text::ends_with(spec_action_prompt(action, text, target), text),
{
    let e = Seq::<char>::empty();
    match action {
        AiAction::TranslateOnly => match target {
            Some(t) => {
                assert(spec_targeted_output_prompt(t, text) =~= spec_targeted_output_prompt(t, e) + text);
            },
            None => {
                assert(spec_action_prompt(action, text, target) =~= spec_action_prompt(action, e, target) + text);
            },
        },
        _ => {
            assert(spec_action_prompt(action, text, target) =~= spec_action_prompt(action, e, target) + text);
        },
    }
    let p = spec_action_prompt(action, text, target);
    let h = spec_action_prompt(action, e, target);
    assert(p.subrange(p.len() - text.len(), p.len() as int) =~= text);
}

/// A follow-up prompt carries the original text and the previous answer
/// whole, and ends with the question.
pub proof fn lemma_follow_up_prompt_holds_the_texts(original: Seq<char>, previous: Seq<char>, question: Seq<char>)
    ensures
        crate::text::ends_with(spec_follow_up_prompt(original, previous, question), question),
        contains(spec_follow_up_prompt(original, previous, question), original),
        contains(spec_follow_up_prompt(original, previous, question), previous),
{
    let p = spec_follow_up_prompt(original, previous, question);
    let h1 = "请基于原始选中文本和上一轮回答，回答用户追问。\n要求：\n- 用中文回答\n- 优先延续上一轮回答的上下文\n- 如果追问超出原始文本和上一轮回答能支持的范围，请明确说明信息不足\n- 不要添加没有依据的事实、数据或来源\n\n原始选中文本：\n"@;
    let h2 = h1 + original + "\n\n上一轮回答：\n"@;
    assert(p.subrange(p.len() - question.len(), p.len() as int) =~= question);
    assert(p.subrange(h1.len() as int, (h1.len() + original.len()) as int) =~= original);
    assert(crate::text::occurs_at(p, original, h1.len() as int));
    assert(p.subrange(h2.len() as int, (h2.len() + previous.len()) as int) =~= previous);
    assert(crate::text::occurs_at(p, previous, h2.len() as int));
}

/// The explicit target of a request: trimmed, and `None` where nothing is left.
pub open spec fn spec_explicit_target(target: Option<Seq<char>>) -> Option<Seq<char>> {
    match target {
        Some(t) => if trim(t).len() > 0 {
            Some(trim(t))
        } else {
            None
        },
        None => None,
    }
}

/// The follow-up prompt.
pub open spec fn spec_follow_up_prompt(original: Seq<char>, previous: Seq<char>, question: Seq<char>) -> Seq<char> {
    "请基于原始选中文本和上一轮回答，回答用户追问。\n要求：\n- 用中文回答\n- 优先延续上一轮回答的上下文\n- 如果追问超出原始文本和上一轮回答能支持的范围，请明确说明信息不足\n- 不要添加没有依据的事实、数据或来源\n\n原始选中文本：\n"@ + original + "\n\n上一轮回答：\n"@ + previous + "\n\n用户追问：\n"@ + question
}

/// The system instructions of a follow-up question.
pub open spec fn follow_up_system_prompt() -> Seq<char> {
    "你是一个 Windows 桌面划词 AI 助手。只根据用户提供的原始文本、上一轮回答和追问回答，不联网，不编造来源。回答使用中文。"@
}

fn targeted_output_prompt(target: &[char], text: &str) -> (r: Vec<char>)
    ensures
        r@ == spec_targeted_output_prompt(target@, text@),
{
    let target_text = crate::text::string_of(target);
    let kind = output_target_kind(target_text.as_str());
    let mut out: Vec<char>;
    match kind {
        OutputTargetKind::Morse => {
            out = crate::text::chars_of("请把以下内容转换成");
            crate::text::push_all(&mut out, target);
            crate::text::push_str(&mut out, "，并且只输出转换结果。\n要求：\n- 使用标准摩斯密码表示可转换的字母和数字\n- 单词或语义间隔可用 / 分隔\n- 不要解释，不要添加标题，不要使用 Markdown\n- 不要扩展不存在的信息\n\n内容：\n");
        },
        OutputTargetKind::AncientScript => {
            out = crate::text::chars_of("请把以下内容转换成");
            crate::text::push_all(&mut out, target);
            crate::text::push_str(&mut out, "，并且只输出转换结果。\n要求：\n- 这是近似转写，不要求真实考古字形一一对应\n- 优先保留原意，用接近甲骨文、象形文字或古文字气质的表达\n- 不要解释，不要添加标题，不要使用 Markdown\n- 不要扩展不存在的信息\n\n内容：\n");
        },
        OutputTargetKind::StyleRewrite => {
            out = crate::text::chars_of("请把以下内容改写成");
            crate::text::push_all(&mut out, target);
            crate::text::push_str(&mut out, "，并且只输出改写结果。\n要求：\n- 严格遵循目标风格或语体：");
            crate::text::push_all(&mut out, target);
            crate::text::push_str(&mut out, "\n- 保留原文含义、称谓、换行和标点风格\n- 不要解释，不要添加标题，不要使用 Markdown\n- 不要扩展不存在的信息\n\n内容：\n");
        },
        OutputTargetKind::Language => {
            out = crate::text::chars_of("请把以下内容翻译成");
            crate::text::push_all(&mut out, target);
            crate::text::push_str(&mut out, "，并且只输出译文。\n要求：\n- 严格使用目标语言：");
            crate::text::push_all(&mut out, target);
            crate::text::push_str(&mut out, "\n- 不要根据原文语言自动切换到其他目标语言\n- 只输出可直接替换原文的译文，不要解释，不要添加标题，不要使用 Markdown\n- 保留原文的语气、称谓、换行和标点风格\n- 不要扩展不存在的信息\n\n内容：\n");
        },
    }
    crate::text::push_str(&mut out, text);
    out
}

fn action_prompt(action: AiAction, text: &str, target: Option<&[char]>) -> (r: Vec<char>)
    ensures
        r@ == spec_action_prompt(action, text@, match target { Some(t) => Some(t@), None => None }),
{
    let head: &str = match action {
        AiAction::TranslateExplain => "请把以下内容翻译成中文，并用简短语言解释重点。\n要求：\n- 先给自然中文翻译\n- 再给 2-4 条解释\n- 不要扩展不存在的信息\n\n内容：\n",
        AiAction::Explain => "请解释以下内容。\n要求：\n- 用中文回答\n- 先给一句话概括\n- 再解释关键概念\n- 如果内容可能有歧义，指出歧义\n- 不要联网，不要编造来源\n\n内容：\n",
        AiAction::Summarize => "请总结以下内容。\n要求：\n- 先给 3-5 条要点\n- 再给一句结论\n- 保留关键数字、名称和条件\n- 不要添加原文没有的信息\n\n内容：\n",
        AiAction::CodeExplain => "请解释以下代码。\n要求：\n- 判断语言或技术栈\n- 说明这段代码在做什么\n- 标出关键逻辑\n- 如有明显问题，指出可能风险\n- 不要重写整段代码，除非我追问\n\n代码：\n",
        AiAction::ErrorExplain => "请解释以下报错。\n要求：\n- 判断可能原因\n- 给出排查步骤\n- 给出可能修复方向\n- 如果信息不足，说明还需要哪些上下文\n\n报错：\n",
        AiAction::ExpandPrompt => "请把以下原始提示词或需求描述扩写成更清晰、更结构化、更容易让 AI 执行的中文提示词。\n要求：\n- 保留用户原意，不擅自改变目标\n- 不添加原文没有依据的事实、数据或背景\n- 补齐可执行表达，包括目标、上下文、约束、输出格式和注意事项\n- 先给出「优化后提示词」\n- 再用 3-5 条列出「主要改进点」\n- 如果原始需求信息不足，在提示词中加入需要用户补充的占位项\n\n原始提示词或需求描述：\n",
        AiAction::MenuFallback => "请根据以下内容给出简洁解释。\n要求：\n- 用中文回答\n- 不要联网\n- 不要添加原文没有的信息\n\n内容：\n",
        AiAction::TranslateOnly => match target {
            Some(t) => return targeted_output_prompt(t, text),
            None => "请把以下内容翻译成目标语言，并且只输出译文。\n要求：\n- 如果原文主要是中文，翻译成自然英文\n- 如果原文主要是英文或其他语言，翻译成自然中文\n- 只输出译文，不要解释，不要添加标题，不要使用 Markdown\n- 不要扩展不存在的信息\n\n内容：\n",
        },
    };
    let mut out = crate::text::chars_of(head);
    crate::text::push_str(&mut out, text);
    out
}

/// The two messages of an action: the system instructions, then the prompt.
pub fn build_prompt_messages(action: AiAction, text: &str) -> (r: Vec<ChatMessage>)
    ensures
        r@.len() == 2,
        r@[0].role@ == "system"@,
        r@[0].content@ == action_system_prompt(),
        r@[1].role@ == "user"@,
        r@[1].content@ == spec_action_prompt(action, text@, None),
        crate::text::ends_with(r@[1].content@, text@),
{
    proof {
        lemma_prompt_ends_with_the_text(action, text@, None);
    }
    build_prompt_messages_with_target(action, text, None)
}

/// The two messages of an action with an optional output target; a target
/// that is blank once trimmed counts as none.
pub fn build_prompt_messages_with_target(
    action: AiAction,
    text: &str,
    target_language: Option<&str>,
) -> (r: Vec<ChatMessage>)
    ensures
        r@.len() == 2,
        r@[0].role@ == "system"@,
        r@[0].content@ == action_system_prompt(),
        r@[1].role@ == "user"@,
        r@[1].content@ == spec_action_prompt(
            action,
            text@,
            spec_explicit_target(match target_language { Some(t) => Some(t@), None => None }),
        ),
        crate::text::ends_with(r@[1].content@, text@),
{
    proof {
        lemma_prompt_ends_with_the_text(
            action,
            text@,
            spec_explicit_target(match target_language { Some(t) => Some(t@), None => None }),
        );
    }
    let system = ChatMessage::system("你是一个 Windows 桌面划词 AI 助手。只根据用户提供的文本回答，不联网，不编造来源。除非翻译动作明确指定目标语言，否则回答使用中文。");
    let trimmed: Option<Vec<char>> = match target_language {
        Some(t) => {
            let v = crate::text::trim_str(t);
            if v.len() > 0 {
                Some(v)
            } else {
                None
            }
        },
        None => None,
    };
    let prompt = match &trimmed {
        Some(t) => action_prompt(action, text, Some(t.as_slice())),
        None => action_prompt(action, text, None),
    };
    let prompt_text = crate::text::string_of(&prompt);
    let mut messages: Vec<ChatMessage> = Vec::new();
    messages.push(system);
    messages.push(ChatMessage::user(prompt_text.as_str()));
    messages
}

/// The two messages of a follow-up question on an earlier answer.
pub fn build_follow_up_prompt_messages(
    original_text: &str,
    previous_answer: &str,
    question: &str,
) -> (r: Vec<ChatMessage>)
    ensures
        r@.len() == 2,
        r@[0].role@ == "system"@,
        r@[0].content@ == follow_up_system_prompt(),
        r@[1].role@ == "user"@,
        r@[1].content@ == spec_follow_up_prompt(original_text@, previous_answer@, question@),
        crate::text::ends_with(r@[1].content@, question@),
        contains(r@[1].content@, original_text@),
        contains(r@[1].content@, previous_answer@),
{
    proof {
        lemma_follow_up_prompt_holds_the_texts(original_text@, previous_answer@, question@);
    }
    let system = ChatMessage::system("你是一个 Windows 桌面划词 AI 助手。只根据用户提供的原始文本、上一轮回答和追问回答，不联网，不编造来源。回答使用中文。");
    let mut prompt = crate::text::chars_of("请基于原始选中文本和上一轮回答，回答用户追问。\n要求：\n- 用中文回答\n- 优先延续上一轮回答的上下文\n- 如果追问超出原始文本和上一轮回答能支持的范围，请明确说明信息不足\n- 不要添加没有依据的事实、数据或来源\n\n原始选中文本：\n");
    crate::text::push_str(&mut prompt, original_text);
    crate::text::push_str(&mut prompt, "\n\n上一轮回答：\n");
    crate::text::push_str(&mut prompt, previous_answer);
    crate::text::push_str(&mut prompt, "\n\n用户追问：\n");
    crate::text::push_str(&mut prompt, question);
    let prompt_text = crate::text::string_of(&prompt);
    let mut messages: Vec<ChatMessage> = Vec::new();
    messages.push(system);
    messages.push(ChatMessage::user(prompt_text.as_str()));
    messages
}

/// A request to run an AI action on a selection.
#[derive(Debug, Clone)]
pub struct RunAiActionRequest {
    pub request_id: String,
    pub action: AiAction,
    pub text: String,
    pub target_language: Option<String>,
}

/// A follow-up question on an earlier answer.
#[derive(Debug, Clone)]
pub struct RunAiFollowUpRequest {
    pub request_id: String,
    pub original_text: String,
    pub previous_answer: String,
    pub question: String,
}

#[derive(Debug, Clone)]
pub struct RunAiActionResponse {
    pub request_id: String,
}

/// What the panel is told when a stream fails.
#[derive(Debug, Clone)]
pub struct AiStreamErrorPayload {
    pub request_id: String,
    pub code: String,
    pub message: String,
}

#[derive(Debug, Clone)]
pub struct TestProviderConnectionResponse {
    pub success: bool,
    pub model_count: usize,
    pub model_list_available: bool,
}

/// A provider's error as the user interface receives it.
pub fn public_ai_error(code: &str, err: &AiClientError) -> (e: PublicError)
    ensures
        e.code@ == code@,
        e.message@ == spec_error_text(*err),
{
    PublicError { code: crate::text::owned(code), message: err.message() }
}

/// The message of a missing API key.
pub open spec fn api_key_missing_message() -> Seq<char> {
    "请在设置中填写 API 密钥，或配置 SELECTION_AI_API_KEY 环境变量。"@
}

/// The key a request is made with: the saved key, trimmed, where it is not
/// blank; else the value of the `SELECTION_AI_API_KEY` environment variable,
/// which the caller reads and passes as `env_key`.
pub fn provider_api_key(provider: &AiProviderConfig, env_key: Option<&str>) -> (r: Result<
    String,
    PublicError,
>)
    ensures
        trim(provider.api_key@).len() > 0 ==> (r matches Ok(k) && k@ == trim(provider.api_key@)),
        trim(provider.api_key@).len() == 0 ==> match env_key {
            Some(v) => r matches Ok(k) && k@ == v@,
            None => r matches Err(e) && e.code@ == "api_key_missing"@ && e.message@
                == api_key_missing_message(),
        },
{
    let saved = crate::text::trim_str(provider.api_key.as_str());
    if saved.len() > 0 {
        return Ok(crate::text::string_of(&saved));
    }
    match env_key {
        Some(v) => Ok(crate::text::owned(v)),
        None => Err(
            crate::types::public_error(
                "api_key_missing",
                "请在设置中填写 API 密钥，或配置 SELECTION_AI_API_KEY 环境变量。",
            ),
        ),
    }
}

/// The refusal of a provider lookup, as (code, message): no default set
/// (with the caller's `missing_default`), a default that names no provider,
/// or no key saved or given; `None` where the lookup succeeds.
pub open spec fn default_provider_refusal(
    config: AppConfig,
    env_key: Option<&str>,
    missing_default: Seq<char>,
) -> Option<(Seq<char>, Seq<char>)> {
    match config.default_provider_id {
        None => Some(("provider_missing"@, missing_default)),
        Some(d) => match find_provider(config.providers@, d@) {
            None => Some(("provider_missing"@, "未找到默认服务商配置。"@)),
            Some(i) => if trim(config.providers@[i].api_key@).len() == 0 && env_key is None {
                Some(("api_key_missing"@, api_key_missing_message()))
            } else {
                None
            },
        },
    }
}

/// The message of an AI request made before a default provider is set.
pub open spec fn no_default_provider_message() -> Seq<char> {
    "运行 AI 动作前需要先配置默认服务商。"@
}

/// The default provider and the key to use with it. `missing_default` is
/// the message given where no default is set.
pub fn default_provider_with_api_key(
    config: &AppConfig,
    env_key: Option<&str>,
    missing_default: &str,
) -> (r: Result<(AiProviderConfig, String), PublicError>)
    ensures
        config.default_provider_id is None ==> (r matches Err(e) && e.code@ == "provider_missing"@
            && e.message@ == missing_default@),
        config.default_provider_id matches Some(d) ==> match find_provider(config.providers@, d@) {
            None => r matches Err(e) && e.code@ == "provider_missing"@ && e.message@
                == "未找到默认服务商配置。"@,
            Some(i) => {
                let p = config.providers@[i];
                &&& trim(p.api_key@).len() > 0 ==> (r matches Ok((q, k)) && same_provider(q, p)
                    && k@ == trim(p.api_key@))
                &&& trim(p.api_key@).len() == 0 ==> match env_key {
                    Some(v) => r matches Ok((q, k)) && same_provider(q, p) && k@ == v@,
                    None => r matches Err(e) && e.code@ == "api_key_missing"@,
                }
            },
        },
        match default_provider_refusal(*config, env_key, missing_default@) {
            Some((code, message)) => r matches Err(e) && e.code@ == code && e.message@ == message,
            None => r is Ok,
        },
{
    let id = match &config.default_provider_id {
        Some(d) => d,
        None => return Err(crate::types::public_error("provider_missing", missing_default)),
    };
    let index = match crate::config::ipc::find_provider_index(&config.providers, id.as_str()) {
        Some(i) => i,
        None => return Err(crate::types::public_error("provider_missing", "未找到默认服务商配置。")),
    };
    let provider = crate::config::ipc::copy_provider(&config.providers[index]);
    match provider_api_key(&provider, env_key) {
        Ok(key) => Ok((provider, key)),
        Err(e) => Err(e),
    }
}

/// A request checked and turned into what the provider is sent.
pub struct PreparedChat {
    pub provider: AiProviderConfig,
    pub api_key: String,
    pub request_id: String,
    pub messages: Vec<ChatMessage>,
}

/// The checks and choices before an AI action is run: the text and the
/// request id must not be blank; the default provider and its key are
/// looked up; the prompt is built on the trimmed text and target.
pub fn prepare_ai_action(config: &AppConfig, env_key: Option<&str>, request: &RunAiActionRequest) -> (r:
    Result<PreparedChat, PublicError>)
    ensures
        trim(request.text@).len() == 0 ==> (r matches Err(e) && e.code@ == "selection_text_required"@),
        trim(request.text@).len() > 0 && trim(request.request_id@).len() == 0 ==> (r matches Err(e)
            && e.code@ == "request_id_required"@),
        r matches Ok(c) ==> {
            &&& trim(request.text@).len() > 0
            &&& c.request_id@ == trim(request.request_id@)
            &&& c.request_id@.len() > 0
            &&& c.messages@.len() == 2
            &&& c.messages@[0].role@ == "system"@
            &&& c.messages@[1].role@ == "user"@
            &&& crate::text::ends_with(c.messages@[1].content@, trim(request.text@))
            &&& c.messages@[0].content@ == action_system_prompt()
            &&& c.messages@[1].content@ == spec_action_prompt(
                request.action,
                trim(request.text@),
                spec_explicit_target(
                    match request.target_language {
                        Some(t) => Some(t@),
                        None => None,
                    },
                ),
            )
        },
        (trim(request.text@).len() > 0 && trim(request.request_id@).len() > 0) ==> match r {
            Ok(c) => default_provider_with_api_key_ok(*config, env_key, c.provider, c.api_key),
            Err(e) => !default_provider_exists_with_key(*config, env_key),
        },
        (trim(request.text@).len() > 0 && trim(request.request_id@).len() > 0) ==> match default_provider_refusal(
            *config,
            env_key,
            no_default_provider_message(),
        ) {
            Some((code, message)) => r matches Err(e) && e.code@ == code && e.message@ == message,
            None => r is Ok,
        },
{
    let text = crate::text::trim_str(request.text.as_str());
    if text.len() == 0 {
        return Err(crate::types::public_error("selection_text_required", "运行 AI 动作前需要选中文本。"));
    }
    let request_id = crate::text::trim_str(request.request_id.as_str());
    if request_id.len() == 0 {
        return Err(crate::types::public_error("request_id_required", "运行 AI 动作前需要 request id。"));
    }
    let (provider, api_key) = match default_provider_with_api_key(
        config,
        env_key,
        "运行 AI 动作前需要先配置默认服务商。",
    ) {
        Ok(found) => found,
        Err(e) => return Err(e),
    };
    let text_value = crate::text::string_of(&text);
    let messages = match &request.target_language {
        Some(t) => build_prompt_messages_with_target(request.action, text_value.as_str(), Some(t.as_str())),
        None => build_prompt_messages_with_target(request.action, text_value.as_str(), None),
    };
    Ok(PreparedChat { provider, api_key, request_id: crate::text::string_of(&request_id), messages })
}

/// The default provider exists and a key is available for it.
pub open spec fn default_provider_exists_with_key(config: AppConfig, env_key: Option<&str>) -> bool {
    match config.default_provider_id {
        None => false,
        Some(d) => match find_provider(config.providers@, d@) {
            None => false,
            Some(i) => trim(config.providers@[i].api_key@).len() > 0 || env_key is Some,
        },
    }
}

/// `provider` and `api_key` are the default provider and its key.
pub open spec fn default_provider_with_api_key_ok(
    config: AppConfig,
    env_key: Option<&str>,
    provider: AiProviderConfig,
    api_key: String,
) -> bool {
    match config.default_provider_id {
        None => false,
        Some(d) => match find_provider(config.providers@, d@) {
            None => false,
            Some(i) => {
                let p = config.providers@[i];
                &&& same_provider(provider, p)
                &&& if trim(p.api_key@).len() > 0 {
                    api_key@ == trim(p.api_key@)
                } else {
                    env_key matches Some(v) && api_key@ == v@
                }
            },
        },
    }
}

/// The checks and choices before a follow-up question is sent: request id,
/// original text, previous answer and question must not be blank, in this
/// order; the prompt is built on the trimmed texts.
pub fn prepare_follow_up(config: &AppConfig, env_key: Option<&str>, request: &RunAiFollowUpRequest) -> (r:
    Result<PreparedChat, PublicError>)
    ensures
        trim(request.request_id@).len() == 0 ==> (r matches Err(e) && e.code@ == "request_id_required"@),
        trim(request.request_id@).len() > 0 && trim(request.original_text@).len() == 0 ==> (r matches Err(
            e,
        ) && e.code@ == "selection_text_required"@),
        trim(request.request_id@).len() > 0 && trim(request.original_text@).len() > 0 && trim(
            request.previous_answer@,
        ).len() == 0 ==> (r matches Err(e) && e.code@ == "previous_answer_required"@),
        trim(request.request_id@).len() > 0 && trim(request.original_text@).len() > 0 && trim(
            request.previous_answer@,
        ).len() > 0 && trim(request.question@).len() == 0 ==> (r matches Err(e) && e.code@
            == "follow_up_question_required"@),
        r matches Ok(c) ==> {
            &&& c.request_id@ == trim(request.request_id@)
            &&& trim(request.question@).len() > 0
            &&& c.messages@.len() == 2
            &&& c.messages@[0].role@ == "system"@
            &&& c.messages@[1].role@ == "user"@
            &&& c.messages@[0].content@ == follow_up_system_prompt()
            &&& c.messages@[1].content@ == spec_follow_up_prompt(
                trim(request.original_text@),
                trim(request.previous_answer@),
                trim(request.question@),
            )
            &&& default_provider_with_api_key_ok(*config, env_key, c.provider, c.api_key)
        },
        (trim(request.request_id@).len() > 0 && trim(request.original_text@).len() > 0 && trim(
            request.previous_answer@,
        ).len() > 0 && trim(request.question@).len() > 0 && default_provider_exists_with_key(
            *config,
            env_key,
        )) ==> r is Ok,
        (trim(request.request_id@).len() > 0 && trim(request.original_text@).len() > 0 && trim(
            request.previous_answer@,
        ).len() > 0 && trim(request.question@).len() > 0) ==> match default_provider_refusal(
            *config,
            env_key,
            no_default_provider_message(),
        ) {
            Some((code, message)) => r matches Err(e) && e.code@ == code && e.message@ == message,
            None => r is Ok,
        },
{
    let request_id = crate::text::trim_str(request.request_id.as_str());
    if request_id.len() == 0 {
        return Err(crate::types::public_error("request_id_required", "运行追问前需要 request id。"));
    }
    let original = crate::text::trim_str(request.original_text.as_str());
    if original.len() == 0 {
        return Err(crate::types::public_error("selection_text_required", "追问前需要原始选中文本。"));
    }
    let previous = crate::text::trim_str(request.previous_answer.as_str());
    if previous.len() == 0 {
        return Err(crate::types::public_error("previous_answer_required", "追问前需要先生成一次回答。"));
    }
    let question = crate::text::trim_str(request.question.as_str());
    if question.len() == 0 {
        return Err(crate::types::public_error("follow_up_question_required", "请输入追问内容。"));
    }
    let (provider, api_key) = match default_provider_with_api_key(
        config,
        env_key,
        "运行 AI 动作前需要先配置默认服务商。",
    ) {
        Ok(found) => found,
        Err(e) => return Err(e),
    };
    let original_text = crate::text::string_of(&original);
    let previous_text = crate::text::string_of(&previous);
    let question_text = crate::text::string_of(&question);
    let messages = build_follow_up_prompt_messages(
        original_text.as_str(),
        previous_text.as_str(),
        question_text.as_str(),
    );
    Ok(PreparedChat { provider, api_key, request_id: crate::text::string_of(&request_id), messages })
}

/// How a provider stream ended.
pub enum StreamOutcome {
    Completed,
    Failed(AiClientError),
    TimedOut,
}

/// The error the panel is told of at the end of a stream, if any.
pub fn stream_error_payload(request_id: &str, outcome: &StreamOutcome) -> (r: Option<
    AiStreamErrorPayload,
>)
    ensures
        match *outcome {
            StreamOutcome::Completed => r is None,
            StreamOutcome::Failed(err) => r matches Some(p) && p.request_id@ == request_id@
                && p.code@ == "provider_stream_failed"@ && p.message@ == spec_error_text(err),
            StreamOutcome::TimedOut => r matches Some(p) && p.request_id@ == request_id@ && p.code@
                == "provider_stream_timeout"@ && p.message@ == "AI 服务商响应超时。"@,
        },
{
    match outcome {
        StreamOutcome::Completed => None,
        StreamOutcome::Failed(err) => Some(
            AiStreamErrorPayload {
                request_id: crate::text::owned(request_id),
                code: crate::text::owned("provider_stream_failed"),
                message: err.message(),
            },
        ),
        StreamOutcome::TimedOut => Some(
            AiStreamErrorPayload {
                request_id: crate::text::owned(request_id),
                code: crate::text::owned("provider_stream_timeout"),
                message: crate::text::owned("AI 服务商响应超时。"),
            },
        ),
    }
}

/// What a connection test does after the model list was asked for.
pub enum ConnectionStep {
    /// The test is over, with this answer.
    Done(Result<TestProviderConnectionResponse, PublicError>),
    /// The model list failed; a short chat is tried instead.
    ProbeChat(AiClientError),
}

/// A listed model count means success; a failed list means failure where no
/// model is set, else a chat probe.
pub fn connection_after_model_list(model: &str, models: Result<usize, AiClientError>) -> (r:
    ConnectionStep)
    ensures
        match models {
            Ok(n) => r matches ConnectionStep::Done(Ok(resp)) && resp.success && resp.model_count == n
                && resp.model_list_available,
            Err(err) => if trim(model@).len() == 0 {
                r matches ConnectionStep::Done(Err(e)) && e.code@ == "provider_model_list_failed"@
                    && e.message@ == spec_error_text(err)
            } else {
                r matches ConnectionStep::ProbeChat(e) && e == err
            },
        },
{
    match models {
        Ok(n) => ConnectionStep::Done(
            Ok(TestProviderConnectionResponse { success: true, model_count: n, model_list_available: true }),
        ),
        Err(err) => {
            if crate::text::trim_str(model).len() == 0 {
                ConnectionStep::Done(Err(public_ai_error("provider_model_list_failed", &err)))
            } else {
                ConnectionStep::ProbeChat(err)
            }
        },
    }
}

/// The message of the chat probe of a connection test.
pub fn connection_probe_messages() -> (r: Vec<ChatMessage>)
    ensures
        r@.len() == 1,
        r@[0].role@ == "user"@,
        r@[0].content@ == "请只回复 OK，用于连接测试。"@,
{
    let mut messages: Vec<ChatMessage> = Vec::new();
    messages.push(ChatMessage::user("请只回复 OK，用于连接测试。"));
    messages
}

/// The answer of a connection test once the chat probe is over.
pub fn connection_after_chat_probe(probe: Result<(), AiClientError>) -> (r: Result<
    TestProviderConnectionResponse,
    PublicError,
>)
    ensures
        match probe {
            Ok(()) => r matches Ok(resp) && resp.success && resp.model_count == 0
                && !resp.model_list_available,
            Err(err) => r matches Err(e) && e.code@ == "provider_connection_failed"@ && e.message@
                == "模型列表接口不可用，聊天接口测试也失败："@ + spec_error_text(err),
        },
{
    match probe {
        Ok(()) => Ok(
            TestProviderConnectionResponse { success: true, model_count: 0, model_list_available: false },
        ),
        Err(err) => {
            let mut message = crate::text::chars_of("模型列表接口不可用，聊天接口测试也失败：");
            let text = err.message();
            crate::text::push_str(&mut message, text.as_str());
            Err(
                PublicError {
                    code: crate::text::owned("provider_connection_failed"),
                    message: crate::text::string_of(&message),
                },
            )
        },
    }
}

} // verus!
