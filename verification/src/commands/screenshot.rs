//! The screenshot translation: its prompts and the choices made before the
//! capture is sent.
use vstd::prelude::*;

use crate::commands::ai::{spec_explicit_target, spec_output_target_kind, OutputTargetKind};
use crate::config::AiProviderKind;
use crate::text::trim;
use crate::types::PublicError;

verus! {

#[derive(Debug, Clone)]
pub struct RunScreenshotTranslateResponse {
    pub request_id: String,
}

/// The system instructions of a screenshot translation.
pub open spec fn screenshot_system_prompt() -> Seq<char> {
    "你是一个 Windows 桌面截图翻译助手。只根据用户提供的截图内容进行 OCR 和翻译，不联网，不编造来源。"@
}

/// The prompt of a screenshot translation: into natural Chinese without a
/// target, else into (or in the manner of) the target.
pub open spec fn spec_screenshot_translate_prompt(target: Option<Seq<char>>) -> Seq<char> {
    match target {
        None => "请识别截图中的可见文字，并翻译成自然中文。要求：\n- 如果截图里没有可读文字，只回答“未识别到可翻译文字”。\n- 先输出译文，不要添加标题。\n- 对很短的 UI 文案保持简洁。\n- 不要解释截图以外的信息。"@,
        Some(t) => match spec_output_target_kind(t) {
            OutputTargetKind::Morse => "请识别截图中的可见文字，并转换成"@ + t + "，只输出转换结果。\n要求：\n- 使用标准摩斯密码表示可转换的字母和数字\n- 单词或语义间隔可用 / 分隔\n- 如果截图里没有可读文字，只回答“未识别到可翻译文字”。\n- 不要描述截图画面，不要解释，不要添加标题，不要使用 Markdown"@,
            OutputTargetKind::AncientScript => "请识别截图中的可见文字，并转换成"@ + t + "，只输出转换结果。\n要求：\n- 这是近似转写，不要求真实考古字形一一对应\n- 优先保留识别文字的原意\n- 如果截图里没有可读文字，只回答“未识别到可翻译文字”。\n- 不要描述截图画面，不要解释，不要添加标题，不要使用 Markdown"@,
            OutputTargetKind::StyleRewrite => "请识别截图中的可见文字，并改写成"@ + t + "，只输出改写结果。\n要求：\n- 严格遵循目标风格或语体："@ + t + "\n- 保留识别文字的原意\n- 如果截图里没有可读文字，只回答“未识别到可翻译文字”。\n- 不要描述截图画面，不要解释，不要添加标题，不要使用 Markdown"@,
            OutputTargetKind::Language => "请识别截图中的可见文字，并翻译成"@ + t + "，只输出译文。\n要求：\n- 严格使用目标语言："@ + t + "\n- 不要根据截图文字语言自动切换到其他目标语言\n- 如果截图里没有可读文字，只回答“未识别到可翻译文字”。\n- 不要描述截图画面，不要解释，不要添加标题，不要使用 Markdown"@,
        },
    }
}

/// The system instructions of a screenshot translation.
pub fn build_screenshot_system_prompt() -> (r: String)
    ensures
        r@ == screenshot_system_prompt(),
{
    crate::text::owned("你是一个 Windows 桌面截图翻译助手。只根据用户提供的截图内容进行 OCR 和翻译，不联网，不编造来源。")
}

/// The prompt of a screenshot translation; a target that is blank once
/// trimmed counts as none.
pub fn build_screenshot_translate_prompt(target_language: Option<&str>) -> (r: String)
    ensures
        r@ == spec_screenshot_translate_prompt(
            spec_explicit_target(match target_language { Some(t) => Some(t@), None => None }),
        ),
{
    let target = match target_language {
        Some(t) => crate::text::trim_str(t),
        None => return crate::text::owned("请识别截图中的可见文字，并翻译成自然中文。要求：\n- 如果截图里没有可读文字，只回答“未识别到可翻译文字”。\n- 先输出译文，不要添加标题。\n- 对很短的 UI 文案保持简洁。\n- 不要解释截图以外的信息。"),
    };
    if target.len() == 0 {
        return crate::text::owned("请识别截图中的可见文字，并翻译成自然中文。要求：\n- 如果截图里没有可读文字，只回答“未识别到可翻译文字”。\n- 先输出译文，不要添加标题。\n- 对很短的 UI 文案保持简洁。\n- 不要解释截图以外的信息。");
    }
    let target_text = crate::text::string_of(&target);
    let mut out: Vec<char>;
    match crate::commands::ai::output_target_kind(target_text.as_str()) {
        OutputTargetKind::Morse => {
            out = crate::text::chars_of("请识别截图中的可见文字，并转换成");
            crate::text::push_all(&mut out, &target);
            crate::text::push_str(&mut out, "，只输出转换结果。\n要求：\n- 使用标准摩斯密码表示可转换的字母和数字\n- 单词或语义间隔可用 / 分隔\n- 如果截图里没有可读文字，只回答“未识别到可翻译文字”。\n- 不要描述截图画面，不要解释，不要添加标题，不要使用 Markdown");
        },
        OutputTargetKind::AncientScript => {
            out = crate::text::chars_of("请识别截图中的可见文字，并转换成");
            crate::text::push_all(&mut out, &target);
            crate::text::push_str(&mut out, "，只输出转换结果。\n要求：\n- 这是近似转写，不要求真实考古字形一一对应\n- 优先保留识别文字的原意\n- 如果截图里没有可读文字，只回答“未识别到可翻译文字”。\n- 不要描述截图画面，不要解释，不要添加标题，不要使用 Markdown");
        },
        OutputTargetKind::StyleRewrite => {
            out = crate::text::chars_of("请识别截图中的可见文字，并改写成");
            crate::text::push_all(&mut out, &target);
            crate::text::push_str(&mut out, "，只输出改写结果。\n要求：\n- 严格遵循目标风格或语体：");
            crate::text::push_all(&mut out, &target);
            crate::text::push_str(&mut out, "\n- 保留识别文字的原意\n- 如果截图里没有可读文字，只回答“未识别到可翻译文字”。\n- 不要描述截图画面，不要解释，不要添加标题，不要使用 Markdown");
        },
        OutputTargetKind::Language => {
            out = crate::text::chars_of("请识别截图中的可见文字，并翻译成");
            crate::text::push_all(&mut out, &target);
            crate::text::push_str(&mut out, "，只输出译文。\n要求：\n- 严格使用目标语言：");
            crate::text::push_all(&mut out, &target);
            crate::text::push_str(&mut out, "\n- 不要根据截图文字语言自动切换到其他目标语言\n- 如果截图里没有可读文字，只回答“未识别到可翻译文字”。\n- 不要描述截图画面，不要解释，不要添加标题，不要使用 Markdown");
        },
    }
    crate::text::string_of(&out)
}

/// Screenshots are only translated by OpenAI-compatible vision models.
pub fn require_vision_provider(kind: AiProviderKind) -> (r: Result<(), PublicError>)
    ensures
        r is Ok <==> kind == AiProviderKind::OpenAiCompatible,
        r matches Err(e) ==> e.code@ == "provider_vision_unsupported"@,
{
    match kind {
        AiProviderKind::OpenAiCompatible => Ok(()),
        _ => Err(
            crate::types::public_error(
                "provider_vision_unsupported",
                "截图翻译当前先支持 OpenAI-compatible 视觉模型；请使用 OpenRouter/OpenAI-compatible 并选择支持图片输入的模型。",
            ),
        ),
    }
}

/// The text appended to the result when the translation failed.
pub fn screenshot_failure_delta(message: &str) -> (r: String)
    ensures
        r@ == "\n\n截图翻译失败："@ + message@,
{
    let mut out = crate::text::chars_of("\n\n截图翻译失败：");
    crate::text::push_str(&mut out, message);
    crate::text::string_of(&out)
}

} // verus!
