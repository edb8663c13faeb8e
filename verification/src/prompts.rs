//! The prompts sent to the model and the messages shown when a chunk fails.
use vstd::prelude::*;

use crate::text::{
    decimal_chars, eq_ignore_ascii_case, same_ignoring_case, spec_decimal, str_equals, string_of,
};

verus! {

/// What a run does with each chunk.
#[derive(Clone, Copy, PartialEq, Eq, Structural, Debug)]
pub enum Operation {
    Translate,
    Summarize,
}

/// The language code of a language name, `auto` for any other name.
pub open spec fn spec_language_code(language: Seq<char>) -> Seq<char> {
    if language == "English"@ {
        "en"@
    } else if language == "Korean"@ {
        "ko"@
    } else if language == "Japanese"@ {
        "ja"@
    } else if language == "Chinese (Simplified)"@ {
        "zh-Hans"@
    } else if language == "Chinese (Traditional)"@ {
        "zh-Hant"@
    } else if language == "Spanish"@ {
        "es"@
    } else if language == "French"@ {
        "fr"@
    } else if language == "German"@ {
        "de"@
    } else if language == "Russian"@ {
        "ru"@
    } else {
        "auto"@
    }
}

/// The language codes: English `en`, Korean `ko`, Japanese `ja`, Chinese
/// (Simplified) `zh-Hans`, Chinese (Traditional) `zh-Hant`, Spanish `es`,
/// French `fr`, German `de`, Russian `ru`; any other name gets `auto`.
pub proof fn lemma_language_codes(language: Seq<char>)
    ensures
        spec_language_code("English"@) == "en"@,
        spec_language_code("Korean"@) == "ko"@,
        spec_language_code("Japanese"@) == "ja"@,
        spec_language_code("Chinese (Simplified)"@) == "zh-Hans"@,
        spec_language_code("Chinese (Traditional)"@) == "zh-Hant"@,
        spec_language_code("Spanish"@) == "es"@,
        spec_language_code("French"@) == "fr"@,
        spec_language_code("German"@) == "de"@,
        spec_language_code("Russian"@) == "ru"@,
        (language != "English"@ && language != "Korean"@ && language != "Japanese"@ && language != "Chinese (Simplified)"@ && language != "Chinese (Traditional)"@ && language != "Spanish"@ && language != "French"@ && language != "German"@ && language != "Russian"@) ==> spec_language_code(language) == "auto"@,
{
    reveal_strlit("English");
    assert("English"@.len() == 7 && "English"@[0] == 'E');
    reveal_strlit("Korean");
    assert("Korean"@.len() == 6 && "Korean"@[0] == 'K');
    reveal_strlit("Japanese");
    assert("Japanese"@.len() == 8 && "Japanese"@[0] == 'J');
    reveal_strlit("Chinese (Simplified)");
    assert("Chinese (Simplified)"@.len() == 20 && "Chinese (Simplified)"@[0] == 'C');
    reveal_strlit("Chinese (Traditional)");
    assert("Chinese (Traditional)"@.len() == 21 && "Chinese (Traditional)"@[0] == 'C');
    reveal_strlit("Spanish");
    assert("Spanish"@.len() == 7 && "Spanish"@[0] == 'S');
    reveal_strlit("French");
    assert("French"@.len() == 6 && "French"@[0] == 'F');
    reveal_strlit("German");
    assert("German"@.len() == 6 && "German"@[0] == 'G');
    reveal_strlit("Russian");
    assert("Russian"@.len() == 7 && "Russian"@[0] == 'R');
}

/// The language code of a language name, `auto` for any other name.
pub fn language_code(language: &str) -> (r: &'static str)
    ensures
        r@ == spec_language_code(language@),
{
    if str_equals(language, "English") {
        "en"
    } else if str_equals(language, "Korean") {
        "ko"
    } else if str_equals(language, "Japanese") {
        "ja"
    } else if str_equals(language, "Chinese (Simplified)") {
        "zh-Hans"
    } else if str_equals(language, "Chinese (Traditional)") {
        "zh-Hant"
    } else if str_equals(language, "Spanish") {
        "es"
    } else if str_equals(language, "French") {
        "fr"
    } else if str_equals(language, "German") {
        "de"
    } else if str_equals(language, "Russian") {
        "ru"
    } else {
        "auto"
    }
}

/// The translation prompt: with source `Auto Detect` the model is asked to
/// identify the language first; otherwise the source language and its code
/// are named.
pub open spec fn spec_formatted_prompt(source: Seq<char>, target: Seq<char>, text: Seq<char>) -> Seq<char> {
    let tc = spec_language_code(target);
    let sc = spec_language_code(source);
    if source == "Auto Detect"@ {
        "You are a professional translator. Identify the language of the following text and translate it into "@
            + target + " ("@ + tc
            + "). Your goal is to accurately convey the meaning and nuances of the original text while adhering to "@
            + target + " grammar, vocabulary, and cultural sensitivities.\nProduce only the "@ + target
            + " translation, without any additional explanations or commentary. Please translate the following text into "@
            + target + ":\n\n"@ + text
    } else {
        "You are a professional "@ + source + " ("@ + sc + ") to "@ + target + " ("@ + tc
            + ") translator. Your goal is to accurately convey the meaning and nuances of the original "@
            + source + " text while adhering to "@ + target
            + " grammar, vocabulary, and cultural sensitivities.\nProduce only the "@ + target
            + " translation, without any additional explanations or commentary. Please translate the following "@
            + source + " text into "@ + target + ":\n\n\n"@ + text
    }
}

/// The prompt asking the model to render `text`, written in `source_lang`
/// (or in a language it detects), in `target_lang`.
pub fn create_formatted_prompt(source_lang: &str, target_lang: &str, text: &str) -> (r: String)
    ensures
        r@ == spec_formatted_prompt(source_lang@, target_lang@, text@),
{
    let source_code = language_code(source_lang);
    let target_code = language_code(target_lang);
    if str_equals(source_lang, "Auto Detect") {
        let mut r = String::from_str(
            "You are a professional translator. Identify the language of the following text and translate it into ",
        );
        r.append(target_lang);
        r.append(" (");
        r.append(target_code);
        r.append(
            "). Your goal is to accurately convey the meaning and nuances of the original text while adhering to ",
        );
        r.append(target_lang);
        r.append(" grammar, vocabulary, and cultural sensitivities.\nProduce only the ");
        r.append(target_lang);
        r.append(
            " translation, without any additional explanations or commentary. Please translate the following text into ",
        );
        r.append(target_lang);
        r.append(":\n\n");
        r.append(text);
        return r;
    }
    let mut r = String::from_str("You are a professional ");
    r.append(source_lang);
    r.append(" (");
    r.append(source_code);
    r.append(") to ");
    r.append(target_lang);
    r.append(" (");
    r.append(target_code);
    r.append(
        ") translator. Your goal is to accurately convey the meaning and nuances of the original ",
    );
    r.append(source_lang);
    r.append(" text while adhering to ");
    r.append(target_lang);
    r.append(" grammar, vocabulary, and cultural sensitivities.\nProduce only the ");
    r.append(target_lang);
    r.append(
        " translation, without any additional explanations or commentary. Please translate the following ",
    );
    r.append(source_lang);
    r.append(" text into ");
    r.append(target_lang);
    r.append(":\n\n\n");
    r.append(text);
    r
}

/// The summarization prompt.
pub open spec fn spec_summary_prompt(text: Seq<char>, target: Seq<char>) -> Seq<char> {
    "You are a professional assistant specializing in text summarization. Please summarize the following text into approximately 3 to 5 concise sentences in "@
        + target
        + ". The summary should capture the main points clearly and accurately.\nProvide only the summary without any introductory or concluding remarks.\n\nText to summarize:\n"@
        + text
}

/// The prompt asking for a short summary of `text` in `target_lang`.
pub fn create_summary_prompt(text: &str, target_lang: &str) -> (r: String)
    ensures
        r@ == spec_summary_prompt(text@, target_lang@),
{
    let mut r = String::from_str(
        "You are a professional assistant specializing in text summarization. Please summarize the following text into approximately 3 to 5 concise sentences in ",
    );
    r.append(target_lang);
    r.append(
        ". The summary should capture the main points clearly and accurately.\nProvide only the summary without any introductory or concluding remarks.\n\nText to summarize:\n",
    );
    r.append(text);
    r
}

/// The prompt for one chunk of a run.
pub open spec fn spec_chunk_prompt(
    operation: Operation,
    source: Option<Seq<char>>,
    target: Seq<char>,
    chunk: Seq<char>,
) -> Seq<char> {
    match operation {
        Operation::Translate => spec_formatted_prompt(
            match source {
                Some(s) => s,
                None => "Auto Detect"@,
            },
            target,
            chunk,
        ),
        Operation::Summarize => spec_summary_prompt(chunk, target),
    }
}

/// The prompt for one chunk: a translation prompt (source language `Auto
/// Detect` when none is given) or a summary prompt.
pub fn chunk_prompt(operation: Operation, source_lang: Option<&str>, target_lang: &str, chunk: &str) -> (r: String)
    ensures
        r@ == spec_chunk_prompt(
            operation,
            match source_lang {
                Some(s) => Some(s@),
                None => None,
            },
            target_lang@,
            chunk@,
        ),
{
    match operation {
        Operation::Translate => {
            let source = match source_lang {
                Some(s) => s,
                None => "Auto Detect",
            };
            create_formatted_prompt(source, target_lang, chunk)
        },
        Operation::Summarize => create_summary_prompt(chunk, target_lang),
    }
}

/// The advice that follows a failed chunk, by provider.
pub open spec fn spec_error_context(provider: Seq<char>, base_url: Seq<char>) -> Seq<char> {
    if same_ignoring_case(provider, "LM Studio"@) || same_ignoring_case(provider, "lmstudio"@) {
        "Please ensure LM Studio is running and the server is started at "@ + base_url + "."@
    } else if same_ignoring_case(provider, "Ollama"@) {
        "Please ensure Ollama is running and the OpenAI-compatible server is available at "@
            + base_url + "."@
    } else if same_ignoring_case(provider, "Ollama Cloud"@) || same_ignoring_case(provider, "OllamaCloud"@) {
        "Please ensure Ollama Cloud endpoint is correct and your API Key is valid."@
    } else if same_ignoring_case(provider, "Cerebras"@) {
        "Please ensure Cerebras endpoint is correct and your API Key is valid."@
    } else {
        "Please ensure Google endpoint is correct and your API Key is valid."@
    }
}

/// The verb naming an operation in progress.
pub open spec fn spec_action(operation: Operation) -> Seq<char> {
    match operation {
        Operation::Translate => "translating"@,
        Operation::Summarize => "summarizing"@,
    }
}

/// The message for a chunk that failed.
pub open spec fn spec_stream_error(
    provider: Seq<char>,
    base_url: Seq<char>,
    operation: Operation,
    chunk_number: nat,
    error: Seq<char>,
) -> Seq<char> {
    "\n[Error "@ + spec_action(operation) + " chunk "@ + spec_decimal(chunk_number) + ": "@ + error
        + "]\n\n"@ + spec_error_context(provider, base_url)
}

fn error_context(provider: &str, base_url: &str) -> (r: String)
    ensures
        r@ == spec_error_context(provider@, base_url@),
{
    if eq_ignore_ascii_case(provider, "LM Studio") || eq_ignore_ascii_case(provider, "lmstudio") {
        let mut r = String::from_str(
            "Please ensure LM Studio is running and the server is started at ",
        );
        r.append(base_url);
        r.append(".");
        r
    } else if eq_ignore_ascii_case(provider, "Ollama") {
        let mut r = String::from_str(
            "Please ensure Ollama is running and the OpenAI-compatible server is available at ",
        );
        r.append(base_url);
        r.append(".");
        r
    } else if eq_ignore_ascii_case(provider, "Ollama Cloud") || eq_ignore_ascii_case(
        provider,
        "OllamaCloud",
    ) {
        String::from_str("Please ensure Ollama Cloud endpoint is correct and your API Key is valid.")
    } else if eq_ignore_ascii_case(provider, "Cerebras") {
        String::from_str("Please ensure Cerebras endpoint is correct and your API Key is valid.")
    } else {
        String::from_str("Please ensure Google endpoint is correct and your API Key is valid.")
    }
}

/// The message shown when chunk `chunk_number` failed with `error`: what was
/// being done, the error, and advice for the provider.
pub fn format_stream_error(
    provider: &str,
    base_url: &str,
    operation: Operation,
    chunk_number: usize,
    error: &str,
) -> (r: String)
    ensures
        r@ == spec_stream_error(provider@, base_url@, operation, chunk_number as nat, error@),
{
    let mut r = String::from_str("\n[Error ");
    match operation {
        Operation::Translate => r.append("translating"),
        Operation::Summarize => r.append("summarizing"),
    }
    r.append(" chunk ");
    let digits = decimal_chars(chunk_number as u64);
    let d = string_of(digits.as_slice());
    r.append(d.as_str());
    r.append(": ");
    r.append(error);
    r.append("]\n\n");
    let context = error_context(provider, base_url);
    r.append(context.as_str());
    r
}

} // verus!
