use ai_translator::endpoints::{
    chat_endpoint, models_endpoint, parse_model_names, ModelEntry, ModelListing,
};
use ai_translator::files::{
    dropped_file_check, get_next_filename, is_plain_file_name, is_supported_text_file, numbered_file_name,
    sanitize_file_name, save_text_precheck, translated_file_name, NameStep,
};
use ai_translator::prompts::{
    chunk_prompt, create_formatted_prompt, create_summary_prompt, format_stream_error,
    language_code, Operation,
};

#[test]
fn language_codes() {
    assert_eq!(language_code("English"), "en");
    assert_eq!(language_code("Korean"), "ko");
    assert_eq!(language_code("Chinese (Traditional)"), "zh-Hant");
    assert_eq!(language_code("Russian"), "ru");
    assert_eq!(language_code("Klingon"), "auto");
    assert_eq!(language_code("english"), "auto");
}

#[test]
fn auto_detect_prompt() {
    assert_eq!(
        create_formatted_prompt("Auto Detect", "English", "hola"),
        "You are a professional translator. Identify the language of the following text and translate it into English (en). Your goal is to accurately convey the meaning and nuances of the original text while adhering to English grammar, vocabulary, and cultural sensitivities.\nProduce only the English translation, without any additional explanations or commentary. Please translate the following text into English:\n\nhola"
    );
}

#[test]
fn named_source_prompt() {
    assert_eq!(
        create_formatted_prompt("Korean", "Japanese", "안녕"),
        "You are a professional Korean (ko) to Japanese (ja) translator. Your goal is to accurately convey the meaning and nuances of the original Korean text while adhering to Japanese grammar, vocabulary, and cultural sensitivities.\nProduce only the Japanese translation, without any additional explanations or commentary. Please translate the following Korean text into Japanese:\n\n\n안녕"
    );
}

#[test]
fn summary_prompt() {
    assert_eq!(
        create_summary_prompt("Some text.", "German"),
        "You are a professional assistant specializing in text summarization. Please summarize the following text into approximately 3 to 5 concise sentences in German. The summary should capture the main points clearly and accurately.\nProvide only the summary without any introductory or concluding remarks.\n\nText to summarize:\nSome text."
    );
}

#[test]
fn chunk_prompts_pick_the_operation() {
    assert_eq!(
        chunk_prompt(Operation::Translate, None, "English", "x"),
        create_formatted_prompt("Auto Detect", "English", "x")
    );
    assert_eq!(
        chunk_prompt(Operation::Translate, Some("French"), "English", "x"),
        create_formatted_prompt("French", "English", "x")
    );
    assert_eq!(
        chunk_prompt(Operation::Summarize, Some("French"), "English", "x"),
        create_summary_prompt("x", "English")
    );
}

#[test]
fn stream_error_messages() {
    assert_eq!(
        format_stream_error("LM Studio", "http://localhost:1234/v1", Operation::Translate, 2, "boom"),
        "\n[Error translating chunk 2: boom]\n\nPlease ensure LM Studio is running and the server is started at http://localhost:1234/v1."
    );
    assert_eq!(
        format_stream_error("ollama", "http://localhost:11434/v1", Operation::Summarize, 13, "down"),
        "\n[Error summarizing chunk 13: down]\n\nPlease ensure Ollama is running and the OpenAI-compatible server is available at http://localhost:11434/v1."
    );
    assert_eq!(
        format_stream_error("OllamaCloud", "u", Operation::Translate, 1, "e"),
        "\n[Error translating chunk 1: e]\n\nPlease ensure Ollama Cloud endpoint is correct and your API Key is valid."
    );
    assert_eq!(
        format_stream_error("cerebras", "u", Operation::Translate, 1, "e"),
        "\n[Error translating chunk 1: e]\n\nPlease ensure Cerebras endpoint is correct and your API Key is valid."
    );
    assert_eq!(
        format_stream_error("Google", "u", Operation::Translate, 1, "e"),
        "\n[Error translating chunk 1: e]\n\nPlease ensure Google endpoint is correct and your API Key is valid."
    );
}

#[test]
fn endpoints() {
    assert_eq!(models_endpoint("http://localhost:1234/v1/"), "http://localhost:1234/v1/models");
    assert_eq!(models_endpoint("http://x/v1/models//"), "http://x/v1/models");
    assert_eq!(
        chat_endpoint("https://api.cerebras.ai/v1"),
        "https://api.cerebras.ai/v1/chat/completions"
    );
    assert_eq!(
        chat_endpoint("https://generativelanguage.googleapis.com/v1beta/openai/"),
        "https://generativelanguage.googleapis.com/v1beta/openai/chat/completions"
    );
    assert_eq!(chat_endpoint("h/chat/completions"), "h/chat/completions");
    assert_eq!(models_endpoint(""), "/models");
}

#[test]
fn endpoints_are_idempotent() {
    for base in ["http://a/v1", "http://a/v1///", "", "/", "x/models"] {
        let m = models_endpoint(base);
        assert_eq!(models_endpoint(&m), m);
        let c = chat_endpoint(base);
        assert_eq!(chat_endpoint(&c), c);
    }
}

fn entry(id: Option<&str>, has_name: bool, name: Option<&str>, model: Option<&str>) -> ModelEntry {
    ModelEntry {
        id: id.map(|s| s.to_string()),
        has_name,
        name: name.map(|s| s.to_string()),
        model: model.map(|s| s.to_string()),
    }
}

#[test]
fn model_names_prefer_data_ids() {
    let listing = ModelListing {
        data: Some(vec![entry(Some("a"), false, None, None), entry(None, false, None, None), entry(Some("b"), false, None, None)]),
        models: Some(vec![entry(None, true, Some("n"), None)]),
    };
    assert_eq!(parse_model_names(&listing), vec!["a".to_string(), "b".to_string()]);
}

#[test]
fn model_names_fall_back_to_models() {
    let listing = ModelListing {
        data: Some(vec![entry(None, false, None, None)]),
        models: Some(vec![
            entry(None, true, Some("llama3"), Some("ignored")),
            entry(None, false, None, Some("qwen")),
            entry(None, true, None, Some("not used: name is not a string")),
        ]),
    };
    assert_eq!(parse_model_names(&listing), vec!["llama3".to_string(), "qwen".to_string()]);
    let empty = ModelListing { data: None, models: None };
    assert_eq!(parse_model_names(&empty), Vec::<String>::new());
}

#[test]
fn sanitizing_names() {
    assert_eq!(sanitize_file_name("my file (1).txt"), "my_file__1_.txt");
    assert_eq!(sanitize_file_name("___"), "output.txt");
    assert_eq!(sanitize_file_name(""), "output.txt");
    assert_eq!(sanitize_file_name("日本.txt"), "__.txt");
    assert_eq!(sanitize_file_name("a/b\\c:d.md"), "a_b_c_d.md");
}

#[test]
fn sanitizing_is_idempotent() {
    for n in ["my file (1).txt", "___", "", "日本.txt", "ok-name_1.md", ".."] {
        let s = sanitize_file_name(n);
        assert_eq!(sanitize_file_name(&s), s);
    }
}

#[test]
fn translated_names() {
    assert_eq!(translated_file_name(Some("report.md")), "report_translated.md");
    assert_eq!(translated_file_name(None), "translation_translated.txt");
    assert_eq!(translated_file_name(Some("   ")), "translation_translated.txt");
    assert_eq!(translated_file_name(Some(".bashrc")), ".bashrc_translated.txt");
    assert_eq!(translated_file_name(Some("archive.tar.gz")), "archive.tar_translated.gz");
    assert_eq!(translated_file_name(Some("noext")), "noext_translated.txt");
    assert_eq!(translated_file_name(Some("..")), "file_translated.txt");
    assert_eq!(translated_file_name(Some("a.")), "a_translated.");
    assert_eq!(translated_file_name(Some("my notes.txt")), "my_notes_translated.txt");
}

#[test]
fn numbered_names() {
    assert_eq!(numbered_file_name("translated.txt", 1), "translated001.txt");
    assert_eq!(numbered_file_name("x.md", 42), "x042.md");
    assert_eq!(numbered_file_name("x", 999), "x999.txt");
    assert_eq!(numbered_file_name(".env", 3), ".env003.txt");
    assert_eq!(numbered_file_name("x.md", 100), "x100.md");
    assert_eq!(numbered_file_name("x.md", 1000), "x_1000.md");
    assert_eq!(numbered_file_name("x", 12345), "x_12345.txt");
}

#[test]
fn choosing_a_free_name() {
    match get_next_filename("out.txt", 1, false) {
        NameStep::Take(n) => assert_eq!(n, "out001.txt"),
        _ => panic!("expected a name"),
    }
    assert!(matches!(get_next_filename("out.txt", 5, true), NameStep::Next(6)));
    assert!(matches!(get_next_filename("out.txt", 999, true), NameStep::Next(1000)));
    match get_next_filename("out.txt", 1000, false) {
        NameStep::Take(n) => assert_eq!(n, "out_1000.txt"),
        _ => panic!("expected a name"),
    }
    assert!(matches!(get_next_filename("out.txt", 1000, true), NameStep::Next(1001)));
}

#[test]
fn choosing_a_free_name_never_takes_an_existing_one() {
    let mut taken: Vec<String> = (1..=999).map(|n| numbered_file_name("out.txt", n)).collect();
    taken.push("out_1000.txt".to_string());
    let mut counter = 1;
    let name = loop {
        let candidate = numbered_file_name("out.txt", counter);
        match get_next_filename("out.txt", counter, taken.contains(&candidate)) {
            NameStep::Take(n) => break n,
            NameStep::Next(c) => counter = c,
        }
    };
    assert_eq!(name, "out_1001.txt");
    assert!(!taken.contains(&name));
}

#[test]
fn choosing_a_free_name_skips_taken_ones() {
    let taken = ["doc001.md", "doc002.md"];
    let mut counter = 1;
    let name = loop {
        let candidate = numbered_file_name("doc.md", counter);
        match get_next_filename("doc.md", counter, taken.contains(&candidate.as_str())) {
            NameStep::Take(n) => break n,
            NameStep::Next(c) => counter = c,
        }
    };
    assert_eq!(name, "doc003.md");
}

#[test]
fn supported_extensions() {
    assert!(is_supported_text_file(Some("txt")));
    assert!(is_supported_text_file(Some("JSON")));
    assert!(is_supported_text_file(Some("Md")));
    assert!(!is_supported_text_file(Some("exe")));
    assert!(!is_supported_text_file(Some("")));
    assert!(!is_supported_text_file(None));
}

#[test]
fn save_and_drop_checks() {
    assert_eq!(save_text_precheck("  \n"), Err("Nothing to save".to_string()));
    assert_eq!(save_text_precheck("x"), Ok(()));
    assert_eq!(dropped_file_check(Some("csv"), "a.csv"), Ok(()));
    assert_eq!(
        dropped_file_check(Some("pdf"), "a.pdf"),
        Err("Unsupported file type: a.pdf".to_string())
    );
    assert_eq!(
        dropped_file_check(None, "README"),
        Err("Unsupported file type: README".to_string())
    );
}

#[test]
fn plain_names() {
    assert!(is_plain_file_name("a.txt"));
    assert!(!is_plain_file_name("dir/a.txt"));
    assert!(!is_plain_file_name("dir\\a.txt"));
    assert!(!is_plain_file_name("C:a.txt"));
    assert!(is_plain_file_name(&sanitize_file_name("x/y:z\\w")));
}
