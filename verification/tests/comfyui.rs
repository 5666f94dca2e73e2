use figurine_studio::commands::comfyui::{
    batch_job_status, check_filled_workflow, check_new_workflow, check_workflow_input, find_output_image,
    find_output_images, first_output, is_numeric_value, replace_placeholders, replace_template_placeholders,
    seed_at, sprite_replacements, HistoryImage, HistoryNodeOutput,
};
use figurine_studio::error::AppError;
use figurine_studio::services::comfyui_client::{
    after_failure, check_completion, comfyui_retry_policy, failed_run_message, history_url, is_timed_out,
    normalize_endpoint, object_info_url, prompt_url, system_stats_url, timeout_message, upload_url,
    urlencoding_encode, view_url, ComfyUIClient, CompletionCheck, HistoryEntry, RetryStep,
};

fn pairs(v: &[(&str, &str)]) -> Vec<(String, String)> {
    v.iter().map(|(k, x)| (k.to_string(), x.to_string())).collect()
}

#[test]
fn test_urlencoding_encode() {
    assert_eq!(urlencoding_encode("hello"), "hello");
    assert_eq!(urlencoding_encode("hello world"), "hello%20world");
    assert_eq!(urlencoding_encode("file.png"), "file.png");
    assert_eq!(urlencoding_encode("a/b"), "a%2Fb");
}

#[test]
fn urlencoding_encodes_each_utf8_byte() {
    assert_eq!(urlencoding_encode("é"), "%C3%A9");
    assert_eq!(urlencoding_encode("A-z_0.9~"), "A-z_0.9~");
    assert_eq!(urlencoding_encode(""), "");
}

#[test]
fn test_comfyui_client_new() {
    let client = ComfyUIClient::new("http://127.0.0.1:8188");
    assert_eq!(client.endpoint, "http://127.0.0.1:8188");
    assert!(!client.client_id.is_empty());
}

#[test]
fn test_comfyui_client_trailing_slash() {
    let client = ComfyUIClient::new("http://127.0.0.1:8188/");
    assert_eq!(client.endpoint, "http://127.0.0.1:8188");
}

#[test]
fn client_id_is_a_v4_uuid() {
    let a = ComfyUIClient::new("x");
    let b = ComfyUIClient::new("x");
    assert_eq!(a.client_id.len(), 36);
    assert_eq!(&a.client_id[14..15], "4");
    assert_ne!(a.client_id, b.client_id);
}

#[test]
fn endpoint_loses_every_trailing_slash() {
    assert_eq!(normalize_endpoint("http://h:1///"), "http://h:1");
    assert_eq!(normalize_endpoint("///"), "");
}

#[test]
fn server_urls() {
    let e = "http://127.0.0.1:8188";
    assert_eq!(system_stats_url(e), "http://127.0.0.1:8188/system_stats");
    assert_eq!(upload_url(e), "http://127.0.0.1:8188/upload/image");
    assert_eq!(prompt_url(e), "http://127.0.0.1:8188/prompt");
    assert_eq!(history_url(e, "abc"), "http://127.0.0.1:8188/history/abc");
    assert_eq!(object_info_url(e, "LoraLoader"), "http://127.0.0.1:8188/object_info/LoraLoader");
    assert_eq!(
        view_url(e, "out 1.png", "a/b"),
        "http://127.0.0.1:8188/view?filename=out%201.png&subfolder=a%2Fb&type=output"
    );
}

#[test]
fn retries_wait_one_two_four_seconds() {
    let p = comfyui_retry_policy(3);
    assert_eq!(after_failure(p, 0), RetryStep::Retry { delay_ms: 1000 });
    assert_eq!(after_failure(p, 1), RetryStep::Retry { delay_ms: 2000 });
    assert_eq!(after_failure(p, 2), RetryStep::Retry { delay_ms: 4000 });
    assert_eq!(after_failure(p, 3), RetryStep::GiveUp);
}

#[test]
fn completion_reading() {
    let done = HistoryEntry { present: true, has_status: true, completed: Some(true), status_str: Some("success".into()) };
    assert_eq!(check_completion(&done), CompletionCheck::Finished);
    let failed = HistoryEntry { present: true, has_status: true, completed: Some(true), status_str: Some("error".into()) };
    assert_eq!(check_completion(&failed), CompletionCheck::Failed);
    let running = HistoryEntry { present: true, has_status: true, completed: Some(false), status_str: None };
    assert_eq!(check_completion(&running), CompletionCheck::Pending);
    let absent = HistoryEntry { present: false, has_status: false, completed: None, status_str: None };
    assert_eq!(check_completion(&absent), CompletionCheck::Pending);
}

#[test]
fn waiting_limits_and_messages() {
    assert!(!is_timed_out(120_000, 120));
    assert!(is_timed_out(120_001, 120));
    assert_eq!(timeout_message(120, "p1"), "Timeout waiting for ComfyUI completion (120s): p1");
    assert_eq!(failed_run_message("p1"), "ComfyUI processing failed for prompt: p1");
}

#[test]
fn test_replace_string_placeholder() {
    let template = r#"{"text": "{{positive_prompt}}, pixel art"}"#;
    let replacements = pairs(&[("positive_prompt", "a cute cat")]);
    let result = replace_template_placeholders(template, &replacements);
    assert_eq!(result, r#"{"text": "a cute cat, pixel art"}"#);
}

#[test]
fn test_replace_numeric_placeholder() {
    let template = r#"{"steps": "{{steps}}", "cfg": "{{cfg_scale}}"}"#;
    let replacements = pairs(&[("steps", "30"), ("cfg_scale", "7.5")]);
    let result = replace_template_placeholders(template, &replacements);
    assert_eq!(result, r#"{"steps": 30, "cfg": 7.5}"#);
}

#[test]
fn test_unknown_placeholder_preserved() {
    let template = r#"{"value": "{{unknown_key}}"}"#;
    let replacements: Vec<(String, String)> = Vec::new();
    let result = replace_template_placeholders(template, &replacements);
    assert_eq!(result, r#"{"value": "{{unknown_key}}"}"#);
}

#[test]
fn placeholders_of_other_keys_stay() {
    let template = r#"{"a": "{{seed}}", "b": "{{other}}"}"#;
    let result = replace_template_placeholders(template, &pairs(&[("seed", "-12")]));
    assert_eq!(result, r#"{"a": -12, "b": "{{other}}"}"#);
}

#[test]
fn numeric_values() {
    for s in ["30", "-5", "+7", "7.5", ".5", "5.", "1e10", "1E-3", "inf", "-Infinity", "NaN", "99999999999999999999"] {
        assert!(is_numeric_value(s), "{}", s);
    }
    for s in ["", "abc", ".", "1e", "e5", " 1", "1 ", "1.2.3", "+-1", "infinit"] {
        assert!(!is_numeric_value(s), "{}", s);
    }
}

#[test]
fn replacing_keeps_the_workflow_when_json_breaks() {
    let workflow = r#"{"text": "{{prompt}}"}"#;
    let ok = replace_placeholders(workflow, &pairs(&[("prompt", "hello")]));
    assert_eq!(ok, r#"{"text": "hello"}"#);
    let broken = replace_placeholders(workflow, &pairs(&[("prompt", "say \"hi")]));
    assert_eq!(broken, workflow);
}

#[test]
fn workflow_checks() {
    assert!(check_workflow_input("wf", "{}").is_ok());
    match check_workflow_input("  ", "{}") {
        Err(AppError::Validation(m)) => assert_eq!(m, "Workflow name is required"),
        other => panic!("{:?}", other),
    }
    match check_workflow_input("wf", "[1]") {
        Err(AppError::Validation(m)) => assert_eq!(m, "Workflow JSON must be an object"),
        other => panic!("{:?}", other),
    }
    match check_workflow_input("wf", "{") {
        Err(AppError::Validation(m)) => assert!(m.starts_with("Invalid JSON: ")),
        other => panic!("{:?}", other),
    }
    match check_new_workflow("wf", "3") {
        Err(AppError::Validation(m)) => assert_eq!(m, "workflow_json must be a JSON object"),
        other => panic!("{:?}", other),
    }
    assert!(check_new_workflow("wf", r#"{"1": {}}"#).is_ok());
    match check_filled_workflow("{x") {
        Err(AppError::ComfyUI(m)) => assert!(m.starts_with("Invalid workflow JSON: ")),
        other => panic!("{:?}", other),
    }
    assert!(check_filled_workflow("{}").is_ok());
}

fn image(f: Option<&str>, s: Option<&str>) -> HistoryImage {
    HistoryImage { filename: f.map(String::from), subfolder: s.map(String::from) }
}

#[test]
fn output_images_of_a_run() {
    let outputs = vec![
        HistoryNodeOutput { images: None },
        HistoryNodeOutput { images: Some(vec![]) },
        HistoryNodeOutput { images: Some(vec![image(Some("a.png"), None), image(None, Some("x")), image(Some("b.png"), Some("sub"))]) },
        HistoryNodeOutput { images: Some(vec![image(Some("c.png"), Some("d"))]) },
    ];
    assert_eq!(find_output_image(&outputs), Some(("a.png".to_string(), "".to_string())));
    assert_eq!(
        find_output_images(&outputs),
        vec![
            ("a.png".to_string(), "".to_string()),
            ("b.png".to_string(), "sub".to_string()),
            ("c.png".to_string(), "d".to_string())
        ]
    );
    let nameless = vec![HistoryNodeOutput { images: Some(vec![image(None, None)]) }, HistoryNodeOutput { images: Some(vec![image(Some("z.png"), None)]) }];
    assert_eq!(find_output_image(&nameless), None);
    assert_eq!(first_output(&find_output_images(&nameless)).unwrap(), ("z.png".to_string(), "".to_string()));
    match first_output(&vec![]) {
        Err(AppError::ComfyUI(m)) => assert_eq!(m, "No output images found"),
        other => panic!("{:?}", other),
    }
}

#[test]
fn batch_status_and_values() {
    assert_eq!(batch_job_status(3, 3), "completed");
    assert_eq!(batch_job_status(1, 3), "partial");
    assert_eq!(batch_job_status(0, 3), "failed");
    assert_eq!(batch_job_status(0, 0), "completed");
    assert_eq!(seed_at(-5, 7), 2);
    let r = sprite_replacements("up.png", "p", "n", seed_at(100, 2), 20, "7.5", "0.6", "0.8");
    assert_eq!(
        r,
        pairs(&[
            ("input_image", "up.png"),
            ("positive_prompt", "p"),
            ("negative_prompt", "n"),
            ("seed", "102"),
            ("steps", "20"),
            ("cfg_scale", "7.5"),
            ("denoise_strength", "0.6"),
            ("controlnet_weight", "0.8"),
        ])
    );
}
