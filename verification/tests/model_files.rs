use chobits::server::model_files::{
    contains_text_exec, discover_onnx, ends_with_slash_text, matcha_files, model_dir, output_settings,
    pocket_files, rule_fst_order, rule_fsts, same_text, DirEntryName, ModelSetupError,
    PocketFileOptions,
};
use chobits::server::tts::{synthesis_failure_step, FailureStep, SpeechEngine, TtsError};

fn entry(path: &str, stem: Option<&str>, extension: Option<&str>) -> DirEntryName {
    DirEntryName {
        path: path.to_string(),
        stem: stem.map(|s| s.to_string()),
        extension: extension.map(|s| s.to_string()),
    }
}

fn matcha_dir() -> Vec<DirEntryName> {
    vec![
        entry("m/tokens.txt", Some("tokens"), Some("txt")),
        entry("m/model-steps-3.txt", Some("model-steps-3"), Some("txt")),
        entry("m/model-steps-3.onnx", Some("model-steps-3"), Some("onnx")),
        entry("m/vocos-16khz-univ.onnx", Some("vocos-16khz-univ"), Some("onnx")),
        entry("m/espeak-ng-data", Some("espeak-ng-data"), None),
    ]
}

#[test]
fn text_helpers_compare_and_search() {
    assert!(same_text("onnx", "onnx"));
    assert!(!same_text("onnx", "onn"));
    assert!(!same_text("onnx", "onnX"));
    assert!(ends_with_slash_text("data/tts/"));
    assert!(!ends_with_slash_text("data/tts"));
    assert!(!ends_with_slash_text(""));
    assert!(contains_text_exec("rules/phone-zh.fst", "phone"));
    assert!(contains_text_exec("date", "date"));
    assert!(!contains_text_exec("dat", "date"));
    assert!(contains_text_exec("anything", ""));
}

#[test]
fn model_dir_needs_a_path_ending_in_a_slash() {
    assert_eq!(model_dir(None), Err(ModelSetupError::PathUnset));
    assert_eq!(model_dir(Some("data/tts")), Err(ModelSetupError::PathWithoutSlash));
    assert_eq!(model_dir(Some("data/tts/")), Ok("data/tts/"));
}

#[test]
fn discover_onnx_takes_the_first_onnx_file_with_the_stem() {
    let mut dir = matcha_dir();
    dir.push(entry("m/other/model-steps-3.onnx", Some("model-steps-3"), Some("onnx")));
    assert_eq!(discover_onnx(&dir, "model-steps-3"), Some("m/model-steps-3.onnx".to_string()));
    assert_eq!(discover_onnx(&dir, "tokens"), None);
    assert_eq!(discover_onnx(&dir, "vocos-22khz-univ"), None);
}

#[test]
fn matcha_files_discover_and_default() {
    let files = matcha_files(Some("m/"), None, None, None, Some("lex.txt".to_string()), &matcha_dir())
        .unwrap();
    assert_eq!(files.acoustic_model, "m/model-steps-3.onnx");
    assert_eq!(files.vocoder, "m/vocos-16khz-univ.onnx");
    assert_eq!(files.tokens, "m/tokens.txt");
    assert_eq!(files.lexicon, "lex.txt");
}

#[test]
fn matcha_files_prefer_the_22khz_vocoder_and_given_files() {
    let mut dir = matcha_dir();
    dir.push(entry("m/vocos-22khz-univ.onnx", Some("vocos-22khz-univ"), Some("onnx")));
    let files = matcha_files(Some("m/"), Some("a.onnx".to_string()), None, None, None, &dir).unwrap();
    assert_eq!(files.acoustic_model, "a.onnx");
    assert_eq!(files.vocoder, "m/vocos-22khz-univ.onnx");
    assert_eq!(files.lexicon, "m/lexicon.txt");
}

#[test]
fn matcha_files_report_what_is_missing() {
    let empty: Vec<DirEntryName> = Vec::new();
    assert_eq!(
        matcha_files(None, None, None, None, None, &empty).unwrap_err(),
        ModelSetupError::PathUnset
    );
    assert_eq!(
        matcha_files(Some("m"), Some("a".to_string()), Some("v".to_string()), None, None, &empty)
            .unwrap_err(),
        ModelSetupError::PathWithoutSlash
    );
    assert_eq!(
        matcha_files(Some("m/"), None, None, None, None, &empty).unwrap_err(),
        ModelSetupError::AcousticModelNotFound
    );
    assert_eq!(
        matcha_files(Some("m/"), Some("a".to_string()), None, None, None, &empty).unwrap_err(),
        ModelSetupError::VocoderNotFound
    );
}

#[test]
fn pocket_files_default_inside_the_directory() {
    let given = PocketFileOptions { encoder: Some("enc.onnx".to_string()), ..Default::default() };
    let files = pocket_files(Some("p/"), given).unwrap();
    assert_eq!(files.lm_flow, "p/lm_flow.int8.onnx");
    assert_eq!(files.lm_main, "p/lm_main.int8.onnx");
    assert_eq!(files.encoder, "enc.onnx");
    assert_eq!(files.decoder, "p/decoder.int8.onnx");
    assert_eq!(files.text_conditioner, "p/text_conditioner.onnx");
    assert_eq!(files.vocab_json, "p/vocab.json");
    assert_eq!(files.token_scores_json, "p/token_scores.json");
    assert_eq!(
        pocket_files(Some("p"), PocketFileOptions::default()).unwrap_err(),
        ModelSetupError::PathWithoutSlash
    );
    assert_eq!(pocket_files(None, PocketFileOptions::default()).unwrap_err(), ModelSetupError::PathUnset);
}

#[test]
fn rule_fst_order_is_stable_by_priority() {
    let files: Vec<String> = vec!["r/number.fst", "r/date.fst", "r/other.fst", "r/phone.fst", "r/date2.fst"]
        .into_iter()
        .map(|s| s.to_string())
        .collect();
    let ordered = rule_fst_order(&files);
    assert_eq!(ordered, vec!["r/phone.fst", "r/date.fst", "r/date2.fst", "r/number.fst", "r/other.fst"]);
    assert_eq!(ordered.len(), files.len());
}

#[test]
fn rule_fsts_join_the_ordered_fst_files() {
    let dir = vec![
        entry("m/number.fst", Some("number"), Some("fst")),
        entry("m/tokens.txt", Some("tokens"), Some("txt")),
        entry("m/phone.fst", Some("phone"), Some("fst")),
    ];
    assert_eq!(rule_fsts(&dir), Some("m/phone.fst,m/number.fst".to_string()));
    assert_eq!(rule_fsts(&matcha_dir()), None);
}

#[test]
fn output_settings_need_all_three() {
    assert_eq!(output_settings(Some(24000), Some(1), Some(60)), Ok((24000, 1, 60)));
    assert_eq!(output_settings(None, None, None), Err(ModelSetupError::OutputSampleRateUnset));
    assert_eq!(output_settings(Some(24000), None, Some(60)), Err(ModelSetupError::OutputChannelUnset));
    assert_eq!(
        output_settings(Some(24000), Some(1), None),
        Err(ModelSetupError::OutputFrameDurationUnset)
    );
}

#[test]
fn synthesis_failures_follow_each_engine() {
    match synthesis_failure_step(SpeechEngine::VoxCpm, "boom".to_string()) {
        FailureStep::ReportAndStop(TtsError::Encode(m)) => assert_eq!(m, "boom"),
        other => panic!("unexpected {:?}", other),
    }
    match synthesis_failure_step(SpeechEngine::PocketTts, "bad chunk".to_string()) {
        FailureStep::ReportAndContinue(TtsError::Encode(m)) => assert_eq!(m, "bad chunk"),
        other => panic!("unexpected {:?}", other),
    }
    assert!(matches!(synthesis_failure_step(SpeechEngine::Matcha, "x".to_string()), FailureStep::Skip));
    assert!(matches!(synthesis_failure_step(SpeechEngine::Pocket, "x".to_string()), FailureStep::Skip));
}
