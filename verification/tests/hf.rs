use ferrl::hf::{
    chatml, checkpoint_eos_from_config, eos_from_config, eos_from_json, resolve_checkpoint_eos,
    validate_resolved_eos_consensus, vocab_size_from_config, vocab_size_from_json, CheckpointEos,
    CheckpointEosSelection, EosConsensusStep, HfError, TokenizerVocabulary,
};
use ferrl::binary64::Real64;
use ferrl::json::{parse_json, Json};

const CONFIG_PATH: &str = "checkpoint/config.json";

/// The vocabulary of the tiny test tokenizer: four tokens, ids zero to three.
fn tokenizer() -> TokenizerVocabulary {
    TokenizerVocabulary { token_ids: vec![0, 1, 2, 3] }
}

fn document(text: &str) -> Json {
    parse_json(text.as_bytes()).unwrap()
}

fn eos(text: &str) -> Result<CheckpointEos, String> {
    eos_from_json(&document(text))
}

fn resolve(
    config: &str,
    tokenizer: &TokenizerVocabulary,
    selection: CheckpointEosSelection,
) -> Result<Option<u32>, HfError> {
    resolve_checkpoint_eos(CONFIG_PATH, config.as_bytes(), tokenizer, selection)
}

#[test]
fn eos_from_json_reads_a_single_integer() {
    assert_eq!(
        eos(r#"{ "eos_token_id": 151645, "hidden_size": 16 }"#),
        Ok(CheckpointEos::Single(151_645))
    );
}

#[test]
fn eos_from_json_is_none_when_absent() {
    assert_eq!(eos(r#"{ "hidden_size": 16 }"#), Ok(CheckpointEos::Missing));
}

#[test]
fn eos_from_json_prefers_the_nested_text_config() {
    assert_eq!(
        eos(r#"{ "eos_token_id": 1, "text_config": { "eos_token_id": 151645 } }"#),
        Ok(CheckpointEos::Single(151_645))
    );
}

#[test]
fn eos_from_json_preserves_a_multi_eos_list_for_explicit_selection() {
    assert_eq!(
        eos(r#"{ "eos_token_id": [151645, 151643] }"#),
        Ok(CheckpointEos::Multiple(vec![151_645, 151_643]))
    );
    assert_eq!(
        eos(r#"{ "eos_token_id": [151645] }"#),
        Ok(CheckpointEos::Single(151_645))
    );
}

#[test]
fn eos_from_json_rejects_an_out_of_range_or_wrong_type() {
    for text in [
        r#"{ "eos_token_id": -1 }"#,
        r#"{ "eos_token_id": 4294967296 }"#,
        r#"{ "eos_token_id": "151645" }"#,
    ] {
        assert!(eos(text).is_err());
    }
    for text in [
        r#"{ "eos_token_id": [] }"#,
        r#"{ "eos_token_id": [3, 3] }"#,
        r#"{ "eos_token_id": [3, -1] }"#,
        r#"{ "eos_token_id": 3, "text_config": { "eos_token_id": null } }"#,
    ] {
        assert!(eos(text).is_err());
    }
}

#[test]
fn eos_from_json_names_what_is_wrong() {
    assert_eq!(
        eos(r#"{ "eos_token_id": [3, 5, -1] }"#),
        Err("EOS token list entry 2 is not a u32 integer".to_string())
    );
    assert_eq!(
        eos(r#"{ "eos_token_id": [7, 151645, 7] }"#),
        Err("EOS token list contains duplicate id 7".to_string())
    );
    assert_eq!(
        eos(r#"{ "eos_token_id": [] }"#),
        Err("EOS token list must not be empty".to_string())
    );
    assert_eq!(
        eos(r#"{ "eos_token_id": true }"#),
        Err("expected a non-negative integer or a non-empty integer list".to_string())
    );
}

#[test]
fn vocab_size_prefers_nested_and_rejects_invalid_values() {
    let nested = document(r#"{ "vocab_size": 8, "text_config": { "vocab_size": 16 } }"#);
    assert_eq!(vocab_size_from_json(&nested), Ok(16));
    for text in [r#"{}"#, r#"{ "vocab_size": 0 }"#, r#"{ "vocab_size": "16" }"#] {
        assert!(vocab_size_from_json(&document(text)).is_err());
    }
}

#[test]
fn vocab_size_from_config_reports_the_path() {
    assert_eq!(vocab_size_from_config(CONFIG_PATH, br#"{"vocab_size": 32000}"#).unwrap(), 32_000);
    let error = vocab_size_from_config(CONFIG_PATH, b"{}").unwrap_err();
    assert_eq!(error.message(), "invalid vocab_size in checkpoint/config.json: field is missing");
    let error = vocab_size_from_config(CONFIG_PATH, br#"{"vocab_size": 0}"#).unwrap_err();
    assert_eq!(error.message(), "invalid vocab_size in checkpoint/config.json: must be >= 1");
}

#[test]
fn eos_from_config_reads_a_committed_fixture() {
    let config = br#"{ "architectures": ["Qwen3ForCausalLM"], "eos_token_id": 151645 }"#;
    assert_eq!(eos_from_config(CONFIG_PATH, config).unwrap(), Some(151_645));
}

#[test]
fn eos_from_config_rejects_ambiguous_or_malformed_metadata() {
    let multiple = br#"{ "eos_token_id": [151645, 151643] }"#;
    let error = eos_from_config(CONFIG_PATH, multiple).unwrap_err();
    assert!(matches!(error, HfError::AmbiguousEos { .. }));
    assert_eq!(
        error.message(),
        "ambiguous multi-token eos_token_id in checkpoint/config.json: [151645, 151643]"
    );
    let malformed = br#"{ "eos_token_id": "151645" }"#;
    assert!(matches!(
        eos_from_config(CONFIG_PATH, malformed),
        Err(HfError::InvalidEos { .. })
    ));
    assert!(matches!(eos_from_config(CONFIG_PATH, b"{"), Err(HfError::Parse { .. })));
}

#[test]
fn a_parse_failure_keeps_the_path() {
    let error = checkpoint_eos_from_config(CONFIG_PATH, b"not json").unwrap_err();
    assert_eq!(error.message(), "failed to parse checkpoint/config.json as JSON");
}

#[test]
fn strict_checkpoint_eos_resolution_requires_scalar_or_explicit_mode() {
    let missing = r#"{ "vocab_size": 4 }"#;
    assert!(resolve(missing, &tokenizer(), CheckpointEosSelection::CheckpointDefault).is_err());
    assert_eq!(
        resolve(missing, &tokenizer(), CheckpointEosSelection::Disabled).unwrap(),
        None
    );

    let multiple = r#"{ "vocab_size": 4, "eos_token_id": [2, 3] }"#;
    assert!(resolve(multiple, &tokenizer(), CheckpointEosSelection::CheckpointDefault).is_err());
    assert_eq!(
        resolve(multiple, &tokenizer(), CheckpointEosSelection::Explicit(3)).unwrap(),
        Some(3)
    );
    assert!(resolve(multiple, &tokenizer(), CheckpointEosSelection::Explicit(1)).is_err());
}

#[test]
fn explicit_checkpoint_eos_can_supply_missing_or_override_scalar_declaration() {
    let missing = r#"{ "vocab_size": 4 }"#;
    assert_eq!(
        resolve(missing, &tokenizer(), CheckpointEosSelection::Explicit(3)).unwrap(),
        Some(3)
    );
    let scalar = r#"{ "vocab_size": 4, "eos_token_id": 2 }"#;
    assert_eq!(
        resolve(scalar, &tokenizer(), CheckpointEosSelection::Explicit(3)).unwrap(),
        Some(3)
    );
}

#[test]
fn checkpoint_eos_rejects_model_valid_tokenizer_absent_id() {
    let config = r#"{ "vocab_size": 5, "eos_token_id": 4 }"#;
    assert!(!tokenizer().contains_id(4));
    let error = resolve(config, &tokenizer(), CheckpointEosSelection::CheckpointDefault)
        .unwrap_err()
        .message();
    assert!(
        error.contains("EOS id 4 is not present in the loaded tokenizer vocabulary"),
        "{error}"
    );
}

#[test]
fn checkpoint_eos_model_bound_is_independent_of_sparse_tokenizer_membership() {
    let config = r#"{ "vocab_size": 4, "eos_token_id": 4 }"#;
    let sparse = TokenizerVocabulary { token_ids: vec![0, 1, 2, 4] };
    assert!(sparse.contains_id(4));
    let error = resolve(config, &sparse, CheckpointEosSelection::CheckpointDefault)
        .unwrap_err()
        .message();
    assert!(error.contains("outside model vocab_size 4"), "{error}");
}

#[test]
fn a_disabled_mode_ignores_a_broken_config() {
    assert_eq!(resolve("{", &tokenizer(), CheckpointEosSelection::Disabled).unwrap(), None);
    assert!(matches!(
        resolve("{", &tokenizer(), CheckpointEosSelection::CheckpointDefault),
        Err(HfError::Parse { .. })
    ));
}

#[test]
fn an_explicit_id_outside_the_declared_ones_is_named() {
    let config = r#"{ "vocab_size": 4, "eos_token_id": [2, 3] }"#;
    let error = resolve(config, &tokenizer(), CheckpointEosSelection::Explicit(1)).unwrap_err();
    assert_eq!(
        error.message(),
        "invalid EOS selection for checkpoint/config.json: explicit EOS id 1 is not a member of \
         the checkpoint's declared EOS ids [2, 3]"
    );
}

/// Runs the comparison for every rank, summing the contributions of each reduction.
fn consensus(ids: &[Option<u32>]) -> Vec<EosConsensusStep> {
    let world = ids.len();
    let mut sums: Vec<Real64> = Vec::new();
    loop {
        let steps: Vec<EosConsensusStep> = ids
            .iter()
            .enumerate()
            .map(|(rank, eos)| validate_resolved_eos_consensus(*eos, rank, world, &sums))
            .collect();
        let mut sum = 0.0f64;
        for step in &steps {
            match step {
                EosConsensusStep::Reduce(value) => sum += f64::from(*value),
                _ => return steps,
            }
        }
        sums.push(Real64 { bits: sum.to_bits() });
    }
}

#[test]
fn resolved_eos_consensus_distinguishes_none_from_some_zero() {
    let results = consensus(&[Some(0), None]);
    assert!(results.iter().all(|step| *step == EosConsensusStep::Disagreed));
}

#[test]
fn resolved_eos_consensus_agrees_on_equal_ids() {
    for ids in [
        vec![None, None, None],
        vec![Some(0), Some(0)],
        vec![Some(151_645), Some(151_645), Some(151_645), Some(151_645)],
        vec![Some(7)],
    ] {
        assert!(consensus(&ids).iter().all(|step| *step == EosConsensusStep::Agreed));
    }
    let split = consensus(&[Some(151_645), Some(151_645), Some(151_643)]);
    assert!(split.iter().all(|step| *step == EosConsensusStep::Disagreed));
}

#[test]
fn chatml_wraps_a_user_turn_and_opens_the_assistant_turn() {
    assert_eq!(
        chatml(None, "hi"),
        "<|im_start|>user\nhi<|im_end|>\n<|im_start|>assistant\n"
    );
}

#[test]
fn chatml_includes_the_system_turn_when_present() {
    assert_eq!(
        chatml(Some("be terse"), "hi"),
        "<|im_start|>system\nbe terse<|im_end|>\n\
         <|im_start|>user\nhi<|im_end|>\n<|im_start|>assistant\n"
    );
}
