use ferrl::dtype::DType;
use ferrl::frames::{push_frame, push_word_frame};
use ferrl::gemma4::attention::{choose_mask, MaskChoice};
use ferrl::gemma4::cache::{sliding_mask, Gemma4KvCache};
use ferrl::gemma4::config::Gemma4LayerType;
use ferrl::gemma4::mask::{attention_mask_at, attention_mask_for_keys, masks_at, merged_masks_at};
use ferrl::json::{encode_record, parse_json, Json, JsonScalar};
use ferrl::lora::{BaseQuantization, DenseLoraTargets};
use ferrl::names::sort_distinct;
use ferrl::text::{decimal, flag, hex, same_text, starts_with};

/// Which keys a query may see: itself and those before it, within the window.
fn sees(query: usize, key: usize, window: Option<usize>) -> bool {
    key <= query && window.map_or(true, |window| query - key < window)
}

#[test]
fn masks_show_the_past_within_the_window() {
    for window in [None, Some(1), Some(3), Some(100)] {
        for (offset, chunk_len) in [(0, 1), (0, 4), (3, 2), (7, 5)] {
            let total = offset + chunk_len;
            let mask = attention_mask_at(offset, chunk_len, total, window);
            assert_eq!((mask.chunk_len, mask.key_len), (chunk_len, total));
            for query in 0..chunk_len {
                for key in 0..total {
                    assert_eq!(
                        mask.visible[query * total + key],
                        sees(offset + query, key, window)
                    );
                }
            }
        }
    }
    let late = attention_mask_for_keys(5, 1, 3, 3, Some(2));
    assert_eq!(late.visible, [false, true, true]);
}

#[test]
fn masks_that_hide_nothing_are_left_out() {
    let one = masks_at(0, 1, 3);
    assert!(one.get(Gemma4LayerType::FullAttention).is_none());
    assert!(one.get(Gemma4LayerType::SlidingAttention).is_none());
    let late = masks_at(4, 1, 3);
    assert!(late.get(Gemma4LayerType::FullAttention).is_none());
    assert!(late.get(Gemma4LayerType::SlidingAttention).is_some());
    let many = masks_at(0, 4, 3);
    assert!(many.get(Gemma4LayerType::FullAttention).is_some());
    assert!(many.get(Gemma4LayerType::SlidingAttention).is_some());
    let merged = merged_masks_at(0, 4);
    assert!(merged.full.is_some() && merged.sliding.is_none());
    assert!(merged_masks_at(9, 1).full.is_none());
}

#[test]
fn a_layer_prefers_its_own_mask() {
    let own = attention_mask_at(0, 2, 2, Some(1));
    let shared = attention_mask_at(0, 2, 2, None);
    match choose_mask(Some(&own), Some(&shared)) {
        MaskChoice::Masked(mask) => assert_eq!(mask.visible, own.visible),
        MaskChoice::Unmasked => panic!("expected the own mask"),
    }
    match choose_mask(None, Some(&shared)) {
        MaskChoice::Masked(mask) => assert_eq!(mask.visible, shared.visible),
        MaskChoice::Unmasked => panic!("expected the shared mask"),
    }
    assert!(matches!(choose_mask(None, None), MaskChoice::Unmasked));
}

#[test]
fn a_bounded_cache_keeps_the_last_positions() {
    let mut cache = Gemma4KvCache::new(Some(3));
    let first = cache.append(5);
    assert_eq!((first.key_start, first.key_len), (0, 5));
    assert_eq!((first.keep_from, first.keep_len), (2, 3));
    assert_eq!((cache.current_seq_len(), cache.retained_seq_len()), (5, 3));
    let second = cache.append(1);
    assert_eq!((second.key_start, second.key_len), (2, 4));
    assert_eq!((second.keep_from, second.keep_len), (1, 3));
    assert_eq!((cache.current_seq_len(), cache.retained_seq_len()), (6, 3));
    assert_eq!(cache.max_retained_seq_len(), Some(3));
    cache.reset();
    assert_eq!((cache.current_seq_len(), cache.retained_seq_len()), (0, 0));

    let mut unbounded = Gemma4KvCache::new(None);
    unbounded.append(5);
    unbounded.append(2);
    assert_eq!((unbounded.current_seq_len(), unbounded.retained_seq_len()), (7, 7));
}

#[test]
fn chunks_see_through_a_bounded_cache_what_one_pass_sees() {
    let window = 3;
    for chunks in [vec![7], vec![1, 1, 1, 1, 1, 1, 1], vec![2, 4, 1], vec![5, 2]] {
        let mut cache = Gemma4KvCache::new(Some(window));
        let mut offset = 0;
        for chunk in chunks {
            let append = cache.append(chunk);
            let mask = sliding_mask(&cache, &append, offset, chunk);
            for query in 0..chunk {
                let seen: Vec<usize> = (0..append.key_len)
                    .filter(|key| mask.visible[query * append.key_len + key])
                    .map(|key| append.key_start + key)
                    .collect();
                let expected: Vec<usize> =
                    (0..7).filter(|key| sees(offset + query, *key, Some(window))).collect();
                assert_eq!(seen, expected);
            }
            offset += chunk;
        }
    }
}

#[test]
fn recipes_name_their_projections() {
    assert_eq!(DenseLoraTargets::industrial().canonical(), "attn:qkvo|mlp:gud");
    assert!(DenseLoraTargets::legacy().any());
    assert_eq!(DenseLoraTargets::legacy().canonical(), "attn:qv|mlp:-");
    assert_eq!(BaseQuantization::Unquantized.as_str(), "none");
    assert_eq!(BaseQuantization::Q8_0.as_str(), "q8_0");
    assert_eq!((DType::BF16.as_str(), DType::BF16.variant()), ("bf16", "BF16"));
}

#[test]
fn numbers_and_bytes_are_written_out() {
    for number in [0u64, 7, 10, 99, 100, 12_345, u64::MAX] {
        assert_eq!(decimal(number), number.to_string());
    }
    assert_eq!((flag(true), flag(false)), ("true", "false"));
    assert_eq!(hex(&vec![0x00, 0x0f, 0xa5, 0xff]), "000fa5ff");
    assert!(same_text("a\u{e9}", "a\u{e9}") && !same_text("a", "b"));
    assert!(starts_with("model.x", "model") && !starts_with("mode", "model"));
    let mut bytes = vec![1u8];
    push_frame(&mut bytes, &[5, 6]);
    assert_eq!(bytes, [1, 2, 0, 0, 0, 0, 0, 0, 0, 5, 6]);
    let mut bytes = Vec::new();
    push_word_frame(&mut bytes, &[9]);
    assert_eq!(bytes, [1, 0, 0, 0, 0, 0, 0, 0, 9]);
}

#[test]
fn names_are_sorted_by_their_bytes() {
    let names: Vec<String> =
        ["b", "a", "\u{ff5e}", "\u{10000}", "a", "B", "ab", ""].map(String::from).to_vec();
    let mut expected = names.clone();
    expected.sort();
    expected.dedup();
    assert_eq!(sort_distinct(&names), expected);
}

#[test]
fn json_is_read_into_plain_values() {
    let json = parse_json(br#"{"a":[1,-2,2.5,true,null,"x"],"b":{"c":18446744073709551615}}"#).unwrap();
    match json.get("a") {
        Some(Json::List(items)) => {
            assert!(matches!(items[0], Json::Number(Some(1))));
            assert!(matches!(items[1], Json::Number(None)));
            assert!(matches!(items[2], Json::Number(None)));
            assert!(matches!(items[3], Json::Bool(true)));
            assert!(matches!(items[4], Json::Null));
            assert!(matches!(&items[5], Json::Text(text) if text == "x"));
        }
        other => panic!("expected a list, got {other:?}"),
    }
    let inner = json.get("b").and_then(|inner| inner.get("c"));
    assert!(matches!(inner, Some(Json::Number(Some(u64::MAX)))));
    assert!(json.get("c").is_none());
    assert!(parse_json(b"{").is_err());
    let record = encode_record(&vec![
        ("b".to_string(), JsonScalar::Number(3)),
        ("a".to_string(), JsonScalar::Text("quo\"te".to_string())),
        ("c".to_string(), JsonScalar::Flag(true)),
    ]);
    assert_eq!(record.unwrap(), br#"{"a":"quo\"te","b":3,"c":true}"#);
}

#[test]
fn an_encoded_record_is_read_back() {
    let texts = ["plain", "quo\"te\\", "line\nfeed\u{1}\u{7f}", "\u{e9}\u{1f980}\u{2028}", ""];
    let mut fields = vec![
        ("most".to_string(), JsonScalar::Number(u64::MAX)),
        ("none".to_string(), JsonScalar::Number(0)),
        ("flag".to_string(), JsonScalar::Flag(false)),
    ];
    for text in texts {
        fields.push((format!("key {text}"), JsonScalar::Text(text.to_string())));
    }
    let json = parse_json(&encode_record(&fields).unwrap()).unwrap();
    assert!(matches!(json.get("most"), Some(Json::Number(Some(u64::MAX)))));
    assert!(matches!(json.get("none"), Some(Json::Number(Some(0)))));
    assert!(matches!(json.get("flag"), Some(Json::Bool(false))));
    for text in texts {
        let found = json.get(&format!("key {text}"));
        assert!(matches!(found, Some(Json::Text(read)) if read == text), "{text:?}");
    }
    assert!(json.get("other").is_none());
}
