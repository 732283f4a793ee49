use rmlx_server::engine::audio::{
    audio_bytes, build_audio_prompt, check_mel_frames, GEMMA4_BOA_TOKEN_ID, GEMMA4_EOA_TOKEN_ID,
};
use rmlx_server::engine::error::EngineError;
use rmlx_server::engine::image::{
    build_image_prompt, check_image_model, check_qwen3vl_image, image_load_error, key_side,
    media_error, qwen3vl_image_prompt, qwen3vl_kv_quant, reject_combined_image_audio,
    snapshot_bytes, splice_image_block, user_turn_opener, vision_source, GEMMA4_USER_TURN_OPENER, ImageTokens,
    MediaStep, QWEN3VL_USER_TURN_OPENER, VisionKind, VisionSource,
};
use rmlx_server::engine::kv_quant::KvQuant;
use rmlx_server::image_io::base64_encode;

/// A minimal image block placeholder.
fn block(marker: u32, n: usize) -> Vec<u32> {
    let mut b = vec![900];
    b.extend(std::iter::repeat_n(marker, n));
    b.push(901);
    b
}

#[test]
fn gemma4_block_inserts_inside_user_turn() {
    let bos = 2u32;
    let opener = GEMMA4_USER_TURN_OPENER; // [105, 2364, 107]
    let prompt = [bos, opener[0], opener[1], opener[2], 555, 106, 107];
    let blk = block(258_880, 3);
    let aug = splice_image_block(&prompt, std::slice::from_ref(&blk), &opener);

    let opener_end = 4; // bos + 3 opener tokens
    assert_eq!(
        &aug[..opener_end],
        &prompt[..opener_end],
        "prefix preserved"
    );
    assert_eq!(
        &aug[opener_end..opener_end + blk.len()],
        blk.as_slice(),
        "block spliced right after the user-turn opener"
    );
    assert_eq!(
        aug[opener_end + blk.len()],
        555,
        "user text follows the block (image is inside the turn, before the text)"
    );
}

#[test]
fn gemma4_block_uses_last_user_turn_in_multi_turn() {
    let bos = 2u32;
    let o = GEMMA4_USER_TURN_OPENER;
    let prompt = [
        bos, o[0], o[1], o[2], 10, 106, 107, // turn 1: user "10"
        o[0], o[1], o[2], 20, 106, 107, // turn 2: user "20"
    ];
    let blk = block(258_880, 2);
    let aug = splice_image_block(&prompt, std::slice::from_ref(&blk), &o);

    let second_opener_end = 10;
    assert_eq!(
        &aug[second_opener_end..second_opener_end + blk.len()],
        blk.as_slice(),
        "block spliced into the final user turn, not the first"
    );
    assert_eq!(
        aug[second_opener_end + blk.len()],
        20,
        "second turn text follows"
    );
    assert_eq!(&aug[..second_opener_end], &prompt[..second_opener_end]);
}

#[test]
fn falls_back_to_after_bos_when_opener_absent() {
    let bos = 2u32;
    let prompt = [bos, 500, 501, 502];
    let blk = block(258_880, 2);
    let aug = splice_image_block(&prompt, std::slice::from_ref(&blk), &[]);
    assert_eq!(aug[0], bos, "BOS stays first");
    assert_eq!(
        &aug[1..=blk.len()],
        blk.as_slice(),
        "block spliced right after BOS"
    );
    assert_eq!(
        &aug[1 + blk.len()..],
        &prompt[1..],
        "rest of prompt preserved"
    );

    let aug2 = splice_image_block(
        &prompt,
        std::slice::from_ref(&blk),
        &GEMMA4_USER_TURN_OPENER,
    );
    assert_eq!(
        &aug2[1..=blk.len()],
        blk.as_slice(),
        "opener absent → after-BOS"
    );
}

#[test]
fn empty_prompt_inserts_block_at_front() {
    let blk = block(258_880, 1);
    let aug = splice_image_block(&[], std::slice::from_ref(&blk), &GEMMA4_USER_TURN_OPENER);
    assert_eq!(aug, blk, "empty prompt → block is the whole sequence");
}

#[test]
fn multi_image_blocks_appear_in_order_and_contiguous() {
    let bos = 2u32;
    let o = GEMMA4_USER_TURN_OPENER;
    let prompt = [bos, o[0], o[1], o[2], 555, 106, 107];
    let blk1 = block(111, 2); // first image block
    let blk2 = block(222, 3); // second image block
    let aug = splice_image_block(&prompt, &[blk1.clone(), blk2.clone()], &o);

    let opener_end = 4usize; // bos + 3 opener tokens
    assert_eq!(
        &aug[opener_end..opener_end + blk1.len()],
        blk1.as_slice(),
        "first block lands first"
    );
    assert_eq!(
        &aug[opener_end + blk1.len()..opener_end + blk1.len() + blk2.len()],
        blk2.as_slice(),
        "second block immediately follows first"
    );
    assert_eq!(
        aug[opener_end + blk1.len() + blk2.len()],
        555,
        "user text follows both blocks"
    );
    assert_eq!(
        aug.len(),
        prompt.len() + blk1.len() + blk2.len(),
        "length adds up"
    );
}

#[test]
fn qwen3vl_single_turn_splice_matches_last_opener() {
    let bos = 1u32;
    let o = QWEN3VL_USER_TURN_OPENER; // [151644, 872, 198]
    let prompt = [bos, o[0], o[1], o[2], 999, 151_645];
    let blk = block(151_655, 4);
    let aug = splice_image_block(&prompt, std::slice::from_ref(&blk), &o);

    let opener_end = 4usize; // bos + 3 opener tokens
    assert_eq!(
        &aug[opener_end..opener_end + blk.len()],
        blk.as_slice(),
        "vision block lands right after the user-turn opener"
    );
    assert_eq!(aug[opener_end + blk.len()], 999, "user text follows");
}

#[test]
fn image_prompt_has_one_block_per_image() {
    let tokens = ImageTokens {
        begin: 7,
        placeholder: 8,
        end: 9,
    };
    let aug = build_image_prompt(tokens, &vec![2, 1], &[1, 50], &[]);
    assert_eq!(aug, vec![1, 7, 8, 8, 9, 7, 8, 9, 50]);
}

#[test]
fn qwen3vl_prompt_uses_vision_markers() {
    let aug = qwen3vl_image_prompt(2, &[151_644, 872, 198, 42]);
    assert_eq!(
        aug,
        vec![151_644, 872, 198, 151_652, 151_655, 151_655, 151_653, 42]
    );
}

#[test]
fn image_models_are_checked() {
    assert!(check_image_model(VisionKind::Gemma3, true).is_ok());
    assert_eq!(
        check_image_model(VisionKind::Gemma4Unified, false)
            .unwrap_err()
            .message(),
        Some("image input requires the Gemma4 architecture")
    );
    assert_eq!(
        check_image_model(VisionKind::Qwen3VlMoe, true)
            .unwrap_err()
            .message(),
        Some("internal: Qwen3-VL image path must route through run_qwen3vl_image")
    );
    assert!(check_qwen3vl_image(VisionKind::Qwen3VlMoe, true, 1).is_ok());
    assert_eq!(
        check_qwen3vl_image(VisionKind::Qwen3VlMoe, true, 2)
            .unwrap_err()
            .message(),
        Some("Qwen3-VL image path currently serves exactly one image per request (got 2)")
    );
    assert_eq!(
        check_qwen3vl_image(VisionKind::Qwen3VlMoe, false, 1)
            .unwrap_err()
            .message(),
        Some("image input requires the Qwen3-VL-MoE architecture")
    );
    assert_eq!(
        check_qwen3vl_image(VisionKind::Gemma3, true, 1)
            .unwrap_err()
            .message(),
        Some("run_qwen3vl_image called with non-Qwen3VL vision bundle")
    );
}

#[test]
fn qwen3vl_defaults_to_no_compression() {
    assert_eq!(qwen3vl_kv_quant(None), KvQuant::Bf16);
    assert_eq!(qwen3vl_kv_quant(Some(KvQuant::K8V8)), KvQuant::K8V8);
}

#[test]
fn partial_snapshots_are_not_cached() {
    assert_eq!(snapshot_bytes(&vec![Some(10), Some(5)]), Some(15));
    assert_eq!(snapshot_bytes(&vec![Some(10), None]), None);
    assert_eq!(snapshot_bytes(&vec![]), Some(0));
}

#[test]
fn image_load_failure_is_wrapped() {
    assert_eq!(
        image_load_error("no such file").message(),
        Some("image load failed: no such file")
    );
}

// ── Combined input ───────────────────────────────────────────────────────────

#[test]
fn combined_image_and_audio_is_rejected_with_clear_error() {
    let err = reject_combined_image_audio(true, true)
        .expect("combined image + audio must be rejected, not silently dropped");
    assert!(
        matches!(err, EngineError::Other(_)),
        "expected Error::Other request-level rejection, got {err:?}"
    );
    let msg = err.message().unwrap();
    assert!(
        msg.contains("combined image + audio input in one request is not supported"),
        "error message must clearly explain the unsupported combination: {msg}"
    );
    assert!(
        msg.contains("separate turns"),
        "error message must tell the caller to send them in separate turns: {msg}"
    );
}

#[test]
fn audio_only_request_is_not_rejected() {
    assert!(
        reject_combined_image_audio(false, true).is_none(),
        "audio-only request must route to the audio path, not be rejected"
    );
}

#[test]
fn image_only_request_is_not_rejected() {
    assert!(
        reject_combined_image_audio(true, false).is_none(),
        "image-only request must route to the image path, not be rejected"
    );
}

#[test]
fn text_only_request_is_not_rejected() {
    assert!(
        reject_combined_image_audio(false, false).is_none(),
        "text-only request must route to the plain path, not be rejected"
    );
}

// ── Audio ────────────────────────────────────────────────────────────────────

#[test]
fn audio_prompt_multi_clip_rejected() {
    let two = vec!["AAAA".to_owned(), "BBBB".to_owned()];
    let err = audio_bytes(&two, true).expect_err("two clips must be rejected");
    assert!(
        err.message().unwrap().contains("one audio clip"),
        "clear multi-clip error: {err:?}"
    );
}

#[test]
fn audio_payload_is_decoded_behind_its_prefix() {
    let clip = base64_encode(b"RIFF");
    assert_eq!(audio_bytes(&vec![clip.clone()], true).unwrap(), b"RIFF");
    assert_eq!(
        audio_bytes(&vec![format!("data:audio/wav;base64,{clip}")], true).unwrap(),
        b"RIFF"
    );
    assert_eq!(
        audio_bytes(&vec![clip], false).unwrap_err().message(),
        Some("audio input requires the Gemma4 architecture")
    );
    assert_eq!(
        audio_bytes(&vec!["a!".to_owned()], true)
            .unwrap_err()
            .message(),
        Some("input_audio base64 decode failed: invalid base64 char '!'")
    );
}

#[test]
fn audio_block_follows_the_leading_token() {
    let prompt_tokens = vec![2u32, 1234, 5678];
    let ids = build_audio_prompt(77, 3, &prompt_tokens).unwrap();
    assert_eq!(
        ids,
        vec![
            2,
            GEMMA4_BOA_TOKEN_ID,
            77,
            77,
            77,
            GEMMA4_EOA_TOKEN_ID,
            1234,
            5678
        ]
    );
    assert_eq!(
        build_audio_prompt(77, 0, &prompt_tokens)
            .unwrap_err()
            .message(),
        Some("input_audio produced zero audio soft tokens (clip too short)")
    );
    assert!(check_mel_frames(1).is_ok());
    assert_eq!(
        check_mel_frames(0).unwrap_err().message(),
        Some("input_audio produced zero mel frames (clip too short)")
    );
}

#[test]
fn failed_steps_are_named() {
    for (step, text) in [
        (MediaStep::Preprocess(2), "image 2 preprocess failed: x"),
        (
            MediaStep::Qwen3VlPreprocess,
            "Qwen3-VL image preprocess failed: x",
        ),
        (MediaStep::Qwen3VlVision, "Qwen3-VL vision tower failed: x"),
        (MediaStep::AudioDecode, "input_audio decode failed: x"),
        (
            MediaStep::MelExtraction,
            "input_audio mel extraction failed: x",
        ),
        (
            MediaStep::FeatureExtractor,
            "gemma4 audio feature extractor: x",
        ),
    ] {
        assert_eq!(media_error(step, "x").message(), Some(text));
    }
}

#[test]
fn grid_sides_are_clamped_in_the_key() {
    assert_eq!(key_side(0), 0);
    assert_eq!(key_side(65_535), 65_535);
    assert_eq!(key_side(65_536), 65_535);
}

#[test]
fn vision_output_comes_from_the_cache_if_it_is_there() {
    match vision_source(Some(Some(vec![7, 8, 9]))) {
        VisionSource::Cached { image, deepstack } => {
            assert_eq!(image, 7);
            assert_eq!(deepstack, vec![8, 9]);
        }
        VisionSource::Computed { .. } => panic!("the cache was not used"),
    }
    assert!(matches!(
        vision_source::<u32>(None),
        VisionSource::Computed { store: false }
    ));
    assert!(matches!(
        vision_source::<u32>(Some(None)),
        VisionSource::Computed { store: true }
    ));
    assert!(matches!(
        vision_source::<u32>(Some(Some(vec![]))),
        VisionSource::Computed { store: false }
    ));
}

#[test]
fn images_go_behind_the_opener_of_their_architecture() {
    assert_eq!(user_turn_opener(VisionKind::Gemma4), GEMMA4_USER_TURN_OPENER);
    assert_eq!(
        user_turn_opener(VisionKind::Gemma4Unified),
        GEMMA4_USER_TURN_OPENER
    );
    assert!(user_turn_opener(VisionKind::Gemma3).is_empty());
    assert_eq!(
        user_turn_opener(VisionKind::Qwen3VlMoe),
        QWEN3VL_USER_TURN_OPENER
    );
}
