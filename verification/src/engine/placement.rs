//! Where images and audio clips stand in a prompt.
//!
//! The laws here say, token by token, what the prompt of a request with media is made
//! of, and which requests are refused.

use vstd::prelude::*;
use vstd::utf8::encode_utf8;

use crate::engine::audio::{audio_bytes, behind_comma, build_audio_prompt, check_mel_frames};
use crate::engine::error::EngineError;
use crate::engine::image::{
    block_of, block_views, build_image_prompt, check_image_model, check_qwen3vl_image,
    copied_sizes, image_blocks, image_load_error, insert_position, joined, key_side, last_opener, law_blocks_stand_in_last_turn,
    media_error, qwen3vl_image_prompt, qwen3vl_kv_quant, reject_combined_image_audio,
    snapshot_bytes, splice_image_block, spliced, user_turn_opener, vision_source, ImageTokens, MediaStep, VisionKind,
    VisionSource,
};
use crate::engine::kv_quant::KvQuant;
use crate::image_io::{encoded, law_base64_round_trip};
use crate::text::{decimal, occurs_at};

verus! {

// ── Blocks ───────────────────────────────────────────────────────────────────

/// Tokens stand at `at` in a prompt: the begin marker, `n` placeholders, the end
/// marker; around them stands the prompt as it was.
pub open spec fn holds_block(
    r: Seq<u32>,
    prompt: Seq<u32>,
    at: int,
    begin: u32,
    placeholder: u32,
    n: int,
    end: u32,
) -> bool {
    &&& r.len() == prompt.len() + n + 2
    &&& r[at] == begin
    &&& forall|i: int| at < i <= at + n ==> #[trigger] r[i] == placeholder
    &&& r[at + n + 1] == end
    &&& r.subrange(0, at) == prompt.subrange(0, at)
    &&& r.subrange(at + n + 2, r.len() as int) == prompt.subrange(at, prompt.len() as int)
}

proof fn lemma_one_block(
    r: Seq<u32>,
    prompt: Seq<u32>,
    at: int,
    begin: u32,
    placeholder: u32,
    n: nat,
    end: u32,
)
    requires
        0 <= at <= prompt.len(),
        r == spliced(prompt, seq![block_of(begin, placeholder, n, end)], at),
    ensures
        holds_block(r, prompt, at, begin, placeholder, n as int, end),
{
    let b = block_of(begin, placeholder, n, end);
    let one = seq![b];
    assert(one.drop_last() =~= Seq::empty());
    assert(joined(one.drop_last()) =~= Seq::empty());
    assert(joined(one) =~= b);
    assert(r =~= prompt.subrange(0, at) + b + prompt.subrange(at, prompt.len() as int));
    assert forall|i: int| at < i <= at + n implies #[trigger] r[i] == placeholder by {
        assert(r[i] == b[i - at]);
    }
    assert(r[at + n + 1] == b[(n + 1) as int]);
    assert(r.subrange(0, at) =~= prompt.subrange(0, at));
    assert(r.subrange(at + n + 2, r.len() as int) =~= prompt.subrange(at, prompt.len() as int));
}

/// The block of an image stands in the last user turn: right behind the last occurrence
/// of the tokens that open one. `p` is that occurrence.
pub proof fn law_image_stands_in_the_last_turn(
    tokens: ImageTokens,
    soft: Vec<usize>,
    prompt: &[u32],
    opener: &[u32],
    r: Vec<u32>,
    p: int,
)
    requires
        call_ensures(build_image_prompt, (tokens, &soft, prompt, opener), r),
        soft@.len() == 1,
        opener@.len() > 0,
        occurs_at(prompt@, opener@, p),
        forall|q: int| p < q ==> !occurs_at(prompt@, opener@, q),
    ensures
        holds_block(
            r@,
            prompt@,
            p + opener@.len(),
            tokens.begin,
            tokens.placeholder,
            soft@[0] as int,
            tokens.end,
        ),
{
    let at = choose|at: int|
        0 <= at <= prompt@.len() && insert_position(prompt@, opener@, at) && r@
            == #[trigger] spliced(prompt@, image_blocks(tokens, soft@), at);
    law_blocks_stand_in_last_turn(prompt@, opener@, p, at);
    let b = block_of(tokens.begin, tokens.placeholder, soft@[0] as nat, tokens.end);
    assert(image_blocks(tokens, soft@) =~= seq![b]);
    lemma_one_block(
        r@,
        prompt@,
        at,
        tokens.begin,
        tokens.placeholder,
        soft@[0] as nat,
        tokens.end,
    );
}

/// Without an opener in the prompt the block stands behind the first token, and in an
/// empty prompt alone.
pub proof fn law_image_stands_in_front_without_a_turn(
    tokens: ImageTokens,
    soft: Vec<usize>,
    prompt: &[u32],
    opener: &[u32],
    r: Vec<u32>,
)
    requires
        call_ensures(build_image_prompt, (tokens, &soft, prompt, opener), r),
        soft@.len() == 1,
        opener@.len() == 0 || forall|q: int| !occurs_at(prompt@, opener@, q),
    ensures
        holds_block(
            r@,
            prompt@,
            if prompt@.len() == 0 {
                0
            } else {
                1
            },
            tokens.begin,
            tokens.placeholder,
            soft@[0] as int,
            tokens.end,
        ),
{
    let at = choose|at: int|
        0 <= at <= prompt@.len() && insert_position(prompt@, opener@, at) && r@
            == #[trigger] spliced(prompt@, image_blocks(tokens, soft@), at);
    assert forall|p: int| !last_opener(prompt@, opener@, p) by {}
    let b = block_of(tokens.begin, tokens.placeholder, soft@[0] as nat, tokens.end);
    assert(image_blocks(tokens, soft@) =~= seq![b]);
    lemma_one_block(
        r@,
        prompt@,
        at,
        tokens.begin,
        tokens.placeholder,
        soft@[0] as nat,
        tokens.end,
    );
}

/// Several images stand one behind the other, in order: a further image adds its block
/// behind those of the images before it.
pub proof fn law_images_stand_in_order(tokens: ImageTokens, soft: Seq<usize>, n: usize)
    ensures
        joined(image_blocks(tokens, Seq::empty())).len() == 0,
        ({
            let before = joined(image_blocks(tokens, soft));
            let after = joined(image_blocks(tokens, soft.push(n)));
            &&& after.len() == before.len() + n + 2
            &&& after.subrange(0, before.len() as int) == before
            &&& after[before.len() as int] == tokens.begin
            &&& forall|i: int|
                before.len() < i <= before.len() + n ==> #[trigger] after[i] == tokens.placeholder
            &&& after[before.len() + n + 1] == tokens.end
        }),
{
    let all = image_blocks(tokens, soft.push(n));
    let b = block_of(tokens.begin, tokens.placeholder, n as nat, tokens.end);
    assert(all.drop_last() =~= image_blocks(tokens, soft));
    assert(all.last() == b);
    let before = joined(image_blocks(tokens, soft));
    let after = joined(all);
    assert(after == before + b);
    assert(after.subrange(0, before.len() as int) =~= before);
    assert forall|i: int| before.len() < i <= before.len() + n implies #[trigger] after[i]
        == tokens.placeholder by {
        assert(after[i] == b[i - before.len()]);
    }
    assert(after[before.len() + n + 1] == b[n + 1]);
}

/// A turn is opened by the architecture's own tokens; where it has none, images stand
/// behind the first token.
pub proof fn law_turns_are_opened_by_their_tokens(kind: VisionKind, r: Vec<u32>)
    requires
        call_ensures(user_turn_opener, (kind,), r),
    ensures
        kind == VisionKind::Gemma4 || kind == VisionKind::Gemma4Unified ==> r@ == seq![
            105u32,
            2364,
            107,
        ],
        kind == VisionKind::Gemma3 ==> r@.len() == 0,
        kind == VisionKind::Qwen3VlMoe ==> r@ == seq![151_644u32, 872, 198],
{
    if kind == VisionKind::Gemma4 || kind == VisionKind::Gemma4Unified {
        assert(r@ =~= seq![105u32, 2364, 107]);
    } else if kind == VisionKind::Qwen3VlMoe {
        assert(r@ =~= seq![151_644u32, 872, 198]);
    }
}

/// An image of Qwen3-VL stands between its own vision markers, in the last user turn.
pub proof fn law_qwen_image_stands_in_the_last_turn(
    soft: usize,
    prompt: &[u32],
    r: Vec<u32>,
    p: int,
)
    requires
        call_ensures(qwen3vl_image_prompt, (soft, prompt), r),
        occurs_at(prompt@, seq![151_644u32, 872, 198], p),
        forall|q: int| p < q ==> !occurs_at(prompt@, seq![151_644u32, 872, 198], q),
    ensures
        holds_block(r@, prompt@, p + 3, 151_652, 151_655, soft as int, 151_653),
{
    let opener = seq![151_644u32, 872, 198];
    let blocks = seq![block_of(151_652, 151_655, soft as nat, 151_653)];
    let at = choose|at: int|
        0 <= at <= prompt@.len() && insert_position(prompt@, opener, at) && r@
            == #[trigger] spliced(prompt@, blocks, at);
    law_blocks_stand_in_last_turn(prompt@, opener, p, at);
    lemma_one_block(r@, prompt@, at, 151_652, 151_655, soft as nat, 151_653);
}

/// An audio clip stands behind the first token, between its markers; a clip without
/// soft tokens is refused.
pub proof fn law_audio_stands_behind_the_first_token(
    audio_token_id: u32,
    soft: usize,
    prompt: &[u32],
    r: Result<Vec<u32>, EngineError>,
)
    requires
        call_ensures(build_audio_prompt, (audio_token_id, soft, prompt), r),
    ensures
        r is Err == (soft == 0),
        r matches Ok(ids) ==> holds_block(
            ids@,
            prompt@,
            if prompt@.len() == 0 {
                0
            } else {
                1
            },
            256_000,
            audio_token_id,
            soft as int,
            258_883,
        ),
{
    match r {
        Ok(ids) => {
            lemma_one_block(
                ids@,
                prompt@,
                if prompt@.len() == 0 {
                    0
                } else {
                    1
                },
                256_000,
                audio_token_id,
                soft as nat,
                258_883,
            );
        },
        Err(_) => {},
    }
}

// ── Audio ────────────────────────────────────────────────────────────────────

/// The one clip of a request is decoded from its base64 text, behind a `data:` prefix
/// where it has one. More or fewer clips, and another architecture, are refused.
pub proof fn law_audio_is_decoded(
    clips: Vec<String>,
    arch_matches: bool,
    head: Seq<char>,
    d: Seq<u8>,
    r: Result<Vec<u8>, EngineError>,
)
    requires
        call_ensures(audio_bytes, (&clips, arch_matches), r),
        d.len() > 0,
        clips@.len() == 1 ==> clips@[0]@ == encoded(d) || clips@[0]@ == head + seq![',']
            + encoded(d),
    ensures
        clips@.len() != 1 || !arch_matches ==> r is Err,
        clips@.len() == 1 && arch_matches ==> (r matches Ok(b) && b@ == d),
{
    if clips@.len() == 1 {
        lemma_no_comma(d);
        lemma_behind_comma(head, encoded(d));
        law_base64_round_trip(d, encode_utf8(encoded(d)));
    }
}

proof fn lemma_no_comma(d: Seq<u8>)
    ensures
        forall|i: int| 0 <= i < encoded(d).len() ==> #[trigger] encoded(d)[i] != ',',
    decreases d.len(),
{
    if d.len() > 2 {
        let rest = d.subrange(3, d.len() as int);
        lemma_no_comma(rest);
        let e = encoded(d);
        assert forall|i: int| 0 <= i < e.len() implies #[trigger] e[i] != ',' by {
            if i >= 4 {
                assert(e[i] == encoded(rest)[i - 4]);
            }
        }
    }
}

proof fn lemma_behind_comma(head: Seq<char>, text: Seq<char>)
    requires
        forall|i: int| 0 <= i < text.len() ==> #[trigger] text[i] != ',',
    ensures
        behind_comma(head + seq![','] + text) == text,
        behind_comma(text) == text,
    decreases text.len(),
{
    let s = head + seq![','] + text;
    if text.len() == 0 {
        assert(text =~= Seq::empty());
        assert(s[s.len() - 1] == ',');
    } else {
        let init = text.drop_last();
        assert forall|i: int| 0 <= i < init.len() implies #[trigger] init[i] != ',' by {
            assert(init[i] == text[i]);
        }
        lemma_behind_comma(head, init);
        assert(s.drop_last() =~= head + seq![','] + init);
        assert(s[s.len() - 1] == text[text.len() - 1]);
        assert(init.push(text[text.len() - 1]) =~= text);
    }
}

// ── Refusals ─────────────────────────────────────────────────────────────────

/// Images are put into prompts of the vision architectures, by a model that is of its
/// architecture; those of Qwen3-VL go their own way, one at a time. A request has either
/// images or audio. A clip needs feature frames.
pub proof fn law_media_need_their_model(
    kind: VisionKind,
    arch_matches: bool,
    images: usize,
    here: Result<(), EngineError>,
    qwen: Result<(), EngineError>,
    has_image: bool,
    has_audio: bool,
    combined: Option<EngineError>,
    frames: usize,
    mel: Result<(), EngineError>,
)
    requires
        call_ensures(check_image_model, (kind, arch_matches), here),
        call_ensures(check_qwen3vl_image, (kind, arch_matches, images), qwen),
        call_ensures(reject_combined_image_audio, (has_image, has_audio), combined),
        call_ensures(check_mel_frames, (frames,), mel),
    ensures
        here is Ok == (kind != VisionKind::Qwen3VlMoe && arch_matches),
        qwen is Ok == (kind == VisionKind::Qwen3VlMoe && arch_matches && images == 1),
        combined is Some == (has_image && has_audio),
        mel is Ok == (frames > 0),
{
}

/// A failed step is named in front of its message, and of an image its position.
pub proof fn law_media_failures_are_named(step: MediaStep, message: &str, r: EngineError)
    requires
        call_ensures(media_error, (step, message), r),
    ensures
        r matches EngineError::Other(t) && t@ == (match step {
            MediaStep::Preprocess(i) => "image "@ + decimal(i as nat) + " preprocess failed: "@,
            MediaStep::Qwen3VlPreprocess => "Qwen3-VL image preprocess failed: "@,
            MediaStep::Qwen3VlVision => "Qwen3-VL vision tower failed: "@,
            MediaStep::AudioDecode => "input_audio decode failed: "@,
            MediaStep::MelExtraction => "input_audio mel extraction failed: "@,
            MediaStep::FeatureExtractor => "gemma4 audio feature extractor: "@,
        }) + message@,
{
}

// ── The vision cache ─────────────────────────────────────────────────────────

/// What the cache holds is used: its first array is the image's, the others those of
/// the deeper layers, in order. What it does not hold is computed and stored, and
/// without a cache computed alone.
pub proof fn law_vision_cache_is_used(lookup: Option<Option<Vec<u64>>>, r: VisionSource<u64>)
    requires
        call_ensures(vision_source::<u64>, (lookup,), r),
    ensures
        lookup is None ==> (r matches VisionSource::Computed { store } && !store),
        lookup matches Some(None) ==> (r matches VisionSource::Computed { store } && store),
        lookup matches Some(Some(arrays)) && arrays@.len() > 0 ==> (
        r matches VisionSource::Cached { image, deepstack } && image == lookup->0->0@[0]
            && deepstack@ == lookup->0->0@.subrange(1, lookup->0->0@.len() as int)),
{
    match lookup {
        Some(Some(arrays)) => {
            if arrays@.len() > 0 {
                match r {
                    VisionSource::Cached { image, deepstack } => {
                        let all = seq![image] + deepstack@;
                        assert(all[0] == image);
                        assert(deepstack@ =~= all.subrange(1, all.len() as int));
                    },
                    _ => {},
                }
            }
        },
        _ => {},
    }
}

/// A set of arrays is cached when all of them could be copied, at the sum of their
/// sizes. A side of a grid counts as the largest that fits, and an image of Qwen3-VL
/// runs without compression unless a codec is set.
pub proof fn law_vision_sizes(
    copies: Vec<Option<usize>>,
    longer: Vec<Option<usize>>,
    a: Option<usize>,
    b: Option<usize>,
    n: usize,
    side: u16,
    codec: Option<KvQuant>,
    run: KvQuant,
)
    requires
        longer@.len() > 0,
        copies@ == longer@.drop_last(),
        call_ensures(snapshot_bytes, (&copies,), a),
        call_ensures(snapshot_bytes, (&longer,), b),
        call_ensures(key_side, (n,), side),
        call_ensures(qwen3vl_kv_quant, (codec,), run),
    ensures
        copies@.len() == 0 ==> a == Some(0usize),
        b is Some == (a is Some && longer@.last() is Some),
        b matches Some(sum) ==> sum == a->0 + longer@.last()->0,
        n <= 65535 ==> side == n,
        n > 65535 ==> side == 65535,
        codec matches Some(q) ==> run == q,
        codec is None ==> run == KvQuant::Bf16,
{
    let sizes = copied_sizes(longer@);
    assert(sizes.drop_last() =~= copied_sizes(copies@));
    assert forall|i: int| 0 <= i < copies@.len() implies copies@[i] == #[trigger] longer@[i] by {}
    if a is None {
        let i = choose|i: int| 0 <= i < copies@.len() && (#[trigger] copies@[i]) is None;
        assert(longer@[i] is None);
    }
    if b is Some {
        assert(longer@[longer@.len() - 1] is Some);
    } else {
        let i = choose|i: int| 0 <= i < longer@.len() && (#[trigger] longer@[i]) is None;
        if i < copies@.len() {
            assert(copies@[i] is None);
        }
    }
}

/// What a request with media is told that cannot be served.
pub proof fn law_media_refusals_are_told(
    kind: VisionKind,
    images: usize,
    here: Result<(), EngineError>,
    many: Result<(), EngineError>,
    clips: Vec<String>,
    audio: Result<Vec<u8>, EngineError>,
    combined: Option<EngineError>,
)
    requires
        call_ensures(check_image_model, (kind, false), here),
        call_ensures(check_qwen3vl_image, (VisionKind::Qwen3VlMoe, true, images), many),
        call_ensures(audio_bytes, (&clips, false), audio),
        call_ensures(reject_combined_image_audio, (true, true), combined),
        images != 1,
    ensures
        kind != VisionKind::Qwen3VlMoe ==> (here matches Err(EngineError::Other(t)) && t@
            == "image input requires the "@ + (if kind == VisionKind::Gemma3 {
            "Gemma3"@
        } else {
            "Gemma4"@
        }) + " architecture"@),
        many matches Err(EngineError::Other(t)) && t@
            == "Qwen3-VL image path currently serves exactly one image per request (got "@
            + decimal(images as nat) + ")"@,
        clips@.len() != 1 ==> (audio matches Err(EngineError::Other(t)) && t@
            == "audio input currently serves exactly one audio clip per request (got "@ + decimal(
            clips@.len(),
        ) + ")"@),
        clips@.len() == 1 ==> (audio matches Err(EngineError::Other(t)) && t@
            == "audio input requires the Gemma4 architecture"@),
        combined matches Some(EngineError::Other(t)) && t@
            == "combined image + audio input in one request is not supported; send the image and the audio in separate turns"@,
{
}

/// Blocks that are put into a prompt stand behind one another, behind the last opener of
/// a turn, and the prompt around them stays as it was. `p` is the last opener.
pub proof fn law_blocks_are_spliced_in(
    prompt: &[u32],
    blocks: &[Vec<u32>],
    opener: &[u32],
    r: Vec<u32>,
    p: int,
)
    requires
        call_ensures(splice_image_block, (prompt, blocks, opener), r),
        blocks@.len() == 2,
        opener@.len() > 0,
        occurs_at(prompt@, opener@, p),
        forall|q: int| p < q ==> !occurs_at(prompt@, opener@, q),
    ensures
        r@ == prompt@.subrange(0, p + opener@.len()) + blocks@[0]@ + blocks@[1]@
            + prompt@.subrange(p + opener@.len(), prompt@.len() as int),
{
    let at = choose|at: int|
        0 <= at <= prompt@.len() && insert_position(prompt@, opener@, at) && r@
            == #[trigger] spliced(prompt@, block_views(blocks@), at);
    law_blocks_stand_in_last_turn(prompt@, opener@, p, at);
    let bs = block_views(blocks@);
    assert(bs.drop_last().drop_last() =~= Seq::empty());
    assert(joined(bs.drop_last().drop_last()) =~= Seq::empty());
    assert(joined(bs.drop_last()) =~= blocks@[0]@);
    assert(joined(bs) =~= blocks@[0]@ + blocks@[1]@);
    assert(r@ =~= prompt@.subrange(0, at) + blocks@[0]@ + blocks@[1]@ + prompt@.subrange(
        at,
        prompt@.len() as int,
    ));
}

/// An image that could not be loaded is told so, with the reason.
pub proof fn law_load_failures_are_told(message: &str, r: EngineError)
    requires
        call_ensures(image_load_error, (message,), r),
    ensures
        r matches EngineError::Other(t) && t@ == "image load failed: "@ + message@,
{
}

} // verus!
