//! Placement of image and audio tokens in a prompt.
//!
//! An image is represented in the prompt by a block: a begin marker, one
//! placeholder per soft token, an end marker. The block stands inside the last
//! user turn, in front of the user's text.

use vstd::prelude::*;

use crate::engine::error::{EngineError, EngineErrorV};
use crate::engine::kv_quant::KvQuant;
use crate::text::{decimal, join2, join3, occurs_at, u64_text, views};

verus! {

/// The tokens that open a user turn of Gemma 4.
pub const GEMMA4_USER_TURN_OPENER: [u32; 3] = [105, 2364, 107];

/// The tokens that open a user turn of Qwen3-VL.
pub const QWEN3VL_USER_TURN_OPENER: [u32; 3] = [151_644, 872, 198];

pub const QWEN3VL_VISION_START_ID: u32 = 151_652;

pub const QWEN3VL_VISION_END_ID: u32 = 151_653;

pub const QWEN3VL_IMAGE_PAD_ID: u32 = 151_655;

// ── Blocks ───────────────────────────────────────────────────────────────────

/// A block of `n` placeholders between its markers.
pub open spec fn block_of(begin: u32, placeholder: u32, n: nat, end: u32) -> Seq<u32> {
    seq![begin] + Seq::new(n, |i: int| placeholder) + seq![end]
}

/// A block of `n` placeholders between its markers.
pub fn media_block(begin: u32, placeholder: u32, n: usize, end: u32) -> (r: Vec<u32>)
    ensures
        r@ == block_of(begin, placeholder, n as nat, end),
{
    let mut out: Vec<u32> = Vec::new();
    out.push(begin);
    let mut i: usize = 0;
    while i < n
        invariant
            i <= n,
            out@ =~= seq![begin] + Seq::new(i as nat, |k: int| placeholder),
        decreases n - i,
    {
        out.push(placeholder);
        i += 1;
    }
    out.push(end);
    proof {
        assert(out@ =~= block_of(begin, placeholder, n as nat, end));
    }
    out
}

/// The tokens of all blocks, in order.
pub open spec fn joined(blocks: Seq<Seq<u32>>) -> Seq<u32>
    decreases blocks.len(),
{
    if blocks.len() == 0 {
        Seq::empty()
    } else {
        joined(blocks.drop_last()) + blocks.last()
    }
}

// ── Placement ────────────────────────────────────────────────────────────────

/// `p` is the last position at which `opener` stands in the prompt.
pub open spec fn last_opener(prompt: Seq<u32>, opener: Seq<u32>, p: int) -> bool {
    &&& opener.len() > 0
    &&& occurs_at(prompt, opener, p)
    &&& forall|q: int| p < q ==> !occurs_at(prompt, opener, q)
}

/// Blocks go behind the last user-turn opener; where there is none, behind the
/// first token; in an empty prompt, to the front.
pub open spec fn insert_position(prompt: Seq<u32>, opener: Seq<u32>, at: int) -> bool {
    if exists|p: int| last_opener(prompt, opener, p) {
        exists|p: int| #[trigger] last_opener(prompt, opener, p) && at == p + opener.len()
    } else if prompt.len() == 0 {
        at == 0
    } else {
        at == 1
    }
}

/// The prompt with the blocks inserted at `at`.
pub open spec fn spliced(prompt: Seq<u32>, blocks: Seq<Seq<u32>>, at: int) -> Seq<u32> {
    prompt.subrange(0, at) + joined(blocks) + prompt.subrange(at, prompt.len() as int)
}

/// The views of token blocks.
pub open spec fn block_views(blocks: Seq<Vec<u32>>) -> Seq<Seq<u32>> {
    views(blocks)
}

fn opener_at(prompt: &[u32], opener: &[u32], p: usize) -> (r: bool)
    ensures
        r == occurs_at(prompt@, opener@, p as int),
{
    if p > prompt.len() || opener.len() > prompt.len() - p {
        return false;
    }
    let n: usize = prompt.len();
    let mut k: usize = 0;
    while k < opener.len()
        invariant
            k <= opener@.len(),
            n == prompt@.len(),
            p + opener@.len() <= n,
            forall|j: int| 0 <= j < k ==> prompt@[p + j] == opener@[j],
        decreases opener@.len() - k,
    {
        if prompt[p + k] != opener[k] {
            proof {
                assert(prompt@.subrange(p as int, p + opener@.len())[k as int] != opener@[k as int]);
            }
            return false;
        }
        k += 1;
    }
    proof {
        assert(prompt@.subrange(p as int, p + opener@.len()) =~= opener@);
    }
    true
}

fn find_insert_position(prompt: &[u32], opener: &[u32]) -> (at: usize)
    ensures
        at <= prompt@.len(),
        insert_position(prompt@, opener@, at as int),
{
    let n: usize = prompt.len();
    if opener.len() > 0 {
        let mut p: usize = n;
        loop
            invariant_except_break
                p <= n,
                n == prompt@.len(),
                opener@.len() > 0,
                forall|q: int| p < q ==> !occurs_at(prompt@, opener@, q),
            ensures
                forall|q: int| !occurs_at(prompt@, opener@, q),
            decreases p,
        {
            if opener_at(prompt, opener, p) {
                proof {
                    assert(last_opener(prompt@, opener@, p as int));
                }
                return p + opener.len();
            }
            if p == 0 {
                break;
            }
            p -= 1;
        }
    }
    proof {
        assert forall|p: int| !last_opener(prompt@, opener@, p) by {}
    }
    if n == 0 {
        0
    } else {
        1
    }
}

fn push_all(out: &mut Vec<u32>, tokens: &[u32], from: usize, to: usize)
    requires
        from <= to <= tokens@.len(),
    ensures
        final(out)@ == old(out)@ + tokens@.subrange(from as int, to as int),
{
    let ghost before = out@;
    let mut i: usize = from;
    while i < to
        invariant
            from <= i <= to <= tokens@.len(),
            out@ =~= before + tokens@.subrange(from as int, i as int),
        decreases to - i,
    {
        out.push(tokens[i]);
        i += 1;
    }
}

/// Inserts blocks into the last user turn of a prompt, contiguously and in order.
/// Without an opener, or where it does not occur, they go behind the first token.
pub fn splice_image_block(prompt: &[u32], blocks: &[Vec<u32>], opener: &[u32]) -> (r: Vec<u32>)
    ensures
        exists|at: int|
            0 <= at <= prompt@.len() && insert_position(prompt@, opener@, at) && r@
                == #[trigger] spliced(prompt@, block_views(blocks@), at),
{
    let at = find_insert_position(prompt, opener);
    let n: usize = prompt.len();
    let mut out: Vec<u32> = Vec::new();
    push_all(&mut out, prompt, 0, at);
    let ghost head = prompt@.subrange(0, at as int);
    let ghost all = block_views(blocks@);
    proof {
        assert(out@ =~= head + joined(all.subrange(0, 0)));
    }
    let mut i: usize = 0;
    while i < blocks.len()
        invariant
            i <= blocks@.len(),
            all == block_views(blocks@),
            out@ == head + joined(all.subrange(0, i as int)),
        decreases blocks@.len() - i,
    {
        let ghost before = out@;
        push_all(&mut out, blocks[i].as_slice(), 0, blocks[i].len());
        proof {
            let next = all.subrange(0, i + 1);
            let b = blocks@[i as int]@;
            assert(b.subrange(0, b.len() as int) =~= b);
            assert(next.drop_last() =~= all.subrange(0, i as int));
            assert(next.last() == b);
            assert(out@ =~= head + joined(next));
        }
        i += 1;
    }
    proof {
        assert(all.subrange(0, i as int) =~= all);
    }
    push_all(&mut out, prompt, at, n);
    proof {
        assert(out@ =~= spliced(prompt@, all, at as int));
    }
    out
}

// ── Image prompts ────────────────────────────────────────────────────────────

/// The token ids of an architecture's image blocks.
#[derive(Clone, Copy, Debug, PartialEq, Eq, Structural)]
pub struct ImageTokens {
    pub begin: u32,
    pub placeholder: u32,
    pub end: u32,
}

/// The vision architectures.
#[derive(Clone, Copy, Debug, PartialEq, Eq, Structural)]
pub enum VisionKind {
    Gemma4,
    Gemma4Unified,
    Gemma3,
    Qwen3VlMoe,
}

/// The blocks of images with the given numbers of soft tokens.
pub open spec fn image_blocks(tokens: ImageTokens, soft: Seq<usize>) -> Seq<Seq<u32>> {
    Seq::new(
        soft.len(),
        |i: int| block_of(tokens.begin, tokens.placeholder, soft[i] as nat, tokens.end),
    )
}

/// The architecture that a vision model needs, by name.
pub open spec fn required_architecture(kind: VisionKind) -> Seq<char> {
    match kind {
        VisionKind::Gemma4 => "Gemma4"@,
        VisionKind::Gemma4Unified => "Gemma4"@,
        VisionKind::Gemma3 => "Gemma3"@,
        VisionKind::Qwen3VlMoe => "Qwen3-VL-MoE"@,
    }
}

/// The failure of image input on a model of another architecture.
pub open spec fn wrong_architecture(kind: VisionKind) -> EngineErrorV {
    EngineErrorV::Other(
        "image input requires the "@ + required_architecture(kind) + " architecture"@,
    )
}

fn wrong_architecture_error(kind: VisionKind) -> (r: EngineError)
    ensures
        r@ == wrong_architecture(kind),
{
    let name: &str = match kind {
        VisionKind::Gemma4 => "Gemma4",
        VisionKind::Gemma4Unified => "Gemma4",
        VisionKind::Gemma3 => "Gemma3",
        VisionKind::Qwen3VlMoe => "Qwen3-VL-MoE",
    };
    EngineError::Other(join3("image input requires the ", name, " architecture"))
}

/// Whether images can be put into prompts of this model here. A Qwen3-VL image
/// goes another way, and a vision model needs its architecture.
pub fn check_image_model(kind: VisionKind, arch_matches: bool) -> (r: Result<(), EngineError>)
    ensures
        match r {
            Ok(_) => kind != VisionKind::Qwen3VlMoe && arch_matches,
            Err(e) => if kind == VisionKind::Qwen3VlMoe {
                e@ == EngineErrorV::Other(
                    "internal: Qwen3-VL image path must route through run_qwen3vl_image"@,
                )
            } else {
                !arch_matches && e@ == wrong_architecture(kind)
            },
        },
{
    match kind {
        VisionKind::Qwen3VlMoe => Err(
            EngineError::Other(
                "internal: Qwen3-VL image path must route through run_qwen3vl_image".to_owned(),
            ),
        ),
        _ => if arch_matches {
            Ok(())
        } else {
            Err(wrong_architecture_error(kind))
        },
    }
}

/// The tokens that open a user's turn, behind which images go. For an architecture
/// without any, images go behind the first token of the prompt.
pub fn user_turn_opener(kind: VisionKind) -> (r: Vec<u32>)
    ensures
        r@ == match kind {
            VisionKind::Gemma4 => GEMMA4_USER_TURN_OPENER@,
            VisionKind::Gemma4Unified => GEMMA4_USER_TURN_OPENER@,
            VisionKind::Gemma3 => Seq::<u32>::empty(),
            VisionKind::Qwen3VlMoe => QWEN3VL_USER_TURN_OPENER@,
        },
{
    let mut out: Vec<u32> = Vec::new();
    let opener: [u32; 3] = match kind {
        VisionKind::Gemma3 => {
            return out;
        },
        VisionKind::Qwen3VlMoe => QWEN3VL_USER_TURN_OPENER,
        _ => GEMMA4_USER_TURN_OPENER,
    };
    out.push(opener[0]);
    out.push(opener[1]);
    out.push(opener[2]);
    assert(out@ =~= opener@);
    out
}

/// The prompt with one block per image. `soft` holds the number of soft tokens of
/// each image, in order.
pub fn build_image_prompt(
    tokens: ImageTokens,
    soft: &Vec<usize>,
    prompt: &[u32],
    opener: &[u32],
) -> (r: Vec<u32>)
    ensures
        exists|at: int|
            0 <= at <= prompt@.len() && insert_position(prompt@, opener@, at) && r@
                == #[trigger] spliced(prompt@, image_blocks(tokens, soft@), at),
{
    let mut blocks: Vec<Vec<u32>> = Vec::new();
    let mut i: usize = 0;
    while i < soft.len()
        invariant
            i <= soft@.len(),
            blocks@.len() == i,
            forall|k: int| 0 <= k < i ==> (#[trigger] blocks@[k])@ == image_blocks(tokens, soft@)[k],
        decreases soft@.len() - i,
    {
        blocks.push(media_block(tokens.begin, tokens.placeholder, soft[i], tokens.end));
        i += 1;
    }
    proof {
        assert(block_views(blocks@) =~= image_blocks(tokens, soft@));
    }
    splice_image_block(prompt, blocks.as_slice(), opener)
}

/// Whether a Qwen3-VL image request can be served: by a Qwen3-VL model, with
/// exactly one image.
pub fn check_qwen3vl_image(kind: VisionKind, arch_matches: bool, images: usize) -> (r: Result<
    (),
    EngineError,
>)
    ensures
        match r {
            Ok(_) => kind == VisionKind::Qwen3VlMoe && arch_matches && images == 1,
            Err(e) => if kind != VisionKind::Qwen3VlMoe {
                e@ == EngineErrorV::Other(
                    "run_qwen3vl_image called with non-Qwen3VL vision bundle"@,
                )
            } else if !arch_matches {
                e@ == wrong_architecture(kind)
            } else {
                images != 1 && e@ == EngineErrorV::Other(
                    "Qwen3-VL image path currently serves exactly one image per request (got "@
                        + decimal(images as nat) + ")"@,
                )
            },
        },
{
    match kind {
        VisionKind::Qwen3VlMoe => if !arch_matches {
            Err(wrong_architecture_error(kind))
        } else if images != 1 {
            Err(
                EngineError::Other(
                    join3(
                        "Qwen3-VL image path currently serves exactly one image per request (got ",
                        u64_text(images as u64).as_str(),
                        ")",
                    ),
                ),
            )
        } else {
            Ok(())
        },
        _ => Err(
            EngineError::Other(
                "run_qwen3vl_image called with non-Qwen3VL vision bundle".to_owned(),
            ),
        ),
    }
}

/// The codec of a Qwen3-VL image request: the operator's, else no compression.
pub fn qwen3vl_kv_quant(kv_quant_override: Option<KvQuant>) -> (r: KvQuant)
    ensures
        r == match kv_quant_override {
            Some(q) => q,
            None => KvQuant::Bf16,
        },
{
    match kv_quant_override {
        Some(q) => q,
        None => KvQuant::Bf16,
    }
}

/// The prompt of a Qwen3-VL image request with `soft` soft tokens.
pub fn qwen3vl_image_prompt(soft: usize, prompt: &[u32]) -> (r: Vec<u32>)
    ensures
        exists|at: int|
            0 <= at <= prompt@.len() && insert_position(
                prompt@,
                seq![151_644u32, 872, 198],
                at,
            ) && r@ == #[trigger] spliced(
                prompt@,
                seq![
                    block_of(
                        QWEN3VL_VISION_START_ID,
                        QWEN3VL_IMAGE_PAD_ID,
                        soft as nat,
                        QWEN3VL_VISION_END_ID,
                    ),
                ],
                at,
            ),
{
    let opener: [u32; 3] = QWEN3VL_USER_TURN_OPENER;
    let mut blocks: Vec<Vec<u32>> = Vec::new();
    blocks.push(
        media_block(QWEN3VL_VISION_START_ID, QWEN3VL_IMAGE_PAD_ID, soft, QWEN3VL_VISION_END_ID),
    );
    proof {
        assert(block_views(blocks@) =~= seq![blocks@[0]@]);
        assert(opener@ =~= seq![151_644u32, 872, 198]);
    }
    splice_image_block(prompt, blocks.as_slice(), &opener)
}

/// A side of an image's grid as the cache's key holds it: a side that is too large
/// counts as the largest.
pub fn key_side(n: usize) -> (r: u16)
    ensures
        r == if n <= u16::MAX {
            n as int
        } else {
            u16::MAX as int
        },
{
    if n <= u16::MAX as usize {
        n as u16
    } else {
        u16::MAX
    }
}

/// Where the vision output of an image comes from.
#[derive(Debug)]
pub enum VisionSource<T> {
    /// From the cache: the image's own array and those for the deeper layers.
    Cached { image: T, deepstack: Vec<T> },
    /// From the vision tower; the output is stored where `store` holds.
    Computed { store: bool },
}

/// Decides where a vision output comes from. `lookup` is what the cache said, where
/// there is a cache. An entry without arrays is not used, and not replaced either.
pub fn vision_source<T>(lookup: Option<Option<Vec<T>>>) -> (r: VisionSource<T>)
    ensures
        match lookup {
            None => r matches VisionSource::Computed { store } && !store,
            Some(None) => r matches VisionSource::Computed { store } && store,
            Some(Some(arrays)) => if arrays@.len() == 0 {
                r matches VisionSource::Computed { store } && !store
            } else {
                r matches VisionSource::Cached { image, deepstack } && seq![image] + deepstack@
                    == arrays@
            },
        },
{
    match lookup {
        None => VisionSource::Computed { store: false },
        Some(None) => VisionSource::Computed { store: true },
        Some(Some(mut arrays)) => {
            if arrays.len() == 0 {
                VisionSource::Computed { store: false }
            } else {
                let ghost all = arrays@;
                let image = arrays.remove(0);
                assert(seq![image] + arrays@ =~= all);
                VisionSource::Cached { image, deepstack: arrays }
            }
        },
    }
}

/// The sum of sizes.
pub open spec fn total(sizes: Seq<usize>) -> nat
    decreases sizes.len(),
{
    if sizes.len() == 0 {
        0
    } else {
        total(sizes.drop_last()) + sizes.last() as nat
    }
}

/// The sizes of copies; a failed copy has none.
pub open spec fn copied_sizes(copies: Seq<Option<usize>>) -> Seq<usize> {
    Seq::new(
        copies.len(),
        |i: int|
            match copies[i] {
                Some(n) => n,
                None => 0,
            },
    )
}

/// How many bytes a cached set of arrays takes. A set is cached only when every
/// array could be copied (`copies` holds the size of each copy).
pub fn snapshot_bytes(copies: &Vec<Option<usize>>) -> (r: Option<usize>)
    requires
        total(copied_sizes(copies@)) <= usize::MAX,
    ensures
        match r {
            Some(n) => (forall|i: int| 0 <= i < copies@.len() ==> (#[trigger] copies@[i]) is Some)
                && n == total(copied_sizes(copies@)),
            None => exists|i: int| 0 <= i < copies@.len() && (#[trigger] copies@[i]) is None,
        },
{
    let mut sum: usize = 0;
    let mut i: usize = 0;
    let ghost sizes = copied_sizes(copies@);
    proof {
        assert(total(sizes.subrange(0, 0)) == 0);
    }
    while i < copies.len()
        invariant
            i <= copies@.len(),
            sizes == copied_sizes(copies@),
            total(sizes) <= usize::MAX,
            sum == total(sizes.subrange(0, i as int)),
            forall|k: int| 0 <= k < i ==> (#[trigger] copies@[k]) is Some,
        decreases copies@.len() - i,
    {
        match copies[i] {
            None => {
                proof {
                    assert(copies@[i as int] is None);
                }
                return None;
            },
            Some(size) => {
                proof {
                    let next = sizes.subrange(0, i + 1);
                    assert(next.drop_last() =~= sizes.subrange(0, i as int));
                    assert(next.last() == size);
                    lemma_total_grows(sizes, i + 1);
                }
                sum = sum + size;
            },
        }
        i += 1;
    }
    proof {
        assert(sizes.subrange(0, i as int) =~= sizes);
    }
    Some(sum)
}

proof fn lemma_total_grows(sizes: Seq<usize>, n: int)
    requires
        0 <= n <= sizes.len(),
    ensures
        total(sizes.subrange(0, n)) <= total(sizes),
    decreases sizes.len() - n,
{
    if n == sizes.len() {
        assert(sizes.subrange(0, n) =~= sizes);
    } else {
        let next = sizes.subrange(0, n + 1);
        assert(next.drop_last() =~= sizes.subrange(0, n));
        lemma_total_grows(sizes, n + 1);
    }
}

/// The failure when an image could not be loaded.
pub fn image_load_error(message: &str) -> (r: EngineError)
    ensures
        r@ == EngineErrorV::Other("image load failed: "@ + message@),
{
    EngineError::Other(join2("image load failed: ", message))
}

/// The steps in which media can fail.
#[derive(Clone, Copy, Debug, PartialEq, Eq, Structural)]
pub enum MediaStep {
    /// Preprocessing of the image at this position.
    Preprocess(usize),
    Qwen3VlPreprocess,
    Qwen3VlVision,
    AudioDecode,
    MelExtraction,
    FeatureExtractor,
}

/// How a failed step is named.
pub open spec fn step_name(step: MediaStep) -> Seq<char> {
    match step {
        MediaStep::Preprocess(i) => "image "@ + decimal(i as nat) + " preprocess failed: "@,
        MediaStep::Qwen3VlPreprocess => "Qwen3-VL image preprocess failed: "@,
        MediaStep::Qwen3VlVision => "Qwen3-VL vision tower failed: "@,
        MediaStep::AudioDecode => "input_audio decode failed: "@,
        MediaStep::MelExtraction => "input_audio mel extraction failed: "@,
        MediaStep::FeatureExtractor => "gemma4 audio feature extractor: "@,
    }
}

/// The failure of a step.
pub fn media_error(step: MediaStep, message: &str) -> (r: EngineError)
    ensures
        r@ == EngineErrorV::Other(step_name(step) + message@),
{
    let name = match step {
        MediaStep::Preprocess(i) => join3(
            "image ",
            u64_text(i as u64).as_str(),
            " preprocess failed: ",
        ),
        MediaStep::Qwen3VlPreprocess => "Qwen3-VL image preprocess failed: ".to_owned(),
        MediaStep::Qwen3VlVision => "Qwen3-VL vision tower failed: ".to_owned(),
        MediaStep::AudioDecode => "input_audio decode failed: ".to_owned(),
        MediaStep::MelExtraction => "input_audio mel extraction failed: ".to_owned(),
        MediaStep::FeatureExtractor => "gemma4 audio feature extractor: ".to_owned(),
    };
    EngineError::Other(join2(name.as_str(), message))
}

// ── Combined input ───────────────────────────────────────────────────────────

/// Refuses a request that carries both an image and an audio clip.
pub fn reject_combined_image_audio(has_image: bool, has_audio: bool) -> (r: Option<EngineError>)
    ensures
        match r {
            Some(e) => has_image && has_audio && e@ == EngineErrorV::Other(
                "combined image + audio input in one request is not supported; send the image and the audio in separate turns"@,
            ),
            None => !(has_image && has_audio),
        },
{
    if has_image && has_audio {
        Some(
            EngineError::Other(
                "combined image + audio input in one request is not supported; send the image and the audio in separate turns".to_owned(),
            ),
        )
    } else {
        None
    }
}

// ── Laws ─────────────────────────────────────────────────────────────────────

/// Inserting blocks keeps the prompt: its tokens stand around the blocks, in
/// order, and nothing else is added.
pub proof fn law_splice_keeps_prompt(prompt: Seq<u32>, blocks: Seq<Seq<u32>>, at: int)
    requires
        0 <= at <= prompt.len(),
    ensures
        ({
            let r = spliced(prompt, blocks, at);
            let n = joined(blocks).len() as int;
            &&& r.len() == prompt.len() + n
            &&& r.subrange(0, at) + r.subrange(at + n, r.len() as int) == prompt
            &&& r.subrange(at, at + n) == joined(blocks)
        }),
{
    let r = spliced(prompt, blocks, at);
    let n = joined(blocks).len() as int;
    assert(r.subrange(0, at) + r.subrange(at + n, r.len() as int) =~= prompt);
    assert(r.subrange(at, at + n) =~= joined(blocks));
}

/// Where the opener occurs, the blocks stand right behind its last occurrence.
pub proof fn law_blocks_stand_in_last_turn(prompt: Seq<u32>, opener: Seq<u32>, p: int, at: int)
    requires
        last_opener(prompt, opener, p),
        insert_position(prompt, opener, at),
    ensures
        at == p + opener.len(),
{
    let q = choose|q: int| #[trigger] last_opener(prompt, opener, q) && at == q + opener.len();
    if q < p {
        assert(!occurs_at(prompt, opener, p));
    } else if p < q {
        assert(!occurs_at(prompt, opener, q));
    }
}

} // verus!
