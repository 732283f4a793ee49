//! Audio clips in a prompt.

use vstd::prelude::*;
use vstd::utf8::encode_utf8;

use crate::engine::error::{EngineError, EngineErrorV};
use crate::engine::image::{block_of, block_views, media_block, spliced, splice_image_block};
use crate::image_io::{base64_decode, base64_result};
use crate::text::{chars_of, decimal, join2, join3, string_of, u64_text};

verus! {

pub const GEMMA4_BOA_TOKEN_ID: u32 = 256_000;

pub const GEMMA4_EOA_TOKEN_ID: u32 = 258_883;

/// The text behind the last comma; the whole text without one.
pub open spec fn behind_comma(s: Seq<char>) -> Seq<char>
    decreases s.len(),
{
    if s.len() == 0 || s[s.len() - 1] == ',' {
        Seq::empty()
    } else {
        behind_comma(s.drop_last()).push(s[s.len() - 1])
    }
}

fn take_behind_comma(s: &str) -> (r: String)
    ensures
        r@ == behind_comma(s@),
{
    let cs = chars_of(s);
    let n: usize = cs.len();
    let mut from: usize = n;
    proof {
        assert(cs@.subrange(0, n as int) =~= cs@);
        assert(cs@.subrange(n as int, n as int) =~= Seq::empty());
        assert(behind_comma(cs@) + Seq::empty() =~= behind_comma(cs@));
    }
    while from > 0 && cs[from - 1] != ','
        invariant
            from <= n,
            n == cs@.len(),
            behind_comma(cs@.subrange(0, from as int)) + cs@.subrange(from as int, n as int)
                == behind_comma(cs@),
        decreases from,
    {
        proof {
            let t = cs@.subrange(0, from as int);
            assert(t.drop_last() =~= cs@.subrange(0, from - 1));
            assert(behind_comma(t.drop_last()).push(t[t.len() - 1]) + cs@.subrange(
                from as int,
                n as int,
            ) =~= behind_comma(t.drop_last()) + cs@.subrange(from - 1, n as int));
        }
        from -= 1;
    }
    proof {
        assert(Seq::<char>::empty() + cs@.subrange(from as int, n as int) =~= cs@.subrange(
            from as int,
            n as int,
        ));
    }
    string_of(&cs, from, n)
}

/// The bytes of the one audio clip of a request. A `data:` prefix in front of the
/// base64 text is tolerated.
pub fn audio_bytes(audio_b64: &Vec<String>, arch_matches: bool) -> (r: Result<Vec<u8>, EngineError>)
    ensures
        if audio_b64@.len() != 1 {
            r matches Err(e) && e@ == EngineErrorV::Other(
                "audio input currently serves exactly one audio clip per request (got "@ + decimal(
                    audio_b64@.len(),
                ) + ")"@,
            )
        } else if !arch_matches {
            r matches Err(e) && e@ == EngineErrorV::Other(
                "audio input requires the Gemma4 architecture"@,
            )
        } else {
            match r {
                Ok(b) => base64_result(encode_utf8(behind_comma(audio_b64@[0]@)), Ok(b@)),
                Err(e) => exists|m: Seq<char>| #[trigger]
                    base64_result(encode_utf8(behind_comma(audio_b64@[0]@)), Err(m)) && e@
                        == EngineErrorV::Other("input_audio base64 decode failed: "@ + m),
            }
        },
{
    if audio_b64.len() != 1 {
        return Err(
            EngineError::Other(
                join3(
                    "audio input currently serves exactly one audio clip per request (got ",
                    u64_text(audio_b64.len() as u64).as_str(),
                    ")",
                ),
            ),
        );
    }
    if !arch_matches {
        return Err(EngineError::Other("audio input requires the Gemma4 architecture".to_owned()));
    }
    let payload = take_behind_comma(audio_b64[0].as_str());
    let decoded = base64_decode(payload.as_str());
    match decoded {
        Ok(b) => Ok(b),
        Err(m) => {
            proof {
                assert(base64_result(encode_utf8(payload@), Err(m@)));
            }
            Err(EngineError::Other(join2("input_audio base64 decode failed: ", m.as_str())))
        },
    }
}

/// The failure of a clip without feature frames.
pub fn check_mel_frames(frames: usize) -> (r: Result<(), EngineError>)
    ensures
        match r {
            Ok(_) => frames > 0,
            Err(e) => frames == 0 && e@ == EngineErrorV::Other(
                "input_audio produced zero mel frames (clip too short)"@,
            ),
        },
{
    if frames == 0 {
        Err(
            EngineError::Other("input_audio produced zero mel frames (clip too short)".to_owned()),
        )
    } else {
        Ok(())
    }
}

/// The prompt with the block of a clip of `soft` soft tokens behind its first
/// token. A clip without soft tokens is refused.
pub fn build_audio_prompt(audio_token_id: u32, soft: usize, prompt: &[u32]) -> (r: Result<
    Vec<u32>,
    EngineError,
>)
    ensures
        match r {
            Err(e) => soft == 0 && e@ == EngineErrorV::Other(
                "input_audio produced zero audio soft tokens (clip too short)"@,
            ),
            Ok(ids) => soft > 0 && ids@ == spliced(
                prompt@,
                seq![
                    block_of(
                        GEMMA4_BOA_TOKEN_ID,
                        audio_token_id,
                        soft as nat,
                        GEMMA4_EOA_TOKEN_ID,
                    ),
                ],
                if prompt@.len() == 0 {
                    0
                } else {
                    1
                },
            ),
        },
{
    if soft == 0 {
        return Err(
            EngineError::Other(
                "input_audio produced zero audio soft tokens (clip too short)".to_owned(),
            ),
        );
    }
    let mut blocks: Vec<Vec<u32>> = Vec::new();
    blocks.push(media_block(GEMMA4_BOA_TOKEN_ID, audio_token_id, soft, GEMMA4_EOA_TOKEN_ID));
    let opener: Vec<u32> = Vec::new();
    proof {
        assert(block_views(blocks@) =~= seq![blocks@[0]@]);
    }
    Ok(splice_image_block(prompt, blocks.as_slice(), opener.as_slice()))
}

} // verus!
