//! Codecs of the key-value cache.

use vstd::prelude::*;

use crate::text::{chars_of, text_trim, trim};

verus! {

/// A codec of the key-value cache. Parameters that only the codec reads are
/// carried in its own encoding.
#[derive(Clone, Copy, Debug, PartialEq, Eq, Structural)]
pub enum KvQuant {
    /// No compression.
    Bf16,
    K8V8,
    K8V4,
    Planar,
    Planar3,
    Mixed { k_bits: u32, v_bits: u32, k_group_size: u32, v_group_size: u32 },
    RotK { params: u64 },
    RotKTq4V,
    K8VTurbo3,
    TurboSym4,
    PlanarK,
    K8VTurbo2,
    Iso3,
    Iso4,
    Rotor3,
    Rotor4,
    K8VTurbo3Tcq,
    K8VTurbo2Tcq,
    Iso3Sym,
    Iso4Sym,
    IsoKOnly3,
    IsoKOnly4,
    Rotor3Sym,
    Rotor4Sym,
    RotorKOnly3,
    RotorKOnly4,
    RotorK3Asym { params: u64 },
    RotorK4Asym { params: u64 },
    TurboSym3,
}

/// The label under which metrics of a codec are recorded. `display` is the
/// codec's own spelling, which names its parameters.
pub open spec fn label(kv: Option<KvQuant>, display: Seq<char>) -> Seq<char> {
    match kv {
        None => "auto"@,
        Some(KvQuant::Bf16) => "none"@,
        Some(KvQuant::K8V8) => "k8v8"@,
        Some(KvQuant::K8V4) => "k8v4"@,
        Some(KvQuant::Planar) => "planar"@,
        Some(KvQuant::Planar3) => "planar3"@,
        Some(KvQuant::Mixed { .. }) => "mixed"@,
        Some(KvQuant::RotK { .. }) => "rot_k"@,
        Some(KvQuant::RotKTq4V) => "rot_k_tq4v"@,
        Some(KvQuant::K8VTurbo3) => "k8vturbo3"@,
        Some(KvQuant::TurboSym4) => "tsym4"@,
        Some(KvQuant::PlanarK) => "planar_k"@,
        Some(KvQuant::K8VTurbo2) => "k8vturbo2"@,
        Some(KvQuant::Iso3) => "iso3"@,
        Some(KvQuant::Iso4) => "iso4"@,
        Some(KvQuant::Rotor3) => "rotor3"@,
        Some(KvQuant::Rotor4) => "rotor4"@,
        Some(KvQuant::K8VTurbo3Tcq) => "k8vturbo3tcq"@,
        Some(KvQuant::K8VTurbo2Tcq) => "k8vturbo2tcq"@,
        Some(KvQuant::Iso3Sym) => "iso3_sym"@,
        Some(KvQuant::Iso4Sym) => "iso4_sym"@,
        Some(KvQuant::IsoKOnly3) => "k_iso3"@,
        Some(KvQuant::IsoKOnly4) => "k_iso4"@,
        Some(KvQuant::Rotor3Sym) => "rotor3_sym"@,
        Some(KvQuant::Rotor4Sym) => "rotor4_sym"@,
        Some(KvQuant::RotorKOnly3) => "k_rotor3"@,
        Some(KvQuant::RotorKOnly4) => "k_rotor4"@,
        Some(KvQuant::RotorK3Asym { .. }) => display,
        Some(KvQuant::RotorK4Asym { .. }) => display,
        Some(KvQuant::TurboSym3) => "tsym3"@,
    }
}

/// The label under which metrics of a codec are recorded. `display` is the
/// codec's own spelling, which names its parameters.
pub fn kv_quant_label(kv: Option<KvQuant>, display: &str) -> (r: String)
    ensures
        r@ == label(kv, display@),
{
    let text: &str = match kv {
        None => "auto",
        Some(KvQuant::Bf16) => "none",
        Some(KvQuant::K8V8) => "k8v8",
        Some(KvQuant::K8V4) => "k8v4",
        Some(KvQuant::Planar) => "planar",
        Some(KvQuant::Planar3) => "planar3",
        Some(KvQuant::Mixed { .. }) => "mixed",
        Some(KvQuant::RotK { .. }) => "rot_k",
        Some(KvQuant::RotKTq4V) => "rot_k_tq4v",
        Some(KvQuant::K8VTurbo3) => "k8vturbo3",
        Some(KvQuant::TurboSym4) => "tsym4",
        Some(KvQuant::PlanarK) => "planar_k",
        Some(KvQuant::K8VTurbo2) => "k8vturbo2",
        Some(KvQuant::Iso3) => "iso3",
        Some(KvQuant::Iso4) => "iso4",
        Some(KvQuant::Rotor3) => "rotor3",
        Some(KvQuant::Rotor4) => "rotor4",
        Some(KvQuant::K8VTurbo3Tcq) => "k8vturbo3tcq",
        Some(KvQuant::K8VTurbo2Tcq) => "k8vturbo2tcq",
        Some(KvQuant::Iso3Sym) => "iso3_sym",
        Some(KvQuant::Iso4Sym) => "iso4_sym",
        Some(KvQuant::IsoKOnly3) => "k_iso3",
        Some(KvQuant::IsoKOnly4) => "k_iso4",
        Some(KvQuant::Rotor3Sym) => "rotor3_sym",
        Some(KvQuant::Rotor4Sym) => "rotor4_sym",
        Some(KvQuant::RotorKOnly3) => "k_rotor3",
        Some(KvQuant::RotorKOnly4) => "k_rotor4",
        Some(KvQuant::RotorK3Asym { .. }) => display,
        Some(KvQuant::RotorK4Asym { .. }) => display,
        Some(KvQuant::TurboSym3) => "tsym3",
    };
    text.to_owned()
}

/// The codec that a request runs on: its own, else the launch codec. With
/// neither, the architecture's default applies.
pub fn kv_quant_for_request(req_override: Option<KvQuant>, launch: Option<KvQuant>) -> (r: Option<
    KvQuant,
>)
    ensures
        r == if req_override is Some {
            req_override
        } else {
            launch
        },
{
    match req_override {
        Some(q) => Some(q),
        None => launch,
    }
}

/// The codec that a model is loaded with, and whether the user named it. Without
/// a named codec it is the architecture's default.
pub fn resolve_kv_quant_for_load(kv_quant: Option<KvQuant>, arch_default: KvQuant) -> (r: (
    Option<KvQuant>,
    bool,
))
    ensures
        r.1 == (kv_quant is Some),
        r.0 == Some(
            match kv_quant {
                Some(q) => q,
                None => arch_default,
            },
        ),
{
    match kv_quant {
        Some(q) => (Some(q), true),
        None => (Some(arch_default), false),
    }
}

/// Whatever the launch codec and the default, a request without its own codec
/// runs on what the model was loaded with.
pub proof fn law_request_runs_the_loaded_codec(
    launch: Option<KvQuant>,
    arch_default: KvQuant,
    loaded: (Option<KvQuant>, bool),
    run: Option<KvQuant>,
)
    requires
        call_ensures(resolve_kv_quant_for_load, (launch, arch_default), loaded),
        call_ensures(kv_quant_for_request, (None::<KvQuant>, loaded.0), run),
    ensures
        run == Some(
            match launch {
                Some(q) => q,
                None => arch_default,
            },
        ),
{
}

// ── The request field ────────────────────────────────────────────────────────

/// The lower case of an ASCII letter.
pub open spec fn ascii_lower(c: char) -> char {
    if 'A' <= c <= 'Z' {
        ((c as u8 + 32) as u8) as char
    } else {
        c
    }
}

/// `s` equals `word` but for the case of ASCII letters.
pub open spec fn same_ignoring_case(s: Seq<char>, word: Seq<char>) -> bool {
    &&& s.len() == word.len()
    &&& forall|i: int| 0 <= i < s.len() ==> ascii_lower(#[trigger] s[i]) == ascii_lower(word[i])
}

fn lower(c: char) -> (r: char)
    ensures
        r == ascii_lower(c),
{
    if 'A' <= c && c <= 'Z' {
        (c as u8 + 32) as char
    } else {
        c
    }
}

fn eq_ignore_case(s: &str, word: &str) -> (r: bool)
    ensures
        r == same_ignoring_case(s@, word@),
{
    let a = chars_of(s);
    let b = chars_of(word);
    if a.len() != b.len() {
        return false;
    }
    let mut i: usize = 0;
    while i < a.len()
        invariant
            i <= a@.len(),
            a@.len() == b@.len(),
            a@ == s@,
            b@ == word@,
            forall|k: int| 0 <= k < i ==> ascii_lower(#[trigger] a@[k]) == ascii_lower(b@[k]),
        decreases a@.len() - i,
    {
        if lower(a[i]) != lower(b[i]) {
            return false;
        }
        i += 1;
    }
    true
}

/// The spelling that a request's `kv_quant` field hands to the codec parser.
pub fn kv_quant_spelling(s: &str) -> (r: String)
    ensures
        r@ == trim(s@),
{
    text_trim(s)
}

/// The codec that a request's `kv_quant` field names: none for `auto`, the
/// canonical mixed codec for `mixed`, else what the codec parser says of the
/// trimmed spelling (`parsed`).
pub fn parse_request_kv_quant(s: &str, parsed: Result<KvQuant, String>) -> (r: Result<
    Option<KvQuant>,
    String,
>)
    ensures
        if same_ignoring_case(trim(s@), "auto"@) {
            r matches Ok(None)
        } else if same_ignoring_case(trim(s@), "mixed"@) {
            r matches Ok(Some(q)) && q == (KvQuant::Mixed {
                k_bits: 8,
                v_bits: 4,
                k_group_size: 64,
                v_group_size: 64,
            })
        } else {
            match parsed {
                Ok(q) => r matches Ok(Some(p)) && p == q,
                Err(e) => r matches Err(m) && m@ == e@,
            }
        },
{
    let t = text_trim(s);
    if eq_ignore_case(t.as_str(), "auto") {
        return Ok(None);
    }
    if eq_ignore_case(t.as_str(), "mixed") {
        return Ok(
            Some(
                KvQuant::Mixed { k_bits: 8, v_bits: 4, k_group_size: 64, v_group_size: 64 },
            ),
        );
    }
    match parsed {
        Ok(q) => Ok(Some(q)),
        Err(e) => Err(e),
    }
}

// ── Laws ─────────────────────────────────────────────────────────────────────

/// Every codec is recorded under its own label; those with free parameters under their
/// own spelling, and no codec as `auto`.
pub proof fn law_codecs_have_their_labels(kv: Option<KvQuant>, display: &str, r: String)
    requires
        call_ensures(kv_quant_label, (kv, display), r),
    ensures
        r@ == match kv {
            None => "auto"@,
            Some(KvQuant::Bf16) => "none"@,
            Some(KvQuant::K8V8) => "k8v8"@,
            Some(KvQuant::K8V4) => "k8v4"@,
            Some(KvQuant::Planar) => "planar"@,
            Some(KvQuant::Planar3) => "planar3"@,
            Some(KvQuant::Mixed { .. }) => "mixed"@,
            Some(KvQuant::RotK { .. }) => "rot_k"@,
            Some(KvQuant::RotKTq4V) => "rot_k_tq4v"@,
            Some(KvQuant::K8VTurbo3) => "k8vturbo3"@,
            Some(KvQuant::TurboSym4) => "tsym4"@,
            Some(KvQuant::PlanarK) => "planar_k"@,
            Some(KvQuant::K8VTurbo2) => "k8vturbo2"@,
            Some(KvQuant::Iso3) => "iso3"@,
            Some(KvQuant::Iso4) => "iso4"@,
            Some(KvQuant::Rotor3) => "rotor3"@,
            Some(KvQuant::Rotor4) => "rotor4"@,
            Some(KvQuant::K8VTurbo3Tcq) => "k8vturbo3tcq"@,
            Some(KvQuant::K8VTurbo2Tcq) => "k8vturbo2tcq"@,
            Some(KvQuant::Iso3Sym) => "iso3_sym"@,
            Some(KvQuant::Iso4Sym) => "iso4_sym"@,
            Some(KvQuant::IsoKOnly3) => "k_iso3"@,
            Some(KvQuant::IsoKOnly4) => "k_iso4"@,
            Some(KvQuant::Rotor3Sym) => "rotor3_sym"@,
            Some(KvQuant::Rotor4Sym) => "rotor4_sym"@,
            Some(KvQuant::RotorKOnly3) => "k_rotor3"@,
            Some(KvQuant::RotorKOnly4) => "k_rotor4"@,
            Some(KvQuant::TurboSym3) => "tsym3"@,
            Some(KvQuant::RotorK3Asym { .. }) => display@,
            Some(KvQuant::RotorK4Asym { .. }) => display@,
        },
{
}

/// A request that names `auto` leaves the codec to the launch; `mixed` is eight bits for
/// keys and four for values, in groups of 64; any other name is what the codec parser
/// makes of it.
pub proof fn law_request_codec_is_read(
    s: &str,
    parsed: Result<KvQuant, String>,
    r: Result<Option<KvQuant>, String>,
)
    requires
        call_ensures(parse_request_kv_quant, (s, parsed), r),
    ensures
        trim(s@) == "auto"@ || trim(s@) == "AUTO"@ ==> r == Ok::<Option<KvQuant>, String>(None),
        trim(s@) == "mixed"@ || trim(s@) == "MIXED"@ ==> r == Ok::<Option<KvQuant>, String>(
            Some(KvQuant::Mixed { k_bits: 8, v_bits: 4, k_group_size: 64, v_group_size: 64 }),
        ),
        trim(s@).len() != 4 && trim(s@).len() != 5 ==> match parsed {
            Ok(q) => r == Ok::<Option<KvQuant>, String>(Some(q)),
            Err(e) => r matches Err(m) && m@ == e@,
        },
{
    reveal_strlit("auto");
    reveal_strlit("AUTO");
    reveal_strlit("mixed");
    reveal_strlit("MIXED");
    assert("auto"@.len() == 4);
    assert("AUTO"@.len() == 4);
    assert("mixed"@.len() == 5);
    assert("MIXED"@.len() == 5);
    assert(same_ignoring_case("auto"@, "auto"@));
    assert(same_ignoring_case("AUTO"@, "auto"@));
    assert(same_ignoring_case("mixed"@, "mixed"@));
    assert(same_ignoring_case("MIXED"@, "mixed"@));
}

/// A model is loaded with the codec that was named, else with its architecture's, and
/// it is known which.
pub proof fn law_load_codec_is_the_named_one(
    named: Option<KvQuant>,
    arch_default: KvQuant,
    r: (Option<KvQuant>, bool),
)
    requires
        call_ensures(resolve_kv_quant_for_load, (named, arch_default), r),
    ensures
        named is Some ==> r.0 == named && r.1,
        named is None ==> r.0 == Some(arch_default) && !r.1,
{
}

} // verus!
