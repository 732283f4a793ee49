use rmlx_server::engine::kv_quant::{
    kv_quant_for_request, kv_quant_label, kv_quant_spelling, parse_request_kv_quant,
    resolve_kv_quant_for_load, KvQuant,
};

const DEFAULT_KV_QUANT: KvQuant = KvQuant::Bf16;

#[test]
fn auto_resolves_to_the_engine_default_for_every_arch() {
    for default in [DEFAULT_KV_QUANT, KvQuant::K8V8, KvQuant::Planar] {
        let (resolved, explicit) = resolve_kv_quant_for_load(None, default);
        assert_eq!(resolved, Some(default));
        assert!(!explicit, "auto mode must not report a user-explicit codec");
    }
}

#[test]
fn an_explicit_launch_codec_survives_every_arch() {
    for default in [DEFAULT_KV_QUANT, KvQuant::K8V8, KvQuant::Planar] {
        let (resolved, explicit) = resolve_kv_quant_for_load(Some(KvQuant::Planar), default);
        assert_eq!(resolved, Some(KvQuant::Planar));
        assert!(explicit, "an explicit codec must report user_explicit");
    }
}

#[test]
fn a_request_without_its_own_codec_runs_the_launch_codec() {
    assert_eq!(
        kv_quant_for_request(None, Some(DEFAULT_KV_QUANT)),
        Some(DEFAULT_KV_QUANT)
    );
    for launch in [
        KvQuant::K8V4,
        KvQuant::K8V8,
        KvQuant::Planar,
        KvQuant::Mixed {
            k_bits: 8,
            v_bits: 4,
            k_group_size: 64,
            v_group_size: 64,
        },
    ] {
        assert_eq!(
            kv_quant_for_request(None, Some(launch)),
            Some(launch),
            "launch codec {launch:?} was not what the request ran"
        );
    }
}

#[test]
fn a_per_request_codec_wins_over_the_launch_codec() {
    assert_eq!(
        kv_quant_for_request(Some(KvQuant::K8V8), Some(KvQuant::Bf16)),
        Some(KvQuant::K8V8)
    );
    assert_eq!(
        kv_quant_for_request(Some(KvQuant::Bf16), Some(KvQuant::K8V8)),
        Some(KvQuant::Bf16)
    );
}

#[test]
fn no_launch_codec_and_no_request_codec_stays_unset() {
    assert_eq!(kv_quant_for_request(None, None), None);
}

#[test]
fn labels_are_fixed_but_for_parameters() {
    assert_eq!(kv_quant_label(None, ""), "auto");
    assert_eq!(kv_quant_label(Some(KvQuant::Bf16), "bf16"), "none");
    assert_eq!(kv_quant_label(Some(KvQuant::TurboSym4), "x"), "tsym4");
    assert_eq!(kv_quant_label(Some(KvQuant::IsoKOnly3), "x"), "k_iso3");
    assert_eq!(
        kv_quant_label(
            Some(KvQuant::Mixed {
                k_bits: 8,
                v_bits: 4,
                k_group_size: 64,
                v_group_size: 64
            }),
            "mixed_k8g64_v4g64"
        ),
        "mixed"
    );
    assert_eq!(
        kv_quant_label(
            Some(KvQuant::RotorK3Asym { params: 1 }),
            "rotor_k_3_asym_v4_g64"
        ),
        "rotor_k_3_asym_v4_g64"
    );
}

#[test]
fn request_codec_is_auto_mixed_or_parsed() {
    assert_eq!(kv_quant_spelling("  K8V8 "), "K8V8");
    assert_eq!(
        parse_request_kv_quant(" AUTO ", Err("unknown".to_owned())),
        Ok(None)
    );
    assert_eq!(
        parse_request_kv_quant("Mixed", Err("unknown".to_owned())),
        Ok(Some(KvQuant::Mixed {
            k_bits: 8,
            v_bits: 4,
            k_group_size: 64,
            v_group_size: 64
        }))
    );
    assert_eq!(
        parse_request_kv_quant("k8v8", Ok(KvQuant::K8V8)),
        Ok(Some(KvQuant::K8V8))
    );
    assert_eq!(
        parse_request_kv_quant("nope", Err("unknown codec".to_owned())),
        Err("unknown codec".to_owned())
    );
}
