use rmlx_server::openai::chat::thinking_end_token_id;
use rmlx_server::openai::encoding::can_encode;

const WORDS: &str = r#"{
    "type": "WordLevel",
    "vocab": {"[UNK]": 0, "hello": 1, "stop": 2, "</": 3, "think": 4, ">": 5},
    "unk_token": "[UNK]"
}"#;

const BYTES: &str = r#"{
    "type": "BPE",
    "dropout": null,
    "unk_token": null,
    "continuing_subword_prefix": null,
    "end_of_word_suffix": null,
    "fuse_unk": false,
    "byte_fallback": false,
    "vocab": {"a": 0, "b": 1, "ab": 2, "<": 3, ">": 4},
    "merges": ["a b"]
}"#;

/// The parts of a tokenizer, as a file writes them.
#[derive(Clone, Copy)]
struct Parts<'a> {
    truncation: &'a str,
    padding: &'a str,
    added: &'a str,
    normalizer: &'a str,
    pre_tokenizer: &'a str,
    post_processor: &'a str,
    model: &'a str,
}

fn words() -> Parts<'static> {
    Parts {
        truncation: "null",
        padding: "null",
        added: "[]",
        normalizer: "null",
        pre_tokenizer: r#"{"type": "Whitespace"}"#,
        post_processor: "null",
        model: WORDS,
    }
}

fn make(p: Parts<'_>) -> tokenizers::Tokenizer {
    let text = format!(
        r#"{{
            "version": "1.0",
            "truncation": {},
            "padding": {},
            "added_tokens": {},
            "normalizer": {},
            "pre_tokenizer": {},
            "post_processor": {},
            "decoder": null,
            "model": {}
        }}"#,
        p.truncation,
        p.padding,
        p.added,
        p.normalizer,
        p.pre_tokenizer,
        p.post_processor,
        p.model
    );
    text.parse().unwrap()
}

fn closing(p: Parts<'_>, end: &str) -> Option<u32> {
    thinking_end_token_id(Some(&make(p)), Some(1), &Some(end.to_owned()))
}

#[test]
fn plain_tokenizers_encode() {
    assert!(can_encode(&make(words())));
    assert_eq!(closing(words(), "hello stop"), Some(2));
}

#[test]
fn a_byte_level_tokenizer_encodes() {
    let p = Parts {
        normalizer: r#"{"type": "NFC"}"#,
        pre_tokenizer: r#"{"type": "Sequence", "pretokenizers": [
            {"type": "Split",
             "pattern": {"Regex": "(?i:'s|'t)|[^\\r\\n\\p{L}\\p{N}]?\\p{L}+|\\s+(?!\\S)|\\s+"},
             "behavior": "Isolated", "invert": false},
            {"type": "ByteLevel", "add_prefix_space": false, "trim_offsets": false,
             "use_regex": false}
        ]}"#,
        post_processor: r#"{"type": "ByteLevel", "add_prefix_space": false,
            "trim_offsets": false, "use_regex": false}"#,
        model: BYTES,
        ..words()
    };
    assert!(can_encode(&make(p)));
    assert_eq!(closing(p, "ab"), Some(2));
    assert_eq!(closing(p, "ab>"), Some(4));
}

#[test]
fn a_tokenizer_with_a_template_encodes() {
    let p = Parts {
        normalizer: r#"{"type": "Sequence", "normalizers": [
            {"type": "Prepend", "prepend": "a"},
            {"type": "Replace", "pattern": {"String": " "}, "content": "b"}
        ]}"#,
        pre_tokenizer: r#"{"type": "Split", "pattern": {"String": " "},
            "behavior": "MergedWithPrevious", "invert": false}"#,
        post_processor: r#"{"type": "TemplateProcessing",
            "single": [{"SpecialToken": {"id": "<s>", "type_id": 0}},
                       {"Sequence": {"id": "A", "type_id": 0}}],
            "pair": [{"Sequence": {"id": "A", "type_id": 0}},
                     {"Sequence": {"id": "B", "type_id": 1}}],
            "special_tokens": {"<s>": {"id": "<s>", "ids": [3], "tokens": ["<s>"]}}}"#,
        model: BYTES,
        ..words()
    };
    assert!(can_encode(&make(p)));
    assert_eq!(closing(p, "b"), Some(2));
    assert_eq!(closing(p, ">"), Some(4));
}

#[test]
fn truncation_needs_room_for_its_stride() {
    let tight = r#"{"direction": "Right", "max_length": 1, "strategy": "LongestFirst",
        "stride": 1}"#;
    let p = Parts { truncation: tight, ..words() };
    assert!(!can_encode(&make(p)));
    assert_eq!(closing(p, "hello stop"), None);
    let roomy = r#"{"direction": "Right", "max_length": 1, "strategy": "LongestFirst",
        "stride": 0}"#;
    let p = Parts { truncation: roomy, ..words() };
    assert!(can_encode(&make(p)));
    assert_eq!(closing(p, "hello stop"), Some(1));
    let none = r#"{"direction": "Right", "max_length": 0, "strategy": "LongestFirst",
        "stride": 4}"#;
    let p = Parts { truncation: none, ..words() };
    assert!(can_encode(&make(p)));
    assert_eq!(closing(p, "hello stop"), None);
}

#[test]
fn a_template_of_one_text_holds_no_second_one() {
    let p = Parts {
        post_processor: r#"{"type": "TemplateProcessing",
            "single": [{"Sequence": {"id": "B", "type_id": 0}}],
            "pair": [{"Sequence": {"id": "A", "type_id": 0}},
                     {"Sequence": {"id": "B", "type_id": 1}}],
            "special_tokens": {}}"#,
        ..words()
    };
    assert!(!can_encode(&make(p)));
    assert_eq!(closing(p, "stop"), None);
}

#[test]
fn added_tokens_must_not_overlap() {
    let right = r#"{"id": 6, "content": "<e>", "single_word": false, "lstrip": false,
        "rstrip": true, "normalized": false, "special": true}"#;
    let back = r#"{"id": 7, "content": " ", "single_word": false, "lstrip": true,
        "rstrip": false, "normalized": false, "special": false}"#;
    let word = r#"{"id": 7, "content": "<m>", "single_word": false, "lstrip": true,
        "rstrip": false, "normalized": false, "special": true}"#;
    let both = format!("[{right}, {back}]");
    let p = Parts { added: &both, ..words() };
    assert!(!can_encode(&make(p)));
    assert_eq!(closing(p, "<e>   "), None);
    let good = format!("[{right}, {word}]");
    let p = Parts { added: &good, ..words() };
    assert!(can_encode(&make(p)));
    assert_eq!(closing(p, "<e>  <m>"), Some(7));
    let alone = format!("[{right}]");
    let p = Parts { added: &alone, ..words() };
    assert_eq!(closing(p, "stop <e>"), Some(6));
}

#[test]
fn an_added_token_is_reshaped_only_by_a_normalizer() {
    let right = r#"{"id": 6, "content": "<e>", "single_word": false, "lstrip": false,
        "rstrip": true, "normalized": false, "special": true}"#;
    let shaped = r#"{"id": 7, "content": "<m>", "single_word": false, "lstrip": true,
        "rstrip": false, "normalized": true, "special": false}"#;
    let both = format!("[{right}, {shaped}]");
    let p = Parts { added: &both, ..words() };
    assert!(can_encode(&make(p)));
    assert_eq!(closing(p, "<e>  <m>"), Some(7));
    let p = Parts { normalizer: r#"{"type": "NFC"}"#, ..p };
    assert!(!can_encode(&make(p)));
}

#[test]
fn normalizers_shape_the_text() {
    let lower = Parts { normalizer: r#"{"type": "Lowercase"}"#, ..words() };
    assert!(can_encode(&make(lower)));
    assert_eq!(closing(lower, "HELLO Stop"), Some(2));
    let strip = r#"{"type": "Strip", "strip_left": true, "strip_right": true}"#;
    let p = Parts { normalizer: strip, pre_tokenizer: "null", ..words() };
    assert!(can_encode(&make(p)));
    assert_eq!(closing(p, "  stop "), Some(2));
    let bert = r#"{"type": "BertNormalizer", "clean_text": true, "handle_chinese_chars": true,
        "strip_accents": null, "lowercase": true}"#;
    let p = Parts { normalizer: bert, ..words() };
    assert!(can_encode(&make(p)));
    assert_eq!(closing(p, "STÓP"), Some(2));
    let accents = r#"{"type": "Sequence", "normalizers": [{"type": "Sequence", "normalizers": [
        {"type": "NFD"}, {"type": "StripAccents"}]}, {"type": "Nmt"}]}"#;
    let p = Parts { normalizer: accents, ..words() };
    assert!(can_encode(&make(p)));
    assert_eq!(closing(p, "stóp"), Some(2));
    let bytes = Parts { normalizer: r#"{"type": "ByteLevel"}"#, model: BYTES, ..words() };
    assert!(can_encode(&make(bytes)));
    assert_eq!(closing(bytes, "ab"), Some(2));
}

#[test]
fn replacements_at_the_start_leave_a_text_loose() {
    let cut = r#"{"type": "Replace", "pattern": {"Regex": "^x*"}, "content": ""}"#;
    let p = Parts { normalizer: cut, ..words() };
    assert!(can_encode(&make(p)));
    assert_eq!(closing(p, "xxstop"), Some(2));
    let ahead = r#"{"type": "Replace", "pattern": {"Regex": "^"}, "content": "stop "}"#;
    let p = Parts { normalizer: ahead, ..words() };
    assert!(can_encode(&make(p)));
    assert_eq!(closing(p, "hello"), Some(1));
    let then = format!(r#"{{"type": "Sequence", "normalizers": [{ahead}, {{"type": "NFC"}}]}}"#);
    assert!(!can_encode(&make(Parts { normalizer: &then, ..words() })));
    let first = format!(r#"{{"type": "Sequence", "normalizers": [{{"type": "NFC"}}, {ahead}]}}"#);
    let p = Parts { normalizer: &first, ..words() };
    assert!(can_encode(&make(p)));
    assert_eq!(closing(p, "hello stop"), Some(2));
    let byte_level = r#"{"type": "ByteLevel", "add_prefix_space": false, "trim_offsets": false,
        "use_regex": false}"#;
    assert!(!can_encode(&make(Parts { pre_tokenizer: byte_level, ..p })));
    let literal = r#"{"type": "Sequence", "normalizers": [
        {"type": "Replace", "pattern": {"Regex": "x+"}, "content": "stop"}, {"type": "NFC"}]}"#;
    let p = Parts { normalizer: literal, ..words() };
    assert!(can_encode(&make(p)));
    assert_eq!(closing(p, "hello xx"), Some(2));
}

#[test]
fn pre_tokenizers_split_the_text() {
    let fixed = r#"{"type": "FixedLength", "length": 2}"#;
    let p = Parts { pre_tokenizer: fixed, ..words() };
    assert!(can_encode(&make(p)));
    assert_eq!(closing(p, "</"), Some(3));
    assert_eq!(closing(p, "</>"), Some(5));
    let zero = r#"{"type": "FixedLength", "length": 0}"#;
    assert!(!can_encode(&make(Parts { pre_tokenizer: zero, ..words() })));
    let nested = r#"{"type": "Sequence", "pretokenizers": [{"type": "Sequence",
        "pretokenizers": [{"type": "WhitespaceSplit"}]}, {"type": "UnicodeScripts"}]}"#;
    let p = Parts { pre_tokenizer: nested, ..words() };
    assert!(can_encode(&make(p)));
    assert_eq!(closing(p, "hello stop"), Some(2));
}

#[test]
fn padding_comes_after_the_text() {
    let padding = r#"{"strategy": {"Fixed": 4}, "direction": "Right",
        "pad_to_multiple_of": null, "pad_id": 9, "pad_type_id": 0, "pad_token": "[PAD]"}"#;
    let p = Parts { padding, ..words() };
    assert!(can_encode(&make(p)));
    assert_eq!(closing(p, "stop"), Some(9));
    let ahead = r#"{"strategy": "BatchLongest", "direction": "Left",
        "pad_to_multiple_of": 8, "pad_id": 9, "pad_type_id": 0, "pad_token": "[PAD]"}"#;
    let p = Parts { padding: ahead, ..words() };
    assert!(can_encode(&make(p)));
    assert_eq!(closing(p, "stop"), Some(2));
    let vast = r#"{"strategy": {"Fixed": 9007199254740992}, "direction": "Right",
        "pad_to_multiple_of": null, "pad_id": 9, "pad_type_id": 0, "pad_token": "[PAD]"}"#;
    assert!(!can_encode(&make(Parts { padding: vast, ..words() })));
}

#[test]
fn templates_follow_one_another() {
    let twice = r#"{"type": "TemplateProcessing",
        "single": [{"Sequence": {"id": "A", "type_id": 0}}, {"Sequence": {"id": "A", "type_id": 0}}],
        "pair": [{"Sequence": {"id": "A", "type_id": 0}}, {"Sequence": {"id": "B", "type_id": 1}}],
        "special_tokens": {}}"#;
    let two = format!(r#"{{"type": "Sequence", "processors": [{twice}, {twice}]}}"#);
    let p = Parts { post_processor: &two, ..words() };
    assert!(can_encode(&make(p)));
    assert_eq!(closing(p, "hello stop"), Some(2));
    let thrice = r#"{"type": "TemplateProcessing",
        "single": [{"Sequence": {"id": "A", "type_id": 0}}, {"Sequence": {"id": "A", "type_id": 0}},
                   {"Sequence": {"id": "A", "type_id": 0}}],
        "pair": [{"Sequence": {"id": "A", "type_id": 0}}, {"Sequence": {"id": "B", "type_id": 1}}],
        "special_tokens": {}}"#;
    let more = format!(r#"{{"type": "Sequence", "processors": [{thrice}, {twice}]}}"#);
    assert!(!can_encode(&make(Parts { post_processor: &more, ..words() })));
}

#[test]
fn a_unigram_tokenizer_encodes() {
    let unigram = r#"{"type": "Unigram", "unk_id": 0, "vocab": [["<unk>", 0.0], ["a", -1.0],
        ["b", -1.0], ["ab", -0.5]], "byte_fallback": false}"#;
    let p = Parts { model: unigram, ..words() };
    assert!(can_encode(&make(p)));
    assert_eq!(closing(p, "b a"), Some(1));
    assert_eq!(closing(p, "aab"), Some(3));
}

/// A table of one page that maps "A" to "stop" and leads every other byte nowhere.
fn page(target: u32) -> String {
    let mut units = vec![0xffu32; 256];
    // The root leads to unit 2 xor the byte; "A" is 65.
    units[0] = 2 << 10;
    units[2 ^ 65] = (((2 ^ 65) ^ 7) << 10) | (1 << 8) | 65;
    units[7] = target;
    let mut bytes = vec![0u8, 4, 0, 0];
    for u in units {
        bytes.extend(u.to_le_bytes());
    }
    bytes.extend(b"stop\0");
    format!(
        r#"{{"type": "Precompiled", "precompiled_charsmap": "{}"}}"#,
        rmlx_server::image_io::base64_encode(&bytes)
    )
}

#[test]
fn a_table_of_characters_is_walked_where_it_is_sound() {
    let sound = page(0x8000_0000);
    let p = Parts { normalizer: &sound, ..words() };
    assert!(can_encode(&make(p)));
    assert_eq!(closing(p, "hello A"), Some(2));
    assert_eq!(closing(p, "hello"), Some(1));
    let beyond = page(0x8000_0000 | 77);
    assert!(!can_encode(&make(Parts { normalizer: &beyond, ..words() })));
}

#[test]
fn other_parts_are_not_asked() {
    let moving = r#"{"type": "Split", "pattern": {"Regex": "a\\Kb"}, "behavior": "Isolated",
        "invert": false}"#;
    assert!(!can_encode(&make(Parts { pre_tokenizer: moving, ..words() })));
    let referring = r#"{"type": "Split", "pattern": {"Regex": "(a)\\1"},
        "behavior": "Isolated", "invert": false}"#;
    assert!(!can_encode(&make(Parts { pre_tokenizer: referring, ..words() })));
}
