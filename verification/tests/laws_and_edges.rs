use hearsay::chars::{char_is_control, char_is_whitespace, hex_digit_value};
use hearsay::log::page_limit;
use hearsay::pipeline::{
    channel_or_data, check_request, deciding_rule, input_hash, region_id_at, seed_timestamp,
    RequestRejection,
};
use hearsay::record::{default_image_area, rule_docs, timings, Timings};
use hearsay::stats::{tally, DecisionFacts, OutcomeKind};
use hearsay::{
    normalize, ChannelLabel, ContentHash, ContentHashParseError, Data, DecisionId, DecisionLog,
    DegradeReason, ExtractionOutcome, NormalizedText, Origin, PolicyEngine, ProvenanceError,
    Provenanced, Reading, Redactable, RegionAction, RegionId, RegionInput, RegionVerdict,
    RequestId, RequestOutcome, RuleId, Ruleset, RulesetError, TextError, MAX_DECISIONS,
};

fn rank(x: f32) -> u32 {
    if x.is_nan() {
        0
    } else if x == 0.0 {
        0x8000_0000
    } else {
        let b = x.to_bits();
        if b & 0x8000_0000 != 0 {
            !b
        } else {
            b | 0x8000_0000
        }
    }
}

fn score(x: f32) -> Reading {
    Reading::new(rank(x), format!("{x:.2}"))
}

fn fraction(x: f32) -> Reading {
    Reading::new(rank(x), format!("{:.0}", x * 100.0))
}

fn engine() -> PolicyEngine {
    PolicyEngine::new(Ruleset::default()).expect("default ruleset")
}

fn region<'a>(
    id: u32,
    s: Option<f32>,
    text: Option<&'a str>,
    extraction: &'a ExtractionOutcome,
) -> RegionInput<'a> {
    RegionInput {
        region: RegionId(id),
        channel: ChannelLabel::Data,
        extraction,
        score: s.map(score),
        text,
        redactable: Redactable::Yes {
            fraction: fraction(0.05),
        },
    }
}

const ALL_RULES: [RuleId; 7] = [
    RuleId::R1InstructionChannel,
    RuleId::R2ExtractionFailed,
    RuleId::R3ExtractionDegraded,
    RuleId::R4HighConfidence,
    RuleId::R5ImperativeToolRef,
    RuleId::R6LowConfidence,
    RuleId::R7Default,
];

#[test]
fn rule_ids_round_trip_through_their_wire_form() {
    for id in ALL_RULES {
        let back = RuleId::try_from(id.as_str().to_string()).expect("known rule");
        assert_eq!(back, id);
        assert_eq!(id.to_string(), id.as_str());
    }
    let err = RuleId::try_from("R8_NOT_A_RULE".to_string()).expect_err("unknown rule");
    assert_eq!(err.as_str(), "R8_NOT_A_RULE");
    assert!(RuleId::try_from("r1_instruction_channel".to_string()).is_err());
}

#[test]
fn ids_display_as_hyphenated_uuids() {
    let id = DecisionId::from_u128(0xa1a2a3a4b1b2c1c2d1d2d3d4d5d6d7d8);
    assert_eq!(id.to_string(), "a1a2a3a4-b1b2-c1c2-d1d2-d3d4d5d6d7d8");
    let rid = RequestId::from_u128(1);
    assert_eq!(rid.to_string(), "00000000-0000-0000-0000-000000000001");
}

#[test]
fn fresh_ids_are_version_4_uuids_and_differ() {
    let a = DecisionId::new();
    let b = DecisionId::new();
    assert_eq!((a.as_u128() >> 76) & 0xF, 4);
    assert_eq!((a.as_u128() >> 62) & 0x3, 2);
    assert_ne!(a, b);
    assert_eq!((RequestId::new().as_u128() >> 76) & 0xF, 4);
}

#[test]
fn region_and_channel_display_forms() {
    assert_eq!(RegionId(42).to_string(), "r42");
    assert_eq!(RegionId(0).to_string(), "r0");
    assert_eq!(RegionId(u32::MAX).to_string(), "r4294967295");
    assert_eq!(ChannelLabel::Instruction.to_string(), "instruction");
    assert_eq!(ChannelLabel::Data.to_string(), "data");
}

#[test]
fn content_hash_text_is_lowercase_hex() {
    let hash = ContentHash::from_bytes([0x01; 32]);
    assert_eq!(hash.to_string(), format!("b3:{}", "01".repeat(32)));
    let mut bytes = [0u8; 32];
    bytes[0] = 0xff;
    bytes[31] = 0x0a;
    let text = ContentHash::from_bytes(bytes).to_string();
    assert!(text.starts_with("b3:ff00"));
    assert!(text.ends_with("000a"));
}

#[test]
fn content_hash_parse_errors_name_the_first_problem() {
    assert_eq!(
        ContentHash::try_from("9f2c".to_string()),
        Err(ContentHashParseError::MissingPrefix)
    );
    assert_eq!(
        ContentHash::try_from(format!("b3:{}", "a".repeat(63))),
        Err(ContentHashParseError::WrongLength(63))
    );
    assert_eq!(
        ContentHash::try_from(format!("b3:{}", "z".repeat(64))),
        Err(ContentHashParseError::NotHex)
    );
}

#[test]
fn content_hash_parsing_accepts_digits_of_either_case() {
    let upper = ContentHash::try_from(format!("b3:{}", "AB".repeat(32))).expect("uppercase");
    assert_eq!(upper, ContentHash::from_bytes([0xab; 32]));
    let mixed = ContentHash::try_from(format!("b3:aB{}", "0f".repeat(31))).expect("mixed");
    let mut bytes = [0x0f; 32];
    bytes[0] = 0xab;
    assert_eq!(mixed, ContentHash::from_bytes(bytes));
}

#[test]
fn content_hash_parsing_refuses_every_non_hex_character() {
    // A sign is not a digit, even where a base-16 integer parser takes one.
    assert_eq!(
        ContentHash::try_from(format!("b3:{}", "+a".repeat(32))),
        Err(ContentHashParseError::NotHex)
    );
    assert_eq!(
        ContentHash::try_from(format!("b3:-f{}", "00".repeat(31))),
        Err(ContentHashParseError::NotHex)
    );
    // The length is counted in bytes; within a body of the right length a
    // byte of a character outside ASCII is no digit.
    let euro = format!("b3:a\u{20AC}{}", "0".repeat(60));
    assert_eq!(euro.len() - 3, 64);
    assert_eq!(
        ContentHash::try_from(euro),
        Err(ContentHashParseError::NotHex)
    );
    assert_eq!(
        ContentHash::try_from(format!("b3:\u{e9}{}", "a".repeat(62))),
        Err(ContentHashParseError::NotHex)
    );
    assert_eq!(
        ContentHash::try_from(format!("b3:a\u{20AC}{}", "0".repeat(62))),
        Err(ContentHashParseError::WrongLength(66))
    );
    assert_eq!(
        ContentHash::try_from("b3:\u{e9}".to_string()),
        Err(ContentHashParseError::WrongLength(2))
    );
}

#[test]
fn the_request_hash_is_blake3_over_each_text_and_a_zero_byte() {
    let h = input_hash(&["abc", "de"]);
    let expected = blake3::hash(b"abc\0de\0");
    assert_eq!(h.as_bytes(), expected.as_bytes());
    let empty = input_hash(&[]);
    assert_eq!(empty.as_bytes(), blake3::hash(b"").as_bytes());
}

#[test]
fn ruleset_errors_carry_the_offending_values() {
    let rs = Ruleset {
        max_redact_frac: fraction(1.5),
        ..Ruleset::default()
    };
    match rs.validate() {
        Err(RulesetError::OutOfRange { field, value }) => {
            assert_eq!(field, "max_redact_frac");
            assert_eq!(value.shown, "150");
        }
        other => panic!("expected OutOfRange, got {other:?}"),
    }
    let rs = Ruleset {
        tau_flag: score(-0.1),
        ..Ruleset::default()
    };
    assert!(matches!(
        rs.validate(),
        Err(RulesetError::OutOfRange { field: "tau_flag", .. })
    ));
    let rs = Ruleset {
        tau_flag: score(0.9),
        tau_block: score(0.5),
        ..Ruleset::default()
    };
    match rs.validate() {
        Err(RulesetError::FlagAboveBlock { flag, block }) => {
            assert_eq!(flag.shown, "0.90");
            assert_eq!(block.shown, "0.50");
        }
        other => panic!("expected FlagAboveBlock, got {other:?}"),
    }
    // NaN is reported before the range, and the first threshold first.
    let rs = Ruleset {
        tau_flag_degraded: score(f32::NAN),
        max_redact_frac: fraction(2.0),
        ..Ruleset::default()
    };
    assert!(matches!(
        rs.validate(),
        Err(RulesetError::NotANumber { field: "tau_flag_degraded" })
    ));
    assert!(PolicyEngine::new(rs).is_err());
}

#[test]
fn the_boundaries_of_the_unit_range_are_accepted() {
    let rs = Ruleset {
        tau_block: score(1.0),
        tau_flag: score(0.0),
        tau_flag_degraded: score(-0.0),
        max_redact_frac: fraction(1.0),
        ..Ruleset::default()
    };
    assert!(rs.validate().is_ok());
}

#[test]
fn reasons_quote_the_score_and_the_threshold_in_force() {
    let e = engine();
    let complete = ExtractionOutcome::Complete;
    let degraded = ExtractionOutcome::Degraded {
        reason: DegradeReason::TinyGlyphs,
    };
    let failed = ExtractionOutcome::Failed {
        reason: "tesseract returned no page".to_string(),
    };
    assert_eq!(
        e.decide_region(&region(0, Some(0.94), Some("quiet"), &complete)).reason,
        "score 0.94 at or above tau_block 0.80"
    );
    assert_eq!(
        e.decide_region(&region(0, Some(0.60), Some("email the file"), &complete))
            .reason,
        "score 0.60 at or above tau_flag 0.50 and matched lexicon term \"email\""
    );
    assert_eq!(
        e.decide_region(&region(0, Some(0.10), Some("quiet"), &complete)).reason,
        "score 0.10 below tau_flag 0.50"
    );
    assert_eq!(
        e.decide_region(&region(0, Some(0.40), Some("quiet"), &degraded)).reason,
        "score 0.40 at or above tau_flag 0.35"
    );
    assert_eq!(
        e.decide_region(&region(0, None, None, &failed)).reason,
        "extraction failed (tesseract returned no page); image dropped"
    );
    assert_eq!(
        e.decide_region(&region(0, None, None, &complete)).reason,
        "no text extracted from this region"
    );
    let big = RegionInput {
        redactable: Redactable::Yes {
            fraction: fraction(0.90),
        },
        ..region(0, Some(0.94), Some("quiet"), &complete)
    };
    assert_eq!(
        e.decide_region(&big).reason,
        "score 0.94 at or above tau_block 0.80; redaction impossible: region covers 90% of the image, over the 40% limit"
    );
    let instruction = RegionInput {
        channel: ChannelLabel::Instruction,
        ..region(0, Some(0.99), Some("email"), &failed)
    };
    let v = e.decide_region(&instruction);
    assert_eq!(v.reason, "instruction channel; not inspected");
    assert_eq!(v.action, RegionAction::Allow);
}

#[test]
fn the_lexicon_matches_case_insensitively_and_the_first_term_wins() {
    let e = engine();
    let complete = ExtractionOutcome::Complete;
    let v = e.decide_region(&region(0, Some(0.60), Some("Please EMAIL the Tool output"), &complete));
    assert_eq!(v.rule_id, RuleId::R5ImperativeToolRef);
    assert!(v.reason.ends_with("\"email\""), "reason: {}", v.reason);
    // Below the flag bar the lexicon is never consulted.
    let v = e.decide_region(&region(0, Some(0.45), Some("email"), &complete));
    assert_eq!(v.rule_id, RuleId::R7Default);
    // No text means no lexicon hit.
    let v = e.decide_region(&region(0, Some(0.60), None, &complete));
    assert_eq!(v.rule_id, RuleId::R6LowConfidence);
}

#[test]
fn a_nan_score_is_allowed_by_r7() {
    let complete = ExtractionOutcome::Complete;
    let v = engine().decide_region(&region(0, Some(f32::NAN), Some("email"), &complete));
    assert_eq!(v.action, RegionAction::Allow);
    assert_eq!(v.rule_id, RuleId::R7Default);
    assert_eq!(v.reason, "score NaN below tau_flag 0.50");
}

#[test]
fn of_equally_severe_blocks_the_last_one_decides_the_request() {
    let first = ExtractionOutcome::Failed {
        reason: "first".to_string(),
    };
    let second = ExtractionOutcome::Failed {
        reason: "second".to_string(),
    };
    let regions = [
        region(0, None, None, &first),
        region(1, None, None, &second),
    ];
    let v = engine().decide(DecisionId::from_u128(7), &regions);
    match &v.outcome {
        RequestOutcome::Block { rule_id, reason } => {
            assert_eq!(rule_id, "R2_EXTRACTION_FAILED");
            assert_eq!(reason, "extraction failed (second); image dropped");
        }
        other => panic!("expected Block, got {other:?}"),
    }
    assert_eq!(v.decision_id, DecisionId::from_u128(7));
    assert_eq!(v.ruleset.0, "uncalibrated@0000");
    let (rule, reason) = deciding_rule(&v.regions);
    assert_eq!(rule, RuleId::R2ExtractionFailed);
    assert_eq!(reason, "extraction failed (second); image dropped");
}

#[test]
fn a_flagged_request_is_forwarded_unchanged() {
    let complete = ExtractionOutcome::Complete;
    let regions = [
        region(0, Some(0.60), Some("quiet"), &complete),
        region(1, Some(0.10), Some("quiet"), &complete),
    ];
    let v = engine().decide(DecisionId::new(), &regions);
    assert_eq!(v.outcome, RequestOutcome::Allow);
    assert_eq!(v.regions[0].action, RegionAction::Flag);
    let (rule, reason) = deciding_rule(&v.regions);
    assert_eq!(rule, RuleId::R6LowConfidence);
    assert_eq!(reason, "score 0.60 at or above tau_flag 0.50");
    let (rule, reason) = deciding_rule(&Vec::<RegionVerdict>::new());
    assert_eq!(rule, RuleId::R7Default);
    assert_eq!(reason, "no regions submitted");
}

#[test]
fn duplicate_redacted_regions_are_all_listed_in_order() {
    let complete = ExtractionOutcome::Complete;
    let regions = [
        region(9, Some(0.94), Some("quiet"), &complete),
        region(4, Some(0.94), Some("quiet"), &complete),
        region(9, Some(0.94), Some("quiet"), &complete),
        region(1, Some(0.20), Some("quiet"), &complete),
    ];
    let v = engine().decide(DecisionId::new(), &regions);
    assert_eq!(
        v.outcome,
        RequestOutcome::AllowRedacted {
            redactions: vec![RegionId(4), RegionId(9), RegionId(9)]
        }
    );
}

#[test]
fn a_clearance_names_the_ruleset_it_was_issued_under() {
    let e = engine();
    let complete = ExtractionOutcome::Complete;
    let allowed = e.decide_region(&region(5, Some(0.10), Some("quiet"), &complete));
    let c = e
        .clearance(DecisionId::from_u128(9), &allowed)
        .expect("allowed");
    assert_eq!(c.ruleset().0, "uncalibrated@0000");
    assert_eq!(c.region(), RegionId(5));
    let failed = ExtractionOutcome::Failed {
        reason: "x".to_string(),
    };
    let blocked = e.decide_region(&region(6, None, None, &failed));
    assert!(e.clearance(DecisionId::from_u128(9), &blocked).is_none());
}

#[test]
fn provenance_constructors_and_their_errors() {
    let p = Provenanced::user_prompt("summarise".to_string());
    assert_eq!(p.clone().into_inner(), "summarise");
    let err = Provenanced::<Data, _>::observed("x", Origin::UserPrompt).expect_err("user prompt");
    assert_eq!(
        err,
        ProvenanceError::WrongChannel {
            origin: "user_prompt",
            admitted: ChannelLabel::Instruction,
            requested: ChannelLabel::Data,
        }
    );
    let origin = Origin::ToolOutput {
        tool: "browser".to_string(),
    };
    let d = Provenanced::observed(vec![1u8, 2], origin.clone()).expect("tool output is data");
    let copy = d.clone();
    assert_eq!(copy.origin(), &origin);
    assert_eq!(copy.inspect(), &vec![1u8, 2]);
}

#[test]
fn offset_map_errors_carry_the_offending_entries() {
    let err = NormalizedText::new("abc".to_string(), vec![0, 5, 3], RegionId(0));
    assert_eq!(
        err,
        Err(TextError::OffsetMapNotMonotonic {
            index: 2,
            value: 3,
            prev_index: 1,
            prev_value: 5,
        })
    );
    // Byte length, not character count.
    let err = NormalizedText::new("\u{e9}".to_string(), vec![0], RegionId(0));
    assert_eq!(
        err,
        Err(TextError::OffsetMapLengthMismatch {
            offsets: 1,
            bytes: 2
        })
    );
    let t = NormalizedText::identity("\u{e9}".to_string(), RegionId(1));
    assert_eq!(t.source_offset(1), Some(1));
    assert_eq!(t.as_str(), "\u{e9}");
    assert!(!t.is_empty());
    assert!(NormalizedText::identity(String::new(), RegionId(1)).is_empty());
}

#[test]
fn the_log_holds_at_most_its_capacity_newest_first() {
    let mut log: DecisionLog<u64> = DecisionLog::new();
    for i in 0..(MAX_DECISIONS as u64 + 1) {
        log.record(i, DecisionId::from_u128(u128::from(i)), i);
    }
    assert_eq!(log.len(), MAX_DECISIONS);
    assert_eq!(log.recent(None, 1), vec![MAX_DECISIONS as u64]);
    let all = log.all();
    assert_eq!(all.len(), MAX_DECISIONS);
    assert_eq!(all.last(), Some(&1));
}

#[test]
fn recent_stops_at_the_first_decision_that_is_not_newer() {
    let mut log: DecisionLog<&str> = DecisionLog::new();
    log.record(10, DecisionId::from_u128(1), "old");
    log.record(30, DecisionId::from_u128(2), "new");
    log.record(20, DecisionId::from_u128(3), "newest");
    assert_eq!(log.recent(Some(15), 10), vec!["newest", "new"]);
    assert_eq!(log.recent(Some(25), 10), Vec::<&str>::new());
    assert_eq!(log.recent(None, 2), vec!["newest", "new"]);
    assert_eq!(
        log.get("00000000-0000-0000-0000-000000000002"),
        Some("new")
    );
    assert_eq!(log.get("2"), None);
}

#[test]
fn page_limits_default_and_clamp() {
    assert_eq!(page_limit(None), 50);
    assert_eq!(page_limit(Some(0)), 1);
    assert_eq!(page_limit(Some(7)), 7);
    assert_eq!(page_limit(Some(500)), 200);
}

#[test]
fn the_tally_counts_every_decision_once() {
    let facts = vec![
        DecisionFacts {
            outcome: OutcomeKind::Allow,
            regions: vec![
                (RegionAction::Allow, RuleId::R7Default),
                (RegionAction::Flag, RuleId::R6LowConfidence),
            ],
        },
        DecisionFacts {
            outcome: OutcomeKind::AllowRedacted,
            regions: vec![(RegionAction::Redact, RuleId::R4HighConfidence)],
        },
        DecisionFacts {
            outcome: OutcomeKind::Block,
            regions: vec![
                (RegionAction::Block, RuleId::R2ExtractionFailed),
                (RegionAction::Block, RuleId::R4HighConfidence),
            ],
        },
    ];
    let t = tally(&facts);
    assert_eq!((t.total, t.allow, t.allow_redacted, t.block), (3, 1, 1, 1));
    assert_eq!(t.regions_total, 5);
    assert_eq!(t.regions_redacted, 1);
    assert_eq!(t.regions_flagged, 1);
    let counts: Vec<(RuleId, usize)> = t.by_rule.iter().map(|c| (c.rule_id, c.count)).collect();
    assert_eq!(
        counts,
        vec![
            (RuleId::R1InstructionChannel, 0),
            (RuleId::R2ExtractionFailed, 1),
            (RuleId::R3ExtractionDegraded, 0),
            (RuleId::R4HighConfidence, 2),
            (RuleId::R5ImperativeToolRef, 0),
            (RuleId::R6LowConfidence, 1),
            (RuleId::R7Default, 1),
        ]
    );
    assert_eq!(tally(&[]).total, 0);
    let per_rule: usize = t.by_rule.iter().map(|c| c.count).sum();
    assert_eq!(per_rule, t.regions_total);
}

#[test]
fn request_limits_are_checked_in_order() {
    assert_eq!(check_request(&[1, 2], 10), Ok(()));
    assert_eq!(
        check_request(&[0; 65], 0),
        Err(RequestRejection::TooManyRegions { count: 65 })
    );
    assert_eq!(
        check_request(&[10, 8193, 9000], 0),
        Err(RequestRejection::RegionTooLarge {
            index: 1,
            bytes: 8193
        })
    );
    assert_eq!(check_request(&[8192], 0), Err(RequestRejection::ZeroImageArea));
}

#[test]
fn small_formulas_give_their_exact_values() {
    assert_eq!(
        timings(198, 52, 0),
        Timings {
            decode: 14,
            ocr: 198,
            classify: 52,
            policy: 0,
            redact: 0,
            total: 289
        }
    );
    assert_eq!(Timings::default().total, 0);
    assert_eq!(default_image_area(), 2_073_600);
    assert_eq!(region_id_at(3), RegionId(3));
    assert_eq!(seed_timestamp(10_000_000, 12, 0), 10_000_000 - 12 * 137_000);
    assert_eq!(seed_timestamp(10_000_000, 12, 6), 10_000_000 - (6 * 137_000 + 9_400));
    assert_eq!(seed_timestamp(5, 12, 11), 0);
    // More fixtures than any table holds are still spaced as written.
    assert_eq!(seed_timestamp(u64::MAX, 5_000, 4_999), u64::MAX - (137_000 + 4 * 9_400));
    assert_eq!(seed_timestamp(100_000, 7, 7), 100_000 - 2 * 9_400);
}

#[test]
fn mapping_with_the_identity_changes_nothing_and_maps_compose() {
    let p = Provenanced::observed("Text".to_string(), Origin::ToolOutput {
        tool: "search".to_string(),
    })
    .expect("data origin");
    let same = p.clone().map(|s| s);
    assert_eq!(same, p);
    let twice = p.clone().map(|s| s.len()).map(|n| n * 3);
    let once = p.clone().map(|s| s.len() * 3);
    assert_eq!(twice, once);
    assert_eq!(twice.label(), twice.origin().admitted_channel());
}

#[test]
fn the_users_prompt_unwraps_to_what_was_typed() {
    let p = Provenanced::user_prompt("summarise this".to_string());
    assert_eq!(p.label(), p.origin().admitted_channel());
    let q = p.map(|s| s.to_uppercase());
    assert_eq!(q.label(), ChannelLabel::Instruction);
    assert_eq!(q.into_inner(), "SUMMARISE THIS");
    assert_eq!(Provenanced::user_prompt(7u8).into_inner(), 7);
}

#[test]
fn the_rule_table_lists_the_seven_rules_in_order() {
    let docs = rule_docs();
    assert_eq!(docs.len(), 7);
    for (i, d) in docs.iter().enumerate() {
        assert_eq!(usize::from(d.ordinal), i + 1);
        assert_eq!(d.rule_id, ALL_RULES[i]);
    }
    assert_eq!(docs[3].condition, "score >= tau_block");
}

#[test]
fn the_skeleton_has_single_spaces_and_no_invisible_or_control_characters() {
    assert_eq!(normalize("  a\u{200B}b\t\t\u{0007}c  \u{FEFF}"), "ab c");
    assert_eq!(normalize(""), "");
    assert_eq!(normalize(" \n\t "), "");
    assert_eq!(normalize("\u{2060}X\u{00A0}\u{3000}Y"), "x y");
}

#[test]
fn the_character_classes_agree_with_the_standard_library() {
    for c in (0u32..=0x10FFFF).filter_map(char::from_u32) {
        assert_eq!(char_is_whitespace(c), c.is_whitespace(), "{c:?}");
        assert_eq!(char_is_control(c), c.is_control(), "{c:?}");
    }
    for b in 0u8..=255 {
        let c = char::from(b);
        let expected = c.to_digit(16).filter(|_| b.is_ascii()).map(|d| d as u8);
        assert_eq!(hex_digit_value(b), expected, "{b}");
    }
}

#[test]
fn a_region_without_a_channel_is_judged_as_data() {
    assert_eq!(channel_or_data(None), ChannelLabel::Data);
    assert_eq!(channel_or_data(Some(ChannelLabel::Instruction)), ChannelLabel::Instruction);
    assert_eq!(channel_or_data(Some(ChannelLabel::Data)), ChannelLabel::Data);
}
