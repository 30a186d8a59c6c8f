use fmp4::moof::{
    default_sample_flags_word, first_sample_flags_word, SampleDepended, SampleDepends,
    SampleFlags, SampleLeading, SampleRedundancy,
};

#[test]
fn parse_known_words() {
    // 0x02000000: depends_on = 2 (does not depend), everything else zero.
    let f = SampleFlags::parse(0x02000000).unwrap();
    assert_eq!(f.is_leading, SampleLeading::UNKNOWN);
    assert_eq!(f.depends_on, SampleDepends::NOTDEPENDS);
    assert_eq!(f.is_depended_on, SampleDepended::UNKNOWN);
    assert_eq!(f.has_redundancy, SampleRedundancy::UNKNOWN);
    assert!(!f.is_non_sync_sample);
    assert_eq!(f.degradation_priority, 0);

    // 0x01010000: depends_on = 1, non-sync bit set.
    let f = SampleFlags::parse(0x01010000).unwrap();
    assert_eq!(f.depends_on, SampleDepends::DEPENDS);
    assert!(f.is_non_sync_sample);

    // The low sixteen bits are the degradation priority.
    let f = SampleFlags::parse(0x0000BEEF).unwrap();
    assert_eq!(f.degradation_priority, 0xBEEF);

    // All four two-bit fields at once, plus leading bits value 3.
    let f = SampleFlags::parse(0x0E690001).unwrap();
    assert_eq!(f.is_leading, SampleLeading::LEADINGNODEP);
    assert_eq!(f.depends_on, SampleDepends::NOTDEPENDS);
    assert_eq!(f.is_depended_on, SampleDepended::NOTDISPOSABLE);
    assert_eq!(f.has_redundancy, SampleRedundancy::NOTREDUNDANT);
    assert!(f.is_non_sync_sample);
    assert_eq!(f.degradation_priority, 1);
}

#[test]
fn parse_rejects_reserved_dependency_codes() {
    // A reserved code in any dependency sub-field is a hard failure.
    assert!(SampleFlags::parse(0x03000000).is_none()); // depends_on = 3
    assert!(SampleFlags::parse(0x00C00000).is_none()); // is_depended_on = 3
    assert!(SampleFlags::parse(0x00300000).is_none()); // has_redundancy = 3
    // The leading field has four legal values; 3 alone does not fail.
    assert!(SampleFlags::parse(0x0C000000).is_some());
    // The four topmost reserved bits are ignored on parse.
    assert!(SampleFlags::parse(0xF0000000).is_some());
}

#[test]
fn serialize_known_values() {
    let f = SampleFlags {
        is_leading: SampleLeading::UNKNOWN,
        depends_on: SampleDepends::DEPENDS,
        is_depended_on: SampleDepended::UNKNOWN,
        has_redundancy: SampleRedundancy::UNKNOWN,
        is_non_sync_sample: true,
        degradation_priority: 0,
    };
    assert_eq!(f.serialize(), 0x01010000);
    let f = SampleFlags {
        is_leading: SampleLeading::NOTLEADING,
        depends_on: SampleDepends::NOTDEPENDS,
        is_depended_on: SampleDepended::DISPOSABLE,
        has_redundancy: SampleRedundancy::NOTREDUNDANT,
        is_non_sync_sample: false,
        degradation_priority: 7,
    };
    assert_eq!(f.serialize(), 0x0AA00007);
}

#[test]
fn round_trip_all_representable_fields() {
    // The flag codec inverse law on concrete values: parse(serialize(f))
    // gives f back for every combination outside the reserved codes.
    let leadings = [
        SampleLeading::UNKNOWN,
        SampleLeading::LEADINGDEP,
        SampleLeading::NOTLEADING,
        SampleLeading::LEADINGNODEP,
    ];
    let depends = [SampleDepends::UNKNOWN, SampleDepends::DEPENDS, SampleDepends::NOTDEPENDS];
    let depended = [
        SampleDepended::UNKNOWN,
        SampleDepended::NOTDISPOSABLE,
        SampleDepended::DISPOSABLE,
    ];
    let redundancy = [
        SampleRedundancy::UNKNOWN,
        SampleRedundancy::REDUNDANT,
        SampleRedundancy::NOTREDUNDANT,
    ];
    for l in leadings {
        for d in depends {
            for s in depended {
                for r in redundancy {
                    for non_sync in [false, true] {
                        for pri in [0u16, 1, 0x8000, 0xFFFF] {
                            let f = SampleFlags {
                                is_leading: l,
                                depends_on: d,
                                is_depended_on: s,
                                has_redundancy: r,
                                is_non_sync_sample: non_sync,
                                degradation_priority: pri,
                            };
                            assert_eq!(SampleFlags::parse(f.serialize()), Some(f));
                        }
                    }
                }
            }
        }
    }
}

#[test]
fn fixed_words_come_from_the_codec() {
    assert_eq!(default_sample_flags_word(), 16842752);
    assert_eq!(first_sample_flags_word(), 33554432);
    // And they decode back to the values they encode.
    let d = SampleFlags::parse(default_sample_flags_word()).unwrap();
    assert_eq!(d.depends_on, SampleDepends::DEPENDS);
    assert!(d.is_non_sync_sample);
    let f = SampleFlags::parse(first_sample_flags_word()).unwrap();
    assert_eq!(f.depends_on, SampleDepends::NOTDEPENDS);
    assert!(!f.is_non_sync_sample);
}
