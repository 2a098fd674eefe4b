use badge_leds::bio::pattern::{next, prev, PatternKind, Programs, PATTERN_ORDER};

#[test]
fn order_is_walked_forward() {
    assert_eq!(next(PatternKind::Police), PatternKind::Rainbow);
    assert_eq!(next(PatternKind::Rainbow), PatternKind::Cylon);
    assert_eq!(next(PatternKind::Cylon), PatternKind::Breathing);
    assert_eq!(next(PatternKind::Breathing), PatternKind::BrRunner);
    assert_eq!(next(PatternKind::BrRunner), PatternKind::Police);
}

#[test]
fn order_is_walked_backward() {
    assert_eq!(prev(PatternKind::Police), PatternKind::BrRunner);
    assert_eq!(prev(PatternKind::Rainbow), PatternKind::Police);
    assert_eq!(prev(PatternKind::Cylon), PatternKind::Rainbow);
    assert_eq!(prev(PatternKind::Breathing), PatternKind::Cylon);
    assert_eq!(prev(PatternKind::BrRunner), PatternKind::Breathing);
}

#[test]
fn next_and_prev_undo_each_other() {
    for p in PATTERN_ORDER {
        assert_eq!(prev(next(p)), p);
        assert_eq!(next(prev(p)), p);
        assert_ne!(next(p), p);
        assert_ne!(prev(p), p);
    }
}

#[test]
fn next_reaches_every_pattern_and_comes_back() {
    for p in PATTERN_ORDER {
        let mut seen = vec![p];
        let mut q = next(p);
        while q != p {
            assert!(!seen.contains(&q));
            seen.push(q);
            q = next(q);
        }
        assert_eq!(seen.len(), PATTERN_ORDER.len());
    }
}

#[test]
fn numbers_stand_for_patterns() {
    assert_eq!(PatternKind::from_u32(0), Some(PatternKind::Police));
    assert_eq!(PatternKind::from_u32(1), Some(PatternKind::Rainbow));
    assert_eq!(PatternKind::from_u32(2), Some(PatternKind::Cylon));
    assert_eq!(PatternKind::from_u32(3), Some(PatternKind::Breathing));
    assert_eq!(PatternKind::from_u32(4), Some(PatternKind::BrRunner));
    assert_eq!(PatternKind::from_u32(5), None);
    assert_eq!(PatternKind::from_u32(u32::MAX), None);
    for (i, p) in PATTERN_ORDER.iter().enumerate() {
        assert_eq!(p.as_u32(), i as u32);
        assert_eq!(PatternKind::from_u32(p.as_u32()), Some(*p));
    }
}

#[test]
fn each_pattern_has_its_program() {
    let programs = Programs {
        police: "police",
        rainbow: "rainbow",
        cylon: "cylon",
        breathing: "breathing",
        br_runner: "br_runner",
    };
    assert_eq!(*programs.bio_code(PatternKind::Police), "police");
    assert_eq!(*programs.bio_code(PatternKind::Rainbow), "rainbow");
    assert_eq!(*programs.bio_code(PatternKind::Cylon), "cylon");
    assert_eq!(*programs.bio_code(PatternKind::Breathing), "breathing");
    assert_eq!(*programs.bio_code(PatternKind::BrRunner), "br_runner");
}
