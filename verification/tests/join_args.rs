use columnar_core::join::JoinValidation::{ManyToMany, ManyToOne, OneToMany, OneToOne};
use columnar_core::join::{
    AsOfOptions, AsofStrategy, CrossJoinOptions, JoinArgs, JoinCoalesce, JoinError, JoinType,
    JoinTypeOptions, JoinValidation, MaintainOrderJoin,
};

fn all_kinds() -> Vec<JoinType> {
    vec![
        JoinType::Inner,
        JoinType::Left,
        JoinType::Right,
        JoinType::Full,
        JoinType::AsOf(Box::new(AsOfOptions {
            strategy: AsofStrategy::Backward,
            allow_eq: true,
            check_sortedness: true,
        })),
        JoinType::Semi,
        JoinType::Anti,
        JoinType::IEJoin,
        JoinType::Cross,
    ]
}

#[test]
fn new_args_defaults() {
    let args = JoinArgs::new(JoinType::Left);
    assert!(args.how.is_equi());
    assert_eq!(args.validation, JoinValidation::ManyToMany);
    assert!(args.suffix.is_none());
    assert!(args.slice.is_none());
    assert!(!args.nulls_equal);
    assert_eq!(args.coalesce, JoinCoalesce::JoinSpecific);
    assert_eq!(args.maintain_order, MaintainOrderJoin::NoOrder);
}

#[test]
fn args_from_kind() {
    let args = JoinArgs::from(JoinType::Cross);
    assert!(args.how.is_cross());
    assert_eq!(args.validation, JoinValidation::ManyToMany);
}

#[test]
fn with_setters() {
    let args = JoinArgs::new(JoinType::Inner)
        .with_coalesce(JoinCoalesce::KeepColumns)
        .with_suffix(Some("_r".to_owned()));
    assert_eq!(args.coalesce, JoinCoalesce::KeepColumns);
    assert_eq!(args.suffix(), "_r".to_owned());
}

#[test]
fn suffix_default() {
    let args = JoinArgs::new(JoinType::Inner);
    assert_eq!(args.suffix(), "_right".to_owned());
}

#[test]
fn coalesce_table_exhaustive() {
    for kind in all_kinds() {
        let spec = JoinCoalesce::JoinSpecific.coalesce(&kind);
        let co = JoinCoalesce::CoalesceColumns.coalesce(&kind);
        let keep = JoinCoalesce::KeepColumns.coalesce(&kind);
        assert!(!keep, "KeepColumns must never coalesce ({:?})", kind);
        if kind.is_equi() && !matches!(kind, JoinType::Full) {
            assert!(spec && co, "Left/Inner/Right coalesce unless kept ({:?})", kind);
        } else if matches!(kind, JoinType::Full) {
            assert!(!spec && co, "Full keeps by default, coalesces on demand");
        } else if kind.is_asof() {
            assert!(spec && co, "as-of coalesces unless kept");
        } else {
            assert!(!spec && !co, "Cross/IEJoin/Semi/Anti never coalesce ({:?})", kind);
        }
    }
}

#[test]
fn should_coalesce_delegates() {
    assert!(JoinArgs::new(JoinType::Left).should_coalesce());
    assert!(!JoinArgs::new(JoinType::Full).should_coalesce());
    assert!(
        JoinArgs::new(JoinType::Full)
            .with_coalesce(JoinCoalesce::CoalesceColumns)
            .should_coalesce()
    );
    assert!(!JoinArgs::new(JoinType::Cross).should_coalesce());
    assert!(!JoinArgs::new(JoinType::Semi).should_coalesce());
    assert!(
        !JoinArgs::new(JoinType::Inner)
            .with_coalesce(JoinCoalesce::KeepColumns)
            .should_coalesce()
    );
}

#[test]
fn kind_classification() {
    for kind in all_kinds() {
        let flags = [
            kind.is_equi(),
            kind.is_semi_anti(),
            kind.is_asof(),
            kind.is_cross(),
            kind.is_ie(),
        ];
        assert_eq!(flags.iter().filter(|b| **b).count(), 1, "{:?}", kind);
    }
    assert!(JoinType::Semi.is_semi() && !JoinType::Semi.is_anti());
    assert!(JoinType::Anti.is_anti() && !JoinType::Anti.is_semi());
    assert!(!JoinType::Inner.is_semi_anti());
    assert_eq!(JoinType::Inner.describe(), "INNER");
    assert_eq!(JoinType::IEJoin.describe(), "IEJOIN");
    assert_eq!(JoinType::default().describe(), "INNER");
}

#[test]
fn flip_is_involution() {
    let all = [
        MaintainOrderJoin::NoOrder,
        MaintainOrderJoin::Left,
        MaintainOrderJoin::Right,
        MaintainOrderJoin::LeftRight,
        MaintainOrderJoin::RightLeft,
    ];
    for m in all {
        assert_eq!(m.flip().flip(), m);
    }
    assert_eq!(MaintainOrderJoin::NoOrder.flip(), MaintainOrderJoin::NoOrder);
    assert_eq!(MaintainOrderJoin::Left.flip(), MaintainOrderJoin::Right);
    assert_eq!(MaintainOrderJoin::Right.flip(), MaintainOrderJoin::Left);
    assert_eq!(MaintainOrderJoin::LeftRight.flip(), MaintainOrderJoin::RightLeft);
    assert_eq!(MaintainOrderJoin::RightLeft.flip(), MaintainOrderJoin::LeftRight);
}

#[test]
fn swap_exchanges_one_sided_modes() {
    for v in [ManyToMany, ManyToOne, OneToMany, OneToOne] {
        assert_eq!(v.swap(false), v);
        assert_eq!(v.swap(true).swap(true), v);
    }
    assert_eq!(ManyToOne.swap(true), OneToMany);
    assert_eq!(OneToMany.swap(true), ManyToOne);
    assert_eq!(ManyToMany.swap(true), ManyToMany);
    assert_eq!(OneToOne.swap(true), OneToOne);
}

#[test]
fn needs_checks_only_off_for_many_to_many() {
    assert!(!JoinValidation::ManyToMany.needs_checks());
    assert!(JoinValidation::ManyToOne.needs_checks());
    assert!(JoinValidation::OneToMany.needs_checks());
    assert!(JoinValidation::OneToOne.needs_checks());
    assert_eq!(JoinValidation::default(), JoinValidation::ManyToMany);
}

#[test]
fn validation_allowed_only_on_inner_full_left() {
    for kind in all_kinds() {
        let r = JoinValidation::OneToOne.is_valid_join(&kind);
        let allowed = matches!(kind, JoinType::Inner | JoinType::Full | JoinType::Left);
        assert_eq!(r.is_ok(), allowed, "{:?}", kind);
        if let Err(JoinError::InvalidValidation { validation, join_type }) = r {
            assert_eq!(validation, JoinValidation::OneToOne);
            assert_eq!(join_type.describe(), kind.describe());
        }
        assert!(JoinValidation::ManyToMany.is_valid_join(&kind).is_ok());
    }
    assert_eq!(JoinValidation::ManyToMany.describe(), "m:m");
    assert_eq!(JoinValidation::ManyToOne.describe(), "m:1");
    assert_eq!(JoinValidation::OneToMany.describe(), "1:m");
    assert_eq!(JoinValidation::OneToOne.describe(), "1:1");
}

#[test]
fn validate_build_checks_build_side_modes() {
    assert!(ManyToMany.validate_build(5, 3, false).is_ok());
    assert!(OneToMany.validate_build(5, 3, false).is_ok());
    assert!(ManyToOne.validate_build(3, 3, false).is_ok());
    assert!(ManyToOne.validate_build(5, 3, false).is_err());
    assert!(OneToOne.validate_build(5, 3, false).is_err());
    // After a swap the one-sided modes trade places.
    assert!(ManyToOne.validate_build(5, 3, true).is_ok());
    assert!(OneToMany.validate_build(5, 3, true).is_err());
    assert!(OneToOne.validate_build(5, 3, true).is_err());
    match OneToOne.validate_build(5, 3, false) {
        Err(JoinError::KeysNotUnique { validation }) => {
            assert_eq!(validation, OneToOne)
        },
        other => panic!("expected a validation error, got {:?}", other),
    }
}

#[test]
fn cross_join_options_identity() {
    let a = CrossJoinOptions { predicate: 0x1000 };
    let b = CrossJoinOptions { predicate: 0x1000 };
    let c = CrossJoinOptions { predicate: 0x2000 };
    assert_eq!(a, b);
    assert_eq!(a.identity_hash(), b.identity_hash());
    assert!(a != c);
    assert_ne!(a.identity_hash(), c.identity_hash());
    assert_eq!(a.as_ptr_ref(), 0x1000);
    let opts = JoinTypeOptions::Cross(a.clone());
    match opts {
        JoinTypeOptions::Cross(inner) => assert_eq!(inner, a),
        _ => panic!("wrong options variant"),
    }
}
