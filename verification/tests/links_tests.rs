use rustyproject::links::{
    parse_dependency_lag, parse_dependency_link, parse_dependency_links, predecessor_type_code,
    DependencyRelation, LinkError,
};

#[test]
fn bare_number_is_finish_to_start_without_lag() {
    let link = parse_dependency_link("12").expect("link");
    assert_eq!(link.predecessor, 12);
    assert_eq!(link.relation, DependencyRelation::Fs);
    assert!(link.lag.is_none());
}

#[test]
fn relation_and_lag_are_read() {
    let link = parse_dependency_link("7SS+2d").expect("link");
    assert_eq!(link.predecessor, 7);
    assert_eq!(link.relation, DependencyRelation::Ss);
    let lag = link.lag.expect("lag");
    assert!(!lag.negative);
    assert_eq!(lag.amount, "2");
    assert_eq!(lag.unit_millis, 86_400_000);

    let link = parse_dependency_link("3 FF -4.5 hours").expect("link");
    assert_eq!(link.relation, DependencyRelation::Ff);
    let lag = link.lag.expect("lag");
    assert!(lag.negative);
    assert_eq!(lag.amount, "4.5");
    assert_eq!(lag.unit_millis, 3_600_000);

    let link = parse_dependency_link("5SF").expect("link");
    assert_eq!(link.relation, DependencyRelation::Sf);
    assert!(link.lag.is_none());
}

#[test]
fn lag_units() {
    assert_eq!(parse_dependency_lag("10ms").expect("lag").unit_millis, 1);
    assert_eq!(parse_dependency_lag("10 s").expect("lag").unit_millis, 1_000);
    assert_eq!(parse_dependency_lag("10min").expect("lag").unit_millis, 60_000);
    assert_eq!(parse_dependency_lag("1H").expect("lag").unit_millis, 3_600_000);
    assert_eq!(parse_dependency_lag(" .5d ").expect("lag").amount, ".5");
}

#[test]
fn each_link_error() {
    assert!(matches!(
        parse_dependency_link("FS3"),
        Err(LinkError::MissingPredecessor(t)) if t == "FS3"
    ));
    assert!(matches!(
        parse_dependency_link("99999999999999999999999"),
        Err(LinkError::PredecessorTooLarge(_))
    ));
    assert!(matches!(
        parse_dependency_link("4XY"),
        Err(LinkError::UnknownRelation(t)) if t == "4XY"
    ));
    assert!(matches!(
        parse_dependency_lag("1.2.3d"),
        Err(LinkError::InvalidLagValue(_))
    ));
    assert!(matches!(
        parse_dependency_lag("d"),
        Err(LinkError::InvalidLagValue(_))
    ));
    assert!(matches!(
        parse_dependency_lag("3 weeks"),
        Err(LinkError::InvalidLagUnit(t)) if t == "3 weeks"
    ));
    assert!(matches!(
        parse_dependency_lag("3"),
        Err(LinkError::InvalidLagUnit(_))
    ));
}

#[test]
fn link_lists_skip_blank_pieces_and_stop_at_the_first_error() {
    assert!(parse_dependency_links("   ").expect("blank").is_empty());
    let links = parse_dependency_links("3, 7FS+1d; ;9SS").expect("links");
    assert_eq!(
        links.iter().map(|l| l.predecessor).collect::<Vec<_>>(),
        vec![3, 7, 9]
    );
    assert!(matches!(
        parse_dependency_links("3, x, 4QQ"),
        Err(LinkError::MissingPredecessor(t)) if t == "x"
    ));
}

#[test]
fn mspdi_relation_codes() {
    assert_eq!(predecessor_type_code(DependencyRelation::Ff), 0);
    assert_eq!(predecessor_type_code(DependencyRelation::Fs), 1);
    assert_eq!(predecessor_type_code(DependencyRelation::Sf), 2);
    assert_eq!(predecessor_type_code(DependencyRelation::Ss), 3);
}
