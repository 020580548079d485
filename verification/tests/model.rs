use ai_planner::model::{DecisionStatus, LogKind, Renders, Status};

#[test]
fn status_accepts_what_agents_actually_type() {
    assert_eq!(Status::parse("DONE").unwrap(), Status::Done);
    assert_eq!(Status::parse("in progress").unwrap(), Status::Active);
    assert_eq!(Status::parse("in-review").unwrap(), Status::InReview);
    assert_eq!(Status::parse("delivered").unwrap(), Status::Done);
    assert_eq!(Status::parse("optional").unwrap(), Status::Deferred);
    assert!(Status::parse("nearly").is_err());
}

#[test]
fn incomplete_covers_started_and_not_started_but_not_terminal() {
    for s in Status::INCOMPLETE {
        assert!(!s.is_terminal(), "{} should not be terminal", s.as_str());
    }
    assert!(!Status::INCOMPLETE.contains(&Status::Draft));
    assert!(!Status::INCOMPLETE.contains(&Status::Done));
    assert!(!Status::INCOMPLETE.contains(&Status::Deferred));
}

#[test]
fn every_status_reads_back_as_itself() {
    for s in Status::ALL {
        assert_eq!(Status::parse(s.as_str()).unwrap(), s);
    }
}

#[test]
fn an_unknown_status_names_the_vocabulary() {
    match Status::parse("nearly") {
        Err(ai_planner::error::Error::Invalid(m)) => assert_eq!(
            m,
            "unknown status \"nearly\" - use one of: draft, ready, active, in_review, blocked, done, deferred"
        ),
        other => panic!("expected an invalid-input error, got {other:?}"),
    }
}

#[test]
fn the_other_vocabularies_read_back_as_themselves() {
    for d in [
        DecisionStatus::Proposed,
        DecisionStatus::Agreed,
        DecisionStatus::Superseded,
        DecisionStatus::Rejected,
    ] {
        assert_eq!(DecisionStatus::parse(d.as_str()).unwrap(), d);
    }
    for r in [
        Renders::Body,
        Renders::Sources,
        Renders::Decisions,
        Renders::Slices,
        Renders::Questions,
        Renders::Gotchas,
        Renders::Log,
    ] {
        assert_eq!(Renders::parse(r.as_str()).unwrap(), r);
    }
    for k in [
        LogKind::Progress,
        LogKind::Status,
        LogKind::Decision,
        LogKind::Gotcha,
        LogKind::Verification,
        LogKind::Blocker,
        LogKind::Handoff,
    ] {
        assert_eq!(LogKind::parse(k.as_str()).unwrap(), k);
    }
    assert_eq!(DecisionStatus::parse(" Accepted ").unwrap(), DecisionStatus::Agreed);
    assert_eq!(Renders::parse("").unwrap(), Renders::Body);
    assert_eq!(LogKind::parse("blocked").unwrap(), LogKind::Blocker);
    assert!(LogKind::parse("chatter").is_err());
}

#[test]
fn markers_match_the_statuses() {
    assert_eq!(Status::Done.marker(), "✔");
    assert_eq!(Status::Blocked.marker(), "⛔");
}
