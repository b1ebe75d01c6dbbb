//! Scenario tests for the engine's stated properties: idempotence of an
//! update, enrollment-id preservation across a record's lifetime, the
//! garbage-collection threshold, the terminal `Error` status, the store
//! invariant, and the identifier text form.

use nimbus::enrollment::PREVIOUS_ENROLLMENTS_GC_TIME;
use nimbus::{
    get_enrollments, now_secs, opt_in_with_branch, opt_out, set_global_user_participation,
    AppContext, AvailableRandomizationUnits, Branch, BucketConfig, Database, DisqualifiedReason,
    EnrolledReason, EnrollmentStatus, EnrollmentsEvolver, Experiment, ExperimentEnrollment,
    NimbusError, RandomizationUnit, Uuid,
};

fn make_experiment(slug: &str) -> Experiment {
    Experiment {
        slug: slug.to_string(),
        application: "fenix".to_string(),
        branches: vec![
            Branch { slug: "control".to_string(), ratio: 1 },
            Branch { slug: "treatment".to_string(), ratio: 1 },
        ],
        bucket_config: BucketConfig {
            randomization_unit: RandomizationUnit::NimbusId,
            namespace: slug.to_string(),
            start: 0,
            count: 10_000,
            total: 10_000,
        },
        is_enrollment_paused: false,
        user_facing_name: "A test experiment".to_string(),
        user_facing_description: "A test experiment.".to_string(),
    }
}

fn local_ctx() -> (Uuid, AppContext, AvailableRandomizationUnits) {
    let nimbus_id = Uuid::from_u128(0x29686b11_00c0_4905_b5e4_f5f945eda60a);
    let app_ctx = AppContext { app_id: "fenix".to_string() };
    let aru = AvailableRandomizationUnits::default();
    (nimbus_id, app_ctx, aru)
}

#[test]
fn test_uuid_hyphenated_text() {
    let id = Uuid::from_u128(0x29686b11_00c0_4905_b5e4_f5f945eda60a);
    assert_eq!(id.hyphenated(), "29686b11-00c0-4905-b5e4-f5f945eda60a");
    let zero = Uuid::from_u128(0);
    assert_eq!(zero.hyphenated(), "00000000-0000-0000-0000-000000000000");
    let max = Uuid::from_u128(u128::MAX);
    assert_eq!(max.hyphenated(), "ffffffff-ffff-ffff-ffff-ffffffffffff");
}

#[test]
fn test_error_messages() {
    let e = NimbusError::NoSuchExperiment("secure-gold".to_string());
    assert_eq!(e.message(), "no such experiment: secure-gold");
    let e = NimbusError::NoSuchBranch("bobo".to_string(), "secure-gold".to_string());
    assert_eq!(e.message(), "no such branch: bobo in experiment secure-gold");
}

#[test]
fn test_opt_in_unknown_experiment() {
    let mut db = Database::new();
    let res = opt_in_with_branch(&mut db, "secure-gold", "control");
    assert!(matches!(res, Err(NimbusError::NoSuchExperiment(_))));
}

#[test]
fn test_opt_out_unknown_experiment() {
    let mut db = Database::new();
    let res = opt_out(&mut db, "secure-gold");
    assert!(matches!(res, Err(NimbusError::NoSuchExperiment(_))));
}

/// Evolving twice with the same experiments and the same clock sample keeps
/// the stored records identical and emits nothing the second time.
#[test]
fn test_evolve_is_idempotent() -> Result<(), NimbusError> {
    let mut db = Database::new();
    let (nimbus_id, app_ctx, aru) = local_ctx();
    let exps = vec![make_experiment("secure-gold"), make_experiment("secure-silver")];
    let now = now_secs();
    let evolver = EnrollmentsEvolver::new(&nimbus_id, &aru, &app_ctx, now);
    let events1 = evolver.evolve_enrollments_in_db(&mut db, &exps)?;
    assert_eq!(events1.len(), 2);
    let state1 = db.collect_enrollments();
    let events2 = evolver.evolve_enrollments_in_db(&mut db, &exps)?;
    assert!(events2.is_empty());
    let state2 = db.collect_enrollments();
    assert_eq!(state1, state2);
    Ok(())
}

/// The enrollment id is assigned once and preserved through
/// disqualification and unenrollment.
#[test]
fn test_enrollment_id_is_preserved() -> Result<(), NimbusError> {
    let mut db = Database::new();
    let (nimbus_id, app_ctx, aru) = local_ctx();
    let exps = vec![make_experiment("secure-gold")];
    let evolver = EnrollmentsEvolver::new(&nimbus_id, &aru, &app_ctx, now_secs());
    evolver.evolve_enrollments_in_db(&mut db, &exps)?;
    let id0 = match db.get_enrollment("secure-gold").unwrap().status {
        EnrollmentStatus::Enrolled { enrollment_id, .. } => enrollment_id,
        _ => panic!("expected an enrolled record"),
    };

    // Global opt-out disqualifies but keeps the id.
    set_global_user_participation(&mut db, false);
    let evolver = EnrollmentsEvolver::new(&nimbus_id, &aru, &app_ctx, now_secs());
    evolver.evolve_enrollments_in_db(&mut db, &exps)?;
    match db.get_enrollment("secure-gold").unwrap().status {
        EnrollmentStatus::Disqualified { enrollment_id, reason, .. } => {
            assert_eq!(enrollment_id, id0);
            assert_eq!(reason, DisqualifiedReason::OptOut);
        },
        _ => panic!("expected a disqualified record"),
    }

    // The experiment ends: the id survives in the historic record.
    let evolver = EnrollmentsEvolver::new(&nimbus_id, &aru, &app_ctx, now_secs());
    evolver.evolve_enrollments_in_db(&mut db, &[])?;
    match db.get_enrollment("secure-gold").unwrap().status {
        EnrollmentStatus::WasEnrolled { enrollment_id, .. } => {
            assert_eq!(enrollment_id, id0);
        },
        _ => panic!("expected a historic record"),
    }
    Ok(())
}

/// A `WasEnrolled` record is kept until exactly the threshold, and deleted
/// from it on.
#[test]
fn test_gc_threshold_boundary() -> Result<(), NimbusError> {
    let (nimbus_id, app_ctx, aru) = local_ctx();
    let now = now_secs();
    let record = |ended_at: u64| ExperimentEnrollment {
        slug: "secure-gold".to_string(),
        status: EnrollmentStatus::WasEnrolled {
            enrollment_id: Uuid::from_u128(7),
            branch: "control".to_string(),
            experiment_ended_at: ended_at,
        },
    };
    let evolver = EnrollmentsEvolver::new(&nimbus_id, &aru, &app_ctx, now);
    // One second inside the window: kept.
    let kept = evolver.evolve_enrollment(
        true,
        None,
        None,
        Some(&record(now - PREVIOUS_ENROLLMENTS_GC_TIME + 1)),
        &mut vec![],
    )?;
    assert!(kept.is_some());
    // Exactly at the threshold: deleted.
    let dropped = evolver.evolve_enrollment(
        true,
        None,
        None,
        Some(&record(now - PREVIOUS_ENROLLMENTS_GC_TIME)),
        &mut vec![],
    )?;
    assert!(dropped.is_none());
    Ok(())
}

/// No sequence of updates moves an `Error` record to another status.
#[test]
fn test_error_status_is_terminal() -> Result<(), NimbusError> {
    let (nimbus_id, app_ctx, aru) = local_ctx();
    let exp = make_experiment("secure-gold");
    let error_record = ExperimentEnrollment {
        slug: "secure-gold".to_string(),
        status: EnrollmentStatus::Error { reason: "heh".to_string() },
    };
    let evolver = EnrollmentsEvolver::new(&nimbus_id, &aru, &app_ctx, now_secs());
    let mut events = vec![];
    // Updates, participation flips and explicit opt-outs leave it alone.
    let after_update = evolver
        .evolve_enrollment(true, Some(&exp), Some(&exp), Some(&error_record), &mut events)?
        .unwrap();
    assert_eq!(after_update, error_record);
    let after_opt_out_flip = evolver
        .evolve_enrollment(false, Some(&exp), Some(&exp), Some(&error_record), &mut events)?
        .unwrap();
    assert_eq!(after_opt_out_flip, error_record);
    let after_explicit = error_record.on_explicit_opt_out(&mut events);
    assert_eq!(after_explicit, error_record);
    assert!(events.is_empty());
    // When its experiment vanishes the record is deleted, not transformed.
    let after_ended =
        evolver.evolve_enrollment(true, Some(&exp), None, Some(&error_record), &mut events)?;
    assert!(after_ended.is_none());
    assert!(events.is_empty());
    Ok(())
}

/// After every update, each stored experiment has an enrollment record.
#[test]
fn test_every_experiment_has_an_enrollment() -> Result<(), NimbusError> {
    let mut db = Database::new();
    let (nimbus_id, app_ctx, aru) = local_ctx();
    let exps = vec![make_experiment("secure-gold"), make_experiment("secure-silver")];
    let evolver = EnrollmentsEvolver::new(&nimbus_id, &aru, &app_ctx, now_secs());
    evolver.evolve_enrollments_in_db(&mut db, &exps)?;
    for exp in &exps {
        assert!(db.get_enrollment(exp.slug.as_str()).is_some());
    }
    // Even after a global opt-out, the records remain present.
    set_global_user_participation(&mut db, false);
    let evolver = EnrollmentsEvolver::new(&nimbus_id, &aru, &app_ctx, now_secs());
    evolver.evolve_enrollments_in_db(&mut db, &exps)?;
    for exp in &exps {
        assert!(db.get_enrollment(exp.slug.as_str()).is_some());
    }
    Ok(())
}

/// An experiment bucketed on the client id errors on a new slug when no
/// client id is available, and enrolls when one is.
#[test]
fn test_missing_randomization_unit() -> Result<(), NimbusError> {
    let (nimbus_id, app_ctx, aru) = local_ctx();
    let mut exp = make_experiment("secure-gold");
    exp.bucket_config.randomization_unit = RandomizationUnit::ClientId;
    let evolver = EnrollmentsEvolver::new(&nimbus_id, &aru, &app_ctx, now_secs());
    let mut events = vec![];
    // New slug: the evaluator error is reflected in the record, no event.
    let enrollment = evolver
        .evolve_enrollment(true, None, Some(&exp), None, &mut events)?
        .unwrap();
    assert!(matches!(enrollment.status, EnrollmentStatus::Error { .. }));
    assert!(events.is_empty());
    // Already enrolled: the evaluator error disqualifies, with an event.
    let enrolled = ExperimentEnrollment {
        slug: exp.slug.clone(),
        status: EnrollmentStatus::Enrolled {
            enrollment_id: Uuid::from_u128(9),
            branch: "control".to_string(),
            reason: EnrolledReason::Qualified,
        },
    };
    let disqualified = evolver
        .evolve_enrollment(true, Some(&exp), Some(&exp), Some(&enrolled), &mut events)?
        .unwrap();
    assert!(matches!(
        disqualified.status,
        EnrollmentStatus::Disqualified { reason: DisqualifiedReason::Error, .. }
    ));
    assert_eq!(events.len(), 1);
    assert_eq!(events[0].reason, Some("error".to_string()));
    // With a client id available, the same experiment enrolls.
    let with_id = AvailableRandomizationUnits { client_id: Some("client-17".to_string()) };
    let evolver = EnrollmentsEvolver::new(&nimbus_id, &with_id, &app_ctx, now_secs());
    let mut events = vec![];
    let enrollment = evolver
        .evolve_enrollment(true, None, Some(&exp), None, &mut events)?
        .unwrap();
    assert!(matches!(enrollment.status, EnrollmentStatus::Enrolled { .. }));
    Ok(())
}

/// Branch assignment follows the ratios: a zero-ratio branch is never
/// assigned, and with no weight at all the verdict is an error.
#[test]
fn test_branch_ratios() -> Result<(), NimbusError> {
    let (nimbus_id, app_ctx, aru) = local_ctx();
    let mut exp = make_experiment("secure-gold");
    exp.branches = vec![
        Branch { slug: "control".to_string(), ratio: 0 },
        Branch { slug: "treatment".to_string(), ratio: 1 },
    ];
    let evolver = EnrollmentsEvolver::new(&nimbus_id, &aru, &app_ctx, now_secs());
    let mut events = vec![];
    let enrollment = evolver
        .evolve_enrollment(true, None, Some(&exp), None, &mut events)?
        .unwrap();
    match enrollment.status {
        EnrollmentStatus::Enrolled { branch, .. } => assert_eq!(branch, "treatment"),
        _ => panic!("expected an enrolled record"),
    }
    // No branch carries any weight: the evaluator reports an error.
    exp.branches = vec![];
    let mut events = vec![];
    let enrollment = evolver
        .evolve_enrollment(true, None, Some(&exp), None, &mut events)?
        .unwrap();
    assert!(matches!(enrollment.status, EnrollmentStatus::Error { .. }));
    assert!(events.is_empty());
    Ok(())
}

/// A freshly created store has no enrollments and participation defaults to
/// on.
#[test]
fn test_new_database_defaults() {
    let db = Database::new();
    assert!(get_enrollments(&db).is_empty());
    assert!(nimbus::get_global_user_participation(&db));
}

/// Opting in with a valid branch enrolls with reason `OptIn` and reports
/// the branch in the event.
#[test]
fn test_opt_in_event_fields() -> Result<(), NimbusError> {
    let mut db = Database::new();
    let (nimbus_id, app_ctx, aru) = local_ctx();
    let exps = vec![make_experiment("secure-gold")];
    let evolver = EnrollmentsEvolver::new(&nimbus_id, &aru, &app_ctx, now_secs());
    evolver.evolve_enrollments_in_db(&mut db, &exps)?;
    let events = opt_in_with_branch(&mut db, "secure-gold", "control")?;
    assert_eq!(events.len(), 1);
    assert_eq!(events[0].experiment_slug, "secure-gold");
    assert_eq!(events[0].branch_slug, "control");
    assert_eq!(events[0].reason, None);
    let ee = db.get_enrollment("secure-gold").unwrap();
    match ee.status {
        EnrollmentStatus::Enrolled { reason, enrollment_id, branch } => {
            assert_eq!(reason, EnrolledReason::OptIn);
            assert_eq!(branch, "control");
            assert_eq!(events[0].enrollment_id, enrollment_id.hyphenated());
        },
        _ => panic!("expected an enrolled record"),
    }
    Ok(())
}
