//! Tests of the persistence driver: evolving enrollments inside the store,
//! the opt-in/opt-out API, and the global participation flag.

use nimbus::{
    get_enrollments, now_secs, opt_in_with_branch, opt_out, set_global_user_participation,
    AppContext, AvailableRandomizationUnits, Branch, BucketConfig, Database, DisqualifiedReason,
    EnrolledReason, EnrollmentChangeEventType, EnrollmentStatus, EnrollmentsEvolver, Experiment,
    ExperimentEnrollment, NimbusError, NotEnrolledReason, RandomizationUnit, Uuid,
};

fn make_experiment(slug: &str, name: &str, desc: &str) -> Experiment {
    Experiment {
        slug: slug.to_string(),
        application: "fenix".to_string(),
        branches: vec![
            Branch { slug: "control".to_string(), ratio: 1 },
            Branch { slug: "treatment".to_string(), ratio: 1 },
        ],
        bucket_config: BucketConfig {
            randomization_unit: RandomizationUnit::NimbusId,
            namespace: slug.to_string(),
            start: 0,
            count: 10_000,
            total: 10_000,
        },
        is_enrollment_paused: false,
        user_facing_name: name.to_string(),
        user_facing_description: desc.to_string(),
    }
}

fn get_test_experiments() -> Vec<Experiment> {
    vec![
        make_experiment(
            "secure-gold",
            "Diagnostic test experiment",
            "This is a test experiment for diagnostic purposes.",
        ),
        make_experiment("secure-silver", "2nd test experiment", "2nd test experiment."),
    ]
}

fn get_experiment_enrollments(db: &Database) -> Vec<ExperimentEnrollment> {
    db.collect_enrollments()
}

#[test]
fn test_enrollments() -> Result<(), NimbusError> {
    let mut db = Database::new();
    let exp1 = get_test_experiments()[0].clone();
    let nimbus_id = Uuid::new_v4();
    let aru = AvailableRandomizationUnits::default();
    let app_ctx = AppContext { app_id: "fenix".to_string() };
    assert_eq!(get_enrollments(&db).len(), 0);

    let evolver = EnrollmentsEvolver::new(&nimbus_id, &aru, &app_ctx, now_secs());
    let events = evolver.evolve_enrollments_in_db(&mut db, &[exp1])?;

    let enrollments = get_enrollments(&db);
    assert_eq!(enrollments.len(), 1);
    let enrollment = &enrollments[0];
    assert_eq!(enrollment.slug, "secure-gold");
    assert_eq!(enrollment.user_facing_name, "Diagnostic test experiment");
    assert_eq!(
        enrollment.user_facing_description,
        "This is a test experiment for diagnostic purposes."
    );
    assert!(enrollment.branch_slug == "control" || enrollment.branch_slug == "treatment");
    // Ensure the event was created too.
    assert_eq!(events.len(), 1);
    let event = &events[0];
    assert_eq!(event.experiment_slug, "secure-gold");
    assert!(event.branch_slug == "control" || event.branch_slug == "treatment");
    assert!(matches!(event.change, EnrollmentChangeEventType::Enrollment));

    // Get the ExperimentEnrollment from the store.
    let ee = db.get_enrollment("secure-gold").expect("should exist");
    assert!(matches!(
        ee.status,
        EnrollmentStatus::Enrolled { reason: EnrolledReason::Qualified, .. }
    ));

    // Now opt-out.
    opt_out(&mut db, "secure-gold")?;
    assert_eq!(get_enrollments(&db).len(), 0);
    // Check we recorded the "why" correctly.
    let ee = db.get_enrollment("secure-gold").expect("should exist");
    assert!(matches!(
        ee.status,
        EnrollmentStatus::Disqualified { reason: DisqualifiedReason::OptOut, .. }
    ));

    // Opt in to a specific branch.
    opt_in_with_branch(&mut db, "secure-gold", "treatment")?;
    let enrollments = get_enrollments(&db);
    assert_eq!(enrollments.len(), 1);
    let enrollment = &enrollments[0];
    assert_eq!(enrollment.slug, "secure-gold");
    assert!(enrollment.branch_slug == "treatment");
    Ok(())
}

#[test]
fn test_updates() -> Result<(), NimbusError> {
    let mut db = Database::new();
    let nimbus_id = Uuid::new_v4();
    let aru = AvailableRandomizationUnits::default();
    let app_ctx = AppContext { app_id: "fenix".to_string() };
    assert_eq!(get_enrollments(&db).len(), 0);
    let exps = get_test_experiments();

    let evolver = EnrollmentsEvolver::new(&nimbus_id, &aru, &app_ctx, now_secs());
    let events = evolver.evolve_enrollments_in_db(&mut db, &exps)?;

    let enrollments = get_enrollments(&db);
    assert_eq!(enrollments.len(), 2);
    assert_eq!(events.len(), 2);

    // Pretend we just updated from the server and one of the 2 is missing.
    let exps = &[exps[1].clone()];
    let evolver = EnrollmentsEvolver::new(&nimbus_id, &aru, &app_ctx, now_secs());
    let events = evolver.evolve_enrollments_in_db(&mut db, exps)?;

    // Should only have 1 now.
    let enrollments = get_enrollments(&db);
    assert_eq!(enrollments.len(), 1);
    // Check that the un-enrolled event was emitted.
    assert_eq!(events.len(), 1);
    let event = &events[0];
    assert_eq!(event.experiment_slug, "secure-gold");
    assert!(matches!(event.change, EnrollmentChangeEventType::Unenrollment));
    Ok(())
}

#[test]
fn test_global_opt_out() -> Result<(), NimbusError> {
    let mut db = Database::new();
    let nimbus_id = Uuid::new_v4();
    let app_ctx = AppContext { app_id: "fenix".to_string() };
    let aru = AvailableRandomizationUnits::default();
    assert_eq!(get_enrollments(&db).len(), 0);
    let exps = get_test_experiments();

    // User has opted out of new experiments.
    set_global_user_participation(&mut db, false);

    let evolver = EnrollmentsEvolver::new(&nimbus_id, &aru, &app_ctx, now_secs());
    let events = evolver.evolve_enrollments_in_db(&mut db, &exps)?;

    let enrollments = get_enrollments(&db);
    assert_eq!(enrollments.len(), 0);
    assert!(events.is_empty());
    // We should see the experiment non-enrollments.
    assert_eq!(get_experiment_enrollments(&db).len(), 2);
    let not_enrolled_enrollments: Vec<ExperimentEnrollment> = get_experiment_enrollments(&db)
        .into_iter()
        .filter(|enr| {
            matches!(
                enr.status,
                EnrollmentStatus::NotEnrolled { reason: NotEnrolledReason::OptOut }
            )
        })
        .collect();
    assert_eq!(not_enrolled_enrollments.len(), 2);

    // User opts in, and updating should enroll us in 2 experiments.
    set_global_user_participation(&mut db, true);

    let evolver = EnrollmentsEvolver::new(&nimbus_id, &aru, &app_ctx, now_secs());
    let events = evolver.evolve_enrollments_in_db(&mut db, &exps)?;

    let enrollments = get_enrollments(&db);
    assert_eq!(enrollments.len(), 2);
    assert_eq!(events.len(), 2);
    // We should see 2 experiment enrollments.
    assert_eq!(get_experiment_enrollments(&db).len(), 2);
    let enrolled_enrollments: Vec<ExperimentEnrollment> = get_experiment_enrollments(&db)
        .into_iter()
        .filter(|enr| matches!(enr.status, EnrollmentStatus::Enrolled { .. }))
        .collect();
    assert_eq!(enrolled_enrollments.len(), 2);

    // Opting out and updating should give us two disqualified enrollments.
    set_global_user_participation(&mut db, false);

    let evolver = EnrollmentsEvolver::new(&nimbus_id, &aru, &app_ctx, now_secs());
    let events = evolver.evolve_enrollments_in_db(&mut db, &exps)?;

    let enrollments = get_enrollments(&db);
    assert_eq!(enrollments.len(), 0);
    assert_eq!(events.len(), 2);
    // We should see 2 experiment enrollments, this time both opt-outs.
    assert_eq!(get_experiment_enrollments(&db).len(), 2);
    let disqualified_enrollments: Vec<ExperimentEnrollment> = get_experiment_enrollments(&db)
        .into_iter()
        .filter(|enr| {
            matches!(
                enr.status,
                EnrollmentStatus::Disqualified { reason: DisqualifiedReason::OptOut, .. }
            )
        })
        .collect();
    assert_eq!(disqualified_enrollments.len(), 2);

    // Opting in again and updating SHOULD NOT enroll us again (we've been
    // disqualified).
    set_global_user_participation(&mut db, true);

    let evolver = EnrollmentsEvolver::new(&nimbus_id, &aru, &app_ctx, now_secs());
    let events = evolver.evolve_enrollments_in_db(&mut db, &exps)?;

    let enrollments = get_enrollments(&db);
    assert_eq!(enrollments.len(), 0);
    assert!(events.is_empty());
    let disqualified_enrollments: Vec<ExperimentEnrollment> = get_experiment_enrollments(&db)
        .into_iter()
        .filter(|enr| {
            matches!(
                enr.status,
                EnrollmentStatus::Disqualified { reason: DisqualifiedReason::OptOut, .. }
            )
        })
        .collect();
    assert_eq!(disqualified_enrollments.len(), 2);
    Ok(())
}
