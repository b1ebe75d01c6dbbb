//! Tests of the per-slug enrollment evolution: new experiments, updates,
//! ended experiments, and garbage collection.

use nimbus::enrollment::PREVIOUS_ENROLLMENTS_GC_TIME;
use nimbus::{
    now_secs, AppContext, AvailableRandomizationUnits, Branch, BucketConfig, DisqualifiedReason,
    EnrolledReason, EnrollmentChangeEventType, EnrollmentStatus, EnrollmentsEvolver, Experiment,
    ExperimentEnrollment, NimbusError, NotEnrolledReason, RandomizationUnit, Uuid,
};

fn make_experiment(slug: &str, name: &str, desc: &str) -> Experiment {
    Experiment {
        slug: slug.to_string(),
        application: "fenix".to_string(),
        branches: vec![
            Branch { slug: "control".to_string(), ratio: 1 },
            Branch { slug: "treatment".to_string(), ratio: 1 },
        ],
        bucket_config: BucketConfig {
            randomization_unit: RandomizationUnit::NimbusId,
            namespace: slug.to_string(),
            start: 0,
            // Set up to enroll everyone by default.
            count: 10_000,
            total: 10_000,
        },
        is_enrollment_paused: false,
        user_facing_name: name.to_string(),
        user_facing_description: desc.to_string(),
    }
}

fn get_test_experiments() -> Vec<Experiment> {
    vec![
        make_experiment(
            "secure-gold",
            "Diagnostic test experiment",
            "This is a test experiment for diagnostic purposes.",
        ),
        make_experiment("secure-silver", "2nd test experiment", "2nd test experiment."),
    ]
}

fn local_ctx() -> (Uuid, AppContext, AvailableRandomizationUnits) {
    // Use a fixed nimbus_id so we don't switch between branches.
    let nimbus_id = Uuid::from_u128(0x29686b11_00c0_4905_b5e4_f5f945eda60a);
    let app_ctx = AppContext { app_id: "fenix".to_string() };
    let aru = Default::default();
    (nimbus_id, app_ctx, aru)
}

fn enrollment_evolver<'a>(
    nimbus_id: &'a Uuid,
    app_ctx: &'a AppContext,
    aru: &'a AvailableRandomizationUnits,
) -> EnrollmentsEvolver<'a> {
    EnrollmentsEvolver::new(nimbus_id, aru, app_ctx, now_secs())
}

#[test]
fn test_evolver_new_experiment_enrolled() -> Result<(), NimbusError> {
    let exp = &get_test_experiments()[0];
    let (nimbus_id, app_ctx, aru) = local_ctx();
    let evolver = enrollment_evolver(&nimbus_id, &app_ctx, &aru);
    let mut events = vec![];
    let enrollment = evolver
        .evolve_enrollment(true, None, Some(exp), None, &mut events)?
        .unwrap();
    assert!(matches!(enrollment.status, EnrollmentStatus::Enrolled { .. }));
    assert_eq!(events.len(), 1);
    assert_eq!(events[0].experiment_slug, exp.slug);
    assert_eq!(events[0].change, EnrollmentChangeEventType::Enrollment);
    Ok(())
}

#[test]
fn test_evolver_new_experiment_not_enrolled() -> Result<(), NimbusError> {
    let mut exp = get_test_experiments()[0].clone();
    exp.bucket_config.count = 0; // Make the experiment bucketing fail.
    let (nimbus_id, app_ctx, aru) = local_ctx();
    let evolver = enrollment_evolver(&nimbus_id, &app_ctx, &aru);
    let mut events = vec![];
    let enrollment = evolver
        .evolve_enrollment(true, None, Some(&exp), None, &mut events)?
        .unwrap();
    assert!(matches!(
        enrollment.status,
        EnrollmentStatus::NotEnrolled { reason: NotEnrolledReason::NotSelected }
    ));
    assert!(events.is_empty());
    Ok(())
}

#[test]
fn test_evolver_new_experiment_globally_opted_out() -> Result<(), NimbusError> {
    let exp = get_test_experiments()[0].clone();
    let (nimbus_id, app_ctx, aru) = local_ctx();
    let evolver = enrollment_evolver(&nimbus_id, &app_ctx, &aru);
    let mut events = vec![];
    let enrollment = evolver
        .evolve_enrollment(false, None, Some(&exp), None, &mut events)?
        .unwrap();
    assert!(matches!(
        enrollment.status,
        EnrollmentStatus::NotEnrolled { reason: NotEnrolledReason::OptOut }
    ));
    assert!(events.is_empty());
    Ok(())
}

#[test]
fn test_evolver_new_experiment_enrollment_paused() -> Result<(), NimbusError> {
    let mut exp = get_test_experiments()[0].clone();
    exp.is_enrollment_paused = true;
    let (nimbus_id, app_ctx, aru) = local_ctx();
    let evolver = enrollment_evolver(&nimbus_id, &app_ctx, &aru);
    let mut events = vec![];
    let enrollment = evolver
        .evolve_enrollment(true, None, Some(&exp), None, &mut events)?
        .unwrap();
    assert!(matches!(
        enrollment.status,
        EnrollmentStatus::NotEnrolled { reason: NotEnrolledReason::EnrollmentsPaused }
    ));
    assert!(events.is_empty());
    Ok(())
}

#[test]
fn test_evolver_experiment_update_not_enrolled_opted_out() -> Result<(), NimbusError> {
    let exp = get_test_experiments()[0].clone();
    let (nimbus_id, app_ctx, aru) = local_ctx();
    let evolver = enrollment_evolver(&nimbus_id, &app_ctx, &aru);
    let mut events = vec![];
    let existing_enrollment = ExperimentEnrollment {
        slug: exp.slug.clone(),
        status: EnrollmentStatus::NotEnrolled { reason: NotEnrolledReason::OptOut },
    };
    let enrollment = evolver
        .evolve_enrollment(false, Some(&exp), Some(&exp), Some(&existing_enrollment), &mut events)?
        .unwrap();
    assert_eq!(enrollment.status, existing_enrollment.status);
    assert!(events.is_empty());
    Ok(())
}

#[test]
fn test_evolver_experiment_update_not_enrolled_enrollment_paused() -> Result<(), NimbusError> {
    let mut exp = get_test_experiments()[0].clone();
    exp.is_enrollment_paused = true;
    let (nimbus_id, app_ctx, aru) = local_ctx();
    let evolver = enrollment_evolver(&nimbus_id, &app_ctx, &aru);
    let mut events = vec![];
    let existing_enrollment = ExperimentEnrollment {
        slug: exp.slug.clone(),
        status: EnrollmentStatus::NotEnrolled { reason: NotEnrolledReason::EnrollmentsPaused },
    };
    let enrollment = evolver
        .evolve_enrollment(true, Some(&exp), Some(&exp), Some(&existing_enrollment), &mut events)?
        .unwrap();
    assert_eq!(enrollment.status, existing_enrollment.status);
    assert!(events.is_empty());
    Ok(())
}

#[test]
fn test_evolver_experiment_update_not_enrolled_resuming_not_selected() -> Result<(), NimbusError> {
    let mut exp = get_test_experiments()[0].clone();
    exp.bucket_config.count = 0; // Make the experiment bucketing fail.
    let (nimbus_id, app_ctx, aru) = local_ctx();
    let evolver = enrollment_evolver(&nimbus_id, &app_ctx, &aru);
    let mut events = vec![];
    let existing_enrollment = ExperimentEnrollment {
        slug: exp.slug.clone(),
        status: EnrollmentStatus::NotEnrolled { reason: NotEnrolledReason::EnrollmentsPaused },
    };
    let enrollment = evolver
        .evolve_enrollment(true, Some(&exp), Some(&exp), Some(&existing_enrollment), &mut events)?
        .unwrap();
    assert!(matches!(
        enrollment.status,
        EnrollmentStatus::NotEnrolled { reason: NotEnrolledReason::NotSelected }
    ));
    assert!(events.is_empty());
    Ok(())
}

#[test]
fn test_evolver_experiment_update_not_enrolled_resuming_selected() -> Result<(), NimbusError> {
    let exp = get_test_experiments()[0].clone();
    let (nimbus_id, app_ctx, aru) = local_ctx();
    let evolver = enrollment_evolver(&nimbus_id, &app_ctx, &aru);
    let mut events = vec![];
    let existing_enrollment = ExperimentEnrollment {
        slug: exp.slug.clone(),
        status: EnrollmentStatus::NotEnrolled { reason: NotEnrolledReason::EnrollmentsPaused },
    };
    let enrollment = evolver
        .evolve_enrollment(true, Some(&exp), Some(&exp), Some(&existing_enrollment), &mut events)?
        .unwrap();
    assert!(matches!(
        enrollment.status,
        EnrollmentStatus::Enrolled { reason: EnrolledReason::Qualified, .. }
    ));
    assert_eq!(events.len(), 1);
    assert_eq!(events[0].experiment_slug, exp.slug);
    assert_eq!(events[0].change, EnrollmentChangeEventType::Enrollment);
    Ok(())
}

#[test]
fn test_evolver_experiment_update_enrolled_then_opted_out() -> Result<(), NimbusError> {
    let exp = get_test_experiments()[0].clone();
    let (nimbus_id, app_ctx, aru) = local_ctx();
    let evolver = enrollment_evolver(&nimbus_id, &app_ctx, &aru);
    let mut events = vec![];
    let enrollment_id = Uuid::new_v4();
    let existing_enrollment = ExperimentEnrollment {
        slug: exp.slug.clone(),
        status: EnrollmentStatus::Enrolled {
            enrollment_id,
            branch: "control".to_owned(),
            reason: EnrolledReason::Qualified,
        },
    };
    let enrollment = evolver
        .evolve_enrollment(false, Some(&exp), Some(&exp), Some(&existing_enrollment), &mut events)?
        .unwrap();
    assert!(matches!(
        enrollment.status,
        EnrollmentStatus::Disqualified { reason: DisqualifiedReason::OptOut, .. }
    ));
    assert_eq!(events.len(), 1);
    assert_eq!(events[0].enrollment_id, enrollment_id.hyphenated());
    assert_eq!(events[0].experiment_slug, exp.slug);
    assert_eq!(events[0].branch_slug, "control");
    assert_eq!(events[0].reason, Some("optout".to_owned()));
    assert_eq!(events[0].change, EnrollmentChangeEventType::Disqualification);
    Ok(())
}

#[test]
fn test_evolver_experiment_update_enrolled_then_experiment_paused() -> Result<(), NimbusError> {
    let mut exp = get_test_experiments()[0].clone();
    exp.is_enrollment_paused = true;
    let (nimbus_id, app_ctx, aru) = local_ctx();
    let evolver = enrollment_evolver(&nimbus_id, &app_ctx, &aru);
    let mut events = vec![];
    let enrollment_id = Uuid::new_v4();
    let existing_enrollment = ExperimentEnrollment {
        slug: exp.slug.clone(),
        status: EnrollmentStatus::Enrolled {
            enrollment_id,
            branch: "control".to_owned(),
            reason: EnrolledReason::Qualified,
        },
    };
    let enrollment = evolver
        .evolve_enrollment(true, Some(&exp), Some(&exp), Some(&existing_enrollment), &mut events)?
        .unwrap();
    if let EnrollmentStatus::Enrolled {
        reason: EnrolledReason::Qualified,
        enrollment_id: new_enrollment_id,
        branch,
        ..
    } = enrollment.status
    {
        assert_eq!(branch, "control");
        assert_eq!(new_enrollment_id, enrollment_id);
    } else {
        panic!("Wrong variant!");
    }
    assert!(events.is_empty());
    Ok(())
}

#[test]
fn test_evolver_experiment_update_enrolled_then_targeting_changed() -> Result<(), NimbusError> {
    let exp = get_test_experiments()[0].clone();
    let (nimbus_id, mut app_ctx, aru) = local_ctx();
    app_ctx.app_id = "foobar".to_owned(); // Make the experiment targeting fail.
    let evolver = enrollment_evolver(&nimbus_id, &app_ctx, &aru);
    let mut events = vec![];
    let enrollment_id = Uuid::new_v4();
    let existing_enrollment = ExperimentEnrollment {
        slug: exp.slug.clone(),
        status: EnrollmentStatus::Enrolled {
            enrollment_id,
            branch: "control".to_owned(),
            reason: EnrolledReason::Qualified,
        },
    };
    let enrollment = evolver
        .evolve_enrollment(true, Some(&exp), Some(&exp), Some(&existing_enrollment), &mut events)?
        .unwrap();
    if let EnrollmentStatus::Disqualified {
        reason: DisqualifiedReason::NotTargeted,
        enrollment_id: new_enrollment_id,
        branch,
        ..
    } = enrollment.status
    {
        assert_eq!(branch, "control");
        assert_eq!(new_enrollment_id, enrollment_id);
    } else {
        panic!("Wrong variant!");
    }
    assert_eq!(events.len(), 1);
    assert_eq!(events[0].enrollment_id, enrollment_id.hyphenated());
    assert_eq!(events[0].experiment_slug, exp.slug);
    assert_eq!(events[0].branch_slug, "control");
    assert_eq!(events[0].reason, Some("targeting".to_owned()));
    assert_eq!(events[0].change, EnrollmentChangeEventType::Disqualification);
    Ok(())
}

#[test]
fn test_evolver_experiment_update_enrolled_then_bucketing_changed() -> Result<(), NimbusError> {
    let mut exp = get_test_experiments()[0].clone();
    exp.bucket_config.count = 0; // Make the experiment bucketing fail.
    let (nimbus_id, app_ctx, aru) = local_ctx();
    let evolver = enrollment_evolver(&nimbus_id, &app_ctx, &aru);
    let mut events = vec![];
    let enrollment_id = Uuid::new_v4();
    let existing_enrollment = ExperimentEnrollment {
        slug: exp.slug.clone(),
        status: EnrollmentStatus::Enrolled {
            enrollment_id,
            branch: "control".to_owned(),
            reason: EnrolledReason::Qualified,
        },
    };
    let enrollment = evolver
        .evolve_enrollment(true, Some(&exp), Some(&exp), Some(&existing_enrollment), &mut events)?
        .unwrap();
    assert_eq!(enrollment, existing_enrollment);
    assert!(events.is_empty());
    Ok(())
}

#[test]
fn test_evolver_experiment_update_enrolled_then_branches_changed() -> Result<(), NimbusError> {
    let mut exp = get_test_experiments()[0].clone();
    exp.branches = vec![
        Branch { slug: "control".to_owned(), ratio: 0 },
        Branch { slug: "bobo-branch".to_owned(), ratio: 1 },
    ];
    let (nimbus_id, app_ctx, aru) = local_ctx();
    let evolver = enrollment_evolver(&nimbus_id, &app_ctx, &aru);
    let mut events = vec![];
    let enrollment_id = Uuid::new_v4();
    let existing_enrollment = ExperimentEnrollment {
        slug: exp.slug.clone(),
        status: EnrollmentStatus::Enrolled {
            enrollment_id,
            branch: "control".to_owned(),
            reason: EnrolledReason::Qualified,
        },
    };
    let enrollment = evolver
        .evolve_enrollment(true, Some(&exp), Some(&exp), Some(&existing_enrollment), &mut events)?
        .unwrap();
    assert_eq!(enrollment, existing_enrollment);
    assert!(events.is_empty());
    Ok(())
}

#[test]
fn test_evolver_experiment_update_enrolled_then_branch_disappears() -> Result<(), NimbusError> {
    let mut exp = get_test_experiments()[0].clone();
    exp.branches = vec![Branch { slug: "bobo-branch".to_owned(), ratio: 1 }];
    let (nimbus_id, app_ctx, aru) = local_ctx();
    let evolver = enrollment_evolver(&nimbus_id, &app_ctx, &aru);
    let mut events = vec![];
    let enrollment_id = Uuid::new_v4();
    let existing_enrollment = ExperimentEnrollment {
        slug: exp.slug.clone(),
        status: EnrollmentStatus::Enrolled {
            enrollment_id,
            branch: "control".to_owned(),
            reason: EnrolledReason::Qualified,
        },
    };
    let enrollment = evolver
        .evolve_enrollment(true, Some(&exp), Some(&exp), Some(&existing_enrollment), &mut events)?
        .unwrap();
    assert!(matches!(
        enrollment.status,
        EnrollmentStatus::Disqualified { reason: DisqualifiedReason::Error, .. }
    ));
    assert_eq!(events.len(), 1);
    assert_eq!(events[0].change, EnrollmentChangeEventType::Disqualification);
    assert_eq!(events[0].enrollment_id, enrollment_id.hyphenated());
    assert_eq!(events[0].experiment_slug, exp.slug);
    assert_eq!(events[0].branch_slug, "control");
    Ok(())
}

#[test]
fn test_evolver_experiment_update_disqualified_then_opted_out() -> Result<(), NimbusError> {
    let exp = get_test_experiments()[0].clone();
    let (nimbus_id, app_ctx, aru) = local_ctx();
    let evolver = enrollment_evolver(&nimbus_id, &app_ctx, &aru);
    let mut events = vec![];
    let enrollment_id = Uuid::new_v4();
    let existing_enrollment = ExperimentEnrollment {
        slug: exp.slug.clone(),
        status: EnrollmentStatus::Disqualified {
            enrollment_id,
            branch: "control".to_owned(),
            reason: DisqualifiedReason::NotTargeted,
        },
    };
    let enrollment = evolver
        .evolve_enrollment(false, Some(&exp), Some(&exp), Some(&existing_enrollment), &mut events)?
        .unwrap();
    assert!(matches!(
        enrollment.status,
        EnrollmentStatus::Disqualified { reason: DisqualifiedReason::OptOut, .. }
    ));
    assert!(events.is_empty());
    Ok(())
}

#[test]
fn test_evolver_experiment_update_disqualified_then_bucketing_ok() -> Result<(), NimbusError> {
    let exp = get_test_experiments()[0].clone();
    let (nimbus_id, app_ctx, aru) = local_ctx();
    let evolver = enrollment_evolver(&nimbus_id, &app_ctx, &aru);
    let mut events = vec![];
    let enrollment_id = Uuid::new_v4();
    let existing_enrollment = ExperimentEnrollment {
        slug: exp.slug.clone(),
        status: EnrollmentStatus::Disqualified {
            enrollment_id,
            branch: "control".to_owned(),
            reason: DisqualifiedReason::NotTargeted,
        },
    };
    let enrollment = evolver
        .evolve_enrollment(true, Some(&exp), Some(&exp), Some(&existing_enrollment), &mut events)?
        .unwrap();
    assert_eq!(enrollment, existing_enrollment);
    assert!(events.is_empty());
    Ok(())
}

#[test]
fn test_evolver_experiment_update_was_enrolled() -> Result<(), NimbusError> {
    let exp = get_test_experiments()[0].clone();
    let (nimbus_id, app_ctx, aru) = local_ctx();
    let evolver = enrollment_evolver(&nimbus_id, &app_ctx, &aru);
    let mut events = vec![];
    let enrollment_id = Uuid::new_v4();
    let existing_enrollment = ExperimentEnrollment {
        slug: exp.slug.clone(),
        status: EnrollmentStatus::WasEnrolled {
            enrollment_id,
            branch: "control".to_owned(),
            experiment_ended_at: now_secs(),
        },
    };
    let enrollment = evolver
        .evolve_enrollment(true, Some(&exp), Some(&exp), Some(&existing_enrollment), &mut events)?
        .unwrap();
    assert_eq!(enrollment, existing_enrollment);
    assert!(events.is_empty());
    Ok(())
}

#[test]
fn test_evolver_experiment_update_error() -> Result<(), NimbusError> {
    let exp = get_test_experiments()[0].clone();
    let (nimbus_id, app_ctx, aru) = local_ctx();
    let evolver = enrollment_evolver(&nimbus_id, &app_ctx, &aru);
    let mut events = vec![];
    let existing_enrollment = ExperimentEnrollment {
        slug: exp.slug.clone(),
        status: EnrollmentStatus::Error { reason: "heh".to_owned() },
    };
    let enrollment = evolver
        .evolve_enrollment(true, Some(&exp), Some(&exp), Some(&existing_enrollment), &mut events)?
        .unwrap();
    assert_eq!(enrollment, existing_enrollment);
    assert!(events.is_empty());
    Ok(())
}

#[test]
fn test_evolver_experiment_ended_was_enrolled() -> Result<(), NimbusError> {
    let exp = get_test_experiments()[0].clone();
    let (nimbus_id, app_ctx, aru) = local_ctx();
    let evolver = enrollment_evolver(&nimbus_id, &app_ctx, &aru);
    let mut events = vec![];
    let enrollment_id = Uuid::new_v4();
    let existing_enrollment = ExperimentEnrollment {
        slug: exp.slug.clone(),
        status: EnrollmentStatus::Enrolled {
            enrollment_id,
            branch: "control".to_owned(),
            reason: EnrolledReason::Qualified,
        },
    };
    let enrollment = evolver
        .evolve_enrollment(true, Some(&exp), None, Some(&existing_enrollment), &mut events)?
        .unwrap();
    if let EnrollmentStatus::WasEnrolled { branch, enrollment_id: new_enrollment_id, .. } =
        enrollment.status
    {
        assert_eq!(branch, "control");
        assert_eq!(new_enrollment_id, enrollment_id);
    } else {
        panic!("Wrong variant!");
    }
    assert_eq!(events.len(), 1);
    assert_eq!(events[0].enrollment_id, enrollment_id.hyphenated());
    assert_eq!(events[0].experiment_slug, exp.slug);
    assert_eq!(events[0].branch_slug, "control");
    assert_eq!(events[0].change, EnrollmentChangeEventType::Unenrollment);
    Ok(())
}

#[test]
fn test_evolver_experiment_ended_was_disqualified() -> Result<(), NimbusError> {
    let exp = get_test_experiments()[0].clone();
    let (nimbus_id, app_ctx, aru) = local_ctx();
    let evolver = enrollment_evolver(&nimbus_id, &app_ctx, &aru);
    let mut events = vec![];
    let enrollment_id = Uuid::new_v4();
    let existing_enrollment = ExperimentEnrollment {
        slug: exp.slug.clone(),
        status: EnrollmentStatus::Disqualified {
            enrollment_id,
            branch: "control".to_owned(),
            reason: DisqualifiedReason::NotTargeted,
        },
    };
    let enrollment = evolver
        .evolve_enrollment(true, Some(&exp), None, Some(&existing_enrollment), &mut events)?
        .unwrap();
    if let EnrollmentStatus::WasEnrolled { branch, enrollment_id: new_enrollment_id, .. } =
        enrollment.status
    {
        assert_eq!(branch, "control");
        assert_eq!(new_enrollment_id, enrollment_id);
    } else {
        panic!("Wrong variant!");
    }
    assert_eq!(events.len(), 1);
    assert_eq!(events[0].enrollment_id, enrollment_id.hyphenated());
    assert_eq!(events[0].experiment_slug, exp.slug);
    assert_eq!(events[0].branch_slug, "control");
    assert_eq!(events[0].change, EnrollmentChangeEventType::Unenrollment);
    Ok(())
}

#[test]
fn test_evolver_experiment_ended_was_not_enrolled() -> Result<(), NimbusError> {
    let exp = get_test_experiments()[0].clone();
    let (nimbus_id, app_ctx, aru) = local_ctx();
    let evolver = enrollment_evolver(&nimbus_id, &app_ctx, &aru);
    let mut events = vec![];
    let existing_enrollment = ExperimentEnrollment {
        slug: exp.slug.clone(),
        status: EnrollmentStatus::NotEnrolled { reason: NotEnrolledReason::NotTargeted },
    };
    let enrollment = evolver.evolve_enrollment(
        true,
        Some(&exp),
        None,
        Some(&existing_enrollment),
        &mut events,
    )?;
    assert!(enrollment.is_none());
    assert!(events.is_empty());
    Ok(())
}

#[test]
fn test_evolver_garbage_collection_before_threshold() -> Result<(), NimbusError> {
    let (nimbus_id, app_ctx, aru) = local_ctx();
    let evolver = enrollment_evolver(&nimbus_id, &app_ctx, &aru);
    let mut events = vec![];
    let existing_enrollment = ExperimentEnrollment {
        slug: "secure-gold".to_owned(),
        status: EnrollmentStatus::WasEnrolled {
            enrollment_id: Uuid::new_v4(),
            branch: "control".to_owned(),
            experiment_ended_at: now_secs(),
        },
    };
    let enrollment =
        evolver.evolve_enrollment(true, None, None, Some(&existing_enrollment), &mut events)?;
    assert_eq!(enrollment.unwrap(), existing_enrollment);
    assert!(events.is_empty());
    Ok(())
}

#[test]
fn test_evolver_garbage_collection_after_threshold() -> Result<(), NimbusError> {
    let (nimbus_id, app_ctx, aru) = local_ctx();
    let evolver = enrollment_evolver(&nimbus_id, &app_ctx, &aru);
    let mut events = vec![];
    let existing_enrollment = ExperimentEnrollment {
        slug: "secure-gold".to_owned(),
        status: EnrollmentStatus::WasEnrolled {
            enrollment_id: Uuid::new_v4(),
            branch: "control".to_owned(),
            experiment_ended_at: now_secs() - PREVIOUS_ENROLLMENTS_GC_TIME - 60,
        },
    };
    let enrollment =
        evolver.evolve_enrollment(true, None, None, Some(&existing_enrollment), &mut events)?;
    assert!(enrollment.is_none());
    assert!(events.is_empty());
    Ok(())
}

#[test]
fn test_evolver_new_experiment_enrollment_already_exists() {
    let exp = get_test_experiments()[0].clone();
    let existing_enrollment = ExperimentEnrollment {
        slug: "secure-gold".to_owned(),
        status: EnrollmentStatus::WasEnrolled {
            enrollment_id: Uuid::new_v4(),
            branch: "control".to_owned(),
            experiment_ended_at: now_secs(),
        },
    };
    let (nimbus_id, app_ctx, aru) = local_ctx();
    let evolver = enrollment_evolver(&nimbus_id, &app_ctx, &aru);
    let res = evolver.evolve_enrollment(
        true,
        None,
        Some(&exp),
        Some(&existing_enrollment),
        &mut vec![],
    );
    assert!(res.is_err());
}

#[test]
fn test_evolver_existing_experiment_has_no_enrollment() {
    let exp = get_test_experiments()[0].clone();
    let (nimbus_id, app_ctx, aru) = local_ctx();
    let evolver = enrollment_evolver(&nimbus_id, &app_ctx, &aru);
    let res = evolver.evolve_enrollment(true, Some(&exp), Some(&exp), None, &mut vec![]);
    assert!(res.is_err());
}
