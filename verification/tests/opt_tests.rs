//! Tests of the explicit opt-in and opt-out transitions.

use nimbus::{
    Branch, BucketConfig, DisqualifiedReason, EnrolledReason, EnrollmentChangeEventType,
    EnrollmentStatus, Experiment, ExperimentEnrollment, NimbusError, NotEnrolledReason,
    RandomizationUnit, Uuid,
};

fn get_test_experiment() -> Experiment {
    Experiment {
        slug: "secure-gold".to_string(),
        application: "fenix".to_string(),
        branches: vec![
            Branch { slug: "control".to_string(), ratio: 1 },
            Branch { slug: "treatment".to_string(), ratio: 1 },
        ],
        bucket_config: BucketConfig {
            randomization_unit: RandomizationUnit::NimbusId,
            namespace: "secure-gold".to_string(),
            start: 0,
            count: 10_000,
            total: 10_000,
        },
        is_enrollment_paused: false,
        user_facing_name: "Diagnostic test experiment".to_string(),
        user_facing_description: "This is a test experiment for diagnostic purposes.".to_string(),
    }
}

#[test]
fn test_enrollment_explicit_opt_in() -> Result<(), NimbusError> {
    let exp = get_test_experiment();
    let mut events = vec![];
    let enrollment = ExperimentEnrollment::from_explicit_opt_in(&exp, "control", &mut events)?;
    assert!(matches!(
        enrollment.status,
        EnrollmentStatus::Enrolled { reason: EnrolledReason::OptIn, .. }
    ));
    assert_eq!(events.len(), 1);
    assert!(matches!(events[0].change, EnrollmentChangeEventType::Enrollment));
    Ok(())
}

#[test]
fn test_enrollment_explicit_opt_in_branch_unknown() {
    let exp = get_test_experiment();
    let mut events = vec![];
    let res = ExperimentEnrollment::from_explicit_opt_in(&exp, "bobo", &mut events);
    assert!(res.is_err());
}

#[test]
fn test_enrollment_enrolled_explicit_opt_out() {
    let exp = get_test_experiment();
    let mut events = vec![];
    let enrollment_id = Uuid::new_v4();
    let existing_enrollment = ExperimentEnrollment {
        slug: exp.slug,
        status: EnrollmentStatus::Enrolled {
            enrollment_id,
            branch: "control".to_owned(),
            reason: EnrolledReason::Qualified,
        },
    };
    let enrollment = existing_enrollment.on_explicit_opt_out(&mut events);
    if let EnrollmentStatus::Disqualified { enrollment_id: new_enrollment_id, branch, .. } =
        enrollment.status
    {
        assert_eq!(branch, "control");
        assert_eq!(new_enrollment_id, enrollment_id);
    } else {
        panic!("Wrong variant!");
    }
    assert_eq!(events.len(), 1);
    assert!(matches!(events[0].change, EnrollmentChangeEventType::Disqualification));
}

#[test]
fn test_enrollment_not_enrolled_explicit_opt_out() {
    let exp = get_test_experiment();
    let mut events = vec![];
    let existing_enrollment = ExperimentEnrollment {
        slug: exp.slug,
        status: EnrollmentStatus::NotEnrolled { reason: NotEnrolledReason::NotTargeted },
    };
    let enrollment = existing_enrollment.on_explicit_opt_out(&mut events);
    assert!(matches!(
        enrollment.status,
        EnrollmentStatus::NotEnrolled { reason: NotEnrolledReason::OptOut }
    ));
    assert!(events.is_empty());
}

#[test]
fn test_enrollment_disqualified_explicit_opt_out() {
    let exp = get_test_experiment();
    let mut events = vec![];
    let existing_enrollment = ExperimentEnrollment {
        slug: exp.slug,
        status: EnrollmentStatus::Disqualified {
            enrollment_id: Uuid::new_v4(),
            branch: "control".to_owned(),
            reason: DisqualifiedReason::NotTargeted,
        },
    };
    let enrollment = existing_enrollment.on_explicit_opt_out(&mut events);
    assert_eq!(enrollment, existing_enrollment);
    assert!(events.is_empty());
}
