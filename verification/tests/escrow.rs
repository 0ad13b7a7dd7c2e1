use pago_curso::{
    Address, Amount, CourseError, CoursePaymentSc, CourseStatus, StudentData, Transfer,
};

fn account(tag: u8) -> Address {
    Address::new([tag; 32])
}

fn owner() -> Address {
    account(1)
}

fn teacher() -> Address {
    account(2)
}

fn amount(n: u64) -> Amount {
    Amount::from_u64(n)
}

fn course(fee: u64, classes: u64) -> CoursePaymentSc {
    CoursePaymentSc::init(&owner(), &owner(), teacher(), amount(fee), classes).unwrap()
}

fn record(classes: u64, paid: u64, refunded: u64) -> StudentData {
    StudentData {
        classes_completed: classes,
        paid_amount: amount(paid),
        refunded: amount(refunded),
    }
}

fn transfer(to: Address, value: u64) -> Transfer {
    Transfer { to, amount: amount(value) }
}

/// What the escrow holds, what went to the teacher and what was returned.
fn totals(course: &CoursePaymentSc) -> (u64, u64, u64) {
    let share = course.calculate_proportional_payment().to_u64().unwrap();
    let mut released = 0;
    let mut refunded = 0;
    for enrollment in course.students() {
        released += share * enrollment.data.classes_completed;
        refunded += enrollment.data.refunded.to_u64().unwrap();
    }
    (course.get_current_funds().to_u64().unwrap(), released, refunded)
}

fn assert_conserved(course: &CoursePaymentSc) {
    let (held, released, refunded) = totals(course);
    let fee = course.get_course_fee().to_u64().unwrap();
    assert_eq!(held + released + refunded, course.students().len() as u64 * fee);
}

#[test]
fn empty_rs() {
    let course = course(100, 5);
    assert_eq!(course.get_course_status(), CourseStatus::Ongoing);
    assert_eq!(course.get_classes_completed(), 0);
    assert!(course.students().is_empty());
    assert!(course.get_current_funds().is_zero());
}

#[test]
fn init_records_the_agreement() {
    let course = course(100, 5);
    assert_eq!(course.get_teacher(), teacher());
    assert_eq!(course.get_course_fee(), amount(100));
    assert_eq!(course.get_total_classes(), 5);
    assert_eq!(course.get_classes_completed(), 0);
    assert_eq!(course.get_course_status(), CourseStatus::Ongoing);
    assert_eq!(course.get_student(&account(7)), None);
}

#[test]
fn init_by_another_account_is_unauthorized() {
    let result = CoursePaymentSc::init(&owner(), &teacher(), teacher(), amount(100), 5);
    assert_eq!(result.err(), Some(CourseError::Unauthorized));
}

#[test]
fn init_checks_the_caller_before_the_fee_and_the_classes() {
    let result = CoursePaymentSc::init(&owner(), &account(9), teacher(), amount(0), 0);
    assert_eq!(result.err(), Some(CourseError::Unauthorized));
}

#[test]
fn init_with_zero_fee_is_invalid() {
    let result = CoursePaymentSc::init(&owner(), &owner(), teacher(), amount(0), 5);
    assert_eq!(result.err(), Some(CourseError::InvalidFee));
    let result = CoursePaymentSc::init(&owner(), &owner(), teacher(), amount(0), 0);
    assert_eq!(result.err(), Some(CourseError::InvalidFee));
}

#[test]
fn init_with_no_classes_is_invalid() {
    let result = CoursePaymentSc::init(&owner(), &owner(), teacher(), amount(100), 0);
    assert_eq!(result.err(), Some(CourseError::InvalidClassCount));
}

#[test]
fn proportional_payment_is_fee_over_classes_rounded_down() {
    assert_eq!(course(100, 5).calculate_proportional_payment(), amount(20));
    assert_eq!(course(100, 3).calculate_proportional_payment(), amount(33));
    assert_eq!(course(2, 3).calculate_proportional_payment(), amount(0));
    assert_eq!(course(7, 1).calculate_proportional_payment(), amount(7));
    assert_eq!(course(100, u64::MAX).calculate_proportional_payment(), amount(0));
}

#[test]
fn proportional_payment_of_a_fee_beyond_u64() {
    // 2^72 over 2^8 classes.
    let fee = Amount::from_bytes_be(vec![1, 0, 0, 0, 0, 0, 0, 0, 0, 0]);
    let course = CoursePaymentSc::init(&owner(), &owner(), teacher(), fee, 256).unwrap();
    assert_eq!(
        course.calculate_proportional_payment(),
        Amount::from_bytes_be(vec![1, 0, 0, 0, 0, 0, 0, 0, 0])
    );
}

#[test]
fn enroll_records_exactly_the_fee() {
    let mut course = course(100, 5);
    let student = account(10);
    assert_eq!(course.enroll(student, amount(100)), Ok(()));
    assert_eq!(course.get_student(&student), Some(record(0, 100, 0)));
    assert_eq!(course.students().len(), 1);
    assert_eq!(course.students()[0].student, student);
    assert_eq!(course.get_current_funds(), amount(100));
}

#[test]
fn enroll_with_another_amount_is_rejected() {
    let mut course = course(100, 5);
    let student = account(10);
    assert_eq!(course.enroll(student, amount(99)), Err(CourseError::IncorrectPaymentAmount));
    assert_eq!(course.enroll(student, amount(101)), Err(CourseError::IncorrectPaymentAmount));
    assert_eq!(course.enroll(student, amount(0)), Err(CourseError::IncorrectPaymentAmount));
    assert_eq!(course.get_student(&student), None);
    assert!(course.students().is_empty());
    assert!(course.get_current_funds().is_zero());
}

#[test]
fn enroll_twice_is_rejected_and_changes_nothing() {
    let mut course = course(100, 5);
    let student = account(10);
    assert_eq!(course.enroll(student, amount(100)), Ok(()));
    assert!(course.complete_class(&student).is_ok());
    assert_eq!(course.enroll(student, amount(100)), Err(CourseError::AlreadyEnrolled));
    assert_eq!(course.students().len(), 1);
    assert_eq!(course.get_student(&student), Some(record(1, 100, 0)));
    assert_eq!(course.get_current_funds(), amount(80));
}

#[test]
fn enroll_checks_the_payment_before_the_enrollment() {
    let mut course = course(100, 5);
    let student = account(10);
    assert_eq!(course.enroll(student, amount(100)), Ok(()));
    assert_eq!(course.enroll(student, amount(99)), Err(CourseError::IncorrectPaymentAmount));
}

#[test]
fn students_stand_in_the_order_of_enrollment() {
    let mut course = course(100, 5);
    for tag in [30, 10, 20] {
        assert_eq!(course.enroll(account(tag), amount(100)), Ok(()));
    }
    let order: Vec<Address> = course.students().iter().map(|e| e.student).collect();
    assert_eq!(order, vec![account(30), account(10), account(20)]);
    assert_eq!(course.get_current_funds(), amount(300));
}

#[test]
fn complete_class_pays_one_share_to_the_teacher() {
    let mut course = course(100, 5);
    let student = account(10);
    course.enroll(student, amount(100)).unwrap();
    assert_eq!(course.complete_class(&student), Ok(transfer(teacher(), 20)));
    assert_eq!(course.get_student(&student), Some(record(1, 100, 0)));
    assert_eq!(course.get_current_funds(), amount(80));
    assert_eq!(course.get_classes_completed(), 0);
    assert_eq!(course.get_course_status(), CourseStatus::Ongoing);
}

#[test]
fn complete_class_changes_only_the_callers_record() {
    let mut course = course(100, 5);
    for tag in [10, 11, 12] {
        course.enroll(account(tag), amount(100)).unwrap();
    }
    assert_eq!(course.complete_class(&account(11)), Ok(transfer(teacher(), 20)));
    assert_eq!(course.get_student(&account(10)), Some(record(0, 100, 0)));
    assert_eq!(course.get_student(&account(11)), Some(record(1, 100, 0)));
    assert_eq!(course.get_student(&account(12)), Some(record(0, 100, 0)));
}

#[test]
fn complete_class_by_a_stranger_is_rejected() {
    let mut course = course(100, 5);
    course.enroll(account(10), amount(100)).unwrap();
    assert_eq!(course.complete_class(&account(11)), Err(CourseError::NotEnrolled));
    assert_eq!(course.complete_class(&teacher()), Err(CourseError::NotEnrolled));
    assert_eq!(course.get_student(&account(10)), Some(record(0, 100, 0)));
    assert_eq!(course.get_current_funds(), amount(100));
}

#[test]
fn complete_class_stops_at_the_number_of_classes() {
    let mut course = course(100, 3);
    let student = account(10);
    course.enroll(student, amount(100)).unwrap();
    for _ in 0..3 {
        assert_eq!(course.complete_class(&student), Ok(transfer(teacher(), 33)));
    }
    assert_eq!(course.complete_class(&student), Err(CourseError::ClassAllowanceExhausted));
    assert_eq!(course.get_student(&student), Some(record(3, 100, 0)));
    assert_eq!(course.get_current_funds(), amount(1));
}

#[test]
fn sign_class_counts_and_completes_with_the_last_class() {
    let mut course = course(100, 5);
    for signed in 1..=4 {
        assert_eq!(course.sign_class(&teacher()), Ok(vec![]));
        assert_eq!(course.get_classes_completed(), signed);
        assert_eq!(course.get_course_status(), CourseStatus::Ongoing);
    }
    assert_eq!(course.sign_class(&teacher()), Ok(vec![]));
    assert_eq!(course.get_classes_completed(), 5);
    assert_eq!(course.get_course_status(), CourseStatus::Completed);
}

#[test]
fn sign_class_of_a_single_class_course_completes_at_once() {
    let mut course = course(100, 1);
    assert_eq!(course.sign_class(&teacher()), Ok(vec![]));
    assert_eq!(course.get_classes_completed(), 1);
    assert_eq!(course.get_course_status(), CourseStatus::Completed);
}

#[test]
fn sign_class_by_another_account_is_unauthorized() {
    let mut course = course(100, 5);
    let student = account(10);
    course.enroll(student, amount(100)).unwrap();
    assert_eq!(course.sign_class(&student), Err(CourseError::Unauthorized));
    assert_eq!(course.sign_class(&owner()), Err(CourseError::Unauthorized));
    assert_eq!(course.get_classes_completed(), 0);
    assert_eq!(course.get_course_status(), CourseStatus::Ongoing);
}

#[test]
fn sign_class_after_the_last_class_is_rejected() {
    let mut course = course(100, 2);
    course.sign_class(&teacher()).unwrap();
    course.sign_class(&teacher()).unwrap();
    assert_eq!(course.sign_class(&teacher()), Err(CourseError::CourseAlreadyCompleted));
    assert_eq!(course.get_classes_completed(), 2);
    assert_eq!(course.sign_class(&account(10)), Err(CourseError::Unauthorized));
}

#[test]
fn completed_course_takes_no_enrollment_and_no_class() {
    let mut course = course(100, 1);
    let student = account(10);
    course.enroll(student, amount(100)).unwrap();
    course.sign_class(&teacher()).unwrap();
    assert_eq!(course.enroll(account(11), amount(100)), Err(CourseError::CourseAlreadyCompleted));
    assert_eq!(course.enroll(student, amount(100)), Err(CourseError::CourseAlreadyCompleted));
    assert_eq!(course.complete_class(&student), Err(CourseError::CourseAlreadyCompleted));
    assert_eq!(course.students().len(), 1);
    assert_eq!(course.get_student(&student), Some(record(0, 100, 100)));
}

#[test]
fn completed_course_still_checks_payment_and_enrollment_first() {
    let mut course = course(100, 1);
    course.sign_class(&teacher()).unwrap();
    assert_eq!(course.enroll(account(11), amount(99)), Err(CourseError::IncorrectPaymentAmount));
    assert_eq!(course.complete_class(&account(11)), Err(CourseError::NotEnrolled));
}

#[test]
fn course_of_five_classes_with_one_confirmed() {
    let mut course = course(100, 5);
    let student = account(10);
    assert_eq!(course.calculate_proportional_payment(), amount(20));
    assert_eq!(course.enroll(student, amount(99)), Err(CourseError::IncorrectPaymentAmount));
    assert_eq!(course.enroll(student, amount(100)), Ok(()));
    assert_eq!(course.complete_class(&student), Ok(transfer(teacher(), 20)));
    for _ in 0..4 {
        assert_eq!(course.sign_class(&teacher()), Ok(vec![]));
        assert_eq!(course.get_course_status(), CourseStatus::Ongoing);
    }
    assert_eq!(course.sign_class(&teacher()), Ok(vec![transfer(student, 80)]));
    assert_eq!(course.get_course_status(), CourseStatus::Completed);
    assert_eq!(course.get_student(&student), Some(record(1, 100, 80)));
    assert!(course.get_current_funds().is_zero());
}

#[test]
fn refunds_go_out_in_the_order_of_enrollment() {
    let mut course = course(100, 2);
    let (a, b, c) = (account(30), account(10), account(20));
    for student in [a, b, c] {
        course.enroll(student, amount(100)).unwrap();
    }
    course.complete_class(&b).unwrap();
    course.complete_class(&c).unwrap();
    course.complete_class(&c).unwrap();
    course.sign_class(&teacher()).unwrap();
    assert_eq!(
        course.sign_class(&teacher()),
        Ok(vec![transfer(a, 100), transfer(b, 50)])
    );
    assert_eq!(course.get_student(&a), Some(record(0, 100, 100)));
    assert_eq!(course.get_student(&b), Some(record(1, 100, 50)));
    assert_eq!(course.get_student(&c), Some(record(2, 100, 0)));
    assert!(course.get_current_funds().is_zero());
}

#[test]
fn refund_returns_what_rounding_left() {
    let mut course = course(100, 3);
    let student = account(10);
    course.enroll(student, amount(100)).unwrap();
    for _ in 0..3 {
        course.complete_class(&student).unwrap();
    }
    course.sign_class(&teacher()).unwrap();
    course.sign_class(&teacher()).unwrap();
    assert_eq!(course.sign_class(&teacher()), Ok(vec![transfer(student, 1)]));
    assert_eq!(course.get_student(&student), Some(record(3, 100, 1)));
}

#[test]
fn refund_sweep_a_second_time_transfers_nothing() {
    let mut course = course(100, 1);
    let (a, b) = (account(10), account(11));
    course.enroll(a, amount(100)).unwrap();
    course.enroll(b, amount(100)).unwrap();
    course.complete_class(&a).unwrap();
    assert_eq!(course.sign_class(&teacher()), Ok(vec![transfer(b, 100)]));
    assert_eq!(course.refund_remaining_funds(), vec![]);
    assert_eq!(course.refund_remaining_funds(), vec![]);
    assert_eq!(course.get_student(&a), Some(record(1, 100, 0)));
    assert_eq!(course.get_student(&b), Some(record(0, 100, 100)));
}

#[test]
fn owed_is_payment_less_shares_and_refunds() {
    assert_eq!(record(0, 100, 0).owed(&amount(20)), amount(100));
    assert_eq!(record(1, 100, 0).owed(&amount(20)), amount(80));
    assert_eq!(record(1, 100, 80).owed(&amount(20)), amount(0));
    assert_eq!(record(5, 100, 0).owed(&amount(20)), amount(0));
    assert_eq!(record(3, 100, 0).owed(&amount(33)), amount(1));
}

#[test]
fn owed_is_nothing_where_more_went_out_than_came_in() {
    assert_eq!(record(6, 100, 0).owed(&amount(20)), amount(0));
    assert_eq!(record(1, 100, 90).owed(&amount(20)), amount(0));
    assert_eq!(record(u64::MAX, 100, 0).owed(&amount(20)), amount(0));
}

#[test]
fn nothing_is_created_or_lost() {
    let mut course = course(100, 3);
    assert_conserved(&course);
    for tag in 10..14 {
        course.enroll(account(tag), amount(100)).unwrap();
        assert_conserved(&course);
    }
    let mut to_teacher = 0;
    for (tag, classes) in [(10, 0), (11, 1), (12, 2), (13, 3)] {
        for _ in 0..classes {
            let paid = course.complete_class(&account(tag)).unwrap();
            assert_eq!(paid.to, teacher());
            to_teacher += paid.amount.to_u64().unwrap();
            assert_conserved(&course);
        }
    }
    assert_eq!(to_teacher, 6 * 33);
    assert_eq!(totals(&course), (400 - 6 * 33, 6 * 33, 0));
    let mut to_students = 0;
    for _ in 0..3 {
        for refund in course.sign_class(&teacher()).unwrap() {
            to_students += refund.amount.to_u64().unwrap();
        }
        assert_conserved(&course);
    }
    assert_eq!(to_students, 100 + 67 + 34 + 1);
    assert_eq!(totals(&course), (0, 6 * 33, 400 - 6 * 33));
    assert_eq!(to_teacher + to_students, 400);
}

#[test]
fn accounts_are_told_apart_by_every_byte() {
    let mut bytes = [7u8; 32];
    let first = Address::new(bytes);
    bytes[31] = 8;
    let second = Address::new(bytes);
    assert_ne!(first, second);
    assert_eq!(first, Address::new([7u8; 32]));
    assert_eq!(second.as_bytes()[31], 8);
    let mut course = course(100, 5);
    course.enroll(first, amount(100)).unwrap();
    assert_eq!(course.get_student(&second), None);
    assert_eq!(course.enroll(second, amount(100)), Ok(()));
    assert_eq!(course.students().len(), 2);
}

fn enrollment(tag: u8, classes: u64, paid: u64, refunded: u64) -> pago_curso::Enrollment {
    pago_curso::Enrollment { student: account(tag), data: record(classes, paid, refunded) }
}

fn restore(
    fee: u64,
    classes: u64,
    signed: u64,
    status: CourseStatus,
    students: Vec<pago_curso::Enrollment>,
) -> Option<CoursePaymentSc> {
    CoursePaymentSc::restore(teacher(), amount(fee), classes, signed, status, students)
}

#[test]
fn restore_gives_back_a_course_in_progress() {
    let students = vec![enrollment(10, 0, 100, 0), enrollment(11, 2, 100, 0)];
    let mut course = restore(100, 5, 3, CourseStatus::Ongoing, students).unwrap();
    assert_eq!(course.get_teacher(), teacher());
    assert_eq!(course.get_course_fee(), amount(100));
    assert_eq!(course.get_total_classes(), 5);
    assert_eq!(course.get_classes_completed(), 3);
    assert_eq!(course.get_course_status(), CourseStatus::Ongoing);
    assert_eq!(course.get_student(&account(11)), Some(record(2, 100, 0)));
    assert_eq!(course.get_current_funds(), amount(160));
    assert_eq!(course.sign_class(&teacher()), Ok(vec![]));
    assert_eq!(
        course.sign_class(&teacher()),
        Ok(vec![transfer(account(10), 100), transfer(account(11), 60)])
    );
}

#[test]
fn restore_gives_back_what_the_operations_left() {
    let mut course = course(100, 2);
    course.enroll(account(10), amount(100)).unwrap();
    course.enroll(account(11), amount(100)).unwrap();
    course.complete_class(&account(11)).unwrap();
    course.sign_class(&teacher()).unwrap();
    let students = course
        .students()
        .iter()
        .map(|e| pago_curso::Enrollment { student: e.student, data: e.data.clone() })
        .collect();
    let mut again = CoursePaymentSc::restore(
        course.get_teacher(),
        course.get_course_fee(),
        course.get_total_classes(),
        course.get_classes_completed(),
        course.get_course_status(),
        students,
    )
    .unwrap();
    assert_eq!(again.students(), course.students());
    assert_eq!(again.sign_class(&teacher()), course.sign_class(&teacher()));
    assert_eq!(again.students(), course.students());
    assert_eq!(again.get_course_status(), CourseStatus::Completed);
}

#[test]
fn restore_gives_back_a_completed_course() {
    let students = vec![enrollment(10, 1, 100, 80), enrollment(11, 5, 100, 0)];
    let mut course = restore(100, 5, 5, CourseStatus::Completed, students).unwrap();
    assert!(course.get_current_funds().is_zero());
    assert_eq!(course.refund_remaining_funds(), vec![]);
    let unsettled = vec![enrollment(10, 1, 100, 30)];
    let mut course = restore(100, 5, 5, CourseStatus::Completed, unsettled).unwrap();
    assert_eq!(course.get_current_funds(), amount(50));
    assert_eq!(course.refund_remaining_funds(), vec![transfer(account(10), 50)]);
    assert_eq!(course.get_student(&account(10)), Some(record(1, 100, 80)));
    assert_eq!(course.refund_remaining_funds(), vec![]);
}

#[test]
fn restore_refuses_a_bad_agreement() {
    assert!(restore(0, 5, 0, CourseStatus::Ongoing, vec![]).is_none());
    assert!(restore(100, 0, 0, CourseStatus::Completed, vec![]).is_none());
    assert!(restore(100, 5, 6, CourseStatus::Completed, vec![]).is_none());
    assert!(restore(100, 5, 5, CourseStatus::Ongoing, vec![]).is_none());
    assert!(restore(100, 5, 4, CourseStatus::Completed, vec![]).is_none());
    assert!(restore(100, 5, 4, CourseStatus::Ongoing, vec![]).is_some());
    assert!(restore(100, 5, 5, CourseStatus::Completed, vec![]).is_some());
}

#[test]
fn restore_refuses_a_bad_record() {
    let ongoing = |students| restore(100, 5, 0, CourseStatus::Ongoing, students);
    let completed = |students| restore(100, 5, 5, CourseStatus::Completed, students);
    assert!(ongoing(vec![enrollment(10, 0, 100, 0)]).is_some());
    assert!(ongoing(vec![enrollment(10, 0, 99, 0)]).is_none());
    assert!(ongoing(vec![enrollment(10, 0, 101, 0)]).is_none());
    assert!(ongoing(vec![enrollment(10, 5, 100, 0)]).is_some());
    assert!(ongoing(vec![enrollment(10, 6, 100, 0)]).is_none());
    assert!(ongoing(vec![enrollment(10, 0, 100, 1)]).is_none());
    assert!(completed(vec![enrollment(10, 0, 100, 100)]).is_some());
    assert!(completed(vec![enrollment(10, 1, 100, 80)]).is_some());
    assert!(completed(vec![enrollment(10, 1, 100, 81)]).is_none());
    assert!(completed(vec![enrollment(10, 0, 100, 101)]).is_none());
}

#[test]
fn restore_refuses_two_records_of_one_account() {
    let twice =
        vec![enrollment(10, 0, 100, 0), enrollment(11, 0, 100, 0), enrollment(10, 1, 100, 0)];
    assert!(restore(100, 5, 0, CourseStatus::Ongoing, twice).is_none());
    let apart =
        vec![enrollment(10, 0, 100, 0), enrollment(11, 0, 100, 0), enrollment(12, 1, 100, 0)];
    assert!(restore(100, 5, 0, CourseStatus::Ongoing, apart).is_some());
}

#[test]
fn amounts_beyond_u64_go_through_a_whole_course() {
    // A fee of 3 * 2^64 over three classes.
    let fee = Amount::from_bytes_be(vec![3, 0, 0, 0, 0, 0, 0, 0, 0]);
    let share = Amount::from_bytes_be(vec![1, 0, 0, 0, 0, 0, 0, 0, 0]);
    let mut course = CoursePaymentSc::init(&owner(), &owner(), teacher(), fee.clone(), 3).unwrap();
    let student = account(10);
    assert_eq!(course.enroll(student, amount(3)), Err(CourseError::IncorrectPaymentAmount));
    assert_eq!(course.enroll(student, fee.clone()), Ok(()));
    assert_eq!(course.get_current_funds(), fee);
    assert_eq!(
        course.complete_class(&student),
        Ok(Transfer { to: teacher(), amount: share.clone() })
    );
    course.sign_class(&teacher()).unwrap();
    course.sign_class(&teacher()).unwrap();
    assert_eq!(
        course.sign_class(&teacher()),
        Ok(vec![Transfer { to: student, amount: share.sum(&share) }])
    );
    assert!(course.get_current_funds().is_zero());
}
