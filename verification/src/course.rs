//! The escrow itself: the state of one course and the operations on it.
//!
//! The ledger around the escrow says who calls and what payment came with the
//! call, and carries out the transfers that an operation returns. Every
//! operation either succeeds as a whole or is rejected and changes nothing.

use crate::address::Address;
use crate::amount::Amount;
use crate::laws::lemma_with_class_changes_one;
use crate::model::{
    CourseError, CourseModel, CourseStatus, EnrollmentModel, StudentModel, TransferModel,
    owed_among, refunds_among, settled_among,
};
use vstd::prelude::*;

verus! {

/// What the escrow records of one student.
#[derive(Debug, PartialEq)]
pub struct StudentData {
    /// The classes that the student has confirmed.
    pub classes_completed: u64,
    /// What the student paid on enrolling.
    pub paid_amount: Amount,
    /// What has been returned to the student.
    pub refunded: Amount,
}

/// One student's record under the student's account.
#[derive(Debug, PartialEq)]
pub struct Enrollment {
    pub student: Address,
    pub data: StudentData,
}

/// An amount that leaves the escrow for an account. The ledger carries it out.
#[derive(Debug, PartialEq)]
pub struct Transfer {
    pub to: Address,
    pub amount: Amount,
}

/// The escrow of one course.
#[derive(Debug)]
pub struct CoursePaymentSc {
    teacher: Address,
    course_fee: Amount,
    total_classes: u64,
    classes_completed: u64,
    course_status: CourseStatus,
    students: Vec<Enrollment>,
}

impl View for StudentData {
    type V = StudentModel;

    open spec fn view(&self) -> StudentModel {
        StudentModel {
            classes: self.classes_completed as nat,
            paid: self.paid_amount@,
            refunded: self.refunded@,
        }
    }
}

impl View for Enrollment {
    type V = EnrollmentModel;

    open spec fn view(&self) -> EnrollmentModel {
        EnrollmentModel { student: self.student@, data: self.data@ }
    }
}

impl View for Transfer {
    type V = TransferModel;

    open spec fn view(&self) -> TransferModel {
        TransferModel { to: self.to@, amount: self.amount@ }
    }
}

/// The records that `enrollments` stand for, one for one.
pub open spec fn enrollment_models(enrollments: Seq<Enrollment>) -> Seq<EnrollmentModel> {
    Seq::new(enrollments.len(), |i: int| enrollments[i]@)
}

/// The transfers that `transfers` stand for, one for one.
pub open spec fn transfer_models(transfers: Seq<Transfer>) -> Seq<TransferModel> {
    Seq::new(transfers.len(), |i: int| transfers[i]@)
}

impl StudentData {
    /// What the escrow still holds for this student, at `share` per class.
    pub fn owed(&self, share: &Amount) -> (owed: Amount)
        ensures
            owed@ == self@.owed(share@),
    {
        let classes = Amount::from_u64(self.classes_completed);
        let released = share.product(&classes);
        let gone = released.sum(&self.refunded);
        match self.paid_amount.checked_sub(&gone) {
            Some(rest) => rest,
            None => Amount::zero(),
        }
    }
}

impl Clone for StudentData {
    fn clone(&self) -> (copy: StudentData)
        ensures
            copy@ == self@,
    {
        StudentData {
            classes_completed: self.classes_completed,
            paid_amount: self.paid_amount.clone(),
            refunded: self.refunded.clone(),
        }
    }
}

impl View for CoursePaymentSc {
    type V = CourseModel;

    closed spec fn view(&self) -> CourseModel {
        CourseModel {
            teacher: self.teacher@,
            fee: self.course_fee@,
            total_classes: self.total_classes as nat,
            classes_completed: self.classes_completed as nat,
            status: self.course_status,
            students: enrollment_models(self.students@),
        }
    }
}

impl CoursePaymentSc {
    /// Whether this escrow is in a state that the operations reach.
    pub open spec fn well_formed(&self) -> bool {
        self@.well_formed()
    }

    /// Where the record of `account` stands, if it has one.
    fn position(&self, account: &Address) -> (found: Option<usize>)
        ensures
            match found {
                Some(i) => i < self@.students.len() && self@.students[i as int].student
                    == account@,
                None => !self@.enrolled(account@),
            },
    {
        let mut i: usize = 0;
        while i < self.students.len()
            invariant
                i <= self.students.len(),
                forall|k: int| 0 <= k < i ==> (#[trigger] self@.students[k]).student != account@,
            decreases self.students.len() - i,
        {
            if self.students[i].student == *account {
                return Some(i);
            }
            i += 1;
        }
        None
    }

    /// Whether this course admits `data` as a student's record, at `share`
    /// per class.
    fn admits(&self, data: &StudentData, share: &Amount) -> (admitted: bool)
        requires
            share@ == self@.share(),
        ensures
            admitted == self@.admits(data@),
    {
        if !(data.paid_amount == self.course_fee) {
            return false;
        }
        if data.classes_completed > self.total_classes {
            return false;
        }
        let classes = Amount::from_u64(data.classes_completed);
        let gone = share.product(&classes).sum(&data.refunded);
        if data.paid_amount.checked_sub(&gone).is_none() {
            return false;
        }
        match self.course_status {
            CourseStatus::Ongoing => data.refunded.is_zero(),
            CourseStatus::Completed => true,
        }
    }

    /// Whether the account of the record at `i` has no earlier record.
    fn first_of_its_account(&self, i: usize) -> (first: bool)
        requires
            i < self.students.len(),
        ensures
            first == (forall|j: int|
                0 <= j < i ==> (#[trigger] self@.students[j]).student
                    != self@.students[i as int].student),
    {
        let mut j: usize = 0;
        while j < i
            invariant
                j <= i,
                i < self.students.len(),
                forall|k: int|
                    0 <= k < j ==> (#[trigger] self@.students[k]).student
                        != self@.students[i as int].student,
            decreases i - j,
        {
            if self.students[j].student == self.students[i].student {
                assert(self@.students[j as int].student == self@.students[i as int].student);
                return false;
            }
            j += 1;
        }
        true
    }

    /// Whether this escrow is in a state that the operations reach.
    fn is_well_formed(&self) -> (sound: bool)
        ensures
            sound == self.well_formed(),
    {
        if self.course_fee.is_zero() || self.total_classes == 0 || self.classes_completed
            > self.total_classes {
            return false;
        }
        let signed_all = self.classes_completed == self.total_classes;
        let completed = match self.course_status {
            CourseStatus::Ongoing => false,
            CourseStatus::Completed => true,
        };
        if completed != signed_all {
            return false;
        }
        let share = self.calculate_share();
        let mut i: usize = 0;
        while i < self.students.len()
            invariant
                i <= self.students.len(),
                share@ == self@.share(),
                forall|k: int| 0 <= k < i ==> self@.admits((#[trigger] self@.students[k]).data),
                forall|a: int, b: int|
                    0 <= a < b < i ==> (#[trigger] self@.students[a]).student != (
                    #[trigger] self@.students[b]).student,
            decreases self.students.len() - i,
        {
            if !self.admits(&self.students[i].data, &share) {
                assert(!self@.admits(self@.students[i as int].data));
                return false;
            }
            if !self.first_of_its_account(i) {
                proof {
                    let j = choose|j: int|
                        0 <= j < i && (#[trigger] self@.students[j]).student
                            == self@.students[i as int].student;
                    assert(self@.students[j].student == self@.students[i as int].student);
                }
                return false;
            }
            i += 1;
        }
        true
    }

    /// The fee divided by the number of classes, rounded down.
    fn calculate_share(&self) -> (share: Amount)
        requires
            self.total_classes > 0,
        ensures
            share@ == self@.share(),
    {
        let classes = Amount::from_u64(self.total_classes);
        self.course_fee.quotient(&classes)
    }

    /// Puts an escrow together from what was kept of it: the agreement, the
    /// progress and the records in the order of enrollment. Gives `None` where
    /// the parts do not make up a state that the operations reach.
    pub fn restore(
        teacher: Address,
        course_fee: Amount,
        total_classes: u64,
        classes_completed: u64,
        course_status: CourseStatus,
        students: Vec<Enrollment>,
    ) -> (restored: Option<CoursePaymentSc>)
        ensures
            ({
                let parts = CourseModel {
                    teacher: teacher@,
                    fee: course_fee@,
                    total_classes: total_classes as nat,
                    classes_completed: classes_completed as nat,
                    status: course_status,
                    students: enrollment_models(students@),
                };
                match restored {
                    Some(course) => parts.well_formed() && course@ == parts,
                    None => !parts.well_formed(),
                }
            }),
    {
        let course = CoursePaymentSc {
            teacher,
            course_fee,
            total_classes,
            classes_completed,
            course_status,
            students,
        };
        if course.is_well_formed() {
            Some(course)
        } else {
            None
        }
    }

    /// Opens a course. `owner` is the account that deployed the escrow and
    /// `caller` the account that asks.
    pub fn init(
        owner: &Address,
        caller: &Address,
        teacher: Address,
        course_fee: Amount,
        total_classes: u64,
    ) -> (result: Result<CoursePaymentSc, CourseError>)
        ensures
            match result {
                Ok(course) => CourseModel::init_outcome(
                    owner@,
                    caller@,
                    teacher@,
                    course_fee@,
                    total_classes as nat,
                ) == Ok::<CourseModel, CourseError>(course@) && course.well_formed(),
                Err(e) => CourseModel::init_outcome(
                    owner@,
                    caller@,
                    teacher@,
                    course_fee@,
                    total_classes as nat,
                ) == Err::<CourseModel, CourseError>(e),
            },
    {
        if !(*caller == *owner) {
            return Err(CourseError::Unauthorized);
        }
        if course_fee.is_zero() {
            return Err(CourseError::InvalidFee);
        }
        if total_classes == 0 {
            return Err(CourseError::InvalidClassCount);
        }
        let course = CoursePaymentSc {
            teacher,
            course_fee,
            total_classes,
            classes_completed: 0,
            course_status: CourseStatus::Ongoing,
            students: Vec::new(),
        };
        proof {
            assert(course@.students =~= Seq::empty());
        }
        Ok(course)
    }

    /// Enrolls `caller`, who sent `payment` with the call. The escrow keeps
    /// the payment.
    pub fn enroll(&mut self, caller: Address, payment: Amount) -> (result: Result<
        (),
        CourseError,
    >)
        requires
            old(self).well_formed(),
        ensures
            final(self).well_formed(),
            match result {
                Ok(_) => old(self)@.enroll_outcome(caller@, payment@) == Ok::<
                    CourseModel,
                    CourseError,
                >(final(self)@),
                Err(e) => old(self)@.enroll_outcome(caller@, payment@) == Err::<
                    CourseModel,
                    CourseError,
                >(e) && final(self)@ == old(self)@,
            },
    {
        if !(payment == self.course_fee) {
            return Err(CourseError::IncorrectPaymentAmount);
        }
        if self.course_status != CourseStatus::Ongoing {
            return Err(CourseError::CourseAlreadyCompleted);
        }
        if self.position(&caller).is_some() {
            return Err(CourseError::AlreadyEnrolled);
        }
        let ghost before = self@;
        let enrollment = Enrollment {
            student: caller,
            data: StudentData {
                classes_completed: 0,
                paid_amount: payment,
                refunded: Amount::zero(),
            },
        };
        self.students.push(enrollment);
        proof {
            assert(self@.students =~= before.students.push(enrollment@));
            before.lemma_enroll(caller@, payment@);
        }
        Ok(())
    }

    /// What the teacher receives for one confirmed class: the fee divided by
    /// the number of classes, rounded down.
    pub fn calculate_proportional_payment(&self) -> (share: Amount)
        requires
            self.well_formed(),
        ensures
            share@ == self@.share(),
    {
        self.calculate_share()
    }

    /// Records that `caller` confirms a class, and returns the transfer of one
    /// share to the teacher.
    pub fn complete_class(&mut self, caller: &Address) -> (result: Result<Transfer, CourseError>)
        requires
            old(self).well_formed(),
        ensures
            final(self).well_formed(),
            match result {
                Ok(transfer) => old(self)@.complete_class_outcome(caller@) == Ok::<
                    (CourseModel, TransferModel),
                    CourseError,
                >((final(self)@, transfer@)),
                Err(e) => old(self)@.complete_class_outcome(caller@) == Err::<
                    (CourseModel, TransferModel),
                    CourseError,
                >(e) && final(self)@ == old(self)@,
            },
    {
        let k: usize = match self.position(caller) {
            Some(k) => k,
            None => {
                return Err(CourseError::NotEnrolled);
            },
        };
        if self.course_status != CourseStatus::Ongoing {
            return Err(CourseError::CourseAlreadyCompleted);
        }
        let ghost before = self@;
        proof {
            before.lemma_record_is_unique(k as int);
        }
        if self.students[k].data.classes_completed >= self.total_classes {
            return Err(CourseError::ClassAllowanceExhausted);
        }
        let share = self.calculate_proportional_payment();
        let record = &self.students[k];
        let updated = Enrollment {
            student: record.student,
            data: StudentData {
                classes_completed: record.data.classes_completed + 1,
                paid_amount: record.data.paid_amount.clone(),
                refunded: record.data.refunded.clone(),
            },
        };
        self.students.set(k, updated);
        proof {
            lemma_with_class_changes_one(before.students, k as int);
            assert(self@.students =~= before.students.update(k as int, updated@));
            before.lemma_complete_class(caller@);
        }
        Ok(Transfer { to: self.teacher, amount: share })
    }

    /// Returns to every student what the escrow still holds for that student,
    /// once the course is completed. The result lists the transfers in the
    /// order in which the students enrolled; each is recorded as returned, so
    /// that nothing is returned twice.
    pub fn refund_remaining_funds(&mut self) -> (refunds: Vec<Transfer>)
        requires
            old(self).well_formed(),
            old(self)@.status == CourseStatus::Completed,
        ensures
            final(self).well_formed(),
            final(self)@ == old(self)@.settled(),
            transfer_models(refunds@) == old(self)@.refunds_due(),
    {
        let share = self.calculate_proportional_payment();
        let ghost before = self@;
        let mut refunds: Vec<Transfer> = Vec::new();
        let n: usize = self.students.len();
        let mut i: usize = 0;
        while i < n
            invariant
                i <= n,
                n == self.students.len(),
                n == before.students.len(),
                share@ == before.share(),
                self@.teacher == before.teacher,
                self@.fee == before.fee,
                self@.total_classes == before.total_classes,
                self@.classes_completed == before.classes_completed,
                self@.status == before.status,
                forall|j: int|
                    0 <= j < i ==> (#[trigger] self@.students[j]) == settled_among(
                        before.students,
                        before.share(),
                    )[j],
                forall|j: int| i <= j < n ==> (#[trigger] self@.students[j]) == before.students[j],
                transfer_models(refunds@) == refunds_among(
                    before.students.take(i as int),
                    before.share(),
                ),
            decreases n - i,
        {
            let record = &self.students[i];
            let student = record.student;
            let owed = record.data.owed(&share);
            let ghost earlier = refunds@;
            let ghost unsettled = self@.students;
            proof {
                assert(before.students.take(i + 1).drop_last() =~= before.students.take(i as int));
                assert(before.students.take(i + 1).last() == before.students[i as int]);
                assert(unsettled[i as int] == before.students[i as int]);
            }
            if !owed.is_zero() {
                let settled = Enrollment {
                    student,
                    data: StudentData {
                        classes_completed: record.data.classes_completed,
                        paid_amount: record.data.paid_amount.clone(),
                        refunded: record.data.refunded.sum(&owed),
                    },
                };
                let refund = Transfer { to: student, amount: owed };
                self.students.set(i, settled);
                refunds.push(refund);
                proof {
                    assert(transfer_models(refunds@) =~= transfer_models(earlier).push(refund@));
                }
            }
            proof {
                assert forall|j: int| 0 <= j < i + 1 implies (#[trigger] self@.students[j])
                    == settled_among(before.students, before.share())[j] by {
                    if j < i {
                        assert(self@.students[j] == unsettled[j]);
                    }
                }
                assert forall|j: int| i + 1 <= j < n implies (#[trigger] self@.students[j])
                    == before.students[j] by {
                    assert(self@.students[j] == unsettled[j]);
                }
            }
            i += 1;
        }
        proof {
            assert(before.students.take(n as int) =~= before.students);
            assert(self@.students =~= settled_among(before.students, before.share()));
            before.lemma_settled();
        }
        refunds
    }

    /// Records that `caller` signs a class as taught. With the last class the
    /// course is completed and the result lists the refunds to the students;
    /// before that it is empty.
    pub fn sign_class(&mut self, caller: &Address) -> (result: Result<Vec<Transfer>, CourseError>)
        requires
            old(self).well_formed(),
        ensures
            final(self).well_formed(),
            match result {
                Ok(refunds) => old(self)@.sign_class_outcome(caller@) == Ok::<
                    (CourseModel, Seq<TransferModel>),
                    CourseError,
                >((final(self)@, transfer_models(refunds@))),
                Err(e) => old(self)@.sign_class_outcome(caller@) == Err::<
                    (CourseModel, Seq<TransferModel>),
                    CourseError,
                >(e) && final(self)@ == old(self)@,
            },
    {
        if !(*caller == self.teacher) {
            return Err(CourseError::Unauthorized);
        }
        if self.course_status != CourseStatus::Ongoing {
            return Err(CourseError::CourseAlreadyCompleted);
        }
        let ghost before = self@;
        proof {
            before.lemma_sign_class(caller@);
        }
        self.classes_completed = self.classes_completed + 1;
        if self.classes_completed >= self.total_classes {
            self.course_status = CourseStatus::Completed;
            proof {
                assert(self@.students == before.students);
                assert forall|j: int| 0 <= j < self@.students.len() implies self@.admits(
                    (#[trigger] self@.students[j]).data,
                ) by {
                    assert(self@.students[j] == before.students[j]);
                }
            }
            let refunds = self.refund_remaining_funds();
            Ok(refunds)
        } else {
            let refunds: Vec<Transfer> = Vec::new();
            proof {
                assert(transfer_models(refunds@) =~= Seq::empty());
            }
            Ok(refunds)
        }
    }

    /// What the escrow holds: what was paid in and has neither gone to the
    /// teacher nor been returned.
    pub fn get_current_funds(&self) -> (funds: Amount)
        requires
            self.well_formed(),
        ensures
            funds@ == self@.funds(),
    {
        let share = self.calculate_proportional_payment();
        let mut funds = Amount::zero();
        let mut i: usize = 0;
        while i < self.students.len()
            invariant
                i <= self.students.len(),
                share@ == self@.share(),
                funds@ == owed_among(self@.students.take(i as int), self@.share()),
            decreases self.students.len() - i,
        {
            let owed = self.students[i].data.owed(&share);
            proof {
                assert(self@.students.take(i + 1).drop_last() =~= self@.students.take(i as int));
                assert(self@.students.take(i + 1).last() == self@.students[i as int]);
            }
            funds = funds.sum(&owed);
            i += 1;
        }
        proof {
            assert(self@.students.take(i as int) =~= self@.students);
        }
        funds
    }

    /// Whether the course still runs or has ended.
    pub fn get_course_status(&self) -> (status: CourseStatus)
        ensures
            status == self@.status,
    {
        self.course_status
    }

    /// The teacher's account.
    pub fn get_teacher(&self) -> (teacher: Address)
        ensures
            teacher@ == self@.teacher,
    {
        self.teacher
    }

    /// The fee that every student pays.
    pub fn get_course_fee(&self) -> (fee: Amount)
        ensures
            fee@ == self@.fee,
    {
        self.course_fee.clone()
    }

    /// The number of classes of the course.
    pub fn get_total_classes(&self) -> (classes: u64)
        ensures
            classes == self@.total_classes,
    {
        self.total_classes
    }

    /// The number of classes that the teacher has signed.
    pub fn get_classes_completed(&self) -> (classes: u64)
        ensures
            classes == self@.classes_completed,
    {
        self.classes_completed
    }

    /// The record of `student`, or `None` where that account is not enrolled.
    pub fn get_student(&self, student: &Address) -> (found: Option<StudentData>)
        requires
            self.well_formed(),
        ensures
            match found {
                Some(data) => self@.enrolled(student@) && data@ == self@.record(student@),
                None => !self@.enrolled(student@),
            },
    {
        match self.position(student) {
            Some(k) => {
                proof {
                    self@.lemma_record_is_unique(k as int);
                }
                Some(self.students[k].data.clone())
            },
            None => None,
        }
    }

    /// The records, in the order in which the students enrolled.
    pub fn students(&self) -> (records: &Vec<Enrollment>)
        ensures
            enrollment_models(records@) == self@.students,
    {
        &self.students
    }
}

} // verus!
