//! The escrow as a mathematical state machine.
//!
//! A [`CourseModel`] is the whole state of one course: the agreement between
//! the teacher and the students, and one record per enrolled student. Each
//! operation is a function from a state and its inputs to either the next
//! state with the transfers that leave the escrow, or the reason for which the
//! operation is rejected. A rejected operation changes nothing.

use vstd::prelude::*;

verus! {

/// Whether the course still runs or has ended. A course starts `Ongoing` and
/// becomes `Completed` once, when the teacher signs the last class.
#[derive(Clone, Copy, Debug, PartialEq, Eq, Structural)]
pub enum CourseStatus {
    Ongoing,
    Completed,
}

/// Why an operation was rejected.
#[derive(Clone, Copy, Debug, PartialEq, Eq, Structural)]
pub enum CourseError {
    /// The caller is not the account that may do this.
    Unauthorized,
    /// The course fee is zero.
    InvalidFee,
    /// The course has no classes.
    InvalidClassCount,
    /// The payment that came with an enrollment is not the course fee.
    IncorrectPaymentAmount,
    /// The course has ended.
    CourseAlreadyCompleted,
    /// The caller is enrolled already.
    AlreadyEnrolled,
    /// The caller is not enrolled.
    NotEnrolled,
    /// The student has confirmed as many classes as the course has.
    ClassAllowanceExhausted,
}

/// What the escrow records of one student.
pub struct StudentModel {
    /// The classes that the student has confirmed.
    pub classes: nat,
    /// What the student paid on enrolling.
    pub paid: nat,
    /// What has been returned to the student.
    pub refunded: nat,
}

/// One student's record under the student's account.
pub struct EnrollmentModel {
    pub student: Seq<u8>,
    pub data: StudentModel,
}

/// An amount that leaves the escrow for an account.
pub struct TransferModel {
    pub to: Seq<u8>,
    pub amount: nat,
}

/// The state of a course.
pub struct CourseModel {
    pub teacher: Seq<u8>,
    pub fee: nat,
    pub total_classes: nat,
    pub classes_completed: nat,
    pub status: CourseStatus,
    /// The records, in the order in which the students enrolled.
    pub students: Seq<EnrollmentModel>,
}

impl StudentModel {
    /// What the teacher has received for this student, at `share` per class.
    pub open spec fn released(self, share: nat) -> nat {
        share * self.classes
    }

    /// What the escrow still holds for this student: the payment less what
    /// went to the teacher and what was returned, and nothing where those
    /// exceed the payment.
    pub open spec fn owed(self, share: nat) -> nat {
        if self.paid > self.released(share) + self.refunded {
            (self.paid - self.released(share) - self.refunded) as nat
        } else {
            0
        }
    }

    /// The record once one more class is confirmed.
    pub open spec fn with_class(self) -> StudentModel {
        StudentModel { classes: self.classes + 1, ..self }
    }

    /// The record once all that is owed has been returned.
    pub open spec fn settled(self, share: nat) -> StudentModel {
        StudentModel { refunded: self.refunded + self.owed(share), ..self }
    }
}

/// The refunds that fall due for `students`, in their order: one for each
/// student to whom something is owed.
pub open spec fn refunds_among(students: Seq<EnrollmentModel>, share: nat) -> Seq<TransferModel>
    decreases students.len(),
{
    if students.len() == 0 {
        Seq::empty()
    } else {
        let earlier = refunds_among(students.drop_last(), share);
        let last = students.last();
        if last.data.owed(share) > 0 {
            earlier.push(TransferModel { to: last.student, amount: last.data.owed(share) })
        } else {
            earlier
        }
    }
}

/// The records of `students` once all that is owed has been returned to each.
pub open spec fn settled_among(students: Seq<EnrollmentModel>, share: nat) -> Seq<
    EnrollmentModel,
> {
    Seq::new(
        students.len(),
        |i: int|
            EnrollmentModel { student: students[i].student, data: students[i].data.settled(share) },
    )
}

/// The records of `students` once `account` has confirmed one more class.
pub open spec fn with_class_among(students: Seq<EnrollmentModel>, account: Seq<u8>) -> Seq<
    EnrollmentModel,
> {
    Seq::new(
        students.len(),
        |i: int|
            if students[i].student == account {
                EnrollmentModel { student: account, data: students[i].data.with_class() }
            } else {
                students[i]
            },
    )
}

/// The sum of the amounts of `transfers`.
pub open spec fn transfers_total(transfers: Seq<TransferModel>) -> nat
    decreases transfers.len(),
{
    if transfers.len() == 0 {
        0
    } else {
        transfers_total(transfers.drop_last()) + transfers.last().amount
    }
}

/// What the escrow holds for `students` together.
pub open spec fn owed_among(students: Seq<EnrollmentModel>, share: nat) -> nat
    decreases students.len(),
{
    if students.len() == 0 {
        0
    } else {
        owed_among(students.drop_last(), share) + students.last().data.owed(share)
    }
}

/// What the teacher has received for `students` together.
pub open spec fn released_among(students: Seq<EnrollmentModel>, share: nat) -> nat
    decreases students.len(),
{
    if students.len() == 0 {
        0
    } else {
        released_among(students.drop_last(), share) + students.last().data.released(share)
    }
}

/// What has been returned to `students` together.
pub open spec fn refunded_among(students: Seq<EnrollmentModel>) -> nat
    decreases students.len(),
{
    if students.len() == 0 {
        0
    } else {
        refunded_among(students.drop_last()) + students.last().data.refunded
    }
}

impl CourseModel {
    /// What the teacher receives for one confirmed class: the fee divided by
    /// the number of classes, rounded down.
    pub open spec fn share(self) -> nat {
        self.fee / self.total_classes
    }

    /// Whether `account` has a record.
    pub open spec fn enrolled(self, account: Seq<u8>) -> bool {
        exists|i: int|
            0 <= i < self.students.len() && (#[trigger] self.students[i]).student == account
    }

    /// The record of `account`, where it is enrolled.
    pub open spec fn record(self, account: Seq<u8>) -> StudentModel
        recommends
            self.enrolled(account),
    {
        let i = choose|i: int|
            0 <= i < self.students.len() && (#[trigger] self.students[i]).student == account;
        self.students[i].data
    }

    /// What the escrow holds.
    pub open spec fn funds(self) -> nat {
        owed_among(self.students, self.share())
    }

    /// What the teacher has received since the course began.
    pub open spec fn released(self) -> nat {
        released_among(self.students, self.share())
    }

    /// What has been returned to the students since the course began.
    pub open spec fn refunded(self) -> nat {
        refunded_among(self.students)
    }

    /// The refunds that fall due when the course ends.
    pub open spec fn refunds_due(self) -> Seq<TransferModel> {
        refunds_among(self.students, self.share())
    }

    /// The state once every refund that is due has been made.
    pub open spec fn settled(self) -> CourseModel {
        CourseModel { students: settled_among(self.students, self.share()), ..self }
    }

    /// The state once `account` has confirmed one more class.
    pub open spec fn with_class(self, account: Seq<u8>) -> CourseModel {
        CourseModel { students: with_class_among(self.students, account), ..self }
    }

    /// Whether `data` can be a student's record in this course: the student
    /// paid the fee, has confirmed no more classes than the course has, and
    /// has had returned no more than the teacher left of the payment, and
    /// nothing while the course runs.
    pub open spec fn admits(self, data: StudentModel) -> bool {
        &&& data.paid == self.fee
        &&& data.classes <= self.total_classes
        &&& data.released(self.share()) + data.refunded <= data.paid
        &&& self.status == CourseStatus::Ongoing ==> data.refunded == 0
    }

    /// The accounts that are enrolled, in the order in which they enrolled.
    pub open spec fn accounts(self) -> Seq<Seq<u8>> {
        Seq::new(self.students.len(), |i: int| self.students[i].student)
    }

    /// What holds of every state that the operations reach.
    ///
    /// The fee and the number of classes are positive; the course is completed
    /// exactly when the teacher has signed all its classes, and no more can be
    /// signed; no account has two records; the course admits every record.
    pub open spec fn well_formed(self) -> bool {
        &&& self.fee > 0
        &&& self.total_classes > 0
        &&& self.classes_completed <= self.total_classes
        &&& (self.status == CourseStatus::Completed) == (self.classes_completed
            == self.total_classes)
        &&& forall|i: int, j: int|
            0 <= i < j < self.students.len() ==> (#[trigger] self.students[i]).student != (
            #[trigger] self.students[j]).student
        &&& forall|i: int|
            0 <= i < self.students.len() ==> self.admits((#[trigger] self.students[i]).data)
    }

    /// Opening a course. Only the owner may open it, the fee and the number of
    /// classes must be positive, and the course starts with no class signed
    /// and no student.
    pub open spec fn init_outcome(
        owner: Seq<u8>,
        caller: Seq<u8>,
        teacher: Seq<u8>,
        fee: nat,
        total_classes: nat,
    ) -> Result<CourseModel, CourseError> {
        if caller != owner {
            Err(CourseError::Unauthorized)
        } else if fee == 0 {
            Err(CourseError::InvalidFee)
        } else if total_classes == 0 {
            Err(CourseError::InvalidClassCount)
        } else {
            Ok(
                CourseModel {
                    teacher,
                    fee,
                    total_classes,
                    classes_completed: 0,
                    status: CourseStatus::Ongoing,
                    students: Seq::empty(),
                },
            )
        }
    }

    /// Enrolling `caller`, who sends `payment`. The payment must be the fee,
    /// the course must run, and the caller must not be enrolled yet. The
    /// escrow keeps the payment and records it under the caller.
    pub open spec fn enroll_outcome(self, caller: Seq<u8>, payment: nat) -> Result<
        CourseModel,
        CourseError,
    > {
        if payment != self.fee {
            Err(CourseError::IncorrectPaymentAmount)
        } else if self.status != CourseStatus::Ongoing {
            Err(CourseError::CourseAlreadyCompleted)
        } else if self.enrolled(caller) {
            Err(CourseError::AlreadyEnrolled)
        } else {
            Ok(
                CourseModel {
                    students: self.students.push(
                        EnrollmentModel {
                            student: caller,
                            data: StudentModel { classes: 0, paid: payment, refunded: 0 },
                        },
                    ),
                    ..self
                },
            )
        }
    }

    /// `caller` confirming a class. The caller must be enrolled, the course
    /// must run, and the caller must have confirmed fewer classes than the
    /// course has. The caller's count goes up by one and one share leaves for
    /// the teacher.
    pub open spec fn complete_class_outcome(self, caller: Seq<u8>) -> Result<
        (CourseModel, TransferModel),
        CourseError,
    > {
        if !self.enrolled(caller) {
            Err(CourseError::NotEnrolled)
        } else if self.status != CourseStatus::Ongoing {
            Err(CourseError::CourseAlreadyCompleted)
        } else if self.record(caller).classes >= self.total_classes {
            Err(CourseError::ClassAllowanceExhausted)
        } else {
            Ok(
                (
                    self.with_class(caller),
                    TransferModel { to: self.teacher, amount: self.share() },
                ),
            )
        }
    }

    /// `caller` signing a class as taught. The caller must be the teacher and
    /// the course must run. The count of classes goes up by one; with the last
    /// class the course is completed and every refund that is due leaves.
    pub open spec fn sign_class_outcome(self, caller: Seq<u8>) -> Result<
        (CourseModel, Seq<TransferModel>),
        CourseError,
    > {
        if caller != self.teacher {
            Err(CourseError::Unauthorized)
        } else if self.status != CourseStatus::Ongoing {
            Err(CourseError::CourseAlreadyCompleted)
        } else if self.classes_completed + 1 >= self.total_classes {
            let ended = CourseModel {
                classes_completed: self.classes_completed + 1,
                status: CourseStatus::Completed,
                ..self
            };
            Ok((ended.settled(), ended.refunds_due()))
        } else {
            Ok(
                (
                    CourseModel { classes_completed: self.classes_completed + 1, ..self },
                    Seq::empty(),
                ),
            )
        }
    }

    /// The state after the teacher has asked `n` times to sign a class. A
    /// signing that is rejected changes nothing.
    pub open spec fn after_signing(self, n: nat) -> CourseModel
        decreases n,
    {
        if n == 0 {
            self
        } else {
            let before = self.after_signing((n - 1) as nat);
            match before.sign_class_outcome(before.teacher) {
                Ok((next, _)) => next,
                Err(_) => before,
            }
        }
    }
}

} // verus!
