//! What holds of the escrow whatever is done with it.
//!
//! The first part is about sums over the students' records. The second part
//! says of each operation that it keeps the state well formed and how it moves
//! the money. The last part states what follows for whole courses: nothing is
//! created or lost, and nobody but the teacher ends a course.

use crate::model::{
    CourseError, CourseModel, CourseStatus, EnrollmentModel, StudentModel, TransferModel,
    owed_among, refunded_among, refunds_among, released_among, settled_among, transfers_total,
    with_class_among,
};
use vstd::prelude::*;

verus! {

/// One share for each class of the course never exceeds the fee.
pub proof fn lemma_shares_within_fee(fee: nat, total_classes: nat, classes: nat)
    requires
        total_classes > 0,
        classes <= total_classes,
    ensures
        (fee / total_classes) * classes <= fee,
{
    let share = fee / total_classes;
    assert(share * total_classes <= fee) by (nonlinear_arith)
        requires
            share == fee / total_classes,
            total_classes > 0,
    ;
    assert(share * classes <= share * total_classes) by (nonlinear_arith)
        requires
            classes <= total_classes,
    ;
}

/// A new record adds what it holds to each sum.
pub proof fn lemma_sums_with_one_more(
    students: Seq<EnrollmentModel>,
    record: EnrollmentModel,
    share: nat,
)
    ensures
        owed_among(students.push(record), share) == owed_among(students, share)
            + record.data.owed(share),
        released_among(students.push(record), share) == released_among(students, share)
            + record.data.released(share),
        refunded_among(students.push(record)) == refunded_among(students) + record.data.refunded,
{
    assert(students.push(record).drop_last() =~= students);
}

/// A record that changes takes what it held out of each sum and puts in what
/// it holds now.
pub proof fn lemma_sums_with_one_changed(
    students: Seq<EnrollmentModel>,
    k: int,
    record: EnrollmentModel,
    share: nat,
)
    requires
        0 <= k < students.len(),
    ensures
        owed_among(students.update(k, record), share) + students[k].data.owed(share)
            == owed_among(students, share) + record.data.owed(share),
        released_among(students.update(k, record), share) + students[k].data.released(share)
            == released_among(students, share) + record.data.released(share),
        refunded_among(students.update(k, record)) + students[k].data.refunded == refunded_among(
            students,
        ) + record.data.refunded,
    decreases students.len(),
{
    let changed = students.update(k, record);
    if k == students.len() - 1 {
        assert(changed.drop_last() =~= students.drop_last());
    } else {
        lemma_sums_with_one_changed(students.drop_last(), k, record, share);
        assert(changed.drop_last() =~= students.drop_last().update(k, record));
    }
}

/// Where every student paid `fee` and no record shows more going out than
/// came in, what is held, what went to the teacher and what was returned make
/// up one fee for each student.
pub proof fn lemma_fees_accounted_for(students: Seq<EnrollmentModel>, share: nat, fee: nat)
    requires
        forall|i: int|
            0 <= i < students.len() ==> {
                let data = (#[trigger] students[i]).data;
                data.paid == fee && data.released(share) + data.refunded <= data.paid
            },
    ensures
        owed_among(students, share) + released_among(students, share) + refunded_among(students)
            == students.len() * fee,
    decreases students.len(),
{
    if students.len() > 0 {
        let earlier = students.drop_last();
        assert forall|i: int| 0 <= i < earlier.len() implies {
            let data = (#[trigger] earlier[i]).data;
            data.paid == fee && data.released(share) + data.refunded <= data.paid
        } by {
            assert(earlier[i] == students[i]);
        }
        lemma_fees_accounted_for(earlier, share, fee);
        let last = students.last();
        assert(last == students[students.len() - 1]);
        assert(earlier.len() * fee + fee == students.len() * fee) by (nonlinear_arith)
            requires
                earlier.len() + 1 == students.len(),
        ;
    }
}

/// Once every student has been settled, nothing is held and no refund is due;
/// what was held has been returned, in transfers that add up to it, and the
/// teacher's part is untouched.
pub proof fn lemma_settled_sums(students: Seq<EnrollmentModel>, share: nat)
    ensures
        owed_among(settled_among(students, share), share) == 0,
        refunds_among(settled_among(students, share), share) == Seq::<TransferModel>::empty(),
        transfers_total(refunds_among(students, share)) == owed_among(students, share),
        refunded_among(settled_among(students, share)) == refunded_among(students) + owed_among(
            students,
            share,
        ),
        released_among(settled_among(students, share), share) == released_among(students, share),
    decreases students.len(),
{
    let settled = settled_among(students, share);
    if students.len() > 0 {
        let earlier = students.drop_last();
        lemma_settled_sums(earlier, share);
        assert(settled.drop_last() =~= settled_among(earlier, share));
        let last = students.last();
        assert(settled.last().data == last.data.settled(share));
        if last.data.owed(share) > 0 {
            let refund = TransferModel { to: last.student, amount: last.data.owed(share) };
            assert(refunds_among(earlier, share).push(refund).drop_last() =~= refunds_among(
                earlier,
                share,
            ));
        }
    } else {
        assert(settled =~= Seq::empty());
    }
}

/// Among records of different accounts, confirming a class changes the record
/// of that account and no other.
pub proof fn lemma_with_class_changes_one(
    students: Seq<EnrollmentModel>,
    k: int,
)
    requires
        0 <= k < students.len(),
        forall|i: int, j: int|
            0 <= i < j < students.len() ==> (#[trigger] students[i]).student != (
            #[trigger] students[j]).student,
    ensures
        with_class_among(students, students[k].student) == students.update(
            k,
            EnrollmentModel { student: students[k].student, data: students[k].data.with_class() },
        ),
{
    let account = students[k].student;
    let changed = students.update(
        k,
        EnrollmentModel { student: account, data: students[k].data.with_class() },
    );
    assert forall|i: int| 0 <= i < students.len() implies with_class_among(students, account)[i]
        == changed[i] by {
        if i < k {
            assert(students[i].student != students[k].student);
        } else if i > k {
            assert(students[k].student != students[i].student);
        }
    }
    assert(with_class_among(students, account) =~= changed);
}

impl CourseModel {
    /// In a well-formed state the record of an enrolled account is the one
    /// record that bears the account.
    pub proof fn lemma_record_is_unique(self, k: int)
        requires
            self.well_formed(),
            0 <= k < self.students.len(),
        ensures
            self.enrolled(self.students[k].student),
            self.record(self.students[k].student) == self.students[k].data,
    {
        let account = self.students[k].student;
        let i = choose|i: int|
            0 <= i < self.students.len() && (#[trigger] self.students[i]).student == account;
        if i < k {
            assert(self.students[i].student != self.students[k].student);
        } else if i > k {
            assert(self.students[k].student != self.students[i].student);
        }
    }

    /// A course that was opened is well formed, runs, and holds nothing.
    pub proof fn law_opened_course(
        owner: Seq<u8>,
        caller: Seq<u8>,
        teacher: Seq<u8>,
        fee: nat,
        total_classes: nat,
    )
        requires
            Self::init_outcome(owner, caller, teacher, fee, total_classes) is Ok,
        ensures
            ({
                let course = Self::init_outcome(owner, caller, teacher, fee, total_classes)->Ok_0;
                &&& course.well_formed()
                &&& course.status == CourseStatus::Ongoing
                &&& course.classes_completed == 0
                &&& course.funds() == 0
                &&& course.released() == 0
                &&& course.refunded() == 0
            }),
    {
    }

    /// An enrollment keeps the state well formed and adds exactly one fee to
    /// what the escrow holds: the new record shows the fee as paid, no class
    /// confirmed and nothing returned.
    pub proof fn lemma_enroll(self, caller: Seq<u8>, payment: nat)
        requires
            self.well_formed(),
            self.enroll_outcome(caller, payment) is Ok,
        ensures
            ({
                let next = self.enroll_outcome(caller, payment)->Ok_0;
                &&& next.well_formed()
                &&& next.enrolled(caller)
                &&& next.record(caller) == StudentModel { classes: 0, paid: self.fee, refunded: 0 }
                &&& next.accounts() == self.accounts().push(caller)
                &&& next.funds() == self.funds() + self.fee
                &&& next.released() == self.released()
                &&& next.refunded() == self.refunded()
            }),
    {
        let next = self.enroll_outcome(caller, payment)->Ok_0;
        assert(next.accounts() =~= self.accounts().push(caller));
        let record = EnrollmentModel {
            student: caller,
            data: StudentModel { classes: 0, paid: payment, refunded: 0 },
        };
        let share = self.share();
        assert(record.data.released(share) == 0) by (nonlinear_arith)
            requires
                record.data.classes == 0,
        ;
        assert forall|i: int, j: int| 0 <= i < j < next.students.len() implies (
        #[trigger] next.students[i]).student != (#[trigger] next.students[j]).student by {
            if j == self.students.len() {
                assert(self.students[i].student != caller);
            }
        }
        lemma_sums_with_one_more(self.students, record, share);
        let k = self.students.len() as int;
        assert(next.students[k] == record);
        next.lemma_record_is_unique(k);
    }

    /// A confirmed class keeps the state well formed and moves exactly one
    /// share from what the escrow holds to the teacher.
    pub proof fn lemma_complete_class(self, caller: Seq<u8>)
        requires
            self.well_formed(),
            self.complete_class_outcome(caller) is Ok,
        ensures
            ({
                let (next, transfer) = self.complete_class_outcome(caller)->Ok_0;
                &&& next.well_formed()
                &&& transfer.to == self.teacher
                &&& transfer.amount == self.share()
                &&& next.funds() + transfer.amount == self.funds()
                &&& next.released() == self.released() + transfer.amount
                &&& next.refunded() == self.refunded()
                &&& next.accounts() == self.accounts()
                &&& next.enrolled(caller)
                &&& next.record(caller) == self.record(caller).with_class()
            }),
    {
        let (next, transfer) = self.complete_class_outcome(caller)->Ok_0;
        assert(next.accounts() =~= self.accounts());
        let share = self.share();
        let k = choose|i: int|
            0 <= i < self.students.len() && (#[trigger] self.students[i]).student == caller;
        self.lemma_record_is_unique(k);
        let before = self.students[k];
        let after = EnrollmentModel { student: caller, data: before.data.with_class() };
        lemma_with_class_changes_one(self.students, k);
        assert(next.students == self.students.update(k, after));
        lemma_shares_within_fee(self.fee, self.total_classes, after.data.classes);
        lemma_shares_within_fee(self.fee, self.total_classes, before.data.classes);
        assert(after.data.released(share) == before.data.released(share) + share)
            by (nonlinear_arith)
            requires
                after.data.classes == before.data.classes + 1,
                after.data.released(share) == share * after.data.classes,
                before.data.released(share) == share * before.data.classes,
        ;
        lemma_sums_with_one_changed(self.students, k, after, share);
        assert forall|i: int| 0 <= i < next.students.len() implies next.admits(
            (#[trigger] next.students[i]).data,
        ) by {
            if i != k {
                assert(next.students[i] == self.students[i]);
            }
        }
        assert forall|i: int, j: int| 0 <= i < j < next.students.len() implies (
        #[trigger] next.students[i]).student != (#[trigger] next.students[j]).student by {
            assert(next.students[i].student == self.students[i].student);
            assert(next.students[j].student == self.students[j].student);
        }
        assert(next.students[k] == after);
        next.lemma_record_is_unique(k);
    }

    /// Settling a completed course keeps the state well formed and empties the
    /// escrow: the refunds add up to what was held, each is recorded as
    /// returned, and afterwards no refund is due.
    pub proof fn lemma_settled(self)
        requires
            self.well_formed(),
            self.status == CourseStatus::Completed,
        ensures
            self.settled().well_formed(),
            self.settled().funds() == 0,
            self.settled().refunds_due() == Seq::<TransferModel>::empty(),
            transfers_total(self.refunds_due()) == self.funds(),
            self.settled().refunded() == self.refunded() + self.funds(),
            self.settled().released() == self.released(),
            self.settled().accounts() == self.accounts(),
    {
        lemma_settled_sums(self.students, self.share());
        let next = self.settled();
        assert(next.accounts() =~= self.accounts());
        assert forall|i: int| 0 <= i < next.students.len() implies next.admits(
            (#[trigger] next.students[i]).data,
        ) by {
            assert(next.students[i].data == self.students[i].data.settled(self.share()));
        }
        assert forall|i: int, j: int| 0 <= i < j < next.students.len() implies (
        #[trigger] next.students[i]).student != (#[trigger] next.students[j]).student by {
            assert(next.students[i].student == self.students[i].student);
            assert(next.students[j].student == self.students[j].student);
        }
    }

    /// A signed class keeps the state well formed and counts as one class.
    /// Before the last class nothing else changes. With the last class the
    /// course is completed and the escrow is emptied: the refunds add up to
    /// what was held.
    pub proof fn lemma_sign_class(self, caller: Seq<u8>)
        requires
            self.well_formed(),
            self.sign_class_outcome(caller) is Ok,
        ensures
            ({
                let (next, refunds) = self.sign_class_outcome(caller)->Ok_0;
                &&& next.well_formed()
                &&& next.classes_completed == self.classes_completed + 1
                &&& next.accounts() == self.accounts()
                &&& next.released() == self.released()
                &&& next.funds() + transfers_total(refunds) == self.funds()
                &&& next.refunded() == self.refunded() + transfers_total(refunds)
                &&& next.status == CourseStatus::Ongoing ==> next.students == self.students
                    && refunds == Seq::<TransferModel>::empty()
                &&& next.status == CourseStatus::Completed ==> next.funds() == 0
            }),
    {
        if self.classes_completed + 1 >= self.total_classes {
            let ended = CourseModel {
                classes_completed: self.classes_completed + 1,
                status: CourseStatus::Completed,
                ..self
            };
            assert forall|i: int| 0 <= i < ended.students.len() implies ended.admits(
                (#[trigger] ended.students[i]).data,
            ) by {
                assert(ended.students[i] == self.students[i]);
            }
            ended.lemma_settled();
        }
    }

    /// Conservation. In every well-formed state, what the escrow holds, what
    /// the teacher has received and what has been returned to the students
    /// make up exactly one fee for each enrolled student.
    pub proof fn law_conservation(self)
        requires
            self.well_formed(),
        ensures
            self.funds() + self.released() + self.refunded() == self.students.len() * self.fee,
    {
        lemma_fees_accounted_for(self.students, self.share(), self.fee);
    }

    /// Every enrolled student is recorded as having paid exactly the fee.
    pub proof fn law_paid_amount_is_fee(self, account: Seq<u8>)
        requires
            self.well_formed(),
            self.enrolled(account),
        ensures
            self.record(account).paid == self.fee,
    {
    }

    /// An account is enrolled exactly when it stands among the accounts.
    pub proof fn law_enrolled_accounts(self, account: Seq<u8>)
        ensures
            self.enrolled(account) == self.accounts().contains(account),
    {
        if self.enrolled(account) {
            let i = choose|i: int|
                0 <= i < self.students.len() && (#[trigger] self.students[i]).student == account;
            assert(self.accounts()[i] == account);
        }
        if self.accounts().contains(account) {
            let i = choose|i: int| 0 <= i < self.accounts().len() && self.accounts()[i] == account;
            assert(self.students[i].student == account);
        }
    }

    /// While the course runs, an enrollment with the right payment by an
    /// account that is enrolled is rejected as enrolled already.
    pub proof fn law_enrolled_account_rejected(self, caller: Seq<u8>)
        requires
            self.enrolled(caller),
            self.status == CourseStatus::Ongoing,
        ensures
            self.enroll_outcome(caller, self.fee) == Err::<CourseModel, CourseError>(
                CourseError::AlreadyEnrolled,
            ),
    {
    }

    /// An account that has just enrolled and tries again with the right
    /// payment is rejected as enrolled already.
    pub proof fn law_second_enrollment_rejected(self, caller: Seq<u8>, payment: nat)
        requires
            self.well_formed(),
            self.enroll_outcome(caller, payment) is Ok,
        ensures
            self.enroll_outcome(caller, payment)->Ok_0.enroll_outcome(caller, payment) == Err::<
                CourseModel,
                CourseError,
            >(CourseError::AlreadyEnrolled),
    {
        self.lemma_enroll(caller, payment);
    }

    /// Signing classes counts them. From a well-formed state, `n` signings by
    /// the teacher that stay within the classes of the course raise the count
    /// by `n`, and the course is completed exactly when the count has reached
    /// the number of classes.
    pub proof fn law_signed_classes_counted(self, n: nat)
        requires
            self.well_formed(),
            self.classes_completed + n <= self.total_classes,
        ensures
            self.after_signing(n).well_formed(),
            self.after_signing(n).teacher == self.teacher,
            self.after_signing(n).total_classes == self.total_classes,
            self.after_signing(n).classes_completed == self.classes_completed + n,
            (self.after_signing(n).status == CourseStatus::Completed) == (self.classes_completed
                + n == self.total_classes),
        decreases n,
    {
        if n > 0 {
            self.law_signed_classes_counted((n - 1) as nat);
            let before = self.after_signing((n - 1) as nat);
            before.lemma_sign_class(before.teacher);
        }
    }

    /// Only the teacher signs a class: from any other account the signing is
    /// rejected as unauthorized, whatever the state.
    pub proof fn law_only_teacher_signs(self, caller: Seq<u8>)
        requires
            caller != self.teacher,
        ensures
            self.sign_class_outcome(caller) == Err::<
                (CourseModel, Seq<TransferModel>),
                CourseError,
            >(CourseError::Unauthorized),
    {
    }

    /// A completed course is closed: it rejects every enrollment, every
    /// confirmation and every signing. The reason is that the course has
    /// ended wherever the call would otherwise have been accepted: for an
    /// enrollment with the right payment, for a class confirmed by an enrolled
    /// student and for a signing by the teacher.
    pub proof fn law_completed_course_is_closed(self, caller: Seq<u8>, payment: nat)
        requires
            self.status == CourseStatus::Completed,
        ensures
            self.enroll_outcome(caller, payment) is Err,
            self.complete_class_outcome(caller) is Err,
            self.sign_class_outcome(caller) is Err,
            payment == self.fee ==> self.enroll_outcome(caller, payment) == Err::<
                CourseModel,
                CourseError,
            >(CourseError::CourseAlreadyCompleted),
            self.enrolled(caller) ==> self.complete_class_outcome(caller) == Err::<
                (CourseModel, TransferModel),
                CourseError,
            >(CourseError::CourseAlreadyCompleted),
            caller == self.teacher ==> self.sign_class_outcome(caller) == Err::<
                (CourseModel, Seq<TransferModel>),
                CourseError,
            >(CourseError::CourseAlreadyCompleted),
    {
    }

    /// No operation touches the agreement or turns the course back: the
    /// teacher, the fee and the number of classes stay as they were opened,
    /// the count of signed classes never falls, and only a signing changes it
    /// or the status.
    pub proof fn law_agreement_is_fixed(self, caller: Seq<u8>, payment: nat)
        ensures
            self.enroll_outcome(caller, payment) is Ok ==> {
                let next = self.enroll_outcome(caller, payment)->Ok_0;
                &&& next.teacher == self.teacher
                &&& next.fee == self.fee
                &&& next.total_classes == self.total_classes
                &&& next.classes_completed == self.classes_completed
                &&& next.status == self.status
            },
            self.complete_class_outcome(caller) is Ok ==> {
                let next = self.complete_class_outcome(caller)->Ok_0.0;
                &&& next.teacher == self.teacher
                &&& next.fee == self.fee
                &&& next.total_classes == self.total_classes
                &&& next.classes_completed == self.classes_completed
                &&& next.status == self.status
            },
            self.sign_class_outcome(caller) is Ok ==> {
                let next = self.sign_class_outcome(caller)->Ok_0.0;
                &&& next.teacher == self.teacher
                &&& next.fee == self.fee
                &&& next.total_classes == self.total_classes
                &&& next.classes_completed == self.classes_completed + 1
                &&& self.status == CourseStatus::Ongoing
            },
    {
    }

    /// A second settlement right after the first transfers nothing and changes
    /// nothing.
    pub proof fn law_settling_twice(self)
        ensures
            self.settled().refunds_due() == Seq::<TransferModel>::empty(),
            self.settled().settled() == self.settled(),
    {
        let share = self.share();
        lemma_settled_sums(self.students, share);
        let once = self.settled();
        let twice = once.settled();
        assert forall|i: int| 0 <= i < once.students.len() implies twice.students[i]
            == once.students[i] by {
            assert(once.students[i].data == self.students[i].data.settled(share));
        }
        assert(twice.students =~= once.students);
    }
}

} // verus!
