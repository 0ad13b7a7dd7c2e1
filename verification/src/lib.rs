//! A tuition escrow between one teacher and many students.
//!
//! Students prepay a fixed fee, the teacher is paid one share per class that a
//! student confirms, and whatever is left is returned to the students when the
//! teacher has signed the last class.
//!
//! The escrow keeps, for every student, the payment, the number of classes
//! that the student has confirmed and what has been returned. One share is the
//! fee divided by the number of classes, rounded down. A student confirms at
//! most as many classes as the course has, so the teacher never receives more
//! for a student than that student paid; what the rounding leaves of a fee
//! goes back to the student with the refund. Only the teacher's signatures
//! advance the course, and the last one ends it.
//!
//! The escrow does not move money itself. An operation is told who calls and
//! what was paid with the call, and returns the transfers that the ledger has
//! to carry out. The module [`model`] says what each operation does, the
//! module [`course`] does it, and the module [`laws`] holds what follows.

pub mod address;
pub mod amount;
pub mod course;
pub mod laws;
pub mod model;

pub use address::Address;
pub use amount::Amount;
pub use course::{CoursePaymentSc, Enrollment, StudentData, Transfer};
pub use model::{CourseError, CourseStatus};
