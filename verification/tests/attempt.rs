use tty_share::attempt::{after_attempt, AfterAttempt, Attempt};

#[test]
fn finished_attempt_is_handed_on() {
    assert_eq!(after_attempt(Attempt::Done), AfterAttempt::Return);
}

#[test]
fn failed_attempt_is_handed_on() {
    assert_eq!(after_attempt(Attempt::Failed), AfterAttempt::Return);
}

#[test]
fn attempt_that_would_block_is_retried() {
    assert_eq!(after_attempt(Attempt::WouldBlock), AfterAttempt::Retry);
}

#[test]
fn interrupted_attempt_is_retried() {
    assert_eq!(after_attempt(Attempt::Interrupted), AfterAttempt::Retry);
}
