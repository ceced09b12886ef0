use lbfgsb::task::{
    is_fg, ExitReason, StopReason, Task, CONVERGENCE, CONVERGENCE_END, FG, FG_END, NEW_X, START,
};

#[test]
fn the_evaluation_band() {
    assert!(!is_fg(9));
    for code in 10..=15 {
        assert!(is_fg(code), "{}", code);
    }
    assert!(!is_fg(16));
    assert!(!is_fg(0));
    assert!(!is_fg(1));
    assert!(!is_fg(2));
    assert!(!is_fg(-1));
    assert!(!is_fg(i64::MIN));
    assert!(!is_fg(i64::MAX));
    assert_eq!(FG, 10);
    assert_eq!(FG_END, 15);
}

#[test]
fn a_code_beyond_the_low_word_is_outside_the_band() {
    assert!(!is_fg((1i64 << 32) + 12));
    assert!(!is_fg(-(1i64 << 32) + 10));
    assert!(!is_fg((1i64 << 32) + 16));
    assert!(!is_fg((1i64 << 32) + 10));
    assert!(!is_fg((1i64 << 32) + 15));
    assert_eq!(
        Task::from_code((1i64 << 32) + 10),
        Task::Stopped(StopReason::NumericalFailure)
    );
    assert_eq!(Task::from_code((1i64 << 32) + 2), Task::Stopped(StopReason::NumericalFailure));
    assert_eq!(Task::from_code((1i64 << 32) + 21), Task::Stopped(StopReason::NumericalFailure));
}

#[test]
fn codes_and_their_tasks() {
    assert_eq!(Task::from_code(START as i64), Task::Start);
    assert_eq!(Task::from_code(NEW_X as i64), Task::NewIterate);
    assert_eq!(Task::from_code(1), Task::Start);
    assert_eq!(Task::from_code(2), Task::NewIterate);
    for code in 10..=15 {
        assert_eq!(Task::from_code(code), Task::RequestEvaluation);
    }
    for code in CONVERGENCE as i64..=CONVERGENCE_END as i64 {
        assert_eq!(Task::from_code(code), Task::Converged);
    }
    assert_eq!(Task::from_code(20), Task::Converged);
    assert_eq!(Task::from_code(25), Task::Converged);
    for code in [0i64, 3, 4, 9, 16, 19, 26, 30, 101, 209, -7, i64::MAX, i64::MIN] {
        assert_eq!(Task::from_code(code), Task::Stopped(StopReason::NumericalFailure), "{}", code);
    }
}

#[test]
fn terminal_tasks_and_exit_reasons() {
    assert!(!Task::Start.is_terminal());
    assert!(!Task::RequestEvaluation.is_terminal());
    assert!(!Task::NewIterate.is_terminal());
    assert!(Task::Converged.is_terminal());
    assert!(Task::Stopped(StopReason::UserCancelled).is_terminal());
    assert!(Task::Stopped(StopReason::NumericalFailure).is_terminal());

    assert_eq!(Task::Start.exit_reason(), None);
    assert_eq!(Task::RequestEvaluation.exit_reason(), None);
    assert_eq!(Task::NewIterate.exit_reason(), None);
    assert_eq!(Task::Converged.exit_reason(), Some(ExitReason::Converged));
    assert_eq!(
        Task::Stopped(StopReason::UserCancelled).exit_reason(),
        Some(ExitReason::Stopped(StopReason::UserCancelled))
    );
    assert_eq!(
        Task::Stopped(StopReason::NumericalFailure).exit_reason(),
        Some(ExitReason::Stopped(StopReason::NumericalFailure))
    );
}
