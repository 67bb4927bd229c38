use repo_sync::commands::ActionCommand;
use repo_sync::run::RunMode;

#[test]
fn command_lines_carry_level_and_message() {
    assert_eq!(ActionCommand::Debug("a".to_string()).command_line(), "::debug::a");
    assert_eq!(ActionCommand::Notice("Yay".to_string()).command_line(), "::notice::Yay");
    assert_eq!(ActionCommand::Warning("w x".to_string()).command_line(), "::warning::w x");
    assert_eq!(ActionCommand::Error("".to_string()).command_line(), "::error::");
}

#[test]
fn run_mode_follows_discrepancies_and_confirm() {
    assert_eq!(RunMode::decide(0, true), RunMode::NoChanges);
    assert_eq!(RunMode::decide(0, false), RunMode::NoChanges);
    assert_eq!(RunMode::decide(2, false), RunMode::DryRun);
    assert_eq!(RunMode::decide(1, true), RunMode::Apply);
}
