use graze::mode::{AppMode, InputVariant, OverlayVariant};

#[test]
fn badges() {
    assert_eq!(AppMode::Normal.badge(), " NORMAL ");
    assert_eq!(AppMode::Input(InputVariant::Filter).badge(), " FILTER ");
    assert_eq!(AppMode::Input(InputVariant::GoToRow).badge(), " GOTO ");
    assert_eq!(AppMode::Overlay(OverlayVariant::ColumnJump).badge(), " JUMP ");
    assert_eq!(AppMode::Quitting.badge(), " QUIT ");
}

#[test]
fn hints_joined() {
    assert_eq!(AppMode::Overlay(OverlayVariant::Help).hints_string(), "Esc:close");
    assert_eq!(AppMode::Input(InputVariant::Search).hints_string(), "Enter:apply Esc:cancel");
    assert_eq!(AppMode::Quitting.hints_string(), "");
    assert_eq!(AppMode::Normal.hints().len(), 8);
}

#[test]
fn mode_kinds() {
    assert!(AppMode::Input(InputVariant::Search).is_input());
    assert!(!AppMode::Normal.is_input());
    assert!(AppMode::Overlay(OverlayVariant::Stats).is_overlay());
    assert!(!AppMode::Sql.is_overlay());
}
