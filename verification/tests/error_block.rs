use runemark::{ColorMode, Console, ErrorBlock};

#[test]
fn error_block_rendering() {
    let block = ErrorBlock::new("Required toolchain is unavailable")
        .with_explanation("The configured version is not installed.")
        .with_remedy("Install the required toolchain:")
        .add_command("toolchain install stable");

    let console = Console::new(ColorMode::Never, false, true);
    let output = block.render(console);
    assert!(output.contains("[FAIL] Required toolchain is unavailable"));
    assert!(output.contains("The configured version is not installed."));
    assert!(output.contains("Remedy: Install the required toolchain:"));
    assert!(output.contains("$ toolchain install stable"));
}

#[test]
fn a_bare_error_block_is_its_heading() {
    let console = Console::new(ColorMode::Never, false, true);
    assert_eq!(ErrorBlock::new("Oops").render(console), "[FAIL] Oops\n");
}

#[test]
fn an_error_block_writes_after_what_is_there() {
    let console = Console::new(ColorMode::Never, false, true);
    let mut out = String::from("start\n");
    ErrorBlock::new("Oops").add_command("retry").write_to(console, &mut out);
    assert_eq!(out, "start\n[FAIL] Oops\n\n  $ retry\n");
}
