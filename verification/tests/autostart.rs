use site_checker::autostart::{needs_repair, recorded_path, stable_path};

// ---- stable_path: the Cellar -> opt rewrite ----

#[test]
fn apple_silicon_keg_rewrites_to_the_opt_path() {
    assert_eq!(
        stable_path(
            "/opt/homebrew/Cellar/site-checker/1.0.0/libexec/Site Checker.app/Contents/MacOS/site-checker"
        ),
        Some(
            "/opt/homebrew/opt/site-checker/libexec/Site Checker.app/Contents/MacOS/site-checker"
                .to_string()
        )
    );
}

#[test]
fn intel_prefix_rewrites_the_same_way() {
    assert_eq!(
        stable_path(
            "/usr/local/Cellar/site-checker/1.0.0/libexec/Site Checker.app/Contents/MacOS/site-checker"
        ),
        Some(
            "/usr/local/opt/site-checker/libexec/Site Checker.app/Contents/MacOS/site-checker"
                .to_string()
        )
    );
}

#[test]
fn a_relocated_prefix_rewrites_the_same_way() {
    assert_eq!(
        stable_path(
            "/Users/x/brew/Cellar/site-checker/1.0.0/libexec/Site Checker.app/Contents/MacOS/site-checker"
        ),
        Some(
            "/Users/x/brew/opt/site-checker/libexec/Site Checker.app/Contents/MacOS/site-checker"
                .to_string()
        )
    );
}

#[test]
fn a_version_with_a_revision_suffix_is_still_dropped() {
    assert_eq!(
        stable_path(
            "/opt/homebrew/Cellar/site-checker/1.0.0_1/libexec/Site Checker.app/Contents/MacOS/site-checker"
        ),
        Some(
            "/opt/homebrew/opt/site-checker/libexec/Site Checker.app/Contents/MacOS/site-checker"
                .to_string()
        )
    );
}

#[test]
fn a_hand_built_copy_in_applications_has_no_stable_path() {
    assert_eq!(
        stable_path("/Applications/Site Checker.app/Contents/MacOS/site-checker"),
        None
    );
}

#[test]
fn a_development_build_has_no_stable_path() {
    assert_eq!(
        stable_path("/Users/x/src/site-checker/src-tauri/target/debug/site-checker"),
        None
    );
}

#[test]
fn cellar_with_no_version_component_is_not_a_keg() {
    assert_eq!(stable_path("/opt/homebrew/Cellar/site-checker"), None);
}

#[test]
fn cellar_with_nothing_after_the_version_is_not_a_keg() {
    assert_eq!(stable_path("/opt/homebrew/Cellar/site-checker/1.0.0"), None);
}

#[test]
fn the_last_cellar_component_wins() {
    assert_eq!(
        stable_path(
            "/Users/x/Cellar/notes/opt/homebrew/Cellar/site-checker/1.0.0/libexec/site-checker"
        ),
        Some("/Users/x/Cellar/notes/opt/homebrew/opt/site-checker/libexec/site-checker".to_string())
    );
}

// ---- recorded_path: reading back what we wrote ----

/// Exactly what the login-item writer produces, byte for byte.
fn plist_template(program: &str) -> String {
    format!(
        r#"<?xml version="1.0" encoding="UTF-8"?>
<!DOCTYPE plist PUBLIC "-//Apple//DTD PLIST 1.0//EN" "http://www.apple.com/DTDs/PropertyList-1.0.dtd">
<plist version="1.0">
  <dict>
  <key>Label</key>
  <string>Site Checker</string>
  <key>ProgramArguments</key>
  <array><string>{program}</string></array>
  <key>RunAtLoad</key>
  <true/>
  </dict>
</plist>
"#
    )
}

#[test]
fn the_recorded_path_is_read_out_of_the_template() {
    let plist = plist_template(
        "/opt/homebrew/opt/site-checker/libexec/Site Checker.app/Contents/MacOS/site-checker",
    );
    assert_eq!(
        recorded_path(&plist).as_deref(),
        Some("/opt/homebrew/opt/site-checker/libexec/Site Checker.app/Contents/MacOS/site-checker")
    );
}

#[test]
fn a_recorded_path_containing_spaces_survives_intact() {
    let plist = plist_template("/Applications/Site Checker.app/Contents/MacOS/site-checker");
    assert_eq!(
        recorded_path(&plist).as_deref(),
        Some("/Applications/Site Checker.app/Contents/MacOS/site-checker")
    );
}

#[test]
fn the_label_string_is_never_mistaken_for_the_program() {
    let plist = plist_template("/somewhere/site-checker");
    assert_ne!(recorded_path(&plist).as_deref(), Some("Site Checker"));
}

#[test]
fn an_empty_file_records_nothing() {
    assert_eq!(recorded_path(""), None);
}

#[test]
fn a_truncated_file_records_nothing() {
    let plist = plist_template("/somewhere/site-checker");
    let truncated = &plist[..plist.find("<array>").unwrap() + 7];
    assert_eq!(recorded_path(truncated), None);
}

#[test]
fn a_plist_without_program_arguments_records_nothing() {
    assert_eq!(
        recorded_path(
            r#"<plist version="1.0"><dict><key>Label</key><string>Site Checker</string></dict></plist>"#
        ),
        None
    );
}

#[test]
fn an_empty_program_arguments_array_records_nothing() {
    assert_eq!(
        recorded_path("<key>ProgramArguments</key>\n  <array></array>"),
        None
    );
}

#[test]
fn an_empty_program_string_records_nothing() {
    assert_eq!(
        recorded_path("<key>ProgramArguments</key>\n  <array><string>  </string></array>"),
        None
    );
}

#[test]
fn a_string_after_the_array_is_not_read_as_the_program() {
    assert_eq!(
        recorded_path(
            "<key>ProgramArguments</key>\n  <array></array>\n  <key>Other</key><string>/nope</string>"
        ),
        None
    );
}

#[test]
fn binary_bytes_record_nothing() {
    let bytes = [0x62u8, 0x70, 0x6c, 0x69, 0x73, 0x74, 0x30, 0x30, 0xd1, 0x01];
    assert_eq!(recorded_path(&String::from_utf8_lossy(&bytes)), None);
}

#[test]
fn a_recorded_path_is_trimmed_of_surrounding_whitespace() {
    assert_eq!(
        recorded_path("<key>ProgramArguments</key><array><string>\n\t /bin/x \u{3000}</string></array>")
            .as_deref(),
        Some("/bin/x")
    );
}

// ---- needs_repair: the decision ----

#[test]
fn a_registration_naming_another_path_needs_repair() {
    let plist = plist_template(
        "/opt/homebrew/Cellar/site-checker/1.0.0/libexec/Site Checker.app/Contents/MacOS/site-checker",
    );
    assert!(needs_repair(
        Some(&plist),
        "/opt/homebrew/opt/site-checker/libexec/Site Checker.app/Contents/MacOS/site-checker"
    ));
}

#[test]
fn a_registration_naming_the_desired_path_is_left_alone() {
    let desired =
        "/opt/homebrew/opt/site-checker/libexec/Site Checker.app/Contents/MacOS/site-checker";
    assert!(!needs_repair(Some(&plist_template(desired)), desired));
}

#[test]
fn no_registration_at_all_is_never_repaired() {
    assert!(!needs_repair(None, "/anything"));
}

#[test]
fn an_uninterpretable_registration_is_never_repaired() {
    assert!(!needs_repair(Some("not a plist at all"), "/anything"));
}

// ---- desired_path: derivation is only a proposal ----

#[test]
fn a_derived_path_that_resolves_back_to_the_running_copy_is_recorded() {
    let running = "/b/Cellar/site-checker/1.0.0/libexec/site-checker";
    let stable = site_checker::autostart::stable_path(running);
    assert_eq!(stable.as_deref(), Some("/b/opt/site-checker/libexec/site-checker"));
    assert_eq!(
        site_checker::autostart::desired_path(running, stable, Some(running.to_string())),
        "/b/opt/site-checker/libexec/site-checker"
    );
}

#[test]
fn a_derived_path_that_resolves_elsewhere_falls_back_to_the_running_copy() {
    let running = "/b/Cellar/site-checker/1.0.0/libexec/site-checker";
    let stable = site_checker::autostart::stable_path(running);
    assert_eq!(
        site_checker::autostart::desired_path(
            running,
            stable.clone(),
            Some("/b/opt/site-checker/libexec/site-checker".to_string())
        ),
        running
    );
    assert_eq!(
        site_checker::autostart::desired_path(running, stable, None),
        running
    );
}
