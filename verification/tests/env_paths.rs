//! Tests of the platform directory decisions.

use rnote_selector::env::{
    data_dir, gdk_scale_workaround, lib_dir, locale_dir, macos_is_in_app_bundle, pkg_data_dir,
    EnvError, ExecDir, Platform,
};

fn exec_dir(path: &str, comps: &[&str]) -> ExecDir {
    ExecDir {
        path: path.to_string(),
        components: comps.iter().map(|c| c.to_string()).collect(),
    }
}

#[test]
fn windows_dirs_sit_beside_the_executable() {
    let d = Some(exec_dir("C:\\app\\bin", &["C:", "app", "bin"]));
    assert_eq!(lib_dir(&Platform::Windows, &d).unwrap(), "C:\\app\\bin\\..\\lib");
    assert_eq!(data_dir(&Platform::Windows, &d).unwrap(), "C:\\app\\bin\\..\\share");
    assert_eq!(locale_dir(&Platform::Windows, &d).unwrap(), "C:\\app\\bin\\..\\share\\locale");
    assert_eq!(pkg_data_dir(&Platform::Windows, &d).unwrap(), "C:\\app\\bin\\..\\share\\rnote");
    assert_eq!(lib_dir(&Platform::Windows, &None), Err(EnvError::ExecDirUnavailable));
}

#[test]
fn bundled_mac_uses_bundle_resources() {
    let bundled = Some(exec_dir(
        "/Applications/App.app/Contents/MacOS",
        &["Applications", "App.app", "Contents", "MacOS"],
    ));
    assert!(macos_is_in_app_bundle(&bundled.as_ref().unwrap().components));
    assert_eq!(
        lib_dir(&Platform::MacOs, &bundled).unwrap(),
        "/Applications/App.app/Contents/MacOS/../Resources/lib"
    );
    let plain = Some(exec_dir("/usr/local/bin", &["usr", "local", "bin"]));
    assert_eq!(lib_dir(&Platform::MacOs, &plain).unwrap(), "/usr/lib");
    assert_eq!(data_dir(&Platform::Other, &None).unwrap(), "/usr/share");
    assert_eq!(locale_dir(&Platform::Other, &None).unwrap(), "/usr/share/locale");
}

#[test]
fn gdk_scale_workaround_needs_exactly_one() {
    assert!(gdk_scale_workaround(Some(1)));
    assert!(!gdk_scale_workaround(Some(0)));
    assert!(!gdk_scale_workaround(Some(2)));
    assert!(!gdk_scale_workaround(None));
}
