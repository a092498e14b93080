use maomi_lib::config::{crate_config, i18n_dir_locale, join_path, ConfigSources, CssOutMode, MaomiManifest};

fn none_manifest() -> MaomiManifest {
    MaomiManifest { css_out_dir: None, css_out_mode: None, stylesheet_mod_root: None, i18n_dir: None }
}

fn sources() -> ConfigSources {
    ConfigSources {
        pkg_name: None,
        manifest_dir: None,
        css_out_dir: None,
        css_out_mode: None,
        stylesheet_mod_root: None,
        i18n_locale: None,
        i18n_dir: None,
        manifest: none_manifest(),
    }
}

#[test]
fn defaults_without_settings() {
    let c = crate_config(&sources());
    assert_eq!(c.css_out_mode, CssOutMode::Release);
    assert_eq!(c.css_out_dir, None);
    assert_eq!(c.stylesheet_mod_root, None);
    assert_eq!(c.i18n_dir, None);
    assert!(i18n_dir_locale(&c).is_none());
}

#[test]
fn defaults_under_manifest_dir() {
    let mut s = sources();
    s.manifest_dir = Some("/work/app".to_string());
    s.pkg_name = Some("app".to_string());
    let c = crate_config(&s);
    assert_eq!(c.crate_name.as_deref(), Some("app"));
    assert_eq!(c.stylesheet_mod_root.as_deref(), Some("/work/app/src/styles.mcss"));
    assert_eq!(c.i18n_dir.as_deref(), Some("/work/app/i18n"));
}

#[test]
fn environment_wins_over_manifest() {
    let mut s = sources();
    s.manifest_dir = Some("/work/app/".to_string());
    s.css_out_mode = Some("release".to_string());
    s.manifest.css_out_mode = Some("debug".to_string());
    s.manifest.css_out_dir = Some("target/css".to_string());
    s.manifest.i18n_dir = Some("lang".to_string());
    s.i18n_dir = Some("/env/lang".to_string());
    s.i18n_locale = Some("zh_CN".to_string());
    let c = crate_config(&s);
    assert_eq!(c.css_out_mode, CssOutMode::Release);
    assert_eq!(c.css_out_dir.as_deref(), Some("target/css"));
    assert_eq!(c.i18n_dir.as_deref(), Some("/env/lang"));
    assert_eq!(c.stylesheet_mod_root.as_deref(), Some("/work/app/src/styles.mcss"));
    assert_eq!(i18n_dir_locale(&c), Some(("/env/lang".to_string(), "zh_CN".to_string())));
}

#[test]
fn debug_mode_from_manifest() {
    let mut s = sources();
    s.manifest.css_out_mode = Some("debug".to_string());
    assert_eq!(crate_config(&s).css_out_mode, CssOutMode::Debug);
    s.manifest.css_out_mode = Some("Debug".to_string());
    assert_eq!(crate_config(&s).css_out_mode, CssOutMode::Release);
}

#[test]
fn path_join() {
    assert_eq!(join_path("/a", "b"), "/a/b");
    assert_eq!(join_path("/a/", "b"), "/a/b");
    assert_eq!(join_path("", "b"), "b");
}
