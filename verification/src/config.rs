//! The crate configuration: where CSS goes and how it is written, where the
//! style sheet module root and the translation files are. Each setting comes
//! from an environment variable, else from the `[package.metadata.maomi]`
//! table of the crate's manifest, else from a default.
use vstd::prelude::*;

use crate::text::{str_eq, to_owned_string};

verus! {

/// How the generated CSS is written.
#[derive(Debug, Clone, Copy, PartialEq, Eq, Structural)]
pub enum CssOutMode {
    /// Compact, only the separators that CSS needs.
    Release,
    /// With line breaks and indentation.
    Debug,
}

/// The crate configuration. Paths are written with `/` separators.
pub struct CrateConfig {
    pub crate_name: Option<String>,
    pub css_out_dir: Option<String>,
    pub css_out_mode: CssOutMode,
    pub stylesheet_mod_root: Option<String>,
    pub i18n_locale: Option<String>,
    pub i18n_dir: Option<String>,
}

/// The settings of the `[package.metadata.maomi]` table of the manifest.
pub struct MaomiManifest {
    pub css_out_dir: Option<String>,
    pub css_out_mode: Option<String>,
    pub stylesheet_mod_root: Option<String>,
    pub i18n_dir: Option<String>,
}

/// What the configuration is made from: the environment variables of the
/// build and the manifest settings.
pub struct ConfigSources {
    /// `CARGO_PKG_NAME`
    pub pkg_name: Option<String>,
    /// `CARGO_MANIFEST_DIR`
    pub manifest_dir: Option<String>,
    /// `MAOMI_CSS_OUT_DIR`
    pub css_out_dir: Option<String>,
    /// `MAOMI_CSS_OUT_MODE`
    pub css_out_mode: Option<String>,
    /// `MAOMI_STYLESHEET_MOD_ROOT`
    pub stylesheet_mod_root: Option<String>,
    /// `MAOMI_I18N_LOCALE`
    pub i18n_locale: Option<String>,
    /// `MAOMI_I18N_DIR`
    pub i18n_dir: Option<String>,
    /// The manifest settings.
    pub manifest: MaomiManifest,
}

/// The view of an optional string.
pub open spec fn opt_string(o: Option<String>) -> Option<Seq<char>> {
    match o {
        Some(s) => Some(s@),
        None => None,
    }
}

/// The first of two optional values that is present.
pub open spec fn or_else(a: Option<Seq<char>>, b: Option<Seq<char>>) -> Option<Seq<char>> {
    match a {
        Some(x) => Some(x),
        None => b,
    }
}

/// A relative path `seg` joined onto `base`: a `/` goes between them unless
/// `base` is empty or already ends with one.
pub open spec fn path_join(base: Seq<char>, seg: Seq<char>) -> Seq<char> {
    if base.len() == 0 {
        seg
    } else if base.last() == '/' {
        base + seg
    } else {
        base + seq!['/'] + seg
    }
}

/// The output mode named by a setting: `debug` is debug mode, anything else
/// (or no setting) release mode.
pub open spec fn css_out_mode_of(setting: Option<Seq<char>>) -> CssOutMode {
    match setting {
        Some(s) => if s == "debug"@ {
            CssOutMode::Debug
        } else {
            CssOutMode::Release
        },
        None => CssOutMode::Release,
    }
}

/// A path below the manifest directory, where the directory is known.
pub open spec fn under_manifest(manifest_dir: Option<Seq<char>>, rel: Seq<Seq<char>>) -> Option<Seq<char>>
    decreases rel.len(),
{
    match manifest_dir {
        None => None,
        Some(d) => if rel.len() == 0 {
            Some(d)
        } else {
            Some(path_join(under_manifest(manifest_dir, rel.drop_last()).unwrap(), rel.last()))
        },
    }
}

fn or_else_string(a: &Option<String>, b: &Option<String>) -> (r: Option<String>)
    ensures
        opt_string(r) == or_else(opt_string(*a), opt_string(*b)),
{
    match a {
        Some(x) => Some(to_owned_string(x.as_str())),
        None => match b {
            Some(y) => Some(to_owned_string(y.as_str())),
            None => None,
        },
    }
}

fn copy_opt(a: &Option<String>) -> (r: Option<String>)
    ensures
        opt_string(r) == opt_string(*a),
{
    match a {
        Some(x) => Some(to_owned_string(x.as_str())),
        None => None,
    }
}

/// Joins the relative path `seg` onto `base`.
pub fn join_path(base: &str, seg: &str) -> (r: String)
    ensures
        r@ == path_join(base@, seg@),
{
    let mut r = to_owned_string(base);
    let n = base.unicode_len();
    if n == 0 {
        let r2 = to_owned_string(seg);
        return r2;
    }
    if base.get_char(n - 1) != '/' {
        r.append("/");
        proof {
            reveal_strlit("/");
        }
    }
    r.append(seg);
    assert(r@ =~= path_join(base@, seg@));
    r
}

/// The configuration resolved from its sources: each setting from its
/// environment variable, else from the manifest, else from its default.
pub fn crate_config(src: &ConfigSources) -> (r: CrateConfig)
    ensures
        opt_string(r.crate_name) == opt_string(src.pkg_name),
        opt_string(r.css_out_dir) == or_else(
            opt_string(src.css_out_dir),
            opt_string(src.manifest.css_out_dir),
        ),
        r.css_out_mode == css_out_mode_of(
            or_else(opt_string(src.css_out_mode), opt_string(src.manifest.css_out_mode)),
        ),
        opt_string(r.stylesheet_mod_root) == or_else(
            or_else(
                opt_string(src.stylesheet_mod_root),
                opt_string(src.manifest.stylesheet_mod_root),
            ),
            under_manifest(opt_string(src.manifest_dir), seq!["src"@, "styles.mcss"@]),
        ),
        opt_string(r.i18n_locale) == opt_string(src.i18n_locale),
        opt_string(r.i18n_dir) == or_else(
            or_else(opt_string(src.i18n_dir), opt_string(src.manifest.i18n_dir)),
            under_manifest(opt_string(src.manifest_dir), seq!["i18n"@]),
        ),
{
    let crate_name = copy_opt(&src.pkg_name);
    let css_out_dir = or_else_string(&src.css_out_dir, &src.manifest.css_out_dir);
    let mode_setting = or_else_string(&src.css_out_mode, &src.manifest.css_out_mode);
    let css_out_mode = match &mode_setting {
        Some(x) => if str_eq(x.as_str(), "debug") {
            CssOutMode::Debug
        } else {
            CssOutMode::Release
        },
        None => CssOutMode::Release,
    };
    let stylesheet_mod_root = match or_else_string(
        &src.stylesheet_mod_root,
        &src.manifest.stylesheet_mod_root,
    ) {
        Some(x) => Some(x),
        None => match &src.manifest_dir {
            Some(d) => {
                let p = join_path(d.as_str(), "src");
                let q = join_path(p.as_str(), "styles.mcss");
                proof {
                    let md = opt_string(src.manifest_dir);
                    let rel = seq!["src"@, "styles.mcss"@];
                    assert(rel.drop_last() =~= seq!["src"@]);
                    assert(seq!["src"@].drop_last() =~= Seq::<Seq<char>>::empty());
                    assert(under_manifest(md, Seq::<Seq<char>>::empty()) == Some(d@));
                    assert(under_manifest(md, seq!["src"@]) == Some(p@));
                    assert(under_manifest(md, rel) == Some(q@));
                }
                Some(q)
            },
            None => None,
        },
    };
    let i18n_locale = copy_opt(&src.i18n_locale);
    let i18n_dir = match or_else_string(&src.i18n_dir, &src.manifest.i18n_dir) {
        Some(x) => Some(x),
        None => match &src.manifest_dir {
            Some(d) => {
                let p = join_path(d.as_str(), "i18n");
                proof {
                    let md = opt_string(src.manifest_dir);
                    assert(seq!["i18n"@].drop_last() =~= Seq::<Seq<char>>::empty());
                    assert(under_manifest(md, Seq::<Seq<char>>::empty()) == Some(d@));
                    assert(under_manifest(md, seq!["i18n"@]) == Some(p@));
                }
                Some(p)
            },
            None => None,
        },
    };
    CrateConfig { crate_name, css_out_dir, css_out_mode, stylesheet_mod_root, i18n_locale, i18n_dir }
}

/// The translation directory and the locale, where both are configured.
pub fn i18n_dir_locale(cfg: &CrateConfig) -> (r: Option<(String, String)>)
    ensures
        match r {
            Some((d, l)) => opt_string(cfg.i18n_dir) == Some(d@) && opt_string(cfg.i18n_locale)
                == Some(l@),
            None => cfg.i18n_dir is None || cfg.i18n_locale is None,
        },
{
    let locale_name = match &cfg.i18n_locale {
        None => {
            return None;
        },
        Some(x) => to_owned_string(x.as_str()),
    };
    let dir_name = match &cfg.i18n_dir {
        None => {
            return None;
        },
        Some(x) => to_owned_string(x.as_str()),
    };
    Some((dir_name, locale_name))
}

} // verus!
