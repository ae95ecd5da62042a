//! Application settings: the proxy configuration, the theme, and the rules
//! for reading and updating single settings by key. Loading and saving the
//! settings file, and exporting proxy values into the process environment,
//! are the surrounding application's work; this module decides the values.

use vstd::prelude::*;

use crate::header::opt_view;
use crate::text;

verus! {

/// Clones an optional string, keeping its characters.
pub fn clone_opt(s: &Option<String>) -> (r: Option<String>)
    ensures
        r == *s,
{
    match s {
        Option::None => Option::None,
        Option::Some(x) => Option::Some(x.clone()),
    }
}

/// Proxy configuration.
#[derive(Debug)]
pub struct ProxySettings {
    pub http_proxy: Option<String>,
    pub https_proxy: Option<String>,
    pub no_proxy: Option<String>,
    pub all_proxy: Option<String>,
    pub enabled: bool,
}

impl ProxySettings {
    /// A field-for-field copy.
    pub fn duplicate(&self) -> (r: ProxySettings)
        ensures
            r == *self,
    {
        ProxySettings {
            http_proxy: clone_opt(&self.http_proxy),
            https_proxy: clone_opt(&self.https_proxy),
            no_proxy: clone_opt(&self.no_proxy),
            all_proxy: clone_opt(&self.all_proxy),
            enabled: self.enabled,
        }
    }
}

impl Default for ProxySettings {
    /// No proxies, disabled.
    fn default() -> (r: ProxySettings)
        ensures
            r.http_proxy is None,
            r.https_proxy is None,
            r.no_proxy is None,
            r.all_proxy is None,
            !r.enabled,
    {
        ProxySettings {
            http_proxy: Option::None,
            https_proxy: Option::None,
            no_proxy: Option::None,
            all_proxy: Option::None,
            enabled: false,
        }
    }
}

/// Theme configuration.
#[derive(Debug)]
pub struct ThemeSettings {
    pub theme_mode: Option<String>,
    pub custom_colors: Option<String>,
}

impl Default for ThemeSettings {
    /// No mode, no custom colors.
    fn default() -> (r: ThemeSettings)
        ensures
            r.theme_mode is None,
            r.custom_colors is None,
    {
        ThemeSettings { theme_mode: Option::None, custom_colors: Option::None }
    }
}

/// The application's consolidated settings.
#[derive(Debug)]
pub struct ClaudioSettings {
    pub proxy: ProxySettings,
    pub claude_binary_path: Option<String>,
    pub theme: ThemeSettings,
}

impl Default for ClaudioSettings {
    /// Default proxy and theme, no binary path.
    fn default() -> (r: ClaudioSettings)
        ensures
            r.proxy.http_proxy is None,
            r.proxy.https_proxy is None,
            r.proxy.no_proxy is None,
            r.proxy.all_proxy is None,
            !r.proxy.enabled,
            r.claude_binary_path is None,
            r.theme.theme_mode is None,
            r.theme.custom_colors is None,
    {
        ClaudioSettings {
            proxy: ProxySettings::default(),
            claude_binary_path: Option::None,
            theme: ThemeSettings::default(),
        }
    }
}

/// The proxy part of the settings.
pub fn get_proxy_settings(settings: &ClaudioSettings) -> (r: ProxySettings)
    ensures
        r == settings.proxy,
{
    settings.proxy.duplicate()
}

/// Reads one setting by key: the theme mode, the custom colors, or nothing
/// for an unknown key.
pub fn get_setting(settings: &ClaudioSettings, key: &str) -> (r: Option<String>)
    ensures
        r == (if key@ == "theme_preference"@ {
            settings.theme.theme_mode
        } else if key@ == "theme_custom_colors"@ {
            settings.theme.custom_colors
        } else {
            Option::<String>::None
        }),
{
    if text::eq_str(key, "theme_preference") {
        clone_opt(&settings.theme.theme_mode)
    } else if text::eq_str(key, "theme_custom_colors") {
        clone_opt(&settings.theme.custom_colors)
    } else {
        Option::None
    }
}

/// Updates one setting by key, leaving every other field as it was; an
/// unknown key is an error and changes nothing.
pub fn save_setting(settings: ClaudioSettings, key: &str, value: String) -> (r: Result<
    ClaudioSettings,
    String,
>)
    ensures
        key@ == "theme_preference"@ ==> (r matches Result::Ok(s2) && s2.theme.theme_mode
            == Some(value) && s2.theme.custom_colors == settings.theme.custom_colors && s2.proxy
            == settings.proxy && s2.claude_binary_path == settings.claude_binary_path),
        key@ != "theme_preference"@ && key@ == "theme_custom_colors"@ ==> (r matches Result::Ok(s2)
            && s2.theme.custom_colors == Some(value) && s2.theme.theme_mode
            == settings.theme.theme_mode && s2.proxy == settings.proxy && s2.claude_binary_path
            == settings.claude_binary_path),
        key@ != "theme_preference"@ && key@ != "theme_custom_colors"@ ==> (r matches Result::Err(m)
            && m@ == "Unknown setting key: "@ + key@),
{
    let ClaudioSettings { proxy, claude_binary_path, theme } = settings;
    let ThemeSettings { theme_mode, custom_colors } = theme;
    if text::eq_str(key, "theme_preference") {
        Result::Ok(
            ClaudioSettings {
                proxy,
                claude_binary_path,
                theme: ThemeSettings { theme_mode: Option::Some(value), custom_colors },
            },
        )
    } else if text::eq_str(key, "theme_custom_colors") {
        Result::Ok(
            ClaudioSettings {
                proxy,
                claude_binary_path,
                theme: ThemeSettings { theme_mode, custom_colors: Option::Some(value) },
            },
        )
    } else {
        let mut msg = String::from_str("Unknown setting key: ");
        text::push_str(&mut msg, key);
        Result::Err(msg)
    }
}

/// Replaces the proxy part of the settings, keeping the rest.
pub fn set_proxy(settings: ClaudioSettings, proxy: ProxySettings) -> (r: ClaudioSettings)
    ensures
        r.proxy == proxy,
        r.claude_binary_path == settings.claude_binary_path,
        r.theme == settings.theme,
{
    ClaudioSettings {
        proxy,
        claude_binary_path: settings.claude_binary_path,
        theme: settings.theme,
    }
}

/// One environment change: set the variable to the value, or remove it.
pub struct EnvVarAction {
    pub name: String,
    pub value: Option<String>,
}

/// Ghost image of [`EnvVarAction`].
pub struct EnvVarActionView {
    pub name: Seq<char>,
    pub value: Option<Seq<char>>,
}

impl View for EnvVarAction {
    type V = EnvVarActionView;

    open spec fn view(&self) -> EnvVarActionView {
        EnvVarActionView { name: self.name@, value: opt_view(self.value) }
    }
}

impl DeepView for EnvVarAction {
    type V = EnvVarActionView;

    open spec fn deep_view(&self) -> EnvVarActionView {
        self.view()
    }
}

/// A removal.
pub open spec fn rm(name: Seq<char>) -> EnvVarActionView {
    EnvVarActionView { name, value: Option::None }
}

/// An assignment.
pub open spec fn setv(name: Seq<char>, v: Seq<char>) -> EnvVarActionView {
    EnvVarActionView { name, value: Option::Some(v) }
}

/// The value the no-proxy variable takes: the local addresses, plus the
/// user's own entries where nonempty.
pub open spec fn no_proxy_joined(user: Option<Seq<char>>) -> Seq<char> {
    match user {
        Option::None => "localhost,127.0.0.1,::1,0.0.0.0"@,
        Option::Some(u) => if u.len() == 0 {
            "localhost,127.0.0.1,::1,0.0.0.0"@
        } else {
            "localhost,127.0.0.1,::1,0.0.0.0"@ + ","@ + u
        },
    }
}

/// One optional assignment: set where the value is present and nonempty.
pub open spec fn opt_set(name: Seq<char>, v: Option<Seq<char>>) -> Seq<EnvVarActionView> {
    match v {
        Option::None => Seq::<EnvVarActionView>::empty(),
        Option::Some(x) => if x.len() == 0 {
            Seq::<EnvVarActionView>::empty()
        } else {
            seq![setv(name, x)]
        },
    }
}

/// The environment changes that apply a proxy configuration: disabled, every
/// proxy variable is removed in both casings; enabled, each present nonempty
/// proxy is set and the no-proxy list always is.
pub open spec fn proxy_actions_spec(s: ProxySettings) -> Seq<EnvVarActionView> {
    if !s.enabled {
        seq![
            rm("HTTP_PROXY"@),
            rm("HTTPS_PROXY"@),
            rm("NO_PROXY"@),
            rm("ALL_PROXY"@),
            rm("http_proxy"@),
            rm("https_proxy"@),
            rm("no_proxy"@),
            rm("all_proxy"@),
        ]
    } else {
        opt_set("HTTP_PROXY"@, opt_view(s.http_proxy)) + opt_set(
            "HTTPS_PROXY"@,
            opt_view(s.https_proxy),
        ) + seq![setv("NO_PROXY"@, no_proxy_joined(opt_view(s.no_proxy)))] + opt_set(
            "ALL_PROXY"@,
            opt_view(s.all_proxy),
        )
    }
}

/// Pushes a removal.
fn push_rm(out: &mut Vec<EnvVarAction>, name: &str)
    ensures
        final(out).deep_view() =~= old(out).deep_view().push(rm(name@)),
{
    let a = EnvVarAction { name: name.to_owned(), value: Option::None };
    out.push(a);
}

/// Pushes an assignment.
fn push_set(out: &mut Vec<EnvVarAction>, name: &str, v: String)
    ensures
        final(out).deep_view() =~= old(out).deep_view().push(setv(name@, v@)),
{
    let a = EnvVarAction { name: name.to_owned(), value: Option::Some(v) };
    out.push(a);
}

/// Computes the environment changes that apply a proxy configuration.
/// Nothing is changed here: performing them on the process environment is
/// the surrounding application's step.
pub fn proxy_env_actions(settings: &ProxySettings) -> (r: Vec<EnvVarAction>)
    ensures
        r.deep_view() == proxy_actions_spec(*settings),
{
    let mut out: Vec<EnvVarAction> = Vec::new();
    if !settings.enabled {
        push_rm(&mut out, "HTTP_PROXY");
        push_rm(&mut out, "HTTPS_PROXY");
        push_rm(&mut out, "NO_PROXY");
        push_rm(&mut out, "ALL_PROXY");
        push_rm(&mut out, "http_proxy");
        push_rm(&mut out, "https_proxy");
        push_rm(&mut out, "no_proxy");
        push_rm(&mut out, "all_proxy");
        proof {
            assert(out.deep_view() =~= proxy_actions_spec(*settings));
        }
        return out;
    }
    if let Option::Some(http_proxy) = &settings.http_proxy {
        if http_proxy.as_str().unicode_len() > 0 {
            push_set(&mut out, "HTTP_PROXY", http_proxy.clone());
        }
    }
    let ghost s1 = opt_set("HTTP_PROXY"@, opt_view(settings.http_proxy));
    proof {
        assert(out.deep_view() =~= s1);
    }
    if let Option::Some(https_proxy) = &settings.https_proxy {
        if https_proxy.as_str().unicode_len() > 0 {
            push_set(&mut out, "HTTPS_PROXY", https_proxy.clone());
        }
    }
    let ghost s2 = s1 + opt_set("HTTPS_PROXY"@, opt_view(settings.https_proxy));
    proof {
        assert(out.deep_view() =~= s2);
    }
    let mut no_proxy_value = String::from_str("localhost,127.0.0.1,::1,0.0.0.0");
    if let Option::Some(user) = &settings.no_proxy {
        if user.as_str().unicode_len() > 0 {
            text::push_str(&mut no_proxy_value, ",");
            text::push_str(&mut no_proxy_value, user.as_str());
        }
    }
    proof {
        assert(no_proxy_value@ == no_proxy_joined(opt_view(settings.no_proxy)));
    }
    push_set(&mut out, "NO_PROXY", no_proxy_value);
    let ghost s3 = s2 + seq![setv("NO_PROXY"@, no_proxy_joined(opt_view(settings.no_proxy)))];
    proof {
        assert(out.deep_view() =~= s3);
    }
    if let Option::Some(all_proxy) = &settings.all_proxy {
        if all_proxy.as_str().unicode_len() > 0 {
            push_set(&mut out, "ALL_PROXY", all_proxy.clone());
        }
    }
    proof {
        assert(out.deep_view() =~= s3 + opt_set("ALL_PROXY"@, opt_view(settings.all_proxy)));
        assert(out.deep_view() =~= proxy_actions_spec(*settings));
    }
    out
}

} // verus!
