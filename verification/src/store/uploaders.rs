//! The custom uploader configuration file: its default and the TOML text
//! written for it.

use vstd::prelude::*;
use vstd::string::StringExecFns;
use crate::text::{contains_text, occurs_at, push_str, string_from_chars, to_chars};

verus! {

/// A custom uploader: the image goes by multipart/form-data POST to `url`
/// in field `file_field` (with `token` in field `token_field` unless that
/// is empty), and the result URL is read from the JSON reply at the
/// dot-separated path `response_field`. Every `enabled` profile is sent
/// to on upload.
#[derive(Clone, Debug)]
pub struct UploaderProfile {
    pub name: String,
    pub url: String,
    pub file_field: String,
    pub token_field: String,
    pub token: String,
    pub response_field: String,
    pub enabled: bool,
}

/// The text of an uploader profile's fields.
pub struct ProfileView {
    pub name: Seq<char>,
    pub url: Seq<char>,
    pub file_field: Seq<char>,
    pub token_field: Seq<char>,
    pub token: Seq<char>,
    pub response_field: Seq<char>,
    pub enabled: bool,
}

impl View for UploaderProfile {
    type V = ProfileView;

    open spec fn view(&self) -> ProfileView {
        ProfileView {
            name: self.name@,
            url: self.url@,
            file_field: self.file_field@,
            token_field: self.token_field@,
            token: self.token@,
            response_field: self.response_field@,
            enabled: self.enabled,
        }
    }
}

/// The views of a list of profiles.
pub open spec fn profiles_view(s: Seq<UploaderProfile>) -> Seq<ProfileView> {
    s.map_values(|p: UploaderProfile| p@)
}

/// The registered custom uploaders.
#[derive(Clone, Debug)]
pub struct UploaderConfig {
    pub uploaders: Vec<UploaderProfile>,
}

/// The profile seeded into a new configuration (Gyazo, enabled, no token).
pub open spec fn gyazo_profile_view() -> ProfileView {
    ProfileView {
        name: "Gyazo"@,
        url: "https://upload.gyazo.com/api/upload"@,
        file_field: "imagedata"@,
        token_field: "access_token"@,
        token: Seq::empty(),
        response_field: "permalink_url"@,
        enabled: true,
    }
}

impl Default for UploaderConfig {
    /// A configuration holding the Gyazo profile only.
    fn default() -> (r: Self)
        ensures
            profiles_view(r.uploaders@) == seq![gyazo_profile_view()],
    {
        let mut uploaders: Vec<UploaderProfile> = Vec::new();
        uploaders.push(
            UploaderProfile {
                name: String::from_str("Gyazo"),
                url: String::from_str("https://upload.gyazo.com/api/upload"),
                file_field: String::from_str("imagedata"),
                token_field: String::from_str("access_token"),
                token: String::new(),
                response_field: String::from_str("permalink_url"),
                enabled: true,
            },
        );
        proof {
            assert(profiles_view(uploaders@) =~= seq![gyazo_profile_view()]);
        }
        UploaderConfig { uploaders }
    }
}

/// The text written for an empty list: an explicit empty array, so that
/// reading it back does not fill the list with the default profile.
pub open spec fn empty_uploaders_toml() -> Seq<char> {
    "# pashari アップローダー設定ファイル。トレイ → Settings → Upload タブの\n# GUI から変更できます（手編集も可）。\nuploaders = []\n"@
}

/// The comment block written above a non-empty list.
pub open spec fn uploaders_toml_header() -> Seq<char> {
    "# pashari アップローダー設定ファイル。トレイ → Settings → Upload タブの GUI から\n# 変更できます（手編集も可）。\n#\n# カスタムアップローダー（任意の HTTP エンドポイントへ画像を送るしくみ）。\n# 画像は multipart/form-data で file_field 名のフィールドに乗せて送る。\n# token_field が空でなければ token をそのフィールド名で追加する。\n# レスポンスJSONの response_field（ドット区切りでネスト可）から結果URLを取り出す。\n# enabled な（複数可）プロファイルすべてへ Upload 時に同時送信する。\n"@
}

/// `b` as TOML writes a boolean.
pub open spec fn bool_text(b: bool) -> Seq<char> {
    if b {
        "true"@
    } else {
        "false"@
    }
}

/// The `[[uploaders]]` table written for `p`: name and field names as
/// basic strings, URL and token as literal strings, none of them escaped.
pub open spec fn spec_profile_toml(p: ProfileView) -> Seq<char> {
    "\n[[uploaders]]\nname = \""@ + p.name + "\"\nurl = '"@ + p.url + "'\nfile_field = \""@ + p.file_field
        + "\"\ntoken_field = \""@ + p.token_field + "\"\ntoken = '"@ + p.token
        + "'\nresponse_field = \""@ + p.response_field + "\"\nenabled = "@ + bool_text(p.enabled)
        + "\n"@
}

/// The tables of the first `n` profiles of `s`, in order.
pub open spec fn profiles_toml(s: Seq<ProfileView>, n: nat) -> Seq<char>
    decreases n,
{
    if n == 0 {
        Seq::empty()
    } else {
        profiles_toml(s, (n - 1) as nat) + spec_profile_toml(s[n - 1])
    }
}

/// The file text written for the list `s`.
pub open spec fn spec_uploaders_toml(s: Seq<ProfileView>) -> Seq<char> {
    if s.len() == 0 {
        empty_uploaders_toml()
    } else {
        uploaders_toml_header() + profiles_toml(s, s.len())
    }
}

fn push_profile(out: &mut Vec<char>, u: &UploaderProfile)
    ensures
        final(out)@ == old(out)@ + spec_profile_toml(u@),
{
    let ghost start = out@;
    push_str(out, "\n[[uploaders]]\nname = \"");
    push_str(out, u.name.as_str());
    push_str(out, "\"\nurl = '");
    push_str(out, u.url.as_str());
    push_str(out, "'\nfile_field = \"");
    push_str(out, u.file_field.as_str());
    push_str(out, "\"\ntoken_field = \"");
    push_str(out, u.token_field.as_str());
    push_str(out, "\"\ntoken = '");
    push_str(out, u.token.as_str());
    push_str(out, "'\nresponse_field = \"");
    push_str(out, u.response_field.as_str());
    push_str(out, "\"\nenabled = ");
    if u.enabled {
        push_str(out, "true");
    } else {
        push_str(out, "false");
    }
    push_str(out, "\n");
    assert(out@ =~= start + spec_profile_toml(u@));
}

/// Renders `uploaders` as the file text: an `[[uploaders]]` table per
/// profile under a comment block, or an explicit empty array.
pub fn render_uploaders_toml(uploaders: &[UploaderProfile]) -> (r: String)
    ensures
        r@ == spec_uploaders_toml(profiles_view(uploaders@)),
{
    let ghost pv = profiles_view(uploaders@);
    if uploaders.len() == 0 {
        return String::from_str("# pashari アップローダー設定ファイル。トレイ → Settings → Upload タブの\n# GUI から変更できます（手編集も可）。\nuploaders = []\n");
    }
    let mut out: Vec<char> = Vec::new();
    push_str(&mut out, "# pashari アップローダー設定ファイル。トレイ → Settings → Upload タブの GUI から\n# 変更できます（手編集も可）。\n#\n# カスタムアップローダー（任意の HTTP エンドポイントへ画像を送るしくみ）。\n# 画像は multipart/form-data で file_field 名のフィールドに乗せて送る。\n# token_field が空でなければ token をそのフィールド名で追加する。\n# レスポンスJSONの response_field（ドット区切りでネスト可）から結果URLを取り出す。\n# enabled な（複数可）プロファイルすべてへ Upload 時に同時送信する。\n");
    let mut i: usize = 0;
    while i < uploaders.len()
        invariant
            pv == profiles_view(uploaders@),
            i <= uploaders@.len(),
            out@ == uploaders_toml_header() + profiles_toml(pv, i as nat),
        decreases uploaders.len() - i,
    {
        push_profile(&mut out, &uploaders[i]);
        assert(pv[i as int] == uploaders@[i as int]@);
        i = i + 1;
    }
    string_from_chars(out.as_slice())
}

/// Renders the configuration as the file text.
pub fn render_toml(c: &UploaderConfig) -> (r: String)
    ensures
        r@ == spec_uploaders_toml(profiles_view(c.uploaders@)),
{
    render_uploaders_toml(c.uploaders.as_slice())
}


proof fn lemma_profiles_toml_grows(s: Seq<ProfileView>, i: nat, n: nat)
    requires
        i <= n <= s.len(),
    ensures
        profiles_toml(s, n).subrange(0, profiles_toml(s, i).len() as int) == profiles_toml(s, i),
        profiles_toml(s, i).len() <= profiles_toml(s, n).len(),
    decreases n - i,
{
    if i < n {
        lemma_profiles_toml_grows(s, i, (n - 1) as nat);
        let p = profiles_toml(s, (n - 1) as nat);
        assert(profiles_toml(s, n) == p + spec_profile_toml(s[n - 1]));
        assert(profiles_toml(s, n).subrange(0, p.len() as int) =~= p);
        assert(profiles_toml(s, n).subrange(0, profiles_toml(s, i).len() as int) =~= p.subrange(
            0,
            profiles_toml(s, i).len() as int,
        ));
    } else {
        assert(profiles_toml(s, n).subrange(0, profiles_toml(s, i).len() as int) =~= profiles_toml(
            s,
            i,
        ));
    }
}

/// Every profile is written back as a table of its own holding its fields
/// as they are: after `[[uploaders]]` its name, URL, file field, token
/// field, token and response field, and last `enabled = true` or
/// `enabled = false` as the profile is, so reading the file back gives
/// each profile, its enabled flag included, unchanged.
pub proof fn lemma_uploaders_toml_keeps_each_profile(s: Seq<ProfileView>, i: int)
    requires
        0 <= i < s.len(),
    ensures
        ({
            let p = s[i];
            contains_text(
                spec_uploaders_toml(s),
                "\n[[uploaders]]\nname = \""@ + p.name + "\"\nurl = '"@ + p.url
                    + "'\nfile_field = \""@ + p.file_field + "\"\ntoken_field = \""@ + p.token_field
                    + "\"\ntoken = '"@ + p.token + "'\nresponse_field = \""@ + p.response_field
                    + "\"\nenabled = "@ + (if p.enabled {
                    "true"@
                } else {
                    "false"@
                }) + "\n"@,
            )
        }),
{
    let n = s.len();
    let p = s[i];
    lemma_profiles_toml_grows(s, (i + 1) as nat, n);
    let before = profiles_toml(s, i as nat);
    let upto = profiles_toml(s, (i + 1) as nat);
    let tab = spec_profile_toml(p);
    assert(upto == before + tab);
    let h = uploaders_toml_header();
    let t = spec_uploaders_toml(s);
    assert(t == h + profiles_toml(s, n));
    let a: int = (h.len() + before.len()) as int;
    assert(t.subrange(a, a + tab.len()) =~= upto.subrange(
        before.len() as int,
        (before.len() + tab.len()) as int,
    ));
    assert(upto.subrange(before.len() as int, (before.len() + tab.len()) as int) =~= tab);
    assert(occurs_at(t, a, tab));
}

} // verus!
