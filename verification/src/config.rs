//! Connection profiles and defaults: resolving the active profile and the
//! target repository, and assembling a fresh configuration from first-run
//! answers. Reading and writing the config file is a collaborator's concern.

use vstd::prelude::*;

use crate::error::GogsError;
use crate::text::str_eq;

verus! {

/// The tracked server.
#[derive(Debug, Clone)]
pub struct ServerConfig {
    pub url: String,
}

/// Optional defaults for the repository and the profile.
#[derive(Debug, Clone)]
pub struct Defaults {
    pub repo: Option<String>,
    pub profile: Option<String>,
}

/// One named connection profile.
#[derive(Debug, Clone)]
pub struct Profile {
    pub gogs_user: String,
    pub token: String,
    pub role: String,
    pub signature: String,
}

/// A profile under its name.
#[derive(Debug, Clone)]
pub struct ProfileEntry {
    pub name: String,
    pub profile: Profile,
}

/// The loaded configuration: the server, the defaults, and the named
/// profiles, each name occurring once.
#[derive(Debug, Clone)]
pub struct Config {
    pub server: ServerConfig,
    pub defaults: Defaults,
    pub profiles: Vec<ProfileEntry>,
}

impl Config {
    /// Well-formedness: profile names are unique.
    pub open spec fn wf(self) -> bool {
        forall|i: int, j: int|
            0 <= i < j < self.profiles@.len() ==> (#[trigger] self.profiles@[i]).name@ != (
            #[trigger] self.profiles@[j]).name@
    }
}

impl Default for Config {
    /// A fresh configuration: the placeholder server, no defaults, no
    /// profiles.
    fn default() -> (r: Self)
        ensures
            r.server.url@ == "https://gogs.example.com"@,
            r.defaults.repo is None,
            r.defaults.profile is None,
            r.profiles@.len() == 0,
            r.wf(),
    {
        Config {
            server: ServerConfig { url: "https://gogs.example.com".to_owned() },
            defaults: Defaults { repo: None, profile: None },
            profiles: Vec::new(),
        }
    }
}

// --- Repository target resolution -------------------------------------------

/// The number of `/` characters in a text.
pub open spec fn spec_slash_count(s: Seq<char>) -> int
    decreases s.len(),
{
    if s.len() == 0 {
        0
    } else {
        spec_slash_count(s.drop_last()) + (if s.last() == '/' {
            1int
        } else {
            0int
        })
    }
}

/// Split an `owner/repo` string at its single separator. Succeeds exactly
/// when the string holds one `/`; fails with a validation error naming the
/// input otherwise.
pub fn parse_repo(repo: &str) -> (r: Result<(String, String), GogsError>)
    ensures
        r is Ok <==> spec_slash_count(repo@) == 1,
        r is Ok ==> exists|p: int|
            0 <= p < repo@.len() && #[trigger] repo@[p] == '/' && r->Ok_0.0@ == repo@.take(p)
                && r->Ok_0.1@ == repo@.skip(p + 1),
        r is Err ==> r->Err_0 is ValidationError && (r->Err_0)->ValidationError_0@
            == "Invalid repository format. Expected 'owner/repo', got '"@ + repo@ + "'"@,
{
    let len = repo.unicode_len();
    let mut count: usize = 0;
    let mut slash: usize = 0;
    let mut i: usize = 0;
    proof {
        assert(spec_slash_count(repo@.take(0)) == 0);
    }
    while i < len
        invariant
            len == repo@.len(),
            i <= len,
            count <= i,
            count as int == spec_slash_count(repo@.take(i as int)),
            count > 0 ==> slash < i && repo@[slash as int] == '/',
        decreases len - i,
    {
        let c = repo.get_char(i);
        proof {
            assert(repo@.take(i + 1).drop_last() =~= repo@.take(i as int));
            assert(repo@.take(i + 1).last() == repo@[i as int]);
        }
        if c == '/' {
            if count == 0 {
                slash = i;
            }
            count += 1;
        }
        i += 1;
    }
    proof {
        assert(repo@.take(repo@.len() as int) =~= repo@);
    }
    if count == 1 {
        let owner = repo.substring_char(0, slash);
        let name = repo.substring_char(slash + 1, len);
        proof {
            assert(owner@ =~= repo@.take(slash as int));
            assert(name@ =~= repo@.skip(slash + 1));
        }
        Ok((owner.to_owned(), name.to_owned()))
    } else {
        let mut msg = "Invalid repository format. Expected 'owner/repo', got '".to_owned();
        msg.append(repo);
        msg.append("'");
        proof {
            assert(msg@ =~= "Invalid repository format. Expected 'owner/repo', got '"@ + repo@
                + "'"@);
        }
        Err(GogsError::ValidationError(msg))
    }
}

/// The view of an optional string argument.
pub open spec fn spec_opt_view(s: Option<&str>) -> Option<Seq<char>> {
    match s {
        Some(t) => Some(t@),
        None => None,
    }
}

impl Config {
    /// The repository string that a request resolves to: the explicit one,
    /// else the configured default.
    pub open spec fn spec_repo_choice(self, repo: Option<Seq<char>>) -> Option<Seq<char>> {
        match repo {
            Some(s) => Some(s),
            None => match self.defaults.repo {
                Some(d) => Some(d@),
                None => None,
            },
        }
    }

    /// The profile name that a request resolves to: the explicit name, else
    /// the configured default, else `default`.
    pub open spec fn spec_profile_key(self, name: Option<Seq<char>>) -> Seq<char> {
        match name {
            Some(n) => n,
            None => match self.defaults.profile {
                Some(d) => d@,
                None => "default"@,
            },
        }
    }

    /// Resolve the active profile. Succeeds exactly when a profile of the
    /// resolved name exists, returning the first entry under that name;
    /// fails with a configuration error naming it otherwise.
    pub fn get_profile(&self, name: Option<&str>) -> (r: Result<&Profile, GogsError>)
        ensures
            r is Ok <==> exists|j: int|
                0 <= j < self.profiles@.len() && (#[trigger] self.profiles@[j]).name@
                    == self.spec_profile_key(spec_opt_view(name)),
            r is Ok ==> exists|j: int|
                0 <= j < self.profiles@.len() && (#[trigger] self.profiles@[j]).name@
                    == self.spec_profile_key(spec_opt_view(name)) && *r->Ok_0
                    == self.profiles@[j].profile && (forall|j2: int|
                    0 <= j2 < j ==> (#[trigger] self.profiles@[j2]).name@ != self.spec_profile_key(
                        spec_opt_view(name),
                    )),
            r is Err ==> r->Err_0 is ConfigError && (r->Err_0)->ConfigError_0@ == "Profile '"@
                + self.spec_profile_key(spec_opt_view(name)) + "' not found in config"@,
    {
        let key: &str = match name {
            Some(n) => n,
            None => match &self.defaults.profile {
                Some(d) => d.as_str(),
                None => "default",
            },
        };
        let ghost keyv = self.spec_profile_key(spec_opt_view(name));
        proof {
            assert(key@ == keyv);
        }
        let mut j: usize = 0;
        while j < self.profiles.len()
            invariant
                j <= self.profiles@.len(),
                key@ == keyv,
                keyv == self.spec_profile_key(spec_opt_view(name)),
                forall|j2: int| 0 <= j2 < j ==> (#[trigger] self.profiles@[j2]).name@ != keyv,
            decreases self.profiles@.len() - j,
        {
            if str_eq(self.profiles[j].name.as_str(), key) {
                proof {
                    assert(self.profiles@[j as int].name@ == keyv);
                }
                return Ok(&self.profiles[j].profile);
            }
            j += 1;
        }
        let mut msg = "Profile '".to_owned();
        msg.append(key);
        msg.append("' not found in config");
        proof {
            assert(msg@ =~= "Profile '"@ + keyv + "' not found in config"@);
        }
        Err(GogsError::ConfigError(msg))
    }

    /// Resolve the target repository: the explicit `owner/repo` string, else
    /// the configured default, else a configuration error; the chosen string
    /// is then split by `parse_repo`.
    pub fn get_repo(&self, repo: Option<&str>) -> (r: Result<(String, String), GogsError>)
        ensures
            self.spec_repo_choice(spec_opt_view(repo)) is None ==> r is Err && r->Err_0 is ConfigError
                && (r->Err_0)->ConfigError_0@
                == "Repository not specified. Use --repo owner/name or set defaults.repo in config"@,
            self.spec_repo_choice(spec_opt_view(repo)) is Some ==> (r is Ok <==> spec_slash_count(
                self.spec_repo_choice(spec_opt_view(repo))->Some_0,
            ) == 1),
            self.spec_repo_choice(spec_opt_view(repo)) is Some && r is Ok ==> exists|p: int|
                0 <= p < self.spec_repo_choice(spec_opt_view(repo))->Some_0.len()
                    && #[trigger] self.spec_repo_choice(spec_opt_view(repo))->Some_0[p] == '/'
                    && r->Ok_0.0@ == self.spec_repo_choice(spec_opt_view(repo))->Some_0.take(p)
                    && r->Ok_0.1@ == self.spec_repo_choice(spec_opt_view(repo))->Some_0.skip(p + 1),
            self.spec_repo_choice(spec_opt_view(repo)) is Some && r is Err ==> r->Err_0 is ValidationError
                && (r->Err_0)->ValidationError_0@
                == "Invalid repository format. Expected 'owner/repo', got '"@
                + self.spec_repo_choice(spec_opt_view(repo))->Some_0 + "'"@,
    {
        let chosen: &str = match repo {
            Some(s) => s,
            None => match &self.defaults.repo {
                Some(d) => d.as_str(),
                None => {
                    return Err(
                        GogsError::ConfigError(
                            "Repository not specified. Use --repo owner/name or set defaults.repo in config".to_owned(),
                        ),
                    );
                },
            },
        };
        let ghost chosenv = chosen@;
        let r = parse_repo(chosen);
        proof {
            if r is Ok {
                let p = choose|p: int|
                    0 <= p < chosenv.len() && #[trigger] chosenv[p] == '/' && r->Ok_0.0@
                        == chosenv.take(p) && r->Ok_0.1@ == chosenv.skip(p + 1);
                assert(chosenv[p] == '/');
            }
        }
        r
    }
}

// --- First-run assembly -------------------------------------------------------

/// Whether a text holds a `/` anywhere.
pub open spec fn spec_has_slash(s: Seq<char>) -> bool {
    exists|i: int| 0 <= i < s.len() && s[i] == '/'
}

fn has_slash(s: &str) -> (r: bool)
    ensures
        r == spec_has_slash(s@),
{
    let len = s.unicode_len();
    let mut i: usize = 0;
    while i < len
        invariant
            len == s@.len(),
            i <= len,
            forall|k: int| 0 <= k < i ==> s@[k] != '/',
        decreases len - i,
    {
        if s.get_char(i) == '/' {
            return true;
        }
        i += 1;
    }
    false
}

/// Assemble a fresh configuration from first-run answers: the server URL,
/// user and token must be non-empty; an empty profile name falls back to
/// `default`, an empty role to `Human`, an empty signature to the role in
/// brackets; a default repository is kept only when it holds a `/`.
pub fn build_init_config(
    server_url: String,
    profile_name: String,
    gogs_user: String,
    token: String,
    role: String,
    signature: String,
    default_repo: String,
) -> (r: Result<Config, GogsError>)
    ensures
        server_url@.len() == 0 ==> r is Err && r->Err_0 is ValidationError && (
        r->Err_0)->ValidationError_0@ == "Server URL cannot be empty"@,
        server_url@.len() > 0 && gogs_user@.len() == 0 ==> r is Err && r->Err_0 is ValidationError
            && (r->Err_0)->ValidationError_0@ == "Username cannot be empty"@,
        server_url@.len() > 0 && gogs_user@.len() > 0 && token@.len() == 0 ==> r is Err
            && r->Err_0 is ValidationError && (r->Err_0)->ValidationError_0@
            == "API token cannot be empty"@,
        r is Ok <==> server_url@.len() > 0 && gogs_user@.len() > 0 && token@.len() > 0,
        r is Ok ==> {
            &&& r->Ok_0.server.url@ == server_url@
            &&& r->Ok_0.profiles@.len() == 1
            &&& r->Ok_0.profiles@[0].name@ == spec_defaulted(profile_name@, "default"@)
            &&& r->Ok_0.profiles@[0].profile.gogs_user@ == gogs_user@
            &&& r->Ok_0.profiles@[0].profile.token@ == token@
            &&& r->Ok_0.profiles@[0].profile.role@ == spec_defaulted(role@, "Human"@)
            &&& r->Ok_0.profiles@[0].profile.signature@ == (if signature@.len() > 0 {
                signature@
            } else {
                "["@ + spec_defaulted(role@, "Human"@) + "]"@
            })
            &&& r->Ok_0.defaults.profile is Some && r->Ok_0.defaults.profile->Some_0@
                == spec_defaulted(profile_name@, "default"@)
            &&& (default_repo@.len() > 0 && spec_has_slash(default_repo@)
                ==> r->Ok_0.defaults.repo is Some && r->Ok_0.defaults.repo->Some_0@
                == default_repo@)
            &&& (default_repo@.len() == 0 || !spec_has_slash(default_repo@)
                ==> r->Ok_0.defaults.repo is None)
            &&& r->Ok_0.wf()
        },
{
    if server_url.as_str().unicode_len() == 0 {
        return Err(GogsError::ValidationError("Server URL cannot be empty".to_owned()));
    }
    if gogs_user.as_str().unicode_len() == 0 {
        return Err(GogsError::ValidationError("Username cannot be empty".to_owned()));
    }
    if token.as_str().unicode_len() == 0 {
        return Err(GogsError::ValidationError("API token cannot be empty".to_owned()));
    }
    let name = if profile_name.as_str().unicode_len() == 0 {
        "default".to_owned()
    } else {
        profile_name
    };
    let role_final = if role.as_str().unicode_len() == 0 {
        "Human".to_owned()
    } else {
        role
    };
    let signature_final = if signature.as_str().unicode_len() == 0 {
        let mut s = "[".to_owned();
        s.append(role_final.as_str());
        s.append("]");
        proof {
            assert(s@ =~= "["@ + role_final@ + "]"@);
        }
        s
    } else {
        signature
    };
    let repo_default = if default_repo.as_str().unicode_len() > 0 && has_slash(
        default_repo.as_str(),
    ) {
        Some(default_repo)
    } else {
        None
    };
    let profile = Profile { gogs_user, token, role: role_final, signature: signature_final };
    let mut profiles: Vec<ProfileEntry> = Vec::new();
    let entry_name = name.clone();
    profiles.push(ProfileEntry { name: entry_name, profile });
    Ok(
        Config {
            server: ServerConfig { url: server_url },
            defaults: Defaults { repo: repo_default, profile: Some(name) },
            profiles,
        },
    )
}

/// A value with an empty-text fallback.
pub open spec fn spec_defaulted(value: Seq<char>, fallback: Seq<char>) -> Seq<char> {
    if value.len() == 0 {
        fallback
    } else {
        value
    }
}

} // verus!
