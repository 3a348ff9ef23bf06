//! The resolved project configuration: how `init` fills it, how it is read
//! back from a manifest, and the texts written from it.
use vstd::prelude::*;

use crate::cli::Cli;
use crate::laws::{lemma_manifest_round_trip, no_newline, quoted, settings_map};
use crate::manifest::{parse_manifest, parse_manifest_spec, Manifest};
use crate::paths::{
    default_workspace_name, default_workspace_name_of, joined_path, path_join, MANIFEST_FILE_NAME,
};
use crate::snake::{upper_snake, upper_snake_of};

verus! {

/// The pin file used when the manifest names none.
pub const DEFAULT_PIN_FILE: &'static str = ".devc.local.env";

/// What `format!("{:?}", s)` gives for the text `s`.
pub uninterp spec fn debug_quoted(s: Seq<char>) -> Seq<char>;

/// A character that `Debug` on a string leaves as it is: printable ASCII
/// other than the double quote and the backslash.
pub open spec fn is_plain_char(c: char) -> bool {
    ' ' <= c && c <= '~' && c != '"' && c != '\\'
}

pub open spec fn is_plain(s: Seq<char>) -> bool {
    forall|i: int| 0 <= i < s.len() ==> is_plain_char(#[trigger] s[i])
}

/// Every setting of `c` is plain text.
pub open spec fn settings_plain(c: ConfigModel) -> bool {
    &&& is_plain(c.container)
    &&& is_plain(c.workspace_name)
    &&& is_plain(c.service_name)
    &&& is_plain(c.image_repo)
    &&& is_plain(c.image_env_var)
    &&& is_plain(c.pin_file)
}

pub proof fn lemma_plain_no_newline(s: Seq<char>)
    requires
        is_plain(s),
    ensures
        no_newline(s),
{
    assert forall|i: int| 0 <= i < s.len() implies #[trigger] s[i] != '\n' by {
        assert(is_plain_char(s[i]));
    }
}

/// Calls `<str as Debug>::fmt` through `format!("{:?}", ..)`: the text in
/// double quotes with special characters escaped. Which characters are escaped,
/// and how, is left named; only printable ASCII without double quotes or
/// backslashes (the single quote included) is stated to come out unchanged
/// between the quotes.
#[verifier::external_body]
fn debug_quote(s: &str) -> (r: String)
    ensures
        r@ == debug_quoted(s@),
        is_plain(s@) ==> r@ == quoted(s@),
{
    format!("{:?}", s)
}

/// The metadata of one project.
pub struct ProjectConfig {
    pub manifest_path: String,
    pub container: String,
    pub workspace_name: String,
    pub service_name: String,
    pub image_repo: String,
    pub image_env_var: String,
    pub pin_file: String,
}

/// A project configuration as text.
pub struct ConfigModel {
    pub manifest_path: Seq<char>,
    pub container: Seq<char>,
    pub workspace_name: Seq<char>,
    pub service_name: Seq<char>,
    pub image_repo: Seq<char>,
    pub image_env_var: Seq<char>,
    pub pin_file: Seq<char>,
}

impl View for ProjectConfig {
    type V = ConfigModel;

    open spec fn view(&self) -> ConfigModel {
        ConfigModel {
            manifest_path: self.manifest_path@,
            container: self.container@,
            workspace_name: self.workspace_name@,
            service_name: self.service_name@,
            image_repo: self.image_repo@,
            image_env_var: self.image_env_var@,
            pin_file: self.pin_file@,
        }
    }
}

pub open spec fn default_image_repo_of(container: Seq<char>) -> Seq<char> {
    "ghcr.io/geoff-hill/"@ + container + "-devcontainer"@
}

/// The name of the environment variable that pins the image of `container`.
pub open spec fn image_env_var_of(container: Seq<char>) -> Seq<char> {
    upper_snake_of(container) + "_IMAGE"@
}

/// The published image repository of `container`.
pub fn default_image_repo(container: &str) -> (r: String)
    ensures
        r@ == default_image_repo_of(container@),
{
    let mut r = String::new();
    r.append("ghcr.io/geoff-hill/");
    r.append(container);
    r.append("-devcontainer");
    r
}

fn image_env_var(container: &str) -> (r: String)
    ensures
        r@ == image_env_var_of(container@),
{
    let mut r = upper_snake(container);
    r.append("_IMAGE");
    r
}

/// What `init` records for `dir` and the command line `cli`.
pub open spec fn init_model(dir: Seq<char>, cli: crate::cli::CliModel) -> ConfigModel {
    ConfigModel {
        manifest_path: joined_path(dir, MANIFEST_FILE_NAME@),
        container: cli.container,
        workspace_name: match cli.workspace_name {
            Some(w) => w,
            None => default_workspace_name_of(dir),
        },
        service_name: cli.service_name,
        image_repo: match cli.image_repo {
            Some(r) => r,
            None => default_image_repo_of(cli.container),
        },
        image_env_var: image_env_var_of(cli.container),
        pin_file: DEFAULT_PIN_FILE@,
    }
}

/// `m[key]`, or `default` when `m` has no `key`.
pub open spec fn value_or(m: Map<Seq<char>, Seq<char>>, key: Seq<char>, default: Seq<char>) -> Seq<
    char,
> {
    if m.contains_key(key) {
        m[key]
    } else {
        default
    }
}

/// The configuration that the manifest at `path`, read as `m`, gives.
pub open spec fn config_from_map(path: Seq<char>, m: Map<Seq<char>, Seq<char>>) -> Result<
    ConfigModel,
    Seq<char>,
> {
    if !m.contains_key("container"@) {
        Err("missing required key `container`"@)
    } else if !m.contains_key("workspace_name"@) {
        Err("missing required key `workspace_name`"@)
    } else {
        let container = m["container"@];
        Ok(
            ConfigModel {
                manifest_path: path,
                container,
                workspace_name: m["workspace_name"@],
                service_name: value_or(m, "service_name"@, "agent"@),
                image_repo: value_or(m, "image_repo"@, default_image_repo_of(container)),
                image_env_var: value_or(m, "image_env_var"@, image_env_var_of(container)),
                pin_file: value_or(m, "pin_file"@, DEFAULT_PIN_FILE@),
            },
        )
    }
}

/// What `load_from` gives for the project directory `dir` and what the
/// search found: nothing, or a manifest path with its text or the read error.
pub open spec fn load_spec(
    dir: Seq<char>,
    found: Option<(Seq<char>, Result<Seq<char>, Seq<char>>)>,
) -> Result<ConfigModel, Seq<char>> {
    match found {
        None => Err("could not find `"@ + MANIFEST_FILE_NAME@ + "` in `"@ + dir + "` or its parents"@),
        Some((path, Err(e))) => Err("failed to read "@ + path + ": "@ + e),
        Some((path, Ok(text))) => match parse_manifest_spec(text) {
            Err(e) => Err(e),
            Ok(m) => config_from_map(path, m),
        },
    }
}

pub open spec fn found_view(found: Option<(String, Result<String, String>)>) -> Option<
    (Seq<char>, Result<Seq<char>, Seq<char>>),
> {
    match found {
        None => None,
        Some((p, Ok(t))) => Some((p@, Ok(t@))),
        Some((p, Err(e))) => Some((p@, Err(e@))),
    }
}

/// One manifest line: `key = ` and the value in `Debug` quotes.
pub open spec fn manifest_line(key: Seq<char>, value: Seq<char>) -> Seq<char> {
    key + " = "@ + debug_quoted(value) + "\n"@
}

pub open spec fn manifest_header() -> Seq<char> {
    "# Managed by `devc init`. Commit this file with the repo.\n"@
}

/// The lines shared by the manifest and the `show` output.
pub open spec fn settings_text(c: ConfigModel) -> Seq<char> {
    manifest_line("container"@, c.container) + manifest_line("workspace_name"@, c.workspace_name)
        + manifest_line("service_name"@, c.service_name) + manifest_line(
        "image_repo"@,
        c.image_repo,
    ) + manifest_line("image_env_var"@, c.image_env_var) + manifest_line(
        "pin_file"@,
        c.pin_file,
    )
}

/// One manifest line for a value that `Debug` leaves as it is between the quotes.
pub open spec fn plain_line(key: Seq<char>, value: Seq<char>) -> Seq<char> {
    key + " = "@ + quoted(value) + "\n"@
}

/// The settings lines when every setting is plain text.
pub open spec fn plain_settings_text(c: ConfigModel) -> Seq<char> {
    plain_line("container"@, c.container) + plain_line("workspace_name"@, c.workspace_name)
        + plain_line("service_name"@, c.service_name) + plain_line("image_repo"@, c.image_repo)
        + plain_line("image_env_var"@, c.image_env_var) + plain_line("pin_file"@, c.pin_file)
}

/// The manifest text when every setting is plain text.
pub open spec fn plain_manifest_text(c: ConfigModel) -> Seq<char> {
    manifest_header() + plain_settings_text(c)
}

/// The `show` text when the manifest path and every setting are plain text.
pub open spec fn plain_show_text(c: ConfigModel) -> Seq<char> {
    plain_line("manifest_path"@, c.manifest_path) + plain_settings_text(c)
}

/// The text of the manifest written for `c`.
pub open spec fn manifest_text(c: ConfigModel) -> Seq<char> {
    manifest_header() + settings_text(c)
}

/// The text that `show` prints for `c`.
pub open spec fn show_text(c: ConfigModel) -> Seq<char> {
    manifest_line("manifest_path"@, c.manifest_path) + settings_text(c)
}

/// The compose service snippet.
pub open spec fn compose_text(
    service: Seq<char>,
    env_var: Seq<char>,
    repo: Seq<char>,
    workspace: Seq<char>,
) -> Seq<char> {
    "  "@ + service + ":\n    image: ${"@ + env_var + ":-"@ + repo
        + ":latest}\n    command: sleep infinity\n    working_dir: /workspaces/"@ + workspace
        + COMPOSE_MIDDLE@ + workspace + ":rw\n      - "@ + service
        + "-home:/home/agent:rw\n\nvolumes:\n  "@ + service + "-home:\n"@
}

/// The fixed part of the compose snippet between the working directory and the volumes.
pub const COMPOSE_MIDDLE: &'static str = "\n    user: \"${DEV_UID:-504}:${DEV_GID:-20}\"\n    security_opt:\n      - no-new-privileges:true\n    cap_drop:\n      - ALL\n    read_only: true\n    tmpfs:\n      - /tmp:rw,noexec,nosuid,size=256m\n      - /run:rw,nosuid,size=16m\n    environment:\n      XDG_CACHE_HOME: /home/agent/.cache\n      XDG_CONFIG_HOME: /home/agent/.config\n      XDG_DATA_HOME: /home/agent/.local/share\n      XDG_STATE_HOME: /home/agent/.local/state\n      MISE_DATA_DIR: /home/agent/.local/share/mise\n      MISE_CACHE_DIR: /home/agent/.cache/mise\n    volumes:\n      - .:/workspaces/";

/// The justfile snippet.
pub open spec fn just_text(pin_file: Seq<char>, service: Seq<char>) -> Seq<char> {
    "DEVCONTAINER_ENV_FILE := \""@ + pin_file + "\"\n\n# Start the "@ + service
        + " container using the pinned image when available.\ndev-up:\n\t@if [ -f \"${DEVCONTAINER_ENV_FILE}\" ]; then \\\n\t\tdocker compose --env-file \"${DEVCONTAINER_ENV_FILE}\" up -d "@
        + service + "; \\\n\telse \\\n\t\tdocker compose up -d "@ + service
        + "; \\\n\tfi\n\n# Open a shell in the "@ + service
        + " container.\ndev-shell:\n\t@if [ -f \"${DEVCONTAINER_ENV_FILE}\" ]; then \\\n\t\tdocker compose --env-file \"${DEVCONTAINER_ENV_FILE}\" exec -u agent "@
        + service + " bash -l; \\\n\telse \\\n\t\tdocker compose exec -u agent "@ + service
        + " bash -l; \\\n\tfi\n"@
}

fn push_line(out: &mut String, key: &str, value: &str)
    ensures
        final(out)@ == old(out)@ + manifest_line(key@, value@),
        is_plain(value@) ==> final(out)@ == old(out)@ + plain_line(key@, value@),
{
    let ghost start = out@;
    out.append(key);
    out.append(" = ");
    let q = debug_quote(value);
    out.append(q.as_str());
    out.append("\n");
    assert(out@ =~= start + manifest_line(key@, value@));
}

fn get_or(m: &Manifest, key: &str, default: String) -> (r: String)
    ensures
        r@ == value_or(m@, key@, default@),
{
    match m.get(key) {
        Some(v) => v,
        None => default,
    }
}

impl ProjectConfig {
    /// The configuration that `init` writes for `project_dir`: the command
    /// line's values, else the defaults (the directory's name as workspace,
    /// the published repository of the container).
    pub fn init_for(project_dir: &str, cli: &Cli) -> (r: Result<ProjectConfig, String>)
        ensures
            r matches Ok(c) && c@ == init_model(project_dir@, cli@),
    {
        let workspace_name = match &cli.workspace_name {
            Some(w) => w.clone(),
            None => default_workspace_name(project_dir),
        };
        let container = cli.container.clone();
        let image_repo = match &cli.image_repo {
            Some(r) => r.clone(),
            None => default_image_repo(container.as_str()),
        };
        let manifest_path = path_join(project_dir, MANIFEST_FILE_NAME);
        let image_env_var = image_env_var(container.as_str());
        Ok(
            ProjectConfig {
                manifest_path,
                container,
                workspace_name,
                service_name: cli.service_name.clone(),
                image_env_var,
                image_repo,
                pin_file: DEFAULT_PIN_FILE.to_owned(),
            },
        )
    }

    /// Reads the configuration of the project in `project_dir`. `found` is
    /// what the search for its manifest gave: `None` when there is no
    /// manifest in it or its parents, else the manifest's path and its text or
    /// the error that reading it gave. Keys other than `container` and
    /// `workspace_name` fall back to their defaults.
    pub fn load_from(project_dir: &str, found: Option<(String, Result<String, String>)>) -> (r:
        Result<ProjectConfig, String>)
        ensures
            load_spec(project_dir@, found_view(found)) == (match r {
                Ok(c) => Ok(c@),
                Err(e) => Err(e@),
            }),
    {
        match found {
            None => {
                let mut msg = String::new();
                msg.append("could not find `");
                msg.append(MANIFEST_FILE_NAME);
                msg.append("` in `");
                msg.append(project_dir);
                msg.append("` or its parents");
                Err(msg)
            },
            Some((path, Err(e))) => {
                let mut msg = String::new();
                msg.append("failed to read ");
                msg.append(path.as_str());
                msg.append(": ");
                msg.append(e.as_str());
                Err(msg)
            },
            Some((path, Ok(contents))) => {
                let parsed = match parse_manifest(contents.as_str()) {
                    Ok(m) => m,
                    Err(e) => {
                        return Err(e);
                    },
                };
                let container = match parsed.get("container") {
                    Some(c) => c,
                    None => {
                        return Err("missing required key `container`".to_owned());
                    },
                };
                let workspace_name = match parsed.get("workspace_name") {
                    Some(w) => w,
                    None => {
                        return Err("missing required key `workspace_name`".to_owned());
                    },
                };
                let service_name = get_or(&parsed, "service_name", "agent".to_owned());
                let image_repo = get_or(
                    &parsed,
                    "image_repo",
                    default_image_repo(container.as_str()),
                );
                let image_env_var = get_or(
                    &parsed,
                    "image_env_var",
                    image_env_var(container.as_str()),
                );
                let pin_file = get_or(&parsed, "pin_file", DEFAULT_PIN_FILE.to_owned());
                Ok(
                    ProjectConfig {
                        manifest_path: path,
                        container,
                        workspace_name,
                        service_name,
                        image_repo,
                        image_env_var,
                        pin_file,
                    },
                )
            },
        }
    }

    fn push_settings(&self, out: &mut String)
        ensures
            final(out)@ == old(out)@ + settings_text(self@),
            settings_plain(self@) ==> final(out)@ == old(out)@ + plain_settings_text(self@),
    {
        let ghost start = out@;
        push_line(out, "container", self.container.as_str());
        push_line(out, "workspace_name", self.workspace_name.as_str());
        push_line(out, "service_name", self.service_name.as_str());
        push_line(out, "image_repo", self.image_repo.as_str());
        push_line(out, "image_env_var", self.image_env_var.as_str());
        push_line(out, "pin_file", self.pin_file.as_str());
        assert(out@ =~= start + settings_text(self@));
    }

    /// The text of the manifest file. When the settings are printable ASCII
    /// without double quotes or backslashes, each is written just in double
    /// quotes, and reading the text back gives exactly them.
    pub fn manifest_contents(&self) -> (r: String)
        ensures
            r@ == manifest_text(self@),
            settings_plain(self@) ==> r@ == plain_manifest_text(self@),
            settings_plain(self@) ==> parse_manifest_spec(r@) == Ok::<
                Map<Seq<char>, Seq<char>>,
                Seq<char>,
            >(settings_map(self@)),
            settings_plain(self@) ==> forall|dir: Seq<char>, path: Seq<char>|
                #[trigger] load_spec(dir, Some((path, Ok(r@)))) == Ok::<ConfigModel, Seq<char>>(
                    ConfigModel { manifest_path: path, ..self@ },
                ),
    {
        let mut out = String::new();
        out.append("# Managed by `devc init`. Commit this file with the repo.\n");
        self.push_settings(&mut out);
        assert(out@ =~= manifest_text(self@));
        assert(settings_plain(self@) ==> out@ =~= plain_manifest_text(self@));
        proof {
            if settings_plain(self@) {
                lemma_manifest_round_trip(self@);
            }
        }
        out
    }

    /// The resolved metadata, as `show` prints it; plain values come out just
    /// in double quotes.
    pub fn show_contents(&self) -> (r: String)
        ensures
            r@ == show_text(self@),
            settings_plain(self@) && is_plain(self.manifest_path@) ==> r@ == plain_show_text(
                self@,
            ),
    {
        let mut out = String::new();
        push_line(&mut out, "manifest_path", self.manifest_path.as_str());
        self.push_settings(&mut out);
        assert(out@ =~= show_text(self@));
        assert(settings_plain(self@) && is_plain(self.manifest_path@) ==> out@ =~= plain_show_text(
            self@,
        ));
        out
    }

    /// A compose service for this project.
    pub fn compose_snippet(&self) -> (r: String)
        ensures
            r@ == compose_text(
                self.service_name@,
                self.image_env_var@,
                self.image_repo@,
                self.workspace_name@,
            ),
    {
        let service = self.service_name.as_str();
        let workspace = self.workspace_name.as_str();
        let mut out = String::new();
        out.append("  ");
        out.append(service);
        out.append(":\n    image: ${");
        out.append(self.image_env_var.as_str());
        out.append(":-");
        out.append(self.image_repo.as_str());
        out.append(":latest}\n    command: sleep infinity\n    working_dir: /workspaces/");
        out.append(workspace);
        out.append(COMPOSE_MIDDLE);
        out.append(workspace);
        out.append(":rw\n      - ");
        out.append(service);
        out.append("-home:/home/agent:rw\n\nvolumes:\n  ");
        out.append(service);
        out.append("-home:\n");
        out
    }

    /// Justfile recipes that start the container and open a shell in it,
    /// with the pinned image when the pin file exists.
    pub fn just_snippet(&self) -> (r: String)
        ensures
            r@ == just_text(self.pin_file@, self.service_name@),
    {
        let service = self.service_name.as_str();
        let mut out = String::new();
        out.append("DEVCONTAINER_ENV_FILE := \"");
        out.append(self.pin_file.as_str());
        out.append("\"\n\n# Start the ");
        out.append(service);
        out.append(
            " container using the pinned image when available.\ndev-up:\n\t@if [ -f \"${DEVCONTAINER_ENV_FILE}\" ]; then \\\n\t\tdocker compose --env-file \"${DEVCONTAINER_ENV_FILE}\" up -d ",
        );
        out.append(service);
        out.append("; \\\n\telse \\\n\t\tdocker compose up -d ");
        out.append(service);
        out.append("; \\\n\tfi\n\n# Open a shell in the ");
        out.append(service);
        out.append(
            " container.\ndev-shell:\n\t@if [ -f \"${DEVCONTAINER_ENV_FILE}\" ]; then \\\n\t\tdocker compose --env-file \"${DEVCONTAINER_ENV_FILE}\" exec -u agent ",
        );
        out.append(service);
        out.append(" bash -l; \\\n\telse \\\n\t\tdocker compose exec -u agent ");
        out.append(service);
        out.append(" bash -l; \\\n\tfi\n");
        out
    }
}

} // verus!
