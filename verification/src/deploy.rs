//! Deploying the build artifacts of components to the server of a project.

use vstd::prelude::*;
use vstd::string::*;
use crate::base_path::{join_remote_child, join_remote_path, remote_child, remote_path};
use crate::error::{message_text, Error, ErrorView};
use crate::shell::{cd_and, in_directory};
use crate::split::{
    ends_with, find_last_char, has_suffix, last_index, lemma_last_index, slice_chars,
};
use crate::ssh::CommandOutput;
use crate::text::{
    chars_of, concat, concat3, contains_text, copy_opt_text, opt_text, same_text, starts_with_char,
    string_of, texts,
};
use crate::version::{found_version, parse_component_version};
use crate::tree::{
    get_text, get_value, item_views, lemma_array_view, text_at, value_at, Json, JsonView,
};

verus! {

/// A file that holds the version of a component, and how the version is found in it.
#[derive(Debug)]
pub struct VersionTarget {
    pub file: String,
    pub pattern: Option<String>,
}

/// A component as it is deployed.
#[derive(Debug)]
pub struct Component {
    pub id: String,
    pub name: String,
    pub local_path: String,
    pub remote_path: String,
    pub build_artifact: String,
    pub build_command: Option<String>,
    pub version_targets: Option<Vec<VersionTarget>>,
}

impl Clone for Component {
    fn clone(&self) -> (r: Self)
        ensures
            r.id@ == self.id@,
            r.name@ == self.name@,
            r.local_path@ == self.local_path@,
            r.remote_path@ == self.remote_path@,
            r.build_artifact@ == self.build_artifact@,
            opt_text(r.build_command) == opt_text(self.build_command),
            first_version_file(r) == first_version_file(*self),
    {
        let version_targets = match &self.version_targets {
            Some(targets) => {
                let mut out: Vec<VersionTarget> = Vec::new();
                let mut i: usize = 0;
                while i < targets.len()
                    invariant
                        i <= targets.len(),
                        out@.len() == i,
                        forall|j: int| 0 <= j < i ==> out@[j].file@ == targets@[j].file@,
                    decreases targets.len() - i,
                {
                    out.push(
                        VersionTarget {
                            file: targets[i].file.clone(),
                            pattern: copy_opt_text(&targets[i].pattern),
                        },
                    );
                    i += 1;
                }
                Some(out)
            },
            None => None,
        };
        Component {
            id: self.id.clone(),
            name: self.name.clone(),
            local_path: self.local_path.clone(),
            remote_path: self.remote_path.clone(),
            build_artifact: self.build_artifact.clone(),
            build_command: copy_opt_text(&self.build_command),
            version_targets,
        }
    }
}

/// The file of the first version target of a component.
pub open spec fn first_version_file(c: Component) -> Option<Seq<char>> {
    match c.version_targets {
        Some(targets) => if targets@.len() > 0 {
            Some(targets@[0].file@)
        } else {
            None
        },
        None => None,
    }
}

/// A version target with its strings as texts.
pub struct TargetView {
    pub file: Seq<char>,
    pub pattern: Option<Seq<char>>,
}

/// A component with its strings as texts.
pub struct ComponentView {
    pub id: Seq<char>,
    pub name: Seq<char>,
    pub local_path: Seq<char>,
    pub remote_path: Seq<char>,
    pub build_artifact: Seq<char>,
    pub build_command: Option<Seq<char>>,
    pub version_targets: Option<Seq<TargetView>>,
}

/// The version targets of a list with their strings as texts.
pub open spec fn target_views(targets: Seq<VersionTarget>) -> Seq<TargetView> {
    Seq::new(
        targets.len(),
        |i: int| TargetView { file: targets[i].file@, pattern: opt_text(targets[i].pattern) },
    )
}

impl View for Component {
    type V = ComponentView;

    open spec fn view(&self) -> ComponentView {
        ComponentView {
            id: self.id@,
            name: self.name@,
            local_path: self.local_path@,
            remote_path: self.remote_path@,
            build_artifact: self.build_artifact@,
            build_command: opt_text(self.build_command),
            version_targets: match self.version_targets {
                Some(targets) => Some(target_views(targets@)),
                None => None,
            },
        }
    }
}

/// The components of a list with their strings as texts.
pub open spec fn component_views(components: Seq<Component>) -> Seq<ComponentView> {
    Seq::new(components.len(), |i: int| components[i]@)
}

/// The text, or the default where there is none.
pub open spec fn or_text(o: Option<Seq<char>>, default: Seq<char>) -> Seq<char> {
    match o {
        Some(s) => s,
        None => default,
    }
}

/// The version targets that a list of JSON values holds: each value that names a file under
/// `file`, with the pattern under `pattern` where it has one.
pub open spec fn targets_in(items: Seq<JsonView>) -> Seq<TargetView>
    decreases items.len(),
{
    if items.len() == 0 {
        Seq::empty()
    } else {
        let head = targets_in(items.drop_last());
        match text_at(items.last(), "file"@) {
            Some(file) => head.push(
                TargetView { file, pattern: text_at(items.last(), "pattern"@) },
            ),
            None => head,
        }
    }
}

/// The build artifact that a stored component names: as it stands where it starts with a
/// slash, else below the local path; empty where none is named.
pub open spec fn artifact_in(config: JsonView) -> Seq<char> {
    match text_at(config, "buildArtifact"@) {
        Some(s) => if s.len() > 0 && s[0] == '/' {
            s
        } else {
            or_text(text_at(config, "localPath"@), Seq::empty()) + "/"@ + s
        },
        None => Seq::empty(),
    }
}

/// The component that a stored record describes. What the record does not say as a text
/// is empty, but for the id and the name, which are then the id of the record.
pub open spec fn component_from(id: Seq<char>, config: JsonView) -> ComponentView {
    ComponentView {
        id: or_text(text_at(config, "id"@), id),
        name: or_text(text_at(config, "name"@), id),
        local_path: or_text(text_at(config, "localPath"@), Seq::empty()),
        remote_path: or_text(text_at(config, "remotePath"@), Seq::empty()),
        build_artifact: artifact_in(config),
        build_command: text_at(config, "buildCommand"@),
        version_targets: match value_at(config, "versionTargets"@) {
            Some(JsonView::Array(items)) => Some(targets_in(items)),
            _ => None,
        },
    }
}

/// The text under a key, or the default.
fn text_or(config: &Json, key: &str, default: &str) -> (r: String)
    ensures
        r@ == or_text(text_at(config@, key@), default@),
{
    match get_text(config, key) {
        Some(s) => s,
        None => String::from_str(default),
    }
}

/// The version targets that a list of JSON values holds.
fn read_targets(items: &Vec<Json>) -> (r: Vec<VersionTarget>)
    ensures
        target_views(r@) == targets_in(item_views(items@)),
{
    let ghost all = item_views(items@);
    let mut out: Vec<VersionTarget> = Vec::new();
    let mut i: usize = 0;
    assert(target_views(out@) =~= targets_in(all.take(0)));
    while i < items.len()
        invariant
            i <= items.len(),
            all == item_views(items@),
            target_views(out@) == targets_in(all.take(i as int)),
        decreases items.len() - i,
    {
        proof {
            assert(all.take(i + 1).drop_last() =~= all.take(i as int));
            assert(all.take(i + 1).last() == items@[i as int]@);
        }
        let ghost before = target_views(out@);
        match get_text(&items[i], "file") {
            Some(file) => {
                let pattern = get_text(&items[i], "pattern");
                out.push(VersionTarget { file, pattern });
                assert(target_views(out@) =~= before.push(
                    TargetView { file: file@, pattern: opt_text(pattern) },
                ));
            },
            None => {},
        }
        i += 1;
    }
    assert(all.take(items@.len() as int) =~= all);
    out
}

/// The component that a stored record describes.
pub fn component_of(id: &str, config: &Json) -> (r: Component)
    ensures
        r@ == component_from(id@, config@),
{
    let local_path = text_or(config, "localPath", "");
    proof {
        reveal_strlit("");
        assert(""@ =~= Seq::<char>::empty());
    }
    let build_artifact = match get_text(config, "buildArtifact") {
        Some(s) => {
            if starts_with_char(s.as_str(), '/') {
                s
            } else {
                concat3(local_path.as_str(), "/", s.as_str())
            }
        },
        None => String::new(),
    };
    let version_targets = match get_value(config, "versionTargets") {
        Some(Json::Array(items)) => {
            proof {
                lemma_array_view(*items);
            }
            Some(read_targets(items))
        },
        _ => None,
    };
    Component {
        id: text_or(config, "id", id),
        name: text_or(config, "name", id),
        local_path,
        remote_path: text_or(config, "remotePath", ""),
        build_artifact,
        build_command: get_text(config, "buildCommand"),
        version_targets,
    }
}

/// What is stored under the id of a component: the JSON of the record, where there is a
/// record that can be read.
#[derive(Debug)]
pub struct StoredComponent {
    pub id: String,
    pub config: Option<Json>,
}

/// The components that the records describe, in order; an id without a record is left out.
pub open spec fn loaded(records: Seq<StoredComponent>) -> Seq<ComponentView>
    decreases records.len(),
{
    if records.len() == 0 {
        Seq::empty()
    } else {
        let head = loaded(records.drop_last());
        match records.last().config {
            Some(config) => head.push(component_from(records.last().id@, config@)),
            None => head,
        }
    }
}

/// The components that the records describe.
pub fn load_components(records: &Vec<StoredComponent>) -> (r: Vec<Component>)
    ensures
        component_views(r@) == loaded(records@),
{
    let mut out: Vec<Component> = Vec::new();
    let mut i: usize = 0;
    assert(component_views(out@) =~= loaded(records@.take(0)));
    while i < records.len()
        invariant
            i <= records.len(),
            component_views(out@) == loaded(records@.take(i as int)),
        decreases records.len() - i,
    {
        proof {
            assert(records@.take(i + 1).drop_last() =~= records@.take(i as int));
            assert(records@.take(i + 1).last() == records@[i as int]);
        }
        let ghost before = component_views(out@);
        match &records[i].config {
            Some(config) => {
                let component = component_of(records[i].id.as_str(), config);
                out.push(component);
                assert(component_views(out@) =~= before.push(component@));
            },
            None => {},
        }
        i += 1;
    }
    assert(records@.take(records@.len() as int) =~= records@);
    out
}

/// The file on this machine that holds the version of a component: the file of its first
/// version target, below the local path.
pub open spec fn local_version_path(c: Component) -> Option<Seq<char>> {
    match first_version_file(c) {
        Some(file) => Some(c.local_path@ + "/"@ + file),
        None => None,
    }
}

/// The file on this machine that holds the version of a component.
pub fn local_version_file(component: &Component) -> (r: Option<String>)
    ensures
        opt_text(r) == local_version_path(*component),
{
    match &component.version_targets {
        Some(targets) => {
            if targets.len() == 0 {
                None
            } else {
                Some(concat3(component.local_path.as_str(), "/", targets[0].file.as_str()))
            }
        },
        None => None,
    }
}

/// The arguments of the `deploy` command.
#[derive(Debug)]
pub struct DeployArgs {
    pub project_id: String,
    pub component_ids: Vec<String>,
    pub all: bool,
    pub outdated: bool,
    pub build: bool,
    pub dry_run: bool,
}

/// What became of one component.
#[derive(Debug)]
pub struct DeployComponentResult {
    pub id: String,
    pub name: String,
    pub status: String,
    pub local_version: Option<String>,
    pub remote_version: Option<String>,
    pub error: Option<String>,
    pub artifact_path: Option<String>,
    pub remote_path: Option<String>,
    pub build_command: Option<String>,
    pub build_exit_code: Option<i32>,
    pub scp_exit_code: Option<i32>,
}

/// How many components were deployed, failed and were left out.
#[derive(Clone, Copy, Debug, PartialEq, Eq, Structural)]
pub struct DeploySummary {
    pub succeeded: u32,
    pub failed: u32,
    pub skipped: u32,
}

/// What the `deploy` command reports.
#[derive(Debug)]
pub struct DeployOutput {
    pub project_id: String,
    pub all: bool,
    pub outdated: bool,
    pub build: bool,
    pub dry_run: bool,
    pub components: Vec<DeployComponentResult>,
    pub summary: DeploySummary,
}

/// The version of a component, as found on one side.
#[derive(Debug)]
pub struct ComponentVersion {
    pub id: String,
    pub version: String,
}

/// The version of the first entry for the component.
pub open spec fn version_of(versions: Seq<ComponentVersion>, id: Seq<char>) -> Option<Seq<char>>
    decreases versions.len(),
{
    if versions.len() == 0 {
        None
    } else if versions[0].id@ == id {
        Some(versions[0].version@)
    } else {
        version_of(versions.drop_first(), id)
    }
}

/// The version of a component, where it is known.
pub fn find_version(versions: &Vec<ComponentVersion>, id: &str) -> (r: Option<String>)
    ensures
        opt_text(r) == version_of(versions@, id@),
{
    let mut i: usize = 0;
    assert(versions@.skip(0) =~= versions@);
    while i < versions.len()
        invariant
            i <= versions.len(),
            version_of(versions@, id@) == version_of(versions@.skip(i as int), id@),
        decreases versions.len() - i,
    {
        proof {
            assert(versions@.skip(i as int).drop_first() =~= versions@.skip(i + 1));
            assert(versions@.skip(i as int)[0] == versions@[i as int]);
        }
        if same_text(versions[i].id.as_str(), id) {
            return Some(versions[i].version.clone());
        }
        i += 1;
    }
    None
}

/// What is asked for: all components, those that are named, or those whose version on the
/// server is not the local one.
#[derive(Clone, Copy, Debug, PartialEq, Eq, Structural)]
pub enum Selection {
    All,
    Named,
    Outdated,
}

/// What the arguments ask for: all where `all` is set, else the named where ids are given,
/// else the outdated where `outdated` is set.
pub open spec fn selection_of(args: DeployArgs) -> Option<Selection> {
    if args.all {
        Some(Selection::All)
    } else if args.component_ids@.len() > 0 {
        Some(Selection::Named)
    } else if args.outdated {
        Some(Selection::Outdated)
    } else {
        None
    }
}

/// The component is outdated: one of its versions is not known, or they differ.
pub open spec fn outdated(
    c: Component,
    local: Seq<ComponentVersion>,
    remote: Seq<ComponentVersion>,
) -> bool {
    version_of(local, c.id@) is None || version_of(remote, c.id@) is None || version_of(
        local,
        c.id@,
    ) != version_of(remote, c.id@)
}

/// Whether the component is among those that are asked for.
pub open spec fn selected(
    c: Component,
    selection: Selection,
    ids: Seq<Seq<char>>,
    local: Seq<ComponentVersion>,
    remote: Seq<ComponentVersion>,
) -> bool {
    match selection {
        Selection::All => true,
        Selection::Named => ids.contains(c.id@),
        Selection::Outdated => outdated(c, local, remote),
    }
}

/// The ids of the components that are asked for, in order.
pub open spec fn selected_ids(
    components: Seq<Component>,
    selection: Selection,
    ids: Seq<Seq<char>>,
    local: Seq<ComponentVersion>,
    remote: Seq<ComponentVersion>,
) -> Seq<Seq<char>>
    decreases components.len(),
{
    if components.len() == 0 {
        Seq::empty()
    } else {
        selected_ids(components.drop_last(), selection, ids, local, remote) + if selected(
            components.last(),
            selection,
            ids,
            local,
            remote,
        ) {
            seq![components.last().id@]
        } else {
            Seq::empty()
        }
    }
}

/// The ids of the components, in order.
pub open spec fn component_ids(components: Seq<Component>) -> Seq<Seq<char>> {
    Seq::new(components.len(), |i: int| components[i].id@)
}

/// Whether the versions of the component are known and the same.
fn up_to_date(c: &Component, local: &Vec<ComponentVersion>, remote: &Vec<ComponentVersion>) -> (r:
    bool)
    ensures
        r == !outdated(*c, local@, remote@),
{
    let here = match find_version(local, c.id.as_str()) {
        Some(v) => v,
        None => {
            return false;
        },
    };
    let there = match find_version(remote, c.id.as_str()) {
        Some(v) => v,
        None => {
            return false;
        },
    };
    same_text(here.as_str(), there.as_str())
}

/// Picks the components to deploy. Asking for none at all is refused.
pub fn plan_components_to_deploy(
    args: &DeployArgs,
    all_components: &Vec<Component>,
    local_versions: &Vec<ComponentVersion>,
    remote_versions: &Vec<ComponentVersion>,
) -> (r: Result<Vec<Component>, Error>)
    ensures
        match selection_of(*args) {
            None => r is Err && r->Err_0@ == (ErrorView::Other {
                message: "No components specified. Use component IDs, --all, or --outdated"@,
            }),
            Some(selection) => r is Ok && component_ids(r->Ok_0@) == selected_ids(
                all_components@,
                selection,
                texts(args.component_ids@),
                local_versions@,
                remote_versions@,
            ),
        },
{
    let selection = if args.all {
        Selection::All
    } else if args.component_ids.len() > 0 {
        Selection::Named
    } else if args.outdated {
        Selection::Outdated
    } else {
        return Err(
            Error::Other {
                message: String::from_str(
                    "No components specified. Use component IDs, --all, or --outdated",
                ),
            },
        );
    };
    let ghost ids = texts(args.component_ids@);
    let mut out: Vec<Component> = Vec::new();
    let mut i: usize = 0;
    assert(all_components@.take(0) =~= Seq::<Component>::empty());
    assert(component_ids(out@) =~= Seq::<Seq<char>>::empty());
    while i < all_components.len()
        invariant
            i <= all_components.len(),
            ids == texts(args.component_ids@),
            component_ids(out@) == selected_ids(
                all_components@.take(i as int),
                selection,
                ids,
                local_versions@,
                remote_versions@,
            ),
        decreases all_components.len() - i,
    {
        proof {
            assert(all_components@.take(i + 1).drop_last() =~= all_components@.take(i as int));
            assert(all_components@.take(i + 1).last() == all_components@[i as int]);
        }
        let c = &all_components[i];
        let keep = match selection {
            Selection::All => true,
            Selection::Named => contains_text(&args.component_ids, c.id.as_str()),
            Selection::Outdated => !up_to_date(c, local_versions, remote_versions),
        };
        let ghost before = component_ids(out@);
        if keep {
            out.push(c.clone());
            assert(component_ids(out@) =~= before + seq![c.id@]);
        } else {
            assert(before + Seq::<Seq<char>>::empty() =~= before);
        }
        i += 1;
    }
    proof {
        assert(all_components@.take(all_components@.len() as int) =~= all_components@);
    }
    Ok(out)
}

/// What carries out commands on the server and copies files to it.
pub trait RemoteExec {
    /// Runs a command on the server.
    fn execute(&self, command: &str) -> CommandOutput;

    /// Copies a local file to a path on the server; gives the exit code, and the error where
    /// there was one.
    fn upload(&self, local_path: &str, remote_path: &str) -> (Option<i32>, Option<String>);
}

/// The name of a file: what follows the last slash of its path.
pub open spec fn file_name(path: Seq<char>) -> Seq<char> {
    path.skip(last_index(path, '/') + 1)
}

/// The name under which a zip archive is uploaded.
pub open spec fn upload_name(artifact: Seq<char>) -> Seq<char> {
    ".homeboy-"@ + file_name(artifact)
}

/// The name under which a zip archive is uploaded: its own name behind a mark.
pub fn zip_upload_name(artifact: &str) -> (r: String)
    ensures
        r@ == upload_name(artifact@),
{
    let v = chars_of(artifact);
    proof {
        lemma_last_index(v@, '/');
    }
    let from = match find_last_char(&v, '/') {
        Some(at) => {
            assert(at < v.len());
            at + 1
        },
        None => 0,
    };
    let name = string_of(&slice_chars(&v, from, v.len()));
    assert(name@ =~= file_name(artifact@));
    concat(".homeboy-", name.as_str())
}

/// The command that makes the directory.
pub open spec fn mkdir_command(install_dir: Seq<char>) -> Result<Seq<char>, ErrorView> {
    in_directory("/"@, "mkdir -p '"@ + install_dir + "'"@)
}

/// The command that unpacks the archive in the directory and removes it.
pub open spec fn unzip_command(install_dir: Seq<char>, upload_path: Seq<char>) -> Result<
    Seq<char>,
    ErrorView,
> {
    in_directory(install_dir, "unzip -o '"@ + upload_path + "' && rm '"@ + upload_path + "'"@)
}

/// What deploying a zip archive asks of the server, in order: make the directory, take the
/// archive at the upload path, unpack it.
#[derive(Debug)]
pub struct ZipDeploy {
    pub install_dir: String,
    pub upload_path: String,
    pub mkdir_command: String,
    pub unzip_command: String,
}

/// The artifact is a zip archive.
pub open spec fn is_zip(artifact: Seq<char>) -> bool {
    has_suffix(artifact, ".zip"@)
}

/// What deploying the zip archive of a component asks of the server, or the first of its
/// parts that cannot be written.
pub open spec fn zip_deploy_of(base_path: Seq<char>, c: Component) -> Result<
    (Seq<char>, Seq<char>, Seq<char>, Seq<char>),
    ErrorView,
> {
    match remote_path(Some(base_path), c.remote_path@) {
        Err(e) => Err(e),
        Ok(install_dir) => match remote_child(
            Some(base_path),
            c.remote_path@,
            upload_name(c.build_artifact@),
        ) {
            Err(e) => Err(e),
            Ok(upload_path) => match mkdir_command(install_dir) {
                Err(e) => Err(e),
                Ok(mkdir) => match unzip_command(install_dir, upload_path) {
                    Err(e) => Err(e),
                    Ok(unzip) => Ok((install_dir, upload_path, mkdir, unzip)),
                },
            },
        },
    }
}

/// What `zip_deploy` returned, with its strings as texts.
pub open spec fn zip_view(r: Result<ZipDeploy, Error>) -> Result<
    (Seq<char>, Seq<char>, Seq<char>, Seq<char>),
    ErrorView,
> {
    match r {
        Ok(z) => Ok((z.install_dir@, z.upload_path@, z.mkdir_command@, z.unzip_command@)),
        Err(e) => Err(e@),
    }
}

/// Writes what deploying the zip archive of a component asks of the server.
pub fn zip_deploy(base_path: &str, component: &Component) -> (r: Result<ZipDeploy, Error>)
    ensures
        zip_view(r) == zip_deploy_of(base_path@, *component),
{
    let install_dir = match join_remote_path(Some(base_path), component.remote_path.as_str()) {
        Ok(p) => p,
        Err(e) => {
            return Err(e);
        },
    };
    let zip_name = zip_upload_name(component.build_artifact.as_str());
    let upload_path = match join_remote_child(
        Some(base_path),
        component.remote_path.as_str(),
        zip_name.as_str(),
    ) {
        Ok(p) => p,
        Err(e) => {
            return Err(e);
        },
    };
    let make = concat3("mkdir -p '", install_dir.as_str(), "'");
    let mkdir_command = match cd_and("/", make.as_str()) {
        Ok(c) => c,
        Err(e) => {
            return Err(e);
        },
    };
    let mut unpack = concat3("unzip -o '", upload_path.as_str(), "' && rm '");
    unpack.append(upload_path.as_str());
    unpack.append("'");
    let unzip_command = match cd_and(install_dir.as_str(), unpack.as_str()) {
        Ok(c) => c,
        Err(e) => {
            return Err(e);
        },
    };
    Ok(ZipDeploy { install_dir, upload_path, mkdir_command, unzip_command })
}

/// How a step of a deployment that cannot even be asked for is reported: exit code 1 and
/// the message of the error.
pub fn refused(e: &Error) -> (r: (Option<i32>, Option<String>))
    ensures
        r.0 == Some(1i32),
        opt_text(r.1) == Some(message_text(e@)),
{
    (Some(1), Some(e.message()))
}

/// How a command that failed on the server is reported: its exit code and what it printed
/// as its error. A command that went well is not reported.
pub fn command_failure(output: CommandOutput) -> (r: Option<(Option<i32>, Option<String>)>)
    ensures
        output.success ==> r is None,
        !output.success ==> r == Some((Some(output.exit_code), Some(output.stderr))),
{
    if output.success {
        None
    } else {
        Some((Some(output.exit_code), Some(output.stderr)))
    }
}

/// The client may answer `out` where it is asked to run the command.
pub open spec fn ran<C: RemoteExec>(client: &C, command: Seq<char>, out: CommandOutput) -> bool {
    exists|c: &str| #[trigger] call_ensures(C::execute, (client, c), out) && c@ == command
}

/// The client may answer `r` where it is asked to copy the local file to the remote path.
pub open spec fn uploaded<C: RemoteExec>(
    client: &C,
    local_path: Seq<char>,
    remote_path: Seq<char>,
    r: (Option<i32>, Option<String>),
) -> bool {
    exists|l: &str, p: &str| #[trigger]
        call_ensures(C::upload, (client, l, p), r) && l@ == local_path && p@ == remote_path
}

/// How a command that was run is reported where it failed.
pub open spec fn failure_of(out: CommandOutput) -> (Option<i32>, Option<String>) {
    (Some(out.exit_code), Some(out.stderr))
}

/// `r` is what unpacking the archive gives: the failure of the command that unpacks, or
/// exit code 0.
pub open spec fn unpacked<C: RemoteExec>(
    client: &C,
    unzip: Seq<char>,
    r: (Option<i32>, Option<String>),
) -> bool {
    exists|out: CommandOutput| #[trigger]
        ran(client, unzip, out) && r == if out.success {
            (Some(0i32), None::<String>)
        } else {
            failure_of(out)
        }
}

/// `r` is what copying and unpacking the archive gives: the failure of the copy, or what
/// unpacking gives.
pub open spec fn copied_and_unpacked<C: RemoteExec>(
    client: &C,
    artifact: Seq<char>,
    upload_path: Seq<char>,
    unzip: Seq<char>,
    r: (Option<i32>, Option<String>),
) -> bool {
    exists|up: (Option<i32>, Option<String>)| #[trigger]
        uploaded(client, artifact, upload_path, up) && if up.1 is Some {
            r == up
        } else {
            unpacked(client, unzip, r)
        }
}

/// `r` is what deploying a zip archive gives: the failure of the command that makes the
/// directory, or what copying and unpacking gives.
pub open spec fn zip_deployed<C: RemoteExec>(
    client: &C,
    artifact: Seq<char>,
    steps: (Seq<char>, Seq<char>, Seq<char>, Seq<char>),
    r: (Option<i32>, Option<String>),
) -> bool {
    exists|mk: CommandOutput| #[trigger]
        ran(client, steps.2, mk) && if !mk.success {
            r == failure_of(mk)
        } else {
            copied_and_unpacked(client, artifact, steps.1, steps.3, r)
        }
}

/// `r` tells that the deployment was refused with the error: exit code 1 and the message.
pub open spec fn is_refusal(r: (Option<i32>, Option<String>), e: ErrorView) -> bool {
    r.0 == Some(1i32) && opt_text(r.1) == Some(message_text(e))
}

/// `r` is what deploying the artifact of the component gives.
///
/// A zip archive is uploaded into the directory of the component, which is made first, and
/// unpacked there; anything else is copied to that directory as it is. The first step that
/// fails ends the deployment and is what is reported; a step that cannot be written is
/// reported as a refusal, and nothing is asked of the client.
pub open spec fn deployed<C: RemoteExec>(
    client: &C,
    base_path: Seq<char>,
    c: Component,
    r: (Option<i32>, Option<String>),
) -> bool {
    if is_zip(c.build_artifact@) {
        match zip_deploy_of(base_path, c) {
            Err(e) => is_refusal(r, e),
            Ok(steps) => zip_deployed(client, c.build_artifact@, steps, r),
        }
    } else {
        match remote_path(Some(base_path), c.remote_path@) {
            Err(e) => is_refusal(r, e),
            Ok(install_dir) => uploaded(client, c.build_artifact@, install_dir, r),
        }
    }
}

/// Copies the artifact of a component to the server.
pub fn deploy_component_artifact<C: RemoteExec>(client: &C, base_path: &str, component: &Component) -> (r:
    (Option<i32>, Option<String>))
    ensures
        deployed(client, base_path@, *component, r),
{
    proof {
        reveal_strlit(".zip");
    }
    if ends_with(component.build_artifact.as_str(), ".zip") {
        let steps = match zip_deploy(base_path, component) {
            Ok(s) => s,
            Err(e) => {
                return refused(&e);
            },
        };
        let ghost texts = (
            steps.install_dir@,
            steps.upload_path@,
            steps.mkdir_command@,
            steps.unzip_command@,
        );
        let artifact = component.build_artifact.as_str();
        let mkdir = steps.mkdir_command.as_str();
        let upload_path = steps.upload_path.as_str();
        let unzip = steps.unzip_command.as_str();
        let made = client.execute(mkdir);
        assert(ran(client, texts.2, made)) by {
            assert(call_ensures(C::execute, (client, mkdir), made));
        }
        if !made.success {
            return (Some(made.exit_code), Some(made.stderr));
        }
        let up = client.upload(artifact, upload_path);
        assert(uploaded(client, component.build_artifact@, texts.1, up)) by {
            assert(call_ensures(C::upload, (client, artifact, upload_path), up));
        }
        if up.1.is_some() {
            assert(copied_and_unpacked(client, component.build_artifact@, texts.1, texts.3, up));
            return up;
        }
        let out = client.execute(unzip);
        assert(ran(client, texts.3, out)) by {
            assert(call_ensures(C::execute, (client, unzip), out));
        }
        let r = if out.success {
            (Some(0), None)
        } else {
            (Some(out.exit_code), Some(out.stderr))
        };
        assert(unpacked(client, texts.3, r));
        assert(copied_and_unpacked(client, component.build_artifact@, texts.1, texts.3, r));
        return r;
    }
    let install_dir = match join_remote_path(Some(base_path), component.remote_path.as_str()) {
        Ok(p) => p,
        Err(e) => {
            return refused(&e);
        },
    };
    let artifact = component.build_artifact.as_str();
    let target = install_dir.as_str();
    let up = client.upload(artifact, target);
    assert(uploaded(client, component.build_artifact@, install_dir@, up)) by {
        assert(call_ensures(C::upload, (client, artifact, target), up));
    }
    up
}

/// How a copy that was run is reported: its exit code, and what it printed as its error
/// where it failed. A copy that was ended from outside counts as 0 where it went well and
/// as 1 where it did not.
pub fn scp_result(success: bool, code: Option<i32>, stderr: String) -> (r: (
    Option<i32>,
    Option<String>,
))
    ensures
        r.0 == Some(
            match code {
                Some(c) => c,
                None => if success {
                    0i32
                } else {
                    1i32
                },
            },
        ),
        r.1 == if success {
            None
        } else {
            Some(stderr)
        },
{
    if success {
        (
            Some(
                match code {
                    Some(c) => c,
                    None => 0,
                },
            ),
            None,
        )
    } else {
        (
            Some(
                match code {
                    Some(c) => c,
                    None => 1,
                },
            ),
            Some(stderr),
        )
    }
}

/// How a build that was run is reported: its exit code, and that it failed where it did.
pub fn build_result(component_id: &str, success: bool, code: Option<i32>) -> (r: (
    Option<i32>,
    Option<String>,
))
    ensures
        r.0 == Some(
            match code {
                Some(c) => c,
                None => if success {
                    0i32
                } else {
                    1i32
                },
            },
        ),
        opt_text(r.1) == if success {
            None
        } else {
            Some("Build failed for "@ + component_id@)
        },
{
    if success {
        (
            Some(
                match code {
                    Some(c) => c,
                    None => 0,
                },
            ),
            None,
        )
    } else {
        (
            Some(
                match code {
                    Some(c) => c,
                    None => 1,
                },
            ),
            Some(concat("Build failed for ", component_id)),
        )
    }
}

/// The command that prints the version file of a component on the server, where the
/// component has one and its path can be built.
pub open spec fn version_command(base_path: Seq<char>, c: Component) -> Option<Seq<char>> {
    match first_version_file(c) {
        None => None,
        Some(file) => match remote_child(Some(base_path), c.remote_path@, file) {
            Err(_) => None,
            Ok(path) => Some("cat '"@ + path + "' 2>/dev/null"@),
        },
    }
}

/// The command that prints the version file of a component on the server.
pub fn remote_version_command(base_path: &str, component: &Component) -> (r: Option<String>)
    ensures
        opt_text(r) == version_command(base_path@, *component),
{
    let file = match &component.version_targets {
        Some(targets) => {
            if targets.len() == 0 {
                return None;
            }
            targets[0].file.as_str()
        },
        None => {
            return None;
        },
    };
    match join_remote_child(Some(base_path), component.remote_path.as_str(), file) {
        Ok(path) => Some(concat3("cat '", path.as_str(), "' 2>/dev/null")),
        Err(_) => None,
    }
}

/// The pattern of the first version target of a component.
pub open spec fn first_version_pattern(c: Component) -> Option<Seq<char>> {
    match c.version_targets {
        Some(targets) => if targets@.len() > 0 {
            opt_text(targets@[0].pattern)
        } else {
            None
        },
        None => None,
    }
}

/// The version that the output of the version command shows: that of the first `Version:`
/// header, where the command went well. A target with a pattern of its own is not read.
pub open spec fn version_shown(c: Component, out: CommandOutput) -> Option<Seq<char>> {
    if out.success && first_version_pattern(c) is None {
        found_version(out.stdout@)
    } else {
        None
    }
}

/// The version of a component that the output of its version command shows.
pub fn remote_version(component: &Component, output: &CommandOutput) -> (r: Option<String>)
    ensures
        opt_text(r) == version_shown(*component, *output),
{
    if !output.success {
        return None;
    }
    match &component.version_targets {
        Some(targets) => {
            if targets.len() > 0 && targets[0].pattern.is_some() {
                return None;
            }
        },
        None => {},
    }
    parse_component_version(output.stdout.as_str())
}

/// The client may answer `out` to the version command of a component, and `found` is the
/// version that `out` shows.
pub open spec fn shows_version<C: RemoteExec>(
    client: &C,
    command: Seq<char>,
    c: Component,
    found: Option<Seq<char>>,
    out: CommandOutput,
) -> bool {
    ran(client, command, out) && found == version_shown(c, out)
}

/// `found` is what the server shows of the version of a component: nothing where the
/// component has no version file; else what the output of the version command shows.
pub open spec fn is_remote_version<C: RemoteExec>(
    client: &C,
    base_path: Seq<char>,
    c: Component,
    found: Option<Seq<char>>,
) -> bool {
    match version_command(base_path, c) {
        None => found is None,
        Some(command) => exists|out: CommandOutput| #[trigger]
            shows_version(client, command, c, found, out),
    }
}

/// A version with its strings as texts.
pub struct VersionView {
    pub id: Seq<char>,
    pub version: Seq<char>,
}

/// The versions of a list with their strings as texts.
pub open spec fn version_views(versions: Seq<ComponentVersion>) -> Seq<VersionView> {
    Seq::new(versions.len(), |i: int| VersionView { id: versions[i].id@, version: versions[i].version@ })
}

/// The versions that were found, each with the id of its component, in order.
pub open spec fn known_versions(components: Seq<Component>, found: Seq<Option<Seq<char>>>) -> Seq<
    VersionView,
>
    decreases found.len(),
{
    if found.len() == 0 {
        Seq::empty()
    } else {
        let head = known_versions(components, found.drop_last());
        match found.last() {
            Some(version) => head.push(VersionView { id: components[found.len() - 1].id@, version }),
            None => head,
        }
    }
}

/// Asks the server for the version of each component, and lists the versions that it shows.
pub fn fetch_remote_versions<C: RemoteExec>(
    components: &Vec<Component>,
    base_path: &str,
    client: &C,
) -> (r: Vec<ComponentVersion>)
    ensures
        exists|found: Seq<Option<Seq<char>>>|
            {
                &&& found.len() == components@.len()
                &&& forall|i: int|
                    0 <= i < found.len() ==> is_remote_version(
                        client,
                        base_path@,
                        components@[i],
                        #[trigger] found[i],
                    )
                &&& version_views(r@) == known_versions(components@, found)
            },
{
    let mut versions: Vec<ComponentVersion> = Vec::new();
    let ghost mut found: Seq<Option<Seq<char>>> = Seq::empty();
    let mut i: usize = 0;
    assert(version_views(versions@) =~= known_versions(components@, found));
    while i < components.len()
        invariant
            i <= components.len(),
            found.len() == i,
            forall|j: int|
                0 <= j < i ==> is_remote_version(
                    client,
                    base_path@,
                    components@[j],
                    #[trigger] found[j],
                ),
            version_views(versions@) == known_versions(components@, found),
        decreases components.len() - i,
    {
        let component = &components[i];
        let ghost before = found;
        let ghost listed = version_views(versions@);
        let version = match remote_version_command(base_path, component) {
            Some(command) => {
                let output = client.execute(command.as_str());
                let shown = remote_version(component, &output);
                assert(ran(client, command@, output));
                assert(is_remote_version(client, base_path@, *component, opt_text(shown))) by {
                    let asked = version_command(base_path@, *component);
                    assert(asked is Some);
                    assert(shows_version(client, asked->Some_0, *component, opt_text(shown), output));
                }
                shown
            },
            None => {
                assert(is_remote_version(client, base_path@, *component, None));
                None
            },
        };
        assert(is_remote_version(client, base_path@, *component, opt_text(version)));
        proof {
            found = before.push(opt_text(version));
            assert(found.drop_last() =~= before);
            assert forall|j: int| 0 <= j < i + 1 implies is_remote_version(
                client,
                base_path@,
                components@[j],
                #[trigger] found[j],
            ) by {
                if j < i {
                    assert(found[j] == before[j]);
                }
            }
        }
        match version {
            Some(version) => {
                versions.push(ComponentVersion { id: component.id.clone(), version });
                assert(version_views(versions@) =~= listed.push(
                    VersionView { id: component.id@, version: version@ },
                ));
            },
            None => {},
        }
        i += 1;
    }
    versions
}

/// Where the artifact of a component goes on the server: below the base path, or, where
/// that path cannot be built, the remote path as it is configured.
pub open spec fn target_path(base_path: Seq<char>, c: Component) -> Seq<char> {
    match remote_path(Some(base_path), c.remote_path@) {
        Ok(p) => p,
        Err(_) => c.remote_path@,
    }
}

/// What is reported of a component: the component, where its artifact goes, and what
/// became of it.
pub open spec fn reports(
    r: DeployComponentResult,
    c: Component,
    base_path: Seq<char>,
    status: Seq<char>,
) -> bool {
    &&& r.id@ == c.id@
    &&& r.name@ == c.name@
    &&& r.status@ == status
    &&& opt_text(r.artifact_path) == Some(c.build_artifact@)
    &&& opt_text(r.remote_path) == Some(target_path(base_path, c))
    &&& opt_text(r.build_command) == opt_text(c.build_command)
}

/// Writes what became of a component.
pub fn component_result(
    component: &Component,
    base_path: &str,
    status: &str,
    local_version: Option<String>,
    remote_version: Option<String>,
    error: Option<String>,
    build_exit_code: Option<i32>,
    scp_exit_code: Option<i32>,
) -> (r: DeployComponentResult)
    ensures
        reports(r, *component, base_path@, status@),
        r.local_version == local_version,
        r.remote_version == remote_version,
        r.error == error,
        r.build_exit_code == build_exit_code,
        r.scp_exit_code == scp_exit_code,
{
    let remote = match join_remote_path(Some(base_path), component.remote_path.as_str()) {
        Ok(p) => p,
        Err(_) => component.remote_path.clone(),
    };
    DeployComponentResult {
        id: component.id.clone(),
        name: component.name.clone(),
        status: String::from_str(status),
        local_version,
        remote_version,
        error,
        artifact_path: Some(component.build_artifact.clone()),
        remote_path: Some(remote),
        build_command: copy_opt_text(&component.build_command),
        build_exit_code,
        scp_exit_code,
    }
}

/// What builds components and holds their artifacts on this machine.
pub trait DeployHost: RemoteExec {
    /// Builds a component that has a build command; gives the exit code, and the error where
    /// the build failed.
    fn build(&self, component: &Component) -> (Option<i32>, Option<String>);

    /// Whether the artifact of a component is there.
    fn artifact_exists(&self, path: &str) -> bool;
}

/// The exit code of a deployment: 1 where a component failed.
pub open spec fn exit_code_of(summary: DeploySummary) -> i32 {
    if summary.failed > 0 {
        1
    } else {
        0
    }
}

/// The report says what was asked for.
pub open spec fn echoes(out: DeployOutput, args: DeployArgs) -> bool {
    &&& out.project_id == args.project_id
    &&& out.all == args.all
    &&& out.outdated == args.outdated
    &&& out.build == args.build
    &&& out.dry_run == args.dry_run
}

/// The whole of a report: the component and its versions, what became of it, and how the
/// build and the copy ended.
pub open spec fn says(
    r: DeployComponentResult,
    c: Component,
    base_path: Seq<char>,
    status: Seq<char>,
    local_version: Option<Seq<char>>,
    remote_version: Option<Seq<char>>,
    error: Option<Seq<char>>,
    build_exit_code: Option<i32>,
    scp_exit_code: Option<i32>,
) -> bool {
    &&& reports(r, c, base_path, status)
    &&& opt_text(r.local_version) == local_version
    &&& opt_text(r.remote_version) == remote_version
    &&& opt_text(r.error) == error
    &&& r.build_exit_code == build_exit_code
    &&& r.scp_exit_code == scp_exit_code
}

/// `r` is what becomes of a component whose build ended as `built`, whose artifact is there
/// or not, and whose copy ended as `copied`. A build that failed is reported, and nothing
/// else is looked at; then an artifact that is not there; then a copy that failed. Else the
/// component is deployed, and the server now has the local version.
pub open spec fn outcome_of(
    r: (DeployComponentResult, bool),
    c: Component,
    base_path: Seq<char>,
    local_version: Option<Seq<char>>,
    remote_version: Option<Seq<char>>,
    built: (Option<i32>, Option<String>),
    there: bool,
    copied: (Option<i32>, Option<String>),
) -> bool {
    if built.1 is Some {
        !r.1 && says(
            r.0,
            c,
            base_path,
            "failed"@,
            local_version,
            remote_version,
            opt_text(built.1),
            built.0,
            None,
        )
    } else if !there {
        !r.1 && says(
            r.0,
            c,
            base_path,
            "failed"@,
            local_version,
            remote_version,
            Some("Artifact not found: "@ + c.build_artifact@),
            built.0,
            None,
        )
    } else if copied.1 is Some {
        !r.1 && says(
            r.0,
            c,
            base_path,
            "failed"@,
            local_version,
            remote_version,
            opt_text(copied.1),
            built.0,
            copied.0,
        )
    } else {
        r.1 && says(
            r.0,
            c,
            base_path,
            "deployed"@,
            local_version,
            local_version,
            None,
            built.0,
            copied.0,
        )
    }
}

/// The host may have answered so: the build ended as `built`, where one was asked for and
/// the component has a build command, and was not run else; after a build that did not
/// fail the artifact was found or not; and an artifact that was there was copied with the
/// end `copied`.
pub open spec fn answered<H: DeployHost>(
    host: &H,
    build: bool,
    base_path: Seq<char>,
    c: Component,
    built: (Option<i32>, Option<String>),
    there: bool,
    copied: (Option<i32>, Option<String>),
) -> bool {
    &&& if build && c.build_command is Some {
        call_ensures(H::build, (host, &c), built)
    } else {
        built == (None::<i32>, None::<String>)
    }
    &&& built.1 is None ==> exists|path: &str| #[trigger]
        call_ensures(H::artifact_exists, (host, path), there) && path@ == c.build_artifact@
    &&& built.1 is None && there ==> deployed(host, base_path, c, copied)
}

/// `r` is what deploying the component gives with a host that answers as it may.
pub open spec fn happened<H: DeployHost>(
    host: &H,
    build: bool,
    base_path: Seq<char>,
    c: Component,
    local_version: Option<Seq<char>>,
    remote_version: Option<Seq<char>>,
    built: (Option<i32>, Option<String>),
    there: bool,
    copied: (Option<i32>, Option<String>),
    r: (DeployComponentResult, bool),
) -> bool {
    answered(host, build, base_path, c, built, there, copied) && outcome_of(
        r,
        c,
        base_path,
        local_version,
        remote_version,
        built,
        there,
        copied,
    )
}

/// `r` is what deploying the component gives.
pub open spec fn is_deployment_of<H: DeployHost>(
    host: &H,
    build: bool,
    base_path: Seq<char>,
    c: Component,
    local_version: Option<Seq<char>>,
    remote_version: Option<Seq<char>>,
    r: (DeployComponentResult, bool),
) -> bool {
    exists|built: (Option<i32>, Option<String>), there: bool, copied: (Option<i32>, Option<String>)|
     #[trigger]
        happened(host, build, base_path, c, local_version, remote_version, built, there, copied, r)
}

/// What becomes of a component whose build ended as `built`, whose artifact is there or
/// not, and whose copy ended as `copied`.
pub fn deployment_outcome(
    component: &Component,
    base_path: &str,
    local_version: Option<String>,
    remote_version: Option<String>,
    built: (Option<i32>, Option<String>),
    there: bool,
    copied: (Option<i32>, Option<String>),
) -> (r: (DeployComponentResult, bool))
    ensures
        outcome_of(
            r,
            *component,
            base_path@,
            opt_text(local_version),
            opt_text(remote_version),
            built,
            there,
            copied,
        ),
{
    let (build_exit_code, build_error) = built;
    if build_error.is_some() {
        return (
            component_result(
                component,
                base_path,
                "failed",
                local_version,
                remote_version,
                build_error,
                build_exit_code,
                None,
            ),
            false,
        );
    }
    if !there {
        return (
            component_result(
                component,
                base_path,
                "failed",
                local_version,
                remote_version,
                Some(concat("Artifact not found: ", component.build_artifact.as_str())),
                build_exit_code,
                None,
            ),
            false,
        );
    }
    let (scp_exit_code, scp_error) = copied;
    if scp_error.is_some() {
        return (
            component_result(
                component,
                base_path,
                "failed",
                local_version,
                remote_version,
                scp_error,
                build_exit_code,
                scp_exit_code,
            ),
            false,
        );
    }
    let now_remote = copy_opt_text(&local_version);
    (
        component_result(
            component,
            base_path,
            "deployed",
            local_version,
            now_remote,
            None,
            build_exit_code,
            scp_exit_code,
        ),
        true,
    )
}

/// Deploys one component: builds it where that is asked for, checks that its artifact is
/// there, and copies it to the server. Says what became of the component, and whether it
/// was deployed.
pub fn deploy_one<H: DeployHost>(
    host: &H,
    build: bool,
    base_path: &str,
    component: &Component,
    local_version: Option<String>,
    remote_version: Option<String>,
) -> (r: (DeployComponentResult, bool))
    ensures
        is_deployment_of(
            host,
            build,
            base_path@,
            *component,
            opt_text(local_version),
            opt_text(remote_version),
            r,
        ),
{
    let built = if build && component.build_command.is_some() {
        host.build(component)
    } else {
        (None, None)
    };
    let there = if built.1.is_none() {
        host.artifact_exists(component.build_artifact.as_str())
    } else {
        false
    };
    let copied = if built.1.is_none() && there {
        deploy_component_artifact(host, base_path, component)
    } else {
        (None, None)
    };
    let ghost b = built;
    let ghost c = copied;
    assert(answered(host, build, base_path@, *component, b, there, c));
    let r = deployment_outcome(
        component,
        base_path,
        local_version,
        remote_version,
        built,
        there,
        copied,
    );
    assert(happened(
        host,
        build,
        base_path@,
        *component,
        opt_text(local_version),
        opt_text(remote_version),
        b,
        there,
        c,
        r,
    ));
    r
}

/// How many of the first `n` reports tell of a failure.
pub open spec fn failures(results: Seq<DeployComponentResult>, n: int) -> int
    decreases n,
{
    if n <= 0 {
        0
    } else {
        failures(results, n - 1) + if results[n - 1].status@ == "failed"@ {
            1int
        } else {
            0int
        }
    }
}

/// `r` is the report of the component in a run: in a dry run, that it would be deployed,
/// with the versions that are known and nothing else; else what deploying it gave.
pub open spec fn tells<H: DeployHost>(
    host: &H,
    args: DeployArgs,
    base_path: Seq<char>,
    c: Component,
    local_versions: Seq<ComponentVersion>,
    remote_versions: Seq<ComponentVersion>,
    r: DeployComponentResult,
) -> bool {
    let local = version_of(local_versions, c.id@);
    let remote = version_of(remote_versions, c.id@);
    if args.dry_run {
        says(r, c, base_path, "would_deploy"@, local, remote, None, None, None)
    } else {
        is_deployment_of(host, args.build, base_path, c, local, remote, (r, r.status@ == "deployed"@))
    }
}

/// Deploys the components, or, in a dry run, says what would be deployed.
///
/// In a dry run nothing is built or copied: every component is reported as one that would
/// be deployed, and the exit code is 0. Else each component is deployed in turn, a failure
/// does not stop the others, and the exit code is 1 where a component failed.
pub fn run<H: DeployHost>(
    args: DeployArgs,
    components: &Vec<Component>,
    base_path: &str,
    local_versions: &Vec<ComponentVersion>,
    remote_versions: &Vec<ComponentVersion>,
    host: &H,
) -> (r: (DeployOutput, i32))
    requires
        components@.len() <= u32::MAX,
    ensures
        echoes(r.0, args),
        r.0.components@.len() == components@.len(),
        r.0.summary.failed == failures(r.0.components@, components@.len() as int),
        r.0.summary.succeeded + r.0.summary.failed == components@.len(),
        r.0.summary.skipped == 0,
        r.1 == exit_code_of(r.0.summary),
        forall|i: int|
            0 <= i < components@.len() ==> tells(
                host,
                args,
                base_path@,
                components@[i],
                local_versions@,
                remote_versions@,
                #[trigger] r.0.components@[i],
            ),
{
    let mut results: Vec<DeployComponentResult> = Vec::new();
    let mut succeeded: u32 = 0;
    let mut failed: u32 = 0;
    let mut i: usize = 0;
    proof {
        reveal_strlit("failed");
        reveal_strlit("deployed");
        reveal_strlit("would_deploy");
        assert("failed"@ != "deployed"@) by {
            assert("failed"@[0] != "deployed"@[0]);
        }
        assert("failed"@ != "would_deploy"@) by {
            assert("failed"@[0] != "would_deploy"@[0]);
        }
    }
    while i < components.len()
        invariant
            i <= components.len(),
            components@.len() <= u32::MAX,
            results@.len() == i,
            succeeded + failed == i,
            failed == failures(results@, i as int),
            "failed"@ != "deployed"@,
            "failed"@ != "would_deploy"@,
            forall|j: int|
                0 <= j < i ==> tells(
                    host,
                    args,
                    base_path@,
                    components@[j],
                    local_versions@,
                    remote_versions@,
                    #[trigger] results@[j],
                ),
        decreases components.len() - i,
    {
        let component = &components[i];
        let local_version = find_version(local_versions, component.id.as_str());
        let remote_version = find_version(remote_versions, component.id.as_str());
        let (result, deployed) = if args.dry_run {
            (
                component_result(
                    component,
                    base_path,
                    "would_deploy",
                    local_version,
                    remote_version,
                    None,
                    None,
                    None,
                ),
                true,
            )
        } else {
            let done = deploy_one(
                host,
                args.build,
                base_path,
                component,
                local_version,
                remote_version,
            );
            proof {
                let (built, there, copied) = choose|
                    built: (Option<i32>, Option<String>),
                    there: bool,
                    copied: (Option<i32>, Option<String>),
                | #[trigger]
                    happened(
                        host,
                        args.build,
                        base_path@,
                        *component,
                        opt_text(local_version),
                        opt_text(remote_version),
                        built,
                        there,
                        copied,
                        done,
                    );
                assert(done.1 == (done.0.status@ == "deployed"@));
            }
            done
        };
        if deployed {
            succeeded += 1;
        } else {
            failed += 1;
        }
        let ghost before = results@;
        results.push(result);
        proof {
            assert forall|j: int| 0 <= j < i + 1 implies tells(
                host,
                args,
                base_path@,
                components@[j],
                local_versions@,
                remote_versions@,
                #[trigger] results@[j],
            ) by {
                if j < i {
                    assert(results@[j] == before[j]);
                }
            }
            lemma_failures_same(before, results@, i as int);
        }
        i += 1;
    }
    let exit_code = if failed > 0 {
        1
    } else {
        0
    };
    (
        DeployOutput {
            project_id: args.project_id,
            all: args.all,
            outdated: args.outdated,
            build: args.build,
            dry_run: args.dry_run,
            components: results,
            summary: DeploySummary { succeeded, failed, skipped: 0 },
        },
        exit_code,
    )
}

/// The count of failures among the first reports does not depend on the reports behind them.
pub proof fn lemma_failures_same(a: Seq<DeployComponentResult>, b: Seq<DeployComponentResult>, n: int)
    requires
        0 <= n <= a.len(),
        n <= b.len(),
        forall|j: int| 0 <= j < n ==> a[j] == b[j],
    ensures
        failures(a, n) == failures(b, n),
    decreases n,
{
    if n > 0 {
        lemma_failures_same(a, b, n - 1);
    }
}

} // verus!
