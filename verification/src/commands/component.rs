//! The `component` command.

use vstd::prelude::*;
use vstd::string::*;
use crate::commands::{note, with_field};
use crate::component::{parse_version_targets, targets_of, Component};
use crate::config::BatchResult;
use crate::error::{Error, ErrorView};
use crate::ssh::{expand_tilde, tilde_expanded};
use crate::text::{concat3, contains_text, join, joined, opt_text, texts};

verus! {

/// The arguments of the `component` command.
#[derive(Debug)]
pub struct ComponentArgs {
    pub command: ComponentCommand,
}

/// What the `component` command is asked to do.
#[derive(Debug)]
pub enum ComponentCommand {
    Create {
        json: Option<String>,
        skip_existing: bool,
        name: Option<String>,
        local_path: Option<String>,
        remote_path: Option<String>,
        build_artifact: Option<String>,
        version_targets: Vec<String>,
        build_command: Option<String>,
        extract_command: Option<String>,
    },
    Show { id: String },
    Edit {
        id: String,
        name: Option<String>,
        local_path: Option<String>,
        remote_path: Option<String>,
        build_artifact: Option<String>,
        version_targets: Vec<String>,
        build_command: Option<String>,
        extract_command: Option<String>,
    },
    Delete { id: String, force: bool },
    List,
}

/// What the `component` command reports.
#[derive(Debug)]
pub struct ComponentOutput {
    pub action: String,
    pub component_id: Option<String>,
    pub success: bool,
    pub updated_fields: Vec<String>,
    pub component: Option<Component>,
    pub components: Vec<Component>,
    pub import: Option<BatchResult>,
}

/// The report says what was done to which component, and that it went well.
pub open spec fn tells(r: ComponentOutput, action: Seq<char>, id: Option<Seq<char>>) -> bool {
    &&& r.action@ == action
    &&& opt_text(r.component_id) == id
    &&& r.success
    &&& r.import is None
}

/// The exit code of an import: 1 where a record was refused.
pub open spec fn import_exit_code(summary: BatchResult) -> i32 {
    if summary.errors > 0 {
        1
    } else {
        0
    }
}

/// The report of an import of components.
pub fn create_json(summary: BatchResult) -> (r: (ComponentOutput, i32))
    ensures
        r.0.action@ == "component.create"@,
        r.0.component_id is None,
        r.0.success == (summary.errors == 0),
        r.0.updated_fields@.len() == 0,
        r.0.component is None,
        r.0.components@.len() == 0,
        r.0.import == Some(summary),
        r.1 == import_exit_code(summary),
{
    let exit_code = if summary.errors > 0 {
        1
    } else {
        0
    };
    (
        ComponentOutput {
            action: String::from_str("component.create"),
            component_id: None,
            success: summary.errors == 0,
            updated_fields: Vec::new(),
            component: None,
            components: Vec::new(),
            import: Some(summary),
        },
        exit_code,
    )
}

/// The error for an argument of `create` that was not given.
pub open spec fn missing_argument(field: Seq<char>, what: Seq<char>) -> ErrorView {
    ErrorView::InvalidArgument {
        field,
        message: "Missing required argument: "@ + what + " (or use --json)"@,
        given: None,
        tried: None,
    }
}

/// The argument, or the error that says that it is required.
pub fn required(value: Option<String>, field: &str, what: &str) -> (r: Result<String, Error>)
    ensures
        match value {
            Some(v) => r == Ok::<String, Error>(v),
            None => r is Err && r->Err_0@ == missing_argument(field@, what@),
        },
{
    match value {
        Some(v) => Ok(v),
        None => Err(
            Error::InvalidArgument {
                field: String::from_str(field),
                message: concat3("Missing required argument: ", what, " (or use --json)"),
                given: None,
                tried: None,
            },
        ),
    }
}

/// The error for a component that is there already.
pub open spec fn already_exists(id: Seq<char>) -> ErrorView {
    ErrorView::InvalidArgument {
        field: "component.name"@,
        message: "Component '"@ + id + "' already exists"@,
        given: Some(id),
        tried: None,
    }
}

/// The component that `create` stores, and its report. A component that is there already
/// is refused. The local path has its tilde expanded.
pub fn create(
    id: &str,
    exists: bool,
    name: &str,
    local_path: &str,
    remote_path: &str,
    build_artifact: &str,
    version_targets: &Vec<String>,
    build_command: Option<String>,
    extract_command: Option<String>,
) -> (r: Result<Component, Error>)
    ensures
        exists ==> r is Err && r->Err_0@ == already_exists(id@),
        !exists ==> r is Ok && r->Ok_0.id@ == id@ && r->Ok_0.name@ == name@ && tilde_expanded(
            local_path@,
            r->Ok_0.local_path@,
        ) && r->Ok_0.remote_path@ == remote_path@ && r->Ok_0.build_artifact@ == build_artifact@
            && r->Ok_0.build_command == build_command && r->Ok_0.extract_command
            == extract_command && r->Ok_0.modules is None && (r->Ok_0.version_targets is Some
            <==> version_targets@.len() > 0) && (r->Ok_0.version_targets is Some ==> targets_of(
            r->Ok_0.version_targets->Some_0@,
            version_targets@,
        )),
{
    if exists {
        return Err(
            Error::InvalidArgument {
                field: String::from_str("component.name"),
                message: concat3("Component '", id, "' already exists"),
                given: Some(String::from_str(id)),
                tried: None,
            },
        );
    }
    let mut component = Component::new(
        String::from_str(id),
        String::from_str(name),
        expand_tilde(local_path),
        String::from_str(remote_path),
        String::from_str(build_artifact),
    );
    if version_targets.len() > 0 {
        component.version_targets = Some(parse_version_targets(version_targets));
    }
    component.build_command = build_command;
    component.extract_command = extract_command;
    Ok(component)
}

/// The report of a component that was created, shown or changed.
pub fn report(action: &str, component: Component, updated_fields: Vec<String>) -> (r: (
    ComponentOutput,
    i32,
))
    ensures
        tells(r.0, action@, Some(component.id@)),
        r.0.updated_fields == updated_fields,
        r.0.component == Some(component),
        r.0.components@.len() == 0,
        r.1 == 0,
{
    (
        ComponentOutput {
            action: String::from_str(action),
            component_id: Some(component.id.clone()),
            success: true,
            updated_fields,
            component: Some(component),
            components: Vec::new(),
            import: None,
        },
        0,
    )
}

/// The fields of a component that a call of `set` names.
#[derive(Debug)]
pub struct SetComponentArgs {
    pub id: String,
    pub name: Option<String>,
    pub local_path: Option<String>,
    pub remote_path: Option<String>,
    pub build_artifact: Option<String>,
    pub version_targets: Vec<String>,
    pub build_command: Option<String>,
    pub extract_command: Option<String>,
}

/// The names of the fields that the arguments name, in the order in which they are set.
pub open spec fn named_fields(args: SetComponentArgs) -> Seq<Seq<char>> {
    let f1 = with_field(Seq::empty(), args.name is Some, "name"@);
    let f2 = with_field(f1, args.local_path is Some, "localPath"@);
    let f3 = with_field(f2, args.remote_path is Some, "remotePath"@);
    let f4 = with_field(f3, args.build_artifact is Some, "buildArtifact"@);
    let f5 = with_field(f4, args.version_targets@.len() > 0, "versionTargets"@);
    let f6 = with_field(f5, args.build_command is Some, "buildCommand"@);
    with_field(f6, args.extract_command is Some, "extractCommand"@)
}

/// The error for a call of `set` that names no field.
pub open spec fn nothing_to_update(id: Seq<char>) -> ErrorView {
    ErrorView::InvalidArgument {
        field: "fields"@,
        message: "No fields specified to update"@,
        given: Some(id),
        tried: None,
    }
}

/// Sets the fields of a component that the arguments name, and lists their names. A call
/// that names no field is refused, and leaves the component as it is.
pub fn set(component: &mut Component, args: SetComponentArgs) -> (r: Result<Vec<String>, Error>)
    ensures
        named_fields(args).len() == 0 ==> r is Err && r->Err_0@ == nothing_to_update(args.id@)
            && *final(component) == *old(component),
        named_fields(args).len() > 0 ==> r is Ok && texts(r->Ok_0@) == named_fields(args),
        final(component).id == old(component).id,
        final(component).name == match args.name {
            Some(v) => v,
            None => old(component).name,
        },
        final(component).remote_path == match args.remote_path {
            Some(v) => v,
            None => old(component).remote_path,
        },
        final(component).build_artifact == match args.build_artifact {
            Some(v) => v,
            None => old(component).build_artifact,
        },
        final(component).build_command == if args.build_command is Some {
            args.build_command
        } else {
            old(component).build_command
        },
        final(component).extract_command == if args.extract_command is Some {
            args.extract_command
        } else {
            old(component).extract_command
        },
        match args.local_path {
            Some(v) => tilde_expanded(v@, final(component).local_path@),
            None => final(component).local_path == old(component).local_path,
        },
        if args.version_targets@.len() == 0 {
            final(component).version_targets == old(component).version_targets
        } else {
            final(component).version_targets is Some && targets_of(
                final(component).version_targets->Some_0@,
                args.version_targets@,
            )
        },
        final(component).modules == old(component).modules,
{
    let mut updated_fields: Vec<String> = Vec::new();
    assert(texts(updated_fields@) =~= Seq::<Seq<char>>::empty());
    match args.name {
        Some(value) => {
            component.name = value;
            note(&mut updated_fields, "name");
        },
        None => {},
    }
    match args.local_path {
        Some(value) => {
            component.local_path = expand_tilde(value.as_str());
            note(&mut updated_fields, "localPath");
        },
        None => {},
    }
    match args.remote_path {
        Some(value) => {
            component.remote_path = value;
            note(&mut updated_fields, "remotePath");
        },
        None => {},
    }
    match args.build_artifact {
        Some(value) => {
            component.build_artifact = value;
            note(&mut updated_fields, "buildArtifact");
        },
        None => {},
    }
    if args.version_targets.len() > 0 {
        component.version_targets = Some(parse_version_targets(&args.version_targets));
        note(&mut updated_fields, "versionTargets");
    }
    match args.build_command {
        Some(value) => {
            component.build_command = Some(value);
            note(&mut updated_fields, "buildCommand");
        },
        None => {},
    }
    match args.extract_command {
        Some(value) => {
            component.extract_command = Some(value);
            note(&mut updated_fields, "extractCommand");
        },
        None => {},
    }
    assert(texts(updated_fields@).len() == updated_fields@.len());
    if updated_fields.len() == 0 {
        return Err(
            Error::InvalidArgument {
                field: String::from_str("fields"),
                message: String::from_str("No fields specified to update"),
                given: Some(args.id),
                tried: None,
            },
        );
    }
    Ok(updated_fields)
}

/// A project, as far as the components it uses go.
#[derive(Debug)]
pub struct ProjectUse {
    pub id: String,
    pub component_ids: Vec<String>,
}

/// The ids of the projects that use the component, in order.
pub open spec fn users_of(projects: Seq<ProjectUse>, id: Seq<char>) -> Seq<Seq<char>>
    decreases projects.len(),
{
    if projects.len() == 0 {
        Seq::empty()
    } else {
        users_of(projects.drop_last(), id) + if texts(projects.last().component_ids@).contains(id) {
            seq![projects.last().id@]
        } else {
            Seq::empty()
        }
    }
}

/// The ids of the projects that use the component.
pub fn projects_using(projects: &Vec<ProjectUse>, id: &str) -> (r: Vec<String>)
    ensures
        texts(r@) == users_of(projects@, id@),
{
    let mut using: Vec<String> = Vec::new();
    let mut i: usize = 0;
    assert(projects@.take(0) =~= Seq::<ProjectUse>::empty());
    assert(texts(using@) =~= Seq::<Seq<char>>::empty());
    while i < projects.len()
        invariant
            i <= projects.len(),
            texts(using@) == users_of(projects@.take(i as int), id@),
        decreases projects.len() - i,
    {
        proof {
            assert(projects@.take(i + 1).drop_last() =~= projects@.take(i as int));
            assert(projects@.take(i + 1).last() == projects@[i as int]);
        }
        let ghost before = texts(using@);
        if contains_text(&projects[i].component_ids, id) {
            using.push(projects[i].id.clone());
            assert(texts(using@) =~= before + seq![projects@[i as int].id@]);
        } else {
            assert(before + Seq::<Seq<char>>::empty() =~= before);
        }
        i += 1;
    }
    proof {
        assert(projects@.take(projects@.len() as int) =~= projects@);
    }
    using
}

/// The error for a component that projects still use.
pub open spec fn still_used(id: Seq<char>, using: Seq<Seq<char>>) -> ErrorView {
    ErrorView::InvalidArgument {
        field: "component"@,
        message: "Component '"@ + id + "' is used by projects: "@ + joined(using, ", "@)
            + ". Use --force to delete anyway."@,
        given: Some(id),
        tried: Some(using),
    }
}

/// Whether a component may be deleted: always where it is forced, else where no project
/// uses it.
pub fn check_delete(id: &str, force: bool, projects: &Vec<ProjectUse>) -> (r: Result<(), Error>)
    ensures
        force || users_of(projects@, id@).len() == 0 ==> r is Ok,
        !force && users_of(projects@, id@).len() > 0 ==> r is Err && r->Err_0@ == still_used(
            id@,
            users_of(projects@, id@),
        ),
{
    if force {
        return Ok(());
    }
    let using = projects_using(projects, id);
    if using.len() == 0 {
        return Ok(());
    }
    let mut message = concat3("Component '", id, "' is used by projects: ");
    message.append(join(&using, ", ").as_str());
    message.append(". Use --force to delete anyway.");
    Err(
        Error::InvalidArgument {
            field: String::from_str("component"),
            message,
            given: Some(String::from_str(id)),
            tried: Some(using),
        },
    )
}

/// The report of a component that was deleted.
pub fn deleted(id: &str) -> (r: (ComponentOutput, i32))
    ensures
        tells(r.0, "delete"@, Some(id@)),
        r.0.updated_fields@.len() == 0,
        r.0.component is None,
        r.0.components@.len() == 0,
        r.1 == 0,
{
    (
        ComponentOutput {
            action: String::from_str("delete"),
            component_id: Some(String::from_str(id)),
            success: true,
            updated_fields: Vec::new(),
            component: None,
            components: Vec::new(),
            import: None,
        },
        0,
    )
}

/// The report of all components.
pub fn list(components: Vec<Component>) -> (r: (ComponentOutput, i32))
    ensures
        tells(r.0, "list"@, None),
        r.0.updated_fields@.len() == 0,
        r.0.component is None,
        r.0.components == components,
        r.1 == 0,
{
    (
        ComponentOutput {
            action: String::from_str("list"),
            component_id: None,
            success: true,
            updated_fields: Vec::new(),
            component: None,
            components,
            import: None,
        },
        0,
    )
}

} // verus!
