//! The `init` command: what a newcomer to a directory is shown.

use vstd::prelude::*;
use vstd::string::*;
use crate::component::Component;
use crate::split::{lines, lines_of};
use crate::ssh::ServerConfig;
use crate::text::{concat, contains_text, opt_text, texts};

verus! {

/// The arguments of the `init` command.
#[derive(Debug)]
pub struct InitArgs {
    /// Show everything, whatever the directory holds.
    pub all: bool,
}

/// What is known of the working directory.
#[derive(Debug)]
pub struct ContextOutput {
    pub managed: bool,
    pub matched_components: Vec<String>,
    pub contained_components: Vec<String>,
    pub suggestion: Option<String>,
}

/// A project as it is stored.
#[derive(Debug)]
pub struct Project {
    pub id: String,
    pub domain: Option<String>,
    pub component_ids: Vec<String>,
    pub server_id: Option<String>,
}

/// A project of the list that `init` shows.
#[derive(Debug)]
pub struct ProjectListItem {
    pub id: String,
    pub domain: Option<String>,
}

impl From<Project> for ProjectListItem {
    fn from(p: Project) -> (r: Self) {
        Self { id: p.id, domain: p.domain }
    }
}

impl vstd::std_specs::convert::FromSpecImpl<Project> for ProjectListItem {
    open spec fn obeys_from_spec() -> bool {
        true
    }

    open spec fn from_spec(p: Project) -> Self {
        ProjectListItem { id: p.id, domain: p.domain }
    }
}

/// An installed module, with what was found out about it.
#[derive(Debug)]
pub struct ModuleInfo {
    pub id: String,
    pub name: String,
    pub version: String,
    pub description: Option<String>,
    /// Whether the module brings a program of its own.
    pub executable: bool,
    pub compatible: bool,
    pub ready: bool,
    pub linked: bool,
}

/// A module of the list that `init` shows.
#[derive(Debug)]
pub struct ModuleEntry {
    pub id: String,
    pub name: String,
    pub version: String,
    pub description: String,
    pub runtime: String,
    pub compatible: bool,
    pub ready: bool,
    pub linked: bool,
}

/// What the `init` command reports.
#[derive(Debug)]
pub struct InitOutput {
    pub command: &'static str,
    pub context: ContextOutput,
    pub next_steps: Vec<String>,
    pub servers: Vec<ServerConfig>,
    pub projects: Vec<ProjectListItem>,
    pub components: Vec<Component>,
    pub modules: Vec<ModuleEntry>,
}

/// The items whose flag is set, in order.
pub open spec fn kept<T>(items: Seq<T>, flags: Seq<bool>) -> Seq<T>
    decreases items.len(),
{
    if items.len() == 0 || flags.len() != items.len() {
        Seq::empty()
    } else {
        kept(items.drop_last(), flags.drop_last()) + if flags.last() {
            seq![items.last()]
        } else {
            Seq::empty()
        }
    }
}

/// Keeps the items whose flag is set.
fn keep<T>(items: Vec<T>, flags: &Vec<bool>) -> (r: Vec<T>)
    requires
        flags@.len() == items@.len(),
    ensures
        r@ == kept(items@, flags@),
{
    let mut out: Vec<T> = Vec::new();
    let ghost all = items@;
    let n = items.len();
    assert(all.take(0) =~= Seq::<T>::empty());
    assert(flags@.take(0) =~= Seq::<bool>::empty());
    let mut i: usize = 0;
    for item in it: items
        invariant
            it.seq() == all,
            i == it.index(),
            n == all.len(),
            flags@.len() == all.len(),
            out@ == kept(all.take(i as int), flags@.take(i as int)),
    {
        proof {
            assert(all.take(i + 1).drop_last() =~= all.take(i as int));
            assert(flags@.take(i + 1).drop_last() =~= flags@.take(i as int));
            assert(all.take(i + 1).last() == item);
            assert(flags@.take(i + 1).last() == flags@[i as int]);
        }
        if flags[i] {
            out.push(item);
        }
        i += 1;
    }
    proof {
        assert(all.take(all.len() as int) =~= all);
        assert(flags@.take(all.len() as int) =~= flags@);
    }
    out
}

/// The ids of the components that the directory has to do with.
pub open spec fn relevant_ids(context: ContextOutput) -> Seq<Seq<char>> {
    texts(context.matched_components@) + texts(context.contained_components@)
}

/// Everything is shown: it is asked for, or the directory has to do with no component.
pub open spec fn shows_all(args: InitArgs, context: ContextOutput) -> bool {
    args.all || relevant_ids(context).len() == 0
}

/// Whether the id is one that the directory has to do with.
fn is_relevant(context: &ContextOutput, id: &str) -> (r: bool)
    ensures
        r == relevant_ids(*context).contains(id@),
{
    let a = contains_text(&context.matched_components, id);
    let b = contains_text(&context.contained_components, id);
    proof {
        let m = texts(context.matched_components@);
        let c = texts(context.contained_components@);
        if m.contains(id@) {
            let i = choose|i: int| 0 <= i < m.len() && m[i] == id@;
            assert((m + c)[i] == id@);
        }
        if c.contains(id@) {
            let i = choose|i: int| 0 <= i < c.len() && c[i] == id@;
            assert((m + c)[m.len() + i] == id@);
        }
        if (m + c).contains(id@) {
            let i = choose|i: int| 0 <= i < (m + c).len() && (m + c)[i] == id@;
            if i < m.len() {
                assert(m[i] == id@);
            } else {
                assert(c[i - m.len()] == id@);
            }
        }
    }
    a || b
}

/// The component is shown.
pub open spec fn shows_component(args: InitArgs, context: ContextOutput, c: Component) -> bool {
    shows_all(args, context) || relevant_ids(context).contains(c.id@)
}

/// The project is shown: it holds a component that the directory has to do with.
pub open spec fn shows_project(args: InitArgs, context: ContextOutput, p: Project) -> bool {
    shows_all(args, context) || exists|k: int|
        0 <= k < p.component_ids@.len() && relevant_ids(context).contains(
            #[trigger] p.component_ids@[k]@,
        )
}

/// The components that are shown.
pub fn shown_components(args: &InitArgs, context: &ContextOutput, all: Vec<Component>) -> (r: Vec<
    Component,
>)
    ensures
        r@ == kept(all@, Seq::new(all@.len(), |i: int| shows_component(*args, *context, all@[i]))),
{
    let show_all = args.all || (context.matched_components.len() == 0
        && context.contained_components.len() == 0);
    let mut flags: Vec<bool> = Vec::new();
    let mut i: usize = 0;
    while i < all.len()
        invariant
            i <= all.len(),
            flags@.len() == i,
            show_all == shows_all(*args, *context),
            forall|j: int|
                0 <= j < i ==> #[trigger] flags@[j] == shows_component(*args, *context, all@[j]),
        decreases all.len() - i,
    {
        flags.push(show_all || is_relevant(context, all[i].id.as_str()));
        i += 1;
    }
    assert(flags@ =~= Seq::new(all@.len(), |i: int| shows_component(*args, *context, all@[i])));
    keep(all, &flags)
}

/// Whether the project holds a component that the directory has to do with.
fn holds_relevant(context: &ContextOutput, p: &Project) -> (r: bool)
    ensures
        r == exists|k: int|
            0 <= k < p.component_ids@.len() && relevant_ids(*context).contains(
                #[trigger] p.component_ids@[k]@,
            ),
{
    let mut k: usize = 0;
    while k < p.component_ids.len()
        invariant
            k <= p.component_ids.len(),
            forall|j: int|
                0 <= j < k ==> !relevant_ids(*context).contains(#[trigger] p.component_ids@[j]@),
        decreases p.component_ids.len() - k,
    {
        if is_relevant(context, p.component_ids[k].as_str()) {
            return true;
        }
        k += 1;
    }
    false
}

/// The projects that are shown.
pub fn shown_projects(args: &InitArgs, context: &ContextOutput, all: Vec<Project>) -> (r: Vec<
    Project,
>)
    ensures
        r@ == kept(all@, Seq::new(all@.len(), |i: int| shows_project(*args, *context, all@[i]))),
{
    let show_all = args.all || (context.matched_components.len() == 0
        && context.contained_components.len() == 0);
    let mut flags: Vec<bool> = Vec::new();
    let mut i: usize = 0;
    while i < all.len()
        invariant
            i <= all.len(),
            flags@.len() == i,
            show_all == shows_all(*args, *context),
            forall|j: int|
                0 <= j < i ==> #[trigger] flags@[j] == shows_project(*args, *context, all@[j]),
        decreases all.len() - i,
    {
        flags.push(show_all || holds_relevant(context, &all[i]));
        i += 1;
    }
    assert(flags@ =~= Seq::new(all@.len(), |i: int| shows_project(*args, *context, all@[i])));
    keep(all, &flags)
}

/// The server is shown: one of the projects that are shown is on it.
pub open spec fn shows_server(show_all: bool, projects: Seq<Project>, s: ServerConfig) -> bool {
    show_all || exists|k: int|
        0 <= k < projects.len() && opt_text((#[trigger] projects[k]).server_id) == Some(s.id@)
}

/// Whether one of the projects is on the server.
fn serves(projects: &Vec<Project>, server_id: &str) -> (r: bool)
    ensures
        r == exists|k: int|
            0 <= k < projects@.len() && opt_text((#[trigger] projects@[k]).server_id) == Some(
                server_id@,
            ),
{
    let mut k: usize = 0;
    while k < projects.len()
        invariant
            k <= projects.len(),
            forall|j: int|
                0 <= j < k ==> opt_text((#[trigger] projects@[j]).server_id) != Some(server_id@),
        decreases projects.len() - k,
    {
        let on_it = match &projects[k].server_id {
            Some(s) => crate::text::same_text(s.as_str(), server_id),
            None => false,
        };
        if on_it {
            assert(opt_text(projects@[k as int].server_id) == Some(server_id@));
            return true;
        }
        k += 1;
    }
    false
}

/// The servers that are shown.
pub fn shown_servers(show_all: bool, projects: &Vec<Project>, all: Vec<ServerConfig>) -> (r: Vec<
    ServerConfig,
>)
    ensures
        r@ == kept(all@, Seq::new(all@.len(), |i: int| shows_server(show_all, projects@, all@[i]))),
{
    let mut flags: Vec<bool> = Vec::new();
    let mut i: usize = 0;
    while i < all.len()
        invariant
            i <= all.len(),
            flags@.len() == i,
            forall|j: int|
                0 <= j < i ==> #[trigger] flags@[j] == shows_server(show_all, projects@, all@[j]),
        decreases all.len() - i,
    {
        flags.push(show_all || serves(projects, all[i].id.as_str()));
        i += 1;
    }
    assert(flags@ =~= Seq::new(all@.len(), |i: int| shows_server(show_all, projects@, all@[i])));
    keep(all, &flags)
}

/// The module is shown: a component that is shown is bound to it, or it brings no program
/// of its own.
pub open spec fn shows_module(show_all: bool, components: Seq<Component>, m: ModuleInfo) -> bool {
    show_all || !m.executable || exists|k: int|
        0 <= k < components.len() && (#[trigger] components[k]).modules is Some && texts(
            components[k].modules->Some_0@,
        ).contains(m.id@)
}

/// Whether one of the components is bound to the module.
fn binds(components: &Vec<Component>, module_id: &str) -> (r: bool)
    ensures
        r == exists|k: int|
            0 <= k < components@.len() && (#[trigger] components@[k]).modules is Some && texts(
                components@[k].modules->Some_0@,
            ).contains(module_id@),
{
    let mut k: usize = 0;
    while k < components.len()
        invariant
            k <= components.len(),
            forall|j: int|
                0 <= j < k ==> !((#[trigger] components@[j]).modules is Some && texts(
                    components@[j].modules->Some_0@,
                ).contains(module_id@)),
        decreases components.len() - k,
    {
        let bound = match &components[k].modules {
            Some(ids) => contains_text(ids, module_id),
            None => false,
        };
        if bound {
            return true;
        }
        k += 1;
    }
    false
}

/// The first line of a text; empty where the text is.
pub open spec fn first_line(s: Seq<char>) -> Seq<char> {
    if lines_of(s).len() > 0 {
        lines_of(s)[0]
    } else {
        Seq::empty()
    }
}

/// The entry for a module.
pub open spec fn entry_for(e: ModuleEntry, m: ModuleInfo) -> bool {
    &&& e.id@ == m.id@
    &&& e.name@ == m.name@
    &&& e.version@ == m.version@
    &&& e.description@ == match m.description {
        Some(d) => first_line(d@),
        None => Seq::empty(),
    }
    &&& e.runtime@ == if m.executable {
        "executable"@
    } else {
        "platform"@
    }
    &&& e.compatible == m.compatible
    &&& e.ready == m.ready
    &&& e.linked == m.linked
}

/// The entry for a module: its description is cut to its first line.
pub fn module_entry(m: &ModuleInfo) -> (r: ModuleEntry)
    ensures
        entry_for(r, *m),
{
    let description = match &m.description {
        Some(d) => {
            let all = lines(d.as_str());
            if all.len() > 0 {
                all[0].clone()
            } else {
                String::new()
            }
        },
        None => String::new(),
    };
    ModuleEntry {
        id: m.id.clone(),
        name: m.name.clone(),
        version: m.version.clone(),
        description,
        runtime: if m.executable {
            String::from_str("executable")
        } else {
            String::from_str("platform")
        },
        compatible: m.compatible,
        ready: m.ready,
        linked: m.linked,
    }
}

/// The entries are those for the modules, in order.
pub open spec fn entries_for(entries: Seq<ModuleEntry>, modules: Seq<ModuleInfo>) -> bool {
    &&& entries.len() == modules.len()
    &&& forall|i: int| 0 <= i < modules.len() ==> entry_for(#[trigger] entries[i], modules[i])
}

/// The entries of the modules that are shown.
pub fn shown_modules(show_all: bool, components: &Vec<Component>, all: &Vec<ModuleInfo>) -> (r:
    Vec<ModuleEntry>)
    ensures
        entries_for(
            r@,
            kept(all@, Seq::new(all@.len(), |i: int| shows_module(show_all, components@, all@[i]))),
        ),
{
    let mut out: Vec<ModuleEntry> = Vec::new();
    let ghost mut flags: Seq<bool> = Seq::empty();
    let mut i: usize = 0;
    assert(all@.take(0) =~= Seq::<ModuleInfo>::empty());
    while i < all.len()
        invariant
            i <= all.len(),
            flags.len() == i,
            forall|j: int|
                0 <= j < i ==> #[trigger] flags[j] == shows_module(show_all, components@, all@[j]),
            out@.len() == kept(all@.take(i as int), flags).len(),
            forall|j: int|
                0 <= j < out@.len() ==> entry_for(
                    #[trigger] out@[j],
                    kept(all@.take(i as int), flags)[j],
                ),
        decreases all.len() - i,
    {
        let show = show_all || !all[i].executable || binds(components, all[i].id.as_str());
        let ghost before = kept(all@.take(i as int), flags);
        let ghost old_out = out@;
        proof {
            let next = flags.push(show);
            assert(all@.take(i + 1).drop_last() =~= all@.take(i as int));
            assert(next.drop_last() =~= flags);
            assert(all@.take(i + 1).last() == all@[i as int]);
            flags = next;
        }
        if show {
            out.push(module_entry(&all[i]));
            proof {
                let after = kept(all@.take(i + 1), flags);
                assert(after == before + seq![all@[i as int]]);
                assert forall|j: int| 0 <= j < out@.len() implies entry_for(
                    #[trigger] out@[j],
                    after[j],
                ) by {
                    if j < old_out.len() {
                        assert(out@[j] == old_out[j]);
                        assert(after[j] == before[j]);
                    }
                }
            }
        } else {
            proof {
                assert(kept(all@.take(i + 1), flags) =~= before);
            }
        }
        i += 1;
    }
    proof {
        assert(all@.take(all@.len() as int) =~= all@);
        assert(flags =~= Seq::new(
            all@.len(),
            |i: int| shows_module(show_all, components@, all@[i]),
        ));
    }
    out
}

/// What a newcomer is told to do next.
pub open spec fn next_steps_of(context: ContextOutput, any_component: bool) -> Seq<Seq<char>> {
    let start = seq![
        "Read README.md for repo-specific guidance."@,
        "Run `homeboy docs documentation/index` for Homeboy documentation."@,
        "Run `homeboy docs commands/commands-index` to browse available commands."@,
    ];
    let middle = if context.managed {
        if any_component {
            seq![
                "Run `homeboy context` to inspect local config state."@,
                "Run `homeboy component show <id>` to inspect a component."@,
            ]
        } else {
            seq!["Run `homeboy context` to inspect local config state."@]
        }
    } else if context.contained_components@.len() > 0 {
        seq!["Run `homeboy component show <id>` for a contained component."@]
    } else {
        seq![
            "Create a project with `homeboy project create <name> <domain> --server <server_id> --module <module_id>`."@,
            "Create a component with `homeboy component create <name> --local-path . --remote-path <path> --project <project_id>`."@,
        ]
    };
    let end = match context.suggestion {
        Some(s) => seq!["Suggestion: "@ + s@],
        None => Seq::empty(),
    };
    start + middle + end
}

/// Writes what a newcomer is told to do next.
pub fn next_steps(context: &ContextOutput, any_component: bool) -> (r: Vec<String>)
    ensures
        texts(r@) == next_steps_of(*context, any_component),
{
    let mut steps: Vec<String> = Vec::new();
    steps.push(String::from_str("Read README.md for repo-specific guidance."));
    steps.push(
        String::from_str("Run `homeboy docs documentation/index` for Homeboy documentation."),
    );
    steps.push(
        String::from_str(
            "Run `homeboy docs commands/commands-index` to browse available commands.",
        ),
    );
    let ghost start = texts(steps@);
    assert(start =~= seq![
        "Read README.md for repo-specific guidance."@,
        "Run `homeboy docs documentation/index` for Homeboy documentation."@,
        "Run `homeboy docs commands/commands-index` to browse available commands."@,
    ]);
    if context.managed {
        steps.push(String::from_str("Run `homeboy context` to inspect local config state."));
        if any_component {
            steps.push(
                String::from_str("Run `homeboy component show <id>` to inspect a component."),
            );
            assert(texts(steps@) =~= start + seq![
                "Run `homeboy context` to inspect local config state."@,
                "Run `homeboy component show <id>` to inspect a component."@,
            ]);
        } else {
            assert(texts(steps@) =~= start + seq![
                "Run `homeboy context` to inspect local config state."@,
            ]);
        }
    } else if context.contained_components.len() > 0 {
        steps.push(
            String::from_str("Run `homeboy component show <id>` for a contained component."),
        );
        assert(texts(steps@) =~= start + seq![
            "Run `homeboy component show <id>` for a contained component."@,
        ]);
    } else {
        steps.push(
            String::from_str(
                "Create a project with `homeboy project create <name> <domain> --server <server_id> --module <module_id>`.",
            ),
        );
        steps.push(
            String::from_str(
                "Create a component with `homeboy component create <name> --local-path . --remote-path <path> --project <project_id>`.",
            ),
        );
        assert(texts(steps@) =~= start + seq![
            "Create a project with `homeboy project create <name> <domain> --server <server_id> --module <module_id>`."@,
            "Create a component with `homeboy component create <name> --local-path . --remote-path <path> --project <project_id>`."@,
        ]);
    }
    let ghost body = texts(steps@);
    match &context.suggestion {
        Some(s) => {
            steps.push(concat("Suggestion: ", s.as_str()));
            assert(texts(steps@) =~= body + seq!["Suggestion: "@ + s@]);
        },
        None => {
            assert(body + Seq::<Seq<char>>::empty() =~= body);
        },
    }
    steps
}

/// The items are those of the projects, in order.
pub open spec fn items_of(r: Seq<ProjectListItem>, projects: Seq<Project>) -> bool {
    &&& r.len() == projects.len()
    &&& forall|i: int|
        0 <= i < projects.len() ==> (#[trigger] r[i]).id == projects[i].id && r[i].domain
            == projects[i].domain
}

/// The projects as items of the list that is shown.
pub fn project_items(projects: Vec<Project>) -> (r: Vec<ProjectListItem>)
    ensures
        items_of(r@, projects@),
{
    let mut out: Vec<ProjectListItem> = Vec::new();
    for p in it: projects
        invariant
            it.seq() == projects@,
            out@.len() == it.index(),
            forall|i: int|
                0 <= i < it.index() ==> (#[trigger] out@[i]).id == projects@[i].id
                    && out@[i].domain == projects@[i].domain,
    {
        out.push(ProjectListItem::from(p));
    }
    out
}

/// The components that are shown, in order.
pub open spec fn components_shown(args: InitArgs, context: ContextOutput, all: Seq<Component>) -> Seq<
    Component,
> {
    kept(all, Seq::new(all.len(), |i: int| shows_component(args, context, all[i])))
}

/// The projects that are shown, in order.
pub open spec fn projects_shown(args: InitArgs, context: ContextOutput, all: Seq<Project>) -> Seq<
    Project,
> {
    kept(all, Seq::new(all.len(), |i: int| shows_project(args, context, all[i])))
}

/// The servers that are shown, in order.
pub open spec fn servers_shown(show_all: bool, projects: Seq<Project>, all: Seq<ServerConfig>) -> Seq<
    ServerConfig,
> {
    kept(all, Seq::new(all.len(), |i: int| shows_server(show_all, projects, all[i])))
}

/// The modules that are shown, in order.
pub open spec fn modules_shown(show_all: bool, components: Seq<Component>, all: Seq<ModuleInfo>) -> Seq<
    ModuleInfo,
> {
    kept(all, Seq::new(all.len(), |i: int| shows_module(show_all, components, all[i])))
}

/// Puts together what a newcomer to the directory is shown: the components that the
/// directory has to do with, the projects that hold them, the servers of those projects and
/// the modules of those components; or everything, where that is asked for or the directory
/// has to do with no component.
pub fn run_json(
    args: InitArgs,
    context: ContextOutput,
    all_components: Vec<Component>,
    all_projects: Vec<Project>,
    all_servers: Vec<ServerConfig>,
    all_modules: &Vec<ModuleInfo>,
) -> (r: (InitOutput, i32))
    ensures
        r.0.command@ == "init"@,
        r.0.context == context,
        texts(r.0.next_steps@) == next_steps_of(context, r.0.components@.len() > 0),
        r.0.components@ == components_shown(args, context, all_components@),
        entries_for(
            r.0.modules@,
            modules_shown(shows_all(args, context), r.0.components@, all_modules@),
        ),
        items_of(r.0.projects@, projects_shown(args, context, all_projects@)),
        r.0.servers@ == servers_shown(
            shows_all(args, context),
            projects_shown(args, context, all_projects@),
            all_servers@,
        ),
        shows_all(args, context) ==> r.0.components@ == all_components@ && r.0.projects@.len()
            == all_projects@.len() && r.0.servers@ == all_servers@ && r.0.modules@.len()
            == all_modules@.len(),
        r.1 == 0,
{
    let show_all = args.all || (context.matched_components.len() == 0
        && context.contained_components.len() == 0);
    proof {
        lemma_kept_all::<Component>(all_components@);
        lemma_kept_all::<Project>(all_projects@);
        lemma_kept_all::<ServerConfig>(all_servers@);
        lemma_kept_all::<ModuleInfo>(all_modules@);
    }
    let components = shown_components(&args, &context, all_components);
    let modules = shown_modules(show_all, &components, all_modules);
    let filtered_projects = shown_projects(&args, &context, all_projects);
    let servers = shown_servers(show_all, &filtered_projects, all_servers);
    proof {
        if show_all {
            let cf = Seq::new(
                all_components@.len(),
                |i: int| shows_component(args, context, all_components@[i]),
            );
            assert(kept(all_components@, cf) == all_components@);
            let pf = Seq::new(
                all_projects@.len(),
                |i: int| shows_project(args, context, all_projects@[i]),
            );
            assert(kept(all_projects@, pf) == all_projects@);
            let sf = Seq::new(
                all_servers@.len(),
                |i: int| shows_server(show_all, filtered_projects@, all_servers@[i]),
            );
            assert(kept(all_servers@, sf) == all_servers@);
            let mf = Seq::new(
                all_modules@.len(),
                |i: int| shows_module(show_all, components@, all_modules@[i]),
            );
            assert(kept(all_modules@, mf) == all_modules@);
        }
    }
    let projects = project_items(filtered_projects);
    let steps = next_steps(&context, components.len() > 0);
    (
        InitOutput {
            command: "init",
            context,
            next_steps: steps,
            servers,
            projects,
            components,
            modules,
        },
        0,
    )
}

/// Where every flag is set, every item is kept.
pub proof fn lemma_kept_all<T>(items: Seq<T>)
    ensures
        forall|flags: Seq<bool>|
            flags.len() == items.len() && (forall|i: int| 0 <= i < flags.len() ==> flags[i])
                ==> #[trigger] kept(items, flags) == items,
    decreases items.len(),
{
    assert forall|flags: Seq<bool>|
        flags.len() == items.len() && (forall|i: int|
            0 <= i < flags.len() ==> flags[i]) implies #[trigger] kept(items, flags) == items by {
        if items.len() > 0 {
            lemma_kept_all::<T>(items.drop_last());
            assert(flags.drop_last().len() == items.drop_last().len());
            assert forall|i: int| 0 <= i < flags.drop_last().len() implies flags.drop_last()[i] by {
                assert(flags[i]);
            }
            assert(kept(items.drop_last(), flags.drop_last()) == items.drop_last());
            assert(flags.last());
            assert(items.drop_last() + seq![items.last()] =~= items);
        } else {
            assert(kept(items, flags) =~= items);
        }
    }
}

} // verus!
