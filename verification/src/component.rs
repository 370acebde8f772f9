//! Components as they are configured and stored.

use vstd::prelude::*;
use vstd::string::*;
use crate::commands::init::Project;
use crate::split::{has_prefix, matches_at, slice_chars};
use crate::text::{chars_of, opt_text, string_of, texts};

verus! {

/// A file that holds the version of a component, and how the version is found in it.
#[derive(Debug)]
pub struct VersionTarget {
    pub file: String,
    pub pattern: Option<String>,
}

/// A changelog of a component.
#[derive(Debug)]
pub struct ChangelogTarget {
    pub file: String,
}

/// What is configured of a component.
#[derive(Debug)]
pub struct ComponentConfiguration {
    pub name: String,
    pub local_path: String,
    pub remote_path: String,
    pub build_artifact: String,
    pub version_targets: Option<Vec<VersionTarget>>,
    pub changelog_targets: Option<Vec<ChangelogTarget>>,
    pub changelog_next_section_label: Option<String>,
    pub changelog_next_section_aliases: Option<Vec<String>>,
    pub build_command: Option<String>,
    pub is_network: Option<bool>,
}

impl ComponentConfiguration {
    /// The configuration of a component of which only what must be said is said.
    pub fn new(name: String, local_path: String, remote_path: String, build_artifact: String) -> (r:
        Self)
        ensures
            r.name == name,
            r.local_path == local_path,
            r.remote_path == remote_path,
            r.build_artifact == build_artifact,
            r.version_targets is None,
            r.changelog_targets is None,
            r.changelog_next_section_label is None,
            r.changelog_next_section_aliases is None,
            r.build_command is None,
            r.is_network is None,
    {
        Self {
            name,
            local_path,
            remote_path,
            build_artifact,
            version_targets: None,
            changelog_targets: None,
            changelog_next_section_label: None,
            changelog_next_section_aliases: None,
            build_command: None,
            is_network: None,
        }
    }

    /// The name of the component.
    pub fn name(&self) -> (r: &str)
        ensures
            r@ == self.name@,
    {
        self.name.as_str()
    }

    /// Gives the component another name.
    pub fn set_name(&mut self, name: String)
        ensures
            final(self).name == name,
            final(self).local_path == old(self).local_path,
            final(self).remote_path == old(self).remote_path,
            final(self).build_artifact == old(self).build_artifact,
            final(self).version_targets == old(self).version_targets,
            final(self).changelog_targets == old(self).changelog_targets,
            final(self).build_command == old(self).build_command,
            final(self).is_network == old(self).is_network,
    {
        self.name = name;
    }
}

/// What a project is made from: the project, and the components that are made with it.
#[derive(Debug)]
pub struct ProjectCreatePayload {
    pub project: Project,
    pub components: Option<Vec<ComponentConfiguration>>,
}

/// A stored record: a configuration under its id.
#[derive(Debug)]
pub struct Record<T> {
    pub id: String,
    pub value: T,
}

impl<T> Record<T> {
    /// The record of a configuration under an id.
    pub fn new(id: String, value: T) -> (r: Self)
        ensures
            r.id == id,
            r.value == value,
    {
        Self { id, value }
    }
}

/// A component as it is stored.
#[derive(Debug)]
pub struct Component {
    pub id: String,
    pub name: String,
    pub local_path: String,
    pub remote_path: String,
    pub build_artifact: String,
    pub version_targets: Option<Vec<VersionTarget>>,
    pub build_command: Option<String>,
    pub extract_command: Option<String>,
    /// The ids of the modules that the component is bound to.
    pub modules: Option<Vec<String>>,
}

impl Component {
    /// A component of which only what must be said is said.
    pub fn new(
        id: String,
        name: String,
        local_path: String,
        remote_path: String,
        build_artifact: String,
    ) -> (r: Self)
        ensures
            r.id == id,
            r.name == name,
            r.local_path == local_path,
            r.remote_path == remote_path,
            r.build_artifact == build_artifact,
            r.version_targets is None,
            r.build_command is None,
            r.extract_command is None,
            r.modules is None,
    {
        Self {
            id,
            name,
            local_path,
            remote_path,
            build_artifact,
            version_targets: None,
            build_command: None,
            extract_command: None,
            modules: None,
        }
    }
}

/// The place of the first `::` in the text, or its length where there is none.
pub open spec fn first_separator(s: Seq<char>) -> int
    decreases s.len(),
{
    if s.len() == 0 {
        0
    } else if has_prefix(s, "::"@) {
        0
    } else {
        1 + first_separator(s.drop_first())
    }
}

/// The file and the pattern of a version target given as `file` or `file::pattern`.
pub open spec fn target_parts(s: Seq<char>) -> (Seq<char>, Option<Seq<char>>) {
    let at = first_separator(s);
    if at < s.len() {
        (s.take(at), Some(s.skip(at + 2)))
    } else {
        (s, None)
    }
}

pub proof fn lemma_first_separator(s: Seq<char>)
    ensures
        0 <= first_separator(s) <= s.len(),
        first_separator(s) < s.len() ==> first_separator(s) + 2 <= s.len(),
    decreases s.len(),
{
    reveal_strlit("::");
    if s.len() > 0 && !has_prefix(s, "::"@) {
        lemma_first_separator(s.drop_first());
    }
}

/// Reads a version target given as `file` or `file::pattern`.
pub fn parse_version_target(target: &str) -> (r: VersionTarget)
    ensures
        (r.file@, opt_text(r.pattern)) == target_parts(target@),
{
    let v = chars_of(target);
    let sep = chars_of("::");
    proof {
        reveal_strlit("::");
        lemma_first_separator(v@);
    }
    let mut at: usize = 0;
    assert(v@.skip(0) =~= v@);
    while at < v.len() && !matches_at(&v, at, &sep)
        invariant
            at <= v.len(),
            sep@ == "::"@,
            first_separator(v@) == at + first_separator(v@.skip(at as int)),
        decreases v.len() - at,
    {
        proof {
            assert(v@.skip(at as int).drop_first() =~= v@.skip(at + 1));
        }
        at += 1;
    }
    if at < v.len() {
        assert(first_separator(v@) == at);
        let file = string_of(&slice_chars(&v, 0, at));
        let pattern = string_of(&slice_chars(&v, at + 2, v.len()));
        assert(file@ =~= target@.take(at as int));
        assert(pattern@ =~= target@.skip(at + 2));
        VersionTarget { file, pattern: Some(pattern) }
    } else {
        assert(v@.skip(at as int).len() == 0);
        VersionTarget { file: String::from_str(target), pattern: None }
    }
}

/// The version targets are what the texts give, in order.
pub open spec fn targets_of(r: Seq<VersionTarget>, targets: Seq<String>) -> bool {
    &&& r.len() == targets.len()
    &&& forall|i: int|
        0 <= i < targets.len() ==> ((#[trigger] r[i]).file@, opt_text(r[i].pattern))
            == target_parts(targets[i]@)
}

/// The version targets that the texts give, in order.
pub fn parse_version_targets(targets: &Vec<String>) -> (r: Vec<VersionTarget>)
    ensures
        targets_of(r@, targets@),
{
    let mut out: Vec<VersionTarget> = Vec::new();
    let mut i: usize = 0;
    while i < targets.len()
        invariant
            i <= targets.len(),
            out@.len() == i,
            forall|j: int|
                0 <= j < i ==> ((#[trigger] out@[j]).file@, opt_text(out@[j].pattern))
                    == target_parts(targets@[j]@),
        decreases targets.len() - i,
    {
        out.push(parse_version_target(targets[i].as_str()));
        i += 1;
    }
    out
}

} // verus!
