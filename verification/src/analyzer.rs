//! Analysis of a checked-out repository: detected technologies, Terraform
//! resources, the dominant file-naming convention, and the file count.
//!
//! The tree walk is done by the caller, which hands over one [`RepoEntry`]
//! per regular file and per directory below the root; everything decided
//! about those entries is here.

use vstd::prelude::*;
use crate::terraform::{find_resource_headers, pairs_view, resource_headers};
use crate::text::{
    chars_equal, chars_lt, chars_of, contains_char, contains_chars, ends_with, has_infix,
    has_prefix, has_suffix, lemma_chars_lt_irreflexive, lemma_chars_lt_transitive, owned,
    starts_with,
};

verus! {

/// A technology that a repository can be detected to use.
#[derive(Debug, Clone, Copy, PartialEq, Eq, Structural)]
pub enum Technology {
    Docker,
    DockerCompose,
    Go,
    Java,
    Kubernetes,
    Nodejs,
    Python,
    Ruby,
    Rust,
    Terraform,
}

/// The name under which a technology is reported.
pub open spec fn tech_name(t: Technology) -> Seq<char> {
    match t {
        Technology::Docker => "docker"@,
        Technology::DockerCompose => "docker-compose"@,
        Technology::Go => "go"@,
        Technology::Java => "java"@,
        Technology::Kubernetes => "kubernetes"@,
        Technology::Nodejs => "nodejs"@,
        Technology::Python => "python"@,
        Technology::Ruby => "ruby"@,
        Technology::Rust => "rust"@,
        Technology::Terraform => "terraform"@,
    }
}

impl Technology {
    /// The name under which the technology is reported.
    pub fn name(&self) -> (s: &'static str)
        ensures
            s@ == tech_name(*self),
    {
        match self {
            Technology::Docker => "docker",
            Technology::DockerCompose => "docker-compose",
            Technology::Go => "go",
            Technology::Java => "java",
            Technology::Kubernetes => "kubernetes",
            Technology::Nodejs => "nodejs",
            Technology::Python => "python",
            Technology::Ruby => "ruby",
            Technology::Rust => "rust",
            Technology::Terraform => "terraform",
        }
    }
}

/// The technology that a file named `name` reveals, if any.
pub open spec fn technology_of(name: Seq<char>) -> Option<Technology> {
    if name == "package.json"@ {
        Some(Technology::Nodejs)
    } else if name == "Cargo.toml"@ {
        Some(Technology::Rust)
    } else if name == "go.mod"@ {
        Some(Technology::Go)
    } else if name == "requirements.txt"@ || name == "pyproject.toml"@ || name == "Pipfile"@ {
        Some(Technology::Python)
    } else if name == "docker-compose.yml"@ || name == "docker-compose.yaml"@ {
        Some(Technology::DockerCompose)
    } else if name == "Gemfile"@ {
        Some(Technology::Ruby)
    } else if name == "pom.xml"@ {
        Some(Technology::Java)
    } else if name == "build.gradle"@ || name == "build.gradle.kts"@ {
        Some(Technology::Java)
    } else if name == "Dockerfile"@ || has_prefix(name, "Dockerfile."@) {
        Some(Technology::Docker)
    } else if has_suffix(name, ".tf"@) || has_suffix(name, ".tfvars"@) {
        Some(Technology::Terraform)
    } else if has_suffix(name, ".yml"@) && (has_infix(name, "k8s"@) || has_infix(
        name,
        "kustomization"@,
    )) {
        Some(Technology::Kubernetes)
    } else {
        None
    }
}

fn is_named(name: &Vec<char>, lit: &str) -> (r: bool)
    ensures
        r == (name@ == lit@),
{
    chars_equal(name, &chars_of(lit))
}

impl Technology {
    /// The technology that a file named `file_name` reveals, if any.
    pub fn of_file(file_name: &str) -> (r: Option<Technology>)
        ensures
            r == technology_of(file_name@),
    {
        let n = chars_of(file_name);
        if is_named(&n, "package.json") {
            Some(Technology::Nodejs)
        } else if is_named(&n, "Cargo.toml") {
            Some(Technology::Rust)
        } else if is_named(&n, "go.mod") {
            Some(Technology::Go)
        } else if is_named(&n, "requirements.txt") || is_named(&n, "pyproject.toml") || is_named(
            &n,
            "Pipfile",
        ) {
            Some(Technology::Python)
        } else if is_named(&n, "docker-compose.yml") || is_named(&n, "docker-compose.yaml") {
            Some(Technology::DockerCompose)
        } else if is_named(&n, "Gemfile") {
            Some(Technology::Ruby)
        } else if is_named(&n, "pom.xml") {
            Some(Technology::Java)
        } else if is_named(&n, "build.gradle") || is_named(&n, "build.gradle.kts") {
            Some(Technology::Java)
        } else if is_named(&n, "Dockerfile") || starts_with(&n, &chars_of("Dockerfile.")) {
            Some(Technology::Docker)
        } else if ends_with(&n, &chars_of(".tf")) || ends_with(&n, &chars_of(".tfvars")) {
            Some(Technology::Terraform)
        } else if ends_with(&n, &chars_of(".yml")) && (contains_chars(&n, &chars_of("k8s"))
            || contains_chars(&n, &chars_of("kustomization"))) {
            Some(Technology::Kubernetes)
        } else {
            None
        }
    }
}

/// The name of the technology that a file named `file_name` reveals, if any.
pub fn detect_technology(file_name: &str) -> (r: Option<&'static str>)
    ensures
        match technology_of(file_name@) {
            Some(t) => r is Some && r->0@ == tech_name(t),
            None => r is None,
        },
{
    match Technology::of_file(file_name) {
        Some(t) => Some(t.name()),
        None => None,
    }
}

/// Naming convention observed across file and directory basenames.
#[derive(Debug, Clone, Copy, PartialEq, Eq, Structural)]
pub enum NamingConvention {
    KebabCase,
    SnakeCase,
    CamelCase,
    Mixed,
}

/// The part of a file name before its first dot.
pub open spec fn stem(name: Seq<char>) -> Seq<char>
    decreases name.len(),
{
    if name.len() == 0 || name[0] == '.' {
        Seq::empty()
    } else {
        seq![name[0]] + stem(name.drop_first())
    }
}

pub open spec fn is_ascii_upper(c: char) -> bool {
    65 <= (c as u32) <= 90
}

pub open spec fn is_ascii_lower(c: char) -> bool {
    97 <= (c as u32) <= 122
}

/// The convention a file name votes for: a stem with hyphens and no
/// underscores votes kebab-case, one with underscores and no hyphens votes
/// snake_case, one with neither but an uppercase ASCII letter after its
/// first character, and a lowercase one somewhere, votes camelCase. An
/// empty stem, a stem with both separators, and a single word such as
/// `README` or `Dockerfile` give no vote.
pub open spec fn vote_of(name: Seq<char>) -> Option<NamingConvention> {
    let s = stem(name);
    let hyphen = s.contains('-');
    let underscore = s.contains('_');
    let upper = exists|i: int| 1 <= i < s.len() && is_ascii_upper(#[trigger] s[i]);
    let lower = exists|i: int| 0 <= i < s.len() && is_ascii_lower(#[trigger] s[i]);
    if s.len() == 0 {
        None
    } else if hyphen && !underscore {
        Some(NamingConvention::KebabCase)
    } else if !hyphen && underscore {
        Some(NamingConvention::SnakeCase)
    } else if !hyphen && !underscore && upper && lower {
        Some(NamingConvention::CamelCase)
    } else {
        None
    }
}

/// The convention with a strict majority of the votes, or `Mixed` when no
/// convention has more than half of them.
pub open spec fn dominant_of(kebab: nat, snake: nat, camel: nat) -> NamingConvention {
    let total = kebab + snake + camel;
    if 2 * kebab > total {
        NamingConvention::KebabCase
    } else if 2 * snake > total {
        NamingConvention::SnakeCase
    } else if 2 * camel > total {
        NamingConvention::CamelCase
    } else {
        NamingConvention::Mixed
    }
}

/// The stem is the part of the name before its first dot: a prefix of the
/// name without dots, followed in the name by a dot or by nothing.
pub proof fn lemma_stem_is_prefix_before_dot(name: Seq<char>)
    ensures
        stem(name).len() <= name.len(),
        name.take(stem(name).len() as int) == stem(name),
        !stem(name).contains('.'),
        stem(name).len() < name.len() ==> name[stem(name).len() as int] == '.',
    decreases name.len(),
{
    if name.len() > 0 && name[0] != '.' {
        let rest = name.drop_first();
        lemma_stem_is_prefix_before_dot(rest);
        let st = stem(name);
        assert(st == seq![name[0]] + stem(rest));
        assert(name.take(st.len() as int) =~= seq![name[0]] + rest.take(stem(rest).len() as int));
        if st.contains('.') {
            let k = choose|k: int| 0 <= k < st.len() && st[k] == '.';
            if k > 0 {
                assert(stem(rest)[k - 1] == '.');
            }
        }
        if st.len() < name.len() {
            assert(name[st.len() as int] == rest[stem(rest).len() as int]);
        }
    } else {
        assert(name.take(0) =~= Seq::<char>::empty());
    }
}

/// How a name votes, from the characters of its stem alone: a hyphen
/// without an underscore votes kebab-case and an underscore without a
/// hyphen votes snake_case, whatever the other characters (digits,
/// capitals, ...); with neither, an uppercase letter after the first
/// character together with a lowercase letter votes camelCase; nothing else
/// votes.
pub proof fn lemma_vote_by_separators(name: Seq<char>)
    ensures
        ({
            let st = stem(name);
            &&& st.len() > 0 && st.contains('-') && !st.contains('_') ==> vote_of(name) == Some(
                NamingConvention::KebabCase,
            )
            &&& st.len() > 0 && st.contains('_') && !st.contains('-') ==> vote_of(name) == Some(
                NamingConvention::SnakeCase,
            )
            &&& st.len() > 0 && !st.contains('_') && !st.contains('-') && (exists|i: int|
                1 <= i < st.len() && 65 <= (#[trigger] st[i] as u32) <= 90) && (exists|i: int|
                0 <= i < st.len() && 97 <= (#[trigger] st[i] as u32) <= 122) ==> vote_of(name)
                == Some(NamingConvention::CamelCase)
            &&& st.len() == 0 || (st.contains('-') && st.contains('_')) ==> vote_of(name) is None
            &&& vote_of(name) != Some(NamingConvention::Mixed)
        }),
{
    let st = stem(name);
    if st.len() > 0 && !st.contains('_') && !st.contains('-') && (exists|i: int|
        1 <= i < st.len() && 65 <= (#[trigger] st[i] as u32) <= 90) && (exists|i: int|
        0 <= i < st.len() && 97 <= (#[trigger] st[i] as u32) <= 122) {
        let i = choose|i: int| 1 <= i < st.len() && 65 <= (#[trigger] st[i] as u32) <= 90;
        assert(is_ascii_upper(st[i]));
        let j = choose|j: int| 0 <= j < st.len() && 97 <= (#[trigger] st[j] as u32) <= 122;
        assert(is_ascii_lower(st[j]));
    }
}

/// Tallies of the naming votes of file and directory basenames.
pub struct NamingVotes {
    pub kebab: u32,
    pub snake: u32,
    pub camel: u32,
}

fn stem_of(name: &Vec<char>) -> (s: Vec<char>)
    ensures
        s@ == stem(name@),
{
    let mut s: Vec<char> = Vec::new();
    let mut i: usize = 0;
    assert(name@.skip(0) == name@);
    assert(s@ + stem(name@) == stem(name@));
    while i < name.len() && name[i] != '.'
        invariant
            i <= name@.len(),
            s@ + stem(name@.skip(i as int)) == stem(name@),
        decreases name@.len() - i,
    {
        assert(name@.skip(i as int).drop_first() == name@.skip(i + 1));
        assert(stem(name@.skip(i as int)) == seq![name@[i as int]] + stem(name@.skip(i + 1)));
        let ghost old_s = s@;
        s.push(name[i]);
        assert(s@ == old_s + seq![name@[i as int]]);
        i = i + 1;
    }
    assert(stem(name@.skip(i as int)) == Seq::<char>::empty());
    assert(s@ + Seq::<char>::empty() == s@);
    s
}

impl NamingVotes {
    /// No votes yet.
    pub fn new() -> (v: NamingVotes)
        ensures
            v.kebab == 0 && v.snake == 0 && v.camel == 0,
    {
        NamingVotes { kebab: 0, snake: 0, camel: 0 }
    }

    /// Counts the vote of `file_name`, if it gives one.
    pub fn observe(&mut self, file_name: &str)
        requires
            vote_of(file_name@) == Some(NamingConvention::KebabCase) ==> old(self).kebab < u32::MAX,
            vote_of(file_name@) == Some(NamingConvention::SnakeCase) ==> old(self).snake < u32::MAX,
            vote_of(file_name@) == Some(NamingConvention::CamelCase) ==> old(self).camel < u32::MAX,
        ensures
            final(self).kebab == old(self).kebab + if vote_of(file_name@) == Some(
                NamingConvention::KebabCase,
            ) {
                1int
            } else {
                0int
            },
            final(self).snake == old(self).snake + if vote_of(file_name@) == Some(
                NamingConvention::SnakeCase,
            ) {
                1int
            } else {
                0int
            },
            final(self).camel == old(self).camel + if vote_of(file_name@) == Some(
                NamingConvention::CamelCase,
            ) {
                1int
            } else {
                0int
            },
    {
        let name = chars_of(file_name);
        let s = stem_of(&name);
        if s.len() == 0 {
            return;
        }
        let hyphen = contains_char(&s, '-');
        let underscore = contains_char(&s, '_');
        let mut upper = false;
        let u0 = s[0] as u32;
        let mut lower = 97 <= u0 && u0 <= 122;
        let mut i: usize = 1;
        while i < s.len()
            invariant
                1 <= i <= s@.len(),
                upper == exists|k: int| 1 <= k < i && is_ascii_upper(#[trigger] s@[k]),
                lower == exists|k: int| 0 <= k < i && is_ascii_lower(#[trigger] s@[k]),
            decreases s@.len() - i,
        {
            let u = s[i] as u32;
            if 65 <= u && u <= 90 {
                upper = true;
            }
            if 97 <= u && u <= 122 {
                lower = true;
            }
            i = i + 1;
        }
        if hyphen && !underscore {
            self.kebab = self.kebab + 1;
        } else if !hyphen && underscore {
            self.snake = self.snake + 1;
        } else if !hyphen && !underscore && upper && lower {
            self.camel = self.camel + 1;
        }
    }

    /// The convention with a strict majority of the votes; `Mixed` when
    /// there are no votes or no convention has more than half of them.
    pub fn dominant(&self) -> (c: NamingConvention)
        ensures
            c == dominant_of(self.kebab as nat, self.snake as nat, self.camel as nat),
            c == NamingConvention::KebabCase <==> 2 * self.kebab > self.kebab + self.snake + self.camel,
            c == NamingConvention::SnakeCase <==> 2 * self.snake > self.kebab + self.snake + self.camel,
            c == NamingConvention::CamelCase <==> 2 * self.camel > self.kebab + self.snake + self.camel,
    {
        let total: u64 = self.kebab as u64 + self.snake as u64 + self.camel as u64;
        if total == 0 {
            return NamingConvention::Mixed;
        }
        let max = if self.kebab >= self.snake {
            if self.kebab >= self.camel { self.kebab } else { self.camel }
        } else {
            if self.snake >= self.camel { self.snake } else { self.camel }
        };
        if 2 * (max as u64) <= total {
            return NamingConvention::Mixed;
        }
        if max == self.kebab {
            NamingConvention::KebabCase
        } else if max == self.snake {
            NamingConvention::SnakeCase
        } else {
            NamingConvention::CamelCase
        }
    }
}


/// The names of the directories whose contents are never analyzed.
pub open spec fn ignored_name(name: Seq<char>) -> bool {
    name == ".git"@ || name == "node_modules"@ || name == "target"@ || name == "vendor"@ || name
        == ".terraform"@
}

/// Whether the walk should skip a tree entry named `name`: a directory
/// with one of the ignored names.
pub fn is_ignored_dir(name: &str, is_dir: bool) -> (r: bool)
    ensures
        r == (is_dir && ignored_name(name@)),
{
    if !is_dir {
        return false;
    }
    let n = chars_of(name);
    is_named(&n, ".git") || is_named(&n, "node_modules") || is_named(&n, "target") || is_named(
        &n,
        "vendor",
    ) || is_named(&n, ".terraform")
}

/// Whether the contents of a file named `file_name` are read for Terraform
/// resources.
pub fn is_terraform_file(file_name: &str) -> (r: bool)
    ensures
        r == has_suffix(file_name@, ".tf"@),
{
    ends_with(&chars_of(file_name), &chars_of(".tf"))
}

/// A regular file, or a directory below the root, met by the walk of a
/// repository.
pub struct RepoEntry {
    /// The names of the directories from the root of the walk (included)
    /// down to the entry's parent.
    pub dir_names: Vec<String>,
    /// The entry's basename.
    pub name: String,
    /// The entry is a directory (else a regular file).
    pub is_dir: bool,
    /// The entry's path relative to the root of the walk.
    pub rel_path: String,
    /// The file's contents, where it is a `.tf` file that could be read.
    pub tf_content: Option<String>,
}

pub struct RepoEntryView {
    pub dir_names: Seq<Seq<char>>,
    pub name: Seq<char>,
    pub is_dir: bool,
    pub rel_path: Seq<char>,
    pub tf_content: Option<Seq<char>>,
}

impl View for RepoEntry {
    type V = RepoEntryView;

    open spec fn view(&self) -> RepoEntryView {
        RepoEntryView {
            dir_names: self.dir_names@.map_values(|d: String| d@),
            name: self.name@,
            is_dir: self.is_dir,
            rel_path: self.rel_path@,
            tf_content: match &self.tf_content {
                Some(c) => Some(c@),
                None => None,
            },
        }
    }
}

/// A single `resource "type" "name" {` block found in a `.tf` file.
#[derive(Debug, Clone, PartialEq, Eq)]
pub struct TerraformResource {
    pub resource_type: String,
    pub resource_name: String,
    pub file_path: String,
}

impl View for TerraformResource {
    type V = (Seq<char>, Seq<char>, Seq<char>);

    open spec fn view(&self) -> (Seq<char>, Seq<char>, Seq<char>) {
        (self.resource_type@, self.resource_name@, self.file_path@)
    }
}

/// The result of analyzing a repository.
#[derive(Debug)]
pub struct Analysis {
    /// Detected technologies, e.g. ["docker", "nodejs", "terraform"];
    /// sorted and without duplicates.
    pub technologies: Vec<String>,
    pub terraform_resources: Vec<TerraformResource>,
    pub naming_convention: NamingConvention,
    pub file_count: usize,
}

pub struct AnalysisView {
    pub technologies: Seq<Seq<char>>,
    pub terraform_resources: Seq<(Seq<char>, Seq<char>, Seq<char>)>,
    pub naming_convention: NamingConvention,
    pub file_count: nat,
}

impl View for Analysis {
    type V = AnalysisView;

    open spec fn view(&self) -> AnalysisView {
        AnalysisView {
            technologies: self.technologies@.map_values(|t: String| t@),
            terraform_resources: self.terraform_resources@.map_values(|r: TerraformResource| r@),
            naming_convention: self.naming_convention,
            file_count: self.file_count as nat,
        }
    }
}

/// The walk reaches an entry unless it lies under a directory with an
/// ignored name or is such a directory.
pub open spec fn reached(f: RepoEntryView) -> bool {
    &&& forall|i: int| 0 <= i < f.dir_names.len() ==> !ignored_name(#[trigger] f.dir_names[i])
    &&& !(f.is_dir && ignored_name(f.name))
}

/// A regular file that the walk reaches: the files that are analyzed.
pub open spec fn counted_file(f: RepoEntryView) -> bool {
    reached(f) && !f.is_dir
}

/// The number of analyzed files among `fs`.
pub open spec fn file_total(fs: Seq<RepoEntryView>) -> nat
    decreases fs.len(),
{
    if fs.len() == 0 {
        0
    } else {
        file_total(fs.drop_last()) + if counted_file(fs.last()) {
            1nat
        } else {
            0nat
        }
    }
}

/// The number of reached files and directories among `fs` whose basename
/// votes for `c`.
pub open spec fn votes_for(fs: Seq<RepoEntryView>, c: NamingConvention) -> nat
    decreases fs.len(),
{
    if fs.len() == 0 {
        0
    } else {
        votes_for(fs.drop_last(), c) + if reached(fs.last()) && vote_of(fs.last().name) == Some(
            c,
        ) {
            1nat
        } else {
            0nat
        }
    }
}

/// Some analyzed file among `fs` reveals `t`.
pub open spec fn tech_found(fs: Seq<RepoEntryView>, t: Technology) -> bool
    decreases fs.len(),
{
    fs.len() > 0 && (tech_found(fs.drop_last(), t) || (counted_file(fs.last()) && technology_of(
        fs.last().name,
    ) == Some(t)))
}

/// All technologies, in the order of their names.
pub open spec fn all_technologies() -> Seq<Technology> {
    seq![
        Technology::Docker,
        Technology::DockerCompose,
        Technology::Go,
        Technology::Java,
        Technology::Kubernetes,
        Technology::Nodejs,
        Technology::Python,
        Technology::Ruby,
        Technology::Rust,
        Technology::Terraform,
    ]
}

/// The names of the technologies of `ts` that `fs` reveals, in the order of `ts`.
pub open spec fn listed(ts: Seq<Technology>, fs: Seq<RepoEntryView>) -> Seq<Seq<char>>
    decreases ts.len(),
{
    if ts.len() == 0 {
        Seq::empty()
    } else {
        listed(ts.drop_last(), fs) + if tech_found(fs, ts.last()) {
            seq![tech_name(ts.last())]
        } else {
            Seq::empty()
        }
    }
}

/// The resources of one file: those of its headers when it is an analyzed
/// `.tf` file whose contents were read, none otherwise.
pub open spec fn file_resources(f: RepoEntryView) -> Seq<(Seq<char>, Seq<char>, Seq<char>)> {
    if counted_file(f) && has_suffix(f.name, ".tf"@) && f.tf_content is Some {
        resource_headers(f.tf_content->0).map_values(
            |h: (Seq<char>, Seq<char>)| (h.0, h.1, f.rel_path),
        )
    } else {
        Seq::empty()
    }
}

/// The resources of all files of `fs`, file by file in walk order.
pub open spec fn resources_of(fs: Seq<RepoEntryView>) -> Seq<(Seq<char>, Seq<char>, Seq<char>)>
    decreases fs.len(),
{
    if fs.len() == 0 {
        Seq::empty()
    } else {
        resources_of(fs.drop_last()) + file_resources(fs.last())
    }
}

/// The analysis of the files `fs`.
pub open spec fn analysis_of(fs: Seq<RepoEntryView>) -> AnalysisView {
    AnalysisView {
        technologies: listed(all_technologies(), fs),
        terraform_resources: resources_of(fs),
        naming_convention: dominant_of(
            votes_for(fs, NamingConvention::KebabCase),
            votes_for(fs, NamingConvention::SnakeCase),
            votes_for(fs, NamingConvention::CamelCase),
        ),
        file_count: file_total(fs),
    }
}

/// The views of a list of files.
pub open spec fn entries_view(files: Seq<RepoEntry>) -> Seq<RepoEntryView> {
    files.map_values(|f: RepoEntry| f@)
}

fn is_reached(f: &RepoEntry) -> (r: bool)
    ensures
        r == reached(f@),
{
    let mut i: usize = 0;
    while i < f.dir_names.len()
        invariant
            i <= f.dir_names@.len(),
            forall|k: int| 0 <= k < i ==> !ignored_name(#[trigger] f@.dir_names[k]),
        decreases f.dir_names@.len() - i,
    {
        if is_ignored_dir(f.dir_names[i].as_str(), true) {
            assert(ignored_name(f@.dir_names[i as int]));
            return false;
        }
        i = i + 1;
    }
    !is_ignored_dir(f.name.as_str(), f.is_dir)
}

fn tech_index(t: Technology) -> (i: usize)
    ensures
        i < 10,
        all_technologies()[i as int] == t,
{
    match t {
        Technology::Docker => 0,
        Technology::DockerCompose => 1,
        Technology::Go => 2,
        Technology::Java => 3,
        Technology::Kubernetes => 4,
        Technology::Nodejs => 5,
        Technology::Python => 6,
        Technology::Ruby => 7,
        Technology::Rust => 8,
        Technology::Terraform => 9,
    }
}

fn tech_at(i: usize) -> (t: Technology)
    requires
        i < 10,
    ensures
        t == all_technologies()[i as int],
{
    if i == 0 {
        Technology::Docker
    } else if i == 1 {
        Technology::DockerCompose
    } else if i == 2 {
        Technology::Go
    } else if i == 3 {
        Technology::Java
    } else if i == 4 {
        Technology::Kubernetes
    } else if i == 5 {
        Technology::Nodejs
    } else if i == 6 {
        Technology::Python
    } else if i == 7 {
        Technology::Ruby
    } else if i == 8 {
        Technology::Rust
    } else {
        Technology::Terraform
    }
}

/// Appends the resources of the analyzed `.tf` file `f` to `out`.
fn push_file_resources(f: &RepoEntry, out: &mut Vec<TerraformResource>)
    ensures
        final(out)@.map_values(|r: TerraformResource| r@) == old(out)@.map_values(
            |r: TerraformResource| r@,
        ) + file_resources(f@),
{
    let ghost before = out@.map_values(|r: TerraformResource| r@);
    if !(is_reached(f) && !f.is_dir && is_terraform_file(f.name.as_str())) {
        assert(before + Seq::<(Seq<char>, Seq<char>, Seq<char>)>::empty() == before);
        return;
    }
    match &f.tf_content {
        None => {
            assert(before + Seq::<(Seq<char>, Seq<char>, Seq<char>)>::empty() == before);
        },
        Some(content) => {
            let headers = find_resource_headers(content.as_str());
            let ghost hs = resource_headers(content@);
            let ghost mapped = hs.map_values(
                |h: (Seq<char>, Seq<char>)| (h.0, h.1, f@.rel_path),
            );
            assert(mapped == file_resources(f@));
            let mut k: usize = 0;
            while k < headers.len()
                invariant
                    k <= headers@.len(),
                    pairs_view(headers@) == hs,
                    mapped == hs.map_values(|h: (Seq<char>, Seq<char>)| (h.0, h.1, f@.rel_path)),
                    out@.map_values(|r: TerraformResource| r@) == before + mapped.take(k as int),
                decreases headers@.len() - k,
            {
                let r = TerraformResource {
                    resource_type: headers[k].0.clone(),
                    resource_name: headers[k].1.clone(),
                    file_path: f.rel_path.clone(),
                };
                let ghost prev = out@;
                out.push(r);
                assert(hs[k as int] == (headers@[k as int].0@, headers@[k as int].1@));
                assert(out@.map_values(|r: TerraformResource| r@) == prev.map_values(
                    |r: TerraformResource| r@,
                ).push(mapped[k as int]));
                assert(mapped.take(k + 1) == mapped.take(k as int).push(mapped[k as int]));
                k = k + 1;
            }
            assert(mapped.take(headers@.len() as int) == mapped);
        },
    }
}

/// The analysis-facing part of a repository scan.
pub struct Analyzer;

impl Analyzer {
    /// Analyzes the regular files and the directories below the root met by
    /// a walk of a repository, in walk order: the technologies the file
    /// names reveal (sorted, without duplicates), the Terraform resources of
    /// the readable `.tf` files, the naming convention with a strict
    /// majority of the votes of the file and directory basenames, and the
    /// number of files. Entries under a directory with an ignored name, and
    /// such directories, are left out of all of it.
    pub fn analyze_files(files: &Vec<RepoEntry>) -> (a: Analysis)
        requires
            files@.len() < u32::MAX,
        ensures
            a@ == analysis_of(entries_view(files@)),
    {
        let ghost fs = entries_view(files@);
        let mut found: Vec<bool> = Vec::new();
        let mut j: usize = 0;
        while j < 10
            invariant
                j <= 10,
                found@.len() == j,
                forall|k: int| 0 <= k < j ==> !found@[k],
            decreases 10 - j,
        {
            found.push(false);
            j = j + 1;
        }
        let mut votes = NamingVotes::new();
        let mut resources: Vec<TerraformResource> = Vec::new();
        let mut file_count: usize = 0;
        let mut i: usize = 0;
        while i < files.len()
            invariant
                i <= files@.len() < u32::MAX,
                fs == entries_view(files@),
                found@.len() == 10,
                forall|k: int|
                    0 <= k < 10 ==> found@[k] == tech_found(
                        fs.take(i as int),
                        #[trigger] all_technologies()[k],
                    ),
                votes.kebab == votes_for(fs.take(i as int), NamingConvention::KebabCase),
                votes.snake == votes_for(fs.take(i as int), NamingConvention::SnakeCase),
                votes.camel == votes_for(fs.take(i as int), NamingConvention::CamelCase),
                votes.kebab + votes.snake + votes.camel <= i,
                file_count == file_total(fs.take(i as int)),
                file_count <= i,
                resources@.map_values(|r: TerraformResource| r@) == resources_of(fs.take(i as int)),
            decreases files@.len() - i,
        {
            let f = &files[i];
            let ghost prefix = fs.take(i as int);
            let ghost next = fs.take(i + 1);
            assert(next.drop_last() == prefix);
            assert(next.last() == f@);
            let reached_entry = is_reached(f);
            if reached_entry {
                votes.observe(f.name.as_str());
            }
            if reached_entry && !f.is_dir {
                file_count = file_count + 1;
                match Technology::of_file(f.name.as_str()) {
                    Some(t) => {
                        let idx = tech_index(t);
                        found.set(idx, true);
                    },
                    None => {},
                }
            }
            push_file_resources(f, &mut resources);
            assert forall|k: int| 0 <= k < 10 implies found@[k] == tech_found(
                next,
                #[trigger] all_technologies()[k],
            ) by {
                assert(tech_found(next, all_technologies()[k]) == (tech_found(
                    prefix,
                    all_technologies()[k],
                ) || (counted_file(f@) && technology_of(f@.name) == Some(all_technologies()[k]))));
            }
            i = i + 1;
        }
        assert(fs.take(files@.len() as int) == fs);
        let mut technologies: Vec<String> = Vec::new();
        let mut j: usize = 0;
        while j < 10
            invariant
                j <= 10,
                found@.len() == 10,
                forall|k: int|
                    0 <= k < 10 ==> found@[k] == tech_found(fs, #[trigger] all_technologies()[k]),
                technologies@.map_values(|t: String| t@) == listed(
                    all_technologies().take(j as int),
                    fs,
                ),
            decreases 10 - j,
        {
            let t = tech_at(j);
            let ghost prev = technologies@;
            assert(all_technologies().take(j + 1).drop_last() == all_technologies().take(j as int));
            assert(all_technologies().take(j + 1).last() == t);
            if found[j] {
                technologies.push(owned(t.name()));
                assert(technologies@.map_values(|t: String| t@) == prev.map_values(|t: String| t@).push(
                    tech_name(t),
                ));
            }
            j = j + 1;
        }
        assert(all_technologies().take(10) == all_technologies());
        Analysis {
            technologies,
            terraform_resources: resources,
            naming_convention: votes.dominant(),
            file_count,
        }
    }
}


/// Consecutive technologies in [`all_technologies`] have ascending names.
proof fn lemma_adjacent_names_ascending(i: int)
    requires
        0 <= i < 9,
    ensures
        chars_lt(tech_name(all_technologies()[i]), tech_name(all_technologies()[i + 1])),
{
    reveal_strlit("docker");
    reveal_strlit("docker-compose");
    reveal_strlit("go");
    reveal_strlit("java");
    reveal_strlit("kubernetes");
    reveal_strlit("nodejs");
    reveal_strlit("python");
    reveal_strlit("ruby");
    reveal_strlit("rust");
    reveal_strlit("terraform");
    reveal_with_fuel(chars_lt, 8);
}

/// The technologies of [`all_technologies`] have strictly ascending names.
pub proof fn lemma_all_names_ascending(i: int, j: int)
    requires
        0 <= i < j < 10,
    ensures
        chars_lt(tech_name(all_technologies()[i]), tech_name(all_technologies()[j])),
    decreases j - i,
{
    lemma_adjacent_names_ascending(j - 1);
    if i < j - 1 {
        lemma_all_names_ascending(i, j - 1);
        lemma_chars_lt_transitive(
            tech_name(all_technologies()[i]),
            tech_name(all_technologies()[j - 1]),
            tech_name(all_technologies()[j]),
        );
    }
}

/// What `listed` keeps of a list of technologies with ascending names:
/// names of those technologies, themselves ascending.
proof fn lemma_listed_ascending(n: int, fs: Seq<RepoEntryView>)
    requires
        0 <= n <= 10,
    ensures
        forall|p: int|
            0 <= p < listed(all_technologies().take(n), fs).len() ==> exists|k: int|
                0 <= k < n && #[trigger] listed(all_technologies().take(n), fs)[p] == tech_name(
                    all_technologies()[k],
                ),
        forall|p: int, q: int|
            0 <= p < q < listed(all_technologies().take(n), fs).len() ==> chars_lt(
                #[trigger] listed(all_technologies().take(n), fs)[p],
                #[trigger] listed(all_technologies().take(n), fs)[q],
            ),
    decreases n,
{
    let ts = all_technologies().take(n);
    if n > 0 {
        lemma_listed_ascending(n - 1, fs);
        let prev_ts = all_technologies().take(n - 1);
        assert(ts.drop_last() == prev_ts);
        let prev = listed(prev_ts, fs);
        let cur = listed(ts, fs);
        let last = tech_name(all_technologies()[n - 1]);
        assert(ts.last() == all_technologies()[n - 1]);
        if tech_found(fs, all_technologies()[n - 1]) {
            assert(cur == prev.push(last));
            assert forall|p: int| 0 <= p < cur.len() implies exists|k: int|
                0 <= k < n && #[trigger] cur[p] == tech_name(all_technologies()[k]) by {
                if p < prev.len() {
                    assert(cur[p] == prev[p]);
                    let k = choose|k: int| 0 <= k < n - 1 && prev[p] == tech_name(all_technologies()[k]);
                    assert(0 <= k < n && cur[p] == tech_name(all_technologies()[k]));
                } else {
                    assert(cur[p] == tech_name(all_technologies()[n - 1]));
                }
            }
            assert forall|p: int, q: int| 0 <= p < q < cur.len() implies chars_lt(
                #[trigger] cur[p],
                #[trigger] cur[q],
            ) by {
                assert(cur[p] == prev[p]);
                if q < prev.len() {
                    assert(cur[q] == prev[q]);
                } else {
                    let k = choose|k: int| 0 <= k < n - 1 && prev[p] == tech_name(all_technologies()[k]);
                    lemma_all_names_ascending(k, n - 1);
                }
            }
        } else {
            assert(cur == prev);
        }
    }
}

/// The technologies of an analysis are strictly ascending by name, so
/// also free of duplicates.
pub proof fn lemma_technologies_sorted(fs: Seq<RepoEntryView>)
    ensures
        forall|p: int, q: int|
            0 <= p < q < analysis_of(fs).technologies.len() ==> chars_lt(
                #[trigger] analysis_of(fs).technologies[p],
                #[trigger] analysis_of(fs).technologies[q],
            ),
        forall|p: int, q: int|
            0 <= p < q < analysis_of(fs).technologies.len() ==> #[trigger] analysis_of(fs).technologies[p]
                != #[trigger] analysis_of(fs).technologies[q],
{
    lemma_listed_ascending(10, fs);
    assert(all_technologies().take(10) == all_technologies());
    let ts = analysis_of(fs).technologies;
    assert forall|p: int, q: int| 0 <= p < q < ts.len() implies #[trigger] ts[p] != #[trigger] ts[q] by {
        lemma_chars_lt_irreflexive(ts[p]);
    }
}

/// A technology is found exactly when some analyzed file reveals it.
pub proof fn lemma_tech_found_iff(fs: Seq<RepoEntryView>, t: Technology)
    ensures
        tech_found(fs, t) <==> exists|i: int|
            0 <= i < fs.len() && counted_file(#[trigger] fs[i]) && technology_of(fs[i].name) == Some(t),
    decreases fs.len(),
{
    if fs.len() > 0 {
        let prefix = fs.drop_last();
        lemma_tech_found_iff(prefix, t);
        if tech_found(prefix, t) {
            let i = choose|i: int|
                0 <= i < prefix.len() && counted_file(#[trigger] prefix[i]) && technology_of(
                    prefix[i].name,
                ) == Some(t);
            assert(fs[i] == prefix[i]);
        }
        if exists|i: int|
            0 <= i < fs.len() && counted_file(#[trigger] fs[i]) && technology_of(fs[i].name) == Some(t) {
            let i = choose|i: int|
                0 <= i < fs.len() && counted_file(#[trigger] fs[i]) && technology_of(fs[i].name) == Some(
                    t,
                );
            if i < fs.len() - 1 {
                assert(prefix[i] == fs[i]);
            }
        }
    }
}

/// `listed` names a technology of the first `n` exactly when it is found.
proof fn lemma_listed_members(n: int, fs: Seq<RepoEntryView>, t: Technology)
    requires
        0 <= n <= 10,
    ensures
        listed(all_technologies().take(n), fs).contains(tech_name(t)) <==> exists|k: int|
            0 <= k < n && #[trigger] all_technologies()[k] == t && tech_found(fs, t),
    decreases n,
{
    if n > 0 {
        lemma_listed_members(n - 1, fs, t);
        let ts = all_technologies().take(n);
        assert(ts.drop_last() == all_technologies().take(n - 1));
        assert(ts.last() == all_technologies()[n - 1]);
        let prev = listed(all_technologies().take(n - 1), fs);
        let cur = listed(ts, fs);
        let u = all_technologies()[n - 1];
        if tech_found(fs, u) {
            assert(cur == prev.push(tech_name(u)));
            if u == t {
                assert(cur[cur.len() - 1] == tech_name(t));
            } else {
                let j = tech_index_spec(t);
                if j < n - 1 {
                    lemma_all_names_ascending(j, n - 1);
                } else {
                    lemma_all_names_ascending(n - 1, j);
                }
                lemma_chars_lt_irreflexive(tech_name(t));
                if cur.contains(tech_name(t)) {
                    let p = choose|p: int| 0 <= p < cur.len() && cur[p] == tech_name(t);
                    if p < prev.len() {
                        assert(prev[p] == tech_name(t));
                    }
                }
                if prev.contains(tech_name(t)) {
                    let p = choose|p: int| 0 <= p < prev.len() && prev[p] == tech_name(t);
                    assert(cur[p] == tech_name(t));
                }
            }
        } else {
            assert(cur == prev);
        }
        if exists|k: int| 0 <= k < n && #[trigger] all_technologies()[k] == t && tech_found(fs, t) {
            let k = choose|k: int|
                0 <= k < n && #[trigger] all_technologies()[k] == t && tech_found(fs, t);
            if k < n - 1 {
                assert(0 <= k < n - 1 && all_technologies()[k] == t);
            }
        }
    } else {
        assert(listed(all_technologies().take(0), fs) == Seq::<Seq<char>>::empty());
    }
}

/// The position of `t` in [`all_technologies`].
pub open spec fn tech_index_spec(t: Technology) -> int {
    match t {
        Technology::Docker => 0,
        Technology::DockerCompose => 1,
        Technology::Go => 2,
        Technology::Java => 3,
        Technology::Kubernetes => 4,
        Technology::Nodejs => 5,
        Technology::Python => 6,
        Technology::Ruby => 7,
        Technology::Rust => 8,
        Technology::Terraform => 9,
    }
}

/// An analysis lists the name of a technology exactly when some analyzed
/// file reveals that technology.
pub proof fn lemma_technologies_detected(fs: Seq<RepoEntryView>, t: Technology)
    ensures
        analysis_of(fs).technologies.contains(tech_name(t)) <==> exists|i: int|
            0 <= i < fs.len() && counted_file(#[trigger] fs[i]) && technology_of(fs[i].name) == Some(t),
{
    lemma_listed_members(10, fs, t);
    lemma_tech_found_iff(fs, t);
    assert(all_technologies().take(10) == all_technologies());
    assert(all_technologies()[tech_index_spec(t)] == t);
}

/// `n` is the name of a technology that some analyzed file of `fs` reveals.
pub open spec fn names_detected_technology(fs: Seq<RepoEntryView>, n: Seq<char>) -> bool {
    exists|t: Technology|
        #[trigger] tech_name(t) == n && exists|i: int|
            0 <= i < fs.len() && counted_file(#[trigger] fs[i]) && technology_of(fs[i].name)
                == Some(t)
}

/// Every name an analysis lists is the name of a technology that some
/// analyzed file reveals.
pub proof fn lemma_technologies_are_detected(fs: Seq<RepoEntryView>)
    ensures
        forall|p: int|
            0 <= p < analysis_of(fs).technologies.len() ==> names_detected_technology(
                fs,
                #[trigger] analysis_of(fs).technologies[p],
            ),
{
    lemma_listed_ascending(10, fs);
    assert(all_technologies().take(10) == all_technologies());
    let ts = analysis_of(fs).technologies;
    assert forall|p: int| 0 <= p < ts.len() implies names_detected_technology(fs, #[trigger] ts[p]) by {
        let k = choose|k: int| 0 <= k < 10 && #[trigger] ts[p] == tech_name(all_technologies()[k]);
        let t = all_technologies()[k];
        assert(tech_name(t) == ts[p]);
        assert(ts.contains(tech_name(t)));
        lemma_technologies_detected(fs, t);
    }
}

/// An entry that the walk does not reach (one under a directory with an
/// ignored name, or such a directory) changes nothing in an analysis.
pub proof fn lemma_unreached_entry_changes_nothing(fs: Seq<RepoEntryView>, f: RepoEntryView)
    requires
        !reached(f),
    ensures
        analysis_of(fs.push(f)) == analysis_of(fs),
{
    let gs = fs.push(f);
    assert(gs.drop_last() == fs);
    assert(gs.last() == f);
    assert forall|t: Technology| tech_found(gs, t) == tech_found(fs, t) by {}
    lemma_listed_unchanged(all_technologies(), fs, gs);
    assert(file_resources(f) == Seq::<(Seq<char>, Seq<char>, Seq<char>)>::empty());
    assert(resources_of(gs) == resources_of(fs) + Seq::<(Seq<char>, Seq<char>, Seq<char>)>::empty());
}

/// Appending a regular file that lies under no `.git`, `node_modules`,
/// `target`, `vendor` or `.terraform` directory raises the file count by
/// exactly one, whatever its depth; appending any other entry leaves the
/// count unchanged.
pub proof fn lemma_file_count_step(fs: Seq<RepoEntryView>, f: RepoEntryView)
    ensures
        (!f.is_dir && forall|i: int|
            0 <= i < f.dir_names.len() ==> {
                let d = #[trigger] f.dir_names[i];
                d != ".git"@ && d != "node_modules"@ && d != "target"@ && d != "vendor"@ && d
                    != ".terraform"@
            }) ==> analysis_of(fs.push(f)).file_count == analysis_of(fs).file_count + 1,
        (f.is_dir || exists|i: int|
            0 <= i < f.dir_names.len() && {
                let d = #[trigger] f.dir_names[i];
                d == ".git"@ || d == "node_modules"@ || d == "target"@ || d == "vendor"@ || d
                    == ".terraform"@
            }) ==> analysis_of(fs.push(f)).file_count == analysis_of(fs).file_count,
{
    let gs = fs.push(f);
    assert(gs.drop_last() == fs);
    assert(gs.last() == f);
}

/// The file count of a walk is the number of its regular files that lie
/// under no ignored directory, and never more than the number of entries.
pub proof fn lemma_file_count_bounds(fs: Seq<RepoEntryView>)
    ensures
        analysis_of(fs).file_count <= fs.len(),
        (forall|k: int|
            0 <= k < fs.len() ==> !(#[trigger] fs[k]).is_dir && forall|i: int|
                0 <= i < fs[k].dir_names.len() ==> !ignored_name(#[trigger] fs[k].dir_names[i]))
            ==> analysis_of(fs).file_count == fs.len(),
    decreases fs.len(),
{
    if fs.len() > 0 {
        let prefix = fs.drop_last();
        lemma_file_count_bounds(prefix);
        assert(fs == prefix.push(fs.last()));
        lemma_file_count_step(prefix, fs.last());
        if forall|k: int|
            0 <= k < fs.len() ==> !(#[trigger] fs[k]).is_dir && forall|i: int|
                0 <= i < fs[k].dir_names.len() ==> !ignored_name(#[trigger] fs[k].dir_names[i]) {
            assert forall|k: int|
                0 <= k < prefix.len() implies !(#[trigger] prefix[k]).is_dir && forall|i: int|
                    0 <= i < prefix[k].dir_names.len() ==> !ignored_name(
                        #[trigger] prefix[k].dir_names[i],
                    ) by {
                assert(prefix[k] == fs[k]);
            }
            assert(!fs[fs.len() - 1].is_dir);
        }
    }
}

/// A reached directory adds its basename's vote and nothing else: no file,
/// technology or resource.
pub proof fn lemma_directory_only_votes(fs: Seq<RepoEntryView>, d: RepoEntryView)
    requires
        d.is_dir,
    ensures
        analysis_of(fs.push(d)).file_count == analysis_of(fs).file_count,
        analysis_of(fs.push(d)).technologies == analysis_of(fs).technologies,
        analysis_of(fs.push(d)).terraform_resources == analysis_of(fs).terraform_resources,
        forall|c: NamingConvention|
            #[trigger] votes_for(fs.push(d), c) == votes_for(fs, c) + if reached(d) && vote_of(
                d.name,
            ) == Some(c) {
                1nat
            } else {
                0nat
            },
{
    let gs = fs.push(d);
    assert(gs.drop_last() == fs);
    assert(gs.last() == d);
    assert forall|t: Technology| tech_found(gs, t) == tech_found(fs, t) by {}
    lemma_listed_unchanged(all_technologies(), fs, gs);
    assert(file_resources(d) == Seq::<(Seq<char>, Seq<char>, Seq<char>)>::empty());
    assert(resources_of(gs) == resources_of(fs) + Seq::<(Seq<char>, Seq<char>, Seq<char>)>::empty());
}

proof fn lemma_listed_unchanged(ts: Seq<Technology>, fs: Seq<RepoEntryView>, gs: Seq<RepoEntryView>)
    requires
        forall|t: Technology| tech_found(gs, t) == tech_found(fs, t),
    ensures
        listed(ts, gs) == listed(ts, fs),
    decreases ts.len(),
{
    if ts.len() > 0 {
        lemma_listed_unchanged(ts.drop_last(), fs, gs);
        assert(tech_found(gs, ts.last()) == tech_found(fs, ts.last()));
    }
}

/// Every Terraform resource of an analysis comes from an analyzed `.tf`
/// file whose contents were read, and has a non-empty type and name
/// without double quotes.
pub proof fn lemma_resources_well_formed(fs: Seq<RepoEntryView>)
    ensures
        forall|k: int|
            0 <= k < resources_of(fs).len() ==> {
                let r = #[trigger] resources_of(fs)[k];
                &&& r.0.len() > 0 && r.1.len() > 0
                &&& !r.0.contains('"') && !r.1.contains('"')
                &&& exists|i: int|
                    0 <= i < fs.len() && counted_file(#[trigger] fs[i]) && has_suffix(fs[i].name, ".tf"@)
                        && fs[i].tf_content is Some && fs[i].rel_path == r.2
            },
    decreases fs.len(),
{
    if fs.len() > 0 {
        let prefix = fs.drop_last();
        let f = fs.last();
        lemma_resources_well_formed(prefix);
        let before = resources_of(prefix);
        let mine = file_resources(f);
        assert(resources_of(fs) == before + mine);
        assert forall|k: int| 0 <= k < resources_of(fs).len() implies {
            let r = #[trigger] resources_of(fs)[k];
            &&& r.0.len() > 0 && r.1.len() > 0
            &&& !r.0.contains('"') && !r.1.contains('"')
            &&& exists|i: int|
                0 <= i < fs.len() && counted_file(#[trigger] fs[i]) && has_suffix(fs[i].name, ".tf"@)
                    && fs[i].tf_content is Some && fs[i].rel_path == r.2
        } by {
            if k < before.len() {
                let r = before[k];
                assert(resources_of(fs)[k] == r);
                let i = choose|i: int|
                    0 <= i < prefix.len() && counted_file(#[trigger] prefix[i]) && has_suffix(
                        prefix[i].name,
                        ".tf"@,
                    ) && prefix[i].tf_content is Some && prefix[i].rel_path == r.2;
                assert(fs[i] == prefix[i]);
            } else {
                let j = k - before.len();
                assert(resources_of(fs)[k] == mine[j]);
                let hs = crate::terraform::resource_headers(f.tf_content->0);
                crate::terraform::lemma_headers_well_formed(f.tf_content->0, 0);
                assert(mine[j] == (hs[j].0, hs[j].1, f.rel_path));
                assert(fs[fs.len() - 1] == f);
            }
        }
    }
}

} // verus!
