//! Release configuration: an optional-field snapshot, a merge function that
//! layers snapshots from lower to higher priority, and accessors that apply
//! the built-in defaults.

use vstd::prelude::*;
use crate::git::strs_view;
use crate::template::opt_str_view;

verus! {

/// How a dependent's version requirement is reconciled with a new version.
#[derive(Clone, Copy, Debug, PartialEq, Eq, Structural)]
pub enum DependentVersion {
    /// Leave mismatching requirements alone.
    Ignore,
    /// Warn on a mismatch and continue.
    Warn,
    /// Warn on every mismatch, then fail the run.
    Error,
    /// Rewrite a mismatching requirement to accept the new version.
    Fix,
    /// Always rewrite the requirement to the new version.
    Upgrade,
}

/// One configured text substitution in a project file.
#[derive(Debug)]
pub struct Replacement {
    pub file: String,
    pub search: String,
    pub replace: String,
}

/// The mathematical value of a [`Replacement`].
#[verifier::ext_equal]
pub ghost struct ReplacementV {
    pub file: Seq<char>,
    pub search: Seq<char>,
    pub replace: Seq<char>,
}

impl View for Replacement {
    type V = ReplacementV;

    open spec fn view(&self) -> ReplacementV {
        ReplacementV { file: self.file@, search: self.search@, replace: self.replace@ }
    }
}

impl Clone for Replacement {
    fn clone(&self) -> (r: Self)
        ensures
            r@ == self@,
    {
        Replacement {
            file: self.file.clone(),
            search: self.search.clone(),
            replace: self.replace.clone(),
        }
    }
}

/// The values of a replacement list.
pub open spec fn repls_view(l: Seq<Replacement>) -> Seq<ReplacementV> {
    l.map_values(|r: Replacement| r@)
}

/// A configuration snapshot: absent fields defer to lower layers, and in
/// the end to the built-in defaults.
#[derive(Debug)]
pub struct Config {
    pub disable_release: Option<bool>,
    pub sign_commit: Option<bool>,
    pub sign_tag: Option<bool>,
    pub push_remote: Option<String>,
    pub registry: Option<String>,
    pub disable_publish: Option<bool>,
    pub disable_push: Option<bool>,
    pub dev_version_ext: Option<String>,
    pub no_dev_version: Option<bool>,
    pub tag_prefix: Option<String>,
    pub tag_name: Option<String>,
    pub tag_message: Option<String>,
    pub disable_tag: Option<bool>,
    pub enable_features: Option<Vec<String>>,
    pub enable_all_features: Option<bool>,
    pub dependent_version: Option<DependentVersion>,
    pub pre_release_commit_message: Option<String>,
    pub post_release_commit_message: Option<String>,
    pub pre_release_replacements: Option<Vec<Replacement>>,
    pub post_release_replacements: Option<Vec<Replacement>>,
    pub pre_release_hook: Option<Vec<String>>,
    pub exclude_paths: Option<Vec<String>>,
    pub consolidate_commits: Option<bool>,
    pub consolidate_pushes: Option<bool>,
}

/// The mathematical value of a [`Config`].
#[verifier::ext_equal]
pub ghost struct ConfigV {
    pub disable_release: Option<bool>,
    pub sign_commit: Option<bool>,
    pub sign_tag: Option<bool>,
    pub push_remote: Option<Seq<char>>,
    pub registry: Option<Seq<char>>,
    pub disable_publish: Option<bool>,
    pub disable_push: Option<bool>,
    pub dev_version_ext: Option<Seq<char>>,
    pub no_dev_version: Option<bool>,
    pub tag_prefix: Option<Seq<char>>,
    pub tag_name: Option<Seq<char>>,
    pub tag_message: Option<Seq<char>>,
    pub disable_tag: Option<bool>,
    pub enable_features: Option<Seq<Seq<char>>>,
    pub enable_all_features: Option<bool>,
    pub dependent_version: Option<DependentVersion>,
    pub pre_release_commit_message: Option<Seq<char>>,
    pub post_release_commit_message: Option<Seq<char>>,
    pub pre_release_replacements: Option<Seq<ReplacementV>>,
    pub post_release_replacements: Option<Seq<ReplacementV>>,
    pub pre_release_hook: Option<Seq<Seq<char>>>,
    pub exclude_paths: Option<Seq<Seq<char>>>,
    pub consolidate_commits: Option<bool>,
    pub consolidate_pushes: Option<bool>,
}

/// The value of an optional string list.
pub open spec fn opt_strs_view(o: Option<Vec<String>>) -> Option<Seq<Seq<char>>> {
    match o {
        Option::Some(l) => Option::Some(strs_view(l@)),
        Option::None => Option::None,
    }
}

/// The value of an optional replacement list.
pub open spec fn opt_repls_view(o: Option<Vec<Replacement>>) -> Option<Seq<ReplacementV>> {
    match o {
        Option::Some(l) => Option::Some(repls_view(l@)),
        Option::None => Option::None,
    }
}

impl View for Config {
    type V = ConfigV;

    open spec fn view(&self) -> ConfigV {
        ConfigV {
            disable_release: self.disable_release,
            sign_commit: self.sign_commit,
            sign_tag: self.sign_tag,
            push_remote: opt_str_view(self.push_remote),
            registry: opt_str_view(self.registry),
            disable_publish: self.disable_publish,
            disable_push: self.disable_push,
            dev_version_ext: opt_str_view(self.dev_version_ext),
            no_dev_version: self.no_dev_version,
            tag_prefix: opt_str_view(self.tag_prefix),
            tag_name: opt_str_view(self.tag_name),
            tag_message: opt_str_view(self.tag_message),
            disable_tag: self.disable_tag,
            enable_features: opt_strs_view(self.enable_features),
            enable_all_features: self.enable_all_features,
            dependent_version: self.dependent_version,
            pre_release_commit_message: opt_str_view(self.pre_release_commit_message),
            post_release_commit_message: opt_str_view(self.post_release_commit_message),
            pre_release_replacements: opt_repls_view(self.pre_release_replacements),
            post_release_replacements: opt_repls_view(self.post_release_replacements),
            pre_release_hook: opt_strs_view(self.pre_release_hook),
            exclude_paths: opt_strs_view(self.exclude_paths),
            consolidate_commits: self.consolidate_commits,
            consolidate_pushes: self.consolidate_pushes,
        }
    }
}

/// The overlay of two optional values: the higher-priority one when present.
pub open spec fn ov<T>(hi: Option<T>, lo: Option<T>) -> Option<T> {
    match hi {
        Option::Some(v) => Option::Some(v),
        Option::None => lo,
    }
}

/// The merge of a lower-priority snapshot with a higher-priority one,
/// field by field.
pub open spec fn spec_merge(lo: ConfigV, hi: ConfigV) -> ConfigV {
    ConfigV {
        disable_release: ov(hi.disable_release, lo.disable_release),
        sign_commit: ov(hi.sign_commit, lo.sign_commit),
        sign_tag: ov(hi.sign_tag, lo.sign_tag),
        push_remote: ov(hi.push_remote, lo.push_remote),
        registry: ov(hi.registry, lo.registry),
        disable_publish: ov(hi.disable_publish, lo.disable_publish),
        disable_push: ov(hi.disable_push, lo.disable_push),
        dev_version_ext: ov(hi.dev_version_ext, lo.dev_version_ext),
        no_dev_version: ov(hi.no_dev_version, lo.no_dev_version),
        tag_prefix: ov(hi.tag_prefix, lo.tag_prefix),
        tag_name: ov(hi.tag_name, lo.tag_name),
        tag_message: ov(hi.tag_message, lo.tag_message),
        disable_tag: ov(hi.disable_tag, lo.disable_tag),
        enable_features: ov(hi.enable_features, lo.enable_features),
        enable_all_features: ov(hi.enable_all_features, lo.enable_all_features),
        dependent_version: ov(hi.dependent_version, lo.dependent_version),
        pre_release_commit_message: ov(
            hi.pre_release_commit_message,
            lo.pre_release_commit_message,
        ),
        post_release_commit_message: ov(
            hi.post_release_commit_message,
            lo.post_release_commit_message,
        ),
        pre_release_replacements: ov(hi.pre_release_replacements, lo.pre_release_replacements),
        post_release_replacements: ov(hi.post_release_replacements, lo.post_release_replacements),
        pre_release_hook: ov(hi.pre_release_hook, lo.pre_release_hook),
        exclude_paths: ov(hi.exclude_paths, lo.exclude_paths),
        consolidate_commits: ov(hi.consolidate_commits, lo.consolidate_commits),
        consolidate_pushes: ov(hi.consolidate_pushes, lo.consolidate_pushes),
    }
}

fn ov_copy<T: Copy>(hi: Option<T>, lo: Option<T>) -> (r: Option<T>)
    ensures
        r == ov(hi, lo),
{
    match hi {
        Option::Some(v) => Option::Some(v),
        Option::None => lo,
    }
}

fn ov_str(hi: &Option<String>, lo: &Option<String>) -> (r: Option<String>)
    ensures
        opt_str_view(r) == ov(opt_str_view(*hi), opt_str_view(*lo)),
{
    match hi {
        Option::Some(s) => Option::Some(s.clone()),
        Option::None => clone_opt_str(lo),
    }
}

fn ov_strs(hi: &Option<Vec<String>>, lo: &Option<Vec<String>>) -> (r: Option<Vec<String>>)
    ensures
        opt_strs_view(r) == ov(opt_strs_view(*hi), opt_strs_view(*lo)),
{
    match hi {
        Option::Some(l) => Option::Some(clone_strs(l)),
        Option::None => clone_opt_strs(lo),
    }
}

fn ov_repls(hi: &Option<Vec<Replacement>>, lo: &Option<Vec<Replacement>>) -> (r: Option<
    Vec<Replacement>,
>)
    ensures
        opt_repls_view(r) == ov(opt_repls_view(*hi), opt_repls_view(*lo)),
{
    match hi {
        Option::Some(l) => Option::Some(clone_repls(l)),
        Option::None => clone_opt_repls(lo),
    }
}

fn clone_opt_str(o: &Option<String>) -> (r: Option<String>)
    ensures
        opt_str_view(r) == opt_str_view(*o),
{
    match o {
        Option::Some(s) => Option::Some(s.clone()),
        Option::None => Option::None,
    }
}

/// Clones a string list, preserving its values.
pub fn clone_strs(l: &Vec<String>) -> (r: Vec<String>)
    ensures
        strs_view(r@) == strs_view(l@),
        r@.len() == l@.len(),
{
    let mut out: Vec<String> = Vec::new();
    let mut k: usize = 0;
    while k < l.len()
        invariant
            k <= l@.len(),
            out@.len() == k,
            forall|i: int| 0 <= i < k ==> out@[i]@ == l@[i]@,
        decreases l@.len() - k,
    {
        out.push(l[k].clone());
        k += 1;
    }
    proof {
        assert(strs_view(out@) =~= strs_view(l@));
    }
    out
}

fn clone_opt_strs(o: &Option<Vec<String>>) -> (r: Option<Vec<String>>)
    ensures
        opt_strs_view(r) == opt_strs_view(*o),
{
    match o {
        Option::Some(l) => Option::Some(clone_strs(l)),
        Option::None => Option::None,
    }
}

/// Clones a replacement list, preserving its values.
pub fn clone_repls(l: &Vec<Replacement>) -> (r: Vec<Replacement>)
    ensures
        repls_view(r@) == repls_view(l@),
        r@.len() == l@.len(),
{
    let mut out: Vec<Replacement> = Vec::new();
    let mut k: usize = 0;
    while k < l.len()
        invariant
            k <= l@.len(),
            out@.len() == k,
            forall|i: int| 0 <= i < k ==> out@[i]@ == l@[i]@,
        decreases l@.len() - k,
    {
        out.push(l[k].clone());
        k += 1;
    }
    proof {
        assert(repls_view(out@) =~= repls_view(l@));
    }
    out
}

fn clone_opt_repls(o: &Option<Vec<Replacement>>) -> (r: Option<Vec<Replacement>>)
    ensures
        opt_repls_view(r) == opt_repls_view(*o),
{
    match o {
        Option::Some(l) => Option::Some(clone_repls(l)),
        Option::None => Option::None,
    }
}

impl Config {
    /// A snapshot with every field absent.
    pub fn new() -> (r: Config)
        ensures
            r@ == empty_config(),
    {
        let r = Config {
            disable_release: Option::None,
            sign_commit: Option::None,
            sign_tag: Option::None,
            push_remote: Option::None,
            registry: Option::None,
            disable_publish: Option::None,
            disable_push: Option::None,
            dev_version_ext: Option::None,
            no_dev_version: Option::None,
            tag_prefix: Option::None,
            tag_name: Option::None,
            tag_message: Option::None,
            disable_tag: Option::None,
            enable_features: Option::None,
            enable_all_features: Option::None,
            dependent_version: Option::None,
            pre_release_commit_message: Option::None,
            post_release_commit_message: Option::None,
            pre_release_replacements: Option::None,
            post_release_replacements: Option::None,
            pre_release_hook: Option::None,
            exclude_paths: Option::None,
            consolidate_commits: Option::None,
            consolidate_pushes: Option::None,
        };
        proof {
            assert(r@ =~= empty_config());
        }
        r
    }

    /// Overlays `other` (higher priority) onto this snapshot.
    pub fn update(&mut self, other: &Config)
        ensures
            final(self)@ == spec_merge(old(self)@, other@),
    {
        self.disable_release = ov_copy(other.disable_release, self.disable_release);
        self.sign_commit = ov_copy(other.sign_commit, self.sign_commit);
        self.sign_tag = ov_copy(other.sign_tag, self.sign_tag);
        self.push_remote = ov_str(&other.push_remote, &self.push_remote);
        self.registry = ov_str(&other.registry, &self.registry);
        self.disable_publish = ov_copy(other.disable_publish, self.disable_publish);
        self.disable_push = ov_copy(other.disable_push, self.disable_push);
        self.dev_version_ext = ov_str(&other.dev_version_ext, &self.dev_version_ext);
        self.no_dev_version = ov_copy(other.no_dev_version, self.no_dev_version);
        self.tag_prefix = ov_str(&other.tag_prefix, &self.tag_prefix);
        self.tag_name = ov_str(&other.tag_name, &self.tag_name);
        self.tag_message = ov_str(&other.tag_message, &self.tag_message);
        self.disable_tag = ov_copy(other.disable_tag, self.disable_tag);
        self.enable_features = ov_strs(&other.enable_features, &self.enable_features);
        self.enable_all_features = ov_copy(other.enable_all_features, self.enable_all_features);
        self.dependent_version = ov_copy(other.dependent_version, self.dependent_version);
        self.pre_release_commit_message = ov_str(
            &other.pre_release_commit_message,
            &self.pre_release_commit_message,
        );
        self.post_release_commit_message = ov_str(
            &other.post_release_commit_message,
            &self.post_release_commit_message,
        );
        self.pre_release_replacements = ov_repls(
            &other.pre_release_replacements,
            &self.pre_release_replacements,
        );
        self.post_release_replacements = ov_repls(
            &other.post_release_replacements,
            &self.post_release_replacements,
        );
        self.pre_release_hook = ov_strs(&other.pre_release_hook, &self.pre_release_hook);
        self.exclude_paths = ov_strs(&other.exclude_paths, &self.exclude_paths);
        self.consolidate_commits = ov_copy(other.consolidate_commits, self.consolidate_commits);
        self.consolidate_pushes = ov_copy(other.consolidate_pushes, self.consolidate_pushes);
        proof {
            assert(self@ =~= spec_merge(old(self)@, other@));
        }
    }
}

/// The snapshot with every field absent.
pub open spec fn empty_config() -> ConfigV {
    ConfigV {
        disable_release: Option::None,
        sign_commit: Option::None,
        sign_tag: Option::None,
        push_remote: Option::None,
        registry: Option::None,
        disable_publish: Option::None,
        disable_push: Option::None,
        dev_version_ext: Option::None,
        no_dev_version: Option::None,
        tag_prefix: Option::None,
        tag_name: Option::None,
        tag_message: Option::None,
        disable_tag: Option::None,
        enable_features: Option::None,
        enable_all_features: Option::None,
        dependent_version: Option::None,
        pre_release_commit_message: Option::None,
        post_release_commit_message: Option::None,
        pre_release_replacements: Option::None,
        post_release_replacements: Option::None,
        pre_release_hook: Option::None,
        exclude_paths: Option::None,
        consolidate_commits: Option::None,
        consolidate_pushes: Option::None,
    }
}

/// An option's value, or a default.
pub open spec fn or_default<T>(o: Option<T>, d: T) -> T {
    match o {
        Option::Some(v) => v,
        Option::None => d,
    }
}

impl Config {
    /// Whether releasing is disabled outright for this package.
    pub fn disable_release(&self) -> (r: bool)
        ensures
            r == or_default(self@.disable_release, false),
    {
        match self.disable_release {
            Option::Some(b) => b,
            Option::None => false,
        }
    }

    /// Whether commits are signed.
    pub fn sign_commit(&self) -> (r: bool)
        ensures
            r == or_default(self@.sign_commit, false),
    {
        match self.sign_commit {
            Option::Some(b) => b,
            Option::None => false,
        }
    }

    /// Whether tags are signed.
    pub fn sign_tag(&self) -> (r: bool)
        ensures
            r == or_default(self@.sign_tag, false),
    {
        match self.sign_tag {
            Option::Some(b) => b,
            Option::None => false,
        }
    }

    /// The remote to push to; `origin` by default.
    pub fn push_remote(&self) -> (r: String)
        ensures
            r@ == or_default(self@.push_remote, "origin"@),
    {
        match &self.push_remote {
            Option::Some(s) => s.clone(),
            Option::None => String::from_str("origin"),
        }
    }

    /// The registry to publish to; absent means the default public one.
    pub fn registry(&self) -> (r: Option<String>)
        ensures
            opt_str_view(r) == self@.registry,
    {
        clone_opt_str(&self.registry)
    }

    /// Whether publishing is disabled.
    pub fn disable_publish(&self) -> (r: bool)
        ensures
            r == or_default(self@.disable_publish, false),
    {
        match self.disable_publish {
            Option::Some(b) => b,
            Option::None => false,
        }
    }

    /// Whether pushing is disabled.
    pub fn disable_push(&self) -> (r: bool)
        ensures
            r == or_default(self@.disable_push, false),
    {
        match self.disable_push {
            Option::Some(b) => b,
            Option::None => false,
        }
    }

    /// The development suffix for post-release versions; `alpha` by default.
    pub fn dev_version_ext(&self) -> (r: String)
        ensures
            r@ == or_default(self@.dev_version_ext, "alpha"@),
    {
        match &self.dev_version_ext {
            Option::Some(s) => s.clone(),
            Option::None => String::from_str("alpha"),
        }
    }

    /// Whether the post-release development bump is disabled.
    pub fn no_dev_version(&self) -> (r: bool)
        ensures
            r == or_default(self@.no_dev_version, false),
    {
        match self.no_dev_version {
            Option::Some(b) => b,
            Option::None => false,
        }
    }

    /// The tag-prefix template: empty for the workspace root, the crate
    /// name and a dash for sub-packages, unless overridden.
    pub fn tag_prefix(&self, is_root: bool) -> (r: String)
        ensures
            r@ == or_default(
                self@.tag_prefix,
                if is_root {
                    ""@
                } else {
                    "{{crate_name}}-"@
                },
            ),
    {
        match &self.tag_prefix {
            Option::Some(s) => s.clone(),
            Option::None => {
                if is_root {
                    String::from_str("")
                } else {
                    String::from_str("{{crate_name}}-")
                }
            },
        }
    }

    /// The tag-name template.
    pub fn tag_name(&self) -> (r: String)
        ensures
            r@ == or_default(self@.tag_name, "{{prefix}}v{{version}}"@),
    {
        match &self.tag_name {
            Option::Some(s) => s.clone(),
            Option::None => String::from_str("{{prefix}}v{{version}}"),
        }
    }

    /// The tag-message template.
    pub fn tag_message(&self) -> (r: String)
        ensures
            r@ == or_default(self@.tag_message, "(cargo-release) {{crate_name}} version {{version}}"@),
    {
        match &self.tag_message {
            Option::Some(s) => s.clone(),
            Option::None => String::from_str("(cargo-release) {{crate_name}} version {{version}}"),
        }
    }

    /// Whether tagging is disabled.
    pub fn disable_tag(&self) -> (r: bool)
        ensures
            r == or_default(self@.disable_tag, false),
    {
        match self.disable_tag {
            Option::Some(b) => b,
            Option::None => false,
        }
    }

    /// The explicitly selected features; empty by default.
    pub fn enable_features(&self) -> (r: Vec<String>)
        ensures
            strs_view(r@) == or_default(self@.enable_features, Seq::empty()),
    {
        match &self.enable_features {
            Option::Some(l) => clone_strs(l),
            Option::None => {
                let r: Vec<String> = Vec::new();
                proof {
                    assert(strs_view(r@) =~= Seq::<Seq<char>>::empty());
                }
                r
            },
        }
    }

    /// Whether all features are enabled.
    pub fn enable_all_features(&self) -> (r: bool)
        ensures
            r == or_default(self@.enable_all_features, false),
    {
        match self.enable_all_features {
            Option::Some(b) => b,
            Option::None => false,
        }
    }

    /// The dependent-version policy; `Upgrade` by default.
    pub fn dependent_version(&self) -> (r: DependentVersion)
        ensures
            r == or_default(self@.dependent_version, DependentVersion::Upgrade),
    {
        match self.dependent_version {
            Option::Some(p) => p,
            Option::None => DependentVersion::Upgrade,
        }
    }

    /// The release commit-message template.
    pub fn pre_release_commit_message(&self) -> (r: String)
        ensures
            r@ == or_default(self@.pre_release_commit_message, "(cargo-release) version {{version}}"@),
    {
        match &self.pre_release_commit_message {
            Option::Some(s) => s.clone(),
            Option::None => String::from_str("(cargo-release) version {{version}}"),
        }
    }

    /// The post-release commit-message template.
    pub fn post_release_commit_message(&self) -> (r: String)
        ensures
            r@ == or_default(
                self@.post_release_commit_message,
                "(cargo-release) start next development iteration {{next_version}}"@,
            ),
    {
        match &self.post_release_commit_message {
            Option::Some(s) => s.clone(),
            Option::None => String::from_str(
                "(cargo-release) start next development iteration {{next_version}}",
            ),
        }
    }

    /// The release-time text substitutions; empty by default.
    pub fn pre_release_replacements(&self) -> (r: Vec<Replacement>)
        ensures
            repls_view(r@) == or_default(self@.pre_release_replacements, Seq::empty()),
    {
        match &self.pre_release_replacements {
            Option::Some(l) => clone_repls(l),
            Option::None => {
                let r: Vec<Replacement> = Vec::new();
                proof {
                    assert(repls_view(r@) =~= Seq::<ReplacementV>::empty());
                }
                r
            },
        }
    }

    /// The post-release text substitutions; empty by default.
    pub fn post_release_replacements(&self) -> (r: Vec<Replacement>)
        ensures
            repls_view(r@) == or_default(self@.post_release_replacements, Seq::empty()),
    {
        match &self.post_release_replacements {
            Option::Some(l) => clone_repls(l),
            Option::None => {
                let r: Vec<Replacement> = Vec::new();
                proof {
                    assert(repls_view(r@) =~= Seq::<ReplacementV>::empty());
                }
                r
            },
        }
    }

    /// The pre-release hook command, when configured.
    pub fn pre_release_hook(&self) -> (r: Option<Vec<String>>)
        ensures
            opt_strs_view(r) == self@.pre_release_hook,
    {
        clone_opt_strs(&self.pre_release_hook)
    }

    /// The configured path-exclusion globs, when any.
    pub fn exclude_paths(&self) -> (r: Option<Vec<String>>)
        ensures
            opt_strs_view(r) == self@.exclude_paths,
    {
        clone_opt_strs(&self.exclude_paths)
    }

    /// Whether one commit covers the whole workspace.
    pub fn consolidate_commits(&self) -> (r: bool)
        ensures
            r == or_default(self@.consolidate_commits, false),
    {
        match self.consolidate_commits {
            Option::Some(b) => b,
            Option::None => false,
        }
    }

    /// Whether one push covers the whole workspace.
    pub fn consolidate_pushes(&self) -> (r: bool)
        ensures
            r == or_default(self@.consolidate_pushes, false),
    {
        match self.consolidate_pushes {
            Option::Some(b) => b,
            Option::None => false,
        }
    }
}

impl Default for Config {
    /// The empty snapshot.
    fn default() -> (r: Config)
        ensures
            r@ == empty_config(),
    {
        Config::new()
    }
}

} // verus!
