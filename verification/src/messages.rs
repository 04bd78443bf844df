//! The rendered texts of a run: commit and tag messages, the confirmation
//! prompt, hook environments, and the substitution texts, all derived from
//! the plans and the run's one date.

use vstd::prelude::*;
use crate::config::Config;
use crate::config::ConfigV;
use crate::config::Replacement;
use crate::config::ReplacementV;
use crate::config::or_default;
use crate::config::repls_view;
use crate::plan::PackageRelease;
use crate::plan::PackageReleaseV;
use crate::template::Template;
use crate::template::TemplateV;
use crate::template::spec_render;

verus! {

/// The version text a plan's actions speak of: the next version when a
/// release is pending, else the current one.
pub open spec fn spec_base_text(p: PackageReleaseV) -> Seq<char> {
    match p.version_string {
        Option::Some(s) => s,
        Option::None => p.prev_version_string,
    }
}

fn base_text(plan: &PackageRelease) -> (r: String)
    ensures
        r@ == spec_base_text(plan@),
{
    match &plan.version_string {
        Option::Some(s) => s.clone(),
        Option::None => plan.prev_version_string.clone(),
    }
}

/// The rendering context of the release pass of one package.
pub open spec fn spec_release_ctx(p: PackageReleaseV, date: Seq<char>) -> TemplateV {
    TemplateV {
        prev_version: Option::Some(p.prev_version_string),
        version: Option::Some(spec_base_text(p)),
        next_version: Option::None,
        crate_name: Option::Some(p.name),
        tag_name: p.tag,
        prefix: Option::None,
        date: Option::Some(date),
    }
}

/// The rendering context of the post-release pass of one package.
pub open spec fn spec_post_ctx(p: PackageReleaseV, date: Seq<char>) -> TemplateV {
    TemplateV {
        prev_version: Option::Some(p.prev_version_string),
        version: Option::Some(spec_base_text(p)),
        next_version: p.post_version_string,
        crate_name: Option::Some(p.name),
        tag_name: p.tag,
        prefix: Option::None,
        date: Option::Some(date),
    }
}

fn release_ctx(plan: &PackageRelease, date: &str) -> (r: Template)
    ensures
        r@ == spec_release_ctx(plan@, date@),
{
    let mut t = Template::new();
    t.prev_version = Option::Some(plan.prev_version_string.clone());
    t.version = Option::Some(base_text(plan));
    t.crate_name = Option::Some(plan.name.clone());
    t.tag_name = match &plan.tag {
        Option::Some(s) => Option::Some(s.clone()),
        Option::None => Option::None,
    };
    t.date = Option::Some(String::from_str(date));
    proof {
        assert(t@ =~= spec_release_ctx(plan@, date@));
    }
    t
}

fn post_ctx(plan: &PackageRelease, date: &str) -> (r: Template)
    ensures
        r@ == spec_post_ctx(plan@, date@),
{
    let mut t = release_ctx(plan, date);
    t.next_version = match &plan.post_version_string {
        Option::Some(s) => Option::Some(s.clone()),
        Option::None => Option::None,
    };
    proof {
        assert(t@ =~= spec_post_ctx(plan@, date@));
    }
    t
}

/// The per-package release commit message.
pub open spec fn spec_release_commit_message(p: PackageReleaseV, date: Seq<char>) -> Seq<char> {
    spec_render(
        or_default(p.config.pre_release_commit_message, "(cargo-release) version {{version}}"@),
        spec_release_ctx(p, date),
    )
}

/// Renders the per-package release commit message.
pub fn release_commit_message(plan: &PackageRelease, date: &str) -> (r: String)
    ensures
        r@ == spec_release_commit_message(plan@, date@),
{
    let t = release_ctx(plan, date);
    let tmpl = plan.config.pre_release_commit_message();
    t.render(tmpl.as_str())
}

/// The per-package post-release commit message.
pub open spec fn spec_post_commit_message(p: PackageReleaseV, date: Seq<char>) -> Seq<char> {
    spec_render(
        or_default(
            p.config.post_release_commit_message,
            "(cargo-release) start next development iteration {{next_version}}"@,
        ),
        spec_post_ctx(p, date),
    )
}

/// Renders the per-package post-release commit message.
pub fn post_commit_message(plan: &PackageRelease, date: &str) -> (r: String)
    ensures
        r@ == spec_post_commit_message(plan@, date@),
{
    let t = post_ctx(plan, date);
    let tmpl = plan.config.post_release_commit_message();
    t.render(tmpl.as_str())
}

/// The date-only context of the workspace-wide commits.
pub open spec fn spec_ws_ctx(date: Seq<char>) -> TemplateV {
    TemplateV {
        prev_version: Option::None,
        version: Option::None,
        next_version: Option::None,
        crate_name: Option::None,
        tag_name: Option::None,
        prefix: Option::None,
        date: Option::Some(date),
    }
}

/// The workspace-wide commit message of either pass.
pub open spec fn spec_ws_commit_message(cfg: ConfigV, date: Seq<char>, post: bool) -> Seq<char> {
    if post {
        spec_render(
            or_default(
                cfg.post_release_commit_message,
                "(cargo-release) start next development iteration {{next_version}}"@,
            ),
            spec_ws_ctx(date),
        )
    } else {
        spec_render(
            or_default(cfg.pre_release_commit_message, "(cargo-release) version {{version}}"@),
            spec_ws_ctx(date),
        )
    }
}

/// Renders the workspace-wide commit message of either pass.
pub fn ws_commit_message(ws_config: &Config, date: &str, post: bool) -> (r: String)
    ensures
        r@ == spec_ws_commit_message(ws_config@, date@, post),
{
    let mut t = Template::new();
    t.date = Option::Some(String::from_str(date));
    proof {
        assert(t@ =~= spec_ws_ctx(date@));
    }
    if post {
        let tmpl = ws_config.post_release_commit_message();
        t.render(tmpl.as_str())
    } else {
        let tmpl = ws_config.pre_release_commit_message();
        t.render(tmpl.as_str())
    }
}

/// The annotated tag's message.
pub open spec fn spec_tag_message(p: PackageReleaseV, date: Seq<char>) -> Seq<char> {
    spec_render(
        or_default(p.config.tag_message, "(cargo-release) {{crate_name}} version {{version}}"@),
        spec_release_ctx(p, date),
    )
}

/// Renders the annotated tag's message.
pub fn tag_message(plan: &PackageRelease, date: &str) -> (r: String)
    ensures
        r@ == spec_tag_message(plan@, date@),
{
    let t = release_ctx(plan, date);
    let tmpl = plan.config.tag_message();
    t.render(tmpl.as_str())
}

/// One environment variable handed to the pre-release hook.
#[derive(Debug)]
pub struct EnvVar {
    pub key: String,
    pub value: String,
}

/// The mathematical value of an [`EnvVar`].
#[verifier::ext_equal]
pub ghost struct EnvVarV {
    pub key: Seq<char>,
    pub value: Seq<char>,
}

impl View for EnvVar {
    type V = EnvVarV;

    open spec fn view(&self) -> EnvVarV {
        EnvVarV { key: self.key@, value: self.value@ }
    }
}

/// The values of an environment list.
pub open spec fn env_view(l: Seq<EnvVar>) -> Seq<EnvVarV> {
    l.map_values(|v: EnvVar| v@)
}

/// The pre-release hook's environment: the versions at stake, the dry-run
/// flag (the hook always runs, and must limit its own side effects under
/// dry run), the crate's name, and the two roots.
pub open spec fn spec_hook_env(
    p: PackageReleaseV,
    ws_root: Seq<char>,
    dry_run: bool,
) -> Seq<EnvVarV> {
    seq![
        EnvVarV { key: "PREV_VERSION"@, value: p.prev_version_string },
        EnvVarV { key: "NEW_VERSION"@, value: spec_base_text(p) },
        EnvVarV {
            key: "DRY_RUN"@,
            value: if dry_run {
                "true"@
            } else {
                "false"@
            },
        },
        EnvVarV { key: "CRATE_NAME"@, value: p.name },
        EnvVarV { key: "WORKSPACE_ROOT"@, value: ws_root },
        EnvVarV { key: "CRATE_ROOT"@, value: p.package_path },
    ]
}

/// Builds the pre-release hook's environment.
pub fn hook_env(plan: &PackageRelease, ws_root: &str, dry_run: bool) -> (r: Vec<EnvVar>)
    ensures
        env_view(r@) == spec_hook_env(plan@, ws_root@, dry_run),
{
    let mut r: Vec<EnvVar> = Vec::new();
    r.push(
        EnvVar {
            key: String::from_str("PREV_VERSION"),
            value: plan.prev_version_string.clone(),
        },
    );
    r.push(EnvVar { key: String::from_str("NEW_VERSION"), value: base_text(plan) });
    r.push(
        EnvVar {
            key: String::from_str("DRY_RUN"),
            value: String::from_str(
                if dry_run {
                    "true"
                } else {
                    "false"
                },
            ),
        },
    );
    r.push(EnvVar { key: String::from_str("CRATE_NAME"), value: plan.name.clone() });
    r.push(EnvVar { key: String::from_str("WORKSPACE_ROOT"), value: String::from_str(ws_root) });
    r.push(EnvVar { key: String::from_str("CRATE_ROOT"), value: plan.package_path.clone() });
    proof {
        assert(env_view(r@) =~= spec_hook_env(plan@, ws_root@, dry_run));
    }
    r
}

/// One line of the multi-package confirmation prompt, from plan `i` on.
pub open spec fn spec_prompt_lines(plans: Seq<PackageRelease>, i: int) -> Seq<char>
    decreases plans.len() - i,
{
    if i < 0 || i >= plans.len() {
        Seq::empty()
    } else {
        "  "@ + plans[i]@.name + " "@ + spec_base_text(plans[i]@) + "\n"@ + spec_prompt_lines(
            plans,
            i + 1,
        )
    }
}

/// The confirmation prompt: one line for a single package, one line per
/// package otherwise.
pub open spec fn spec_confirm_prompt(plans: Seq<PackageRelease>) -> Seq<char> {
    if plans.len() == 1 {
        "Release "@ + plans[0]@.name + " "@ + spec_base_text(plans[0]@) + "?"@
    } else {
        "Release\n"@ + spec_prompt_lines(plans, 0) + "?"@
    }
}

fn prompt_lines(plans: &Vec<PackageRelease>, i: usize) -> (r: String)
    ensures
        r@ == spec_prompt_lines(plans@, i as int),
    decreases plans@.len() - i,
{
    if i >= plans.len() {
        let r = String::new();
        proof {
            assert(r@ =~= spec_prompt_lines(plans@, i as int));
        }
        r
    } else {
        let mut s = String::from_str("  ");
        s.append(plans[i].name.as_str());
        s.append(" ");
        let base = base_text(&plans[i]);
        s.append(base.as_str());
        s.append("\n");
        let rest = prompt_lines(plans, i + 1);
        s.append(rest.as_str());
        proof {
            assert(s@ =~= spec_prompt_lines(plans@, i as int));
        }
        s
    }
}

/// Builds the confirmation prompt, per [`spec_confirm_prompt`].
pub fn confirm_prompt(plans: &Vec<PackageRelease>) -> (r: String)
    ensures
        r@ == spec_confirm_prompt(plans@),
{
    if plans.len() == 1 {
        let mut s = String::from_str("Release ");
        s.append(plans[0].name.as_str());
        s.append(" ");
        let base = base_text(&plans[0]);
        s.append(base.as_str());
        s.append("?");
        proof {
            assert(s@ =~= spec_confirm_prompt(plans@));
        }
        s
    } else {
        let mut s = String::from_str("Release\n");
        let lines = prompt_lines(plans, 0);
        s.append(lines.as_str());
        s.append("?");
        proof {
            assert(s@ =~= spec_confirm_prompt(plans@));
        }
        s
    }
}

/// The substitutions of one pass, with their replacement texts rendered.
pub open spec fn spec_rendered_repls(
    src: Seq<ReplacementV>,
    ctx: TemplateV,
) -> Seq<ReplacementV> {
    src.map_values(
        |x: ReplacementV| ReplacementV {
            file: x.file,
            search: x.search,
            replace: spec_render(x.replace, ctx),
        },
    )
}

/// The source substitution list of one pass.
pub open spec fn spec_repl_source(p: PackageReleaseV, post: bool) -> Seq<ReplacementV> {
    if post {
        or_default(p.config.post_release_replacements, Seq::empty())
    } else {
        or_default(p.config.pre_release_replacements, Seq::empty())
    }
}

/// Renders the configured substitutions of one pass: the file and search
/// texts are kept, the replacement text is rendered against the pass's
/// context.
pub fn rendered_replacements(plan: &PackageRelease, date: &str, post: bool) -> (r: Vec<
    Replacement,
>)
    ensures
        repls_view(r@) == spec_rendered_repls(
            spec_repl_source(plan@, post),
            if post {
                spec_post_ctx(plan@, date@)
            } else {
                spec_release_ctx(plan@, date@)
            },
        ),
{
    let ctx: Template = if post {
        post_ctx(plan, date)
    } else {
        release_ctx(plan, date)
    };
    let src: Vec<Replacement> = if post {
        plan.config.post_release_replacements()
    } else {
        plan.config.pre_release_replacements()
    };
    let ghost srcv = spec_repl_source(plan@, post);
    proof {
        assert(repls_view(src@) == srcv);
        assert(forall|j: int| 0 <= j < src@.len() ==> srcv[j] == src@[j]@);
    }
    let mut out: Vec<Replacement> = Vec::new();
    let mut k: usize = 0;
    while k < src.len()
        invariant
            k <= src@.len(),
            srcv == repls_view(src@),
            srcv.len() == src@.len(),
            forall|j: int| 0 <= j < src@.len() ==> srcv[j] == src@[j]@,
            ctx@ == (if post {
                spec_post_ctx(plan@, date@)
            } else {
                spec_release_ctx(plan@, date@)
            }),
            out@.len() == k,
            forall|j: int| 0 <= j < k ==> out@[j]@ == (ReplacementV {
                file: srcv[j].file,
                search: srcv[j].search,
                replace: spec_render(srcv[j].replace, ctx@),
            }),
        decreases src@.len() - k,
    {
        let rendered = ctx.render(src[k].replace.as_str());
        out.push(
            Replacement {
                file: src[k].file.clone(),
                search: src[k].search.clone(),
                replace: rendered,
            },
        );
        k += 1;
    }
    proof {
        assert(repls_view(out@) =~= spec_rendered_repls(
            srcv,
            if post {
                spec_post_ctx(plan@, date@)
            } else {
                spec_release_ctx(plan@, date@)
            },
        ));
    }
    out
}

} // verus!
