//! The skills install step: the one scope question, the arguments handed to
//! the `skills` npx installer, and what its listing says is installed.

use vstd::prelude::*;
use crate::text::{decimal, field_view, join, strictly_sorted, views};

verus! {

/// The source passed to `skills add`: the repo's user-facing `skills/`
/// directory, so contributor-only skills at the repo root never reach users.
pub const SKILLS_SOURCE: &'static str = "coralogix/cx-cli/skills";

/// The source the installer records for skills installed from this repo
/// (the repo slug, without the directory).
pub const INSTALLED_SOURCE: &'static str = "coralogix/cx-cli";

/// The command a user can run by hand when the install fails.
pub const MANUAL_INSTALL_CMD: &'static str = "npx skills add coralogix/cx-cli/skills";

/// Where to review the installed skills and their risk assessments.
pub const SKILLS_REVIEW_URL: &'static str = "https://skills.sh/coralogix/cx-cli";

/// How many skill names the summary shows.
pub const SUMMARY_SHOWN: usize = 3;

/// Where the installer puts skills: the user's home (`~/`) or the project (`./`).
#[derive(Debug, Clone, Copy, PartialEq, Eq, Structural)]
pub enum SkillsScope {
    Global,
    Local,
}

pub struct InstallOptions {
    /// Scope from `--global` / `--local`; `None` asks interactively.
    pub scope: Option<SkillsScope>,
    /// Agents passed through to the installer's `-a` (in place of its own detection).
    pub agents: Vec<String>,
}

/// Whether the install can go ahead, and with which scope.
#[derive(Debug, PartialEq, Eq)]
pub enum Preflight {
    Fail(String),
    /// `scope` is `None` when it still needs to be asked.
    Proceed { scope: Option<SkillsScope> },
}

pub const NO_NPX_MESSAGE: &'static str =
    "Node.js/npx is required to install the cx agent skills.\nInstall Node.js (https://nodejs.org) and rerun, or skip the skills install.";

pub const NO_SCOPE_MESSAGE: &'static str = "no skills install scope - pass --global or --local";

/// Without npx nothing can be installed; without a scope and without a
/// terminal to ask on, the flags must name one.
pub fn preflight(npx_available: bool, scope: Option<SkillsScope>, stdin_is_terminal: bool) -> (r:
    Preflight)
    ensures
        !npx_available ==> (r matches Preflight::Fail(m) && m@ == NO_NPX_MESSAGE@),
        npx_available && scope is None && !stdin_is_terminal ==> (r matches Preflight::Fail(m)
            && m@ == NO_SCOPE_MESSAGE@),
        npx_available && (scope is Some || stdin_is_terminal) ==> r == (Preflight::Proceed {
            scope,
        }),
{
    if !npx_available {
        return Preflight::Fail(crate::text::owned(NO_NPX_MESSAGE));
    }
    if scope.is_none() && !stdin_is_terminal {
        return Preflight::Fail(crate::text::owned(NO_SCOPE_MESSAGE));
    }
    Preflight::Proceed { scope }
}

/// The arguments of the fully non-interactive install: npx's own `-y`,
/// `skills add <source> --skill * -y`, then `-g` for the global scope and
/// `-a <agents...>` when agents are given.
pub open spec fn spec_install_args(scope: SkillsScope, agents: Seq<Seq<char>>) -> Seq<Seq<char>> {
    let base = seq!["-y"@, "skills"@, "add"@, SKILLS_SOURCE@, "--skill"@, "*"@, "-y"@];
    let scoped = if scope == SkillsScope::Global {
        base.push("-g"@)
    } else {
        base
    };
    if agents.len() > 0 {
        scoped.push("-a"@) + agents
    } else {
        scoped
    }
}

/// Arguments for the fully non-interactive install.
pub fn build_install_args(scope: SkillsScope, agents: &[String]) -> (r: Vec<String>)
    ensures
        views(r@) == spec_install_args(scope, views(agents@)),
{
    let mut args: Vec<String> = Vec::new();
    args.push(crate::text::owned("-y"));
    args.push(crate::text::owned("skills"));
    args.push(crate::text::owned("add"));
    args.push(crate::text::owned(SKILLS_SOURCE));
    args.push(crate::text::owned("--skill"));
    args.push(crate::text::owned("*"));
    args.push(crate::text::owned("-y"));
    let ghost base = seq!["-y"@, "skills"@, "add"@, SKILLS_SOURCE@, "--skill"@, "*"@, "-y"@];
    assert(views(args@) =~= base);
    if scope == SkillsScope::Global {
        args.push(crate::text::owned("-g"));
    }
    let ghost scoped = views(args@);
    assert(scoped =~= (if scope == SkillsScope::Global {
        base.push("-g"@)
    } else {
        base
    }));
    if agents.len() > 0 {
        args.push(crate::text::owned("-a"));
        let ghost head = views(args@);
        let n = agents.len();
        for i in 0..n
            invariant
                n == agents@.len(),
                head == scoped.push("-a"@),
                views(args@) == head + views(agents@.take(i as int)),
        {
            let ghost before = args@;
            let a = crate::text::owned(agents[i].as_str());
            args.push(a);
            proof {
                crate::text::lemma_views_push(before, a);
                crate::text::lemma_views_push(agents@.take(i as int), agents@[i as int]);
                assert(agents@.take((i + 1) as int) =~= agents@.take(i as int).push(agents@[i as int]));
            }
            assert(views(args@) =~= head + views(agents@.take((i + 1) as int)));
        }
        assert(agents@.take(n as int) =~= agents@);
    }
    args
}

/// `"{count} skills: {first three names}"`, with `", ..."` when there are
/// more.
pub open spec fn spec_installed_summary(installed: Seq<Seq<char>>) -> Seq<char> {
    let shown = if installed.len() > SUMMARY_SHOWN {
        installed.take(SUMMARY_SHOWN as int)
    } else {
        installed
    };
    decimal(installed.len() as int) + " skills: "@ + join(shown, ", "@) + (if installed.len()
        > SUMMARY_SHOWN {
        ", ..."@
    } else {
        ""@
    })
}

/// e.g. `3 skills: cx-alerts, cx-dashboards, cx-logs`.
pub fn installed_summary(installed: &[String]) -> (r: String)
    ensures
        r@ == spec_installed_summary(views(installed@)),
{
    proof {
        reveal_strlit("");
    }
    let n = installed.len();
    let mut shown: Vec<String> = Vec::new();
    let m = if n > SUMMARY_SHOWN {
        SUMMARY_SHOWN
    } else {
        n
    };
    for i in 0..m
        invariant
            m <= n,
            n == installed@.len(),
            views(shown@) == views(installed@.take(i as int)),
    {
        let ghost before = shown@;
        let a = crate::text::owned(installed[i].as_str());
        shown.push(a);
        proof {
            crate::text::lemma_views_push(before, a);
            crate::text::lemma_views_push(installed@.take(i as int), installed@[i as int]);
            assert(installed@.take((i + 1) as int) =~= installed@.take(i as int).push(
                installed@[i as int],
            ));
        }
        assert(views(shown@) =~= views(installed@.take((i + 1) as int)));
    }
    assert(views(installed@.take(m as int)) == (if views(installed@).len() > SUMMARY_SHOWN {
        views(installed@).take(SUMMARY_SHOWN as int)
    } else {
        views(installed@)
    })) by {
        if n > SUMMARY_SHOWN {
            assert(views(installed@.take(m as int)) =~= views(installed@).take(m as int));
        } else {
            assert(installed@.take(m as int) =~= installed@);
        }
    }
    let mut r = crate::text::decimal_usize(n);
    r.append(" skills: ");
    let names = crate::text::join_strings(&shown, ", ");
    r.append(names.as_str());
    if n > SUMMARY_SHOWN {
        r.append(", ...");
    } else {
        r.append("");
    }
    r
}

/// The compact line shown after an install: the count when the listing
/// found the skills, and where to review them.
pub open spec fn spec_install_summary_line(scope: SkillsScope, count: nat) -> Seq<char> {
    let label = if scope == SkillsScope::Global {
        "global"@
    } else {
        "local"@
    };
    if count > 0 {
        "✓ Installed "@ + decimal(count as int) + " cx agent skills ("@ + label
            + "). Review before use: "@ + SKILLS_REVIEW_URL@
    } else {
        "✓ cx agent skills installed ("@ + label + "). Review before use: "@ + SKILLS_REVIEW_URL@
    }
}

/// The line shown after a successful non-interactive install.
pub fn install_summary_line(scope: SkillsScope, count: usize) -> (r: String)
    ensures
        r@ == spec_install_summary_line(scope, count as nat),
{
    let label = match scope {
        SkillsScope::Global => "global",
        SkillsScope::Local => "local",
    };
    if count > 0 {
        let mut r = crate::text::owned("✓ Installed ");
        r.append(crate::text::decimal_usize(count).as_str());
        r.append(" cx agent skills (");
        r.append(label);
        r.append("). Review before use: ");
        r.append(SKILLS_REVIEW_URL);
        r
    } else {
        let mut r = crate::text::owned("✓ cx agent skills installed (");
        r.append(label);
        r.append("). Review before use: ");
        r.append(SKILLS_REVIEW_URL);
        r
    }
}

/// The labels of the scope question, global first.
pub const GLOBAL_SCOPE_LABEL: &'static str = "Global (~/) - available in every project";

pub const LOCAL_SCOPE_LABEL: &'static str = "Local (./) - this project only";

/// The scope a chosen label stands for.
pub fn scope_from_choice(label: &str) -> (r: SkillsScope)
    ensures
        r == (if label@ == GLOBAL_SCOPE_LABEL@ {
            SkillsScope::Global
        } else {
            SkillsScope::Local
        }),
{
    if crate::text::chars_eq_str(&crate::text::chars_of(label), GLOBAL_SCOPE_LABEL) {
        SkillsScope::Global
    } else {
        SkillsScope::Local
    }
}

/// `npx` resolves through a `.cmd` shim on Windows; the process runner needs
/// the real file name there.
pub fn npx_program(windows: bool) -> (r: &'static str)
    ensures
        r@ == (if windows {
            "npx.cmd"@
        } else {
            "npx"@
        }),
{
    if windows {
        "npx.cmd"
    } else {
        "npx"
    }
}

/// The arguments of the installer's listing for a scope.
pub fn list_args(scope: SkillsScope) -> (r: Vec<&'static str>)
    ensures
        scope == SkillsScope::Global ==> r@.len() == 5 && r@[0]@ == "-y"@ && r@[1]@ == "skills"@
            && r@[2]@ == "ls"@ && r@[3]@ == "-g"@ && r@[4]@ == "--json"@,
        scope == SkillsScope::Local ==> r@.len() == 4 && r@[0]@ == "-y"@ && r@[1]@ == "skills"@
            && r@[2]@ == "ls"@ && r@[3]@ == "--json"@,
{
    match scope {
        SkillsScope::Global => vec!["-y", "skills", "ls", "-g", "--json"],
        SkillsScope::Local => vec!["-y", "skills", "ls", "--json"],
    }
}

/// Whether cx skills are present, for `cx init` to skip the step on a
/// re-run: never without npx; in the given scope; or, when none is given yet,
/// in either. `installed_global` and `installed_local` say whether the
/// installer's listing found cx skills there.
pub fn cx_skills_present(
    scope: Option<SkillsScope>,
    npx_available: bool,
    installed_global: bool,
    installed_local: bool,
) -> (r: bool)
    ensures
        r == (npx_available && match scope {
            Some(SkillsScope::Global) => installed_global,
            Some(SkillsScope::Local) => installed_local,
            None => installed_global || installed_local,
        }),
{
    if !npx_available {
        return false;
    }
    match scope {
        Some(SkillsScope::Global) => installed_global,
        Some(SkillsScope::Local) => installed_local,
        None => installed_global || installed_local,
    }
}

// ── The installer's listing ──────────────────────────────────────────────────

/// One entry of `skills ls --json`; other fields are ignored.
#[derive(Debug)]
pub struct LsSkill {
    pub name: String,
    pub source: Option<String>,
}

/// Whether the skill came from this repo.
pub open spec fn is_ours(s: LsSkill) -> bool {
    field_view(s.source) == Some(INSTALLED_SOURCE@)
}

/// The names of our skills, as a set.
pub open spec fn our_names(skills: Seq<LsSkill>) -> Set<Seq<char>> {
    Set::new(
        |n: Seq<char>|
            exists|i: int| 0 <= i < skills.len() && is_ours(#[trigger] skills[i]) && skills[i].name@ == n,
    )
}

/// The names of the skills the listing attributes to this repo, each once,
/// in ascending order.
pub fn our_skill_names(skills: &[LsSkill]) -> (r: Vec<String>)
    ensures
        strictly_sorted(views(r@)),
        views(r@).to_set() == our_names(skills@),
{
    let mut names: Vec<String> = Vec::new();
    let n = skills.len();
    proof {
    }
    assert(views(names@).to_set() =~= our_names(skills@.take(0)));
    for i in 0..n
        invariant
            n == skills@.len(),
            strictly_sorted(views(names@)),
            views(names@).to_set() == our_names(skills@.take(i as int)),
    {
        let s = &skills[i];
        let ours = match &s.source {
            Some(src) => crate::text::chars_eq_str(&crate::text::chars_of(src.as_str()), INSTALLED_SOURCE),
            None => false,
        };
        let ghost prev = views(names@).to_set();
        if ours {
            crate::text::insert_sorted(&mut names, s.name.as_str());
        }
        assert(views(names@).to_set() =~= our_names(skills@.take((i + 1) as int))) by {
            assert forall|x: Seq<char>| #[trigger] our_names(skills@.take((i + 1) as int)).contains(x) <==> (
            if ours {
                prev.insert(s.name@)
            } else {
                prev
            }).contains(x) by {
                if our_names(skills@.take((i + 1) as int)).contains(x) {
                    let k = choose|k: int|
                        0 <= k < i + 1 && is_ours(#[trigger] skills@.take((i + 1) as int)[k])
                            && skills@.take((i + 1) as int)[k].name@ == x;
                    if k < i {
                        assert(skills@.take(i as int)[k] == skills@.take((i + 1) as int)[k]);
                        assert(our_names(skills@.take(i as int)).contains(x));
                    }
                }
                if prev.contains(x) {
                    let k = choose|k: int|
                        0 <= k < i && is_ours(#[trigger] skills@.take(i as int)[k]) && skills@.take(
                            i as int,
                        )[k].name@ == x;
                    assert(skills@.take(i as int)[k] == skills@.take((i + 1) as int)[k]);
                }
                if ours && x == s.name@ {
                    assert(skills@.take((i + 1) as int)[i as int] == skills@[i as int]);
                }
            }
        }
    }
    assert(skills@.take(n as int) =~= skills@);
    names
}

} // verus!
