//! What each subcommand does, as a list of steps for the caller to carry
//! out in order.

use crate::options::{Install, Merge};
use std::path::PathBuf;
use vstd::prelude::*;
use vstd::string::StringExecFns;

verus! {

/// One thing for the caller to do. A step that cannot start its program
/// is fatal; a program's exit status is not looked at.
#[derive(Debug, PartialEq, Eq)]
pub enum Step {
    /// Run git with these arguments and discard what it prints.
    Git(Vec<String>),
    /// Run git with these arguments and write what it prints, without the
    /// whitespace at its end, to the file `into`.
    GitInto { args: Vec<String>, into: PathBuf },
    /// Run cargo with these arguments.
    Cargo(Vec<String>),
    /// Copy the file `from` over the file `into`.
    Copy { from: String, into: PathBuf },
    /// Update the attributes file: drop the lines that route `Cargo.lock`
    /// through a driver and, on `install`, add one for `opts.name`.
    Attributes { opts: Install, install: bool },
}

/// What a `Step` stands for.
pub enum StepView {
    Git(Seq<Seq<char>>),
    GitInto { args: Seq<Seq<char>>, into: PathBuf },
    Cargo(Seq<Seq<char>>),
    Copy { from: Seq<char>, into: PathBuf },
    Attributes { global: bool, name: Seq<char>, install: bool },
}

impl View for Step {
    type V = StepView;

    open spec fn view(&self) -> StepView {
        match self {
            Step::Git(args) => StepView::Git(args.deep_view()),
            Step::GitInto { args, into } => StepView::GitInto {
                args: args.deep_view(),
                into: *into,
            },
            Step::Cargo(args) => StepView::Cargo(args.deep_view()),
            Step::Copy { from, into } => StepView::Copy { from: from@, into: *into },
            Step::Attributes { opts, install } => StepView::Attributes {
                global: opts.global,
                name: opts.name@,
                install: *install,
            },
        }
    }
}

impl DeepView for Step {
    type V = StepView;

    open spec fn deep_view(&self) -> StepView {
        self@
    }
}

/// The option that tells `git config` which configuration to work on.
pub open spec fn scope(global: bool) -> Seq<char> {
    if global {
        "--global"@
    } else {
        "--local"@
    }
}

/// The section of git's configuration that describes the driver `name`.
pub open spec fn section(name: Seq<char>) -> Seq<char> {
    "merge."@ + name
}

/// The steps that register the driver `name`: give it a description and
/// its command line, make sure that it is not used for the inner merges
/// of a recursive merge, and route `Cargo.lock` through it.
pub open spec fn install_plan(global: bool, name: Seq<char>) -> Seq<StepView> {
    seq![
        StepView::Git(
            seq![
                "config"@,
                scope(global),
                section(name) + ".name"@,
                "Automatically merge Cargo.lock files"@,
            ],
        ),
        StepView::Git(
            seq![
                "config"@,
                scope(global),
                section(name) + ".driver"@,
                "cargo-merge-driver merge %O %A %B %P"@,
            ],
        ),
        StepView::Git(seq!["config"@, scope(global), "--unset"@, section(name) + ".recursive"@]),
        StepView::Attributes { global, name, install: true },
    ]
}

/// The steps that unregister the driver `name`: remove its section from
/// git's configuration and stop routing `Cargo.lock` through a driver.
pub open spec fn uninstall_plan(global: bool, name: Seq<char>) -> Seq<StepView> {
    seq![
        StepView::Git(seq!["config"@, scope(global), "--remove-section"@, section(name)]),
        StepView::Attributes { global, name, install: false },
    ]
}

/// The steps of one merge: let git merge the three versions as text into
/// the work tree's file, let cargo bring the lockfile in line with the
/// manifest, and put the current version in the work tree's file.
pub open spec fn merge_plan(
    ancestor: Seq<char>,
    current: Seq<char>,
    other: Seq<char>,
    placeholder: PathBuf,
) -> Seq<StepView> {
    seq![
        StepView::GitInto {
            args: seq!["merge-file"@, "-p"@, current, ancestor, other],
            into: placeholder,
        },
        StepView::Cargo(seq!["generate-lockfile"@]),
        StepView::Copy { from: current, into: placeholder },
    ]
}

/// The first arguments of a `git config` command on the configuration
/// that `global` selects.
fn config(global: bool) -> (args: Vec<String>)
    ensures
        args@.len() == 2,
        args@[0]@ == "config"@,
        args@[1]@ == scope(global),
{
    let mut args: Vec<String> = Vec::new();
    args.push("config".to_owned());
    args.push(
        if global {
            "--global".to_owned()
        } else {
            "--local".to_owned()
        },
    );
    args
}

/// The key `field` in the section of the driver `name`; `field` starts
/// with the dot that parts it from the section, or is empty for the
/// section itself.
fn key(name: &str, field: &str) -> (r: String)
    ensures
        r@ == section(name@) + field@,
{
    "merge.".to_owned().concat(name).concat(field)
}

/// The steps that register the driver.
pub fn install(opts: Install) -> (plan: Vec<Step>)
    ensures
        plan.deep_view() == install_plan(opts.global, opts.name@),
{
    let ghost expected = install_plan(opts.global, opts.name@);
    let mut describe = config(opts.global);
    describe.push(key(opts.name.as_str(), ".name"));
    describe.push("Automatically merge Cargo.lock files".to_owned());
    assert(describe.deep_view() =~= expected[0]->Git_0);
    let mut driver = config(opts.global);
    driver.push(key(opts.name.as_str(), ".driver"));
    driver.push("cargo-merge-driver merge %O %A %B %P".to_owned());
    assert(driver.deep_view() =~= expected[1]->Git_0);
    let mut flat = config(opts.global);
    flat.push("--unset".to_owned());
    flat.push(key(opts.name.as_str(), ".recursive"));
    assert(flat.deep_view() =~= expected[2]->Git_0);
    let mut plan: Vec<Step> = Vec::new();
    plan.push(Step::Git(describe));
    plan.push(Step::Git(driver));
    plan.push(Step::Git(flat));
    plan.push(Step::Attributes { opts, install: true });
    assert(plan.deep_view() =~= expected);
    plan
}

/// The steps that unregister the driver.
pub fn uninstall(opts: Install) -> (plan: Vec<Step>)
    ensures
        plan.deep_view() == uninstall_plan(opts.global, opts.name@),
{
    let ghost expected = uninstall_plan(opts.global, opts.name@);
    let mut remove = config(opts.global);
    remove.push("--remove-section".to_owned());
    remove.push(key(opts.name.as_str(), ""));
    proof {
        reveal_strlit("");
    }
    assert(remove.deep_view() =~= expected[0]->Git_0);
    let mut plan: Vec<Step> = Vec::new();
    plan.push(Step::Git(remove));
    plan.push(Step::Attributes { opts, install: false });
    assert(plan.deep_view() =~= expected);
    plan
}

/// The steps of one merge.
pub fn merge(opts: Merge) -> (plan: Vec<Step>)
    ensures
        plan.deep_view() == merge_plan(
            opts.ancestor@,
            opts.current@,
            opts.other@,
            opts.placeholder,
        ),
{
    let ghost expected = merge_plan(opts.ancestor@, opts.current@, opts.other@, opts.placeholder);
    let Merge { ancestor, current, other, placeholder } = opts;
    let mut text: Vec<String> = Vec::new();
    text.push("merge-file".to_owned());
    text.push("-p".to_owned());
    text.push(current.clone());
    text.push(ancestor);
    text.push(other);
    let mut lock: Vec<String> = Vec::new();
    lock.push("generate-lockfile".to_owned());
    assert(text.deep_view() =~= expected[0]->GitInto_args);
    assert(lock.deep_view() =~= expected[1]->Cargo_0);
    let mut plan: Vec<Step> = Vec::new();
    plan.push(Step::GitInto { args: text, into: placeholder.clone() });
    plan.push(Step::Cargo(lock));
    plan.push(Step::Copy { from: current, into: placeholder });
    assert(plan.deep_view() =~= expected);
    plan
}

} // verus!
