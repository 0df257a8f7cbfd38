//! The materialization engine.
//!
//! The engine turns a template tree and a resolved parameter set into a
//! *plan*: which target entries exist, with what contents and permission
//! bits, what is skipped, which hook commands run before and after, and
//! what is done when the target already exists.  The plan is a pure value;
//! a thin runner around the library carries it out in order — pre-hooks,
//! then entries as listed, then notes, then post-hooks — and answers each
//! decision table with what it finds on disk.

use vstd::prelude::*;
use vstd::string::StrSliceExecFns;
use vstd::string::StringExecFns;

use crate::descriptor::descriptor_filename;
use crate::descriptor::descriptor_filename_spec;
use crate::error::RenderStage;
use crate::error::ScaffoldError;
use crate::pattern::glob_match;
use crate::pattern::prefix_matched;
use crate::pattern::Matcher;
use crate::render::context_definite;
use crate::render::rendered;
use crate::render::path_rendered;
use crate::render::render_text;
use crate::render::render_path;
use crate::text::split_spec;
use crate::text::split_str;
use crate::text::str_eq;
use crate::tomlval::toml_view;
use crate::value::ParamSet;
use crate::value::ValueModel;

verus! {

/// What kind of tree entry a source entry is.
#[derive(Clone, Copy, Debug, PartialEq, Eq, Structural)]
pub enum EntryKind {
    Dir,
    File,
}

/// One entry of the template tree, as the traversal hands it in:
/// its template-relative path with `/` between components, its kind, a
/// file's raw bytes, and the source's permission bits.
#[derive(Debug)]
pub struct SourceEntry {
    pub rel: String,
    pub kind: EntryKind,
    /// The raw bytes; empty for a directory.
    pub content: Vec<u8>,
    /// The permission bits of the source entry.
    pub perms: u32,
}

/// How conflicts with existing target entries are resolved, chosen once
/// per run.
#[derive(Clone, Copy, Debug, PartialEq, Eq, Structural)]
pub enum ConflictPolicy {
    /// An existing target directory refuses the run.
    Fail,
    /// An existing target directory is removed and rebuilt.
    Force,
    /// Existing entries are kept; only missing ones are added.
    Append,
}

/// The policy the two command-line flags select; `force` wins over
/// `append`.
pub fn policy_of_flags(force: bool, append: bool) -> (r: ConflictPolicy)
    ensures
        r == (if force {
            ConflictPolicy::Force
        } else if append {
            ConflictPolicy::Append
        } else {
            ConflictPolicy::Fail
        }),
{
    if force {
        ConflictPolicy::Force
    } else if append {
        ConflictPolicy::Append
    } else {
        ConflictPolicy::Fail
    }
}

/// What the runner does with the target root before anything else.
#[derive(Clone, Copy, Debug, PartialEq, Eq, Structural)]
pub enum TargetAction {
    /// The directory does not exist: create it.
    Fresh,
    /// Remove the existing directory entirely, then create it.
    ReplaceAll,
    /// Use the existing directory as it is.
    Reuse,
}

/// The target root to use: the given directory, or the working directory
/// joined with the project's name.
pub fn target_path(target_dir: &Option<String>, cwd: &str, name: &str) -> (r: String)
    ensures
        match target_dir {
            Some(t) => r@ == t@,
            None => r@ == cwd@ + "/"@ + name@,
        },
{
    match target_dir {
        Some(t) => t.clone(),
        None => {
            let mut s = cwd.to_owned();
            s.append("/");
            s.append(name);
            s
        },
    }
}

/// What is done with the target root, given whether it exists.
///
/// A missing root is created; an existing one is replaced under `Force`,
/// reused under `Append`, and refused — `DirectoryExists` — under `Fail`.
pub fn target_dir_action(path: &str, exists: bool, policy: ConflictPolicy) -> (r: Result<
    TargetAction,
    ScaffoldError,
>)
    ensures
        match r {
            Ok(a) => {
                &&& !exists ==> a == TargetAction::Fresh
                &&& exists ==> policy != ConflictPolicy::Fail && a == (if policy
                    == ConflictPolicy::Force {
                    TargetAction::ReplaceAll
                } else {
                    TargetAction::Reuse
                })
            },
            Err(e) => {
                &&& exists && policy == ConflictPolicy::Fail
                &&& e matches ScaffoldError::DirectoryExists(p) && p@ == path@
            },
        },
{
    if !exists {
        Ok(TargetAction::Fresh)
    } else {
        match policy {
            ConflictPolicy::Force => Ok(TargetAction::ReplaceAll),
            ConflictPolicy::Append => Ok(TargetAction::Reuse),
            ConflictPolicy::Fail => Err(ScaffoldError::DirectoryExists(path.to_owned())),
        }
    }
}

/// What the runner does with a planned directory that already exists.
#[derive(Clone, Copy, Debug, PartialEq, Eq, Structural)]
pub enum DirAction {
    /// Remove the existing directory recursively, then create it.
    Replace,
    /// Leave the existing directory as it is.
    Keep,
    /// The creation itself reports the conflict: a filesystem failure.
    Conflict,
}

/// The existing-directory action of a policy.
pub fn dir_action_of(policy: ConflictPolicy) -> (r: DirAction)
    ensures
        r == (match policy {
            ConflictPolicy::Force => DirAction::Replace,
            ConflictPolicy::Append => DirAction::Keep,
            ConflictPolicy::Fail => DirAction::Conflict,
        }),
{
    match policy {
        ConflictPolicy::Force => DirAction::Replace,
        ConflictPolicy::Append => DirAction::Keep,
        ConflictPolicy::Fail => DirAction::Conflict,
    }
}

/// A directory of the plan: its target-relative rendered path, and what to
/// do when it already exists.
#[derive(Debug, PartialEq, Eq)]
pub struct PlannedDir {
    pub dest: String,
    pub on_exists: DirAction,
}

/// A file of the plan: its target-relative rendered path, the bytes to
/// write, the permission bits to apply, and whether an existing file is
/// left untouched.
#[derive(Debug, PartialEq, Eq)]
pub struct PlannedFile {
    pub dest: String,
    pub content: Vec<u8>,
    pub perms: u32,
    pub skip_if_exists: bool,
}

/// One entry of the plan, in execution order.
#[derive(Debug, PartialEq, Eq)]
pub enum PlanItem {
    Dir(PlannedDir),
    File(PlannedFile),
}

/// What splitting a command line by shell-word quoting rules yields, or
/// nothing when the quoting is unbalanced.
pub uninterp spec fn shell_split(s: Seq<char>) -> Option<Seq<Seq<char>>>;

/// Relies on shell_words::split: quoting honored, no operator
/// interpretation; the result is a function of the text alone.
#[verifier::external_body]
fn split_shell_words(s: &str) -> (r: Result<Vec<String>, String>)
    ensures
        r is Ok <==> shell_split(s@) is Some,
        r is Ok ==> r->Ok_0@.map_values(|w: String| w@) == shell_split(s@)->0,
{
    shell_words::split(s).map_err(|e| format!("{}", e))
}

/// The argv of one command line: the line split by shell-word rules.
///
/// A line whose quoting is unbalanced yields `HookFailure`; one empty
/// after splitting yields `EmptyCommand`.
pub fn split_command(cmd: &str) -> (r: Result<Vec<String>, ScaffoldError>)
    ensures
        match r {
            Ok(argv) => shell_split(cmd@) matches Some(ws) && ws.len() > 0 && argv@.map_values(
                |w: String| w@,
            ) == ws,
            Err(e) => match shell_split(cmd@) {
                Some(ws) => ws.len() == 0 && (e matches ScaffoldError::EmptyCommand(c) && c@
                    == cmd@),
                None => e matches ScaffoldError::HookFailure(c) && c@ == cmd@,
            },
        },
{
    match split_shell_words(cmd) {
        Ok(argv) => {
            if argv.len() == 0 {
                proof {
                    assert(shell_split(cmd@)->0 =~= argv@.map_values(|w: String| w@));
                }
                Err(ScaffoldError::EmptyCommand(cmd.to_owned()))
            } else {
                Ok(argv)
            }
        },
        Err(_) => Err(ScaffoldError::HookFailure(cmd.to_owned())),
    }
}

/// Why preparing a list of hook commands stopped, with the text concerned.
pub enum HookStop {
    /// The engine refused the command's template.
    Render(Seq<char>),
    /// The rendered line's quoting is unbalanced.
    Split(Seq<char>),
    /// The rendered line is empty after splitting.
    Empty(Seq<char>),
}

/// What preparing hook commands yields: each command rendered against the
/// bindings and split into its argv, in declared order; the first failure
/// stops the run.
pub open spec fn hook_plan(
    cmds: Seq<Seq<char>>,
    ctx: Map<Seq<char>, ValueModel>,
) -> Result<Seq<Seq<Seq<char>>>, HookStop>
    decreases cmds,
{
    if cmds.len() == 0 {
        Ok(Seq::empty())
    } else {
        match hook_plan(cmds.drop_last(), ctx) {
            Ok(argvs) => match rendered(cmds.last(), ctx) {
                None => Err(HookStop::Render(cmds.last())),
                Some(line) => match shell_split(line) {
                    None => Err(HookStop::Split(line)),
                    Some(ws) => if ws.len() == 0 {
                        Err(HookStop::Empty(line))
                    } else {
                        Ok(argvs.push(ws))
                    },
                },
            },
            Err(e) => Err(e),
        }
    }
}

/// The nested text model of a list of argvs.
pub open spec fn argvs_model(argvs: Seq<Vec<String>>) -> Seq<Seq<Seq<char>>> {
    argvs.map_values(|v: Vec<String>| v@.map_values(|w: String| w@))
}

/// Renders each hook command and splits it into its argv, in declared
/// order.  The first failing command stops the run: a refused template
/// yields `RenderError` at the hook stage naming the command, unbalanced
/// quoting yields `HookFailure`, an empty split yields `EmptyCommand`.
#[verifier::loop_isolation(false)]
pub fn prepare_commands(cmds: &Vec<String>, ctx: &toml::Value) -> (r: Result<
    Vec<Vec<String>>,
    ScaffoldError,
>)
    requires
        toml_view(*ctx) is Table,
        context_definite(toml_view(*ctx)->Table_0),
    ensures
        ({
            let bindings = toml_view(*ctx)->Table_0;
            let model = hook_plan(cmds@.map_values(|c: String| c@), bindings);
            match r {
                Ok(argvs) => model == Ok::<Seq<Seq<Seq<char>>>, HookStop>(argvs_model(argvs@)),
                Err(e) => match model {
                    Ok(_) => false,
                    Err(stop) => match stop {
                        HookStop::Render(c) => e matches ScaffoldError::RenderError {
                            stage: st,
                            location: l,
                            message: _,
                        } && st == RenderStage::Hook && l@ == c,
                        HookStop::Split(line) => e matches ScaffoldError::HookFailure(c) && c@
                            == line,
                        HookStop::Empty(line) => e matches ScaffoldError::EmptyCommand(c) && c@
                            == line,
                    },
                },
            }
        }),
{
    let ghost bindings = toml_view(*ctx)->Table_0;
    let ghost cs = cmds@.map_values(|c: String| c@);
    let n = cmds.len();
    let mut out: Vec<Vec<String>> = Vec::new();
    let mut i: usize = 0;
    proof {
        assert(cs.subrange(0, 0) =~= Seq::<Seq<char>>::empty());
        assert(argvs_model(out@) =~= Seq::<Seq<Seq<char>>>::empty());
    }
    while i < n
        invariant
            i <= n,
            out@.len() == i,
            hook_plan(cs.subrange(0, i as int), bindings) == Ok::<Seq<Seq<Seq<char>>>, HookStop>(
                argvs_model(out@),
            ),
        decreases n - i,
    {
        let line = match render_text(cmds[i].as_str(), ctx, RenderStage::Hook, cmds[i].as_str()) {
            Ok(s) => s,
            Err(e) => {
                proof {
                    assert(cs.subrange(0, i + 1).drop_last() =~= cs.subrange(0, i as int));
                    lemma_hook_plan_prefix_err(cs, i + 1, n as int, bindings);
                }
                return Err(e);
            },
        };
        let argv = match split_command(line.as_str()) {
            Ok(a) => a,
            Err(e) => {
                proof {
                    assert(cs.subrange(0, i + 1).drop_last() =~= cs.subrange(0, i as int));
                    lemma_hook_plan_prefix_err(cs, i + 1, n as int, bindings);
                }
                return Err(e);
            },
        };
        let ghost prev_model = argvs_model(out@);
        out.push(argv);
        proof {
            assert(cs.subrange(0, i + 1).drop_last() =~= cs.subrange(0, i as int));
            assert(cs.subrange(0, i + 1).last() == cs[i as int]);
            assert(cs[i as int] == cmds@[i as int]@);
            assert(rendered(cs[i as int], bindings) == Some(line@));
            assert(argvs_model(out@) =~= prev_model.push(argv@.map_values(|w: String| w@)));
            assert(hook_plan(cs.subrange(0, i + 1), bindings) == Ok::<
                Seq<Seq<Seq<char>>>,
                HookStop,
            >(prev_model.push(argv@.map_values(|w: String| w@))));
        }
        i += 1;
    }
    proof {
        assert(cs.subrange(0, n as int) =~= cs);
    }
    Ok(out)
}

/// Relies on core::str::from_utf8: the bytes decode exactly when they are
/// valid UTF-8, to the text they encode.
#[verifier::external_body]
fn bytes_to_string(b: &Vec<u8>) -> (r: Option<String>)
    ensures
        r is Some <==> vstd::utf8::valid_utf8(b@),
        r is Some ==> vstd::utf8::encode_utf8(r->0@) == b@,
{
    core::str::from_utf8(b.as_slice()).ok().map(|s| s.to_string())
}

/// A copy of the bytes.
fn copy_bytes(b: &Vec<u8>) -> (r: Vec<u8>)
    ensures
        r@ == b@,
{
    let n = b.len();
    let mut out: Vec<u8> = Vec::new();
    let mut i: usize = 0;
    while i < n
        invariant
            n == b@.len(),
            i <= n,
            out@ == b@.subrange(0, i as int),
        decreases n - i,
    {
        out.push(b[i]);
        proof {
            assert(out@ =~= b@.subrange(0, i + 1));
        }
        i += 1;
    }
    proof {
        assert(b@.subrange(0, n as int) =~= b@);
    }
    out
}

/// Some component of the path is the version-control metadata directory.
pub open spec fn has_git_component(path: Seq<char>) -> bool {
    exists|i: int|
        0 <= i < split_spec(path, '/').len() && #[trigger] split_spec(path, '/')[i] == ".git"@
}

/// Whether some component of the path is `.git`.
#[verifier::loop_isolation(false)]
fn contains_git_component(path: &str) -> (r: bool)
    ensures
        r == has_git_component(path@),
{
    let pieces = split_str(path, '/');
    let n = pieces.len();
    let mut i: usize = 0;
    while i < n
        invariant
            i <= n,
            forall|j: int| 0 <= j < i ==> #[trigger] split_spec(path@, '/')[j] != ".git"@,
        decreases n - i,
    {
        if str_eq(pieces[i].as_str(), ".git") {
            proof {
                assert(split_spec(path@, '/')[i as int] == pieces@[i as int]@);
            }
            return true;
        }
        proof {
            assert(split_spec(path@, '/')[i as int] == pieces@[i as int]@);
        }
        i += 1;
    }
    false
}

/// The entry is left out of the target tree: the descriptor file at the
/// template root, any path with a version-control metadata component, and
/// anything the exclusion patterns match — itself or through an ancestor.
pub open spec fn skipped(rel: Seq<char>, excl: Seq<Seq<char>>) -> bool {
    ||| rel == descriptor_filename_spec()
    ||| has_git_component(rel)
    ||| prefix_matched(excl, rel)
}

/// Whether the entry is left out of the target tree.
fn is_skipped(rel: &str, excl: &Matcher) -> (r: bool)
    ensures
        r == skipped(rel@, excl.patterns()),
{
    if str_eq(rel, descriptor_filename()) {
        return true;
    }
    if contains_git_component(rel) {
        return true;
    }
    excl.matches_prefix(rel)
}

/// What one source entry contributes to the plan.
pub enum EntryOutcome {
    /// Nothing: the entry is skipped.
    Skip,
    /// A directory at the rendered destination.
    Dir { dest: Seq<char> },
    /// A file at the rendered destination, with the bytes to write and the
    /// permission bits to apply; `verbatim` files carry the source bytes
    /// untouched.
    File { dest: Seq<char>, content: Seq<u8>, perms: u32, verbatim: bool },
    /// The file should be templated but does not hold valid UTF-8.
    BadEncoding,
    /// The engine refused the file's contents or the path as a template.
    NoRender(RenderStage),
}

/// What one entry must contribute, given the exclusion patterns, the
/// templating-exception patterns, and the render bindings.
pub open spec fn entry_outcome(
    e: SourceEntry,
    excl: Seq<Seq<char>>,
    dis: Seq<Seq<char>>,
    ctx: Map<Seq<char>, ValueModel>,
) -> EntryOutcome {
    if skipped(e.rel@, excl) {
        EntryOutcome::Skip
    } else if e.kind == EntryKind::Dir {
        match path_rendered(e.rel@, ctx) {
            Some(p) => EntryOutcome::Dir { dest: p },
            None => EntryOutcome::NoRender(RenderStage::Path),
        }
    } else if glob_match(dis, e.rel@) {
        match path_rendered(e.rel@, ctx) {
            Some(p) => EntryOutcome::File {
                dest: p,
                content: e.content@,
                perms: e.perms,
                verbatim: true,
            },
            None => EntryOutcome::NoRender(RenderStage::Path),
        }
    } else if !vstd::utf8::valid_utf8(e.content@) {
        EntryOutcome::BadEncoding
    } else {
        match rendered(vstd::utf8::decode_utf8(e.content@), ctx) {
            None => EntryOutcome::NoRender(RenderStage::Content),
            Some(text) => match path_rendered(e.rel@, ctx) {
                None => EntryOutcome::NoRender(RenderStage::Path),
                Some(p) => EntryOutcome::File {
                    dest: p,
                    content: vstd::utf8::encode_utf8(text),
                    perms: e.perms,
                    verbatim: false,
                },
            },
        }
    }
}

/// One planned target entry, as a mathematical value, with the source
/// entry's template-relative path it came from.
pub enum ItemModel {
    Dir { rel: Seq<char>, dest: Seq<char> },
    File { rel: Seq<char>, dest: Seq<char>, content: Seq<u8>, perms: u32, verbatim: bool },
}

/// Why planning stopped, naming the entry concerned.
pub enum PlanError {
    /// The named file should be templated but is not valid UTF-8.
    BadEncoding(Seq<char>),
    /// The engine refused a template of the named entry, at the given
    /// stage.
    NoRender(RenderStage, Seq<char>),
}

/// What planning a traversed tree yields: every entry's contribution in
/// traversal order, or the first entry's failure.
pub open spec fn plan_of(
    entries: Seq<SourceEntry>,
    excl: Seq<Seq<char>>,
    dis: Seq<Seq<char>>,
    ctx: Map<Seq<char>, ValueModel>,
) -> Result<Seq<ItemModel>, PlanError>
    decreases entries,
{
    if entries.len() == 0 {
        Ok(Seq::empty())
    } else {
        match plan_of(entries.drop_last(), excl, dis, ctx) {
            Ok(items) => {
                let e = entries.last();
                match entry_outcome(e, excl, dis, ctx) {
                    EntryOutcome::Skip => Ok(items),
                    EntryOutcome::Dir { dest } => Ok(
                        items.push(ItemModel::Dir { rel: e.rel@, dest }),
                    ),
                    EntryOutcome::File { dest, content, perms, verbatim } => Ok(
                        items.push(ItemModel::File { rel: e.rel@, dest, content, perms, verbatim }),
                    ),
                    EntryOutcome::BadEncoding => Err(PlanError::BadEncoding(e.rel@)),
                    EntryOutcome::NoRender(stage) => Err(PlanError::NoRender(stage, e.rel@)),
                }
            },
            Err(err) => Err(err),
        }
    }
}

/// The planned item realizes the model under the policy: same destination,
/// same bytes, same permission bits, and the policy's conflict behaviour.
pub open spec fn item_match(it: PlanItem, m: ItemModel, policy: ConflictPolicy) -> bool {
    match it {
        PlanItem::Dir(d) => m matches ItemModel::Dir { dest, .. } && d.dest@ == dest
            && d.on_exists == (match policy {
            ConflictPolicy::Force => DirAction::Replace,
            ConflictPolicy::Append => DirAction::Keep,
            ConflictPolicy::Fail => DirAction::Conflict,
        }),
        PlanItem::File(f) => m matches ItemModel::File { dest, content, perms, .. } && f.dest@
            == dest && f.content@ == content && f.perms == perms && f.skip_if_exists == (policy
            == ConflictPolicy::Append),
    }
}

/// The planned items realize the models, one for one, in order.
pub open spec fn items_match(
    items: Seq<PlanItem>,
    ms: Seq<ItemModel>,
    policy: ConflictPolicy,
) -> bool {
    items.len() == ms.len() && forall|i: int|
        0 <= i < ms.len() ==> item_match(#[trigger] items[i], ms[i], policy)
}

/// The error reported for a failed plan: `InvalidEncoding` or the render
/// failure, naming the entry.
pub open spec fn plan_err_match(e: ScaffoldError, pe: PlanError) -> bool {
    match pe {
        PlanError::BadEncoding(rel) => e matches ScaffoldError::InvalidEncoding(p) && p@ == rel,
        PlanError::NoRender(stage, rel) => e matches ScaffoldError::RenderError {
            stage: st,
            location: l,
            message: _,
        } && st == stage && l@ == rel,
    }
}

/// A failed prefix fails the whole plan with the same error.
proof fn lemma_plan_prefix_err(
    entries: Seq<SourceEntry>,
    i: int,
    excl: Seq<Seq<char>>,
    dis: Seq<Seq<char>>,
    ctx: Map<Seq<char>, ValueModel>,
)
    requires
        0 < i <= entries.len(),
        plan_of(entries.subrange(0, i), excl, dis, ctx) is Err,
    ensures
        plan_of(entries, excl, dis, ctx) == plan_of(entries.subrange(0, i), excl, dis, ctx),
    decreases entries.len() - i,
{
    if i < entries.len() {
        assert(entries.subrange(0, i + 1).drop_last() =~= entries.subrange(0, i));
        lemma_plan_prefix_err(entries, i + 1, excl, dis, ctx);
    } else {
        assert(entries.subrange(0, entries.len() as int) =~= entries);
    }
}

/// The engine returned a placeholder-free text unchanged: for a templated
/// file whose decoded text holds neither `{` nor `\`, the render left the
/// text as it was.
pub open spec fn render_identity_on(
    e: SourceEntry,
    excl: Seq<Seq<char>>,
    dis: Seq<Seq<char>>,
    ctx: Map<Seq<char>, ValueModel>,
) -> bool {
    (!skipped(e.rel@, excl) && e.kind == EntryKind::File && !glob_match(dis, e.rel@)
        && vstd::utf8::valid_utf8(e.content@) && crate::text::has_no_char(
        vstd::utf8::decode_utf8(e.content@),
        '{',
    ) && crate::text::has_no_char(vstd::utf8::decode_utf8(e.content@), '\\')) ==> rendered(
        vstd::utf8::decode_utf8(e.content@),
        ctx,
    ) == Some(vstd::utf8::decode_utf8(e.content@))
}

/// Plans every entry of a traversed tree, in traversal order.
///
/// Success realizes exactly the plan model: skipped entries contribute
/// nothing, a directory becomes a creation at its rendered path, a file
/// becomes a write of its rendered — or, under a templating exception,
/// verbatim — bytes at its rendered path, with the source's permission
/// bits.  The first failing entry stops the run with `InvalidEncoding` or
/// the render failure.  On success the engine also reports that it left
/// placeholder-free text unchanged, which
/// [`law_unplaceholdered_file_unchanged`] turns into the round-trip law.
#[verifier::loop_isolation(false)]
pub fn plan_entries(
    entries: &Vec<SourceEntry>,
    excl: &Matcher,
    dis: &Matcher,
    ctx: &toml::Value,
    policy: ConflictPolicy,
) -> (r: Result<Vec<PlanItem>, ScaffoldError>)
    requires
        toml_view(*ctx) is Table,
        context_definite(toml_view(*ctx)->Table_0),
    ensures
        ({
            let bindings = toml_view(*ctx)->Table_0;
            let model = plan_of(entries@, excl.patterns(), dis.patterns(), bindings);
            match r {
                Ok(items) => model matches Ok(ms) && items_match(items@, ms, policy) && (forall|
                    t: int,
                |
                    0 <= t < entries@.len() ==> render_identity_on(
                        #[trigger] entries@[t],
                        excl.patterns(),
                        dis.patterns(),
                        bindings,
                    )),
                Err(e) => model matches Err(pe) && plan_err_match(e, pe),
            }
        }),
{
    let ghost bindings = toml_view(*ctx)->Table_0;
    let ghost excl_pats = excl.patterns();
    let ghost dis_pats = dis.patterns();
    let n = entries.len();
    let mut items: Vec<PlanItem> = Vec::new();
    let mut i: usize = 0;
    proof {
        assert(entries@.subrange(0, 0) =~= Seq::<SourceEntry>::empty());
    }
    while i < n
        invariant
            i <= n,
            plan_of(entries@.subrange(0, i as int), excl_pats, dis_pats, bindings) matches Ok(ms)
                && items_match(items@, ms, policy),
            forall|t: int|
                0 <= t < i ==> render_identity_on(
                    #[trigger] entries@[t],
                    excl_pats,
                    dis_pats,
                    bindings,
                ),
        decreases n - i,
    {
        let e = &entries[i];
        let ghost prefix = entries@.subrange(0, i as int);
        let ghost prefix1 = entries@.subrange(0, i + 1);
        proof {
            assert(prefix1.drop_last() =~= prefix);
            assert(prefix1.last() == entries@[i as int]);
        }
        if is_skipped(e.rel.as_str(), excl) {
        } else {
            match e.kind {
                EntryKind::Dir => {
                    let dest = match render_path(e.rel.as_str(), ctx, e.rel.as_str()) {
                        Ok(p) => p,
                        Err(err) => {
                            proof {
                                lemma_plan_prefix_err(entries@, i + 1, excl_pats, dis_pats, bindings);
                            }
                            return Err(err);
                        },
                    };
                    let d = PlannedDir { dest, on_exists: dir_action_of(policy) };
                    items.push(PlanItem::Dir(d));
                },
                EntryKind::File => {
                    if dis.matches(e.rel.as_str()) {
                        let dest = match render_path(e.rel.as_str(), ctx, e.rel.as_str()) {
                            Ok(p) => p,
                            Err(err) => {
                                proof {
                                    lemma_plan_prefix_err(
                                        entries@,
                                        i + 1,
                                        excl_pats,
                                        dis_pats,
                                        bindings,
                                    );
                                }
                                return Err(err);
                            },
                        };
                        let content = copy_bytes(&e.content);
                        let f = PlannedFile {
                            dest,
                            content,
                            perms: e.perms,
                            skip_if_exists: matches!(policy, ConflictPolicy::Append),
                        };
                        items.push(PlanItem::File(f));
                    } else {
                        let text = match bytes_to_string(&e.content) {
                            Some(t) => t,
                            None => {
                                proof {
                                    lemma_plan_prefix_err(
                                        entries@,
                                        i + 1,
                                        excl_pats,
                                        dis_pats,
                                        bindings,
                                    );
                                }
                                return Err(ScaffoldError::InvalidEncoding(e.rel.clone()));
                            },
                        };
                        proof {
                            vstd::utf8::encode_utf8_decode_utf8(text@);
                        }
                        let out = match render_text(
                            text.as_str(),
                            ctx,
                            RenderStage::Content,
                            e.rel.as_str(),
                        ) {
                            Ok(s) => s,
                            Err(err) => {
                                proof {
                                    lemma_plan_prefix_err(
                                        entries@,
                                        i + 1,
                                        excl_pats,
                                        dis_pats,
                                        bindings,
                                    );
                                }
                                return Err(err);
                            },
                        };
                        let dest = match render_path(e.rel.as_str(), ctx, e.rel.as_str()) {
                            Ok(p) => p,
                            Err(err) => {
                                proof {
                                    lemma_plan_prefix_err(
                                        entries@,
                                        i + 1,
                                        excl_pats,
                                        dis_pats,
                                        bindings,
                                    );
                                }
                                return Err(err);
                            },
                        };
                        proof {
                            assert(render_identity_on(entries@[i as int], excl_pats, dis_pats, bindings)) by {
                                if crate::text::has_no_char(text@, '{') && crate::text::has_no_char(text@, '\\') {
                                    assert(rendered(text@, bindings) == Some(out@));
                                }
                            }
                        }
                        let content = out.as_str().as_bytes_vec();
                        let f = PlannedFile {
                            dest,
                            content,
                            perms: e.perms,
                            skip_if_exists: matches!(policy, ConflictPolicy::Append),
                        };
                        items.push(PlanItem::File(f));
                    }
                },
            }
        }
        i += 1;
    }
    proof {
        assert(entries@.subrange(0, n as int) =~= entries@);
    }
    Ok(items)
}

/// A failed prefix fails the whole list with the same stop.
proof fn lemma_hook_plan_prefix_err(
    cs: Seq<Seq<char>>,
    i: int,
    n: int,
    ctx: Map<Seq<char>, ValueModel>,
)
    requires
        0 < i <= n == cs.len(),
        hook_plan(cs.subrange(0, i), ctx) is Err,
    ensures
        hook_plan(cs, ctx) == hook_plan(cs.subrange(0, i), ctx),
    decreases n - i,
{
    if i < n {
        assert(cs.subrange(0, i + 1).drop_last() =~= cs.subrange(0, i));
        lemma_hook_plan_prefix_err(cs, i + 1, n, ctx);
    } else {
        assert(cs.subrange(0, n) =~= cs);
    }
}

/// The pattern texts of an optional pattern list, each with its leading
/// `./` stripped.
pub open spec fn pattern_texts(o: Option<Vec<String>>) -> Seq<Seq<char>> {
    match o {
        Some(v) => v@.map_values(|p: String| crate::pattern::strip_dot_slash(p@)),
        None => Seq::empty(),
    }
}

/// The command texts of the pre-hooks.
pub open spec fn pre_hook_texts(h: Option<crate::descriptor::Hooks>) -> Seq<Seq<char>> {
    match h {
        Some(hk) => match hk.pre {
            Some(v) => v@.map_values(|c: String| c@),
            None => Seq::empty(),
        },
        None => Seq::empty(),
    }
}

/// The command texts of the post-hooks.
pub open spec fn post_hook_texts(h: Option<crate::descriptor::Hooks>) -> Seq<Seq<char>> {
    match h {
        Some(hk) => match hk.post {
            Some(v) => v@.map_values(|c: String| c@),
            None => Seq::empty(),
        },
        None => Seq::empty(),
    }
}

/// The error reported for a failed hook preparation.
pub open spec fn hook_stop_match(e: ScaffoldError, stop: HookStop) -> bool {
    match stop {
        HookStop::Render(c) => e matches ScaffoldError::RenderError {
            stage: st,
            location: l,
            message: _,
        } && st == RenderStage::Hook && l@ == c,
        HookStop::Split(line) => e matches ScaffoldError::HookFailure(c) && c@ == line,
        HookStop::Empty(line) => e matches ScaffoldError::EmptyCommand(c) && c@ == line,
    }
}

/// One run's plan, in execution order: the pre-hook argvs, the target
/// entries, the rendered notes, the post-hook argvs.
#[derive(Debug, PartialEq, Eq)]
pub struct RunPlan {
    pub pre_commands: Vec<Vec<String>>,
    pub items: Vec<PlanItem>,
    pub notes: Option<String>,
    pub post_commands: Vec<Vec<String>>,
}

/// The render bindings of a run: the parameter set with `target_dir` bound
/// to the target root, in context form.
pub open spec fn run_bindings(
    params: Map<Seq<char>, ValueModel>,
    target_dir_abs: Seq<char>,
) -> Map<Seq<char>, ValueModel> {
    crate::render::ctx_of_map(params.insert("target_dir"@, ValueModel::String(target_dir_abs)))
}

impl crate::descriptor::ScaffoldDescription {
    /// Plans one run against a traversed template tree.
    ///
    /// The bindings are the given parameters with `target_dir` bound to the
    /// resolved target root, so templates may name their own destination.
    /// Success realizes exactly the models of the pre-hooks, the entries,
    /// the notes and the post-hooks.  A failure is one of: a pattern list
    /// the glob compiler refused (and only then is it `PatternError`); the
    /// first failing hook command; the first failing entry; a refused notes
    /// template.
    pub fn plan_run(
        &self,
        params: &ParamSet,
        target_dir_abs: &str,
        policy: ConflictPolicy,
        entries: &Vec<SourceEntry>,
    ) -> (r: Result<RunPlan, ScaffoldError>)
        requires
            params.wf(),
        ensures
            ({
                let ctx = run_bindings(params@, target_dir_abs@);
                let excl = pattern_texts(self.template.exclude);
                let dis = pattern_texts(self.template.disable_templating);
                match r {
                    Ok(plan) => {
                        &&& hook_plan(pre_hook_texts(self.hooks), ctx) == Ok::<
                            Seq<Seq<Seq<char>>>,
                            HookStop,
                        >(argvs_model(plan.pre_commands@))
                        &&& plan_of(entries@, excl, dis, ctx) matches Ok(ms) && items_match(
                            plan.items@,
                            ms,
                            policy,
                        )
                        &&& (match self.template.notes {
                            Some(n) => plan.notes matches Some(s) && rendered(n@, ctx) == Some(
                                s@,
                            ),
                            None => plan.notes is None,
                        })
                        &&& hook_plan(post_hook_texts(self.hooks), ctx) == Ok::<
                            Seq<Seq<Seq<char>>>,
                            HookStop,
                        >(argvs_model(plan.post_commands@))
                    },
                    Err(e) => {
                        ||| ((!crate::pattern::patterns_compile(pattern_texts(self.template.exclude))
                            || !crate::pattern::patterns_compile(
                            pattern_texts(self.template.disable_templating),
                        )) && e is PatternError)
                        ||| (hook_plan(pre_hook_texts(self.hooks), ctx) matches Err(stop)
                            && hook_stop_match(e, stop))
                        ||| (plan_of(entries@, excl, dis, ctx) matches Err(pe) && plan_err_match(
                            e,
                            pe,
                        ))
                        ||| (match self.template.notes {
                            Some(n) => rendered(n@, ctx) is None && (e
                                matches ScaffoldError::RenderError { stage: st, location: _, message: _ }
                                && st == RenderStage::Notes),
                            None => false,
                        })
                        ||| (hook_plan(post_hook_texts(self.hooks), ctx) matches Err(stop)
                            && hook_stop_match(e, stop))
                    },
                }
            }),
    {
        let empty_texts: Vec<String> = Vec::new();
        proof {
            assert(empty_texts@.map_values(|p: String| crate::pattern::strip_dot_slash(p@)) =~= Seq::<
                Seq<char>,
            >::empty());
        }
        let excl = match &self.template.exclude {
            Some(v) => Matcher::compile(v),
            None => Matcher::compile(&empty_texts),
        };
        let excl = match excl {
            Ok(m) => m,
            Err(e) => {
                proof {
                    assert(!crate::pattern::patterns_compile(
                        pattern_texts(self.template.exclude),
                    ));
                }
                return Err(e);
            },
        };
        let dis = match &self.template.disable_templating {
            Some(v) => Matcher::compile(v),
            None => Matcher::compile(&empty_texts),
        };
        let dis = match dis {
            Ok(m) => m,
            Err(e) => {
                proof {
                    assert(!crate::pattern::patterns_compile(
                        pattern_texts(self.template.disable_templating),
                    ));
                }
                return Err(e);
            },
        };
        proof {
            assert(excl.patterns() == pattern_texts(self.template.exclude));
            assert(dis.patterns() == pattern_texts(self.template.disable_templating));
        }

        let mut full_params = params.duplicate();
        full_params.insert("target_dir".to_owned(), crate::value::ParamValue::String(target_dir_abs.to_owned()));
        let ctx = crate::render::render_context(&full_params);
        let ghost bindings = run_bindings(params@, target_dir_abs@);
        proof {
            assert(toml_view(ctx)->Table_0 == bindings);
        }

        let pre_list: &Vec<String> = match &self.hooks {
            Some(h) => match &h.pre {
                Some(v) => v,
                None => &empty_texts,
            },
            None => &empty_texts,
        };
        proof {
            assert(empty_texts@.map_values(|c: String| c@) =~= Seq::<Seq<char>>::empty());
            assert(pre_list@.map_values(|c: String| c@) == pre_hook_texts(self.hooks));
        }
        let pre_commands = match prepare_commands(pre_list, &ctx) {
            Ok(a) => a,
            Err(e) => {
                return Err(e);
            },
        };

        let items = match plan_entries(entries, &excl, &dis, &ctx, policy) {
            Ok(it) => it,
            Err(e) => {
                return Err(e);
            },
        };

        let notes = match &self.template.notes {
            Some(n) => {
                match render_text(n.as_str(), &ctx, RenderStage::Notes, "notes") {
                    Ok(s) => Some(s),
                    Err(e) => {
                        return Err(e);
                    },
                }
            },
            None => None,
        };

        let post_list: &Vec<String> = match &self.hooks {
            Some(h) => match &h.post {
                Some(v) => v,
                None => &empty_texts,
            },
            None => &empty_texts,
        };
        proof {
            assert(post_list@.map_values(|c: String| c@) == post_hook_texts(self.hooks));
        }
        let post_commands = match prepare_commands(post_list, &ctx) {
            Ok(a) => a,
            Err(e) => {
                return Err(e);
            },
        };

        Ok(RunPlan { pre_commands, items, notes, post_commands })
    }
}

/// The entries that survive exclusion, in traversal order.
pub open spec fn kept_entries(entries: Seq<SourceEntry>, excl: Seq<Seq<char>>) -> Seq<SourceEntry>
    decreases entries,
{
    if entries.len() == 0 {
        Seq::empty()
    } else {
        let rest = kept_entries(entries.drop_last(), excl);
        if skipped(entries.last().rel@, excl) {
            rest
        } else {
            rest.push(entries.last())
        }
    }
}

/// The target entry one kept source entry plans: the model realizes its
/// outcome, which is a directory or a file.
pub open spec fn realizes_outcome(
    m: ItemModel,
    e: SourceEntry,
    excl: Seq<Seq<char>>,
    dis: Seq<Seq<char>>,
    ctx: Map<Seq<char>, ValueModel>,
) -> bool {
    match entry_outcome(e, excl, dis, ctx) {
        EntryOutcome::Dir { dest } => m == ItemModel::Dir { rel: e.rel@, dest },
        EntryOutcome::File { dest, content, perms, verbatim } => m == ItemModel::File {
            rel: e.rel@,
            dest,
            content,
            perms,
            verbatim,
        },
        _ => false,
    }
}

/// Law: a successful plan holds exactly one target entry for each source
/// entry that survives exclusion, in traversal order — no source entry is
/// dropped, none is doubled, and each lands at its rendered destination.
pub proof fn law_one_item_per_kept_entry(
    entries: Seq<SourceEntry>,
    excl: Seq<Seq<char>>,
    dis: Seq<Seq<char>>,
    ctx: Map<Seq<char>, ValueModel>,
)
    requires
        plan_of(entries, excl, dis, ctx) is Ok,
    ensures
        plan_of(entries, excl, dis, ctx)->Ok_0.len() == kept_entries(entries, excl).len(),
        forall|j: int|
            0 <= j < kept_entries(entries, excl).len() ==> realizes_outcome(
                #[trigger] plan_of(entries, excl, dis, ctx)->Ok_0[j],
                kept_entries(entries, excl)[j],
                excl,
                dis,
                ctx,
            ),
    decreases entries,
{
    if entries.len() > 0 {
        law_one_item_per_kept_entry(entries.drop_last(), excl, dis, ctx);
    }
}

/// The path lies at or under `p`: it is `p` itself, or continues it past a
/// component boundary.
pub open spec fn under(rel: Seq<char>, p: Seq<char>) -> bool {
    rel == p || (rel.len() > p.len() && rel.subrange(0, p.len() as int) == p && rel[p.len() as int]
        == '/')
}

/// A path at or under an excluded one is itself excluded.
pub proof fn lemma_under_excluded(rel: Seq<char>, p: Seq<char>, excl: Seq<Seq<char>>)
    requires
        glob_match(excl, p),
        under(rel, p),
        p.len() > 0,
    ensures
        skipped(rel, excl),
{
    if rel == p {
        assert(rel.subrange(0, rel.len() as int) =~= rel);
        assert(prefix_matched(excl, rel)) by {
            assert(0 < rel.len() <= rel.len() && glob_match(excl, rel.subrange(0, rel.len() as int)));
        }
    } else {
        assert(prefix_matched(excl, rel)) by {
            let i = p.len() as int;
            assert(rel[i] == '/' && glob_match(excl, rel.subrange(0, i)));
        }
    }
}

/// Law: a directory matched by an exclusion pattern prunes its whole
/// subtree — no entry at or under its path contributes anything to a
/// successful plan.
pub proof fn law_excluded_subtree(
    entries: Seq<SourceEntry>,
    excl: Seq<Seq<char>>,
    dis: Seq<Seq<char>>,
    ctx: Map<Seq<char>, ValueModel>,
    p: Seq<char>,
)
    requires
        plan_of(entries, excl, dis, ctx) is Ok,
        glob_match(excl, p),
        p.len() > 0,
    ensures
        forall|j: int|
            0 <= j < plan_of(entries, excl, dis, ctx)->Ok_0.len() ==> !under(
                item_rel(#[trigger] plan_of(entries, excl, dis, ctx)->Ok_0[j]),
                p,
            ),
{
    let ms = plan_of(entries, excl, dis, ctx)->Ok_0;
    let kept = kept_entries(entries, excl);
    law_one_item_per_kept_entry(entries, excl, dis, ctx);
    lemma_kept_not_skipped(entries, excl);
    assert forall|j: int| 0 <= j < ms.len() implies !under(item_rel(ms[j]), p) by {
        assert(realizes_outcome(ms[j], kept[j], excl, dis, ctx));
        assert(item_rel(ms[j]) == kept[j].rel@);
        if under(kept[j].rel@, p) {
            lemma_under_excluded(kept[j].rel@, p, excl);
        }
    }
}

/// The template-relative source path a planned item came from.
pub open spec fn item_rel(m: ItemModel) -> Seq<char> {
    match m {
        ItemModel::Dir { rel, .. } => rel,
        ItemModel::File { rel, .. } => rel,
    }
}

/// No kept entry is a skipped one.
proof fn lemma_kept_not_skipped(entries: Seq<SourceEntry>, excl: Seq<Seq<char>>)
    ensures
        forall|j: int|
            0 <= j < kept_entries(entries, excl).len() ==> !skipped(
                (#[trigger] kept_entries(entries, excl)[j]).rel@,
                excl,
            ),
    decreases entries,
{
    if entries.len() > 0 {
        lemma_kept_not_skipped(entries.drop_last(), excl);
    }
}

/// Law: a file under a templating exception plans byte-identical output.
pub proof fn law_verbatim_file_unchanged(
    e: SourceEntry,
    excl: Seq<Seq<char>>,
    dis: Seq<Seq<char>>,
    ctx: Map<Seq<char>, ValueModel>,
)
    requires
        !skipped(e.rel@, excl),
        e.kind == EntryKind::File,
        glob_match(dis, e.rel@),
        path_rendered(e.rel@, ctx) is Some,
    ensures
        entry_outcome(e, excl, dis, ctx) matches EntryOutcome::File { content, verbatim, .. }
            && content == e.content@ && verbatim,
{
}

/// Law: a templated file whose text holds no placeholder — no `{` and no
/// `\` — plans byte-identical output.  That the engine returns such text
/// unchanged is what [`plan_entries`] reports of every entry it planned;
/// this law turns that report into bytes.
pub proof fn law_unplaceholdered_file_unchanged(
    e: SourceEntry,
    excl: Seq<Seq<char>>,
    dis: Seq<Seq<char>>,
    ctx: Map<Seq<char>, ValueModel>,
)
    requires
        !skipped(e.rel@, excl),
        e.kind == EntryKind::File,
        !glob_match(dis, e.rel@),
        vstd::utf8::valid_utf8(e.content@),
        crate::text::has_no_char(vstd::utf8::decode_utf8(e.content@), '{'),
        crate::text::has_no_char(vstd::utf8::decode_utf8(e.content@), '\\'),
        render_identity_on(e, excl, dis, ctx),
        path_rendered(e.rel@, ctx) is Some,
    ensures
        entry_outcome(e, excl, dis, ctx) matches EntryOutcome::File { content, verbatim, .. }
            && content == e.content@ && !verbatim,
{
    vstd::utf8::decode_utf8_encode_utf8(e.content@);
}

/// Law: under the `Append` policy a plan touches nothing that exists —
/// every planned file is marked skip-if-present and every planned
/// directory keeps an existing one.  The plan itself is a function of the
/// template tree, the patterns and the bindings, so a second run with
/// unchanged inputs plans the same entries and writes none of them again.
pub proof fn law_append_preserves_existing(
    items: Seq<PlanItem>,
    ms: Seq<ItemModel>,
    policy: ConflictPolicy,
)
    requires
        items_match(items, ms, policy),
        policy == ConflictPolicy::Append,
    ensures
        forall|j: int|
            0 <= j < items.len() ==> match #[trigger] items[j] {
                PlanItem::File(f) => f.skip_if_exists,
                PlanItem::Dir(d) => d.on_exists == DirAction::Keep,
            },
{
    assert forall|j: int|
        0 <= j < items.len() implies match #[trigger] items[j] {
        PlanItem::File(f) => f.skip_if_exists,
        PlanItem::Dir(d) => d.on_exists == DirAction::Keep,
    } by {
        assert(item_match(items[j], ms[j], policy));
    }
}

/// Law: under the `Force` policy an existing target root is removed whole
/// and rebuilt, and an existing planned directory is replaced.
pub proof fn law_force_replaces_existing(
    items: Seq<PlanItem>,
    ms: Seq<ItemModel>,
    policy: ConflictPolicy,
)
    requires
        items_match(items, ms, policy),
        policy == ConflictPolicy::Force,
    ensures
        forall|j: int|
            0 <= j < items.len() ==> match #[trigger] items[j] {
                PlanItem::File(f) => !f.skip_if_exists,
                PlanItem::Dir(d) => d.on_exists == DirAction::Replace,
            },
{
    assert forall|j: int|
        0 <= j < items.len() implies match #[trigger] items[j] {
        PlanItem::File(f) => !f.skip_if_exists,
        PlanItem::Dir(d) => d.on_exists == DirAction::Replace,
    } by {
        assert(item_match(items[j], ms[j], policy));
    }
}

} // verus!
