//! Detected Apple projects and the shell plans that build and run them.

use vstd::prelude::*;
use crate::text::{owned, push_str, chars_of, string_of_chars, str_eq, copy_string, copy_opt_string, opt_view, seq_starts_with, strip_prefix};
use crate::paths::{join_path, path_join, file_stem, extension, path_file_stem, path_extension};
use crate::sorting::{sort_by_text_key, keys_of};
use crate::search::{first_match, lemma_first_match_found, lemma_first_match_absent};

verus! {

#[derive(Clone, Debug, PartialEq, Eq)]
pub enum CapabilityState {
    Available,
    RequiresSetup { reason: String },
    Unavailable { reason: String },
}

impl CapabilityState {
    pub fn is_available(&self) -> (r: bool)
        ensures
            r == (*self is Available),
    {
        match self {
            CapabilityState::Available => true,
            _ => false,
        }
    }
}

#[derive(Clone, Copy, Debug, PartialEq, Eq, Structural)]
pub enum RuntimeAction {
    Run,
    Build,
}

/// The word a runtime action is shown as.
pub open spec fn action_label(action: RuntimeAction) -> Seq<char> {
    match action {
        RuntimeAction::Run => "Run"@,
        RuntimeAction::Build => "Build"@,
    }
}

/// The literal a runtime action is shown as.
pub open spec fn label_text(action: RuntimeAction) -> &'static str {
    match action {
        RuntimeAction::Run => "Run",
        RuntimeAction::Build => "Build",
    }
}

impl RuntimeAction {
    pub fn label(self) -> (r: &'static str)
        ensures
            r@ == action_label(self),
            r == label_text(self),
    {
        match self {
            RuntimeAction::Run => "Run",
            RuntimeAction::Build => "Build",
        }
    }
}

#[derive(Clone, Debug, PartialEq, Eq)]
pub struct RuntimeCapabilitySet {
    pub run: CapabilityState,
    pub build: CapabilityState,
}

#[derive(Clone, Debug, PartialEq, Eq)]
pub struct RuntimeTarget {
    pub id: String,
    pub label: String,
}

#[derive(Clone, Debug, PartialEq, Eq)]
pub struct RuntimeDevice {
    pub id: String,
    pub name: String,
    pub kind: RuntimeDeviceKind,
    pub state: RuntimeDeviceState,
    pub os_version: Option<String>,
}

#[derive(Clone, Copy, Debug, PartialEq, Eq, Structural)]
pub enum RuntimeDeviceKind {
    Simulator,
}

#[derive(Clone, Copy, Debug, PartialEq, Eq, Structural)]
pub enum RuntimeDeviceState {
    Booted,
    Shutdown,
    Unknown,
}

#[derive(Clone, Copy, Debug, PartialEq, Eq, Structural)]
pub enum ProjectKind {
    AppleWorkspace,
    AppleProject,
}

/// A project found in a workspace; the two paths are file system paths as text.
#[derive(Clone, Debug, PartialEq, Eq)]
pub struct DetectedProject {
    pub id: String,
    pub label: String,
    pub kind: ProjectKind,
    pub workspace_root: String,
    pub project_path: String,
    pub targets: Vec<RuntimeTarget>,
    pub devices: Vec<RuntimeDevice>,
    pub capabilities: RuntimeCapabilitySet,
}

/// A command to run for an action; `cwd` is a file system path as text.
#[derive(Clone, Debug, PartialEq, Eq)]
pub struct ExecutionPlan {
    pub label: String,
    pub command: String,
    pub args: Vec<String>,
    pub cwd: String,
    pub command_label: String,
}

#[derive(Clone, Debug, PartialEq, Eq)]
pub struct ExecutionRequest {
    pub project_id: String,
    pub target_id: String,
    pub device_id: Option<String>,
    pub action: RuntimeAction,
}

#[derive(Clone, Debug, Default, PartialEq, Eq)]
pub struct RuntimeCatalog {
    pub projects: Vec<DetectedProject>,
}

/// The name of an action, as it appears in an error.
#[derive(Debug, PartialEq, Eq)]
pub struct RuntimeActionLabel(pub &'static str);

impl From<RuntimeAction> for RuntimeActionLabel {
    fn from(value: RuntimeAction) -> (r: Self) {
        RuntimeActionLabel(value.label())
    }
}

impl vstd::std_specs::convert::FromSpecImpl<RuntimeAction> for RuntimeActionLabel {
    open spec fn obeys_from_spec() -> bool {
        true
    }

    open spec fn from_spec(v: RuntimeAction) -> Self {
        RuntimeActionLabel(label_text(v))
    }
}

#[derive(Debug, PartialEq, Eq)]
pub enum RuntimeError {
    ProjectNotFound(String),
    TargetNotFound(String),
    ActionUnavailable(RuntimeActionLabel, String),
    DeviceRequired,
    DeviceNotFound(String),
    UnsupportedDeviceKind,
}


/// What a runtime error holds, as character sequences.
pub enum RuntimeErrorView {
    ProjectNotFound(Seq<char>),
    TargetNotFound(Seq<char>),
    ActionUnavailable(Seq<char>, Seq<char>),
    DeviceRequired,
    DeviceNotFound(Seq<char>),
    UnsupportedDeviceKind,
}

impl View for RuntimeError {
    type V = RuntimeErrorView;

    open spec fn view(&self) -> RuntimeErrorView {
        match self {
            RuntimeError::ProjectNotFound(s) => RuntimeErrorView::ProjectNotFound(s@),
            RuntimeError::TargetNotFound(s) => RuntimeErrorView::TargetNotFound(s@),
            RuntimeError::ActionUnavailable(l, r) => RuntimeErrorView::ActionUnavailable(l.0@, r@),
            RuntimeError::DeviceRequired => RuntimeErrorView::DeviceRequired,
            RuntimeError::DeviceNotFound(s) => RuntimeErrorView::DeviceNotFound(s@),
            RuntimeError::UnsupportedDeviceKind => RuntimeErrorView::UnsupportedDeviceKind,
        }
    }
}

/// The message a runtime error is shown with.
pub open spec fn spec_runtime_error_message(e: RuntimeErrorView) -> Seq<char> {
    match e {
        RuntimeErrorView::ProjectNotFound(s) => "runtime project `"@ + s + "` was not found"@,
        RuntimeErrorView::TargetNotFound(s) => "runtime target `"@ + s + "` was not found"@,
        RuntimeErrorView::ActionUnavailable(action, reason) => action + " is unavailable: "@ + reason,
        RuntimeErrorView::DeviceRequired => "run requires a device selection"@,
        RuntimeErrorView::DeviceNotFound(s) => "runtime device `"@ + s + "` was not found"@,
        RuntimeErrorView::UnsupportedDeviceKind => "only iOS simulator execution is supported in this phase"@,
    }
}

/// `before`, then `x`, then `after`.
fn framed(before: &str, x: &str, after: &str) -> (r: String)
    ensures
        r@ == before@ + x@ + after@,
{
    let mut m = owned(before);
    push_str(&mut m, x);
    push_str(&mut m, after);
    m
}

impl RuntimeError {
    /// The message the error is shown with.
    pub fn message(&self) -> (r: String)
        ensures
            r@ == spec_runtime_error_message(self@),
    {
        match self {
            RuntimeError::ProjectNotFound(s) => framed("runtime project `", s.as_str(), "` was not found"),
            RuntimeError::TargetNotFound(s) => framed("runtime target `", s.as_str(), "` was not found"),
            RuntimeError::ActionUnavailable(action, reason) => {
                let mut m = owned(action.0);
                push_str(&mut m, " is unavailable: ");
                push_str(&mut m, reason.as_str());
                m
            },
            RuntimeError::DeviceRequired => owned("run requires a device selection"),
            RuntimeError::DeviceNotFound(s) => framed("runtime device `", s.as_str(), "` was not found"),
            RuntimeError::UnsupportedDeviceKind => owned("only iOS simulator execution is supported in this phase"),
        }
    }
}

/// What an execution plan holds, as character sequences.
pub struct ExecutionPlanView {
    pub label: Seq<char>,
    pub command: Seq<char>,
    pub args: Seq<Seq<char>>,
    pub cwd: Seq<char>,
    pub command_label: Seq<char>,
}

impl View for ExecutionPlan {
    type V = ExecutionPlanView;

    open spec fn view(&self) -> ExecutionPlanView {
        ExecutionPlanView {
            label: self.label@,
            command: self.command@,
            args: crate::text::strings_view(self.args@),
            cwd: self.cwd@,
            command_label: self.command_label@,
        }
    }
}

/// The view of a plan-or-error result.
pub open spec fn plan_result_view(r: Result<ExecutionPlan, RuntimeError>) -> Result<ExecutionPlanView, RuntimeErrorView> {
    match r {
        Ok(p) => Ok(p@),
        Err(e) => Err(e@),
    }
}

/// `s` with every single quote written as `'\''`, the way a quoted shell word continues past one.
pub open spec fn escape_quotes(s: Seq<char>) -> Seq<char>
    decreases s.len(),
{
    if s.len() == 0 {
        seq![]
    } else {
        (if s[0] == '\'' { seq!['\'', '\\', '\'', '\''] } else { seq![s[0]] }) + escape_quotes(s.drop_first())
    }
}

/// `s` as one single-quoted shell word.
pub open spec fn shell_quoted(s: Seq<char>) -> Seq<char> {
    seq!['\''] + escape_quotes(s) + seq!['\'']
}

proof fn lemma_escape_append(a: Seq<char>, b: Seq<char>)
    ensures
        escape_quotes(a + b) == escape_quotes(a) + escape_quotes(b),
    decreases a.len(),
{
    if a.len() == 0 {
        assert(a + b =~= b);
    } else {
        assert((a + b).drop_first() =~= a.drop_first() + b);
        lemma_escape_append(a.drop_first(), b);
    }
}

/// `value` as one single-quoted shell word.
fn shell_escape(value: &str) -> (r: String)
    ensures
        r@ == shell_quoted(value@),
{
    let v = chars_of(value);
    let mut out: Vec<char> = Vec::new();
    out.push('\'');
    let mut i: usize = 0;
    while i < v.len()
        invariant
            i <= v.len(),
            out@ == seq!['\''] + escape_quotes(v@.subrange(0, i as int)),
        decreases v.len() - i,
    {
        let c = v[i];
        let ghost before = out@;
        if c == '\'' {
            out.push('\'');
            out.push('\\');
            out.push('\'');
            out.push('\'');
        } else {
            out.push(c);
        }
        proof {
            let head = v@.subrange(0, i as int);
            assert(v@.subrange(0, i + 1) =~= head + seq![c]);
            lemma_escape_append(head, seq![c]);
            assert(seq![c].drop_first() =~= Seq::<char>::empty());
            reveal_with_fuel(escape_quotes, 2);
            assert(escape_quotes(seq![c]) =~= (if c == '\'' { seq!['\'', '\\', '\'', '\''] } else { seq![c] }));
            assert(out@ =~= seq!['\''] + escape_quotes(v@.subrange(0, i + 1)));
        }
        i = i + 1;
    }
    out.push('\'');
    assert(v@.subrange(0, v.len() as int) =~= value@);
    assert(out@ =~= shell_quoted(value@));
    string_of_chars(&out)
}

/// The reason shown for a capability.
pub open spec fn spec_capability_reason(c: CapabilityState) -> Seq<char> {
    match c {
        CapabilityState::Available => "available"@,
        CapabilityState::RequiresSetup { reason } => reason@,
        CapabilityState::Unavailable { reason } => reason@,
    }
}

fn capability_reason(capability: &CapabilityState) -> (r: String)
    ensures
        r@ == spec_capability_reason(*capability),
{
    match capability {
        CapabilityState::Available => owned("available"),
        CapabilityState::RequiresSetup { reason } => reason.clone(),
        CapabilityState::Unavailable { reason } => reason.clone(),
    }
}

/// The `xcodebuild` invocation that selects the project.
pub open spec fn spec_xcode_selector(project: DetectedProject) -> Seq<char> {
    (match project.kind {
        ProjectKind::AppleWorkspace => "xcodebuild -workspace "@,
        ProjectKind::AppleProject => "xcodebuild -project "@,
    }) + shell_quoted(project.project_path@)
}

fn xcode_selector(project: &DetectedProject) -> (r: String)
    ensures
        r@ == spec_xcode_selector(*project),
{
    let mut r = match project.kind {
        ProjectKind::AppleWorkspace => owned("xcodebuild -workspace "),
        ProjectKind::AppleProject => owned("xcodebuild -project "),
    };
    let quoted = shell_escape(project.project_path.as_str());
    push_str(&mut r, quoted.as_str());
    r
}

/// The plan that builds `target` of `project` from its workspace root.
pub open spec fn spec_build_plan(project: DetectedProject, target: Seq<char>) -> ExecutionPlanView {
    ExecutionPlanView {
        label: "Build "@ + project.label@,
        command: "zsh"@,
        args: seq![
            "-lc"@,
            "set -euo pipefail\n"@ + spec_xcode_selector(project) + " -scheme "@ + shell_quoted(target) + " build"@,
        ],
        cwd: project.workspace_root@,
        command_label: "xcodebuild "@ + target + " build"@,
    }
}

fn build_plan(project: &DetectedProject, target: &str) -> (p: ExecutionPlan)
    ensures
        p@ == spec_build_plan(*project, target@),
{
    let mut script = owned("set -euo pipefail\n");
    let selector = xcode_selector(project);
    push_str(&mut script, selector.as_str());
    push_str(&mut script, " -scheme ");
    let quoted = shell_escape(target);
    push_str(&mut script, quoted.as_str());
    push_str(&mut script, " build");
    let mut args: Vec<String> = Vec::new();
    args.push(owned("-lc"));
    args.push(script);
    let mut label = owned("Build ");
    push_str(&mut label, project.label.as_str());
    let mut command_label = owned("xcodebuild ");
    push_str(&mut command_label, target);
    push_str(&mut command_label, " build");
    let p = ExecutionPlan {
        label,
        command_label,
        command: owned("zsh"),
        args,
        cwd: project.workspace_root.clone(),
    };
    assert(p@.args =~= spec_build_plan(*project, target@).args);
    p
}

/// `s` with every `from` replaced by `to`.
pub open spec fn replace_char(s: Seq<char>, from: char, to: char) -> Seq<char> {
    s.map_values(|c: char| if c == from { to } else { c })
}

fn replace_char_in(s: &str, from: char, to: char) -> (r: String)
    ensures
        r@ == replace_char(s@, from, to),
{
    let v = chars_of(s);
    let mut out: Vec<char> = Vec::new();
    let mut i: usize = 0;
    while i < v.len()
        invariant
            i <= v.len(),
            out@ == replace_char(v@.subrange(0, i as int), from, to),
        decreases v.len() - i,
    {
        if v[i] == from {
            out.push(to);
        } else {
            out.push(v[i]);
        }
        i = i + 1;
        assert(out@ =~= replace_char(v@.subrange(0, i as int), from, to));
    }
    assert(v@.subrange(0, v.len() as int) =~= s@);
    string_of_chars(&out)
}

/// Where derived build data of `target` goes, under the workspace root.
pub open spec fn derived_data_dir(root: Seq<char>, target: Seq<char>) -> Seq<char> {
    path_join(path_join(path_join(root, ".glass"@), "app_runtime"@), replace_char(target, '/', '-'))
}

/// The script that builds `target`, installs it on simulator `sim` and launches it.
pub open spec fn spec_run_script(selector: Seq<char>, target: Seq<char>, sim: Seq<char>, data: Seq<char>) -> Seq<char> {
    "set -euo pipefail\n"@
        + "mkdir -p "@ + data + "\n"@
        + "open -a Simulator\n"@
        + "xcrun simctl boot "@ + sim + " >/dev/null 2>&1 || true\n"@
        + "xcrun simctl bootstatus "@ + sim + " -b\n"@
        + selector + " -scheme "@ + target + " -destination id="@ + sim + " -derivedDataPath "@ + data + " build\n"@
        + "app_path=\"$(find "@ + data + "/Build/Products -maxdepth 2 -name '*.app' -print -quit)\"\n"@
        + "if [ -z \"$app_path\" ]; then\n"@
        + "echo 'Glass could not find the built .app bundle.' >&2\n"@
        + "exit 1\n"@
        + "fi\n"@
        + "bundle_id=\"$(/usr/libexec/PlistBuddy -c 'Print :CFBundleIdentifier' \"$app_path/Info.plist\")\"\n"@
        + "xcrun simctl install "@ + sim + " \"$app_path\"\n"@
        + "xcrun simctl launch "@ + sim + " \"$bundle_id\"\n"@
}

/// The plan that builds `target`, then installs and launches it on simulator `sim`.
pub open spec fn spec_run_plan(project: DetectedProject, target: Seq<char>, sim: Seq<char>) -> ExecutionPlanView {
    ExecutionPlanView {
        label: "Run "@ + project.label@,
        command: "zsh"@,
        args: seq![
            "-lc"@,
            spec_run_script(
                spec_xcode_selector(project),
                shell_quoted(target),
                shell_quoted(sim),
                shell_quoted(derived_data_dir(project.workspace_root@, target)),
            ),
        ],
        cwd: project.workspace_root@,
        command_label: "xcodebuild "@ + shell_quoted(target) + " build and launch"@,
    }
}

fn run_plan(project: &DetectedProject, target: &str, simulator_id: &str) -> (p: ExecutionPlan)
    ensures
        p@ == spec_run_plan(*project, target@, simulator_id@),
{
    let dir1 = join_path(project.workspace_root.as_str(), ".glass");
    let dir2 = join_path(dir1.as_str(), "app_runtime");
    let leaf = replace_char_in(target, '/', '-');
    let dir3 = join_path(dir2.as_str(), leaf.as_str());
    let data = shell_escape(dir3.as_str());
    let d = data.as_str();
    let selector = xcode_selector(project);
    let t = shell_escape(target);
    let sim = shell_escape(simulator_id);
    let s = sim.as_str();

    let mut script = owned("set -euo pipefail\n");
    push_str(&mut script, "mkdir -p ");
    push_str(&mut script, d);
    push_str(&mut script, "\n");
    push_str(&mut script, "open -a Simulator\n");
    push_str(&mut script, "xcrun simctl boot ");
    push_str(&mut script, s);
    push_str(&mut script, " >/dev/null 2>&1 || true\n");
    push_str(&mut script, "xcrun simctl bootstatus ");
    push_str(&mut script, s);
    push_str(&mut script, " -b\n");
    push_str(&mut script, selector.as_str());
    push_str(&mut script, " -scheme ");
    push_str(&mut script, t.as_str());
    push_str(&mut script, " -destination id=");
    push_str(&mut script, s);
    push_str(&mut script, " -derivedDataPath ");
    push_str(&mut script, d);
    push_str(&mut script, " build\n");
    push_str(&mut script, "app_path=\"$(find ");
    push_str(&mut script, d);
    push_str(&mut script, "/Build/Products -maxdepth 2 -name '*.app' -print -quit)\"\n");
    push_str(&mut script, "if [ -z \"$app_path\" ]; then\n");
    push_str(&mut script, "echo 'Glass could not find the built .app bundle.' >&2\n");
    push_str(&mut script, "exit 1\n");
    push_str(&mut script, "fi\n");
    push_str(&mut script, "bundle_id=\"$(/usr/libexec/PlistBuddy -c 'Print :CFBundleIdentifier' \"$app_path/Info.plist\")\"\n");
    push_str(&mut script, "xcrun simctl install ");
    push_str(&mut script, s);
    push_str(&mut script, " \"$app_path\"\n");
    push_str(&mut script, "xcrun simctl launch ");
    push_str(&mut script, s);
    push_str(&mut script, " \"$bundle_id\"\n");

    let mut args: Vec<String> = Vec::new();
    args.push(owned("-lc"));
    args.push(script);
    let mut label = owned("Run ");
    push_str(&mut label, project.label.as_str());
    let mut command_label = owned("xcodebuild ");
    push_str(&mut command_label, t.as_str());
    push_str(&mut command_label, " build and launch");
    let p = ExecutionPlan {
        label,
        command_label,
        command: owned("zsh"),
        args,
        cwd: project.workspace_root.clone(),
    };
    assert(p@.args =~= spec_run_plan(*project, target@, simulator_id@).args);
    p
}


/// The first project with the given identifier.
pub open spec fn project_index(projects: Seq<DetectedProject>, id: Seq<char>) -> Option<int> {
    first_match(projects, |d: DetectedProject| d.id@ == id)
}

/// The first target with the given identifier.
pub open spec fn target_index(targets: Seq<RuntimeTarget>, id: Seq<char>) -> Option<int> {
    first_match(targets, |t: RuntimeTarget| t.id@ == id)
}

/// The first device with the given identifier.
pub open spec fn device_index(devices: Seq<RuntimeDevice>, id: Seq<char>) -> Option<int> {
    first_match(devices, |d: RuntimeDevice| d.id@ == id)
}

/// What a catalog answers to an execution request.
pub open spec fn spec_execution_plan(projects: Seq<DetectedProject>, req: ExecutionRequest) -> Result<ExecutionPlanView, RuntimeErrorView> {
    match project_index(projects, req.project_id@) {
        None => Err(RuntimeErrorView::ProjectNotFound(req.project_id@)),
        Some(pi) => {
            let project = projects[pi];
            match target_index(project.targets@, req.target_id@) {
                None => Err(RuntimeErrorView::TargetNotFound(req.target_id@)),
                Some(ti) => {
                    let target = project.targets@[ti].label@;
                    match req.action {
                        RuntimeAction::Build => if project.capabilities.build is Available {
                            Ok(spec_build_plan(project, target))
                        } else {
                            Err(RuntimeErrorView::ActionUnavailable("Build"@, spec_capability_reason(project.capabilities.build)))
                        },
                        RuntimeAction::Run => if project.capabilities.run is Available {
                            match req.device_id {
                                None => Err(RuntimeErrorView::DeviceRequired),
                                Some(did) => match device_index(project.devices@, did@) {
                                    None => Err(RuntimeErrorView::DeviceNotFound(did@)),
                                    Some(di) => Ok(spec_run_plan(project, target, project.devices@[di].id@)),
                                },
                            }
                        } else {
                            Err(RuntimeErrorView::ActionUnavailable("Run"@, spec_capability_reason(project.capabilities.run)))
                        },
                    }
                },
            }
        },
    }
}

fn find_project(projects: &Vec<DetectedProject>, id: &String) -> (r: Option<usize>)
    ensures
        match r {
            Some(i) => project_index(projects@, id@) == Some(i as int) && i < projects.len(),
            None => project_index(projects@, id@) is None,
        },
{
    let ghost p = |d: DetectedProject| d.id@ == id@;
    let mut i: usize = 0;
    while i < projects.len()
        invariant
            i <= projects.len(),
            p == (|d: DetectedProject| d.id@ == id@),
            forall|j: int| 0 <= j < i ==> !p(projects@[j]),
        decreases projects.len() - i,
    {
        if projects[i].id == *id {
            proof { lemma_first_match_found(projects@, p, i as int); }
            return Some(i);
        }
        i = i + 1;
    }
    proof { lemma_first_match_absent(projects@, p); }
    None
}

fn find_target(targets: &Vec<RuntimeTarget>, id: &String) -> (r: Option<usize>)
    ensures
        match r {
            Some(i) => target_index(targets@, id@) == Some(i as int) && i < targets.len(),
            None => target_index(targets@, id@) is None,
        },
{
    let ghost p = |t: RuntimeTarget| t.id@ == id@;
    let mut i: usize = 0;
    while i < targets.len()
        invariant
            i <= targets.len(),
            p == (|t: RuntimeTarget| t.id@ == id@),
            forall|j: int| 0 <= j < i ==> !p(targets@[j]),
        decreases targets.len() - i,
    {
        if targets[i].id == *id {
            proof { lemma_first_match_found(targets@, p, i as int); }
            return Some(i);
        }
        i = i + 1;
    }
    proof { lemma_first_match_absent(targets@, p); }
    None
}

fn find_device(devices: &Vec<RuntimeDevice>, id: &String) -> (r: Option<usize>)
    ensures
        match r {
            Some(i) => device_index(devices@, id@) == Some(i as int) && i < devices.len(),
            None => device_index(devices@, id@) is None,
        },
{
    let ghost p = |d: RuntimeDevice| d.id@ == id@;
    let mut i: usize = 0;
    while i < devices.len()
        invariant
            i <= devices.len(),
            p == (|d: RuntimeDevice| d.id@ == id@),
            forall|j: int| 0 <= j < i ==> !p(devices@[j]),
        decreases devices.len() - i,
    {
        if devices[i].id == *id {
            proof { lemma_first_match_found(devices@, p, i as int); }
            return Some(i);
        }
        i = i + 1;
    }
    proof { lemma_first_match_absent(devices@, p); }
    None
}

impl RuntimeCatalog {
    /// The plan for building or running a target of a detected project.
    pub fn build_execution_plan(&self, request: &ExecutionRequest) -> (r: Result<ExecutionPlan, RuntimeError>)
        ensures
            plan_result_view(r) == spec_execution_plan(self.projects@, *request),
    {
        let pi = match find_project(&self.projects, &request.project_id) {
            Some(i) => i,
            None => return Err(RuntimeError::ProjectNotFound(request.project_id.clone())),
        };
        let project = &self.projects[pi];
        let ti = match find_target(&project.targets, &request.target_id) {
            Some(i) => i,
            None => return Err(RuntimeError::TargetNotFound(request.target_id.clone())),
        };
        let target = &project.targets[ti];

        match request.action {
            RuntimeAction::Build => {
                if project.capabilities.build.is_available() {
                    Ok(build_plan(project, target.label.as_str()))
                } else {
                    Err(RuntimeError::ActionUnavailable(
                        RuntimeActionLabel::from(request.action),
                        capability_reason(&project.capabilities.build),
                    ))
                }
            },
            RuntimeAction::Run => {
                if project.capabilities.run.is_available() {
                    let device_id = match &request.device_id {
                        Some(d) => d,
                        None => return Err(RuntimeError::DeviceRequired),
                    };
                    let di = match find_device(&project.devices, device_id) {
                        Some(i) => i,
                        None => return Err(RuntimeError::DeviceNotFound(device_id.clone())),
                    };
                    let device = &project.devices[di];
                    match device.kind {
                        RuntimeDeviceKind::Simulator => Ok(run_plan(project, target.label.as_str(), device.id.as_str())),
                    }
                } else {
                    Err(RuntimeError::ActionUnavailable(
                        RuntimeActionLabel::from(request.action),
                        capability_reason(&project.capabilities.run),
                    ))
                }
            },
        }
    }
}


/// The prefix of the simulator runtime identifiers that `simctl` lists.
pub open spec fn runtime_prefix() -> Seq<char> {
    "com.apple.CoreSimulator.SimRuntime."@
}

/// The iOS version a simulator runtime identifier names, such as `iOS 18.2`.
pub open spec fn spec_os_version(runtime: Seq<char>) -> Option<Seq<char>> {
    if !seq_starts_with(runtime, runtime_prefix()) {
        None
    } else {
        let rest = replace_char(runtime.subrange(runtime_prefix().len() as int, runtime.len() as int), '-', '.');
        if seq_starts_with(rest, "iOS."@) {
            Some("iOS "@ + rest.subrange(4, rest.len() as int))
        } else {
            None
        }
    }
}

/// The iOS version a simulator runtime identifier names.
pub fn runtime_to_os_version(runtime: &str) -> (r: Option<String>)
    ensures
        opt_view(r) == spec_os_version(runtime@),
{
    let trimmed = match strip_prefix(runtime, "com.apple.CoreSimulator.SimRuntime.") {
        Some(t) => t,
        None => return None,
    };
    let dotted = replace_char_in(trimmed.as_str(), '-', '.');
    match strip_prefix(dotted.as_str(), "iOS.") {
        Some(version) => {
            let mut r = owned("iOS ");
            push_str(&mut r, version.as_str());
            proof {
                reveal_strlit("iOS.");
            }
            Some(r)
        },
        None => None,
    }
}

/// The labels of the scheme files among `paths`, in the order they are listed.
pub open spec fn scheme_labels(paths: Seq<Seq<char>>) -> Seq<Seq<char>>
    decreases paths.len(),
{
    if paths.len() == 0 {
        seq![]
    } else {
        let p = paths.last();
        scheme_labels(paths.drop_last()) + (if path_extension(p) == Some("xcscheme"@) && path_file_stem(p) is Some {
            seq![path_file_stem(p)->0]
        } else {
            seq![]
        })
    }
}

/// The targets named by the shared scheme files among `scheme_paths`, sorted by label.
pub fn targets_from_scheme_files(scheme_paths: &Vec<String>) -> (r: Vec<RuntimeTarget>)
    ensures
        r@.map_values(|t: RuntimeTarget| t.label@).to_multiset() == scheme_labels(crate::text::strings_view(scheme_paths@)).to_multiset(),
        forall|i: int| 0 <= i < r.len() ==> #[trigger] r@[i].id@ == r@[i].label@,
        forall|i: int, j: int| 0 <= i < j < r.len() ==> crate::text::seq_le(r@[i].label@, r@[j].label@),
{
    let mut keyed: Vec<(String, RuntimeTarget)> = Vec::new();
    let mut i: usize = 0;
    while i < scheme_paths.len()
        invariant
            i <= scheme_paths.len(),
            keyed@.map_values(|p: (String, RuntimeTarget)| p.1.label@)
                == scheme_labels(crate::text::strings_view(scheme_paths@.subrange(0, i as int))),
            forall|k: int| 0 <= k < keyed.len() ==> (#[trigger] keyed@[k]).1.id@ == keyed@[k].1.label@
                && keyed@[k].0@ == keyed@[k].1.label@,
        decreases scheme_paths.len() - i,
    {
        let path = scheme_paths[i].as_str();
        let ghost before = keyed@;
        let is_scheme = match extension(path) {
            Some(ext) => str_eq(ext.as_str(), "xcscheme"),
            None => false,
        };
        if is_scheme {
            match file_stem(path) {
                Some(label) => {
                    let key = copy_string(&label);
                    let id = copy_string(&label);
                    keyed.push((key, RuntimeTarget { id, label }));
                },
                None => {},
            }
        }
        proof {
            let sv = crate::text::strings_view(scheme_paths@.subrange(0, i + 1));
            assert(sv.drop_last() =~= crate::text::strings_view(scheme_paths@.subrange(0, i as int)));
            assert(sv.last() == path@);
            assert(keyed@.map_values(|p: (String, RuntimeTarget)| p.1.label@) =~= scheme_labels(sv));
        }
        i = i + 1;
    }
    assert(scheme_paths@.subrange(0, scheme_paths.len() as int) =~= scheme_paths@);
    let sorted = sort_by_text_key(keyed);
    proof {
        crate::sorting::lemma_map_preserves_multiset(sorted@, keyed@, |p: (String, RuntimeTarget)| p.1.label@);
    }
    let ghost all = sorted@;
    proof {
        broadcast use vstd::seq_lib::group_to_multiset_ensures;
        assert forall|k: int| 0 <= k < all.len() implies (#[trigger] all[k]).1.id@ == all[k].1.label@
            && all[k].0@ == all[k].1.label@ by {
            let x = all[k];
            assert(all.contains(x));
            assert(all.to_multiset().count(x) > 0);
            assert(keyed@.contains(x));
        }
    }
    let mut r: Vec<RuntimeTarget> = Vec::new();
    for p in it: sorted.into_iter()
        invariant
            it.seq() == all,
            r@ == all.take(it.index() as int).map_values(|p: (String, RuntimeTarget)| p.1),
    {
        r.push(p.1);
        proof {
            let k = it.index() as int;
            assert(all.take(k + 1) =~= all.take(k).push(all[k]));
            assert(r@ =~= all.take(k + 1).map_values(|p: (String, RuntimeTarget)| p.1));
        }
    }
    proof {
        assert(all.take(all.len() as int) =~= all);
        assert(r@.map_values(|t: RuntimeTarget| t.label@) =~= all.map_values(|p: (String, RuntimeTarget)| p.1.label@));
        assert forall|i: int, j: int| 0 <= i < j < r.len() implies crate::text::seq_le(r@[i].label@, r@[j].label@) by {
            assert(keys_of(all)[i] == all[i].0@);
            assert(keys_of(all)[j] == all[j].0@);
            assert(r@[i] == all[i].1);
            assert(r@[j] == all[j].1);
            assert(all[i].0@ == all[i].1.label@);
            assert(all[j].0@ == all[j].1.label@);
        }
    }
    r
}


/// One device entry of a `simctl` device listing.
#[derive(Clone, Debug, PartialEq, Eq)]
pub struct SimulatorRecord {
    pub udid: String,
    pub is_available: bool,
    pub state: String,
    pub name: String,
}

/// The devices `simctl` lists under one simulator runtime.
#[derive(Clone, Debug, PartialEq, Eq)]
pub struct SimulatorRuntimeListing {
    pub runtime: String,
    pub devices: Vec<SimulatorRecord>,
}

/// What a detected device holds: identifier, name, state and OS version.
pub type DeviceView = (Seq<char>, Seq<char>, RuntimeDeviceState, Option<Seq<char>>);

pub open spec fn device_view(d: RuntimeDevice) -> DeviceView {
    (d.id@, d.name@, d.state, opt_view(d.os_version))
}

/// The state a `simctl` state word stands for.
pub open spec fn spec_device_state(state: Seq<char>) -> RuntimeDeviceState {
    if state == "Booted"@ {
        RuntimeDeviceState::Booted
    } else if state == "Shutdown"@ {
        RuntimeDeviceState::Shutdown
    } else {
        RuntimeDeviceState::Unknown
    }
}

/// The available devices of one runtime, as detected devices, in listing order.
pub open spec fn available_devices(runtime: Seq<char>, records: Seq<SimulatorRecord>) -> Seq<DeviceView>
    decreases records.len(),
{
    if records.len() == 0 {
        seq![]
    } else {
        let d = records.last();
        available_devices(runtime, records.drop_last()) + (if d.is_available {
            seq![(d.udid@, d.name@, spec_device_state(d.state@), spec_os_version(runtime))]
        } else {
            seq![]
        })
    }
}

/// The available devices of all runtimes, in listing order.
pub open spec fn listed_devices(runtimes: Seq<SimulatorRuntimeListing>) -> Seq<DeviceView>
    decreases runtimes.len(),
{
    if runtimes.len() == 0 {
        seq![]
    } else {
        listed_devices(runtimes.drop_last()) + available_devices(runtimes.last().runtime@, runtimes.last().devices@)
    }
}

fn device_state(state: &str) -> (r: RuntimeDeviceState)
    ensures
        r == spec_device_state(state@),
{
    if str_eq(state, "Booted") {
        RuntimeDeviceState::Booted
    } else if str_eq(state, "Shutdown") {
        RuntimeDeviceState::Shutdown
    } else {
        RuntimeDeviceState::Unknown
    }
}

/// What the devices hold, in order.
pub open spec fn device_views(s: Seq<RuntimeDevice>) -> Seq<DeviceView> {
    s.map_values(|d: RuntimeDevice| device_view(d))
}

/// The devices of a list that have the name `k`, in order.
pub open spec fn devices_named(s: Seq<DeviceView>, k: Seq<char>) -> Seq<DeviceView> {
    s.filter(|d: DeviceView| d.1 == k)
}

/// The available simulators of a `simctl` listing, sorted by name; simulators with the same
/// name keep the order of the listing.
pub fn simulators_from_listing(runtimes: &Vec<SimulatorRuntimeListing>) -> (r: Vec<RuntimeDevice>)
    ensures
        r@.map_values(|d: RuntimeDevice| device_view(d)).to_multiset() == listed_devices(runtimes@).to_multiset(),
        forall|k: Seq<char>| #[trigger] devices_named(device_views(r@), k)
            == devices_named(listed_devices(runtimes@), k),
        forall|i: int, j: int| 0 <= i < j < r.len() ==> crate::text::seq_le(r@[i].name@, r@[j].name@),
        forall|i: int| 0 <= i < r.len() ==> (#[trigger] r@[i]).kind == RuntimeDeviceKind::Simulator,
{
    let mut keyed: Vec<(String, RuntimeDevice)> = Vec::new();
    let mut i: usize = 0;
    while i < runtimes.len()
        invariant
            i <= runtimes.len(),
            keyed@.map_values(|p: (String, RuntimeDevice)| device_view(p.1)) == listed_devices(runtimes@.take(i as int)),
            forall|k: int| 0 <= k < keyed.len() ==> (#[trigger] keyed@[k]).0@ == keyed@[k].1.name@
                && keyed@[k].1.kind == RuntimeDeviceKind::Simulator,
        decreases runtimes.len() - i,
    {
        let listing = &runtimes[i];
        let os_version = runtime_to_os_version(listing.runtime.as_str());
        let ghost base = keyed@.map_values(|p: (String, RuntimeDevice)| device_view(p.1));
        let mut j: usize = 0;
        while j < listing.devices.len()
            invariant
                j <= listing.devices.len(),
                opt_view(os_version) == spec_os_version(listing.runtime@),
                keyed@.map_values(|p: (String, RuntimeDevice)| device_view(p.1))
                    == base + available_devices(listing.runtime@, listing.devices@.take(j as int)),
                forall|k: int| 0 <= k < keyed.len() ==> (#[trigger] keyed@[k]).0@ == keyed@[k].1.name@
                    && keyed@[k].1.kind == RuntimeDeviceKind::Simulator,
            decreases listing.devices.len() - j,
        {
            let record = &listing.devices[j];
            let ghost before = keyed@;
            if record.is_available {
                let device = RuntimeDevice {
                    id: copy_string(&record.udid),
                    name: copy_string(&record.name),
                    kind: RuntimeDeviceKind::Simulator,
                    state: device_state(record.state.as_str()),
                    os_version: copy_opt_string(&os_version),
                };
                keyed.push((copy_string(&record.name), device));
                assert(keyed@.map_values(|p: (String, RuntimeDevice)| device_view(p.1))
                    =~= before.map_values(|p: (String, RuntimeDevice)| device_view(p.1)).push(
                        (record.udid@, record.name@, spec_device_state(record.state@), spec_os_version(listing.runtime@))));
            }
            proof {
                let t = listing.devices@.take(j + 1);
                assert(t.drop_last() =~= listing.devices@.take(j as int));
                assert(t.last() == *record);
                assert(keyed@.map_values(|p: (String, RuntimeDevice)| device_view(p.1))
                    =~= base + available_devices(listing.runtime@, t));
            }
            j = j + 1;
        }
        proof {
            let t = runtimes@.take(i + 1);
            assert(t.drop_last() =~= runtimes@.take(i as int));
            assert(t.last() == *listing);
            assert(listing.devices@.take(listing.devices.len() as int) =~= listing.devices@);
        }
        i = i + 1;
    }
    assert(runtimes@.take(runtimes.len() as int) =~= runtimes@);
    let sorted = sort_by_text_key(keyed);
    let ghost all = sorted@;
    proof {
        broadcast use vstd::seq_lib::group_to_multiset_ensures;
        crate::sorting::lemma_map_preserves_multiset(all, keyed@, |p: (String, RuntimeDevice)| device_view(p.1));
        assert forall|k: int| 0 <= k < all.len() implies (#[trigger] all[k]).0@ == all[k].1.name@
            && all[k].1.kind == RuntimeDeviceKind::Simulator by {
            let x = all[k];
            assert(all.contains(x));
            assert(all.to_multiset().count(x) > 0);
            assert(keyed@.contains(x));
        }
    }
    let r = crate::sorting::values_of(sorted);
    proof {
        assert(r@.map_values(|d: RuntimeDevice| device_view(d)) =~= all.map_values(|p: (String, RuntimeDevice)| device_view(p.1)));
        assert forall|i: int, j: int| 0 <= i < j < r.len() implies crate::text::seq_le(r@[i].name@, r@[j].name@) by {
            assert(keys_of(all)[i] == all[i].0@);
            assert(keys_of(all)[j] == all[j].0@);
            assert(r@[i] == all[i].1);
            assert(r@[j] == all[j].1);
        }
        assert forall|i: int| 0 <= i < r.len() implies (#[trigger] r@[i]).kind == RuntimeDeviceKind::Simulator by {
            assert(r@[i] == all[i].1);
        }
        let f = |p: (String, RuntimeDevice)| device_view(p.1);
        let listed = listed_devices(runtimes@);
        assert(keyed@.map_values(f) == listed);
        assert(r@.map_values(|d: RuntimeDevice| device_view(d)) == all.map_values(f));
        assert(device_views(r@) == all.map_values(f));
        assert forall|k: Seq<char>| #[trigger] devices_named(device_views(r@), k)
            == devices_named(listed, k) by {
            let q = |d: DeviceView| d.1 == k;
            let pk = |e: (String, RuntimeDevice)| e.0@ == k;
            let qk = |e: (String, RuntimeDevice)| q(f(e));
            crate::sorting::lemma_filter_map(all, f, q);
            crate::sorting::lemma_filter_map(keyed@, f, q);
            assert forall|i: int| 0 <= i < all.len() implies pk(#[trigger] all[i]) == qk(all[i]) by {}
            assert forall|i: int| 0 <= i < keyed@.len() implies pk(#[trigger] keyed@[i]) == qk(keyed@[i]) by {}
            crate::sorting::lemma_filter_congruent(all, pk, qk);
            crate::sorting::lemma_filter_congruent(keyed@, pk, qk);
            assert(crate::sorting::with_text_key(all, k) == crate::sorting::with_text_key(keyed@, k));
            assert(crate::sorting::with_text_key(all, k) == all.filter(pk));
            assert(crate::sorting::with_text_key(keyed@, k) == keyed@.filter(pk));
        }
    }
    r
}

/// The capabilities of a project, given whether the toolchain answered and whether a simulator is listed.
pub open spec fn spec_capabilities(toolchain_ready: bool, has_devices: bool) -> (CapabilityStateView, CapabilityStateView) {
    (
        if !toolchain_ready {
            CapabilityStateView::RequiresSetup(install_xcode_reason())
        } else if !has_devices {
            CapabilityStateView::RequiresSetup(boot_simulator_reason())
        } else {
            CapabilityStateView::Available
        },
        if toolchain_ready {
            CapabilityStateView::Available
        } else {
            CapabilityStateView::RequiresSetup(install_xcode_reason())
        },
    )
}

pub open spec fn install_xcode_reason() -> Seq<char> {
    "Install Xcode and its command line tools on this Mac."@
}

pub open spec fn boot_simulator_reason() -> Seq<char> {
    "Boot an iOS simulator in Xcode before running."@
}

/// What a capability state holds, as character sequences.
pub enum CapabilityStateView {
    Available,
    RequiresSetup(Seq<char>),
    Unavailable(Seq<char>),
}

impl View for CapabilityState {
    type V = CapabilityStateView;

    open spec fn view(&self) -> CapabilityStateView {
        match self {
            CapabilityState::Available => CapabilityStateView::Available,
            CapabilityState::RequiresSetup { reason } => CapabilityStateView::RequiresSetup(reason@),
            CapabilityState::Unavailable { reason } => CapabilityStateView::Unavailable(reason@),
        }
    }
}

/// The run and build capabilities of a project.
pub fn capabilities_for(toolchain_ready: bool, has_devices: bool) -> (c: RuntimeCapabilitySet)
    ensures
        (c.run@, c.build@) == spec_capabilities(toolchain_ready, has_devices),
{
    RuntimeCapabilitySet {
        build: if toolchain_ready {
            CapabilityState::Available
        } else {
            CapabilityState::RequiresSetup { reason: owned("Install Xcode and its command line tools on this Mac.") }
        },
        run: if !toolchain_ready {
            CapabilityState::RequiresSetup { reason: owned("Install Xcode and its command line tools on this Mac.") }
        } else if !has_devices {
            CapabilityState::RequiresSetup { reason: owned("Boot an iOS simulator in Xcode before running.") }
        } else {
            CapabilityState::Available
        },
    }
}

/// The label a project is shown with: its file stem, or `Apple App` without one.
pub open spec fn spec_project_label(project_path: Seq<char>) -> Seq<char> {
    match path_file_stem(project_path) {
        Some(stem) => stem,
        None => "Apple App"@,
    }
}

/// The project described by what detection found, or none when it has no targets.
pub fn assemble_detected_project(
    workspace_root: &str,
    project_path: &str,
    targets: Vec<RuntimeTarget>,
    toolchain_ready: bool,
    devices: Vec<RuntimeDevice>,
) -> (r: Option<DetectedProject>)
    ensures
        targets.len() == 0 ==> r is None,
        targets.len() > 0 ==> (r matches Some(p) && {
            &&& p.id@ == project_path@
            &&& p.label@ == spec_project_label(project_path@)
            &&& p.kind == (if path_extension(project_path@) == Some("xcworkspace"@) {
                ProjectKind::AppleWorkspace
            } else {
                ProjectKind::AppleProject
            })
            &&& p.workspace_root@ == workspace_root@
            &&& p.project_path@ == project_path@
            &&& p.targets == targets
            &&& p.devices == devices
            &&& (p.capabilities.run@, p.capabilities.build@) == spec_capabilities(toolchain_ready, devices.len() > 0)
        }),
{
    if targets.len() == 0 {
        return None;
    }
    let capabilities = capabilities_for(toolchain_ready, devices.len() > 0);
    let label = match file_stem(project_path) {
        Some(stem) => stem,
        None => owned("Apple App"),
    };
    let is_workspace = match extension(project_path) {
        Some(ext) => str_eq(ext.as_str(), "xcworkspace"),
        None => false,
    };
    Some(DetectedProject {
        id: owned(project_path),
        label,
        kind: if is_workspace { ProjectKind::AppleWorkspace } else { ProjectKind::AppleProject },
        workspace_root: owned(workspace_root),
        project_path: owned(project_path),
        targets,
        devices,
        capabilities,
    })
}

/// An Xcode workspace or project found while walking a workspace, with what selection needs of it.
#[derive(Clone, Debug, PartialEq, Eq)]
pub struct XcodeCandidate {
    pub path: String,
    pub extension: Option<String>,
    pub parent_extension: Option<String>,
    pub component_count: usize,
}

/// Whether the workspace walk skips a directory entry: hidden entries below the root, and
/// dependency and build output directories.
pub open spec fn spec_skips_entry(name: Seq<char>, depth: usize) -> bool {
    (depth > 0 && name.len() > 0 && name[0] == '.')
        || name == "node_modules"@ || name == "Pods"@ || name == "build"@
        || name == "DerivedData"@ || name == "vendor"@
}

/// Whether the walk for Xcode projects skips an entry with this file name at this depth.
pub fn skips_entry(name: &str, depth: usize) -> (r: bool)
    ensures
        r == spec_skips_entry(name@, depth),
{
    let hidden = if depth > 0 {
        let v = chars_of(name);
        v.len() > 0 && v[0] == '.'
    } else {
        false
    };
    hidden || str_eq(name, "node_modules") || str_eq(name, "Pods") || str_eq(name, "build")
        || str_eq(name, "DerivedData") || str_eq(name, "vendor")
}

/// Whether a candidate is a workspace that does not sit inside a project bundle.
pub open spec fn is_standalone_workspace(c: XcodeCandidate) -> bool {
    opt_view(c.extension) == Some("xcworkspace"@) && opt_view(c.parent_extension) != Some("xcodeproj"@)
}

/// Whether a candidate is a project bundle.
pub open spec fn is_project_bundle(c: XcodeCandidate) -> bool {
    opt_view(c.extension) == Some("xcodeproj"@)
}

/// Candidate `i` is the first, in walk order, among those of `kind` with the fewest path components.
pub open spec fn is_shallowest(cs: Seq<XcodeCandidate>, kind: spec_fn(XcodeCandidate) -> bool, i: int) -> bool {
    &&& 0 <= i < cs.len()
    &&& kind(cs[i])
    &&& forall|j: int| 0 <= j < cs.len() && kind(cs[j]) ==> cs[i].component_count <= cs[j].component_count
    &&& forall|j: int| 0 <= j < i && kind(cs[j]) ==> cs[i].component_count < cs[j].component_count
}

fn shallowest(cs: &Vec<XcodeCandidate>, want_workspace: bool) -> (r: Option<usize>)
    ensures
        match r {
            Some(i) => is_shallowest(cs@, if want_workspace { |c: XcodeCandidate| is_standalone_workspace(c) } else { |c: XcodeCandidate| is_project_bundle(c) }, i as int),
            None => forall|j: int| 0 <= j < cs.len() ==> !(if want_workspace { is_standalone_workspace(#[trigger] cs@[j]) } else { is_project_bundle(cs@[j]) }),
        },
{
    let ghost kind = if want_workspace { |c: XcodeCandidate| is_standalone_workspace(c) } else { |c: XcodeCandidate| is_project_bundle(c) };
    let mut best: Option<usize> = None;
    let mut i: usize = 0;
    while i < cs.len()
        invariant
            i <= cs.len(),
            kind == (if want_workspace { |c: XcodeCandidate| is_standalone_workspace(c) } else { |c: XcodeCandidate| is_project_bundle(c) }),
            match best {
                Some(b) => b < i && kind(cs@[b as int])
                    && (forall|j: int| 0 <= j < i && kind(cs@[j]) ==> cs@[b as int].component_count <= cs@[j].component_count)
                    && (forall|j: int| 0 <= j < b && kind(cs@[j]) ==> cs@[b as int].component_count < cs@[j].component_count),
                None => forall|j: int| 0 <= j < i ==> !kind(cs@[j]),
            },
        decreases cs.len() - i,
    {
        let c = &cs[i];
        let matches = if want_workspace {
            let ext_ok = match &c.extension { Some(e) => str_eq(e.as_str(), "xcworkspace"), None => false };
            let parent_project = match &c.parent_extension { Some(e) => str_eq(e.as_str(), "xcodeproj"), None => false };
            ext_ok && !parent_project
        } else {
            match &c.extension { Some(e) => str_eq(e.as_str(), "xcodeproj"), None => false }
        };
        assert(matches == kind(cs@[i as int]));
        if matches {
            match best {
                Some(b) => {
                    if c.component_count < cs[b].component_count {
                        best = Some(i);
                    }
                },
                None => {
                    best = Some(i);
                },
            }
        }
        i = i + 1;
    }
    best
}

/// The project to open in a workspace: the shallowest standalone workspace, else the
/// shallowest project bundle; among equally shallow ones, the first found.
pub fn select_xcode_project(candidates: &Vec<XcodeCandidate>) -> (r: Option<String>)
    ensures
        (exists|i: int| 0 <= i < candidates.len() && is_standalone_workspace(#[trigger] candidates@[i])) ==> (r matches Some(p)
            && exists|i: int| is_shallowest(candidates@, |c: XcodeCandidate| is_standalone_workspace(c), i) && p@ == candidates@[i].path@),
        (forall|i: int| 0 <= i < candidates.len() ==> !is_standalone_workspace(#[trigger] candidates@[i]))
            && (exists|i: int| 0 <= i < candidates.len() && is_project_bundle(#[trigger] candidates@[i])) ==> (r matches Some(p)
            && exists|i: int| is_shallowest(candidates@, |c: XcodeCandidate| is_project_bundle(c), i) && p@ == candidates@[i].path@),
        (forall|i: int| 0 <= i < candidates.len() ==> !is_standalone_workspace(#[trigger] candidates@[i]) && !is_project_bundle(candidates@[i])) ==> r is None,
{
    match shallowest(candidates, true) {
        Some(i) => Some(copy_string(&candidates[i].path)),
        None => match shallowest(candidates, false) {
            Some(i) => Some(copy_string(&candidates[i].path)),
            None => None,
        },
    }
}


/// What a command printed and whether it exited successfully.
#[derive(Clone, Debug, PartialEq, Eq)]
pub struct CommandOutput {
    pub success: bool,
    pub stdout: String,
    pub stderr: String,
}

/// The Xcode toolchain is ready when `xcodebuild -version` could be run and succeeded.
pub open spec fn spec_toolchain_ready(version_output: Option<CommandOutput>) -> bool {
    version_output matches Some(o) && o.success
}

/// Whether the Xcode toolchain answered `xcodebuild -version` (`None`: it could not be run).
pub fn toolchain_ready(version_output: &Option<CommandOutput>) -> (r: bool)
    ensures
        r == spec_toolchain_ready(*version_output),
{
    match version_output {
        Some(o) => o.success,
        None => false,
    }
}

/// What detecting an Apple project in a workspace found: the project picked by
/// [`select_xcode_project`], the files in its shared scheme directory, what
/// `xcodebuild -version` and `xcrun simctl list devices --json` answered (`None`: not run,
/// or could not be run), and the device listing read from the latter's output (`None`:
/// not read, or not a listing).
#[derive(Clone, Debug, PartialEq, Eq)]
pub struct DetectionFindings {
    pub workspace_root: String,
    pub project_path: String,
    pub scheme_files: Vec<String>,
    pub version_output: Option<CommandOutput>,
    pub simulator_output: Option<CommandOutput>,
    pub simulator_listing: Option<Vec<SimulatorRuntimeListing>>,
}

/// The simulators a detection lists: those of the listing, when the toolchain is ready
/// and `simctl` ran and succeeded; none otherwise.
pub open spec fn spec_detected_devices(f: DetectionFindings) -> Seq<DeviceView> {
    if spec_toolchain_ready(f.version_output) && spec_toolchain_ready(f.simulator_output) {
        match f.simulator_listing {
            Some(l) => listed_devices(l@),
            None => seq![],
        }
    } else {
        seq![]
    }
}

/// The project detection reports from its findings: none when the project has no shared
/// scheme; otherwise the project with its schemes as targets and its simulators as devices,
/// each sorted by label and name, and capabilities that follow from the toolchain and devices.
pub fn detect_project(findings: DetectionFindings) -> (r: Option<DetectedProject>)
    ensures
        scheme_labels(crate::text::strings_view(findings.scheme_files@)).len() == 0 ==> r is None,
        scheme_labels(crate::text::strings_view(findings.scheme_files@)).len() > 0 ==> (r matches Some(p) && {
            &&& p.id@ == findings.project_path@
            &&& p.label@ == spec_project_label(findings.project_path@)
            &&& p.kind == (if path_extension(findings.project_path@) == Some("xcworkspace"@) {
                ProjectKind::AppleWorkspace
            } else {
                ProjectKind::AppleProject
            })
            &&& p.workspace_root@ == findings.workspace_root@
            &&& p.project_path@ == findings.project_path@
            &&& p.targets@.map_values(|t: RuntimeTarget| t.label@).to_multiset()
                == scheme_labels(crate::text::strings_view(findings.scheme_files@)).to_multiset()
            &&& (forall|i: int| 0 <= i < p.targets.len() ==> #[trigger] p.targets@[i].id@ == p.targets@[i].label@)
            &&& (forall|i: int, j: int| 0 <= i < j < p.targets.len() ==> crate::text::seq_le(p.targets@[i].label@, p.targets@[j].label@))
            &&& p.devices@.map_values(|d: RuntimeDevice| device_view(d)).to_multiset()
                == spec_detected_devices(findings).to_multiset()
            &&& (forall|k: Seq<char>| #[trigger] devices_named(device_views(p.devices@), k)
                == devices_named(spec_detected_devices(findings), k))
            &&& (forall|i: int, j: int| 0 <= i < j < p.devices.len() ==> crate::text::seq_le(p.devices@[i].name@, p.devices@[j].name@))
            &&& (forall|i: int| 0 <= i < p.devices.len() ==> (#[trigger] p.devices@[i]).kind == RuntimeDeviceKind::Simulator)
            &&& (p.capabilities.run@, p.capabilities.build@)
                == spec_capabilities(spec_toolchain_ready(findings.version_output), spec_detected_devices(findings).len() > 0)
        }),
{
    let ghost f = findings;
    let DetectionFindings { workspace_root, project_path, scheme_files, version_output, simulator_output, simulator_listing } = findings;
    let targets = targets_from_scheme_files(&scheme_files);
    proof {
        let labels = scheme_labels(crate::text::strings_view(scheme_files@));
        let tl = targets@.map_values(|t: RuntimeTarget| t.label@);
        assert(tl.len() == targets.len());
        vstd::seq_lib::to_multiset_len(tl);
        vstd::seq_lib::to_multiset_len(labels);
    }
    let ready = toolchain_ready(&version_output);
    let devices = if ready && toolchain_ready(&simulator_output) {
        match simulator_listing {
            Some(l) => simulators_from_listing(&l),
            None => Vec::new(),
        }
    } else {
        Vec::new()
    };
    proof {
        let dv = devices@.map_values(|d: RuntimeDevice| device_view(d));
        assert(dv.len() == devices.len());
        if devices.len() == 0 {
            assert(dv =~= seq![]);
        }
        assert(dv.to_multiset() == spec_detected_devices(f).to_multiset());
        vstd::seq_lib::to_multiset_len(dv);
        vstd::seq_lib::to_multiset_len(spec_detected_devices(f));
        if devices.len() == 0 {
            assert(device_views(devices@) =~= spec_detected_devices(f));
        }
    }
    assemble_detected_project(workspace_root.as_str(), project_path.as_str(), targets, ready, devices)
}

/// A command that detection runs.
#[derive(Clone, Copy, Debug, PartialEq, Eq, Structural)]
pub enum DetectionCommand {
    /// `xcodebuild -version`, which tells whether the Xcode toolchain is ready.
    XcodebuildVersion,
    /// `xcrun simctl list devices --json`, which lists the simulators.
    SimctlListDevices,
}

impl DetectionCommand {
    /// The program the command runs.
    pub fn program(self) -> (r: &'static str)
        ensures
            r@ == (match self {
                DetectionCommand::XcodebuildVersion => "xcodebuild"@,
                DetectionCommand::SimctlListDevices => "xcrun"@,
            }),
    {
        match self {
            DetectionCommand::XcodebuildVersion => "xcodebuild",
            DetectionCommand::SimctlListDevices => "xcrun",
        }
    }

    /// The arguments the command passes.
    pub fn args(self) -> (r: Vec<&'static str>)
        ensures
            r@.map_values(|a: &'static str| a@) == (match self {
                DetectionCommand::XcodebuildVersion => seq!["-version"@],
                DetectionCommand::SimctlListDevices => seq!["simctl"@, "list"@, "devices"@, "--json"@],
            }),
    {
        match self {
            DetectionCommand::XcodebuildVersion => {
                let r = vec!["-version"];
                assert(r@.map_values(|a: &'static str| a@) =~= seq!["-version"@]);
                r
            },
            DetectionCommand::SimctlListDevices => {
                let r = vec!["simctl", "list", "devices", "--json"];
                assert(r@.map_values(|a: &'static str| a@) =~= seq!["simctl"@, "list"@, "devices"@, "--json"@]);
                r
            },
        }
    }
}

/// Which of detection's commands have been run so far.
#[derive(Clone, Copy, Debug, PartialEq, Eq, Structural)]
pub struct DetectionProgress {
    pub version_run: bool,
    pub simulators_run: bool,
}

/// The next command detection runs, given what it has found so far: none when the scheme
/// files name no target; else `xcodebuild -version` first; then the simulator listing, only
/// when the toolchain is ready; then none, and the findings go to [`detect_project`].
pub open spec fn spec_next_detection_command(findings: DetectionFindings, progress: DetectionProgress) -> Option<DetectionCommand> {
    if scheme_labels(crate::text::strings_view(findings.scheme_files@)).len() == 0 {
        None
    } else if !progress.version_run {
        Some(DetectionCommand::XcodebuildVersion)
    } else if !progress.simulators_run && spec_toolchain_ready(findings.version_output) {
        Some(DetectionCommand::SimctlListDevices)
    } else {
        None
    }
}

pub fn next_detection_command(findings: &DetectionFindings, progress: DetectionProgress) -> (r: Option<DetectionCommand>)
    ensures
        r == spec_next_detection_command(*findings, progress),
{
    let targets = targets_from_scheme_files(&findings.scheme_files);
    proof {
        let labels = targets@.map_values(|t: RuntimeTarget| t.label@);
        let named = scheme_labels(crate::text::strings_view(findings.scheme_files@));
        vstd::seq_lib::to_multiset_len(labels);
        vstd::seq_lib::to_multiset_len(named);
        assert(labels.len() == targets@.len());
        assert(named.len() == targets@.len());
    }
    if targets.len() == 0 {
        None
    } else if !progress.version_run {
        Some(DetectionCommand::XcodebuildVersion)
    } else if !progress.simulators_run && toolchain_ready(&findings.version_output) {
        Some(DetectionCommand::SimctlListDevices)
    } else {
        None
    }
}


} // verus!
