//! Service providers and the command plans they build for outside command-line tools.

use vstd::prelude::*;
use crate::string_map::StringMap;
use crate::text::{owned, str_eq, push_str, strings_view, opt_view};

verus! {

/// A set of service capabilities, held as a list in the order the capabilities are declared,
/// each at most once: the order a `BTreeSet` of them iterates in. (`BTreeSet` itself gives no
/// usable specification here: its contracts rest on the derived order of the items.)
#[derive(Debug, PartialEq, Eq)]
pub struct ServiceCapabilitySet {
    capabilities: Vec<ServiceCapability>,
}

/// The position of a capability in declaration order.
pub open spec fn capability_rank(c: ServiceCapability) -> int {
    match c {
        ServiceCapability::Authenticate => 0,
        ServiceCapability::ListResources => 1,
        ServiceCapability::UploadArtifact => 2,
        ServiceCapability::ManageMetadata => 3,
        ServiceCapability::PublishRelease => 4,
    }
}

fn rank_of(c: ServiceCapability) -> (r: u8)
    ensures
        r == capability_rank(c),
{
    match c {
        ServiceCapability::Authenticate => 0,
        ServiceCapability::ListResources => 1,
        ServiceCapability::UploadArtifact => 2,
        ServiceCapability::ManageMetadata => 3,
        ServiceCapability::PublishRelease => 4,
    }
}

impl ServiceCapabilitySet {
    /// The capabilities are listed in strictly increasing declaration order.
    #[verifier::type_invariant]
    closed spec fn in_order(self) -> bool {
        forall|i: int, j: int| 0 <= i < j < self.capabilities@.len()
            ==> capability_rank(self.capabilities@[i]) < capability_rank(self.capabilities@[j])
    }

    /// The capabilities in the set.
    pub closed spec fn members(&self) -> Set<ServiceCapability> {
        self.capabilities@.to_set()
    }

    /// The empty set.
    pub fn new() -> (s: Self)
        ensures
            s.members() == Set::<ServiceCapability>::empty(),
    {
        let s = ServiceCapabilitySet { capabilities: Vec::new() };
        assert(s.capabilities@.to_set() =~= Set::<ServiceCapability>::empty());
        s
    }

    /// Adds a capability; the result tells whether it was new.
    pub fn insert(&mut self, capability: ServiceCapability) -> (added: bool)
        ensures
            added == !old(self).members().contains(capability),
            final(self).members() == old(self).members().insert(capability),
    {
        proof { use_type_invariant(&*self); }
        let rank = rank_of(capability);
        let mut pos: usize = 0;
        while pos < self.capabilities.len() && rank_of(self.capabilities[pos]) < rank
            invariant
                pos <= self.capabilities.len(),
                rank == capability_rank(capability),
                forall|j: int| 0 <= j < pos ==> capability_rank(#[trigger] self.capabilities@[j]) < rank,
            decreases self.capabilities.len() - pos,
        {
            pos = pos + 1;
        }
        let ghost old_caps = self.capabilities@;
        if pos < self.capabilities.len() && rank_of(self.capabilities[pos]) == rank {
            proof {
                let c = old_caps[pos as int];
                assert(c == capability) by {
                    match c {
                        ServiceCapability::Authenticate => {},
                        ServiceCapability::ListResources => {},
                        ServiceCapability::UploadArtifact => {},
                        ServiceCapability::ManageMetadata => {},
                        ServiceCapability::PublishRelease => {},
                    }
                    match capability {
                        ServiceCapability::Authenticate => {},
                        ServiceCapability::ListResources => {},
                        ServiceCapability::UploadArtifact => {},
                        ServiceCapability::ManageMetadata => {},
                        ServiceCapability::PublishRelease => {},
                    }
                }
                assert(old_caps.contains(capability));
                assert(old_caps.to_set().insert(capability) =~= old_caps.to_set());
            }
            return false;
        }
        proof {
            assert forall|j: int| 0 <= j < old_caps.len() implies old_caps[j] != capability by {
                if j < pos {
                } else {
                    assert(capability_rank(old_caps[pos as int]) > capability_rank(capability));
                    if j > pos {
                        assert(capability_rank(old_caps[pos as int]) < capability_rank(old_caps[j]));
                    }
                }
            }
        }
        let mut caps: Vec<ServiceCapability> = Vec::new();
        std::mem::swap(&mut caps, &mut self.capabilities);
        caps.insert(pos, capability);
        proof {
            let n = caps@;
            assert(n =~= old_caps.insert(pos as int, capability));
            assert forall|i: int, j: int| 0 <= i < j < n.len()
                implies capability_rank(n[i]) < capability_rank(n[j]) by {
                if i < pos && j == pos {
                } else if i < pos && j > pos {
                    assert(n[i] == old_caps[i]);
                    assert(n[j] == old_caps[j - 1]);
                } else if i == pos {
                    assert(n[j] == old_caps[j - 1]);
                    if j - 1 > pos {
                        assert(capability_rank(old_caps[pos as int]) < capability_rank(old_caps[j - 1]));
                    }
                } else if j < pos {
                    assert(n[i] == old_caps[i]);
                    assert(n[j] == old_caps[j]);
                } else {
                    assert(n[i] == old_caps[i - 1]);
                    assert(n[j] == old_caps[j - 1]);
                }
            }
            assert(n.to_set() =~= old_caps.to_set().insert(capability)) by {
                assert forall|c: ServiceCapability| n.contains(c) <==> old_caps.to_set().insert(capability).contains(c) by {
                    if n.contains(c) {
                        let k = choose|k: int| 0 <= k < n.len() && n[k] == c;
                        if k < pos {
                            assert(old_caps[k] == c);
                        } else if k > pos {
                            assert(old_caps[k - 1] == c);
                        }
                    }
                    if old_caps.contains(c) {
                        let k = choose|k: int| 0 <= k < old_caps.len() && old_caps[k] == c;
                        if k < pos {
                            assert(n[k] == c);
                        } else {
                            assert(n[k + 1] == c);
                        }
                    }
                    if c == capability {
                        assert(n[pos as int] == c);
                    }
                }
            }
        }
        self.capabilities = caps;
        true
    }

    /// The set holding the given capabilities, each once.
    pub fn from_capabilities(list: Vec<ServiceCapability>) -> (s: Self)
        ensures
            s.members() == list@.to_set(),
    {
        let mut s = ServiceCapabilitySet::new();
        let mut i: usize = 0;
        while i < list.len()
            invariant
                i <= list.len(),
                s.members() == list@.take(i as int).to_set(),
            decreases list.len() - i,
        {
            s.insert(list[i]);
            proof {
                let t = list@.take(i as int);
                let u = list@.take(i + 1);
                assert(u =~= t.push(list@[i as int]));
                assert forall|c: ServiceCapability| u.contains(c) <==> t.to_set().insert(list@[i as int]).contains(c) by {
                    if u.contains(c) {
                        let k = choose|k: int| 0 <= k < u.len() && u[k] == c;
                        if k < t.len() {
                            assert(t[k] == c);
                        }
                    }
                    if t.contains(c) {
                        let k = choose|k: int| 0 <= k < t.len() && t[k] == c;
                        assert(u[k] == c);
                    }
                    if c == list@[i as int] {
                        assert(u[i as int] == c);
                    }
                }
                assert(u.to_set() =~= t.to_set().insert(list@[i as int]));
            }
            i = i + 1;
        }
        assert(list@.take(list.len() as int) =~= list@);
        s
    }

    /// Whether `capability` is in the set.
    pub fn supports(&self, capability: ServiceCapability) -> (r: bool)
        ensures
            r == self.members().contains(capability),
    {
        let mut i: usize = 0;
        while i < self.capabilities.len()
            invariant
                i <= self.capabilities.len(),
                forall|j: int| 0 <= j < i ==> self.capabilities@[j] != capability,
            decreases self.capabilities.len() - i,
        {
            if self.capabilities[i] == capability {
                assert(self.capabilities@.contains(capability));
                return true;
            }
            i = i + 1;
        }
        false
    }
}

impl Clone for ServiceCapabilitySet {
    fn clone(&self) -> (r: Self)
        ensures
            r.members() == self.members(),
    {
        proof { use_type_invariant(self); }
        let mut caps: Vec<ServiceCapability> = Vec::new();
        let mut i: usize = 0;
        while i < self.capabilities.len()
            invariant
                i <= self.capabilities.len(),
                caps@ == self.capabilities@.take(i as int),
            decreases self.capabilities.len() - i,
        {
            caps.push(self.capabilities[i]);
            proof { assert(caps@ =~= self.capabilities@.take(i + 1)); }
            i = i + 1;
        }
        assert(caps@ =~= self.capabilities@);
        ServiceCapabilitySet { capabilities: caps }
    }
}

impl Default for ServiceCapabilitySet {
    fn default() -> (s: Self)
        ensures
            s.members() == Set::<ServiceCapability>::empty(),
    {
        ServiceCapabilitySet::new()
    }
}

#[derive(Clone, Copy, Debug, PartialEq, Eq, PartialOrd, Ord, Hash, Structural)]
pub enum ServiceCapability {
    Authenticate,
    ListResources,
    UploadArtifact,
    ManageMetadata,
    PublishRelease,
}

#[derive(Clone, Debug, PartialEq, Eq)]
pub struct ServiceProviderDescriptor {
    pub id: String,
    pub label: String,
    pub shell: ServiceShellDescriptor,
    pub auth_kind: ServiceAuthKind,
    pub auth: Option<ServiceAuthConfiguration>,
    pub capabilities: ServiceCapabilitySet,
}

#[derive(Clone, Debug, PartialEq, Eq)]
pub struct ServiceShellDescriptor {
    pub resource_kind: Option<ServiceResourceKindDescriptor>,
    pub navigation_items: Vec<ServiceNavigationItemDescriptor>,
    pub default_navigation_item_id: String,
}

#[derive(Clone, Debug, PartialEq, Eq)]
pub struct ServiceResourceKindDescriptor {
    pub singular_label: String,
    pub plural_label: String,
}

#[derive(Clone, Debug, PartialEq, Eq)]
pub struct ServiceNavigationItemDescriptor {
    pub id: String,
    pub label: String,
}

#[derive(Clone, Copy, Debug, PartialEq, Eq, Structural)]
pub enum ServiceAuthKind {
    NoAuth,
    ApiKey,
    OAuth,
}

#[derive(Clone, Debug, PartialEq, Eq)]
pub struct ServiceAuthConfiguration {
    pub kind: ServiceAuthKind,
    pub actions: Vec<ServiceAuthActionDescriptor>,
}

#[derive(Clone, Copy, Debug, PartialEq, Eq, Structural)]
pub enum ServiceAuthAction {
    Authenticate,
    Logout,
}

#[derive(Clone, Debug, PartialEq, Eq)]
pub struct ServiceAuthActionDescriptor {
    pub action: ServiceAuthAction,
    pub label: String,
    pub description: String,
    pub inputs: Vec<ServiceInputDescriptor>,
}

#[derive(Clone, Debug, PartialEq, Eq)]
pub struct ServiceInputDescriptor {
    pub key: String,
    pub label: String,
    pub kind: ServiceInputKind,
    pub required: bool,
    pub placeholder: Option<String>,
    pub help: Option<String>,
}

#[derive(Clone, Copy, Debug, PartialEq, Eq, Structural)]
pub enum ServiceInputKind {
    Text,
    FilePath,
    Toggle,
}

#[derive(Clone, Debug, PartialEq, Eq)]
pub struct ServiceResourceRef {
    pub provider_id: String,
    pub kind: String,
    pub external_id: String,
    pub label: String,
}

/// An artifact handed to a service; `path` is the file system path as text.
#[derive(Clone, Debug, PartialEq, Eq)]
pub struct ServiceArtifactRef {
    pub kind: ServiceArtifactKind,
    pub path: String,
}

#[derive(Clone, Copy, Debug, PartialEq, Eq, Structural)]
pub enum ServiceArtifactKind {
    Ipa,
    Pkg,
    AppBundle,
    Binary,
}

pub struct ServiceOperationRequest {
    pub provider_id: String,
    pub operation: String,
    pub resource: Option<ServiceResourceRef>,
    pub artifact: Option<ServiceArtifactRef>,
    pub input: StringMap,
}

pub struct ServiceAuthActionRequest {
    pub provider_id: String,
    pub action: ServiceAuthAction,
    pub input: StringMap,
}

/// A command to run: program, arguments, optional working directory and extra environment.
pub struct ServiceCommandPlan {
    pub label: String,
    pub command: String,
    pub args: Vec<String>,
    pub cwd: Option<String>,
    pub env: StringMap,
}

/// What a command plan holds, as character sequences.
pub struct CommandPlanView {
    pub label: Seq<char>,
    pub command: Seq<char>,
    pub args: Seq<Seq<char>>,
    pub cwd: Option<Seq<char>>,
    pub env: Map<Seq<char>, Seq<char>>,
}

impl View for ServiceCommandPlan {
    type V = CommandPlanView;

    open spec fn view(&self) -> CommandPlanView {
        CommandPlanView {
            label: self.label@,
            command: self.command@,
            args: strings_view(self.args@),
            cwd: opt_view(self.cwd),
            env: self.env@,
        }
    }
}

#[derive(Clone, Debug, PartialEq, Eq)]
pub struct ServiceOperationUpdate {
    pub state: ServiceOperationState,
    pub message: String,
}

#[derive(Clone, Copy, Debug, PartialEq, Eq, Structural)]
pub enum ServiceOperationState {
    Pending,
    Running,
    Succeeded,
    Failed,
}

#[derive(Debug, PartialEq, Eq)]
pub enum ServiceError {
    UnknownProvider(String),
    UnsupportedOperation(String),
    UnsupportedAuthAction(String),
    UnexpectedResourceKind { expected: String, actual: String },
    ArtifactRequired,
    UnexpectedArtifactKind { expected: String, actual: String },
    MissingInput(String),
}

/// What a service error holds, as character sequences.
pub enum ServiceErrorView {
    UnknownProvider(Seq<char>),
    UnsupportedOperation(Seq<char>),
    UnsupportedAuthAction(Seq<char>),
    UnexpectedResourceKind { expected: Seq<char>, actual: Seq<char> },
    ArtifactRequired,
    UnexpectedArtifactKind { expected: Seq<char>, actual: Seq<char> },
    MissingInput(Seq<char>),
}

impl View for ServiceError {
    type V = ServiceErrorView;

    open spec fn view(&self) -> ServiceErrorView {
        match self {
            ServiceError::UnknownProvider(s) => ServiceErrorView::UnknownProvider(s@),
            ServiceError::UnsupportedOperation(s) => ServiceErrorView::UnsupportedOperation(s@),
            ServiceError::UnsupportedAuthAction(s) => ServiceErrorView::UnsupportedAuthAction(s@),
            ServiceError::UnexpectedResourceKind { expected, actual } => ServiceErrorView::UnexpectedResourceKind {
                expected: expected@,
                actual: actual@,
            },
            ServiceError::ArtifactRequired => ServiceErrorView::ArtifactRequired,
            ServiceError::UnexpectedArtifactKind { expected, actual } => ServiceErrorView::UnexpectedArtifactKind {
                expected: expected@,
                actual: actual@,
            },
            ServiceError::MissingInput(s) => ServiceErrorView::MissingInput(s@),
        }
    }
}

/// `before`, then `x`, then `after`.
fn framed(before: &str, x: &str, after: &str) -> (r: String)
    ensures
        r@ == before@ + x@ + after@,
{
    let mut m = owned(before);
    push_str(&mut m, x);
    push_str(&mut m, after);
    m
}

/// The message a service error is shown with.
pub open spec fn spec_service_error_message(e: ServiceErrorView) -> Seq<char> {
    match e {
        ServiceErrorView::UnknownProvider(s) => "service provider `"@ + s + "` is not supported"@,
        ServiceErrorView::UnsupportedOperation(s) => "service operation `"@ + s + "` is not supported"@,
        ServiceErrorView::UnsupportedAuthAction(s) => "service authentication action `"@ + s + "` is not supported"@,
        ServiceErrorView::UnexpectedResourceKind { expected, actual } =>
            "service operation requires resource kind `"@ + expected + "`, got `"@ + actual + "`"@,
        ServiceErrorView::ArtifactRequired => "service operation requires an artifact"@,
        ServiceErrorView::UnexpectedArtifactKind { expected, actual } =>
            "service operation requires artifact kind `"@ + expected + "`, got `"@ + actual + "`"@,
        ServiceErrorView::MissingInput(s) => "service input `"@ + s + "` is required"@,
    }
}

impl ServiceError {
    /// The message the error is shown with.
    pub fn message(&self) -> (r: String)
        ensures
            r@ == spec_service_error_message(self@),
    {
        match self {
            ServiceError::UnknownProvider(s) => framed("service provider `", s.as_str(), "` is not supported"),
            ServiceError::UnsupportedOperation(s) => framed("service operation `", s.as_str(), "` is not supported"),
            ServiceError::UnsupportedAuthAction(s) =>
                framed("service authentication action `", s.as_str(), "` is not supported"),
            ServiceError::UnexpectedResourceKind { expected, actual } => {
                let mut m = framed("service operation requires resource kind `", expected.as_str(), "`, got `");
                push_str(&mut m, actual.as_str());
                push_str(&mut m, "`");
                m
            },
            ServiceError::ArtifactRequired => owned("service operation requires an artifact"),
            ServiceError::UnexpectedArtifactKind { expected, actual } => {
                let mut m = framed("service operation requires artifact kind `", expected.as_str(), "`, got `");
                push_str(&mut m, actual.as_str());
                push_str(&mut m, "`");
                m
            },
            ServiceError::MissingInput(s) => framed("service input `", s.as_str(), "` is required"),
        }
    }
}

/// The view of a plan-or-error result.
pub open spec fn result_view(r: Result<ServiceCommandPlan, ServiceError>) -> Result<CommandPlanView, ServiceErrorView> {
    match r {
        Ok(p) => Ok(p@),
        Err(e) => Err(e@),
    }
}

/// The identifier of the App Store Connect provider.
pub open spec fn asc_provider_id() -> Seq<char> {
    "app-store-connect"@
}

/// A plan that runs the `asc` tool with the given label and arguments, in no particular directory.
pub open spec fn asc_plan(label: Seq<char>, args: Seq<Seq<char>>) -> CommandPlanView {
    CommandPlanView { label, command: "asc"@, args, cwd: None, env: Map::empty() }
}

/// `flag value` when `key` is given, nothing otherwise.
pub open spec fn opt_arg(input: Map<Seq<char>, Seq<char>>, key: Seq<char>, flag: Seq<char>) -> Seq<Seq<char>> {
    if input.contains_key(key) {
        seq![flag, input[key]]
    } else {
        seq![]
    }
}

/// `flags` when `key` is given as exactly `"true"`, nothing otherwise.
pub open spec fn true_args(input: Map<Seq<char>, Seq<char>>, key: Seq<char>, flags: Seq<Seq<char>>) -> Seq<Seq<char>> {
    if input.contains_key(key) && input[key] == "true"@ {
        flags
    } else {
        seq![]
    }
}

/// The common trailing arguments that ask `asc` for pretty-printed JSON.
pub open spec fn json_args() -> Seq<Seq<char>> {
    seq!["--output"@, "json"@, "--pretty"@]
}

pub open spec fn spec_auth_status_plan() -> CommandPlanView {
    asc_plan(
        "Validate App Store Connect authentication"@,
        seq!["auth"@, "status"@, "--validate"@] + json_args(),
    )
}

pub open spec fn spec_logout_plan() -> CommandPlanView {
    asc_plan("Log out of App Store Connect"@, seq!["auth"@, "logout"@, "--all"@])
}

pub open spec fn spec_authenticate(input: Map<Seq<char>, Seq<char>>) -> Result<CommandPlanView, ServiceErrorView> {
    if !input.contains_key("profile_name"@) {
        Err(ServiceErrorView::MissingInput("profile_name"@))
    } else if !input.contains_key("key_id"@) {
        Err(ServiceErrorView::MissingInput("key_id"@))
    } else if !input.contains_key("issuer_id"@) {
        Err(ServiceErrorView::MissingInput("issuer_id"@))
    } else if !input.contains_key("private_key_path"@) {
        Err(ServiceErrorView::MissingInput("private_key_path"@))
    } else {
        Ok(asc_plan(
            "Authenticate App Store Connect"@,
            seq![
                "auth"@, "login"@,
                "--name"@, input["profile_name"@],
                "--key-id"@, input["key_id"@],
                "--issuer-id"@, input["issuer_id"@],
                "--private-key"@, input["private_key_path"@],
            ]
                + true_args(input, "repo_local"@, seq!["--bypass-keychain"@, "--local"@])
                + true_args(input, "validate_network"@, seq!["--network"@]),
        ))
    }
}

pub open spec fn spec_list_apps(input: Map<Seq<char>, Seq<char>>) -> CommandPlanView {
    asc_plan(
        "List App Store Connect apps"@,
        seq!["apps"@, "list"@] + json_args()
            + opt_arg(input, "limit"@, "--limit"@)
            + opt_arg(input, "name"@, "--name"@)
            + opt_arg(input, "bundle_id"@, "--bundle-id"@)
            + true_args(input, "paginate"@, seq!["--paginate"@]),
    )
}

/// The check that a resource is of the expected kind.
pub open spec fn kind_error(resource: ServiceResourceRef, expected: Seq<char>) -> Option<ServiceErrorView> {
    if resource.kind@ == expected {
        None
    } else {
        Some(ServiceErrorView::UnexpectedResourceKind { expected, actual: resource.kind@ })
    }
}

pub open spec fn spec_list_builds(req: ServiceOperationRequest) -> Result<CommandPlanView, ServiceErrorView> {
    match req.resource {
        None => Err(ServiceErrorView::MissingInput("app"@)),
        Some(app) => match kind_error(app, "app"@) {
            Some(e) => Err(e),
            None => Ok(asc_plan(
                "List ASC builds for "@ + app.label@,
                seq!["builds"@, "list"@, "--app"@, app.external_id@] + json_args()
                    + opt_arg(req.input@, "version"@, "--version"@)
                    + opt_arg(req.input@, "build_number"@, "--build-number"@)
                    + opt_arg(req.input@, "limit"@, "--limit"@)
                    + opt_arg(req.input@, "sort"@, "--sort"@)
                    + opt_arg(req.input@, "processing_state"@, "--processing-state"@)
                    + true_args(req.input@, "paginate"@, seq!["--paginate"@]),
            )),
        },
    }
}

pub open spec fn spec_pre_release_version(req: ServiceOperationRequest) -> Result<CommandPlanView, ServiceErrorView> {
    match req.resource {
        None => Err(ServiceErrorView::MissingInput("build"@)),
        Some(build) => match kind_error(build, "build"@) {
            Some(e) => Err(e),
            None => Ok(asc_plan(
                "Fetch ASC pre-release version for build "@ + build.label@,
                seq!["builds"@, "pre-release-version"@, "get"@, "--build"@, build.external_id@] + json_args(),
            )),
        },
    }
}

pub open spec fn spec_upload_build(req: ServiceOperationRequest) -> Result<CommandPlanView, ServiceErrorView> {
    match req.resource {
        None => Err(ServiceErrorView::MissingInput("app"@)),
        Some(app) => match kind_error(app, "app"@) {
            Some(e) => Err(e),
            None => match req.artifact {
                None => Err(ServiceErrorView::ArtifactRequired),
                Some(artifact) => match artifact.kind {
                    ServiceArtifactKind::AppBundle => Err(ServiceErrorView::UnexpectedArtifactKind {
                        expected: "ipa or pkg"@,
                        actual: "app_bundle"@,
                    }),
                    ServiceArtifactKind::Binary => Err(ServiceErrorView::UnexpectedArtifactKind {
                        expected: "ipa or pkg"@,
                        actual: "binary"@,
                    }),
                    ServiceArtifactKind::Ipa | ServiceArtifactKind::Pkg => Ok(asc_plan(
                        "Upload build to App Store Connect for "@ + app.label@,
                        seq![
                            "builds"@, "upload"@, "--app"@, app.external_id@,
                            if artifact.kind == ServiceArtifactKind::Ipa { "--ipa"@ } else { "--pkg"@ },
                            artifact.path@,
                        ] + json_args()
                            + (if artifact.kind == ServiceArtifactKind::Pkg {
                                seq!["--platform"@, "MAC_OS"@]
                            } else {
                                seq![]
                            })
                            + opt_arg(req.input@, "version"@, "--version"@)
                            + opt_arg(req.input@, "build_number"@, "--build-number"@)
                            + true_args(req.input@, "wait"@, seq!["--wait"@]),
                    )),
                },
            },
        },
    }
}

pub open spec fn spec_release_run(req: ServiceOperationRequest) -> Result<CommandPlanView, ServiceErrorView> {
    match req.resource {
        None => Err(ServiceErrorView::MissingInput("app"@)),
        Some(app) => match kind_error(app, "app"@) {
            Some(e) => Err(e),
            None => if !req.input@.contains_key("version"@) {
                Err(ServiceErrorView::MissingInput("version"@))
            } else if !req.input@.contains_key("build"@) {
                Err(ServiceErrorView::MissingInput("build"@))
            } else if !req.input@.contains_key("metadata_dir"@) {
                Err(ServiceErrorView::MissingInput("metadata_dir"@))
            } else {
                Ok(asc_plan(
                    "Run ASC release for "@ + app.label@,
                    seq![
                        "release"@, "run"@,
                        "--app"@, app.external_id@,
                        "--version"@, req.input@["version"@],
                        "--build"@, req.input@["build"@],
                        "--metadata-dir"@, req.input@["metadata_dir"@],
                    ] + json_args()
                        + (if req.input@.contains_key("dry_run"@) && req.input@["dry_run"@] == "true"@ {
                            seq!["--dry-run"@]
                        } else {
                            seq!["--confirm"@]
                        }),
                ))
            },
        },
    }
}

/// What the App Store Connect provider answers to an operation request.
pub open spec fn spec_asc_operation(req: ServiceOperationRequest) -> Result<CommandPlanView, ServiceErrorView> {
    let op = req.operation@;
    if op == "auth_status"@ {
        Ok(spec_auth_status_plan())
    } else if op == "list_apps"@ {
        Ok(spec_list_apps(req.input@))
    } else if op == "list_builds"@ {
        spec_list_builds(req)
    } else if op == "build_pre_release_version"@ {
        spec_pre_release_version(req)
    } else if op == "upload_build"@ {
        spec_upload_build(req)
    } else if op == "release_run"@ {
        spec_release_run(req)
    } else {
        Err(ServiceErrorView::UnsupportedOperation(op))
    }
}

/// What the App Store Connect provider answers to an authentication request.
pub open spec fn spec_asc_auth_action(req: ServiceAuthActionRequest) -> Result<CommandPlanView, ServiceErrorView> {
    match req.action {
        ServiceAuthAction::Authenticate => spec_authenticate(req.input@),
        ServiceAuthAction::Logout => Ok(spec_logout_plan()),
    }
}


/// Appends the string `lit` to `args`.
fn push_lit(args: &mut Vec<String>, lit: &str)
    ensures
        strings_view(final(args)@) == strings_view(old(args)@).push(lit@),
{
    args.push(owned(lit));
    assert(strings_view(args@) =~= strings_view(old(args)@).push(lit@));
}

/// Appends a copy of `value` to `args`.
fn push_copy(args: &mut Vec<String>, value: &String)
    ensures
        strings_view(final(args)@) == strings_view(old(args)@).push(value@),
{
    args.push(value.clone());
    assert(strings_view(args@) =~= strings_view(old(args)@).push(value@));
}

/// Appends `flag value` when `key` is given.
fn push_opt_arg(args: &mut Vec<String>, input: &StringMap, key: &str, flag: &str)
    ensures
        strings_view(final(args)@) == strings_view(old(args)@) + opt_arg(input@, key@, flag@),
{
    match input.get(key) {
        Some(value) => {
            push_lit(args, flag);
            push_copy(args, value);
        },
        None => {},
    }
    assert(strings_view(args@) =~= strings_view(old(args)@) + opt_arg(input@, key@, flag@));
}

/// Appends `flag` when `key` is given as exactly `"true"`.
fn push_true_flag(args: &mut Vec<String>, input: &StringMap, key: &str, flag: &str)
    ensures
        strings_view(final(args)@) == strings_view(old(args)@) + true_args(input@, key@, seq![flag@]),
{
    if input.is_true(key) {
        push_lit(args, flag);
    }
    assert(strings_view(args@) =~= strings_view(old(args)@) + true_args(input@, key@, seq![flag@]));
}

/// Appends the arguments that ask for pretty-printed JSON.
fn push_json_args(args: &mut Vec<String>)
    ensures
        strings_view(final(args)@) == strings_view(old(args)@) + json_args(),
{
    push_lit(args, "--output");
    push_lit(args, "json");
    push_lit(args, "--pretty");
    assert(strings_view(args@) =~= strings_view(old(args)@) + json_args());
}

/// A plan that runs `asc` with the given label and arguments.
fn asc_command(label: String, args: Vec<String>) -> (p: ServiceCommandPlan)
    ensures
        p@ == asc_plan(label@, strings_view(args@)),
{
    ServiceCommandPlan { label, command: owned("asc"), args, cwd: None, env: StringMap::new() }
}

fn build_asc_auth_status() -> (p: ServiceCommandPlan)
    ensures
        p@ == spec_auth_status_plan(),
{
    let mut args: Vec<String> = Vec::new();
    push_lit(&mut args, "auth");
    push_lit(&mut args, "status");
    push_lit(&mut args, "--validate");
    push_json_args(&mut args);
    assert(strings_view(args@) =~= seq!["auth"@, "status"@, "--validate"@] + json_args());
    asc_command(owned("Validate App Store Connect authentication"), args)
}

fn build_asc_logout() -> (p: ServiceCommandPlan)
    ensures
        p@ == spec_logout_plan(),
{
    let mut args: Vec<String> = Vec::new();
    push_lit(&mut args, "auth");
    push_lit(&mut args, "logout");
    push_lit(&mut args, "--all");
    assert(strings_view(args@) =~= seq!["auth"@, "logout"@, "--all"@]);
    asc_command(owned("Log out of App Store Connect"), args)
}

/// The value of a required input, or the error naming it.
fn required<'a>(input: &'a StringMap, key: &str) -> (r: Result<&'a String, ServiceError>)
    ensures
        match r {
            Ok(v) => input@.contains_key(key@) && v@ == input@[key@],
            Err(e) => !input@.contains_key(key@) && e@ == ServiceErrorView::MissingInput(key@),
        },
{
    match input.get(key) {
        Some(v) => Ok(v),
        None => Err(ServiceError::MissingInput(owned(key))),
    }
}

fn build_asc_authenticate(request: &ServiceAuthActionRequest) -> (r: Result<ServiceCommandPlan, ServiceError>)
    ensures
        result_view(r) == spec_authenticate(request.input@),
{
    let input = &request.input;
    let profile_name = required(input, "profile_name")?;
    let key_id = required(input, "key_id")?;
    let issuer_id = required(input, "issuer_id")?;
    let private_key_path = required(input, "private_key_path")?;

    let mut args: Vec<String> = Vec::new();
    push_lit(&mut args, "auth");
    push_lit(&mut args, "login");
    push_lit(&mut args, "--name");
    push_copy(&mut args, profile_name);
    push_lit(&mut args, "--key-id");
    push_copy(&mut args, key_id);
    push_lit(&mut args, "--issuer-id");
    push_copy(&mut args, issuer_id);
    push_lit(&mut args, "--private-key");
    push_copy(&mut args, private_key_path);
    let ghost base = strings_view(args@);
    assert(base =~= seq![
        "auth"@, "login"@,
        "--name"@, input@["profile_name"@],
        "--key-id"@, input@["key_id"@],
        "--issuer-id"@, input@["issuer_id"@],
        "--private-key"@, input@["private_key_path"@],
    ]);
    if input.is_true("repo_local") {
        push_lit(&mut args, "--bypass-keychain");
        push_lit(&mut args, "--local");
    }
    assert(strings_view(args@) =~= base + true_args(input@, "repo_local"@, seq!["--bypass-keychain"@, "--local"@]));
    push_true_flag(&mut args, input, "validate_network", "--network");
    Ok(asc_command(owned("Authenticate App Store Connect"), args))
}

fn build_asc_list_apps(request: &ServiceOperationRequest) -> (p: ServiceCommandPlan)
    ensures
        p@ == spec_list_apps(request.input@),
{
    let mut args: Vec<String> = Vec::new();
    push_lit(&mut args, "apps");
    push_lit(&mut args, "list");
    assert(strings_view(args@) =~= seq!["apps"@, "list"@]);
    push_json_args(&mut args);
    push_opt_arg(&mut args, &request.input, "limit", "--limit");
    push_opt_arg(&mut args, &request.input, "name", "--name");
    push_opt_arg(&mut args, &request.input, "bundle_id", "--bundle-id");
    push_true_flag(&mut args, &request.input, "paginate", "--paginate");
    asc_command(owned("List App Store Connect apps"), args)
}

/// Checks that `resource` is of the `expected` kind.
fn ensure_resource_kind(resource: &ServiceResourceRef, expected: &str) -> (r: Result<(), ServiceError>)
    ensures
        match r {
            Ok(()) => kind_error(*resource, expected@) is None,
            Err(e) => kind_error(*resource, expected@) == Some(e@),
        },
{
    if str_eq(resource.kind.as_str(), expected) {
        Ok(())
    } else {
        Err(ServiceError::UnexpectedResourceKind { expected: owned(expected), actual: resource.kind.clone() })
    }
}

/// The resource of a request, or the error naming the missing input.
fn required_resource<'a>(request: &'a ServiceOperationRequest, name: &str) -> (r: Result<&'a ServiceResourceRef, ServiceError>)
    ensures
        match r {
            Ok(res) => request.resource == Some(*res),
            Err(e) => request.resource is None && e@ == ServiceErrorView::MissingInput(name@),
        },
{
    match &request.resource {
        Some(res) => Ok(res),
        None => Err(ServiceError::MissingInput(owned(name))),
    }
}

fn build_asc_list_builds(request: &ServiceOperationRequest) -> (r: Result<ServiceCommandPlan, ServiceError>)
    ensures
        result_view(r) == spec_list_builds(*request),
{
    let app = required_resource(request, "app")?;
    ensure_resource_kind(app, "app")?;

    let mut args: Vec<String> = Vec::new();
    push_lit(&mut args, "builds");
    push_lit(&mut args, "list");
    push_lit(&mut args, "--app");
    push_copy(&mut args, &app.external_id);
    assert(strings_view(args@) =~= seq!["builds"@, "list"@, "--app"@, app.external_id@]);
    push_json_args(&mut args);
    push_opt_arg(&mut args, &request.input, "version", "--version");
    push_opt_arg(&mut args, &request.input, "build_number", "--build-number");
    push_opt_arg(&mut args, &request.input, "limit", "--limit");
    push_opt_arg(&mut args, &request.input, "sort", "--sort");
    push_opt_arg(&mut args, &request.input, "processing_state", "--processing-state");
    push_true_flag(&mut args, &request.input, "paginate", "--paginate");
    let mut label = owned("List ASC builds for ");
    push_str(&mut label, app.label.as_str());
    Ok(asc_command(label, args))
}

fn build_asc_pre_release_version(request: &ServiceOperationRequest) -> (r: Result<ServiceCommandPlan, ServiceError>)
    ensures
        result_view(r) == spec_pre_release_version(*request),
{
    let build = required_resource(request, "build")?;
    ensure_resource_kind(build, "build")?;

    let mut args: Vec<String> = Vec::new();
    push_lit(&mut args, "builds");
    push_lit(&mut args, "pre-release-version");
    push_lit(&mut args, "get");
    push_lit(&mut args, "--build");
    push_copy(&mut args, &build.external_id);
    assert(strings_view(args@) =~= seq!["builds"@, "pre-release-version"@, "get"@, "--build"@, build.external_id@]);
    push_json_args(&mut args);
    let mut label = owned("Fetch ASC pre-release version for build ");
    push_str(&mut label, build.label.as_str());
    Ok(asc_command(label, args))
}

fn build_asc_upload_build(request: &ServiceOperationRequest) -> (r: Result<ServiceCommandPlan, ServiceError>)
    ensures
        result_view(r) == spec_upload_build(*request),
{
    let app = required_resource(request, "app")?;
    ensure_resource_kind(app, "app")?;

    let artifact = match &request.artifact {
        Some(a) => a,
        None => return Err(ServiceError::ArtifactRequired),
    };
    let is_pkg = match artifact.kind {
        ServiceArtifactKind::Ipa => false,
        ServiceArtifactKind::Pkg => true,
        ServiceArtifactKind::AppBundle => {
            return Err(ServiceError::UnexpectedArtifactKind {
                expected: owned("ipa or pkg"),
                actual: owned("app_bundle"),
            });
        },
        ServiceArtifactKind::Binary => {
            return Err(ServiceError::UnexpectedArtifactKind {
                expected: owned("ipa or pkg"),
                actual: owned("binary"),
            });
        },
    };

    let mut args: Vec<String> = Vec::new();
    push_lit(&mut args, "builds");
    push_lit(&mut args, "upload");
    push_lit(&mut args, "--app");
    push_copy(&mut args, &app.external_id);
    if is_pkg {
        push_lit(&mut args, "--pkg");
    } else {
        push_lit(&mut args, "--ipa");
    }
    push_copy(&mut args, &artifact.path);
    assert(strings_view(args@) =~= seq![
        "builds"@, "upload"@, "--app"@, app.external_id@,
        if artifact.kind == ServiceArtifactKind::Ipa { "--ipa"@ } else { "--pkg"@ },
        artifact.path@,
    ]);
    push_json_args(&mut args);
    let ghost base = strings_view(args@);
    if is_pkg {
        push_lit(&mut args, "--platform");
        push_lit(&mut args, "MAC_OS");
    }
    assert(strings_view(args@) =~= base + (if artifact.kind == ServiceArtifactKind::Pkg {
        seq!["--platform"@, "MAC_OS"@]
    } else {
        Seq::<Seq<char>>::empty()
    }));
    push_opt_arg(&mut args, &request.input, "version", "--version");
    push_opt_arg(&mut args, &request.input, "build_number", "--build-number");
    push_true_flag(&mut args, &request.input, "wait", "--wait");
    let mut label = owned("Upload build to App Store Connect for ");
    push_str(&mut label, app.label.as_str());
    Ok(asc_command(label, args))
}

fn build_asc_release_run(request: &ServiceOperationRequest) -> (r: Result<ServiceCommandPlan, ServiceError>)
    ensures
        result_view(r) == spec_release_run(*request),
{
    let app = required_resource(request, "app")?;
    ensure_resource_kind(app, "app")?;

    let input = &request.input;
    let version = required(input, "version")?;
    let build = required(input, "build")?;
    let metadata_dir = required(input, "metadata_dir")?;

    let mut args: Vec<String> = Vec::new();
    push_lit(&mut args, "release");
    push_lit(&mut args, "run");
    push_lit(&mut args, "--app");
    push_copy(&mut args, &app.external_id);
    push_lit(&mut args, "--version");
    push_copy(&mut args, version);
    push_lit(&mut args, "--build");
    push_copy(&mut args, build);
    push_lit(&mut args, "--metadata-dir");
    push_copy(&mut args, metadata_dir);
    assert(strings_view(args@) =~= seq![
        "release"@, "run"@,
        "--app"@, app.external_id@,
        "--version"@, input@["version"@],
        "--build"@, input@["build"@],
        "--metadata-dir"@, input@["metadata_dir"@],
    ]);
    push_json_args(&mut args);
    let ghost base = strings_view(args@);
    if input.is_true("dry_run") {
        push_lit(&mut args, "--dry-run");
    } else {
        push_lit(&mut args, "--confirm");
    }
    assert(strings_view(args@) =~= base + (if input@.contains_key("dry_run"@) && input@["dry_run"@] == "true"@ {
        seq!["--dry-run"@]
    } else {
        seq!["--confirm"@]
    }));
    let mut label = owned("Run ASC release for ");
    push_str(&mut label, app.label.as_str());
    Ok(asc_command(label, args))
}


/// An input field of an authentication action, as the descriptor lists it.
pub open spec fn input_is(
    i: ServiceInputDescriptor,
    key: Seq<char>,
    label: Seq<char>,
    kind: ServiceInputKind,
    required: bool,
    placeholder: Option<Seq<char>>,
    help: Option<Seq<char>>,
) -> bool {
    &&& i.key@ == key
    &&& i.label@ == label
    &&& i.kind == kind
    &&& i.required == required
    &&& opt_view(i.placeholder) == placeholder
    &&& opt_view(i.help) == help
}

/// The authentication action that registers an API key.
pub open spec fn is_asc_authenticate_action(a: ServiceAuthActionDescriptor) -> bool {
    &&& a.action == ServiceAuthAction::Authenticate
    &&& a.label@ == "Authenticate"@
    &&& a.description@ == "Register an App Store Connect API key for this machine or repository."@
    &&& a.inputs.len() == 6
    &&& input_is(a.inputs[0], "profile_name"@, "Profile Name"@, ServiceInputKind::Text, true,
        Some("Personal"@), Some("Friendly label used for the stored App Store Connect credential."@))
    &&& input_is(a.inputs[1], "key_id"@, "Key ID"@, ServiceInputKind::Text, true, Some("ABC123"@), None)
    &&& input_is(a.inputs[2], "issuer_id"@, "Issuer ID"@, ServiceInputKind::Text, true,
        Some("00000000-0000-0000-0000-000000000000"@), None)
    &&& input_is(a.inputs[3], "private_key_path"@, "Private Key"@, ServiceInputKind::FilePath, true,
        Some("/path/to/AuthKey_ABC123.p8"@), Some("Choose the downloaded App Store Connect API key file."@))
    &&& input_is(a.inputs[4], "repo_local"@, "Store In Repository"@, ServiceInputKind::Toggle, false,
        None, Some("Store credentials in ./.asc/config.json instead of the system keychain."@))
    &&& input_is(a.inputs[5], "validate_network"@, "Validate Network Access"@, ServiceInputKind::Toggle, false,
        None, Some("Run a lightweight App Store Connect request during authentication."@))
}

/// The authentication action that removes stored credentials.
pub open spec fn is_asc_logout_action(a: ServiceAuthActionDescriptor) -> bool {
    &&& a.action == ServiceAuthAction::Logout
    &&& a.label@ == "Log Out"@
    &&& a.description@ == "Remove stored App Store Connect credentials."@
    &&& a.inputs.len() == 0
}

/// The five capabilities the App Store Connect provider advertises.
pub open spec fn all_capabilities() -> Set<ServiceCapability> {
    set![
        ServiceCapability::Authenticate,
        ServiceCapability::ListResources,
        ServiceCapability::UploadArtifact,
        ServiceCapability::ManageMetadata,
        ServiceCapability::PublishRelease,
    ]
}

/// The descriptor of the App Store Connect provider, field by field.
pub open spec fn is_asc_descriptor(d: ServiceProviderDescriptor) -> bool {
    &&& d.id@ == asc_provider_id()
    &&& d.label@ == "App Store Connect"@
    &&& d.shell.resource_kind matches Some(rk) && rk.singular_label@ == "App"@ && rk.plural_label@ == "Apps"@
    &&& d.shell.navigation_items.len() == 2
    &&& d.shell.navigation_items[0].id@ == "overview"@
    &&& d.shell.navigation_items[0].label@ == "Overview"@
    &&& d.shell.navigation_items[1].id@ == "builds"@
    &&& d.shell.navigation_items[1].label@ == "Builds"@
    &&& d.shell.default_navigation_item_id@ == "overview"@
    &&& d.auth_kind == ServiceAuthKind::ApiKey
    &&& d.auth matches Some(auth) && auth.kind == ServiceAuthKind::ApiKey && auth.actions.len() == 2
        && is_asc_authenticate_action(auth.actions[0]) && is_asc_logout_action(auth.actions[1])
    &&& d.capabilities.members() == all_capabilities()
}

fn input_descriptor(
    key: &str,
    label: &str,
    kind: ServiceInputKind,
    required: bool,
    placeholder: Option<&str>,
    help: Option<&str>,
) -> (i: ServiceInputDescriptor)
    ensures
        input_is(i, key@, label@, kind, required,
            match placeholder { Some(p) => Some(p@), None => None },
            match help { Some(h) => Some(h@), None => None }),
{
    ServiceInputDescriptor {
        key: owned(key),
        label: owned(label),
        kind,
        required,
        placeholder: match placeholder { Some(p) => Some(owned(p)), None => None },
        help: match help { Some(h) => Some(owned(h)), None => None },
    }
}

fn nav_item(id: &str, label: &str) -> (n: ServiceNavigationItemDescriptor)
    ensures
        n.id@ == id@,
        n.label@ == label@,
{
    ServiceNavigationItemDescriptor { id: owned(id), label: owned(label) }
}

fn asc_descriptor() -> (d: ServiceProviderDescriptor)
    ensures
        is_asc_descriptor(d),
{
    let mut navigation_items: Vec<ServiceNavigationItemDescriptor> = Vec::new();
    navigation_items.push(nav_item("overview", "Overview"));
    navigation_items.push(nav_item("builds", "Builds"));

    let mut inputs: Vec<ServiceInputDescriptor> = Vec::new();
    inputs.push(input_descriptor("profile_name", "Profile Name", ServiceInputKind::Text, true,
        Some("Personal"), Some("Friendly label used for the stored App Store Connect credential.")));
    inputs.push(input_descriptor("key_id", "Key ID", ServiceInputKind::Text, true, Some("ABC123"), None));
    inputs.push(input_descriptor("issuer_id", "Issuer ID", ServiceInputKind::Text, true,
        Some("00000000-0000-0000-0000-000000000000"), None));
    inputs.push(input_descriptor("private_key_path", "Private Key", ServiceInputKind::FilePath, true,
        Some("/path/to/AuthKey_ABC123.p8"), Some("Choose the downloaded App Store Connect API key file.")));
    inputs.push(input_descriptor("repo_local", "Store In Repository", ServiceInputKind::Toggle, false,
        None, Some("Store credentials in ./.asc/config.json instead of the system keychain.")));
    inputs.push(input_descriptor("validate_network", "Validate Network Access", ServiceInputKind::Toggle, false,
        None, Some("Run a lightweight App Store Connect request during authentication.")));

    let mut actions: Vec<ServiceAuthActionDescriptor> = Vec::new();
    actions.push(ServiceAuthActionDescriptor {
        action: ServiceAuthAction::Authenticate,
        label: owned("Authenticate"),
        description: owned("Register an App Store Connect API key for this machine or repository."),
        inputs,
    });
    actions.push(ServiceAuthActionDescriptor {
        action: ServiceAuthAction::Logout,
        label: owned("Log Out"),
        description: owned("Remove stored App Store Connect credentials."),
        inputs: Vec::new(),
    });

    let mut capabilities = ServiceCapabilitySet::new();
    capabilities.insert(ServiceCapability::Authenticate);
    capabilities.insert(ServiceCapability::ListResources);
    capabilities.insert(ServiceCapability::UploadArtifact);
    capabilities.insert(ServiceCapability::ManageMetadata);
    capabilities.insert(ServiceCapability::PublishRelease);
    assert(capabilities.members() =~= all_capabilities()) by {
        assert forall|c: ServiceCapability| capabilities.members().contains(c) <==> all_capabilities().contains(c) by {
            match c {
                ServiceCapability::Authenticate => {},
                ServiceCapability::ListResources => {},
                ServiceCapability::UploadArtifact => {},
                ServiceCapability::ManageMetadata => {},
                ServiceCapability::PublishRelease => {},
            }
        }
    }

    ServiceProviderDescriptor {
        id: owned("app-store-connect"),
        label: owned("App Store Connect"),
        shell: ServiceShellDescriptor {
            resource_kind: Some(ServiceResourceKindDescriptor {
                singular_label: owned("App"),
                plural_label: owned("Apps"),
            }),
            navigation_items,
            default_navigation_item_id: owned("overview"),
        },
        auth_kind: ServiceAuthKind::ApiKey,
        auth: Some(ServiceAuthConfiguration { kind: ServiceAuthKind::ApiKey, actions }),
        capabilities,
    }
}

/// A service that can describe itself and build commands for its operations.
pub trait ServiceProvider {
    fn descriptor(&self) -> ServiceProviderDescriptor;

    fn build_auth_action(&self, request: &ServiceAuthActionRequest) -> Result<ServiceCommandPlan, ServiceError>;

    fn build_operation(&self, request: &ServiceOperationRequest) -> Result<ServiceCommandPlan, ServiceError>;
}

/// The App Store Connect provider, driven through the `asc` command-line tool.
pub struct AscServiceProvider;

impl ServiceProvider for AscServiceProvider {
    fn descriptor(&self) -> (d: ServiceProviderDescriptor)
        ensures
            is_asc_descriptor(d),
    {
        asc_descriptor()
    }

    fn build_auth_action(&self, request: &ServiceAuthActionRequest) -> (r: Result<ServiceCommandPlan, ServiceError>)
        ensures
            result_view(r) == spec_asc_auth_action(*request),
    {
        match request.action {
            ServiceAuthAction::Authenticate => build_asc_authenticate(request),
            ServiceAuthAction::Logout => Ok(build_asc_logout()),
        }
    }

    fn build_operation(&self, request: &ServiceOperationRequest) -> (r: Result<ServiceCommandPlan, ServiceError>)
        ensures
            result_view(r) == spec_asc_operation(*request),
    {
        let op = request.operation.as_str();
        if str_eq(op, "auth_status") {
            Ok(build_asc_auth_status())
        } else if str_eq(op, "list_apps") {
            Ok(build_asc_list_apps(request))
        } else if str_eq(op, "list_builds") {
            build_asc_list_builds(request)
        } else if str_eq(op, "build_pre_release_version") {
            build_asc_pre_release_version(request)
        } else if str_eq(op, "upload_build") {
            build_asc_upload_build(request)
        } else if str_eq(op, "release_run") {
            build_asc_release_run(request)
        } else {
            Err(ServiceError::UnsupportedOperation(owned(op)))
        }
    }
}

/// The registry of service providers.
pub struct ServiceHub {
    providers: Vec<AscServiceProvider>,
}

impl ServiceHub {
    /// The number of registered providers.
    pub closed spec fn provider_count(&self) -> nat {
        self.providers@.len()
    }

    /// The descriptors of the registered providers, in registration order.
    pub fn providers(&self) -> (r: Vec<ServiceProviderDescriptor>)
        ensures
            r.len() == self.provider_count(),
            forall|i: int| 0 <= i < r.len() ==> is_asc_descriptor(#[trigger] r[i]),
    {
        let mut r: Vec<ServiceProviderDescriptor> = Vec::new();
        let mut i: usize = 0;
        while i < self.providers.len()
            invariant
                i <= self.providers.len(),
                r.len() == i,
                forall|j: int| 0 <= j < r.len() ==> is_asc_descriptor(#[trigger] r[j]),
            decreases self.providers.len() - i,
        {
            r.push(self.providers[i].descriptor());
            i = i + 1;
        }
        r
    }

    /// The index of the first provider whose descriptor has the given identifier.
    fn find_provider(&self, provider_id: &String) -> (r: Option<usize>)
        ensures
            match r {
                Some(i) => i < self.providers.len() && provider_id@ == asc_provider_id(),
                None => self.providers.len() == 0 || provider_id@ != asc_provider_id(),
            },
    {
        let mut i: usize = 0;
        while i < self.providers.len()
            invariant
                i <= self.providers.len(),
                i > 0 ==> provider_id@ != asc_provider_id(),
            decreases self.providers.len() - i,
        {
            let d = self.providers[i].descriptor();
            if d.id == *provider_id {
                return Some(i);
            }
            i = i + 1;
        }
        None
    }

    /// Builds the command for an operation of the provider the request names.
    pub fn build_operation(&self, request: &ServiceOperationRequest) -> (r: Result<ServiceCommandPlan, ServiceError>)
        ensures
            self.provider_count() > 0 && request.provider_id@ == asc_provider_id()
                ==> result_view(r) == spec_asc_operation(*request),
            !(self.provider_count() > 0 && request.provider_id@ == asc_provider_id())
                ==> result_view(r) == Err::<CommandPlanView, ServiceErrorView>(ServiceErrorView::UnknownProvider(request.provider_id@)),
    {
        match self.find_provider(&request.provider_id) {
            Some(i) => self.providers[i].build_operation(request),
            None => Err(ServiceError::UnknownProvider(request.provider_id.clone())),
        }
    }

    /// Builds the command for an authentication action of the provider the request names.
    pub fn build_auth_action(&self, request: &ServiceAuthActionRequest) -> (r: Result<ServiceCommandPlan, ServiceError>)
        ensures
            self.provider_count() > 0 && request.provider_id@ == asc_provider_id()
                ==> result_view(r) == spec_asc_auth_action(*request),
            !(self.provider_count() > 0 && request.provider_id@ == asc_provider_id())
                ==> result_view(r) == Err::<CommandPlanView, ServiceErrorView>(ServiceErrorView::UnknownProvider(request.provider_id@)),
    {
        match self.find_provider(&request.provider_id) {
            Some(i) => self.providers[i].build_auth_action(request),
            None => Err(ServiceError::UnknownProvider(request.provider_id.clone())),
        }
    }
}

impl Default for ServiceHub {
    /// A hub with the App Store Connect provider registered.
    fn default() -> (hub: Self)
        ensures
            hub.provider_count() == 1,
    {
        let mut providers: Vec<AscServiceProvider> = Vec::new();
        providers.push(AscServiceProvider);
        ServiceHub { providers }
    }
}

} // verus!
