use vstd::prelude::*;

use crate::workspace::Workspace;

verus! {

/// The error taxonomy of every fallible operation of this crate.
#[derive(Debug, Clone)]
pub enum CommandError {
    /// A filesystem or archive failure, reported by the surrounding layer.
    IOError { message: String },
    /// A malformed name, version, or other bad argument.
    InvalidArgument { message: String },
    /// A version request that lacks the precision the operation needs.
    ImpreciseVersion { message: String },
    /// No matching installed or remote version, or an unknown remote.
    NotFound { message: String },
    /// An attempt to initialize a workspace inside an existing one.
    AlreadyInWorkspace { message: String },
    /// A workspace-scoped operation outside any workspace.
    NotAWorkspace { message: String },
    /// A package root carrying more than one manifest kind.
    AmbiguousManifest { message: String },
    /// A native binary that failed to load or lacks its version symbol.
    NativeProbeError { message: String },
    /// A remote catalog write or hosted-release upload that failed.
    BackendError { message: String },
}

impl CommandError {
    /// The human-readable text carried by any variant.
    pub fn message(&self) -> (r: &String)
        ensures
            r@ == self.message_view(),
    {
        match self {
            CommandError::IOError { message } => message,
            CommandError::InvalidArgument { message } => message,
            CommandError::ImpreciseVersion { message } => message,
            CommandError::NotFound { message } => message,
            CommandError::AlreadyInWorkspace { message } => message,
            CommandError::NotAWorkspace { message } => message,
            CommandError::AmbiguousManifest { message } => message,
            CommandError::NativeProbeError { message } => message,
            CommandError::BackendError { message } => message,
        }
    }

    pub open spec fn message_view(self) -> Seq<char> {
        match self {
            CommandError::IOError { message } => message@,
            CommandError::InvalidArgument { message } => message@,
            CommandError::ImpreciseVersion { message } => message@,
            CommandError::NotFound { message } => message@,
            CommandError::AlreadyInWorkspace { message } => message@,
            CommandError::NotAWorkspace { message } => message@,
            CommandError::AmbiguousManifest { message } => message@,
            CommandError::NativeProbeError { message } => message@,
            CommandError::BackendError { message } => message@,
        }
    }
}

/// Initializes a directory as a workspace.
pub struct InitCommand {}

impl InitCommand {
    /// An `init` runs outside any existing workspace.
    pub fn needs_workspace(&self) -> (r: bool)
        ensures
            !r,
    {
        false
    }

    /// Decides an `init` for `root`, given the nearest enclosing workspace
    /// root the surrounding layer found, if any.
    pub fn run_init(&self, root: String, enclosing_root: Option<String>) -> (r: Result<
        Workspace,
        CommandError,
    >)
        ensures
            r is Ok <==> enclosing_root is None,
            r is Err ==> r.unwrap_err() is AlreadyInWorkspace,
            r is Ok ==> {
                let ws = r.unwrap();
                &&& ws.wf()
                &&& ws.root == root
                &&& ws.installed_modules@.len() == 0
                &&& ws.remotes@.len() == 0
            },
    {
        Workspace::init(root, enclosing_root)
    }
}

/// Lists the installed modules of a workspace.
pub struct ListCommand {}

impl ListCommand {
    pub fn needs_workspace(&self) -> (r: bool)
        ensures
            r,
    {
        true
    }

    /// One `name-version` line per installed module, in registry order.
    pub fn run_list(&self, workspace: &Workspace) -> (lines: Vec<String>)
        ensures
            lines@.len() == workspace.installed_modules@.len(),
            forall|i: int|
                0 <= i < lines@.len() ==> (#[trigger] lines@[i])@
                    == workspace.installed_modules@[i].name@ + seq!['-']
                    + workspace.installed_modules@[i].version@,
    {
        let n = workspace.installed_modules.len();
        let mut lines: Vec<String> = Vec::new();
        let mut i: usize = 0;
        while i < n
            invariant
                0 <= i <= n,
                n == workspace.installed_modules@.len(),
                lines@.len() == i,
                forall|j: int|
                    0 <= j < i ==> (#[trigger] lines@[j])@
                        == workspace.installed_modules@[j].name@ + seq!['-']
                        + workspace.installed_modules@[j].version@,
            decreases n - i,
        {
            proof {
                reveal_strlit("-");
                assert("-"@ =~= seq!['-']);
            }
            let m = &workspace.installed_modules[i];
            let mut line = m.name.clone();
            line.append("-");
            line.append(m.version.as_str());
            proof {
                assert(line@ =~= workspace.installed_modules@[i as int].name@ + seq!['-']
                    + workspace.installed_modules@[i as int].version@);
            }
            lines.push(line);
            i = i + 1;
        }
        lines
    }
}

} // verus!
