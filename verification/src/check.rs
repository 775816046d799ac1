//! The parameters of the registry check.

use vstd::prelude::*;
use vstd::string::StrSliceExecFns;

verus! {

/// The registry that is checked where none is named.
pub const DEFAULT_REGISTRY: &'static str =
    "https://github.com/open-telemetry/semantic-conventions.git";

/// The directory of the registry within its Git repository where none is named.
pub const DEFAULT_REGISTRY_GIT_SUB_DIR: &'static str = "model";

/// Where a semantic convention registry is found.
#[derive(Debug, PartialEq)]
pub enum RegistryPath {
    /// In a local directory.
    Local {
        /// The path of the directory.
        path: String,
    },
    /// In a Git repository.
    Url {
        /// The URL of the repository.
        url: String,
    },
}

/// The view of a [`RegistryPath`].
pub enum RegistryPathView {
    Local { path: Seq<char> },
    Url { url: Seq<char> },
}

impl View for RegistryPath {
    type V = RegistryPathView;

    open spec fn view(&self) -> RegistryPathView {
        match self {
            RegistryPath::Local { path } => RegistryPathView::Local { path: path@ },
            RegistryPath::Url { url } => RegistryPathView::Url { url: url@ },
        }
    }
}

/// Whether `text` begins with `prefix`.
fn begins_with(text: &str, prefix: &str) -> (begins: bool)
    ensures
        begins == prefix@.is_prefix_of(text@),
{
    let n = prefix.unicode_len();
    if text.unicode_len() < n {
        return false;
    }
    let mut i: usize = 0;
    while i < n
        invariant
            n == prefix@.len(),
            n <= text@.len(),
            i <= n,
            forall|j: int| 0 <= j < i ==> text@[j] == prefix@[j],
        decreases n - i,
    {
        if text.get_char(i) != prefix.get_char(i) {
            assert(text@.subrange(0, n as int)[i as int] != prefix@[i as int]);
            return false;
        }
        i += 1;
    }
    assert(prefix@ =~= text@.subrange(0, n as int));
    true
}

/// Whether `text` is taken for the URL of a Git repository: it is where it
/// begins with `http://` or `https://`.
pub open spec fn is_url(text: Seq<char>) -> bool {
    "http://"@.is_prefix_of(text) || "https://"@.is_prefix_of(text)
}

impl RegistryPath {
    /// The registry path that `text` names: a Git repository where the text is a
    /// URL, else a local directory.
    pub fn from_text(text: &str) -> (path: RegistryPath)
        ensures
            path@ == if is_url(text@) {
                RegistryPathView::Url { url: text@ }
            } else {
                RegistryPathView::Local { path: text@ }
            },
    {
        if begins_with(text, "http://") || begins_with(text, "https://") {
            RegistryPath::Url { url: text.to_owned() }
        } else {
            RegistryPath::Local { path: text.to_owned() }
        }
    }

    /// The text that names the registry path: the path of the directory, or the
    /// URL of the repository.
    pub fn text(&self) -> (text: &str)
        ensures
            text@ == match self@ {
                RegistryPathView::Local { path } => path,
                RegistryPathView::Url { url } => url,
            },
    {
        match self {
            RegistryPath::Local { path } => path.as_str(),
            RegistryPath::Url { url } => url.as_str(),
        }
    }
}

/// Parameters for the `registry check` sub-command.
#[derive(Debug, PartialEq)]
pub struct RegistryCheckArgs {
    /// Local path or Git URL of the semantic convention registry to check.
    pub registry: RegistryPath,
    /// Optional path in the Git repository where the semantic convention
    /// registry is located.
    pub registry_git_sub_dir: Option<String>,
}

impl Default for RegistryCheckArgs {
    /// The parameters where none are given: the registry of the OpenTelemetry
    /// semantic conventions, in its directory `model`.
    fn default() -> (args: Self)
        ensures
            args.registry@ == (RegistryPathView::Url { url: DEFAULT_REGISTRY@ }),
            args.registry_git_sub_dir.deep_view() == Some(DEFAULT_REGISTRY_GIT_SUB_DIR@),
    {
        RegistryCheckArgs {
            registry: RegistryPath::Url { url: DEFAULT_REGISTRY.to_owned() },
            registry_git_sub_dir: Some(DEFAULT_REGISTRY_GIT_SUB_DIR.to_owned()),
        }
    }
}

} // verus!
