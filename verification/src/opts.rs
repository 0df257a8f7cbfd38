//! The options a scaffolding run is driven by.
//!
//! `Opts` is built either from command-line arguments (by the program around
//! the library) or through the builder methods here.

use vstd::prelude::*;
use vstd::string::StringExecFns;

verus! {

/// The options for scaffolding.
///
/// Built with [`Opts::builder`] and the setter methods, or assembled by a
/// command-line layer.  Paths are carried as text.
pub struct Opts {
    /// The template's location.
    pub template_path: String,
    /// The template's place inside its repository, when not at the root.
    pub repository_template_path: Option<String>,
    /// Commit hash, tag or branch the template is taken at.
    pub git_ref: Option<String>,
    /// The generated project's name, skipping the prompt for it.
    pub project_name: Option<String>,
    /// The target directory.
    pub target_dir: Option<String>,
    /// Replace the target directory if it exists.
    pub force: bool,
    /// Add missing files to the target directory, keeping existing ones.
    pub append: bool,
    /// Kept for backwards compatibility; ignored.
    pub passphrase_needed: bool,
    /// The private SSH key's location, when not at its usual place.
    pub private_key_path: Option<String>,
    /// `name=value` parameter overrides.
    pub parameters: Vec<String>,
}

/// All fields unset: no locations, no flags, no overrides.
pub open spec fn opts_default(o: Opts) -> bool {
    &&& o.template_path@ == Seq::<char>::empty()
    &&& o.repository_template_path is None
    &&& o.git_ref is None
    &&& o.project_name is None
    &&& o.target_dir is None
    &&& !o.force
    &&& !o.append
    &&& !o.passphrase_needed
    &&& o.private_key_path is None
    &&& o.parameters@ == Seq::<String>::empty()
}

impl Default for Opts {
    /// The empty options.
    fn default() -> (r: Opts)
        ensures
            opts_default(r),
    {
        Opts {
            template_path: String::new(),
            repository_template_path: None,
            git_ref: None,
            project_name: None,
            target_dir: None,
            force: false,
            append: false,
            passphrase_needed: false,
            private_key_path: None,
            parameters: Vec::new(),
        }
    }
}

impl Opts {
    /// Builder function for the `Opts` structure.
    pub fn builder(template_path: &str) -> (r: Self)
        ensures
            r.template_path@ == template_path@,
            r.repository_template_path is None,
            r.git_ref is None,
            r.project_name is None,
            r.target_dir is None,
            !r.force,
            !r.append,
            !r.passphrase_needed,
            r.private_key_path is None,
            r.parameters@ == Seq::<String>::empty(),
    {
        Self::default().template_path(template_path)
    }

    /// Set the template path for the structure.
    pub fn template_path(self, path: &str) -> (r: Self)
        ensures
            r.template_path@ == path@,
            r.repository_template_path == self.repository_template_path,
            r.git_ref == self.git_ref,
            r.project_name == self.project_name,
            r.target_dir == self.target_dir,
            r.force == self.force,
            r.append == self.append,
            r.passphrase_needed == self.passphrase_needed,
            r.private_key_path == self.private_key_path,
            r.parameters == self.parameters,
    {
        Opts { template_path: String::from_str(path), ..self }
    }

    /// Set the template path inside the repository.
    pub fn repository_template_path(self, path: &str) -> (r: Self)
        ensures
            r.repository_template_path matches Some(p) && p@ == path@,
            r.template_path == self.template_path,
            r.git_ref == self.git_ref,
            r.project_name == self.project_name,
            r.target_dir == self.target_dir,
            r.force == self.force,
            r.append == self.append,
            r.passphrase_needed == self.passphrase_needed,
            r.private_key_path == self.private_key_path,
            r.parameters == self.parameters,
    {
        Opts { repository_template_path: Some(String::from_str(path)), ..self }
    }

    /// Set the git reference.
    pub fn git_ref(self, gitref: &str) -> (r: Self)
        ensures
            r.git_ref matches Some(g) && g@ == gitref@,
            r.template_path == self.template_path,
            r.repository_template_path == self.repository_template_path,
            r.project_name == self.project_name,
            r.target_dir == self.target_dir,
            r.force == self.force,
            r.append == self.append,
            r.passphrase_needed == self.passphrase_needed,
            r.private_key_path == self.private_key_path,
            r.parameters == self.parameters,
    {
        Opts { git_ref: Some(String::from_str(gitref)), ..self }
    }

    /// Set the project name.
    pub fn project_name(self, name: &str) -> (r: Self)
        ensures
            r.project_name matches Some(n) && n@ == name@,
            r.template_path == self.template_path,
            r.repository_template_path == self.repository_template_path,
            r.git_ref == self.git_ref,
            r.target_dir == self.target_dir,
            r.force == self.force,
            r.append == self.append,
            r.passphrase_needed == self.passphrase_needed,
            r.private_key_path == self.private_key_path,
            r.parameters == self.parameters,
    {
        Opts { project_name: Some(String::from_str(name)), ..self }
    }

    /// Set the target directory.
    pub fn target_dir(self, target_dir: &str) -> (r: Self)
        ensures
            r.target_dir matches Some(t) && t@ == target_dir@,
            r.template_path == self.template_path,
            r.repository_template_path == self.repository_template_path,
            r.git_ref == self.git_ref,
            r.project_name == self.project_name,
            r.force == self.force,
            r.append == self.append,
            r.passphrase_needed == self.passphrase_needed,
            r.private_key_path == self.private_key_path,
            r.parameters == self.parameters,
    {
        Opts { target_dir: Some(String::from_str(target_dir)), ..self }
    }

    /// Force generating to the target directory if exists.
    pub fn force(self, force: bool) -> (r: Self)
        ensures
            r.force == force,
            r.template_path == self.template_path,
            r.repository_template_path == self.repository_template_path,
            r.git_ref == self.git_ref,
            r.project_name == self.project_name,
            r.target_dir == self.target_dir,
            r.append == self.append,
            r.passphrase_needed == self.passphrase_needed,
            r.private_key_path == self.private_key_path,
            r.parameters == self.parameters,
    {
        Opts { force, ..self }
    }

    /// Append generating to the target directory if exists.
    pub fn append(self, append: bool) -> (r: Self)
        ensures
            r.append == append,
            r.template_path == self.template_path,
            r.repository_template_path == self.repository_template_path,
            r.git_ref == self.git_ref,
            r.project_name == self.project_name,
            r.target_dir == self.target_dir,
            r.force == self.force,
            r.passphrase_needed == self.passphrase_needed,
            r.private_key_path == self.private_key_path,
            r.parameters == self.parameters,
    {
        Opts { append, ..self }
    }

    /// Is a passphrase needed; kept for backwards compatibility.
    pub fn passphrase_needed(self, needed: bool) -> (r: Self)
        ensures
            r.passphrase_needed == needed,
            r.template_path == self.template_path,
            r.repository_template_path == self.repository_template_path,
            r.git_ref == self.git_ref,
            r.project_name == self.project_name,
            r.target_dir == self.target_dir,
            r.force == self.force,
            r.append == self.append,
            r.private_key_path == self.private_key_path,
            r.parameters == self.parameters,
    {
        Opts { passphrase_needed: needed, ..self }
    }

    /// Set the private key path.
    pub fn private_key_path(self, private_key_path: &str) -> (r: Self)
        ensures
            r.private_key_path matches Some(p) && p@ == private_key_path@,
            r.template_path == self.template_path,
            r.repository_template_path == self.repository_template_path,
            r.git_ref == self.git_ref,
            r.project_name == self.project_name,
            r.target_dir == self.target_dir,
            r.force == self.force,
            r.append == self.append,
            r.passphrase_needed == self.passphrase_needed,
            r.parameters == self.parameters,
    {
        Opts { private_key_path: Some(String::from_str(private_key_path)), ..self }
    }

    /// Set the parameters, each as a `name=value` text.
    pub fn parameters(self, params: Vec<String>) -> (r: Self)
        ensures
            r.parameters == params,
            r.template_path == self.template_path,
            r.repository_template_path == self.repository_template_path,
            r.git_ref == self.git_ref,
            r.project_name == self.project_name,
            r.target_dir == self.target_dir,
            r.force == self.force,
            r.append == self.append,
            r.passphrase_needed == self.passphrase_needed,
            r.private_key_path == self.private_key_path,
    {
        Opts { parameters: params, ..self }
    }
}

} // verus!
