use vstd::prelude::*;
use vstd::string::StringExecFns;

verus! {

/// Immutable configuration of an installation, built upfront from validated
/// inputs and owned by the manager thereafter. Paths are carried as plain
/// text.
#[derive(Debug)]
pub struct InstallationConfig {
    /// Directory the application is installed into.
    pub install_path: String,
    /// Repository identifier in the form `owner/repo`.
    pub github_repo: String,
    /// Name of the background service.
    pub service_name: String,
    /// Display name for the service; defaults to the service name.
    pub service_display_name: Option<String>,
    /// Description of the service.
    pub service_description: Option<String>,
    /// Binary name to look for, when it differs from the service name.
    pub binary_name: Option<String>,
    /// Registry path holding the version marker (Windows).
    pub registry_path: Option<String>,
    /// Directory holding the version-marker file (Linux).
    pub version_file_dir: Option<String>,
    /// Working directory for the service; defaults to the install path.
    pub working_directory: Option<String>,
}

/// The display name the configuration resolves to.
pub open spec fn display_name_of(c: InstallationConfig) -> Seq<char> {
    match c.service_display_name {
        Some(n) => n@,
        None => c.service_name@,
    }
}

impl InstallationConfig {
    /// A configuration with the required fields; every optional field absent.
    pub fn new(install_path: String, github_repo: String, service_name: String) -> (r:
        InstallationConfig)
        ensures
            r.install_path == install_path,
            r.github_repo == github_repo,
            r.service_name == service_name,
            r.service_display_name is None,
            r.service_description is None,
            r.binary_name is None,
            r.registry_path is None,
            r.version_file_dir is None,
            r.working_directory is None,
    {
        InstallationConfig {
            install_path,
            github_repo,
            service_name,
            service_display_name: None,
            service_description: None,
            binary_name: None,
            registry_path: None,
            version_file_dir: None,
            working_directory: None,
        }
    }

    /// Set the service display name.
    pub fn service_display_name(self, name: String) -> (r: InstallationConfig)
        ensures
            r == (InstallationConfig { service_display_name: Some(name), ..self }),
    {
        InstallationConfig { service_display_name: Some(name), ..self }
    }

    /// Set the service description.
    pub fn service_description(self, description: String) -> (r: InstallationConfig)
        ensures
            r == (InstallationConfig { service_description: Some(description), ..self }),
    {
        InstallationConfig { service_description: Some(description), ..self }
    }

    /// Set the binary name to look for.
    pub fn binary_name(self, name: String) -> (r: InstallationConfig)
        ensures
            r == (InstallationConfig { binary_name: Some(name), ..self }),
    {
        InstallationConfig { binary_name: Some(name), ..self }
    }

    /// Set the registry path that keeps the version marker (Windows).
    pub fn registry_path(self, path: String) -> (r: InstallationConfig)
        ensures
            r == (InstallationConfig { registry_path: Some(path), ..self }),
    {
        InstallationConfig { registry_path: Some(path), ..self }
    }

    /// Set the directory that keeps the version-marker file (Linux).
    pub fn version_file_dir(self, dir: String) -> (r: InstallationConfig)
        ensures
            r == (InstallationConfig { version_file_dir: Some(dir), ..self }),
    {
        InstallationConfig { version_file_dir: Some(dir), ..self }
    }

    /// Set the working directory for the service.
    pub fn working_directory(self, dir: String) -> (r: InstallationConfig)
        ensures
            r == (InstallationConfig { working_directory: Some(dir), ..self }),
    {
        InstallationConfig { working_directory: Some(dir), ..self }
    }

    /// The service display name; the service name where none was set.
    pub fn get_display_name(&self) -> (r: &str)
        ensures
            r@ == display_name_of(*self),
    {
        match &self.service_display_name {
            Some(n) => n.as_str(),
            None => self.service_name.as_str(),
        }
    }

    /// The service description; `<display name> Service` where none was set.
    pub fn get_description(&self) -> (r: String)
        ensures
            r@ == match self.service_description {
                Some(d) => d@,
                None => display_name_of(*self) + " Service"@,
            },
    {
        match &self.service_description {
            Some(d) => d.clone(),
            None => String::from_str(self.get_display_name()).concat(" Service"),
        }
    }

    /// The working directory; the install path where none was set.
    pub fn get_working_directory(&self) -> (r: &String)
        ensures
            r@ == match self.working_directory {
                Some(d) => d@,
                None => self.install_path@,
            },
    {
        match &self.working_directory {
            Some(d) => d,
            None => &self.install_path,
        }
    }

    /// The registry path for the version marker (Windows), or its default.
    pub fn get_registry_path(&self) -> (r: &str)
        ensures
            r@ == match self.registry_path {
                Some(p) => p@,
                None => "SOFTWARE\\ObsidianInstallationManager"@,
            },
    {
        match &self.registry_path {
            Some(p) => p.as_str(),
            None => "SOFTWARE\\ObsidianInstallationManager",
        }
    }

    /// The directory of the version-marker file (Linux), or its default.
    pub fn get_version_file_dir(&self) -> (r: &str)
        ensures
            r@ == match self.version_file_dir {
                Some(d) => d@,
                None => "/var/lib/oim"@,
            },
    {
        match &self.version_file_dir {
            Some(d) => d.as_str(),
            None => "/var/lib/oim",
        }
    }
}

} // verus!
