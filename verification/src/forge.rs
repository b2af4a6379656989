//! Forge servers: recognizing installers and launch artifacts, and planning the
//! installer run.

use vstd::prelude::*;
use crate::download::server_dir_path;
use crate::error::{CoreError, CoreErrorView};
use crate::launch::{ForgeLaunchArtifacts, ServerLaunchPlanner};
use crate::model::{ServerInstance, strings_view};
use crate::paths::{join_seq, path_join};
use crate::text::{
    contains, contains_seq, ends_with, has_prefix, has_suffix, is_blank, lowercase_seq, owned,
    is_ws, starts_with, to_lowercase, trim_end_ws, trim_start_ws, trim_seq,
};

verus! {

/// How to run a Forge installer for a server.
#[derive(Debug, Clone, PartialEq, Eq)]
pub struct ForgeInstallPlan {
    pub server_id: String,
    pub server_dir: String,
    pub installer_jar: String,
    pub java_path: String,
    pub arguments: Vec<String>,
}

impl ForgeInstallPlan {
    /// The full command: the Java executable followed by the arguments.
    pub fn command_line(&self) -> (r: Vec<String>)
        ensures
            strings_view(r@) == seq![self.java_path@] + strings_view(self.arguments@),
    {
        let mut r: Vec<String> = Vec::new();
        r.push(owned(self.java_path.as_str()));
        let ghost first = r@;
        assert(strings_view(first) =~= seq![self.java_path@]);
        crate::launch::extend_strings(&mut r, &self.arguments);
        r
    }
}

/// Whether a jar name is a Forge installer: its lowercase form holds `installer`.
pub open spec fn spec_is_installer_jar(jar_name: Seq<char>) -> bool {
    contains_seq(lowercase_seq(jar_name), "installer"@)
}

/// Whether a jar name is a Forge installer.
pub fn is_installer_jar(jar_name: &str) -> (r: bool)
    ensures
        r == spec_is_installer_jar(jar_name@),
{
    let lower = to_lowercase(jar_name);
    contains(lower.as_str(), "installer")
}

/// Whether a file name is a Forge server jar: lowercase, it starts with `forge-` and ends
/// with `-server.jar`.
pub open spec fn spec_is_forge_server_jar_name(name: Seq<char>) -> bool {
    has_prefix(lowercase_seq(name), "forge-"@) && has_suffix(lowercase_seq(name), "-server.jar"@)
}

/// Whether a file name is a Forge server jar.
pub fn is_forge_server_jar_name(name: &str) -> (r: bool)
    ensures
        r == spec_is_forge_server_jar_name(name@),
{
    let lower = to_lowercase(name);
    starts_with(lower.as_str(), "forge-") && ends_with(lower.as_str(), "-server.jar")
}

/// Whether a path is the Forge `unix_args.txt` of the Forge library itself.
pub open spec fn spec_is_forge_unix_args_path(path: Seq<char>) -> bool {
    contains_seq(path, "/net/minecraftforge/forge/"@)
}

/// Whether a found `unix_args.txt` path belongs to the Forge library.
pub fn is_forge_unix_args_path(path: &str) -> (r: bool)
    ensures
        r == spec_is_forge_unix_args_path(path@),
{
    contains(path, "/net/minecraftforge/forge/")
}

/// The first of the found `unix_args.txt` paths that belongs to the Forge library.
pub fn select_unix_args_file(paths: &Vec<String>) -> (r: Option<usize>)
    ensures
        match r {
            Some(i) => i < paths.len() && spec_is_forge_unix_args_path(paths@[i as int]@)
                && forall|j: int| 0 <= j < i ==> !spec_is_forge_unix_args_path(#[trigger] paths@[j]@),
            None => forall|j: int|
                0 <= j < paths.len() ==> !spec_is_forge_unix_args_path(#[trigger] paths@[j]@),
        },
{
    let mut i: usize = 0;
    while i < paths.len()
        invariant
            i <= paths.len(),
            forall|j: int| 0 <= j < i ==> !spec_is_forge_unix_args_path(#[trigger] paths@[j]@),
        decreases paths.len() - i,
    {
        if is_forge_unix_args_path(paths[i].as_str()) {
            return Some(i);
        }
        i += 1;
    }
    None
}

/// The first of the names in a server directory that is a Forge server jar.
pub fn select_forge_server_jar(names: &Vec<String>) -> (r: Option<usize>)
    ensures
        match r {
            Some(i) => i < names.len() && spec_is_forge_server_jar_name(names@[i as int]@)
                && forall|j: int| 0 <= j < i ==> !spec_is_forge_server_jar_name(#[trigger] names@[j]@),
            None => forall|j: int|
                0 <= j < names.len() ==> !spec_is_forge_server_jar_name(#[trigger] names@[j]@),
        },
{
    let mut i: usize = 0;
    while i < names.len()
        invariant
            i <= names.len(),
            forall|j: int| 0 <= j < i ==> !spec_is_forge_server_jar_name(#[trigger] names@[j]@),
        decreases names.len() - i,
    {
        if is_forge_server_jar_name(names[i].as_str()) {
            return Some(i);
        }
        i += 1;
    }
    None
}

/// Whether a server directory holds what launches Forge: a `run.sh`, the Forge
/// `unix_args.txt` or a Forge server jar.
pub fn has_launch_artifacts(artifacts: &ForgeLaunchArtifacts) -> (r: bool)
    ensures
        r == (artifacts.run_script_exists || artifacts.unix_args_file is Some
            || artifacts.forge_server_jar is Some),
{
    artifacts.run_script_exists || artifacts.unix_args_file.is_some()
        || artifacts.forge_server_jar.is_some()
}

/// Plans Forge installer runs for servers below a working directory.
pub struct ForgeInstallerPlanner {
    pub launch_planner: ServerLaunchPlanner,
}

/// The view of an installer plan.
pub struct ForgeInstallPlanView {
    pub server_id: Seq<char>,
    pub server_dir: Seq<char>,
    pub installer_jar: Seq<char>,
    pub java_path: Seq<char>,
    pub arguments: Seq<Seq<char>>,
}

impl View for ForgeInstallPlan {
    type V = ForgeInstallPlanView;

    open spec fn view(&self) -> ForgeInstallPlanView {
        ForgeInstallPlanView {
            server_id: self.server_id@,
            server_dir: self.server_dir@,
            installer_jar: self.installer_jar@,
            java_path: self.java_path@,
            arguments: strings_view(self.arguments@),
        }
    }
}

/// The installer plan of a server: none when launch artifacts already exist or the jar
/// is not an installer; an error when the installer file is missing; otherwise Java
/// (`java` when no Java path is set) runs `-jar <installer> --installServer` in the
/// server directory.
pub open spec fn spec_install_plan(
    working_path: Seq<char>,
    s: crate::model::ServerInstanceView,
    artifacts_present: bool,
    installer_exists: bool,
) -> Result<Option<ForgeInstallPlanView>, CoreErrorView> {
    let dir = server_dir_path(working_path, s.directory_name);
    let installer = join_seq(dir, s.server_jar);
    if artifacts_present || !spec_is_installer_jar(s.server_jar) {
        Ok(None)
    } else if !installer_exists {
        Err(CoreErrorView::NotFound { resource: "forge installer"@, id: installer })
    } else {
        Ok(
            Some(
                ForgeInstallPlanView {
                    server_id: s.id,
                    server_dir: dir,
                    installer_jar: installer,
                    java_path: if trim_seq(s.java_path).len() == 0 {
                        "java"@
                    } else {
                        s.java_path
                    },
                    arguments: seq!["-jar"@, installer, "--installServer"@],
                },
            ),
        )
    }
}

/// The view of an installer-plan result.
pub open spec fn install_plan_result_view(r: Result<Option<ForgeInstallPlan>, CoreError>) -> Result<
    Option<ForgeInstallPlanView>,
    CoreErrorView,
> {
    match r {
        Ok(Some(p)) => Ok(Some(p@)),
        Ok(None) => Ok(None),
        Err(e) => Err(e@),
    }
}

impl ForgeInstallerPlanner {
    /// A planner for the given working directory.
    pub fn new(working_path: &str) -> (p: ForgeInstallerPlanner)
        ensures
            p.launch_planner.working_path@ == working_path@,
    {
        ForgeInstallerPlanner { launch_planner: ServerLaunchPlanner::new(working_path) }
    }

    /// The installer plan of `server`, given whether its directory already holds launch
    /// artifacts and whether its installer file exists.
    pub fn install_plan(
        &self,
        server: &ServerInstance,
        artifacts_present: bool,
        installer_exists: bool,
    ) -> (r: Result<Option<ForgeInstallPlan>, CoreError>)
        ensures
            install_plan_result_view(r) == spec_install_plan(
                self.launch_planner.working_path@,
                server@,
                artifacts_present,
                installer_exists,
            ),
    {
        let server_dir = self.launch_planner.server_dir(server);
        if artifacts_present || !is_installer_jar(server.server_jar.as_str()) {
            return Ok(None);
        }
        let installer_jar = path_join(server_dir.as_str(), server.server_jar.as_str());
        if !installer_exists {
            return Err(CoreError::not_found("forge installer", installer_jar.as_str()));
        }
        let java_path = if is_blank(server.java_path.as_str()) {
            owned("java")
        } else {
            owned(server.java_path.as_str())
        };
        let mut arguments: Vec<String> = Vec::new();
        arguments.push(owned("-jar"));
        arguments.push(owned(installer_jar.as_str()));
        arguments.push(owned("--installServer"));
        assert(strings_view(arguments@) =~= seq!["-jar"@, installer_jar@, "--installServer"@]);
        Ok(
            Some(
                ForgeInstallPlan {
                    server_id: owned(server.id.as_str()),
                    server_dir,
                    installer_jar,
                    java_path,
                    arguments,
                },
            ),
        )
    }
}


/// A planned installer run always names a Java program, so its command line never starts
/// with a blank program: the server's Java path when it is set, and `java` when it is
/// blank. It runs `-jar <installer> --installServer`, the installer being the server's
/// jar inside the server's directory.
pub proof fn lemma_install_plan_java_program(
    working_path: Seq<char>,
    s: crate::model::ServerInstanceView,
    artifacts_present: bool,
    installer_exists: bool,
)
    ensures
        match spec_install_plan(working_path, s, artifacts_present, installer_exists) {
            Ok(Some(p)) => {
                &&& trim_seq(p.java_path).len() > 0
                &&& trim_seq(s.java_path).len() == 0 ==> p.java_path == "java"@
                &&& trim_seq(s.java_path).len() > 0 ==> p.java_path == s.java_path
                &&& p.server_dir == server_dir_path(working_path, s.directory_name)
                &&& p.installer_jar == join_seq(p.server_dir, s.server_jar)
                &&& p.arguments == seq!["-jar"@, p.installer_jar, "--installServer"@]
            },
            _ => true,
        },
{
    reveal_strlit("java");
    let java = "java"@;
    assert(java.len() == 4 && java[0] == 'j' && java[3] == 'a');
    assert(!is_ws('j') && !is_ws('a'));
    assert(trim_start_ws(java) == java);
    assert(trim_end_ws(java) == java);
}

} // verus!
