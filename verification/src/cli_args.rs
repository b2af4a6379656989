//! The command line of the server manager: its commands and their arguments.

use vstd::prelude::*;

verus! {

/// The mathematical form of one argument value.
pub enum ArgV {
    Text(Seq<char>),
    MaybeText(Option<Seq<char>>),
    Number(int),
    MaybeNumber(Option<int>),
    Switch(bool),
}

/// The mathematical form of a parsed command: the words that name it, then the values
/// of its arguments in order.
#[verifier::ext_equal]
pub struct CmdView {
    pub path: Seq<Seq<char>>,
    pub args: Seq<ArgV>,
}

/// The view of an optional string.
pub open spec fn ov(o: Option<String>) -> Option<Seq<char>> {
    match o {
        Some(s) => Some(s@),
        None => None,
    }
}

/// `c` named by one more word in front.
pub open spec fn nested(word: Seq<char>, c: CmdView) -> CmdView {
    CmdView { path: seq![word] + c.path, ..c }
}

/// A command with no arguments.
pub open spec fn bare(word: Seq<char>) -> CmdView {
    CmdView { path: seq![word], args: Seq::empty() }
}

/// The parsed command line: the global options and the command.
pub struct Cli {
    pub db: Option<String>,
    pub working_path: Option<String>,
    pub demo: bool,
    pub command: Command,
}

/// The mathematical form of a parsed command line.
pub struct CliView {
    pub db: Option<Seq<char>>,
    pub working_path: Option<Seq<char>>,
    pub demo: bool,
    pub command: CmdView,
}

/// The view of a parsed command line.
pub open spec fn cli_view(c: Cli) -> CliView {
    CliView { db: ov(c.db), working_path: ov(c.working_path), demo: c.demo, command: command_view(c.command) }
}

/// The arguments of a command.
pub struct SettingsScopeArgs {
    pub scope: String,
}

/// The view of a command named `word` with these arguments.
pub open spec fn settings_scope_args_view(word: Seq<char>, a: SettingsScopeArgs) -> CmdView {
    CmdView { path: seq![word], args: seq![ArgV::Text(a.scope@)] }
}

/// The arguments of a command.
pub struct SettingsWriteArgs {
    pub scope: String,
    pub json: String,
}

/// The view of a command named `word` with these arguments.
pub open spec fn settings_write_args_view(word: Seq<char>, a: SettingsWriteArgs) -> CmdView {
    CmdView { path: seq![word], args: seq![ArgV::Text(a.scope@), ArgV::Text(a.json@)] }
}

/// The arguments of a command.
pub struct ServerPlayerListArgs {
    pub id: String,
    pub file_name: String,
}

/// The view of a command named `word` with these arguments.
pub open spec fn server_player_list_args_view(word: Seq<char>, a: ServerPlayerListArgs) -> CmdView {
    CmdView { path: seq![word], args: seq![ArgV::Text(a.id@), ArgV::Text(a.file_name@)] }
}

/// The arguments of a command.
pub struct ServerIdArgs {
    pub id: String,
}

/// The view of a command named `word` with these arguments.
pub open spec fn server_id_args_view(word: Seq<char>, a: ServerIdArgs) -> CmdView {
    CmdView { path: seq![word], args: seq![ArgV::Text(a.id@)] }
}

/// The arguments of a command.
pub struct ServerNameArgs {
    pub name: String,
}

/// The view of a command named `word` with these arguments.
pub open spec fn server_name_args_view(word: Seq<char>, a: ServerNameArgs) -> CmdView {
    CmdView { path: seq![word], args: seq![ArgV::Text(a.name@)] }
}

/// The arguments of a command.
pub struct ServerLogsArgs {
    pub id: String,
    pub lines: usize,
}

/// The view of a command named `word` with these arguments.
pub open spec fn server_logs_args_view(word: Seq<char>, a: ServerLogsArgs) -> CmdView {
    CmdView { path: seq![word], args: seq![ArgV::Text(a.id@), ArgV::Number(a.lines as int)] }
}

/// The arguments of a command.
pub struct ServerSendArgs {
    pub id: String,
    pub command: String,
}

/// The view of a command named `word` with these arguments.
pub open spec fn server_send_args_view(word: Seq<char>, a: ServerSendArgs) -> CmdView {
    CmdView { path: seq![word], args: seq![ArgV::Text(a.id@), ArgV::Text(a.command@)] }
}

/// The arguments of a command.
pub struct ServerJavaPathArgs {
    pub id: String,
    pub java_path: String,
}

/// The view of a command named `word` with these arguments.
pub open spec fn server_java_path_args_view(word: Seq<char>, a: ServerJavaPathArgs) -> CmdView {
    CmdView { path: seq![word], args: seq![ArgV::Text(a.id@), ArgV::Text(a.java_path@)] }
}

/// The arguments of a command.
pub struct ServerLocalLogPollArgs {
    pub id: String,
    pub current_file_path: Option<String>,
    pub offset: u64,
}

/// The view of a command named `word` with these arguments.
pub open spec fn server_local_log_poll_args_view(word: Seq<char>, a: ServerLocalLogPollArgs) -> CmdView {
    CmdView { path: seq![word], args: seq![ArgV::Text(a.id@), ArgV::MaybeText(ov(a.current_file_path)), ArgV::Number(a.offset as int)] }
}

/// The arguments of a command.
pub struct ServerInterruptArgs {
    pub id: String,
    pub force: bool,
}

/// The view of a command named `word` with these arguments.
pub open spec fn server_interrupt_args_view(word: Seq<char>, a: ServerInterruptArgs) -> CmdView {
    CmdView { path: seq![word], args: seq![ArgV::Text(a.id@), ArgV::Switch(a.force)] }
}

/// The arguments of a command.
pub struct ServerPropertiesWriteArgs {
    pub id: String,
    pub json: String,
}

/// The view of a command named `word` with these arguments.
pub open spec fn server_properties_write_args_view(word: Seq<char>, a: ServerPropertiesWriteArgs) -> CmdView {
    CmdView { path: seq![word], args: seq![ArgV::Text(a.id@), ArgV::Text(a.json@)] }
}

/// The arguments of a command.
pub struct ServerFilePathArgs {
    pub id: String,
    pub path: String,
}

/// The view of a command named `word` with these arguments.
pub open spec fn server_file_path_args_view(word: Seq<char>, a: ServerFilePathArgs) -> CmdView {
    CmdView { path: seq![word], args: seq![ArgV::Text(a.id@), ArgV::Text(a.path@)] }
}

/// The arguments of a command.
pub struct ServerFileMoveArgs {
    pub id: String,
    pub from: String,
    pub to: String,
}

/// The view of a command named `word` with these arguments.
pub open spec fn server_file_move_args_view(word: Seq<char>, a: ServerFileMoveArgs) -> CmdView {
    CmdView { path: seq![word], args: seq![ArgV::Text(a.id@), ArgV::Text(a.from@), ArgV::Text(a.to@)] }
}

/// The arguments of a command.
pub struct ServerFileImportArgs {
    pub id: String,
    pub source: String,
    pub directory: String,
}

/// The view of a command named `word` with these arguments.
pub open spec fn server_file_import_args_view(word: Seq<char>, a: ServerFileImportArgs) -> CmdView {
    CmdView { path: seq![word], args: seq![ArgV::Text(a.id@), ArgV::Text(a.source@), ArgV::Text(a.directory@)] }
}

/// The arguments of a command.
pub struct ResourceDownloadArgs {
    pub game_name: String,
    pub resource_type: String,
    pub url: String,
    pub file_name: String,
    pub sha1: Option<String>,
}

/// The view of a command named `word` with these arguments.
pub open spec fn resource_download_args_view(word: Seq<char>, a: ResourceDownloadArgs) -> CmdView {
    CmdView { path: seq![word], args: seq![ArgV::Text(a.game_name@), ArgV::Text(a.resource_type@), ArgV::Text(a.url@), ArgV::Text(a.file_name@), ArgV::MaybeText(ov(a.sha1))] }
}

/// The arguments of a command.
pub struct GameLaunchPlanArgs {
    pub json: String,
}

/// The view of a command named `word` with these arguments.
pub open spec fn game_launch_plan_args_view(word: Seq<char>, a: GameLaunchPlanArgs) -> CmdView {
    CmdView { path: seq![word], args: seq![ArgV::Text(a.json@)] }
}

/// The arguments of a command.
pub struct GameMavenCoordinateArgs {
    pub coordinate: String,
}

/// The view of a command named `word` with these arguments.
pub open spec fn game_maven_coordinate_args_view(word: Seq<char>, a: GameMavenCoordinateArgs) -> CmdView {
    CmdView { path: seq![word], args: seq![ArgV::Text(a.coordinate@)] }
}

/// The arguments of a command.
pub struct GameMavenPathArgs {
    pub coordinate: String,
    pub libraries_dir: String,
}

/// The view of a command named `word` with these arguments.
pub open spec fn game_maven_path_args_view(word: Seq<char>, a: GameMavenPathArgs) -> CmdView {
    CmdView { path: seq![word], args: seq![ArgV::Text(a.coordinate@), ArgV::Text(a.libraries_dir@)] }
}

/// The arguments of a command.
pub struct GameLoaderClasspathArgs {
    pub json: String,
    pub libraries_dir: String,
    pub include_in_classpath_only: bool,
}

/// The view of a command named `word` with these arguments.
pub open spec fn game_loader_classpath_args_view(word: Seq<char>, a: GameLoaderClasspathArgs) -> CmdView {
    CmdView { path: seq![word], args: seq![ArgV::Text(a.json@), ArgV::Text(a.libraries_dir@), ArgV::Switch(a.include_in_classpath_only)] }
}

/// The arguments of a command.
pub struct GameLoaderPlaceholderArgs {
    pub json: String,
    pub game_version: String,
}

/// The view of a command named `word` with these arguments.
pub open spec fn game_loader_placeholder_args_view(word: Seq<char>, a: GameLoaderPlaceholderArgs) -> CmdView {
    CmdView { path: seq![word], args: seq![ArgV::Text(a.json@), ArgV::Text(a.game_version@)] }
}

/// The arguments of a command.
pub struct GameExecuteProcessorArgs {
    pub json: String,
}

/// The view of a command named `word` with these arguments.
pub open spec fn game_execute_processor_args_view(word: Seq<char>, a: GameExecuteProcessorArgs) -> CmdView {
    CmdView { path: seq![word], args: seq![ArgV::Text(a.json@)] }
}

/// The arguments of a command.
pub struct GameDownloadFileArgs {
    pub url: String,
    pub destination: String,
    pub sha1: Option<String>,
    pub headers_json: Option<String>,
}

/// The view of a command named `word` with these arguments.
pub open spec fn game_download_file_args_view(word: Seq<char>, a: GameDownloadFileArgs) -> CmdView {
    CmdView { path: seq![word], args: seq![ArgV::Text(a.url@), ArgV::Text(a.destination@), ArgV::MaybeText(ov(a.sha1)), ArgV::MaybeText(ov(a.headers_json))] }
}

/// The arguments of a command.
pub struct GameFetchJsonArgs {
    pub url: String,
    pub headers_json: Option<String>,
}

/// The view of a command named `word` with these arguments.
pub open spec fn game_fetch_json_args_view(word: Seq<char>, a: GameFetchJsonArgs) -> CmdView {
    CmdView { path: seq![word], args: seq![ArgV::Text(a.url@), ArgV::MaybeText(ov(a.headers_json))] }
}

/// The arguments of a command.
pub struct GameSetExecutableArgs {
    pub path: String,
}

/// The view of a command named `word` with these arguments.
pub open spec fn game_set_executable_args_view(word: Seq<char>, a: GameSetExecutableArgs) -> CmdView {
    CmdView { path: seq![word], args: seq![ArgV::Text(a.path@)] }
}

/// The arguments of a command.
pub struct GameExtractZuluRuntimeArgs {
    pub zip_path: String,
    pub target_directory: String,
}

/// The view of a command named `word` with these arguments.
pub open spec fn game_extract_zulu_runtime_args_view(word: Seq<char>, a: GameExtractZuluRuntimeArgs) -> CmdView {
    CmdView { path: seq![word], args: seq![ArgV::Text(a.zip_path@), ArgV::Text(a.target_directory@)] }
}

/// The arguments of a command.
pub struct GameSha1FileArgs {
    pub path: String,
}

/// The view of a command named `word` with these arguments.
pub open spec fn game_sha1_file_args_view(word: Seq<char>, a: GameSha1FileArgs) -> CmdView {
    CmdView { path: seq![word], args: seq![ArgV::Text(a.path@)] }
}

/// The arguments of a command.
pub struct GameHashResourceFilesArgs {
    pub directory: String,
}

/// The view of a command named `word` with these arguments.
pub open spec fn game_hash_resource_files_args_view(word: Seq<char>, a: GameHashResourceFilesArgs) -> CmdView {
    CmdView { path: seq![word], args: seq![ArgV::Text(a.directory@)] }
}

/// The arguments of a command.
pub struct GameBackupCreateArgs {
    pub source_root: String,
    pub output_path: String,
    pub keep_count: Option<usize>,
}

/// The view of a command named `word` with these arguments.
pub open spec fn game_backup_create_args_view(word: Seq<char>, a: GameBackupCreateArgs) -> CmdView {
    CmdView { path: seq![word], args: seq![ArgV::Text(a.source_root@), ArgV::Text(a.output_path@), ArgV::MaybeNumber(match a.keep_count { Some(n) => Some(n as int), None => None })] }
}

/// The arguments of a command.
pub struct GameBackupListArgs {
    pub backup_root: String,
}

/// The view of a command named `word` with these arguments.
pub open spec fn game_backup_list_args_view(word: Seq<char>, a: GameBackupListArgs) -> CmdView {
    CmdView { path: seq![word], args: seq![ArgV::Text(a.backup_root@)] }
}

/// The arguments of a command.
pub struct GameBackupListServersArgs {
    pub backup_path: String,
}

/// The view of a command named `word` with these arguments.
pub open spec fn game_backup_list_servers_args_view(word: Seq<char>, a: GameBackupListServersArgs) -> CmdView {
    CmdView { path: seq![word], args: seq![ArgV::Text(a.backup_path@)] }
}

/// The arguments of a command.
pub struct GameBackupRestoreArgs {
    pub backup_path: String,
    pub server_name: String,
    pub target_root: String,
}

/// The view of a command named `word` with these arguments.
pub open spec fn game_backup_restore_args_view(word: Seq<char>, a: GameBackupRestoreArgs) -> CmdView {
    CmdView { path: seq![word], args: seq![ArgV::Text(a.backup_path@), ArgV::Text(a.server_name@), ArgV::Text(a.target_root@)] }
}

/// The arguments of a command.
pub struct ServerCreateArgs {
    pub json: String,
}

/// The view of a command named `word` with these arguments.
pub open spec fn server_create_args_view(word: Seq<char>, a: ServerCreateArgs) -> CmdView {
    CmdView { path: seq![word], args: seq![ArgV::Text(a.json@)] }
}

/// The arguments of a command.
pub struct MirrorBaseUrlArgs {
    pub base_url: Option<String>,
}

/// The view of a command named `word` with these arguments.
pub open spec fn mirror_base_url_args_view(word: Seq<char>, a: MirrorBaseUrlArgs) -> CmdView {
    CmdView { path: seq![word], args: seq![ArgV::MaybeText(ov(a.base_url))] }
}

/// The arguments of a command.
pub struct MirrorCoreArgs {
    pub core_name: String,
    pub base_url: Option<String>,
}

/// The view of a command named `word` with these arguments.
pub open spec fn mirror_core_args_view(word: Seq<char>, a: MirrorCoreArgs) -> CmdView {
    CmdView { path: seq![word], args: seq![ArgV::Text(a.core_name@), ArgV::MaybeText(ov(a.base_url))] }
}

/// The arguments of a command.
pub struct MirrorCoreGameVersionArgs {
    pub core_name: String,
    pub game_version: String,
    pub base_url: Option<String>,
}

/// The view of a command named `word` with these arguments.
pub open spec fn mirror_core_game_version_args_view(word: Seq<char>, a: MirrorCoreGameVersionArgs) -> CmdView {
    CmdView { path: seq![word], args: seq![ArgV::Text(a.core_name@), ArgV::Text(a.game_version@), ArgV::MaybeText(ov(a.base_url))] }
}

/// The arguments of a command.
pub struct MirrorCoreVersionDetailArgs {
    pub core_name: String,
    pub game_version: String,
    pub core_version: String,
    pub base_url: Option<String>,
}

/// The view of a command named `word` with these arguments.
pub open spec fn mirror_core_version_detail_args_view(word: Seq<char>, a: MirrorCoreVersionDetailArgs) -> CmdView {
    CmdView { path: seq![word], args: seq![ArgV::Text(a.core_name@), ArgV::Text(a.game_version@), ArgV::Text(a.core_version@), ArgV::MaybeText(ov(a.base_url))] }
}

/// The arguments of a command.
pub struct MirrorPolarsItemsArgs {
    pub core_type_id: i64,
    pub base_url: Option<String>,
}

/// The view of a command named `word` with these arguments.
pub open spec fn mirror_polars_items_args_view(word: Seq<char>, a: MirrorPolarsItemsArgs) -> CmdView {
    CmdView { path: seq![word], args: seq![ArgV::Number(a.core_type_id as int), ArgV::MaybeText(ov(a.base_url))] }
}

/// The arguments of a command.
pub struct MirrorCustomConfigArgs {
    pub config_json: String,
    pub base_url: String,
}

/// The view of a command named `word` with these arguments.
pub open spec fn mirror_custom_config_args_view(word: Seq<char>, a: MirrorCustomConfigArgs) -> CmdView {
    CmdView { path: seq![word], args: seq![ArgV::Text(a.config_json@), ArgV::Text(a.base_url@)] }
}

/// The arguments of a command.
pub struct MirrorCustomCoreArgs {
    pub config_json: String,
    pub base_url: String,
    pub core_name: String,
}

/// The view of a command named `word` with these arguments.
pub open spec fn mirror_custom_core_args_view(word: Seq<char>, a: MirrorCustomCoreArgs) -> CmdView {
    CmdView { path: seq![word], args: seq![ArgV::Text(a.config_json@), ArgV::Text(a.base_url@), ArgV::Text(a.core_name@)] }
}

/// The arguments of a command.
pub struct MirrorCustomCoreGameArgs {
    pub config_json: String,
    pub base_url: String,
    pub core_name: String,
    pub game_version: String,
}

/// The view of a command named `word` with these arguments.
pub open spec fn mirror_custom_core_game_args_view(word: Seq<char>, a: MirrorCustomCoreGameArgs) -> CmdView {
    CmdView { path: seq![word], args: seq![ArgV::Text(a.config_json@), ArgV::Text(a.base_url@), ArgV::Text(a.core_name@), ArgV::Text(a.game_version@)] }
}

/// The arguments of a command.
pub struct MirrorCustomDetailArgs {
    pub config_json: String,
    pub base_url: String,
    pub core_name: String,
    pub game_version: String,
    pub core_version: String,
}

/// The view of a command named `word` with these arguments.
pub open spec fn mirror_custom_detail_args_view(word: Seq<char>, a: MirrorCustomDetailArgs) -> CmdView {
    CmdView { path: seq![word], args: seq![ArgV::Text(a.config_json@), ArgV::Text(a.base_url@), ArgV::Text(a.core_name@), ArgV::Text(a.game_version@), ArgV::Text(a.core_version@)] }
}

/// The arguments of a command.
pub struct ModrinthIdArgs {
    pub id: String,
}

/// The view of a command named `word` with these arguments.
pub open spec fn modrinth_id_args_view(word: Seq<char>, a: ModrinthIdArgs) -> CmdView {
    CmdView { path: seq![word], args: seq![ArgV::Text(a.id@)] }
}

/// The arguments of a command.
pub struct ModrinthVersionIdArgs {
    pub version_id: String,
}

/// The view of a command named `word` with these arguments.
pub open spec fn modrinth_version_id_args_view(word: Seq<char>, a: ModrinthVersionIdArgs) -> CmdView {
    CmdView { path: seq![word], args: seq![ArgV::Text(a.version_id@)] }
}

/// The arguments of a command.
pub struct ModrinthFileHashArgs {
    pub hash: String,
}

/// The view of a command named `word` with these arguments.
pub open spec fn modrinth_file_hash_args_view(word: Seq<char>, a: ModrinthFileHashArgs) -> CmdView {
    CmdView { path: seq![word], args: seq![ArgV::Text(a.hash@)] }
}

/// The arguments of a command.
pub struct ModrinthMinecraftVersionArgs {
    pub version: String,
}

/// The view of a command named `word` with these arguments.
pub open spec fn modrinth_minecraft_version_args_view(word: Seq<char>, a: ModrinthMinecraftVersionArgs) -> CmdView {
    CmdView { path: seq![word], args: seq![ArgV::Text(a.version@)] }
}

/// The arguments of a command.
pub struct ModrinthLoaderNameArgs {
    pub loader: String,
}

/// The view of a command named `word` with these arguments.
pub open spec fn modrinth_loader_name_args_view(word: Seq<char>, a: ModrinthLoaderNameArgs) -> CmdView {
    CmdView { path: seq![word], args: seq![ArgV::Text(a.loader@)] }
}

/// The arguments of a command.
pub struct ModrinthLoaderProfileArgs {
    pub loader: String,
    pub version: String,
}

/// The view of a command named `word` with these arguments.
pub open spec fn modrinth_loader_profile_args_view(word: Seq<char>, a: ModrinthLoaderProfileArgs) -> CmdView {
    CmdView { path: seq![word], args: seq![ArgV::Text(a.loader@), ArgV::Text(a.version@)] }
}

/// The arguments of a command.
pub struct ModrinthSearchArgs {
    pub index: String,
    pub offset: i32,
    pub limit: i32,
    pub query: Option<String>,
    pub facets_json: Option<String>,
}

/// The view of a command named `word` with these arguments.
pub open spec fn modrinth_search_args_view(word: Seq<char>, a: ModrinthSearchArgs) -> CmdView {
    CmdView { path: seq![word], args: seq![ArgV::Text(a.index@), ArgV::Number(a.offset as int), ArgV::Number(a.limit as int), ArgV::MaybeText(ov(a.query)), ArgV::MaybeText(ov(a.facets_json))] }
}

/// The arguments of a command.
pub struct ModrinthGameVersionsArgs {
    pub include_snapshots: bool,
}

/// The view of a command named `word` with these arguments.
pub open spec fn modrinth_game_versions_args_view(word: Seq<char>, a: ModrinthGameVersionsArgs) -> CmdView {
    CmdView { path: seq![word], args: seq![ArgV::Switch(a.include_snapshots)] }
}

/// The arguments of a command.
pub struct ModrinthVersionsFilterArgs {
    pub id: String,
    pub project_type: String,
    pub selected_versions_json: String,
    pub selected_loaders_json: String,
}

/// The view of a command named `word` with these arguments.
pub open spec fn modrinth_versions_filter_args_view(word: Seq<char>, a: ModrinthVersionsFilterArgs) -> CmdView {
    CmdView { path: seq![word], args: seq![ArgV::Text(a.id@), ArgV::Text(a.project_type@), ArgV::Text(a.selected_versions_json@), ArgV::Text(a.selected_loaders_json@)] }
}

/// The arguments of a command.
pub struct ModrinthDependenciesArgs {
    pub id: String,
    pub project_type: String,
    pub selected_versions_json: String,
    pub selected_loaders_json: String,
}

/// The view of a command named `word` with these arguments.
pub open spec fn modrinth_dependencies_args_view(word: Seq<char>, a: ModrinthDependenciesArgs) -> CmdView {
    CmdView { path: seq![word], args: seq![ArgV::Text(a.id@), ArgV::Text(a.project_type@), ArgV::Text(a.selected_versions_json@), ArgV::Text(a.selected_loaders_json@)] }
}

/// The arguments of a command.
pub struct ServerResolveDownloadArgs {
    pub json: String,
}

/// The view of a command named `word` with these arguments.
pub open spec fn server_resolve_download_args_view(word: Seq<char>, a: ServerResolveDownloadArgs) -> CmdView {
    CmdView { path: seq![word], args: seq![ArgV::Text(a.json@)] }
}

/// The arguments of a command.
pub struct ServerGameVersionArgs {
    pub game_version: String,
}

/// The view of a command named `word` with these arguments.
pub open spec fn server_game_version_args_view(word: Seq<char>, a: ServerGameVersionArgs) -> CmdView {
    CmdView { path: seq![word], args: seq![ArgV::Text(a.game_version@)] }
}

/// The arguments of a command.
pub struct ServerGameVersionsArgs {
    pub server_type: String,
    pub include_snapshots: bool,
}

/// The view of a command named `word` with these arguments.
pub open spec fn server_game_versions_args_view(word: Seq<char>, a: ServerGameVersionsArgs) -> CmdView {
    CmdView { path: seq![word], args: seq![ArgV::Text(a.server_type@), ArgV::Switch(a.include_snapshots)] }
}

/// The arguments of a command.
pub struct ServerLoaderVersionsArgs {
    pub server_type: String,
    pub game_version: String,
}

/// The view of a command named `word` with these arguments.
pub open spec fn server_loader_versions_args_view(word: Seq<char>, a: ServerLoaderVersionsArgs) -> CmdView {
    CmdView { path: seq![word], args: seq![ArgV::Text(a.server_type@), ArgV::Text(a.game_version@)] }
}

/// The arguments of a command.
pub struct ServerLatestLoaderArgs {
    pub server_type: String,
    pub game_version: String,
}

/// The view of a command named `word` with these arguments.
pub open spec fn server_latest_loader_args_view(word: Seq<char>, a: ServerLatestLoaderArgs) -> CmdView {
    CmdView { path: seq![word], args: seq![ArgV::Text(a.server_type@), ArgV::Text(a.game_version@)] }
}

/// The arguments of a command.
pub struct GameFilePathArgs {
    pub path: String,
}

/// The view of a command named `word` with these arguments.
pub open spec fn game_file_path_args_view(word: Seq<char>, a: GameFilePathArgs) -> CmdView {
    CmdView { path: seq![word], args: seq![ArgV::Text(a.path@)] }
}

/// A command.
pub enum Command {
    Server(ServerCommand),
    Mirror(MirrorCommand),
    Modrinth(ModrinthCommand),
    Resource(ResourceCommand),
    Game(GameCommand),
    Settings(SettingsCommand),
    Agent(AgentCommand),
}

/// The view of a command.
pub open spec fn command_view(c: Command) -> CmdView {
    match c {
        Command::Server(c) => nested("server"@, server_command_view(c)),
        Command::Mirror(c) => nested("mirror"@, mirror_command_view(c)),
        Command::Modrinth(c) => nested("modrinth"@, modrinth_command_view(c)),
        Command::Resource(c) => nested("resource"@, resource_command_view(c)),
        Command::Game(c) => nested("game"@, game_command_view(c)),
        Command::Settings(c) => nested("settings"@, settings_command_view(c)),
        Command::Agent(c) => nested("agent"@, agent_command_view(c)),
    }
}

/// A command.
pub enum AgentCommand {
    Run,
    Status,
    Start,
    Stop,
    Ensure,
}

/// The view of a command.
pub open spec fn agent_command_view(c: AgentCommand) -> CmdView {
    match c {
        AgentCommand::Run => bare("run"@),
        AgentCommand::Status => bare("status"@),
        AgentCommand::Start => bare("start"@),
        AgentCommand::Stop => bare("stop"@),
        AgentCommand::Ensure => bare("ensure"@),
    }
}

/// A command.
pub enum SettingsCommand {
    Read(SettingsScopeArgs),
    Write(SettingsWriteArgs),
}

/// The view of a command.
pub open spec fn settings_command_view(c: SettingsCommand) -> CmdView {
    match c {
        SettingsCommand::Read(a) => settings_scope_args_view("read"@, a),
        SettingsCommand::Write(a) => settings_write_args_view("write"@, a),
    }
}

/// A command.
pub enum ServerCommand {
    List,
    Show(ServerIdArgs),
    Delete(ServerIdArgs),
    DeleteCorrupted(ServerNameArgs),
    LaunchCommand(ServerIdArgs),
    LocalStartPlan(ServerJavaPathArgs),
    LocalStart(ServerJavaPathArgs),
    LocalLogPoll(ServerLocalLogPollArgs),
    CreateLocal(ServerCreateArgs),
    DownloadTarget(ServerResolveDownloadArgs),
    Corrupted,
    GameVersions(ServerGameVersionsArgs),
    LoaderVersions(ServerLoaderVersionsArgs),
    JavaVersion(ServerGameVersionArgs),
    LatestLoader(ServerLatestLoaderArgs),
    VerifyJar(ServerIdArgs),
    ForgeInstallPlan(ServerIdArgs),
    Status(ServerIdArgs),
    Start(ServerIdArgs),
    Stop(ServerIdArgs),
    Restart(ServerIdArgs),
    Logs(ServerLogsArgs),
    Send(ServerSendArgs),
    Interrupt(ServerInterruptArgs),
    Rcon(ServerSendArgs),
    Properties(ServerPropertiesCommand),
    Files(ServerFilesCommand),
    Players(ServerPlayersCommand),
    Schedules(ServerSchedulesCommand),
}

/// The view of a command.
pub open spec fn server_command_view(c: ServerCommand) -> CmdView {
    match c {
        ServerCommand::List => bare("list"@),
        ServerCommand::Show(a) => server_id_args_view("show"@, a),
        ServerCommand::Delete(a) => server_id_args_view("delete"@, a),
        ServerCommand::DeleteCorrupted(a) => server_name_args_view("delete-corrupted"@, a),
        ServerCommand::LaunchCommand(a) => server_id_args_view("command"@, a),
        ServerCommand::LocalStartPlan(a) => server_java_path_args_view("local-start-plan"@, a),
        ServerCommand::LocalStart(a) => server_java_path_args_view("local-start"@, a),
        ServerCommand::LocalLogPoll(a) => server_local_log_poll_args_view("local-log-poll"@, a),
        ServerCommand::CreateLocal(a) => server_create_args_view("create-local"@, a),
        ServerCommand::DownloadTarget(a) => server_resolve_download_args_view("download-target"@, a),
        ServerCommand::Corrupted => bare("corrupted"@),
        ServerCommand::GameVersions(a) => server_game_versions_args_view("game-versions"@, a),
        ServerCommand::LoaderVersions(a) => server_loader_versions_args_view("loader-versions"@, a),
        ServerCommand::JavaVersion(a) => server_game_version_args_view("java-version"@, a),
        ServerCommand::LatestLoader(a) => server_latest_loader_args_view("latest-loader"@, a),
        ServerCommand::VerifyJar(a) => server_id_args_view("verify-jar"@, a),
        ServerCommand::ForgeInstallPlan(a) => server_id_args_view("forge-install-plan"@, a),
        ServerCommand::Status(a) => server_id_args_view("status"@, a),
        ServerCommand::Start(a) => server_id_args_view("start"@, a),
        ServerCommand::Stop(a) => server_id_args_view("stop"@, a),
        ServerCommand::Restart(a) => server_id_args_view("restart"@, a),
        ServerCommand::Logs(a) => server_logs_args_view("logs"@, a),
        ServerCommand::Send(a) => server_send_args_view("send"@, a),
        ServerCommand::Interrupt(a) => server_interrupt_args_view("interrupt"@, a),
        ServerCommand::Rcon(a) => server_send_args_view("rcon"@, a),
        ServerCommand::Properties(c) => nested("properties"@, server_properties_command_view(c)),
        ServerCommand::Files(c) => nested("files"@, server_files_command_view(c)),
        ServerCommand::Players(c) => nested("players"@, server_players_command_view(c)),
        ServerCommand::Schedules(c) => nested("schedules"@, server_schedules_command_view(c)),
    }
}

/// A command.
pub enum ServerPropertiesCommand {
    Read(ServerIdArgs),
    Write(ServerPropertiesWriteArgs),
}

/// The view of a command.
pub open spec fn server_properties_command_view(c: ServerPropertiesCommand) -> CmdView {
    match c {
        ServerPropertiesCommand::Read(a) => server_id_args_view("read"@, a),
        ServerPropertiesCommand::Write(a) => server_properties_write_args_view("write"@, a),
    }
}

/// A command.
pub enum ServerFilesCommand {
    List(ServerIdArgs),
    Read(ServerFilePathArgs),
    Write(ServerFilePathArgs),
    Mkdir(ServerFilePathArgs),
    Touch(ServerFilePathArgs),
    Move(ServerFileMoveArgs),
    Delete(ServerFilePathArgs),
    Import(ServerFileImportArgs),
}

/// The view of a command.
pub open spec fn server_files_command_view(c: ServerFilesCommand) -> CmdView {
    match c {
        ServerFilesCommand::List(a) => server_id_args_view("list"@, a),
        ServerFilesCommand::Read(a) => server_file_path_args_view("read"@, a),
        ServerFilesCommand::Write(a) => server_file_path_args_view("write"@, a),
        ServerFilesCommand::Mkdir(a) => server_file_path_args_view("mkdir"@, a),
        ServerFilesCommand::Touch(a) => server_file_path_args_view("touch"@, a),
        ServerFilesCommand::Move(a) => server_file_move_args_view("move"@, a),
        ServerFilesCommand::Delete(a) => server_file_path_args_view("delete"@, a),
        ServerFilesCommand::Import(a) => server_file_import_args_view("import"@, a),
    }
}

/// A command.
pub enum ServerSchedulesCommand {
    Read(ServerIdArgs),
    Write(ServerIdArgs),
}

/// The view of a command.
pub open spec fn server_schedules_command_view(c: ServerSchedulesCommand) -> CmdView {
    match c {
        ServerSchedulesCommand::Read(a) => server_id_args_view("read"@, a),
        ServerSchedulesCommand::Write(a) => server_id_args_view("write"@, a),
    }
}

/// A command.
pub enum ServerPlayersCommand {
    Read(ServerPlayerListArgs),
    Write(ServerPlayerListArgs),
}

/// The view of a command.
pub open spec fn server_players_command_view(c: ServerPlayersCommand) -> CmdView {
    match c {
        ServerPlayersCommand::Read(a) => server_player_list_args_view("read"@, a),
        ServerPlayersCommand::Write(a) => server_player_list_args_view("write"@, a),
    }
}

/// A command.
pub enum ResourceCommand {
    Download(ResourceDownloadArgs),
}

/// The view of a command.
pub open spec fn resource_command_view(c: ResourceCommand) -> CmdView {
    match c {
        ResourceCommand::Download(a) => resource_download_args_view("download"@, a),
    }
}

/// A command.
pub enum GameCommand {
    LaunchPlan(GameLaunchPlanArgs),
    MavenRelativePath(GameMavenCoordinateArgs),
    MavenPath(GameMavenPathArgs),
    LoaderClasspath(GameLoaderClasspathArgs),
    ProcessLoaderPlaceholders(GameLoaderPlaceholderArgs),
    ExecuteProcessor(GameExecuteProcessorArgs),
    DownloadFile(GameDownloadFileArgs),
    FetchJson(GameFetchJsonArgs),
    SetExecutable(GameSetExecutableArgs),
    ExtractZuluRuntime(GameExtractZuluRuntimeArgs),
    Sha1File(GameSha1FileArgs),
    HashResourceFiles(GameHashResourceFilesArgs),
    BackupCreate(GameBackupCreateArgs),
    BackupList(GameBackupListArgs),
    BackupListServers(GameBackupListServersArgs),
    BackupRestore(GameBackupRestoreArgs),
    ServerAddressesRead(GameFilePathArgs),
    ServerAddressesWrite(GameFilePathArgs),
    LitematicaMetadata(GameFilePathArgs),
    LitematicaFullMetadata(GameFilePathArgs),
}

/// The view of a command.
pub open spec fn game_command_view(c: GameCommand) -> CmdView {
    match c {
        GameCommand::LaunchPlan(a) => game_launch_plan_args_view("launch-plan"@, a),
        GameCommand::MavenRelativePath(a) => game_maven_coordinate_args_view("maven-relative-path"@, a),
        GameCommand::MavenPath(a) => game_maven_path_args_view("maven-path"@, a),
        GameCommand::LoaderClasspath(a) => game_loader_classpath_args_view("loader-classpath"@, a),
        GameCommand::ProcessLoaderPlaceholders(a) => game_loader_placeholder_args_view("process-loader-placeholders"@, a),
        GameCommand::ExecuteProcessor(a) => game_execute_processor_args_view("execute-processor"@, a),
        GameCommand::DownloadFile(a) => game_download_file_args_view("download-file"@, a),
        GameCommand::FetchJson(a) => game_fetch_json_args_view("fetch-json"@, a),
        GameCommand::SetExecutable(a) => game_set_executable_args_view("set-executable"@, a),
        GameCommand::ExtractZuluRuntime(a) => game_extract_zulu_runtime_args_view("extract-zulu-runtime"@, a),
        GameCommand::Sha1File(a) => game_sha1_file_args_view("sha1-file"@, a),
        GameCommand::HashResourceFiles(a) => game_hash_resource_files_args_view("hash-resource-files"@, a),
        GameCommand::BackupCreate(a) => game_backup_create_args_view("backup-create"@, a),
        GameCommand::BackupList(a) => game_backup_list_args_view("backup-list"@, a),
        GameCommand::BackupListServers(a) => game_backup_list_servers_args_view("backup-list-servers"@, a),
        GameCommand::BackupRestore(a) => game_backup_restore_args_view("backup-restore"@, a),
        GameCommand::ServerAddressesRead(a) => game_file_path_args_view("server-addresses-read"@, a),
        GameCommand::ServerAddressesWrite(a) => game_file_path_args_view("server-addresses-write"@, a),
        GameCommand::LitematicaMetadata(a) => game_file_path_args_view("litematica-metadata"@, a),
        GameCommand::LitematicaFullMetadata(a) => game_file_path_args_view("litematica-full-metadata"@, a),
    }
}

/// A command.
pub enum MirrorCommand {
    FastMirrorCores(MirrorBaseUrlArgs),
    FastMirrorGameVersions(MirrorCoreArgs),
    FastMirrorCoreVersions(MirrorCoreGameVersionArgs),
    FastMirrorDetail(MirrorCoreVersionDetailArgs),
    PolarsCoreTypes(MirrorBaseUrlArgs),
    PolarsCoreItems(MirrorPolarsItemsArgs),
    CustomCores(MirrorCustomConfigArgs),
    CustomGameVersions(MirrorCustomCoreArgs),
    CustomCoreVersions(MirrorCustomCoreGameArgs),
    CustomDetail(MirrorCustomDetailArgs),
}

/// The view of a command.
pub open spec fn mirror_command_view(c: MirrorCommand) -> CmdView {
    match c {
        MirrorCommand::FastMirrorCores(a) => mirror_base_url_args_view("fastmirror-cores"@, a),
        MirrorCommand::FastMirrorGameVersions(a) => mirror_core_args_view("fastmirror-game-versions"@, a),
        MirrorCommand::FastMirrorCoreVersions(a) => mirror_core_game_version_args_view("fastmirror-core-versions"@, a),
        MirrorCommand::FastMirrorDetail(a) => mirror_core_version_detail_args_view("fastmirror-detail"@, a),
        MirrorCommand::PolarsCoreTypes(a) => mirror_base_url_args_view("polars-core-types"@, a),
        MirrorCommand::PolarsCoreItems(a) => mirror_polars_items_args_view("polars-core-items"@, a),
        MirrorCommand::CustomCores(a) => mirror_custom_config_args_view("custom-cores"@, a),
        MirrorCommand::CustomGameVersions(a) => mirror_custom_core_args_view("custom-game-versions"@, a),
        MirrorCommand::CustomCoreVersions(a) => mirror_custom_core_game_args_view("custom-core-versions"@, a),
        MirrorCommand::CustomDetail(a) => mirror_custom_detail_args_view("custom-detail"@, a),
    }
}

/// A command.
pub enum ModrinthCommand {
    Search(ModrinthSearchArgs),
    Project(ModrinthIdArgs),
    Versions(ModrinthIdArgs),
    Version(ModrinthVersionIdArgs),
    FileByHash(ModrinthFileHashArgs),
    VersionInfo(ModrinthMinecraftVersionArgs),
    LoaderManifest(ModrinthLoaderNameArgs),
    LoaderProfile(ModrinthLoaderProfileArgs),
    VersionsFilter(ModrinthVersionsFilterArgs),
    Dependencies(ModrinthDependenciesArgs),
    Loaders,
    Categories,
    GameVersions(ModrinthGameVersionsArgs),
}

/// The view of a command.
pub open spec fn modrinth_command_view(c: ModrinthCommand) -> CmdView {
    match c {
        ModrinthCommand::Search(a) => modrinth_search_args_view("search"@, a),
        ModrinthCommand::Project(a) => modrinth_id_args_view("project"@, a),
        ModrinthCommand::Versions(a) => modrinth_id_args_view("versions"@, a),
        ModrinthCommand::Version(a) => modrinth_version_id_args_view("version"@, a),
        ModrinthCommand::FileByHash(a) => modrinth_file_hash_args_view("file-by-hash"@, a),
        ModrinthCommand::VersionInfo(a) => modrinth_minecraft_version_args_view("version-info"@, a),
        ModrinthCommand::LoaderManifest(a) => modrinth_loader_name_args_view("loader-manifest"@, a),
        ModrinthCommand::LoaderProfile(a) => modrinth_loader_profile_args_view("loader-profile"@, a),
        ModrinthCommand::VersionsFilter(a) => modrinth_versions_filter_args_view("versions-filter"@, a),
        ModrinthCommand::Dependencies(a) => modrinth_dependencies_args_view("dependencies"@, a),
        ModrinthCommand::Loaders => bare("loaders"@),
        ModrinthCommand::Categories => bare("categories"@),
        ModrinthCommand::GameVersions(a) => modrinth_game_versions_args_view("game-versions"@, a),
    }
}

} // verus!
