//! Reading the command line: a cursor over the arguments and the grammar of each
//! command.

use vstd::prelude::*;
use crate::cli_args::{AgentCommand, GameFilePathArgs, agent_command_view, ArgV, Cli, CliView, CmdView, Command, bare, cli_view, command_view, nested, ov, GameSha1FileArgs, GameBackupCreateArgs, GameBackupListArgs, GameBackupListServersArgs, GameBackupRestoreArgs, GameCommand, GameDownloadFileArgs, GameExecuteProcessorArgs, GameExtractZuluRuntimeArgs, GameFetchJsonArgs, GameHashResourceFilesArgs, GameLaunchPlanArgs, GameLoaderClasspathArgs, GameLoaderPlaceholderArgs, GameMavenCoordinateArgs, GameMavenPathArgs, GameSetExecutableArgs, MirrorBaseUrlArgs, MirrorCommand, MirrorCoreArgs, MirrorCoreGameVersionArgs, MirrorCoreVersionDetailArgs, MirrorCustomConfigArgs, MirrorCustomCoreArgs, MirrorCustomCoreGameArgs, MirrorCustomDetailArgs, MirrorPolarsItemsArgs, ModrinthCommand, ModrinthDependenciesArgs, ModrinthFileHashArgs, ModrinthGameVersionsArgs, ModrinthIdArgs, ModrinthLoaderNameArgs, ModrinthLoaderProfileArgs, ModrinthMinecraftVersionArgs, ModrinthSearchArgs, ModrinthVersionIdArgs, ModrinthVersionsFilterArgs, ResourceCommand, ResourceDownloadArgs, ServerCommand, ServerCreateArgs, ServerFileImportArgs, ServerFileMoveArgs, ServerFilePathArgs, ServerFilesCommand, ServerGameVersionArgs, ServerGameVersionsArgs, ServerIdArgs, ServerInterruptArgs, ServerJavaPathArgs, ServerLatestLoaderArgs, ServerLoaderVersionsArgs, ServerLocalLogPollArgs, ServerLogsArgs, ServerNameArgs, ServerPlayerListArgs, ServerPlayersCommand, ServerPropertiesCommand, ServerPropertiesWriteArgs, ServerResolveDownloadArgs, ServerSchedulesCommand, ServerSendArgs, SettingsCommand, SettingsScopeArgs, SettingsWriteArgs, game_backup_create_args_view, game_command_view, mirror_command_view, mirror_polars_items_args_view, modrinth_command_view, modrinth_search_args_view, resource_command_view, server_command_view, server_files_command_view, server_local_log_poll_args_view, server_logs_args_view, server_players_command_view, server_properties_command_view, server_schedules_command_view, settings_command_view};
use crate::error::{CoreError, CoreErrorView};
use crate::model::strings_view;
use crate::numbers::{i32_of, i32_parse_error_text, i64_of, i64_parse_error_text, parse_i32, parse_i64, parse_u64, parse_usize, u64_of, usize_of, usize_parse_error_text};
use crate::text::{concat2, concat4, owned, str_eq};

verus! {

// ---------------------------------------------------------------------------
// The cursor
// ---------------------------------------------------------------------------

/// The arguments and the position of the next one to read.
pub struct ArgCursor {
    pub args: Vec<String>,
    pub index: usize,
}

/// The outcome of reading: the value and the next position, or the error.
pub type Step<T> = Result<(T, int), CoreErrorView>;

/// A validation error with message `m`.
pub open spec fn verr(m: Seq<char>) -> CoreErrorView {
    CoreErrorView::Validation(m)
}

/// The next argument, if any, is required; `label` names it in the error.
pub open spec fn sp_required(t: Seq<Seq<char>>, i: int, label: Seq<char>) -> Step<Seq<char>> {
    if 0 <= i < t.len() {
        Ok((t[i], i + 1))
    } else {
        Err(verr("missing "@ + label))
    }
}

/// The value of the option `flag` is required next.
pub open spec fn sp_required_value(t: Seq<Seq<char>>, i: int, flag: Seq<char>) -> Step<Seq<char>> {
    if 0 <= i < t.len() {
        Ok((t[i], i + 1))
    } else {
        Err(verr("missing value for "@ + flag))
    }
}

/// The option `flag` and its value are required next.
pub open spec fn sp_required_flag_value(t: Seq<Seq<char>>, i: int, flag: Seq<char>) -> Step<Seq<char>> {
    if 0 <= i < t.len() {
        if t[i] == flag {
            sp_required_value(t, i + 1, flag)
        } else {
            Err(verr("expected "@ + flag + ", got "@ + t[i]))
        }
    } else {
        Err(verr("missing "@ + flag))
    }
}

/// The option `flag` may come next, and then its value must follow.
pub open spec fn sp_optional_flag_value(t: Seq<Seq<char>>, i: int, flag: Seq<char>) -> Step<
    Option<Seq<char>>,
> {
    if 0 <= i < t.len() && t[i] == flag {
        match sp_required_value(t, i + 1, flag) {
            Ok((v, j)) => Ok((Some(v), j)),
            Err(e) => Err(e),
        }
    } else {
        Ok((None, i))
    }
}

/// The option `flag` may come next; a missing value is taken as no option.
pub open spec fn sp_loose_flag_value(t: Seq<Seq<char>>, i: int, flag: Seq<char>) -> (Option<
    Seq<char>,
>, int) {
    if 0 <= i < t.len() && t[i] == flag {
        if i + 1 < t.len() {
            (Some(t[i + 1]), i + 2)
        } else {
            (None, i + 1)
        }
    } else {
        (None, i)
    }
}

/// The position after any run of the switch `flag`.
pub open spec fn sp_skip_switch(t: Seq<Seq<char>>, i: int, flag: Seq<char>) -> int
    decreases t.len() - i,
{
    if 0 <= i < t.len() && t[i] == flag {
        sp_skip_switch(t, i + 1, flag)
    } else {
        i
    }
}

/// No argument may be left.
pub open spec fn sp_finish(t: Seq<Seq<char>>, i: int) -> Result<(), CoreErrorView> {
    if 0 <= i < t.len() {
        Err(verr("unexpected argument: "@ + t[i]))
    } else {
        Ok(())
    }
}

/// Whether a string result matches a reading outcome at position `idx`.
pub open spec fn str_step(r: Result<String, CoreError>, idx: int, s: Step<Seq<char>>) -> bool {
    match r {
        Ok(v) => s == Ok::<(Seq<char>, int), CoreErrorView>((v@, idx)),
        Err(e) => s == Err::<(Seq<char>, int), CoreErrorView>(e@),
    }
}

/// Whether an optional-string result matches a reading outcome at position `idx`.
pub open spec fn opt_step(r: Result<Option<String>, CoreError>, idx: int, s: Step<Option<Seq<char>>>) -> bool {
    match r {
        Ok(v) => s == Ok::<(Option<Seq<char>>, int), CoreErrorView>((ov(v), idx)),
        Err(e) => s == Err::<(Option<Seq<char>>, int), CoreErrorView>(e@),
    }
}

impl ArgCursor {
    /// The arguments as text.
    pub open spec fn toks(&self) -> Seq<Seq<char>> {
        strings_view(self.args@)
    }

    /// A cursor at the first of `args`.
    pub fn new(args: Vec<String>) -> (c: ArgCursor)
        ensures
            c.args@ == args@,
            c.index == 0,
    {
        ArgCursor { args, index: 0 }
    }

    /// The next argument, without moving.
    pub fn peek(&self) -> (r: Option<&String>)
        ensures
            match r {
                Some(s) => self.index < self.args@.len() && s@ == self.toks()[self.index as int],
                None => self.index >= self.args@.len(),
            },
    {
        if self.index < self.args.len() {
            Some(&self.args[self.index])
        } else {
            None
        }
    }

    /// Whether the next argument is `flag`.
    pub fn peek_is(&self, flag: &str) -> (r: bool)
        ensures
            r == (self.index < self.args@.len() && self.toks()[self.index as int] == flag@),
    {
        match self.peek() {
            Some(s) => str_eq(s.as_str(), flag),
            None => false,
        }
    }

    /// The next argument, moving past it.
    pub fn next(&mut self) -> (r: Option<String>)
        ensures
            final(self).args == old(self).args,
            old(self).index < old(self).args@.len() ==> (r matches Some(s) && s@ == old(
                self,
            ).toks()[old(self).index as int] && final(self).index == old(self).index + 1),
            old(self).index >= old(self).args@.len() ==> r is None && final(self).index == old(
                self,
            ).index,
    {
        if self.index < self.args.len() {
            let v = owned(self.args[self.index].as_str());
            self.index += 1;
            Some(v)
        } else {
            None
        }
    }

    /// The next argument, which is required; `label` names it in the error.
    pub fn required(&mut self, label: &str) -> (r: Result<String, CoreError>)
        ensures
            final(self).args == old(self).args,
            str_step(r, final(self).index as int, sp_required(old(self).toks(), old(self).index as int, label@)),
    {
        match self.next() {
            Some(v) => Ok(v),
            None => Err(CoreError::Validation(concat2("missing ", label))),
        }
    }

    /// The value of the option `flag`, which is required next.
    pub fn required_value(&mut self, flag: &str) -> (r: Result<String, CoreError>)
        ensures
            final(self).args == old(self).args,
            str_step(r, final(self).index as int, sp_required_value(old(self).toks(), old(self).index as int, flag@)),
            r is Err ==> final(self).index == old(self).index,
    {
        match self.next() {
            Some(v) => Ok(v),
            None => Err(CoreError::Validation(concat2("missing value for ", flag))),
        }
    }

    /// The option `flag` and its value, which are required next.
    pub fn required_flag_value(&mut self, flag: &str) -> (r: Result<String, CoreError>)
        ensures
            final(self).args == old(self).args,
            str_step(r, final(self).index as int, sp_required_flag_value(old(self).toks(), old(self).index as int, flag@)),
    {
        match self.next() {
            Some(actual) => {
                if str_eq(actual.as_str(), flag) {
                    self.required_value(flag)
                } else {
                    Err(CoreError::Validation(concat4("expected ", flag, ", got ", actual.as_str())))
                }
            },
            None => Err(CoreError::Validation(concat2("missing ", flag))),
        }
    }

    /// The value of the option `flag` when it comes next.
    pub fn optional_flag_value(&mut self, flag: &str) -> (r: Result<Option<String>, CoreError>)
        ensures
            final(self).args == old(self).args,
            opt_step(r, final(self).index as int, sp_optional_flag_value(old(self).toks(), old(self).index as int, flag@)),
    {
        if self.peek_is(flag) {
            let _ = self.next();
            let v = self.required_value(flag)?;
            Ok(Some(v))
        } else {
            Ok(None)
        }
    }

    /// Moves past any run of the switch `flag`; whether there was one.
    pub fn skip_switch(&mut self, flag: &str) -> (r: bool)
        ensures
            final(self).args == old(self).args,
            final(self).index == sp_skip_switch(old(self).toks(), old(self).index as int, flag@),
            r == (final(self).index > old(self).index),
    {
        let ghost start = self.index as int;
        let mut seen = false;
        while self.peek_is(flag)
            invariant
                self.args == old(self).args,
                start <= self.index,
                start == old(self).index,
                sp_skip_switch(self.toks(), start, flag@) == sp_skip_switch(self.toks(), self.index as int, flag@),
                seen == (self.index > start),
            decreases self.args@.len() - self.index,
        {
            let _ = self.next();
            seen = true;
        }
        seen
    }

    /// No argument may be left.
    pub fn finish(&self) -> (r: Result<(), CoreError>)
        ensures
            crate::error::result_view(r) == sp_finish(self.toks(), self.index as int),
    {
        match self.peek() {
            Some(extra) => Err(CoreError::Validation(concat2("unexpected argument: ", extra.as_str()))),
            None => Ok(()),
        }
    }
}

/// The value of the option `flag` when it comes next; a missing value is taken as no
/// option.
pub fn optional_flag_value(parser: &mut ArgCursor, flag: &str) -> (r: Option<String>)
    ensures
        final(parser).args == old(parser).args,
        (ov(r), final(parser).index as int) == sp_loose_flag_value(old(parser).toks(), old(parser).index as int, flag@),
{
    if parser.peek_is(flag) {
        let _ = parser.next();
        match parser.required_value(flag) {
            Ok(v) => Some(v),
            Err(_) => None,
        }
    } else {
        None
    }
}

// ---------------------------------------------------------------------------
// Argument items
// ---------------------------------------------------------------------------

/// One part of a command's syntax: a required positional argument (named in its error),
/// a required option with its value, an optional option (its value then required), an
/// optional option read as empty text when absent, an optional option whose missing
/// value counts as absent, or a switch that may repeat.
#[derive(Clone, Copy)]
pub enum Item {
    Pos(&'static str),
    Flag(&'static str),
    Opt(&'static str),
    OptOrEmpty(&'static str),
    Loose(&'static str),
    Switch(&'static str),
}

/// A value read for an item.
pub enum Val {
    Text(String),
    MaybeText(Option<String>),
    Switch(bool),
}

/// The mathematical form of a value.
pub open spec fn val_view(v: Val) -> ArgV {
    match v {
        Val::Text(s) => ArgV::Text(s@),
        Val::MaybeText(o) => ArgV::MaybeText(ov(o)),
        Val::Switch(b) => ArgV::Switch(b),
    }
}

/// The mathematical form of values.
pub open spec fn vals_view(vs: Seq<Val>) -> Seq<ArgV> {
    vs.map_values(|v: Val| val_view(v))
}

/// Whether `v` has the kind of value that `it` reads.
pub open spec fn fits(it: Item, v: Val) -> bool {
    match it {
        Item::Pos(_) | Item::Flag(_) | Item::OptOrEmpty(_) => v is Text,
        Item::Opt(_) | Item::Loose(_) => v is MaybeText,
        Item::Switch(_) => v is Switch,
    }
}

/// Reads one item at position `i`.
pub open spec fn sp_item(t: Seq<Seq<char>>, i: int, it: Item) -> Step<ArgV> {
    match it {
        Item::Pos(l) => match sp_required(t, i, l@) {
            Ok((v, j)) => Ok((ArgV::Text(v), j)),
            Err(e) => Err(e),
        },
        Item::Flag(f) => match sp_required_flag_value(t, i, f@) {
            Ok((v, j)) => Ok((ArgV::Text(v), j)),
            Err(e) => Err(e),
        },
        Item::Opt(f) => match sp_optional_flag_value(t, i, f@) {
            Ok((v, j)) => Ok((ArgV::MaybeText(v), j)),
            Err(e) => Err(e),
        },
        Item::OptOrEmpty(f) => match sp_optional_flag_value(t, i, f@) {
            Ok((Some(v), j)) => Ok((ArgV::Text(v), j)),
            Ok((None, j)) => Ok((ArgV::Text(Seq::empty()), j)),
            Err(e) => Err(e),
        },
        Item::Loose(f) => {
            let (v, j) = sp_loose_flag_value(t, i, f@);
            Ok((ArgV::MaybeText(v), j))
        },
        Item::Switch(f) => {
            let j = sp_skip_switch(t, i, f@);
            Ok((ArgV::Switch(j > i), j))
        },
    }
}

/// Reads the items from the `k`-th on, in order, from position `i`; their values follow
/// those in `acc`.
#[verifier::opaque]
pub open spec fn sp_items(t: Seq<Seq<char>>, i: int, items: Seq<Item>, k: int, acc: Seq<ArgV>) -> Step<
    Seq<ArgV>,
>
    decreases items.len() - k,
{
    if k < 0 || k >= items.len() {
        Ok((acc, i))
    } else {
        match sp_item(t, i, items[k]) {
            Ok((v, j)) => sp_items(t, j, items, k + 1, acc.push(v)),
            Err(e) => Err(e),
        }
    }
}

/// Reads the items and makes the command named `word` of their values.
pub open spec fn by_items(t: Seq<Seq<char>>, i: int, word: Seq<char>, items: Seq<Item>) -> Step<CmdView> {
    match sp_items(t, i, items, 0, Seq::empty()) {
        Ok((vs, j)) => Ok((CmdView { path: seq![word], args: vs }, j)),
        Err(e) => Err(e),
    }
}

/// Whether a command result matches a reading outcome at position `idx`.
pub open spec fn cmd_step<T>(
    r: Result<T, CoreError>,
    view: spec_fn(T) -> CmdView,
    idx: int,
    s: Step<CmdView>,
) -> bool {
    match r {
        Ok(v) => s == Ok::<(CmdView, int), CoreErrorView>((view(v), idx)),
        Err(e) => s == Err::<(CmdView, int), CoreErrorView>(e@),
    }
}

/// The text value at `k`.
fn text_at(vs: &Vec<Val>, k: usize) -> (s: String)
    requires
        k < vs@.len(),
        vs@[k as int] is Text,
    ensures
        val_view(vs@[k as int]) == ArgV::Text(s@),
{
    match &vs[k] {
        Val::Text(s) => owned(s.as_str()),
        _ => String::new(),
    }
}

/// The optional text value at `k`.
fn maybe_text_at(vs: &Vec<Val>, k: usize) -> (s: Option<String>)
    requires
        k < vs@.len(),
        vs@[k as int] is MaybeText,
    ensures
        val_view(vs@[k as int]) == ArgV::MaybeText(ov(s)),
{
    match &vs[k] {
        Val::MaybeText(Some(s)) => Some(owned(s.as_str())),
        _ => None,
    }
}

/// The switch value at `k`.
fn switch_at(vs: &Vec<Val>, k: usize) -> (b: bool)
    requires
        k < vs@.len(),
        vs@[k as int] is Switch,
    ensures
        val_view(vs@[k as int]) == ArgV::Switch(b),
{
    match &vs[k] {
        Val::Switch(b) => *b,
        _ => false,
    }
}

impl ArgCursor {
    /// Reads one item.
    fn take_item(&mut self, it: Item) -> (r: Result<Val, CoreError>)
        ensures
            final(self).args == old(self).args,
            match r {
                Ok(v) => fits(it, v) && sp_item(old(self).toks(), old(self).index as int, it)
                    == Ok::<(ArgV, int), CoreErrorView>((val_view(v), final(self).index as int)),
                Err(e) => sp_item(old(self).toks(), old(self).index as int, it)
                    == Err::<(ArgV, int), CoreErrorView>(e@),
            },
    {
        match it {
            Item::Pos(l) => Ok(Val::Text(self.required(l)?)),
            Item::Flag(f) => Ok(Val::Text(self.required_flag_value(f)?)),
            Item::Opt(f) => Ok(Val::MaybeText(self.optional_flag_value(f)?)),
            Item::OptOrEmpty(f) => match self.optional_flag_value(f)? {
                Some(x) => Ok(Val::Text(x)),
                None => Ok(Val::Text(String::new())),
            },
            Item::Loose(f) => Ok(Val::MaybeText(optional_flag_value(self, f))),
            Item::Switch(f) => Ok(Val::Switch(self.skip_switch(f))),
        }
    }

    /// Reads the items in order: one value of the right kind for each.
    pub fn take_items(&mut self, items: &Vec<Item>) -> (r: Result<Vec<Val>, CoreError>)
        ensures
            final(self).args == old(self).args,
            match r {
                Ok(vs) => {
                    &&& vs@.len() == items@.len()
                    &&& forall|k: int| 0 <= k < items@.len() ==> fits(#[trigger] items@[k], vs@[k])
                    &&& sp_items(old(self).toks(), old(self).index as int, items@, 0, Seq::empty())
                        == Ok::<(Seq<ArgV>, int), CoreErrorView>((vals_view(vs@), final(self).index as int))
                },
                Err(e) => sp_items(old(self).toks(), old(self).index as int, items@, 0, Seq::empty())
                    == Err::<(Seq<ArgV>, int), CoreErrorView>(e@),
            },
    {
        reveal(sp_items);
        let ghost t = self.toks();
        let ghost i0 = self.index as int;
        let mut vs: Vec<Val> = Vec::new();
        assert(vals_view(vs@) =~= Seq::<ArgV>::empty());
        let mut k: usize = 0;
        while k < items.len()
            invariant
                self.args == old(self).args,
                t == self.toks(),
                i0 == old(self).index as int,
                k <= items.len(),
                vs@.len() == k,
                forall|m: int| 0 <= m < k ==> fits(#[trigger] items@[m], vs@[m]),
                sp_items(t, i0, items@, 0, Seq::empty()) == sp_items(t, self.index as int, items@, k as int, vals_view(vs@)),
            decreases items.len() - k,
        {
            proof {
                reveal(sp_items);
            }
            let ghost before_index = self.index as int;
            let v = match self.take_item(items[k]) {
                Ok(v) => v,
                Err(e) => {
                    assert(sp_items(t, before_index, items@, k as int, vals_view(vs@)) == Err::<(Seq<ArgV>, int), CoreErrorView>(e@));
                    return Err(e);
                },
            };
            let ghost before = vs@;
            vs.push(v);
            assert(vals_view(vs@) =~= vals_view(before).push(val_view(v)));
            k += 1;
        }
        Ok(vs)
    }
}

// ---------------------------------------------------------------------------
// Arguments read by hand
// ---------------------------------------------------------------------------

/// The optional text of a value, none for other kinds.
pub open spec fn maybe_text_of(a: ArgV) -> Option<Seq<char>> {
    match a {
        ArgV::MaybeText(o) => o,
        _ => None,
    }
}

/// The arguments naming a file of a server: its id, then `--path` and its value.
pub open spec fn server_file_path_items() -> Seq<Item> {
    seq![Item::Pos("server id"), Item::Flag("--path")]
}

/// Reads a server id and the `--path` option.
pub fn parse_server_file_path_args(parser: &mut ArgCursor) -> (r: Result<ServerFilePathArgs, CoreError>)
    ensures
        final(parser).args == old(parser).args,
        match r {
            Ok(a) => sp_items(old(parser).toks(), old(parser).index as int, server_file_path_items(), 0, Seq::empty())
                == Ok::<(Seq<ArgV>, int), CoreErrorView>((seq![ArgV::Text(a.id@), ArgV::Text(a.path@)], final(parser).index as int)),
            Err(e) => sp_items(old(parser).toks(), old(parser).index as int, server_file_path_items(), 0, Seq::empty())
                == Err::<(Seq<ArgV>, int), CoreErrorView>(e@),
        },
{
    let items = vec![Item::Pos("server id"), Item::Flag("--path")];
    assert(items@ =~= server_file_path_items());
    let vs = parser.take_items(&items)?;
    let a = ServerFilePathArgs { id: text_at(&vs, 0), path: text_at(&vs, 1) };
    assert(vals_view(vs@) =~= seq![ArgV::Text(a.id@), ArgV::Text(a.path@)]);
    Ok(a)
}

/// The `--lines` and `-n` options of `server logs`, from position `i`, with `lines` the
/// count so far: the last one given counts.
pub open spec fn sp_lines_options(t: Seq<Seq<char>>, i: int, lines: int) -> Result<(int, int), CoreErrorView>
    decreases t.len() - i,
{
    if 0 <= i < t.len() && (t[i] == "--lines"@ || t[i] == "-n"@) {
        if i + 1 < t.len() {
            match usize_of(t[i + 1]) {
                Some(v) => sp_lines_options(t, i + 2, v),
                None => Err(verr("invalid lines value: "@ + usize_parse_error_text(t[i + 1]))),
            }
        } else {
            Err(verr("missing value for "@ + t[i]))
        }
    } else {
        Ok((lines, i))
    }
}

/// The grammar of `server logs`: the server id, then the line count, 50 by default.
pub open spec fn sp_logs(t: Seq<Seq<char>>, i: int) -> Step<CmdView> {
    match sp_required(t, i, "server id"@) {
        Err(e) => Err(e),
        Ok((id, j)) => match sp_lines_options(t, j, 50) {
            Ok((n, k)) => Ok((CmdView { path: seq!["logs"@], args: seq![ArgV::Text(id), ArgV::Number(n)] }, k)),
            Err(e) => Err(e),
        },
    }
}

/// Reads the arguments of `server logs`.
fn parse_logs_args(parser: &mut ArgCursor) -> (r: Result<ServerLogsArgs, CoreError>)
    ensures
        final(parser).args == old(parser).args,
        cmd_step(r, |a: ServerLogsArgs| server_logs_args_view("logs"@, a), final(parser).index as int, sp_logs(old(parser).toks(), old(parser).index as int)),
{
    let id = parser.required("server id")?;
    let ghost t = parser.toks();
    let ghost j = parser.index as int;
    let mut lines: usize = 50;
    while parser.peek_is("--lines") || parser.peek_is("-n")
        invariant
            parser.args == old(parser).args,
            t == parser.toks(),
            t == old(parser).toks(),
            j <= parser.index,
            sp_required(t, old(parser).index as int, "server id"@) == Ok::<(Seq<char>, int), CoreErrorView>((id@, j)),
            sp_lines_options(t, j, 50) == sp_lines_options(t, parser.index as int, lines as int),
        decreases parser.args@.len() - parser.index,
    {
        let ghost i = parser.index as int;
        let flag = match parser.next() {
            Some(f) => f,
            None => String::new(),
        };
        assert(flag@ == t[i] && (t[i] == "--lines"@ || t[i] == "-n"@));
        let raw = match parser.required_value(flag.as_str()) {
            Ok(v) => v,
            Err(e) => {
                assert(sp_lines_options(t, i, lines as int) == Err::<(int, int), CoreErrorView>(e@));
                return Err(e);
            },
        };
        match parse_usize(raw.as_str()) {
            Ok(n) => {
                lines = n;
            },
            Err(m) => {
                return Err(CoreError::Validation(concat2("invalid lines value: ", m.as_str())));
            },
        }
    }
    Ok(ServerLogsArgs { id, lines })
}

/// The offset given to `server local-log-poll`: the option's value when it reads as a
/// `u64`, otherwise 0.
pub open spec fn offset_or_zero(o: Option<Seq<char>>) -> int {
    match o {
        Some(s) => match u64_of(s) {
            Some(v) => v,
            None => 0,
        },
        None => 0,
    }
}

/// The grammar of `server local-log-poll`: the server id, then the optional options
/// `--current-file-path` and `--offset`.
pub open spec fn sp_local_log_poll(t: Seq<Seq<char>>, i: int) -> Step<CmdView> {
    match sp_items(t, i, seq![Item::Pos("server id"), Item::Opt("--current-file-path"), Item::Opt("--offset")], 0, Seq::empty()) {
        Ok((vs, j)) => Ok(
            (
                CmdView {
                    path: seq!["local-log-poll"@],
                    args: seq![vs[0], vs[1], ArgV::Number(offset_or_zero(maybe_text_of(vs[2])))],
                },
                j,
            ),
        ),
        Err(e) => Err(e),
    }
}

/// Reads the arguments of `server local-log-poll`.
fn parse_local_log_poll_args(parser: &mut ArgCursor) -> (r: Result<ServerLocalLogPollArgs, CoreError>)
    ensures
        final(parser).args == old(parser).args,
        cmd_step(r, |a: ServerLocalLogPollArgs| server_local_log_poll_args_view("local-log-poll"@, a), final(parser).index as int, sp_local_log_poll(old(parser).toks(), old(parser).index as int)),
{
    let items = vec![Item::Pos("server id"), Item::Opt("--current-file-path"), Item::Opt("--offset")];
    assert(items@ =~= seq![Item::Pos("server id"), Item::Opt("--current-file-path"), Item::Opt("--offset")]);
    let vs = parser.take_items(&items)?;
    let id = text_at(&vs, 0);
    let current_file_path = maybe_text_at(&vs, 1);
    let offset: u64 = match maybe_text_at(&vs, 2) {
        Some(raw) => match parse_u64(raw.as_str()) {
            Ok(n) => n,
            Err(_) => 0,
        },
        None => 0,
    };
    Ok(ServerLocalLogPollArgs { id, current_file_path, offset })
}

/// The grammar of `game backup-create`: `--source-root`, `--output-path` and the
/// optional `--keep-count`, whose value must read as a `usize`.
pub open spec fn sp_backup_create(t: Seq<Seq<char>>, i: int) -> Step<CmdView> {
    match sp_items(t, i, seq![Item::Flag("--source-root"), Item::Flag("--output-path"), Item::Opt("--keep-count")], 0, Seq::empty()) {
        Err(e) => Err(e),
        Ok((vs, j)) => match maybe_text_of(vs[2]) {
            None => Ok((CmdView { path: seq!["backup-create"@], args: seq![vs[0], vs[1], ArgV::MaybeNumber(None)] }, j)),
            Some(raw) => match usize_of(raw) {
                Some(n) => Ok((CmdView { path: seq!["backup-create"@], args: seq![vs[0], vs[1], ArgV::MaybeNumber(Some(n))] }, j)),
                None => Err(verr("invalid keep count: "@ + usize_parse_error_text(raw))),
            },
        },
    }
}

/// Reads the arguments of `game backup-create`.
fn parse_backup_create_args(parser: &mut ArgCursor) -> (r: Result<GameBackupCreateArgs, CoreError>)
    ensures
        final(parser).args == old(parser).args,
        cmd_step(r, |a: GameBackupCreateArgs| game_backup_create_args_view("backup-create"@, a), final(parser).index as int, sp_backup_create(old(parser).toks(), old(parser).index as int)),
{
    let items = vec![Item::Flag("--source-root"), Item::Flag("--output-path"), Item::Opt("--keep-count")];
    assert(items@ =~= seq![Item::Flag("--source-root"), Item::Flag("--output-path"), Item::Opt("--keep-count")]);
    let vs = parser.take_items(&items)?;
    let source_root = text_at(&vs, 0);
    let output_path = text_at(&vs, 1);
    let raw_keep_count = maybe_text_at(&vs, 2);
    assert(vals_view(vs@)[2] == ArgV::MaybeText(ov(raw_keep_count)));
    let keep_count = match raw_keep_count {
        Some(raw) => match parse_usize(raw.as_str()) {
            Ok(n) => Some(n),
            Err(m) => {
                return Err(CoreError::Validation(concat2("invalid keep count: ", m.as_str())));
            },
        },
        None => None,
    };
    let a = GameBackupCreateArgs { source_root, output_path, keep_count };
    let ghost vv = vals_view(vs@);
    assert(vv[0] == ArgV::Text(a.source_root@) && vv[1] == ArgV::Text(a.output_path@));
    assert(maybe_text_of(vv[2]) == ov(raw_keep_count));
    proof {
        if let Some(x) = ov(raw_keep_count) {
            assert(game_backup_create_args_view("backup-create"@, a).args =~= seq![vv[0], vv[1], ArgV::MaybeNumber(usize_of(x))]);
        } else {
            assert(game_backup_create_args_view("backup-create"@, a).args =~= seq![vv[0], vv[1], ArgV::MaybeNumber(None)]);
        }
    }
    Ok(a)
}

/// The grammar of `mirror polars-core-items`: `--core-type-id`, whose value must read as
/// an `i64`, then the optional `--base-url`.
pub open spec fn sp_polars_core_items(t: Seq<Seq<char>>, i: int) -> Step<CmdView> {
    match sp_required_flag_value(t, i, "--core-type-id"@) {
        Err(e) => Err(e),
        Ok((raw, j)) => match i64_of(raw) {
            None => Err(verr("invalid core type id: "@ + i64_parse_error_text(raw))),
            Some(n) => {
                let (b, k) = sp_loose_flag_value(t, j, "--base-url"@);
                Ok((CmdView { path: seq!["polars-core-items"@], args: seq![ArgV::Number(n), ArgV::MaybeText(b)] }, k))
            },
        },
    }
}

/// Reads the arguments of `mirror polars-core-items`.
fn parse_polars_core_items_args(parser: &mut ArgCursor) -> (r: Result<MirrorPolarsItemsArgs, CoreError>)
    ensures
        final(parser).args == old(parser).args,
        cmd_step(r, |a: MirrorPolarsItemsArgs| mirror_polars_items_args_view("polars-core-items"@, a), final(parser).index as int, sp_polars_core_items(old(parser).toks(), old(parser).index as int)),
{
    let raw = parser.required_flag_value("--core-type-id")?;
    let core_type_id = match parse_i64(raw.as_str()) {
        Ok(n) => n,
        Err(m) => {
            return Err(CoreError::Validation(concat2("invalid core type id: ", m.as_str())));
        },
    };
    let base_url = optional_flag_value(parser, "--base-url");
    Ok(MirrorPolarsItemsArgs { core_type_id, base_url })
}

/// The options of a modrinth search as read so far.
pub struct SearchOptions {
    pub index: Seq<char>,
    pub offset: int,
    pub limit: int,
    pub query: Option<Seq<char>>,
    pub facets_json: Option<Seq<char>>,
}

/// Whether `f` names an option of a modrinth search.
pub open spec fn is_search_option(f: Seq<char>) -> bool {
    f == "--index"@ || f == "--offset"@ || f == "--limit"@ || f == "--query"@ || f == "--facets-json"@
}

/// The options of a modrinth search from position `i`, in any order, the last of each
/// counting; `--offset` and `--limit` must read as `i32`.
pub open spec fn sp_search_options(t: Seq<Seq<char>>, i: int, o: SearchOptions) -> Result<(SearchOptions, int), CoreErrorView>
    decreases t.len() - i,
{
    if 0 <= i < t.len() && is_search_option(t[i]) {
        if i + 1 < t.len() {
            let f = t[i];
            let v = t[i + 1];
            if f == "--index"@ {
                sp_search_options(t, i + 2, SearchOptions { index: v, ..o })
            } else if f == "--offset"@ {
                match i32_of(v) {
                    Some(n) => sp_search_options(t, i + 2, SearchOptions { offset: n, ..o }),
                    None => Err(verr("invalid offset: "@ + i32_parse_error_text(v))),
                }
            } else if f == "--limit"@ {
                match i32_of(v) {
                    Some(n) => sp_search_options(t, i + 2, SearchOptions { limit: n, ..o }),
                    None => Err(verr("invalid limit: "@ + i32_parse_error_text(v))),
                }
            } else if f == "--query"@ {
                sp_search_options(t, i + 2, SearchOptions { query: Some(v), ..o })
            } else {
                sp_search_options(t, i + 2, SearchOptions { facets_json: Some(v), ..o })
            }
        } else {
            Err(verr("missing value for "@ + t[i]))
        }
    } else {
        Ok((o, i))
    }
}

/// The grammar of `modrinth search`: its options, by default sorted by relevance, from
/// offset 0, 20 results, with no query and no facets.
pub open spec fn sp_search(t: Seq<Seq<char>>, i: int) -> Step<CmdView> {
    let init = SearchOptions { index: "relevance"@, offset: 0, limit: 20, query: None, facets_json: None };
    match sp_search_options(t, i, init) {
        Ok((o, j)) => Ok(
            (
                CmdView {
                    path: seq!["search"@],
                    args: seq![
                        ArgV::Text(o.index),
                        ArgV::Number(o.offset),
                        ArgV::Number(o.limit),
                        ArgV::MaybeText(o.query),
                        ArgV::MaybeText(o.facets_json),
                    ],
                },
                j,
            ),
        ),
        Err(e) => Err(e),
    }
}

/// Reads the arguments of `modrinth search`.
fn parse_search_args(parser: &mut ArgCursor) -> (r: Result<ModrinthSearchArgs, CoreError>)
    ensures
        final(parser).args == old(parser).args,
        cmd_step(r, |a: ModrinthSearchArgs| modrinth_search_args_view("search"@, a), final(parser).index as int, sp_search(old(parser).toks(), old(parser).index as int)),
{
    let ghost t = parser.toks();
    let ghost j = parser.index as int;
    let mut index = owned("relevance");
    let mut offset: i32 = 0;
    let mut limit: i32 = 20;
    let mut query: Option<String> = None;
    let mut facets_json: Option<String> = None;
    while parser.peek_is("--index") || parser.peek_is("--offset") || parser.peek_is("--limit")
        || parser.peek_is("--query") || parser.peek_is("--facets-json")
        invariant
            parser.args == old(parser).args,
            t == parser.toks(),
            t == old(parser).toks(),
            j == old(parser).index as int,
            sp_search_options(t, j, SearchOptions { index: "relevance"@, offset: 0, limit: 20, query: None, facets_json: None })
                == sp_search_options(
                t,
                parser.index as int,
                SearchOptions { index: index@, offset: offset as int, limit: limit as int, query: ov(query), facets_json: ov(facets_json) },
            ),
        decreases parser.args@.len() - parser.index,
    {
        let flag = match parser.next() {
            Some(f) => f,
            None => String::new(),
        };
        if str_eq(flag.as_str(), "--index") {
            index = parser.required_value("--index")?;
        } else if str_eq(flag.as_str(), "--offset") {
            let raw = parser.required_value("--offset")?;
            match parse_i32(raw.as_str()) {
                Ok(n) => {
                    offset = n;
                },
                Err(m) => {
                    return Err(CoreError::Validation(concat2("invalid offset: ", m.as_str())));
                },
            }
        } else if str_eq(flag.as_str(), "--limit") {
            let raw = parser.required_value("--limit")?;
            match parse_i32(raw.as_str()) {
                Ok(n) => {
                    limit = n;
                },
                Err(m) => {
                    return Err(CoreError::Validation(concat2("invalid limit: ", m.as_str())));
                },
            }
        } else if str_eq(flag.as_str(), "--query") {
            query = Some(parser.required_value("--query")?);
        } else {
            facets_json = Some(parser.required_value("--facets-json")?);
        }
    }
    Ok(ModrinthSearchArgs { index, offset, limit, query, facets_json })
}

// ---------------------------------------------------------------------------
// Commands
// ---------------------------------------------------------------------------

/// The grammar of settings commands.
pub open spec fn sp_settings_command(t: Seq<Seq<char>>, i: int) -> Step<CmdView> {
    match sp_required(t, i, "settings command"@) {
        Err(e) => Err(e),
        Ok((name, j)) => {
            if name == "read"@ {
                by_items(t, j, "read"@, seq![Item::Flag("--scope")])
            } else if name == "write"@ {
                by_items(t, j, "write"@, seq![Item::Flag("--scope"), Item::Flag("--json")])
            } else {
                Err(verr("unknown settings command: "@ + name))
            }
        },
    }
}

/// Reads a settings command.
pub fn parse_settings_command(parser: &mut ArgCursor) -> (r: Result<SettingsCommand, CoreError>)
    ensures
        final(parser).args == old(parser).args,
        cmd_step(r, |c: SettingsCommand| settings_command_view(c), final(parser).index as int, sp_settings_command(old(parser).toks(), old(parser).index as int)),
{
    let command = parser.required("settings command")?;
    if str_eq(command.as_str(), "read") {
        let items = vec![Item::Flag("--scope")];
        assert(items@ =~= seq![Item::Flag("--scope")]);
        let vs = parser.take_items(&items)?;
        let a = SettingsScopeArgs { scope: text_at(&vs, 0) };
        assert(vals_view(vs@) =~= seq![ArgV::Text(a.scope@)]);
        Ok(SettingsCommand::Read(a))
    } else if str_eq(command.as_str(), "write") {
        let items = vec![Item::Flag("--scope"), Item::Flag("--json")];
        assert(items@ =~= seq![Item::Flag("--scope"), Item::Flag("--json")]);
        let vs = parser.take_items(&items)?;
        let a = SettingsWriteArgs { scope: text_at(&vs, 0), json: text_at(&vs, 1) };
        assert(vals_view(vs@) =~= seq![ArgV::Text(a.scope@), ArgV::Text(a.json@)]);
        Ok(SettingsCommand::Write(a))
    } else {
        Err(CoreError::Validation(concat2("unknown settings command: ", command.as_str())))
    }
}

/// The grammar of server properties commands.
pub open spec fn sp_server_properties_command(t: Seq<Seq<char>>, i: int) -> Step<CmdView> {
    match sp_required(t, i, "server properties command"@) {
        Err(e) => Err(e),
        Ok((name, j)) => {
            if name == "read"@ {
                by_items(t, j, "read"@, seq![Item::Pos("server id")])
            } else if name == "write"@ {
                by_items(t, j, "write"@, seq![Item::Pos("server id"), Item::Flag("--json")])
            } else {
                Err(verr("unknown server properties command: "@ + name))
            }
        },
    }
}

/// Reads a server properties command.
pub fn parse_server_properties_command(parser: &mut ArgCursor) -> (r: Result<ServerPropertiesCommand, CoreError>)
    ensures
        final(parser).args == old(parser).args,
        cmd_step(r, |c: ServerPropertiesCommand| server_properties_command_view(c), final(parser).index as int, sp_server_properties_command(old(parser).toks(), old(parser).index as int)),
{
    let command = parser.required("server properties command")?;
    if str_eq(command.as_str(), "read") {
        let items = vec![Item::Pos("server id")];
        assert(items@ =~= seq![Item::Pos("server id")]);
        let vs = parser.take_items(&items)?;
        let a = ServerIdArgs { id: text_at(&vs, 0) };
        assert(vals_view(vs@) =~= seq![ArgV::Text(a.id@)]);
        Ok(ServerPropertiesCommand::Read(a))
    } else if str_eq(command.as_str(), "write") {
        let items = vec![Item::Pos("server id"), Item::Flag("--json")];
        assert(items@ =~= seq![Item::Pos("server id"), Item::Flag("--json")]);
        let vs = parser.take_items(&items)?;
        let a = ServerPropertiesWriteArgs { id: text_at(&vs, 0), json: text_at(&vs, 1) };
        assert(vals_view(vs@) =~= seq![ArgV::Text(a.id@), ArgV::Text(a.json@)]);
        Ok(ServerPropertiesCommand::Write(a))
    } else {
        Err(CoreError::Validation(concat2("unknown server properties command: ", command.as_str())))
    }
}

/// The grammar of server files commands.
pub open spec fn sp_server_files_command(t: Seq<Seq<char>>, i: int) -> Step<CmdView> {
    match sp_required(t, i, "server files command"@) {
        Err(e) => Err(e),
        Ok((name, j)) => {
            if name == "list"@ {
                by_items(t, j, "list"@, seq![Item::Pos("server id")])
            } else if name == "read"@ {
                by_items(t, j, "read"@, server_file_path_items())
            } else if name == "write"@ {
                by_items(t, j, "write"@, server_file_path_items())
            } else if name == "mkdir"@ {
                by_items(t, j, "mkdir"@, server_file_path_items())
            } else if name == "touch"@ {
                by_items(t, j, "touch"@, server_file_path_items())
            } else if name == "move"@ {
                by_items(t, j, "move"@, seq![Item::Pos("server id"), Item::Flag("--from"), Item::Flag("--to")])
            } else if name == "delete"@ {
                by_items(t, j, "delete"@, server_file_path_items())
            } else if name == "import"@ {
                by_items(t, j, "import"@, seq![Item::Pos("server id"), Item::Flag("--source"), Item::OptOrEmpty("--directory")])
            } else {
                Err(verr("unknown server files command: "@ + name))
            }
        },
    }
}

/// Reads a server files command.
pub fn parse_server_files_command(parser: &mut ArgCursor) -> (r: Result<ServerFilesCommand, CoreError>)
    ensures
        final(parser).args == old(parser).args,
        cmd_step(r, |c: ServerFilesCommand| server_files_command_view(c), final(parser).index as int, sp_server_files_command(old(parser).toks(), old(parser).index as int)),
{
    let command = parser.required("server files command")?;
    if str_eq(command.as_str(), "list") {
        let items = vec![Item::Pos("server id")];
        assert(items@ =~= seq![Item::Pos("server id")]);
        let vs = parser.take_items(&items)?;
        let a = ServerIdArgs { id: text_at(&vs, 0) };
        assert(vals_view(vs@) =~= seq![ArgV::Text(a.id@)]);
        Ok(ServerFilesCommand::List(a))
    } else if str_eq(command.as_str(), "read") {
        Ok(ServerFilesCommand::Read(parse_server_file_path_args(parser)?))
    } else if str_eq(command.as_str(), "write") {
        Ok(ServerFilesCommand::Write(parse_server_file_path_args(parser)?))
    } else if str_eq(command.as_str(), "mkdir") {
        Ok(ServerFilesCommand::Mkdir(parse_server_file_path_args(parser)?))
    } else if str_eq(command.as_str(), "touch") {
        Ok(ServerFilesCommand::Touch(parse_server_file_path_args(parser)?))
    } else if str_eq(command.as_str(), "move") {
        let items = vec![Item::Pos("server id"), Item::Flag("--from"), Item::Flag("--to")];
        assert(items@ =~= seq![Item::Pos("server id"), Item::Flag("--from"), Item::Flag("--to")]);
        let vs = parser.take_items(&items)?;
        let a = ServerFileMoveArgs { id: text_at(&vs, 0), from: text_at(&vs, 1), to: text_at(&vs, 2) };
        assert(vals_view(vs@) =~= seq![ArgV::Text(a.id@), ArgV::Text(a.from@), ArgV::Text(a.to@)]);
        Ok(ServerFilesCommand::Move(a))
    } else if str_eq(command.as_str(), "delete") {
        Ok(ServerFilesCommand::Delete(parse_server_file_path_args(parser)?))
    } else if str_eq(command.as_str(), "import") {
        let items = vec![Item::Pos("server id"), Item::Flag("--source"), Item::OptOrEmpty("--directory")];
        assert(items@ =~= seq![Item::Pos("server id"), Item::Flag("--source"), Item::OptOrEmpty("--directory")]);
        let vs = parser.take_items(&items)?;
        let a = ServerFileImportArgs { id: text_at(&vs, 0), source: text_at(&vs, 1), directory: text_at(&vs, 2) };
        assert(vals_view(vs@) =~= seq![ArgV::Text(a.id@), ArgV::Text(a.source@), ArgV::Text(a.directory@)]);
        Ok(ServerFilesCommand::Import(a))
    } else {
        Err(CoreError::Validation(concat2("unknown server files command: ", command.as_str())))
    }
}

/// The grammar of server schedules commands.
pub open spec fn sp_server_schedules_command(t: Seq<Seq<char>>, i: int) -> Step<CmdView> {
    match sp_required(t, i, "server schedules command"@) {
        Err(e) => Err(e),
        Ok((name, j)) => {
            if name == "read"@ {
                by_items(t, j, "read"@, seq![Item::Pos("server id")])
            } else if name == "write"@ {
                by_items(t, j, "write"@, seq![Item::Pos("server id")])
            } else {
                Err(verr("unknown server schedules command: "@ + name))
            }
        },
    }
}

/// Reads a server schedules command.
pub fn parse_server_schedules_command(parser: &mut ArgCursor) -> (r: Result<ServerSchedulesCommand, CoreError>)
    ensures
        final(parser).args == old(parser).args,
        cmd_step(r, |c: ServerSchedulesCommand| server_schedules_command_view(c), final(parser).index as int, sp_server_schedules_command(old(parser).toks(), old(parser).index as int)),
{
    let command = parser.required("server schedules command")?;
    if str_eq(command.as_str(), "read") {
        let items = vec![Item::Pos("server id")];
        assert(items@ =~= seq![Item::Pos("server id")]);
        let vs = parser.take_items(&items)?;
        let a = ServerIdArgs { id: text_at(&vs, 0) };
        assert(vals_view(vs@) =~= seq![ArgV::Text(a.id@)]);
        Ok(ServerSchedulesCommand::Read(a))
    } else if str_eq(command.as_str(), "write") {
        let items = vec![Item::Pos("server id")];
        assert(items@ =~= seq![Item::Pos("server id")]);
        let vs = parser.take_items(&items)?;
        let a = ServerIdArgs { id: text_at(&vs, 0) };
        assert(vals_view(vs@) =~= seq![ArgV::Text(a.id@)]);
        Ok(ServerSchedulesCommand::Write(a))
    } else {
        Err(CoreError::Validation(concat2("unknown server schedules command: ", command.as_str())))
    }
}

/// The grammar of server players commands.
pub open spec fn sp_server_players_command(t: Seq<Seq<char>>, i: int) -> Step<CmdView> {
    match sp_required(t, i, "server players command"@) {
        Err(e) => Err(e),
        Ok((name, j)) => {
            if name == "read"@ {
                by_items(t, j, "read"@, seq![Item::Pos("server id"), Item::Flag("--file-name")])
            } else if name == "write"@ {
                by_items(t, j, "write"@, seq![Item::Pos("server id"), Item::Flag("--file-name")])
            } else {
                Err(verr("unknown server players command: "@ + name))
            }
        },
    }
}

/// Reads a server players command.
pub fn parse_server_players_command(parser: &mut ArgCursor) -> (r: Result<ServerPlayersCommand, CoreError>)
    ensures
        final(parser).args == old(parser).args,
        cmd_step(r, |c: ServerPlayersCommand| server_players_command_view(c), final(parser).index as int, sp_server_players_command(old(parser).toks(), old(parser).index as int)),
{
    let command = parser.required("server players command")?;
    if str_eq(command.as_str(), "read") {
        let items = vec![Item::Pos("server id"), Item::Flag("--file-name")];
        assert(items@ =~= seq![Item::Pos("server id"), Item::Flag("--file-name")]);
        let vs = parser.take_items(&items)?;
        let a = ServerPlayerListArgs { id: text_at(&vs, 0), file_name: text_at(&vs, 1) };
        assert(vals_view(vs@) =~= seq![ArgV::Text(a.id@), ArgV::Text(a.file_name@)]);
        Ok(ServerPlayersCommand::Read(a))
    } else if str_eq(command.as_str(), "write") {
        let items = vec![Item::Pos("server id"), Item::Flag("--file-name")];
        assert(items@ =~= seq![Item::Pos("server id"), Item::Flag("--file-name")]);
        let vs = parser.take_items(&items)?;
        let a = ServerPlayerListArgs { id: text_at(&vs, 0), file_name: text_at(&vs, 1) };
        assert(vals_view(vs@) =~= seq![ArgV::Text(a.id@), ArgV::Text(a.file_name@)]);
        Ok(ServerPlayersCommand::Write(a))
    } else {
        Err(CoreError::Validation(concat2("unknown server players command: ", command.as_str())))
    }
}

/// The grammar of resource commands.
pub open spec fn sp_resource_command(t: Seq<Seq<char>>, i: int) -> Step<CmdView> {
    match sp_required(t, i, "resource command"@) {
        Err(e) => Err(e),
        Ok((name, j)) => {
            if name == "download"@ {
                by_items(t, j, "download"@, seq![Item::Flag("--game-name"), Item::Flag("--resource-type"), Item::Flag("--url"), Item::Flag("--file-name"), Item::Opt("--sha1")])
            } else {
                Err(verr("unknown resource command: "@ + name))
            }
        },
    }
}

/// Reads a resource command.
pub fn parse_resource_command(parser: &mut ArgCursor) -> (r: Result<ResourceCommand, CoreError>)
    ensures
        final(parser).args == old(parser).args,
        cmd_step(r, |c: ResourceCommand| resource_command_view(c), final(parser).index as int, sp_resource_command(old(parser).toks(), old(parser).index as int)),
{
    let command = parser.required("resource command")?;
    if str_eq(command.as_str(), "download") {
        let items = vec![Item::Flag("--game-name"), Item::Flag("--resource-type"), Item::Flag("--url"), Item::Flag("--file-name"), Item::Opt("--sha1")];
        assert(items@ =~= seq![Item::Flag("--game-name"), Item::Flag("--resource-type"), Item::Flag("--url"), Item::Flag("--file-name"), Item::Opt("--sha1")]);
        let vs = parser.take_items(&items)?;
        let a = ResourceDownloadArgs { game_name: text_at(&vs, 0), resource_type: text_at(&vs, 1), url: text_at(&vs, 2), file_name: text_at(&vs, 3), sha1: maybe_text_at(&vs, 4) };
        assert(vals_view(vs@) =~= seq![ArgV::Text(a.game_name@), ArgV::Text(a.resource_type@), ArgV::Text(a.url@), ArgV::Text(a.file_name@), ArgV::MaybeText(ov(a.sha1))]);
        Ok(ResourceCommand::Download(a))
    } else {
        Err(CoreError::Validation(concat2("unknown resource command: ", command.as_str())))
    }
}

/// The grammar of game commands.
pub open spec fn sp_game_command(t: Seq<Seq<char>>, i: int) -> Step<CmdView> {
    match sp_required(t, i, "game command"@) {
        Err(e) => Err(e),
        Ok((name, j)) => {
            if name == "launch-plan"@ {
                by_items(t, j, "launch-plan"@, seq![Item::Flag("--json")])
            } else if name == "maven-relative-path"@ {
                by_items(t, j, "maven-relative-path"@, seq![Item::Pos("coordinate")])
            } else if name == "maven-path"@ {
                by_items(t, j, "maven-path"@, seq![Item::Flag("--coordinate"), Item::Flag("--libraries-dir")])
            } else if name == "loader-classpath"@ {
                by_items(t, j, "loader-classpath"@, seq![Item::Flag("--json"), Item::Flag("--libraries-dir"), Item::Switch("--include-in-classpath-only")])
            } else if name == "process-loader-placeholders"@ {
                by_items(t, j, "process-loader-placeholders"@, seq![Item::Flag("--json"), Item::Flag("--game-version")])
            } else if name == "execute-processor"@ {
                by_items(t, j, "execute-processor"@, seq![Item::Flag("--json")])
            } else if name == "download-file"@ {
                by_items(t, j, "download-file"@, seq![Item::Flag("--url"), Item::Flag("--destination"), Item::Opt("--sha1"), Item::Opt("--headers-json")])
            } else if name == "fetch-json"@ {
                by_items(t, j, "fetch-json"@, seq![Item::Flag("--url"), Item::Opt("--headers-json")])
            } else if name == "set-executable"@ {
                by_items(t, j, "set-executable"@, seq![Item::Flag("--path")])
            } else if name == "extract-zulu-runtime"@ {
                by_items(t, j, "extract-zulu-runtime"@, seq![Item::Flag("--zip-path"), Item::Flag("--target-directory")])
            } else if name == "sha1-file"@ {
                by_items(t, j, "sha1-file"@, seq![Item::Flag("--path")])
            } else if name == "hash-resource-files"@ {
                by_items(t, j, "hash-resource-files"@, seq![Item::Flag("--directory")])
            } else if name == "backup-create"@ {
                sp_backup_create(t, j)
            } else if name == "backup-list"@ {
                by_items(t, j, "backup-list"@, seq![Item::Flag("--backup-root")])
            } else if name == "backup-list-servers"@ {
                by_items(t, j, "backup-list-servers"@, seq![Item::Flag("--backup-path")])
            } else if name == "backup-restore"@ {
                by_items(t, j, "backup-restore"@, seq![Item::Flag("--backup-path"), Item::Flag("--server-name"), Item::Flag("--target-root")])
            } else if name == "server-addresses-read"@ {
                by_items(t, j, "server-addresses-read"@, seq![Item::Flag("--path")])
            } else if name == "server-addresses-write"@ {
                by_items(t, j, "server-addresses-write"@, seq![Item::Flag("--path")])
            } else if name == "litematica-metadata"@ {
                by_items(t, j, "litematica-metadata"@, seq![Item::Flag("--path")])
            } else if name == "litematica-full-metadata"@ {
                by_items(t, j, "litematica-full-metadata"@, seq![Item::Flag("--path")])
            } else {
                Err(verr("unknown game command: "@ + name))
            }
        },
    }
}

/// Reads a game command.
pub fn parse_game_command(parser: &mut ArgCursor) -> (r: Result<GameCommand, CoreError>)
    ensures
        final(parser).args == old(parser).args,
        cmd_step(r, |c: GameCommand| game_command_view(c), final(parser).index as int, sp_game_command(old(parser).toks(), old(parser).index as int)),
{
    let command = parser.required("game command")?;
    if str_eq(command.as_str(), "launch-plan") {
        let items = vec![Item::Flag("--json")];
        assert(items@ =~= seq![Item::Flag("--json")]);
        let vs = parser.take_items(&items)?;
        let a = GameLaunchPlanArgs { json: text_at(&vs, 0) };
        assert(vals_view(vs@) =~= seq![ArgV::Text(a.json@)]);
        Ok(GameCommand::LaunchPlan(a))
    } else if str_eq(command.as_str(), "maven-relative-path") {
        let items = vec![Item::Pos("coordinate")];
        assert(items@ =~= seq![Item::Pos("coordinate")]);
        let vs = parser.take_items(&items)?;
        let a = GameMavenCoordinateArgs { coordinate: text_at(&vs, 0) };
        assert(vals_view(vs@) =~= seq![ArgV::Text(a.coordinate@)]);
        Ok(GameCommand::MavenRelativePath(a))
    } else if str_eq(command.as_str(), "maven-path") {
        let items = vec![Item::Flag("--coordinate"), Item::Flag("--libraries-dir")];
        assert(items@ =~= seq![Item::Flag("--coordinate"), Item::Flag("--libraries-dir")]);
        let vs = parser.take_items(&items)?;
        let a = GameMavenPathArgs { coordinate: text_at(&vs, 0), libraries_dir: text_at(&vs, 1) };
        assert(vals_view(vs@) =~= seq![ArgV::Text(a.coordinate@), ArgV::Text(a.libraries_dir@)]);
        Ok(GameCommand::MavenPath(a))
    } else if str_eq(command.as_str(), "loader-classpath") {
        let items = vec![Item::Flag("--json"), Item::Flag("--libraries-dir"), Item::Switch("--include-in-classpath-only")];
        assert(items@ =~= seq![Item::Flag("--json"), Item::Flag("--libraries-dir"), Item::Switch("--include-in-classpath-only")]);
        let vs = parser.take_items(&items)?;
        let a = GameLoaderClasspathArgs { json: text_at(&vs, 0), libraries_dir: text_at(&vs, 1), include_in_classpath_only: switch_at(&vs, 2) };
        assert(vals_view(vs@) =~= seq![ArgV::Text(a.json@), ArgV::Text(a.libraries_dir@), ArgV::Switch(a.include_in_classpath_only)]);
        Ok(GameCommand::LoaderClasspath(a))
    } else if str_eq(command.as_str(), "process-loader-placeholders") {
        let items = vec![Item::Flag("--json"), Item::Flag("--game-version")];
        assert(items@ =~= seq![Item::Flag("--json"), Item::Flag("--game-version")]);
        let vs = parser.take_items(&items)?;
        let a = GameLoaderPlaceholderArgs { json: text_at(&vs, 0), game_version: text_at(&vs, 1) };
        assert(vals_view(vs@) =~= seq![ArgV::Text(a.json@), ArgV::Text(a.game_version@)]);
        Ok(GameCommand::ProcessLoaderPlaceholders(a))
    } else if str_eq(command.as_str(), "execute-processor") {
        let items = vec![Item::Flag("--json")];
        assert(items@ =~= seq![Item::Flag("--json")]);
        let vs = parser.take_items(&items)?;
        let a = GameExecuteProcessorArgs { json: text_at(&vs, 0) };
        assert(vals_view(vs@) =~= seq![ArgV::Text(a.json@)]);
        Ok(GameCommand::ExecuteProcessor(a))
    } else if str_eq(command.as_str(), "download-file") {
        let items = vec![Item::Flag("--url"), Item::Flag("--destination"), Item::Opt("--sha1"), Item::Opt("--headers-json")];
        assert(items@ =~= seq![Item::Flag("--url"), Item::Flag("--destination"), Item::Opt("--sha1"), Item::Opt("--headers-json")]);
        let vs = parser.take_items(&items)?;
        let a = GameDownloadFileArgs { url: text_at(&vs, 0), destination: text_at(&vs, 1), sha1: maybe_text_at(&vs, 2), headers_json: maybe_text_at(&vs, 3) };
        assert(vals_view(vs@) =~= seq![ArgV::Text(a.url@), ArgV::Text(a.destination@), ArgV::MaybeText(ov(a.sha1)), ArgV::MaybeText(ov(a.headers_json))]);
        Ok(GameCommand::DownloadFile(a))
    } else if str_eq(command.as_str(), "fetch-json") {
        let items = vec![Item::Flag("--url"), Item::Opt("--headers-json")];
        assert(items@ =~= seq![Item::Flag("--url"), Item::Opt("--headers-json")]);
        let vs = parser.take_items(&items)?;
        let a = GameFetchJsonArgs { url: text_at(&vs, 0), headers_json: maybe_text_at(&vs, 1) };
        assert(vals_view(vs@) =~= seq![ArgV::Text(a.url@), ArgV::MaybeText(ov(a.headers_json))]);
        Ok(GameCommand::FetchJson(a))
    } else if str_eq(command.as_str(), "set-executable") {
        let items = vec![Item::Flag("--path")];
        assert(items@ =~= seq![Item::Flag("--path")]);
        let vs = parser.take_items(&items)?;
        let a = GameSetExecutableArgs { path: text_at(&vs, 0) };
        assert(vals_view(vs@) =~= seq![ArgV::Text(a.path@)]);
        Ok(GameCommand::SetExecutable(a))
    } else if str_eq(command.as_str(), "extract-zulu-runtime") {
        let items = vec![Item::Flag("--zip-path"), Item::Flag("--target-directory")];
        assert(items@ =~= seq![Item::Flag("--zip-path"), Item::Flag("--target-directory")]);
        let vs = parser.take_items(&items)?;
        let a = GameExtractZuluRuntimeArgs { zip_path: text_at(&vs, 0), target_directory: text_at(&vs, 1) };
        assert(vals_view(vs@) =~= seq![ArgV::Text(a.zip_path@), ArgV::Text(a.target_directory@)]);
        Ok(GameCommand::ExtractZuluRuntime(a))
    } else if str_eq(command.as_str(), "sha1-file") {
        let items = vec![Item::Flag("--path")];
        assert(items@ =~= seq![Item::Flag("--path")]);
        let vs = parser.take_items(&items)?;
        let a = GameSha1FileArgs { path: text_at(&vs, 0) };
        assert(vals_view(vs@) =~= seq![ArgV::Text(a.path@)]);
        Ok(GameCommand::Sha1File(a))
    } else if str_eq(command.as_str(), "hash-resource-files") {
        let items = vec![Item::Flag("--directory")];
        assert(items@ =~= seq![Item::Flag("--directory")]);
        let vs = parser.take_items(&items)?;
        let a = GameHashResourceFilesArgs { directory: text_at(&vs, 0) };
        assert(vals_view(vs@) =~= seq![ArgV::Text(a.directory@)]);
        Ok(GameCommand::HashResourceFiles(a))
    } else if str_eq(command.as_str(), "backup-create") {
        Ok(GameCommand::BackupCreate(parse_backup_create_args(parser)?))
    } else if str_eq(command.as_str(), "backup-list") {
        let items = vec![Item::Flag("--backup-root")];
        assert(items@ =~= seq![Item::Flag("--backup-root")]);
        let vs = parser.take_items(&items)?;
        let a = GameBackupListArgs { backup_root: text_at(&vs, 0) };
        assert(vals_view(vs@) =~= seq![ArgV::Text(a.backup_root@)]);
        Ok(GameCommand::BackupList(a))
    } else if str_eq(command.as_str(), "backup-list-servers") {
        let items = vec![Item::Flag("--backup-path")];
        assert(items@ =~= seq![Item::Flag("--backup-path")]);
        let vs = parser.take_items(&items)?;
        let a = GameBackupListServersArgs { backup_path: text_at(&vs, 0) };
        assert(vals_view(vs@) =~= seq![ArgV::Text(a.backup_path@)]);
        Ok(GameCommand::BackupListServers(a))
    } else if str_eq(command.as_str(), "backup-restore") {
        let items = vec![Item::Flag("--backup-path"), Item::Flag("--server-name"), Item::Flag("--target-root")];
        assert(items@ =~= seq![Item::Flag("--backup-path"), Item::Flag("--server-name"), Item::Flag("--target-root")]);
        let vs = parser.take_items(&items)?;
        let a = GameBackupRestoreArgs { backup_path: text_at(&vs, 0), server_name: text_at(&vs, 1), target_root: text_at(&vs, 2) };
        assert(vals_view(vs@) =~= seq![ArgV::Text(a.backup_path@), ArgV::Text(a.server_name@), ArgV::Text(a.target_root@)]);
        Ok(GameCommand::BackupRestore(a))
    } else if str_eq(command.as_str(), "server-addresses-read") {
        let items = vec![Item::Flag("--path")];
        assert(items@ =~= seq![Item::Flag("--path")]);
        let vs = parser.take_items(&items)?;
        let a = GameFilePathArgs { path: text_at(&vs, 0) };
        assert(vals_view(vs@) =~= seq![ArgV::Text(a.path@)]);
        Ok(GameCommand::ServerAddressesRead(a))
    } else if str_eq(command.as_str(), "server-addresses-write") {
        let items = vec![Item::Flag("--path")];
        assert(items@ =~= seq![Item::Flag("--path")]);
        let vs = parser.take_items(&items)?;
        let a = GameFilePathArgs { path: text_at(&vs, 0) };
        assert(vals_view(vs@) =~= seq![ArgV::Text(a.path@)]);
        Ok(GameCommand::ServerAddressesWrite(a))
    } else if str_eq(command.as_str(), "litematica-metadata") {
        let items = vec![Item::Flag("--path")];
        assert(items@ =~= seq![Item::Flag("--path")]);
        let vs = parser.take_items(&items)?;
        let a = GameFilePathArgs { path: text_at(&vs, 0) };
        assert(vals_view(vs@) =~= seq![ArgV::Text(a.path@)]);
        Ok(GameCommand::LitematicaMetadata(a))
    } else if str_eq(command.as_str(), "litematica-full-metadata") {
        let items = vec![Item::Flag("--path")];
        assert(items@ =~= seq![Item::Flag("--path")]);
        let vs = parser.take_items(&items)?;
        let a = GameFilePathArgs { path: text_at(&vs, 0) };
        assert(vals_view(vs@) =~= seq![ArgV::Text(a.path@)]);
        Ok(GameCommand::LitematicaFullMetadata(a))
    } else {
        Err(CoreError::Validation(concat2("unknown game command: ", command.as_str())))
    }
}

/// The grammar of agent commands.
pub open spec fn sp_agent_command(t: Seq<Seq<char>>, i: int) -> Step<CmdView> {
    match sp_required(t, i, "agent command"@) {
        Err(e) => Err(e),
        Ok((name, j)) => {
            if name == "run"@ {
                Ok((bare("run"@), j))
            } else if name == "status"@ {
                Ok((bare("status"@), j))
            } else if name == "start"@ {
                Ok((bare("start"@), j))
            } else if name == "stop"@ {
                Ok((bare("stop"@), j))
            } else if name == "ensure"@ {
                Ok((bare("ensure"@), j))
            } else {
                Err(verr("unknown agent command: "@ + name))
            }
        },
    }
}

/// Reads a agent command.
pub fn parse_agent_command(parser: &mut ArgCursor) -> (r: Result<AgentCommand, CoreError>)
    ensures
        final(parser).args == old(parser).args,
        cmd_step(r, |c: AgentCommand| agent_command_view(c), final(parser).index as int, sp_agent_command(old(parser).toks(), old(parser).index as int)),
{
    let command = parser.required("agent command")?;
    if str_eq(command.as_str(), "run") {
        Ok(AgentCommand::Run)
    } else if str_eq(command.as_str(), "status") {
        Ok(AgentCommand::Status)
    } else if str_eq(command.as_str(), "start") {
        Ok(AgentCommand::Start)
    } else if str_eq(command.as_str(), "stop") {
        Ok(AgentCommand::Stop)
    } else if str_eq(command.as_str(), "ensure") {
        Ok(AgentCommand::Ensure)
    } else {
        Err(CoreError::Validation(concat2("unknown agent command: ", command.as_str())))
    }
}

/// The grammar of mirror commands.
pub open spec fn sp_mirror_command(t: Seq<Seq<char>>, i: int) -> Step<CmdView> {
    match sp_required(t, i, "mirror command"@) {
        Err(e) => Err(e),
        Ok((name, j)) => {
            if name == "fastmirror-cores"@ {
                by_items(t, j, "fastmirror-cores"@, seq![Item::Loose("--base-url")])
            } else if name == "fastmirror-game-versions"@ {
                by_items(t, j, "fastmirror-game-versions"@, seq![Item::Flag("--core-name"), Item::Loose("--base-url")])
            } else if name == "fastmirror-core-versions"@ {
                by_items(t, j, "fastmirror-core-versions"@, seq![Item::Flag("--core-name"), Item::Flag("--game-version"), Item::Loose("--base-url")])
            } else if name == "fastmirror-detail"@ {
                by_items(t, j, "fastmirror-detail"@, seq![Item::Flag("--core-name"), Item::Flag("--game-version"), Item::Flag("--core-version"), Item::Loose("--base-url")])
            } else if name == "polars-core-types"@ {
                by_items(t, j, "polars-core-types"@, seq![Item::Loose("--base-url")])
            } else if name == "polars-core-items"@ {
                sp_polars_core_items(t, j)
            } else if name == "custom-cores"@ {
                by_items(t, j, "custom-cores"@, seq![Item::Flag("--config-json"), Item::Flag("--base-url")])
            } else if name == "custom-game-versions"@ {
                by_items(t, j, "custom-game-versions"@, seq![Item::Flag("--config-json"), Item::Flag("--base-url"), Item::Flag("--core-name")])
            } else if name == "custom-core-versions"@ {
                by_items(t, j, "custom-core-versions"@, seq![Item::Flag("--config-json"), Item::Flag("--base-url"), Item::Flag("--core-name"), Item::Flag("--game-version")])
            } else if name == "custom-detail"@ {
                by_items(t, j, "custom-detail"@, seq![Item::Flag("--config-json"), Item::Flag("--base-url"), Item::Flag("--core-name"), Item::Flag("--game-version"), Item::Flag("--core-version")])
            } else {
                Err(verr("unknown mirror command: "@ + name))
            }
        },
    }
}

/// Reads a mirror command.
pub fn parse_mirror_command(parser: &mut ArgCursor) -> (r: Result<MirrorCommand, CoreError>)
    ensures
        final(parser).args == old(parser).args,
        cmd_step(r, |c: MirrorCommand| mirror_command_view(c), final(parser).index as int, sp_mirror_command(old(parser).toks(), old(parser).index as int)),
{
    let command = parser.required("mirror command")?;
    if str_eq(command.as_str(), "fastmirror-cores") {
        let items = vec![Item::Loose("--base-url")];
        assert(items@ =~= seq![Item::Loose("--base-url")]);
        let vs = parser.take_items(&items)?;
        let a = MirrorBaseUrlArgs { base_url: maybe_text_at(&vs, 0) };
        assert(vals_view(vs@) =~= seq![ArgV::MaybeText(ov(a.base_url))]);
        Ok(MirrorCommand::FastMirrorCores(a))
    } else if str_eq(command.as_str(), "fastmirror-game-versions") {
        let items = vec![Item::Flag("--core-name"), Item::Loose("--base-url")];
        assert(items@ =~= seq![Item::Flag("--core-name"), Item::Loose("--base-url")]);
        let vs = parser.take_items(&items)?;
        let a = MirrorCoreArgs { core_name: text_at(&vs, 0), base_url: maybe_text_at(&vs, 1) };
        assert(vals_view(vs@) =~= seq![ArgV::Text(a.core_name@), ArgV::MaybeText(ov(a.base_url))]);
        Ok(MirrorCommand::FastMirrorGameVersions(a))
    } else if str_eq(command.as_str(), "fastmirror-core-versions") {
        let items = vec![Item::Flag("--core-name"), Item::Flag("--game-version"), Item::Loose("--base-url")];
        assert(items@ =~= seq![Item::Flag("--core-name"), Item::Flag("--game-version"), Item::Loose("--base-url")]);
        let vs = parser.take_items(&items)?;
        let a = MirrorCoreGameVersionArgs { core_name: text_at(&vs, 0), game_version: text_at(&vs, 1), base_url: maybe_text_at(&vs, 2) };
        assert(vals_view(vs@) =~= seq![ArgV::Text(a.core_name@), ArgV::Text(a.game_version@), ArgV::MaybeText(ov(a.base_url))]);
        Ok(MirrorCommand::FastMirrorCoreVersions(a))
    } else if str_eq(command.as_str(), "fastmirror-detail") {
        let items = vec![Item::Flag("--core-name"), Item::Flag("--game-version"), Item::Flag("--core-version"), Item::Loose("--base-url")];
        assert(items@ =~= seq![Item::Flag("--core-name"), Item::Flag("--game-version"), Item::Flag("--core-version"), Item::Loose("--base-url")]);
        let vs = parser.take_items(&items)?;
        let a = MirrorCoreVersionDetailArgs { core_name: text_at(&vs, 0), game_version: text_at(&vs, 1), core_version: text_at(&vs, 2), base_url: maybe_text_at(&vs, 3) };
        assert(vals_view(vs@) =~= seq![ArgV::Text(a.core_name@), ArgV::Text(a.game_version@), ArgV::Text(a.core_version@), ArgV::MaybeText(ov(a.base_url))]);
        Ok(MirrorCommand::FastMirrorDetail(a))
    } else if str_eq(command.as_str(), "polars-core-types") {
        let items = vec![Item::Loose("--base-url")];
        assert(items@ =~= seq![Item::Loose("--base-url")]);
        let vs = parser.take_items(&items)?;
        let a = MirrorBaseUrlArgs { base_url: maybe_text_at(&vs, 0) };
        assert(vals_view(vs@) =~= seq![ArgV::MaybeText(ov(a.base_url))]);
        Ok(MirrorCommand::PolarsCoreTypes(a))
    } else if str_eq(command.as_str(), "polars-core-items") {
        Ok(MirrorCommand::PolarsCoreItems(parse_polars_core_items_args(parser)?))
    } else if str_eq(command.as_str(), "custom-cores") {
        let items = vec![Item::Flag("--config-json"), Item::Flag("--base-url")];
        assert(items@ =~= seq![Item::Flag("--config-json"), Item::Flag("--base-url")]);
        let vs = parser.take_items(&items)?;
        let a = MirrorCustomConfigArgs { config_json: text_at(&vs, 0), base_url: text_at(&vs, 1) };
        assert(vals_view(vs@) =~= seq![ArgV::Text(a.config_json@), ArgV::Text(a.base_url@)]);
        Ok(MirrorCommand::CustomCores(a))
    } else if str_eq(command.as_str(), "custom-game-versions") {
        let items = vec![Item::Flag("--config-json"), Item::Flag("--base-url"), Item::Flag("--core-name")];
        assert(items@ =~= seq![Item::Flag("--config-json"), Item::Flag("--base-url"), Item::Flag("--core-name")]);
        let vs = parser.take_items(&items)?;
        let a = MirrorCustomCoreArgs { config_json: text_at(&vs, 0), base_url: text_at(&vs, 1), core_name: text_at(&vs, 2) };
        assert(vals_view(vs@) =~= seq![ArgV::Text(a.config_json@), ArgV::Text(a.base_url@), ArgV::Text(a.core_name@)]);
        Ok(MirrorCommand::CustomGameVersions(a))
    } else if str_eq(command.as_str(), "custom-core-versions") {
        let items = vec![Item::Flag("--config-json"), Item::Flag("--base-url"), Item::Flag("--core-name"), Item::Flag("--game-version")];
        assert(items@ =~= seq![Item::Flag("--config-json"), Item::Flag("--base-url"), Item::Flag("--core-name"), Item::Flag("--game-version")]);
        let vs = parser.take_items(&items)?;
        let a = MirrorCustomCoreGameArgs { config_json: text_at(&vs, 0), base_url: text_at(&vs, 1), core_name: text_at(&vs, 2), game_version: text_at(&vs, 3) };
        assert(vals_view(vs@) =~= seq![ArgV::Text(a.config_json@), ArgV::Text(a.base_url@), ArgV::Text(a.core_name@), ArgV::Text(a.game_version@)]);
        Ok(MirrorCommand::CustomCoreVersions(a))
    } else if str_eq(command.as_str(), "custom-detail") {
        let items = vec![Item::Flag("--config-json"), Item::Flag("--base-url"), Item::Flag("--core-name"), Item::Flag("--game-version"), Item::Flag("--core-version")];
        assert(items@ =~= seq![Item::Flag("--config-json"), Item::Flag("--base-url"), Item::Flag("--core-name"), Item::Flag("--game-version"), Item::Flag("--core-version")]);
        let vs = parser.take_items(&items)?;
        let a = MirrorCustomDetailArgs { config_json: text_at(&vs, 0), base_url: text_at(&vs, 1), core_name: text_at(&vs, 2), game_version: text_at(&vs, 3), core_version: text_at(&vs, 4) };
        assert(vals_view(vs@) =~= seq![ArgV::Text(a.config_json@), ArgV::Text(a.base_url@), ArgV::Text(a.core_name@), ArgV::Text(a.game_version@), ArgV::Text(a.core_version@)]);
        Ok(MirrorCommand::CustomDetail(a))
    } else {
        Err(CoreError::Validation(concat2("unknown mirror command: ", command.as_str())))
    }
}

/// The grammar of modrinth commands.
pub open spec fn sp_modrinth_command(t: Seq<Seq<char>>, i: int) -> Step<CmdView> {
    match sp_required(t, i, "modrinth command"@) {
        Err(e) => Err(e),
        Ok((name, j)) => {
            if name == "search"@ {
                sp_search(t, j)
            } else if name == "project"@ {
                by_items(t, j, "project"@, seq![Item::Pos("project id")])
            } else if name == "versions"@ {
                by_items(t, j, "versions"@, seq![Item::Pos("project id")])
            } else if name == "version"@ {
                by_items(t, j, "version"@, seq![Item::Pos("version id")])
            } else if name == "file-by-hash"@ {
                by_items(t, j, "file-by-hash"@, seq![Item::Pos("file hash")])
            } else if name == "version-info"@ {
                by_items(t, j, "version-info"@, seq![Item::Pos("minecraft version")])
            } else if name == "loader-manifest"@ {
                by_items(t, j, "loader-manifest"@, seq![Item::Pos("loader name")])
            } else if name == "loader-profile"@ {
                by_items(t, j, "loader-profile"@, seq![Item::Flag("--loader"), Item::Flag("--version")])
            } else if name == "versions-filter"@ {
                by_items(t, j, "versions-filter"@, seq![Item::Flag("--id"), Item::Flag("--type"), Item::Flag("--selected-versions-json"), Item::Flag("--selected-loaders-json")])
            } else if name == "dependencies"@ {
                by_items(t, j, "dependencies"@, seq![Item::Flag("--id"), Item::Flag("--type"), Item::Flag("--selected-versions-json"), Item::Flag("--selected-loaders-json")])
            } else if name == "loaders"@ {
                Ok((bare("loaders"@), j))
            } else if name == "categories"@ {
                Ok((bare("categories"@), j))
            } else if name == "game-versions"@ {
                by_items(t, j, "game-versions"@, seq![Item::Switch("--include-snapshots")])
            } else {
                Err(verr("unknown modrinth command: "@ + name))
            }
        },
    }
}

/// Reads a modrinth command.
pub fn parse_modrinth_command(parser: &mut ArgCursor) -> (r: Result<ModrinthCommand, CoreError>)
    ensures
        final(parser).args == old(parser).args,
        cmd_step(r, |c: ModrinthCommand| modrinth_command_view(c), final(parser).index as int, sp_modrinth_command(old(parser).toks(), old(parser).index as int)),
{
    let command = parser.required("modrinth command")?;
    if str_eq(command.as_str(), "search") {
        Ok(ModrinthCommand::Search(parse_search_args(parser)?))
    } else if str_eq(command.as_str(), "project") {
        let items = vec![Item::Pos("project id")];
        assert(items@ =~= seq![Item::Pos("project id")]);
        let vs = parser.take_items(&items)?;
        let a = ModrinthIdArgs { id: text_at(&vs, 0) };
        assert(vals_view(vs@) =~= seq![ArgV::Text(a.id@)]);
        Ok(ModrinthCommand::Project(a))
    } else if str_eq(command.as_str(), "versions") {
        let items = vec![Item::Pos("project id")];
        assert(items@ =~= seq![Item::Pos("project id")]);
        let vs = parser.take_items(&items)?;
        let a = ModrinthIdArgs { id: text_at(&vs, 0) };
        assert(vals_view(vs@) =~= seq![ArgV::Text(a.id@)]);
        Ok(ModrinthCommand::Versions(a))
    } else if str_eq(command.as_str(), "version") {
        let items = vec![Item::Pos("version id")];
        assert(items@ =~= seq![Item::Pos("version id")]);
        let vs = parser.take_items(&items)?;
        let a = ModrinthVersionIdArgs { version_id: text_at(&vs, 0) };
        assert(vals_view(vs@) =~= seq![ArgV::Text(a.version_id@)]);
        Ok(ModrinthCommand::Version(a))
    } else if str_eq(command.as_str(), "file-by-hash") {
        let items = vec![Item::Pos("file hash")];
        assert(items@ =~= seq![Item::Pos("file hash")]);
        let vs = parser.take_items(&items)?;
        let a = ModrinthFileHashArgs { hash: text_at(&vs, 0) };
        assert(vals_view(vs@) =~= seq![ArgV::Text(a.hash@)]);
        Ok(ModrinthCommand::FileByHash(a))
    } else if str_eq(command.as_str(), "version-info") {
        let items = vec![Item::Pos("minecraft version")];
        assert(items@ =~= seq![Item::Pos("minecraft version")]);
        let vs = parser.take_items(&items)?;
        let a = ModrinthMinecraftVersionArgs { version: text_at(&vs, 0) };
        assert(vals_view(vs@) =~= seq![ArgV::Text(a.version@)]);
        Ok(ModrinthCommand::VersionInfo(a))
    } else if str_eq(command.as_str(), "loader-manifest") {
        let items = vec![Item::Pos("loader name")];
        assert(items@ =~= seq![Item::Pos("loader name")]);
        let vs = parser.take_items(&items)?;
        let a = ModrinthLoaderNameArgs { loader: text_at(&vs, 0) };
        assert(vals_view(vs@) =~= seq![ArgV::Text(a.loader@)]);
        Ok(ModrinthCommand::LoaderManifest(a))
    } else if str_eq(command.as_str(), "loader-profile") {
        let items = vec![Item::Flag("--loader"), Item::Flag("--version")];
        assert(items@ =~= seq![Item::Flag("--loader"), Item::Flag("--version")]);
        let vs = parser.take_items(&items)?;
        let a = ModrinthLoaderProfileArgs { loader: text_at(&vs, 0), version: text_at(&vs, 1) };
        assert(vals_view(vs@) =~= seq![ArgV::Text(a.loader@), ArgV::Text(a.version@)]);
        Ok(ModrinthCommand::LoaderProfile(a))
    } else if str_eq(command.as_str(), "versions-filter") {
        let items = vec![Item::Flag("--id"), Item::Flag("--type"), Item::Flag("--selected-versions-json"), Item::Flag("--selected-loaders-json")];
        assert(items@ =~= seq![Item::Flag("--id"), Item::Flag("--type"), Item::Flag("--selected-versions-json"), Item::Flag("--selected-loaders-json")]);
        let vs = parser.take_items(&items)?;
        let a = ModrinthVersionsFilterArgs { id: text_at(&vs, 0), project_type: text_at(&vs, 1), selected_versions_json: text_at(&vs, 2), selected_loaders_json: text_at(&vs, 3) };
        assert(vals_view(vs@) =~= seq![ArgV::Text(a.id@), ArgV::Text(a.project_type@), ArgV::Text(a.selected_versions_json@), ArgV::Text(a.selected_loaders_json@)]);
        Ok(ModrinthCommand::VersionsFilter(a))
    } else if str_eq(command.as_str(), "dependencies") {
        let items = vec![Item::Flag("--id"), Item::Flag("--type"), Item::Flag("--selected-versions-json"), Item::Flag("--selected-loaders-json")];
        assert(items@ =~= seq![Item::Flag("--id"), Item::Flag("--type"), Item::Flag("--selected-versions-json"), Item::Flag("--selected-loaders-json")]);
        let vs = parser.take_items(&items)?;
        let a = ModrinthDependenciesArgs { id: text_at(&vs, 0), project_type: text_at(&vs, 1), selected_versions_json: text_at(&vs, 2), selected_loaders_json: text_at(&vs, 3) };
        assert(vals_view(vs@) =~= seq![ArgV::Text(a.id@), ArgV::Text(a.project_type@), ArgV::Text(a.selected_versions_json@), ArgV::Text(a.selected_loaders_json@)]);
        Ok(ModrinthCommand::Dependencies(a))
    } else if str_eq(command.as_str(), "loaders") {
        Ok(ModrinthCommand::Loaders)
    } else if str_eq(command.as_str(), "categories") {
        Ok(ModrinthCommand::Categories)
    } else if str_eq(command.as_str(), "game-versions") {
        let items = vec![Item::Switch("--include-snapshots")];
        assert(items@ =~= seq![Item::Switch("--include-snapshots")]);
        let vs = parser.take_items(&items)?;
        let a = ModrinthGameVersionsArgs { include_snapshots: switch_at(&vs, 0) };
        assert(vals_view(vs@) =~= seq![ArgV::Switch(a.include_snapshots)]);
        Ok(ModrinthCommand::GameVersions(a))
    } else {
        Err(CoreError::Validation(concat2("unknown modrinth command: ", command.as_str())))
    }
}

/// The grammar of server commands.
pub open spec fn sp_server_command(t: Seq<Seq<char>>, i: int) -> Step<CmdView> {
    match sp_required(t, i, "server command"@) {
        Err(e) => Err(e),
        Ok((name, j)) => {
            if name == "list"@ {
                Ok((bare("list"@), j))
            } else if name == "show"@ {
                by_items(t, j, "show"@, seq![Item::Pos("server id")])
            } else if name == "delete"@ {
                by_items(t, j, "delete"@, seq![Item::Pos("server id")])
            } else if name == "delete-corrupted"@ {
                by_items(t, j, "delete-corrupted"@, seq![Item::Pos("server name")])
            } else if name == "command"@ {
                by_items(t, j, "command"@, seq![Item::Pos("server id")])
            } else if name == "local-start-plan"@ {
                by_items(t, j, "local-start-plan"@, seq![Item::Pos("server id"), Item::Flag("--java-path")])
            } else if name == "local-start"@ {
                by_items(t, j, "local-start"@, seq![Item::Pos("server id"), Item::Flag("--java-path")])
            } else if name == "local-log-poll"@ {
                sp_local_log_poll(t, j)
            } else if name == "create-local"@ {
                by_items(t, j, "create-local"@, seq![Item::Flag("--json")])
            } else if name == "download-target"@ {
                by_items(t, j, "download-target"@, seq![Item::Flag("--json")])
            } else if name == "corrupted"@ {
                Ok((bare("corrupted"@), j))
            } else if name == "game-versions"@ {
                by_items(t, j, "game-versions"@, seq![Item::Flag("--server-type"), Item::Switch("--include-snapshots")])
            } else if name == "loader-versions"@ {
                by_items(t, j, "loader-versions"@, seq![Item::Flag("--server-type"), Item::Flag("--game-version")])
            } else if name == "java-version"@ {
                by_items(t, j, "java-version"@, seq![Item::Pos("game version")])
            } else if name == "latest-loader"@ {
                by_items(t, j, "latest-loader"@, seq![Item::Flag("--server-type"), Item::Flag("--game-version")])
            } else if name == "verify-jar"@ {
                by_items(t, j, "verify-jar"@, seq![Item::Pos("server id")])
            } else if name == "forge-install-plan"@ {
                by_items(t, j, "forge-install-plan"@, seq![Item::Pos("server id")])
            } else if name == "status"@ {
                by_items(t, j, "status"@, seq![Item::Pos("server id")])
            } else if name == "start"@ {
                by_items(t, j, "start"@, seq![Item::Pos("server id")])
            } else if name == "stop"@ {
                by_items(t, j, "stop"@, seq![Item::Pos("server id")])
            } else if name == "restart"@ {
                by_items(t, j, "restart"@, seq![Item::Pos("server id")])
            } else if name == "logs"@ {
                sp_logs(t, j)
            } else if name == "send"@ {
                by_items(t, j, "send"@, seq![Item::Pos("server id"), Item::Pos("command")])
            } else if name == "interrupt"@ {
                by_items(t, j, "interrupt"@, seq![Item::Pos("server id"), Item::Switch("--force")])
            } else if name == "rcon"@ {
                by_items(t, j, "rcon"@, seq![Item::Pos("server id"), Item::Pos("command")])
            } else if name == "properties"@ {
                match sp_server_properties_command(t, j) {
                    Ok((c, j2)) => Ok((nested("properties"@, c), j2)),
                    Err(e) => Err(e),
                }
            } else if name == "files"@ {
                match sp_server_files_command(t, j) {
                    Ok((c, j2)) => Ok((nested("files"@, c), j2)),
                    Err(e) => Err(e),
                }
            } else if name == "players"@ {
                match sp_server_players_command(t, j) {
                    Ok((c, j2)) => Ok((nested("players"@, c), j2)),
                    Err(e) => Err(e),
                }
            } else if name == "schedules"@ {
                match sp_server_schedules_command(t, j) {
                    Ok((c, j2)) => Ok((nested("schedules"@, c), j2)),
                    Err(e) => Err(e),
                }
            } else {
                Err(verr("unknown server command: "@ + name))
            }
        },
    }
}

/// Reads a server command.
pub fn parse_server_command(parser: &mut ArgCursor) -> (r: Result<ServerCommand, CoreError>)
    ensures
        final(parser).args == old(parser).args,
        cmd_step(r, |c: ServerCommand| server_command_view(c), final(parser).index as int, sp_server_command(old(parser).toks(), old(parser).index as int)),
{
    let command = parser.required("server command")?;
    if str_eq(command.as_str(), "list") {
        Ok(ServerCommand::List)
    } else if str_eq(command.as_str(), "show") {
        let items = vec![Item::Pos("server id")];
        assert(items@ =~= seq![Item::Pos("server id")]);
        let vs = parser.take_items(&items)?;
        let a = ServerIdArgs { id: text_at(&vs, 0) };
        assert(vals_view(vs@) =~= seq![ArgV::Text(a.id@)]);
        Ok(ServerCommand::Show(a))
    } else if str_eq(command.as_str(), "delete") {
        let items = vec![Item::Pos("server id")];
        assert(items@ =~= seq![Item::Pos("server id")]);
        let vs = parser.take_items(&items)?;
        let a = ServerIdArgs { id: text_at(&vs, 0) };
        assert(vals_view(vs@) =~= seq![ArgV::Text(a.id@)]);
        Ok(ServerCommand::Delete(a))
    } else if str_eq(command.as_str(), "delete-corrupted") {
        let items = vec![Item::Pos("server name")];
        assert(items@ =~= seq![Item::Pos("server name")]);
        let vs = parser.take_items(&items)?;
        let a = ServerNameArgs { name: text_at(&vs, 0) };
        assert(vals_view(vs@) =~= seq![ArgV::Text(a.name@)]);
        Ok(ServerCommand::DeleteCorrupted(a))
    } else if str_eq(command.as_str(), "command") {
        let items = vec![Item::Pos("server id")];
        assert(items@ =~= seq![Item::Pos("server id")]);
        let vs = parser.take_items(&items)?;
        let a = ServerIdArgs { id: text_at(&vs, 0) };
        assert(vals_view(vs@) =~= seq![ArgV::Text(a.id@)]);
        Ok(ServerCommand::LaunchCommand(a))
    } else if str_eq(command.as_str(), "local-start-plan") {
        let items = vec![Item::Pos("server id"), Item::Flag("--java-path")];
        assert(items@ =~= seq![Item::Pos("server id"), Item::Flag("--java-path")]);
        let vs = parser.take_items(&items)?;
        let a = ServerJavaPathArgs { id: text_at(&vs, 0), java_path: text_at(&vs, 1) };
        assert(vals_view(vs@) =~= seq![ArgV::Text(a.id@), ArgV::Text(a.java_path@)]);
        Ok(ServerCommand::LocalStartPlan(a))
    } else if str_eq(command.as_str(), "local-start") {
        let items = vec![Item::Pos("server id"), Item::Flag("--java-path")];
        assert(items@ =~= seq![Item::Pos("server id"), Item::Flag("--java-path")]);
        let vs = parser.take_items(&items)?;
        let a = ServerJavaPathArgs { id: text_at(&vs, 0), java_path: text_at(&vs, 1) };
        assert(vals_view(vs@) =~= seq![ArgV::Text(a.id@), ArgV::Text(a.java_path@)]);
        Ok(ServerCommand::LocalStart(a))
    } else if str_eq(command.as_str(), "local-log-poll") {
        Ok(ServerCommand::LocalLogPoll(parse_local_log_poll_args(parser)?))
    } else if str_eq(command.as_str(), "create-local") {
        let items = vec![Item::Flag("--json")];
        assert(items@ =~= seq![Item::Flag("--json")]);
        let vs = parser.take_items(&items)?;
        let a = ServerCreateArgs { json: text_at(&vs, 0) };
        assert(vals_view(vs@) =~= seq![ArgV::Text(a.json@)]);
        Ok(ServerCommand::CreateLocal(a))
    } else if str_eq(command.as_str(), "download-target") {
        let items = vec![Item::Flag("--json")];
        assert(items@ =~= seq![Item::Flag("--json")]);
        let vs = parser.take_items(&items)?;
        let a = ServerResolveDownloadArgs { json: text_at(&vs, 0) };
        assert(vals_view(vs@) =~= seq![ArgV::Text(a.json@)]);
        Ok(ServerCommand::DownloadTarget(a))
    } else if str_eq(command.as_str(), "corrupted") {
        Ok(ServerCommand::Corrupted)
    } else if str_eq(command.as_str(), "game-versions") {
        let items = vec![Item::Flag("--server-type"), Item::Switch("--include-snapshots")];
        assert(items@ =~= seq![Item::Flag("--server-type"), Item::Switch("--include-snapshots")]);
        let vs = parser.take_items(&items)?;
        let a = ServerGameVersionsArgs { server_type: text_at(&vs, 0), include_snapshots: switch_at(&vs, 1) };
        assert(vals_view(vs@) =~= seq![ArgV::Text(a.server_type@), ArgV::Switch(a.include_snapshots)]);
        Ok(ServerCommand::GameVersions(a))
    } else if str_eq(command.as_str(), "loader-versions") {
        let items = vec![Item::Flag("--server-type"), Item::Flag("--game-version")];
        assert(items@ =~= seq![Item::Flag("--server-type"), Item::Flag("--game-version")]);
        let vs = parser.take_items(&items)?;
        let a = ServerLoaderVersionsArgs { server_type: text_at(&vs, 0), game_version: text_at(&vs, 1) };
        assert(vals_view(vs@) =~= seq![ArgV::Text(a.server_type@), ArgV::Text(a.game_version@)]);
        Ok(ServerCommand::LoaderVersions(a))
    } else if str_eq(command.as_str(), "java-version") {
        let items = vec![Item::Pos("game version")];
        assert(items@ =~= seq![Item::Pos("game version")]);
        let vs = parser.take_items(&items)?;
        let a = ServerGameVersionArgs { game_version: text_at(&vs, 0) };
        assert(vals_view(vs@) =~= seq![ArgV::Text(a.game_version@)]);
        Ok(ServerCommand::JavaVersion(a))
    } else if str_eq(command.as_str(), "latest-loader") {
        let items = vec![Item::Flag("--server-type"), Item::Flag("--game-version")];
        assert(items@ =~= seq![Item::Flag("--server-type"), Item::Flag("--game-version")]);
        let vs = parser.take_items(&items)?;
        let a = ServerLatestLoaderArgs { server_type: text_at(&vs, 0), game_version: text_at(&vs, 1) };
        assert(vals_view(vs@) =~= seq![ArgV::Text(a.server_type@), ArgV::Text(a.game_version@)]);
        Ok(ServerCommand::LatestLoader(a))
    } else if str_eq(command.as_str(), "verify-jar") {
        let items = vec![Item::Pos("server id")];
        assert(items@ =~= seq![Item::Pos("server id")]);
        let vs = parser.take_items(&items)?;
        let a = ServerIdArgs { id: text_at(&vs, 0) };
        assert(vals_view(vs@) =~= seq![ArgV::Text(a.id@)]);
        Ok(ServerCommand::VerifyJar(a))
    } else if str_eq(command.as_str(), "forge-install-plan") {
        let items = vec![Item::Pos("server id")];
        assert(items@ =~= seq![Item::Pos("server id")]);
        let vs = parser.take_items(&items)?;
        let a = ServerIdArgs { id: text_at(&vs, 0) };
        assert(vals_view(vs@) =~= seq![ArgV::Text(a.id@)]);
        Ok(ServerCommand::ForgeInstallPlan(a))
    } else if str_eq(command.as_str(), "status") {
        let items = vec![Item::Pos("server id")];
        assert(items@ =~= seq![Item::Pos("server id")]);
        let vs = parser.take_items(&items)?;
        let a = ServerIdArgs { id: text_at(&vs, 0) };
        assert(vals_view(vs@) =~= seq![ArgV::Text(a.id@)]);
        Ok(ServerCommand::Status(a))
    } else if str_eq(command.as_str(), "start") {
        let items = vec![Item::Pos("server id")];
        assert(items@ =~= seq![Item::Pos("server id")]);
        let vs = parser.take_items(&items)?;
        let a = ServerIdArgs { id: text_at(&vs, 0) };
        assert(vals_view(vs@) =~= seq![ArgV::Text(a.id@)]);
        Ok(ServerCommand::Start(a))
    } else if str_eq(command.as_str(), "stop") {
        let items = vec![Item::Pos("server id")];
        assert(items@ =~= seq![Item::Pos("server id")]);
        let vs = parser.take_items(&items)?;
        let a = ServerIdArgs { id: text_at(&vs, 0) };
        assert(vals_view(vs@) =~= seq![ArgV::Text(a.id@)]);
        Ok(ServerCommand::Stop(a))
    } else if str_eq(command.as_str(), "restart") {
        let items = vec![Item::Pos("server id")];
        assert(items@ =~= seq![Item::Pos("server id")]);
        let vs = parser.take_items(&items)?;
        let a = ServerIdArgs { id: text_at(&vs, 0) };
        assert(vals_view(vs@) =~= seq![ArgV::Text(a.id@)]);
        Ok(ServerCommand::Restart(a))
    } else if str_eq(command.as_str(), "logs") {
        Ok(ServerCommand::Logs(parse_logs_args(parser)?))
    } else if str_eq(command.as_str(), "send") {
        let items = vec![Item::Pos("server id"), Item::Pos("command")];
        assert(items@ =~= seq![Item::Pos("server id"), Item::Pos("command")]);
        let vs = parser.take_items(&items)?;
        let a = ServerSendArgs { id: text_at(&vs, 0), command: text_at(&vs, 1) };
        assert(vals_view(vs@) =~= seq![ArgV::Text(a.id@), ArgV::Text(a.command@)]);
        Ok(ServerCommand::Send(a))
    } else if str_eq(command.as_str(), "interrupt") {
        let items = vec![Item::Pos("server id"), Item::Switch("--force")];
        assert(items@ =~= seq![Item::Pos("server id"), Item::Switch("--force")]);
        let vs = parser.take_items(&items)?;
        let a = ServerInterruptArgs { id: text_at(&vs, 0), force: switch_at(&vs, 1) };
        assert(vals_view(vs@) =~= seq![ArgV::Text(a.id@), ArgV::Switch(a.force)]);
        Ok(ServerCommand::Interrupt(a))
    } else if str_eq(command.as_str(), "rcon") {
        let items = vec![Item::Pos("server id"), Item::Pos("command")];
        assert(items@ =~= seq![Item::Pos("server id"), Item::Pos("command")]);
        let vs = parser.take_items(&items)?;
        let a = ServerSendArgs { id: text_at(&vs, 0), command: text_at(&vs, 1) };
        assert(vals_view(vs@) =~= seq![ArgV::Text(a.id@), ArgV::Text(a.command@)]);
        Ok(ServerCommand::Rcon(a))
    } else if str_eq(command.as_str(), "properties") {
        Ok(ServerCommand::Properties(parse_server_properties_command(parser)?))
    } else if str_eq(command.as_str(), "files") {
        Ok(ServerCommand::Files(parse_server_files_command(parser)?))
    } else if str_eq(command.as_str(), "players") {
        Ok(ServerCommand::Players(parse_server_players_command(parser)?))
    } else if str_eq(command.as_str(), "schedules") {
        Ok(ServerCommand::Schedules(parse_server_schedules_command(parser)?))
    } else {
        Err(CoreError::Validation(concat2("unknown server command: ", command.as_str())))
    }
}

// ---------------------------------------------------------------------------
// The whole command line
// ---------------------------------------------------------------------------

/// The global options as read so far.
pub struct Globals {
    pub db: Option<Seq<char>>,
    pub working_path: Option<Seq<char>>,
    pub demo: bool,
}

/// The global options from position `i`, before the command: `--db` and
/// `--working-path` with a value, `--demo` alone, in any order, the last of each counting.
pub open spec fn sp_globals(t: Seq<Seq<char>>, i: int, g: Globals) -> Result<(Globals, int), CoreErrorView>
    decreases t.len() - i,
{
    if 0 <= i < t.len() && t[i] == "--db"@ {
        if i + 1 < t.len() {
            sp_globals(t, i + 2, Globals { db: Some(t[i + 1]), ..g })
        } else {
            Err(verr("missing value for "@ + "--db"@))
        }
    } else if 0 <= i < t.len() && t[i] == "--working-path"@ {
        if i + 1 < t.len() {
            sp_globals(t, i + 2, Globals { working_path: Some(t[i + 1]), ..g })
        } else {
            Err(verr("missing value for "@ + "--working-path"@))
        }
    } else if 0 <= i < t.len() && t[i] == "--demo"@ {
        sp_globals(t, i + 1, Globals { demo: true, ..g })
    } else {
        Ok((g, i))
    }
}

/// A command read by `sub`, named by one more word in front.
pub open spec fn nested_step(word: Seq<char>, sub: Step<CmdView>) -> Step<CmdView> {
    match sub {
        Ok((c, j)) => Ok((nested(word, c), j)),
        Err(e) => Err(e),
    }
}

/// The grammar of the command after the global options.
pub open spec fn sp_command(t: Seq<Seq<char>>, i: int) -> Step<CmdView> {
    match sp_required(t, i, "command"@) {
        Err(e) => Err(e),
        Ok((name, j)) => {
            if name == "server"@ {
                nested_step("server"@, sp_server_command(t, j))
            } else if name == "mirror"@ {
                nested_step("mirror"@, sp_mirror_command(t, j))
            } else if name == "modrinth"@ {
                nested_step("modrinth"@, sp_modrinth_command(t, j))
            } else if name == "resource"@ {
                nested_step("resource"@, sp_resource_command(t, j))
            } else if name == "game"@ {
                nested_step("game"@, sp_game_command(t, j))
            } else if name == "settings"@ {
                nested_step("settings"@, sp_settings_command(t, j))
            } else if name == "agent"@ {
                nested_step("agent"@, sp_agent_command(t, j))
            } else {
                Err(verr("unknown command: "@ + name))
            }
        },
    }
}

/// The grammar of the whole command line: the global options, the command, and nothing
/// after it.
pub open spec fn sp_cli(t: Seq<Seq<char>>) -> Result<CliView, CoreErrorView> {
    match sp_globals(t, 0, Globals { db: None, working_path: None, demo: false }) {
        Err(e) => Err(e),
        Ok((g, i)) => match sp_command(t, i) {
            Err(e) => Err(e),
            Ok((c, j)) => match sp_finish(t, j) {
                Err(e) => Err(e),
                Ok(()) => Ok(CliView { db: g.db, working_path: g.working_path, demo: g.demo, command: c }),
            },
        },
    }
}

/// Reads the command after the global options.
fn parse_command(parser: &mut ArgCursor) -> (r: Result<Command, CoreError>)
    ensures
        final(parser).args == old(parser).args,
        cmd_step(r, |c: Command| command_view(c), final(parser).index as int, sp_command(old(parser).toks(), old(parser).index as int)),
{
    let command_name = parser.required("command")?;
    if str_eq(command_name.as_str(), "server") {
        Ok(Command::Server(parse_server_command(parser)?))
    } else if str_eq(command_name.as_str(), "mirror") {
        Ok(Command::Mirror(parse_mirror_command(parser)?))
    } else if str_eq(command_name.as_str(), "modrinth") {
        Ok(Command::Modrinth(parse_modrinth_command(parser)?))
    } else if str_eq(command_name.as_str(), "resource") {
        Ok(Command::Resource(parse_resource_command(parser)?))
    } else if str_eq(command_name.as_str(), "game") {
        Ok(Command::Game(parse_game_command(parser)?))
    } else if str_eq(command_name.as_str(), "settings") {
        Ok(Command::Settings(parse_settings_command(parser)?))
    } else if str_eq(command_name.as_str(), "agent") {
        Ok(Command::Agent(parse_agent_command(parser)?))
    } else {
        Err(CoreError::Validation(concat2("unknown command: ", command_name.as_str())))
    }
}

impl Cli {
    /// Reads the command line: the global options, one command with its arguments, and
    /// nothing more.
    pub fn parse(arguments: Vec<String>) -> (r: Result<Cli, CoreError>)
        ensures
            match r {
                Ok(c) => sp_cli(strings_view(arguments@)) == Ok::<CliView, CoreErrorView>(cli_view(c)),
                Err(e) => sp_cli(strings_view(arguments@)) == Err::<CliView, CoreErrorView>(e@),
            },
    {
        let ghost t = strings_view(arguments@);
        let mut parser = ArgCursor::new(arguments);
        let mut db: Option<String> = None;
        let mut working_path: Option<String> = None;
        let mut demo = false;
        while parser.peek_is("--db") || parser.peek_is("--working-path") || parser.peek_is("--demo")
            invariant
                t == parser.toks(),
                t == strings_view(arguments@),
                sp_globals(t, 0, Globals { db: None, working_path: None, demo: false })
                    == sp_globals(t, parser.index as int, Globals { db: ov(db), working_path: ov(working_path), demo }),
            decreases parser.args@.len() - parser.index,
        {
            let flag = match parser.next() {
                Some(f) => f,
                None => String::new(),
            };
            if str_eq(flag.as_str(), "--db") {
                db = Some(parser.required_value("--db")?);
            } else if str_eq(flag.as_str(), "--working-path") {
                working_path = Some(parser.required_value("--working-path")?);
            } else {
                demo = true;
            }
        }
        let command = parse_command(&mut parser)?;
        parser.finish()?;
        Ok(Cli { db, working_path, demo, command })
    }
}

} // verus!
