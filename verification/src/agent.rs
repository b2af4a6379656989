//! The background agent: schedules that run server actions at set times or when a
//! keyword shows up in a server's console, and the text handling they need.

use vstd::prelude::*;
use crate::error::{CoreError, CoreErrorView};
use crate::model::strings_view;
use crate::registry::Registry;
use crate::text::{
    append, chars_of, concat2, contains, contains_seq, i64_to_decimal, int_decimal,
    last_occurrence, lowercase_seq, owned, push_char, replace, replace_seq, rfind,
    string_of_range, to_lowercase, trim, trim_seq, u64_to_decimal,
};

verus! {

// ---------------------------------------------------------------------------
// Regular expressions (the `regex` crate)
// ---------------------------------------------------------------------------

/// Whether the regular expression `pattern` matches somewhere in `text`
/// (`Regex::is_match`).
pub uninterp spec fn regex_matches(pattern: Seq<char>, text: Seq<char>) -> bool;

/// The message of the error that `Regex::new` gives for an invalid `pattern`.
pub uninterp spec fn regex_error_text(pattern: Seq<char>) -> Seq<char>;

/// `text` with every match of the regular expression `pattern` replaced by
/// `replacement` (`Regex::replace_all`).
pub uninterp spec fn regex_replaced(pattern: Seq<char>, text: Seq<char>, replacement: Seq<char>) -> Seq<char>;

/// Compiles `pattern` with `regex::Regex::new` and tests it on `text` with
/// `Regex::is_match`. The contract claims only that a match result is the named
/// function of the pattern and the text, and that a refused pattern gives the error
/// message named for that pattern; which patterns compile is left unsaid.
#[verifier::external_body]
fn regex_is_match(pattern: &str, text: &str) -> (r: Result<bool, String>)
    ensures
        match r {
            Ok(b) => b == regex_matches(pattern@, text@),
            Err(m) => m@ == regex_error_text(pattern@),
        },
{
    regex::Regex::new(pattern).map(|re| re.is_match(text)).map_err(|e| e.to_string())
}

/// Compiles `pattern` with `regex::Regex::new` and replaces every match in `text` with
/// `Regex::replace_all`. The contract claims that the result is the named function of
/// its arguments, that a refused pattern gives the error message named for it, and that
/// the terminal escape pattern is accepted: `Regex::new` refuses only invalid syntax or
/// a pattern over the size limit, and that short pattern is valid.
#[verifier::external_body]
fn regex_replace_all(pattern: &str, text: &str, replacement: &str) -> (r: Result<String, String>)
    ensures
        match r {
            Ok(s) => s@ == regex_replaced(pattern@, text@, replacement@),
            Err(m) => m@ == regex_error_text(pattern@),
        },
        pattern@ == ansi_pattern() ==> r is Ok,
{
    regex::Regex::new(pattern).map(|re| re.replace_all(text, replacement).into_owned()).map_err(|e| e.to_string())
}

// ---------------------------------------------------------------------------
// Text
// ---------------------------------------------------------------------------

/// `value` with the XML special characters escaped.
pub open spec fn xml_escape_seq(value: Seq<char>) -> Seq<char> {
    replace_seq(
        replace_seq(
            replace_seq(replace_seq(replace_seq(value, "&"@, "&amp;"@), "<"@, "&lt;"@), ">"@, "&gt;"@),
            "\""@,
            "&quot;"@,
        ),
        "'"@,
        "&apos;"@,
    )
}

/// `value` with `&`, `<`, `>`, `"` and `'` escaped for XML, `&` first.
pub fn xml_escape(value: &str) -> (r: String)
    ensures
        r@ == xml_escape_seq(value@),
{
    proof {
        reveal_strlit("&");
        reveal_strlit("<");
        reveal_strlit(">");
        reveal_strlit("\"");
        reveal_strlit("'");
    }
    let a = replace(value, "&", "&amp;");
    let b = replace(a.as_str(), "<", "&lt;");
    let c = replace(b.as_str(), ">", "&gt;");
    let d = replace(c.as_str(), "\"", "&quot;");
    replace(d.as_str(), "'", "&apos;")
}

/// The pattern of the terminal escape sequences removed from console lines.
pub open spec fn ansi_pattern() -> Seq<char> {
    "\u{001B}\\[[0-9;?]*[ -/]*[@-~]"@
}

/// A console line without its terminal escape sequences.
pub fn sanitize_console_line(line: &str) -> (r: String)
    ensures
        r@ == regex_replaced(ansi_pattern(), line@, ""@),
{
    match regex_replace_all("\u{001B}\\[[0-9;?]*[ -/]*[@-~]", line, "") {
        Ok(s) => s,
        Err(_) => owned(line),
    }
}

/// The markers after which a console line carries what the server said, tried in order.
pub open spec fn server_markers() -> Seq<Seq<char>> {
    seq!["] [Server] "@, "] [Server]: "@, "[Server] "@, "[Server]: "@]
}

/// What follows the last `marker` in `line`, trimmed, when `marker` occurs and that is
/// not empty.
pub open spec fn after_marker(line: Seq<char>, marker: Seq<char>) -> Option<Seq<char>> {
    match last_occurrence(line, marker) {
        Some(i) => {
            let m = trim_seq(line.skip(i + marker.len()));
            if m.len() > 0 {
                Some(m)
            } else {
                None
            }
        },
        None => None,
    }
}

/// The message of a console line: what follows the first server marker that yields a
/// non-empty message, otherwise the whole line trimmed.
pub open spec fn server_message_seq(line: Seq<char>) -> Seq<char> {
    let ms = server_markers();
    match after_marker(line, ms[0]) {
        Some(m) => m,
        None => match after_marker(line, ms[1]) {
            Some(m) => m,
            None => match after_marker(line, ms[2]) {
                Some(m) => m,
                None => match after_marker(line, ms[3]) {
                    Some(m) => m,
                    None => trim_seq(line),
                },
            },
        },
    }
}

/// What follows the last `marker` in `line`, trimmed, when it is not empty.
fn message_after(line: &Vec<char>, marker: &str) -> (r: Option<String>)
    ensures
        match r {
            Some(m) => after_marker(line@, marker@) == Some(m@),
            None => after_marker(line@, marker@) is None,
        },
{
    let p = chars_of(marker);
    match rfind(line, &p) {
        Some(i) => {
            let n = line.len();
            assert(i + p@.len() <= n);
            let rest = string_of_range(line, i + p.len(), line.len());
            assert(rest@ == line@.skip(i + marker@.len()));
            let m = trim(rest.as_str());
            if m.as_str().is_empty() {
                None
            } else {
                Some(m)
            }
        },
        None => None,
    }
}

/// The message of a console line.
pub fn extract_server_message(line: &str) -> (r: String)
    ensures
        r@ == server_message_seq(line@),
{
    let cs = chars_of(line);
    if let Some(m) = message_after(&cs, "] [Server] ") {
        return m;
    }
    if let Some(m) = message_after(&cs, "] [Server]: ") {
        return m;
    }
    if let Some(m) = message_after(&cs, "[Server] ") {
        return m;
    }
    if let Some(m) = message_after(&cs, "[Server]: ") {
        return m;
    }
    trim(line)
}

// ---------------------------------------------------------------------------
// Schedules
// ---------------------------------------------------------------------------

/// What starts a schedule.
#[derive(PartialEq, Eq, Structural, Clone, Copy)]
pub enum AgentScheduleTrigger {
    Time,
    ConsoleKeyword,
}

/// What a schedule does.
#[derive(PartialEq, Eq, Structural, Clone, Copy)]
pub enum AgentScheduleAction {
    Start,
    Stop,
    Restart,
    Command,
}

/// The time of day of a timed schedule.
pub struct AgentScheduleTime {
    pub hour: u32,
    pub minute: u32,
}

/// A schedule of a server: when it fires and what it does.
pub struct AgentSchedule {
    pub id: String,
    pub is_enabled: bool,
    pub trigger: AgentScheduleTrigger,
    pub action: AgentScheduleAction,
    pub time: AgentScheduleTime,
    pub weekdays: Vec<u32>,
    pub command: String,
    pub keyword: String,
    pub keyword_ignore_case: bool,
    pub keyword_is_regex: bool,
}

/// The value a schedule's `keyword_ignore_case` takes when it is not given.
pub fn default_true() -> (r: bool)
    ensures
        r,
{
    true
}

/// Whether a timed schedule fires at `hour`:`minute` on the weekday numbered from
/// Sunday (1) to Saturday (7): the time must match, and the weekday be listed unless no
/// weekday is.
pub open spec fn fires_at(schedule: AgentSchedule, hour: int, minute: int, weekday: u32) -> bool {
    schedule.time.hour == hour && schedule.time.minute == minute && (schedule.weekdays@.len() == 0
        || schedule.weekdays@.contains(weekday))
}

/// Whether a timed schedule fires at `hour`:`minute` on `weekday` (1 for Sunday to 7 for
/// Saturday).
pub fn should_fire_time_schedule(schedule: &AgentSchedule, hour: u32, minute: u32, weekday: u32) -> (r: bool)
    ensures
        r == fires_at(*schedule, hour as int, minute as int, weekday),
{
    if schedule.time.hour != hour || schedule.time.minute != minute {
        return false;
    }
    if schedule.weekdays.len() == 0 {
        return true;
    }
    let mut i: usize = 0;
    while i < schedule.weekdays.len()
        invariant
            i <= schedule.weekdays.len(),
            schedule.time.hour == hour,
            schedule.time.minute == minute,
            forall|j: int| 0 <= j < i ==> schedule.weekdays@[j] != weekday,
        decreases schedule.weekdays.len() - i,
    {
        if schedule.weekdays[i] == weekday {
            assert(schedule.weekdays@[i as int] == weekday);
            assert(schedule.weekdays@.contains(weekday));
            return true;
        }
        i += 1;
    }
    false
}

/// Whether a schedule is an enabled timed one that fires at `hour`:`minute` on
/// `weekday`.
pub open spec fn due_at(schedule: AgentSchedule, hour: int, minute: int, weekday: u32) -> bool {
    schedule.is_enabled && schedule.trigger == AgentScheduleTrigger::Time && fires_at(schedule, hour, minute, weekday)
}

/// Whether a schedule is an enabled timed one that fires at `hour`:`minute` on
/// `weekday` (1 for Sunday to 7 for Saturday).
pub fn is_due_time_schedule(schedule: &AgentSchedule, hour: u32, minute: u32, weekday: u32) -> (r: bool)
    ensures
        r == due_at(*schedule, hour as int, minute as int, weekday),
{
    schedule.is_enabled && schedule.trigger == AgentScheduleTrigger::Time && should_fire_time_schedule(
        schedule,
        hour,
        minute,
        weekday,
    )
}

/// Whether a schedule is an enabled one that watches the console.
pub open spec fn watches_console(schedule: AgentSchedule) -> bool {
    schedule.is_enabled && schedule.trigger == AgentScheduleTrigger::ConsoleKeyword
}

/// Whether any of a server's schedules watches its console, so that its log is read.
pub fn has_console_schedules(schedules: &Vec<AgentSchedule>) -> (r: bool)
    ensures
        r == exists|k: int| 0 <= k < schedules@.len() && watches_console(#[trigger] schedules@[k]),
{
    let mut i: usize = 0;
    while i < schedules.len()
        invariant
            i <= schedules@.len(),
            forall|k: int| 0 <= k < i ==> !watches_console(#[trigger] schedules@[k]),
        decreases schedules@.len() - i,
    {
        if schedules[i].is_enabled && schedules[i].trigger == AgentScheduleTrigger::ConsoleKeyword {
            assert(watches_console(schedules@[i as int]));
            return true;
        }
        i = i + 1;
    }
    false
}

/// The command a schedule sends: its command trimmed, with `{{line}}`, `{{raw}}` and
/// `{{rawLine}}` replaced by the console line that fired it, if any, trimmed again.
pub open spec fn schedule_command_seq(command: Seq<char>, line: Option<Seq<char>>) -> Seq<char> {
    let c = trim_seq(command);
    match line {
        Some(l) => trim_seq(replace_seq(replace_seq(replace_seq(c, "{{line}}"@, l), "{{raw}}"@, l), "{{rawLine}}"@, l)),
        None => trim_seq(c),
    }
}

/// The command a schedule sends.
pub fn build_agent_schedule_command(schedule: &AgentSchedule, line: Option<&str>) -> (r: String)
    ensures
        r@ == schedule_command_seq(
            schedule.command@,
            match line {
                Some(l) => Some(l@),
                None => None,
            },
        ),
{
    let mut command = trim(schedule.command.as_str());
    if let Some(l) = line {
        proof {
            reveal_strlit("{{line}}");
            reveal_strlit("{{raw}}");
            reveal_strlit("{{rawLine}}");
        }
        let a = replace(command.as_str(), "{{line}}", l);
        let b = replace(a.as_str(), "{{raw}}", l);
        command = replace(b.as_str(), "{{rawLine}}", l);
    }
    trim(command.as_str())
}

/// The pattern tried for a regular-expression keyword: made case-insensitive with
/// `(?i)` in front when the schedule ignores case.
pub open spec fn keyword_pattern(keyword: Seq<char>, ignore_case: bool) -> Seq<char> {
    if ignore_case {
        "(?i)"@ + keyword
    } else {
        keyword
    }
}

/// Whether a console message fires a keyword schedule: never for a blank keyword; by the
/// regular expression when the keyword is one, a refused expression being an error;
/// otherwise by plain search, in lower case when case is ignored.
pub open spec fn spec_matches_keyword(schedule: AgentSchedule, line: Seq<char>) -> Result<bool, CoreErrorView> {
    let keyword = trim_seq(schedule.keyword@);
    if keyword.len() == 0 {
        Ok(false)
    } else if schedule.keyword_is_regex {
        let pattern = keyword_pattern(keyword, schedule.keyword_ignore_case);
        Ok(regex_matches(pattern, line))
    } else if schedule.keyword_ignore_case {
        Ok(contains_seq(lowercase_seq(line), lowercase_seq(keyword)))
    } else {
        Ok(contains_seq(line, keyword))
    }
}

/// Whether a console message fires a keyword schedule.
pub fn matches_keyword(schedule: &AgentSchedule, line: &str) -> (r: Result<bool, CoreError>)
    ensures
        match r {
            Ok(b) => spec_matches_keyword(*schedule, line@) == Ok::<bool, CoreErrorView>(b),
            Err(e) => schedule.keyword_is_regex && e@ == CoreErrorView::Validation(
                "invalid schedule regex: "@ + regex_error_text(
                    keyword_pattern(trim_seq(schedule.keyword@), schedule.keyword_ignore_case),
                ),
            ),
        },
{
    let keyword = trim(schedule.keyword.as_str());
    if keyword.as_str().is_empty() {
        return Ok(false);
    }
    if schedule.keyword_is_regex {
        let pattern = if schedule.keyword_ignore_case {
            concat2("(?i)", keyword.as_str())
        } else {
            keyword
        };
        return match regex_is_match(pattern.as_str(), line) {
            Ok(b) => Ok(b),
            Err(m) => Err(CoreError::Validation(concat2("invalid schedule regex: ", m.as_str()))),
        };
    }
    if schedule.keyword_ignore_case {
        let l = to_lowercase(line);
        let k = to_lowercase(keyword.as_str());
        Ok(contains(l.as_str(), k.as_str()))
    } else {
        Ok(contains(line, keyword.as_str()))
    }
}

// ---------------------------------------------------------------------------
// Console lines
// ---------------------------------------------------------------------------

/// Whether `c` ends a console line.
pub open spec fn is_line_break(c: char) -> bool {
    c == '\n' || c == '\r'
}

/// The complete lines found in `s` and the unfinished text after the last line break:
/// each line break ends the text before it, empty lines being dropped.
pub open spec fn console_split(s: Seq<char>) -> (Seq<Seq<char>>, Seq<char>)
    decreases s.len(),
{
    if s.len() == 0 {
        (Seq::empty(), Seq::empty())
    } else {
        let (lines, cur) = console_split(s.drop_last());
        let c = s.last();
        if is_line_break(c) {
            if cur.len() > 0 {
                (lines.push(cur), Seq::empty())
            } else {
                (lines, cur)
            }
        } else {
            (lines, cur.push(c))
        }
    }
}

/// The text of `lines` run together.
pub open spec fn flatten(lines: Seq<Seq<char>>) -> Seq<char>
    decreases lines.len(),
{
    if lines.len() == 0 {
        Seq::empty()
    } else {
        flatten(lines.drop_last()) + lines.last()
    }
}

/// The characters of `s` that are not line breaks.
pub open spec fn without_breaks(s: Seq<char>) -> Seq<char>
    decreases s.len(),
{
    if s.len() == 0 {
        Seq::empty()
    } else if is_line_break(s.last()) {
        without_breaks(s.drop_last())
    } else {
        without_breaks(s.drop_last()).push(s.last())
    }
}

/// Splitting console text loses nothing but line breaks: the lines and the unfinished
/// text, run together, are the text without its line breaks; every line is non-empty and,
/// like the unfinished text, holds no line break.
pub proof fn lemma_console_split_keeps_text(s: Seq<char>)
    ensures
        flatten(console_split(s).0) + console_split(s).1 == without_breaks(s),
        forall|k: int| 0 <= k < console_split(s).0.len() ==> #[trigger] console_split(s).0[k].len() > 0,
        forall|k: int, j: int|
            0 <= k < console_split(s).0.len() && 0 <= j < console_split(s).0[k].len() ==> !is_line_break(
                #[trigger] console_split(s).0[k][j],
            ),
        forall|j: int| 0 <= j < console_split(s).1.len() ==> !is_line_break(#[trigger] console_split(s).1[j]),
    decreases s.len(),
{
    if s.len() > 0 {
        lemma_console_split_keeps_text(s.drop_last());
        let (lines, cur) = console_split(s.drop_last());
        let c = s.last();
        assert(s.drop_last().push(c) =~= s);
        if is_line_break(c) {
            if cur.len() > 0 {
                assert(lines.push(cur).drop_last() =~= lines);
                assert(flatten(lines.push(cur)) == flatten(lines) + cur);
                assert(flatten(lines) + cur + Seq::<char>::empty() =~= flatten(lines) + cur);
            } else {
                assert(without_breaks(s.drop_last()) + Seq::<char>::empty() =~= without_breaks(s.drop_last()));
            }
        } else {
            assert(flatten(lines) + cur.push(c) =~= (flatten(lines) + cur).push(c));
        }
    } else {
        assert(without_breaks(s) =~= Seq::<char>::empty());
    }
}

/// The background agent's memory: the minute it last looked at, the last firing of each
/// timed schedule, where it last read each server's log, and each server's unfinished
/// console text.
pub struct BackgroundAgent {
    pub last_minute_token: Option<String>,
    pub last_fire_tokens: Registry<String>,
    pub last_local_log_file_path: Registry<String>,
    pub last_local_log_offset: Registry<u64>,
    pub console_buffers: Registry<String>,
}

impl BackgroundAgent {
    /// Well-formedness: each registry holds every key once.
    pub open spec fn wf(&self) -> bool {
        &&& self.last_fire_tokens.wf()
        &&& self.last_local_log_file_path.wf()
        &&& self.last_local_log_offset.wf()
        &&& self.console_buffers.wf()
    }

    /// The unfinished console text of a server.
    pub open spec fn buffer_of(&self, server_id: Seq<char>) -> Seq<char> {
        if self.console_buffers.map().contains_key(server_id) {
            self.console_buffers.map()[server_id]@
        } else {
            Seq::empty()
        }
    }

    /// An agent that has seen nothing yet.
    pub fn new() -> (r: BackgroundAgent)
        ensures
            r.wf(),
            r.last_minute_token is None,
            r.last_fire_tokens.map() == Map::<Seq<char>, String>::empty(),
            r.last_local_log_file_path.map() == Map::<Seq<char>, String>::empty(),
            r.last_local_log_offset.map() == Map::<Seq<char>, u64>::empty(),
            r.console_buffers.map() == Map::<Seq<char>, String>::empty(),
    {
        BackgroundAgent {
            last_minute_token: None,
            last_fire_tokens: Registry::new(),
            last_local_log_file_path: Registry::new(),
            last_local_log_offset: Registry::new(),
            console_buffers: Registry::new(),
        }
    }

    /// Adds a chunk of a server's console output to its unfinished text and takes out the
    /// complete lines; what follows the last line break stays for the next chunk.
    pub fn consume_console_lines(&mut self, server_id: &str, chunk: &str) -> (r: Vec<String>)
        requires
            old(self).wf(),
        ensures
            final(self).wf(),
            strings_view(r@) == console_split(old(self).buffer_of(server_id@) + chunk@).0,
            final(self).buffer_of(server_id@) == console_split(old(self).buffer_of(server_id@) + chunk@).1,
            final(self).console_buffers.map().dom() == old(self).console_buffers.map().dom().insert(server_id@),
            forall|k: Seq<char>| k != server_id@ ==> final(self).buffer_of(k) == old(self).buffer_of(k),
            final(self).last_minute_token == old(self).last_minute_token,
            final(self).last_fire_tokens == old(self).last_fire_tokens,
            final(self).last_local_log_file_path == old(self).last_local_log_file_path,
            final(self).last_local_log_offset == old(self).last_local_log_offset,
    {
        let mut text = match self.console_buffers.get(server_id) {
            Some(b) => owned(b.as_str()),
            None => String::new(),
        };
        append(&mut text, chunk);
        let cs = chars_of(text.as_str());
        let mut lines: Vec<String> = Vec::new();
        let mut current = String::new();
        let mut i: usize = 0;
        while i < cs.len()
            invariant
                i <= cs.len(),
                (strings_view(lines@), current@) == console_split(cs@.take(i as int)),
            decreases cs.len() - i,
        {
            let c = cs[i];
            assert(cs@.take(i + 1).drop_last() == cs@.take(i as int));
            assert(cs@.take(i + 1).last() == c);
            if c == '\n' || c == '\r' {
                if !current.as_str().is_empty() {
                    let ghost before = lines@;
                    lines.push(current);
                    assert(strings_view(lines@) =~= strings_view(before).push(current@));
                    current = String::new();
                }
            } else {
                push_char(&mut current, c);
            }
            i += 1;
        }
        assert(cs@.take(cs.len() as int) == cs@);
        let ghost key = server_id@;
        self.console_buffers.insert(owned(server_id), current);
        assert(self.console_buffers.map().dom() =~= old(self).console_buffers.map().dom().insert(key));
        lines
    }

    /// Starts a new minute for the timed schedules: false, changing nothing, when
    /// `token` names the minute already started.
    pub fn begin_minute(&mut self, token: &str) -> (r: bool)
        ensures
            r == !(old(self).last_minute_token matches Some(t) && t@ == token@),
            final(self).last_minute_token matches Some(t) && t@ == token@,
            !r ==> final(self).last_minute_token == old(self).last_minute_token,
            final(self).last_fire_tokens == old(self).last_fire_tokens,
            final(self).last_local_log_file_path == old(self).last_local_log_file_path,
            final(self).last_local_log_offset == old(self).last_local_log_offset,
            final(self).console_buffers == old(self).console_buffers,
    {
        let same = match &self.last_minute_token {
            Some(t) => crate::text::str_eq(t.as_str(), token),
            None => false,
        };
        if same {
            return false;
        }
        self.last_minute_token = Some(owned(token));
        true
    }

    /// Whether a timed schedule may still fire in a minute: no firing of it in that
    /// minute is recorded.
    pub open spec fn may_fire(&self, schedule_id: Seq<char>, minute_token: Seq<char>) -> bool {
        !(self.last_fire_tokens.map().contains_key(schedule_id)
            && self.last_fire_tokens.map()[schedule_id]@ == fire_token_seq(schedule_id, minute_token))
    }

    /// Whether a timed schedule fires for the minute `minute_token` on this tick: its
    /// firing is recorded, and a schedule fires once per minute.
    pub fn claim_time_firing(&mut self, schedule_id: &str, minute_token: &str) -> (r: bool)
        requires
            old(self).wf(),
        ensures
            final(self).wf(),
            r == old(self).may_fire(schedule_id@, minute_token@),
            !final(self).may_fire(schedule_id@, minute_token@),
            r ==> final(self).last_fire_tokens.map().contains_key(schedule_id@)
                && final(self).last_fire_tokens.map()[schedule_id@]@ == fire_token_seq(schedule_id@, minute_token@)
                && forall|k: Seq<char>| k != schedule_id@ ==> final(self).last_fire_tokens.map().contains_key(k)
                    == old(self).last_fire_tokens.map().contains_key(k) && (old(self).last_fire_tokens.map().contains_key(k)
                    ==> final(self).last_fire_tokens.map()[k] == old(self).last_fire_tokens.map()[k]),
            !r ==> final(self).last_fire_tokens == old(self).last_fire_tokens,
            final(self).last_minute_token == old(self).last_minute_token,
            final(self).last_local_log_file_path == old(self).last_local_log_file_path,
            final(self).last_local_log_offset == old(self).last_local_log_offset,
            final(self).console_buffers == old(self).console_buffers,
    {
        let token = fire_token(schedule_id, minute_token);
        let seen = match self.last_fire_tokens.get(schedule_id) {
            Some(t) => crate::text::str_eq(t.as_str(), token.as_str()),
            None => false,
        };
        if seen {
            return false;
        }
        self.last_fire_tokens.insert(owned(schedule_id), token);
        true
    }

    /// Records where a server's log was last read.
    pub fn record_log_position(&mut self, server_id: &str, file_path: Option<String>, next_offset: u64)
        requires
            old(self).wf(),
        ensures
            final(self).wf(),
            final(self).last_local_log_file_path.map().dom() == old(self).last_local_log_file_path.map().dom().insert(server_id@),
            text_of(final(self).last_local_log_file_path.map()[server_id@]) == match file_path {
                Some(p) => p@,
                None => Seq::<char>::empty(),
            },
            forall|k: Seq<char>|
                k != server_id@ && old(self).last_local_log_file_path.map().contains_key(k)
                    ==> final(self).last_local_log_file_path.map()[k] == old(self).last_local_log_file_path.map()[k],
            final(self).last_local_log_offset.map() == old(self).last_local_log_offset.map().insert(server_id@, next_offset),
            final(self).last_minute_token == old(self).last_minute_token,
            final(self).last_fire_tokens == old(self).last_fire_tokens,
            final(self).console_buffers == old(self).console_buffers,
    {
        let path = match file_path {
            Some(p) => p,
            None => String::new(),
        };
        self.last_local_log_file_path.insert(owned(server_id), path);
        self.last_local_log_offset.insert(owned(server_id), next_offset);
    }
}

/// The text of a string (a spec helper for map values).
pub open spec fn text_of(s: String) -> Seq<char> {
    s@
}

/// The token of one firing of a timed schedule in one minute.
pub open spec fn fire_token_seq(schedule_id: Seq<char>, minute_token: Seq<char>) -> Seq<char> {
    schedule_id + "-"@ + minute_token
}

/// The token of one firing of a timed schedule in one minute.
pub fn fire_token(schedule_id: &str, minute_token: &str) -> (r: String)
    ensures
        r@ == fire_token_seq(schedule_id@, minute_token@),
{
    crate::text::concat3(schedule_id, "-", minute_token)
}

/// The token of a minute: year, month, day, hour and minute in decimal, joined by `-`.
pub open spec fn minute_token_seq(year: int, month: int, day: int, hour: int, minute: int) -> Seq<char> {
    int_decimal(year) + "-"@ + int_decimal(month) + "-"@ + int_decimal(day) + "-"@ + int_decimal(hour) + "-"@
        + int_decimal(minute)
}

/// The token of a minute.
pub fn minute_token(year: i32, month: u32, day: u32, hour: u32, minute: u32) -> (r: String)
    ensures
        r@ == minute_token_seq(year as int, month as int, day as int, hour as int, minute as int),
{
    let mut out = i64_to_decimal(year as i64);
    append(&mut out, "-");
    append(&mut out, i64_to_decimal(month as i64).as_str());
    append(&mut out, "-");
    append(&mut out, i64_to_decimal(day as i64).as_str());
    append(&mut out, "-");
    append(&mut out, i64_to_decimal(hour as i64).as_str());
    append(&mut out, "-");
    append(&mut out, i64_to_decimal(minute as i64).as_str());
    out
}


/// The lines and unfinished text after reading `s`, starting from `lines` and `cur`.
pub open spec fn console_from(lines: Seq<Seq<char>>, cur: Seq<char>, s: Seq<char>) -> (Seq<Seq<char>>, Seq<char>)
    decreases s.len(),
{
    if s.len() == 0 {
        (lines, cur)
    } else {
        let (l, u) = console_from(lines, cur, s.drop_last());
        let c = s.last();
        if is_line_break(c) {
            if u.len() > 0 {
                (l.push(u), Seq::empty())
            } else {
                (l, u)
            }
        } else {
            (l, u.push(c))
        }
    }
}

/// Splitting from the start is reading from no lines and no text.
proof fn lemma_console_split_from_start(s: Seq<char>)
    ensures
        console_split(s) == console_from(Seq::empty(), Seq::empty(), s),
    decreases s.len(),
{
    if s.len() > 0 {
        lemma_console_split_from_start(s.drop_last());
    }
}

/// Reading `a` then `b` is reading `a + b`.
proof fn lemma_console_from_concat(lines: Seq<Seq<char>>, cur: Seq<char>, a: Seq<char>, b: Seq<char>)
    ensures
        console_from(lines, cur, a + b) == console_from(console_from(lines, cur, a).0, console_from(lines, cur, a).1, b),
    decreases b.len(),
{
    if b.len() == 0 {
        assert(a + b =~= a);
    } else {
        assert((a + b).drop_last() =~= a + b.drop_last());
        assert((a + b).last() == b.last());
        lemma_console_from_concat(lines, cur, a, b.drop_last());
    }
}

/// The lines already found stay in front of those found next.
proof fn lemma_console_from_prefix(lines: Seq<Seq<char>>, cur: Seq<char>, s: Seq<char>)
    ensures
        console_from(lines, cur, s).0 == lines + console_from(Seq::empty(), cur, s).0,
        console_from(lines, cur, s).1 == console_from(Seq::empty(), cur, s).1,
    decreases s.len(),
{
    if s.len() == 0 {
        assert(lines + Seq::<Seq<char>>::empty() =~= lines);
    } else {
        lemma_console_from_prefix(lines, cur, s.drop_last());
        let (l0, u0) = console_from(Seq::empty(), cur, s.drop_last());
        assert((lines + l0).push(u0) =~= lines + l0.push(u0));
    }
}

/// Text without line breaks read from nothing is all unfinished.
proof fn lemma_console_from_plain(s: Seq<char>)
    requires
        forall|j: int| 0 <= j < s.len() ==> !is_line_break(#[trigger] s[j]),
    ensures
        console_from(Seq::empty(), Seq::empty(), s) == (Seq::<Seq<char>>::empty(), s),
    decreases s.len(),
{
    if s.len() > 0 {
        lemma_console_from_plain(s.drop_last());
        assert(!is_line_break(s[s.len() - 1]));
        assert(s.drop_last().push(s.last()) =~= s);
    } else {
        assert(s =~= Seq::<char>::empty());
    }
}

/// Console output read in two chunks, the unfinished text of the first carried over to
/// the second, gives the same lines, and leaves the same unfinished text, as reading it
/// all at once.
pub proof fn lemma_console_chunks_compose(buffer: Seq<char>, a: Seq<char>, c: Seq<char>)
    ensures
        console_split(buffer + a).0 + console_split(console_split(buffer + a).1 + c).0 == console_split(buffer + a + c).0,
        console_split(console_split(buffer + a).1 + c).1 == console_split(buffer + a + c).1,
{
    let (l1, r1) = console_split(buffer + a);
    lemma_console_split_from_start(buffer + a);
    lemma_console_split_from_start(buffer + a + c);
    lemma_console_split_from_start(r1 + c);
    lemma_console_from_concat(Seq::empty(), Seq::empty(), buffer + a, c);
    lemma_console_from_prefix(l1, r1, c);
    lemma_console_split_keeps_text(buffer + a);
    lemma_console_from_plain(r1);
    lemma_console_from_concat(Seq::empty(), Seq::empty(), r1, c);
}


// ---------------------------------------------------------------------------
// The launchd agent that keeps the background agent running
// ---------------------------------------------------------------------------

/// The launchd label of the background agent.
pub const AGENT_LABEL: &'static str = "org.dcstudio.swiftcraftserverlauncher.scsl-agent";

/// The launchd domain of the user whose id `uid_output` prints (`gui/<uid>`).
pub open spec fn launchctl_domain_seq(uid_output: Seq<char>) -> Seq<char> {
    "gui/"@ + trim_seq(uid_output)
}

/// The launchd domain of the user whose id the `id -u` output holds.
pub fn launchctl_domain(uid_output: &str) -> (r: String)
    ensures
        r@ == launchctl_domain_seq(uid_output@),
{
    let uid = trim(uid_output);
    concat2("gui/", uid.as_str())
}

/// The launchd service of the agent in `domain` (`<domain>/<label>`).
pub fn agent_service_target(domain: &str) -> (r: String)
    ensures
        r@ == domain@ + "/"@ + AGENT_LABEL@,
{
    crate::text::concat3(domain, "/", AGENT_LABEL)
}

/// Where the agent's property list is kept under the home directory `home`:
/// `Library/LaunchAgents/<label>.plist`.
pub fn agent_plist_path(home: &str) -> (r: String)
    ensures
        r@ == crate::paths::join_seq(
            crate::paths::join_seq(crate::paths::join_seq(home@, "Library"@), "LaunchAgents"@),
            AGENT_LABEL@ + ".plist"@,
        ),
{
    let dir = crate::paths::path_join2(home, "Library", "LaunchAgents");
    let file = concat2(AGENT_LABEL, ".plist");
    crate::paths::path_join(dir.as_str(), file.as_str())
}

/// Where the agent writes its standard output (`stdout` true) or standard error,
/// under the working directory `working_path`.
pub fn agent_log_path(working_path: &str, stdout: bool) -> (r: String)
    ensures
        r@ == crate::paths::join_seq(
            crate::paths::join_seq(working_path@, "logs"@),
            if stdout { "scsl-agent.stdout.log"@ } else { "scsl-agent.stderr.log"@ },
        ),
{
    if stdout {
        crate::paths::path_join2(working_path, "logs", "scsl-agent.stdout.log")
    } else {
        crate::paths::path_join2(working_path, "logs", "scsl-agent.stderr.log")
    }
}

/// The property list head, up to the label.
pub const PLIST_HEAD: &'static str = "<?xml version=\"1.0\" encoding=\"UTF-8\"?>\n<!DOCTYPE plist PUBLIC \"-//Apple//DTD PLIST 1.0//EN\" \"http://www.apple.com/DTDs/PropertyList-1.0.dtd\">\n<plist version=\"1.0\">\n<dict>\n  <key>Label</key>\n  <string>";
/// From the label to the executable.
pub const PLIST_PROGRAM: &'static str = "</string>\n  <key>ProgramArguments</key>\n  <array>\n    <string>";
/// From the executable to the standard output path.
pub const PLIST_STDOUT: &'static str = "</string>\n    <string>agent</string>\n    <string>run</string>\n  </array>\n  <key>RunAtLoad</key>\n  <true/>\n  <key>KeepAlive</key>\n  <true/>\n  <key>StandardOutPath</key>\n  <string>";
/// From the standard output path to the standard error path.
pub const PLIST_STDERR: &'static str = "</string>\n  <key>StandardErrorPath</key>\n  <string>";
/// The property list tail.
pub const PLIST_TAIL: &'static str = "</string>\n</dict>\n</plist>\n";

/// The property list that runs `<executable> agent run` at login and keeps it alive,
/// with its output sent to the two log paths; the three paths are XML-escaped.
pub open spec fn launch_agent_plist_seq(executable: Seq<char>, stdout_path: Seq<char>, stderr_path: Seq<char>) -> Seq<char> {
    PLIST_HEAD@ + AGENT_LABEL@ + PLIST_PROGRAM@ + xml_escape_seq(executable) + PLIST_STDOUT@
        + xml_escape_seq(stdout_path) + PLIST_STDERR@ + xml_escape_seq(stderr_path) + PLIST_TAIL@
}

/// The launchd property list of the background agent.
pub fn launch_agent_plist(executable: &str, stdout_path: &str, stderr_path: &str) -> (r: String)
    ensures
        r@ == launch_agent_plist_seq(executable@, stdout_path@, stderr_path@),
{
    let mut out = owned(PLIST_HEAD);
    append(&mut out, AGENT_LABEL);
    append(&mut out, PLIST_PROGRAM);
    let exe = xml_escape(executable);
    append(&mut out, exe.as_str());
    append(&mut out, PLIST_STDOUT);
    let so = xml_escape(stdout_path);
    append(&mut out, so.as_str());
    append(&mut out, PLIST_STDERR);
    let se = xml_escape(stderr_path);
    append(&mut out, se.as_str());
    append(&mut out, PLIST_TAIL);
    out
}

/// How long a schedule waits before it acts again, in milliseconds.
pub const SCHEDULE_DEBOUNCE_MS: u64 = 500;

/// Whether a schedule may act now, given the milliseconds since it last acted (none
/// when it never has): at least `SCHEDULE_DEBOUNCE_MS` must have passed.
pub fn schedule_may_act(elapsed_ms: Option<u64>) -> (r: bool)
    ensures
        r == match elapsed_ms {
            None => true,
            Some(ms) => ms >= SCHEDULE_DEBOUNCE_MS,
        },
{
    match elapsed_ms {
        None => true,
        Some(ms) => ms >= SCHEDULE_DEBOUNCE_MS,
    }
}

} // verus!
