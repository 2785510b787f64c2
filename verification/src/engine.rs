//! The command-execution engine of autonomous mode.
//!
//! The engine itself never touches the filesystem, spawns a process or
//! opens a connection: [`CommandExecutor::execute`] either settles a
//! command outright (scratch memory, planning, reporting, parsing) or
//! names the one [`Effect`] the command needs, and
//! [`continue_command`] turns the effect's [`Outcome`] into the
//! command's result — or into a follow-up effect, as when an edit has
//! read the file and now wants the rewritten text written back.  The
//! caller performs each effect and reports what happened; every command's
//! outcome is recorded on its own, and no failure stops the batch.

use vstd::prelude::*;
use vstd::string::StrSliceExecFns;
use vstd::string::StringExecFns;

use crate::commands::Command;
use crate::commands::CommandResult;
use crate::commands::FileInfo;
use crate::commands::SearchMatch;
use crate::commands::DataFormat;
use crate::json::JsonV;
use crate::json::JsonValue;
use crate::json::parse_json_text;
use crate::text::contains_seq;
use crate::text::joined_views;
use crate::text::lemma_joined_views;
use crate::text::lines_of;
use crate::text::replace_str;
use crate::text::spec_dec;
use crate::text::spec_replace;
use crate::text::str_contains;
use crate::text::str_eq;
use crate::text::trim_str;
use crate::text::u64_to_string;
use crate::text::views_of;

verus! {

/// The one outside action a command needs, handed to the caller to
/// perform.
pub enum Effect {
    ReadFile { path: String },
    WriteFile { path: String, content: String },
    DeleteFile { path: String },
    RunProcess { command: String, args: Vec<String> },
    ListDir { path: String },
    RunSearch { pattern: String, path: Option<String>, file_type: Option<String> },
    FetchUrl { url: String },
    /// A fresh unique identifier for a new plan.
    FreshId,
}

/// What performing an [`Effect`] yielded, as the caller reports it.
pub enum Outcome {
    /// Text came back, or a failure message: a file's contents, a search's
    /// raw output, a fetched body.
    Text(Result<String, String>),
    /// The action either completed or failed: a write or a delete.
    Unit(Result<(), String>),
    /// A process ran to completion.
    Proc { ok: bool, stdout: String, stderr: String },
    /// A process could not be started.
    ProcFailed(String),
    /// A directory listing, or a failure message.
    Listing(Result<Vec<FileInfo>, String>),
    /// The fresh identifier asked for.
    Id(String),
}

/// Where a command stands: settled, or waiting for one effect.
pub enum Step {
    Done(CommandResult),
    Need(Effect),
}

/// The scratch memory of autonomous mode, plus the dispatch that decides
/// each command.
pub struct CommandExecutor {
    memory: Vec<(String, String)>,
}

/// The value stored under `key`, if any.
pub open spec fn mem_lookup(m: Seq<(String, String)>, key: Seq<char>) -> Option<Seq<char>>
    decreases m.len(),
{
    if m.len() == 0 {
        None
    } else if m.first().0@ == key {
        Some(m.first().1@)
    } else {
        mem_lookup(m.drop_first(), key)
    }
}

impl CommandExecutor {
    /// The stored key/value pairs.
    pub closed spec fn mem(self) -> Seq<(String, String)> {
        self.memory@
    }

    /// No key is stored twice.
    pub open spec fn wf(self) -> bool {
        forall|i: int, j: int|
            0 <= i < j < self.mem().len() ==> #[trigger] self.mem()[i].0@ != #[trigger] self.mem(
            )[j].0@
    }

    /// A fresh executor with empty scratch memory.
    pub fn new() -> (r: CommandExecutor)
        ensures
            r.mem().len() == 0,
            r.wf(),
    {
        CommandExecutor { memory: Vec::new() }
    }

    /// The index of `key`, if it is stored.
    fn find_key(&self, key: &str) -> (r: Option<usize>)
        ensures
            match r {
                Some(i) => i < self.mem().len() && self.mem()[i as int].0@ == key@,
                None => forall|i: int|
                    0 <= i < self.mem().len() ==> #[trigger] self.mem()[i].0@ != key@,
            },
    {
        let n = self.memory.len();
        let mut i: usize = 0;
        while i < n
            invariant
                0 <= i <= n,
                n == self.mem().len(),
                forall|j: int| 0 <= j < i ==> #[trigger] self.mem()[j].0@ != key@,
            decreases n - i,
        {
            if str_eq(self.memory[i].0.as_str(), key) {
                return Some(i);
            }
            i = i + 1;
        }
        None
    }

    /// Stores `value` under `key`, replacing any previous value.
    fn remember(&mut self, key: &str, value: String)
        requires
            old(self).wf(),
        ensures
            final(self).wf(),
            mem_lookup(final(self).mem(), key@) == Some(value@),
            forall|k: Seq<char>|
                k != key@ ==> #[trigger] mem_lookup(final(self).mem(), k) == mem_lookup(
                    old(self).mem(),
                    k,
                ),
    {
        match self.find_key(key) {
            Some(i) => {
                let ghost old_mem = self.mem();
                let pair = (key.to_owned(), value);
                self.memory.set(i, pair);
                proof {
                    lemma_mem_update(old_mem, self.mem(), i as int, key@);
                }
            },
            None => {
                let ghost old_mem = self.mem();
                let pair = (key.to_owned(), value);
                self.memory.push(pair);
                proof {
                    lemma_mem_append(old_mem, self.mem(), key@);
                }
            },
        }
    }

    /// The value stored under `key`, if any.
    fn recall(&self, key: &str) -> (r: Option<String>)
        ensures
            match r {
                Some(v) => mem_lookup(self.mem(), key@) == Some(v@),
                None => mem_lookup(self.mem(), key@) is None,
            },
    {
        let n = self.memory.len();
        assert(self.mem().skip(0) =~= self.mem());
        let mut i: usize = 0;
        while i < n
            invariant
                0 <= i <= n,
                n == self.mem().len(),
                mem_lookup(self.mem(), key@) == mem_lookup(self.mem().skip(i as int), key@),
            decreases n - i,
        {
            proof {
                assert(self.mem().skip(i as int).drop_first() =~= self.mem().skip(i + 1));
                assert(self.mem().skip(i as int).first() == self.mem()[i as int]);
            }
            if str_eq(self.memory[i].0.as_str(), key) {
                return Some(self.memory[i].1.clone());
            }
            i = i + 1;
        }
        assert(self.mem().skip(n as int) =~= Seq::<(String, String)>::empty());
        None
    }

    /// Decides one command: commands over the executor's own state and
    /// pure text settle immediately; every other command names the one
    /// effect it needs.  Only a remember command changes the executor.
    pub fn execute(&mut self, command: &Command) -> (r: Step)
        requires
            old(self).wf(),
        ensures
            final(self).wf(),
            !(command matches Command::Remember { .. }) ==> *final(self) == *old(self),
            (command matches Command::Read { path } ==> r matches Step::Need(
                Effect::ReadFile { path: p },
            ) && p@ == path@),
            (command matches Command::Write { path, content } ==> r matches Step::Need(
                Effect::WriteFile { path: p, content: c },
            ) && p@ == path@ && c@ == content@),
            (command matches Command::Edit { path, .. } ==> r matches Step::Need(
                Effect::ReadFile { path: p },
            ) && p@ == path@),
            (command matches Command::Delete { path } ==> r matches Step::Need(
                Effect::DeleteFile { path: p },
            ) && p@ == path@),
            (command matches Command::Exec { command: c0, args } ==> r matches Step::Need(
                Effect::RunProcess { command: c1, args: a1 },
            ) && c1@ == c0@ && views_of(a1@) == views_of(args@)),
            (command matches Command::List { path, .. } ==> r matches Step::Need(
                Effect::ListDir { path: p },
            ) && p@ == path@),
            (command matches Command::Search { pattern, path, file_type } ==> r matches
                Step::Need(Effect::RunSearch { pattern: p1, path: p2, file_type: f1 }) && p1@
                == pattern@ && crate::commands::opt_view(p2) == crate::commands::opt_view(*path)
                && crate::commands::opt_view(f1) == crate::commands::opt_view(*file_type)),
            (command matches Command::Think { .. } ==> r == Step::Done(CommandResult::Empty)),
            (command matches Command::Plan { .. } ==> r matches Step::Need(Effect::FreshId)),
            (command matches Command::UpdatePlan { .. } ==> r == Step::Done(
                CommandResult::Empty,
            )),
            (command matches Command::Status { .. } ==> r == Step::Done(CommandResult::Empty)),
            (command matches Command::Remember { key, value } ==> {
                &&& mem_lookup(final(self).mem(), key@) == Some(value@)
                &&& (forall|k: Seq<char>|
                    k != key@ ==> #[trigger] mem_lookup(final(self).mem(), k) == mem_lookup(
                        old(self).mem(),
                        k,
                    ))
                &&& (r matches Step::Done(CommandResult::Success(m)) && m@ == "Remembered: "@
                    + key@)
            }),
            (command matches Command::Recall { key } ==> match mem_lookup(
                old(self).mem(),
                key@,
            ) {
                Some(v) => r matches Step::Done(CommandResult::Success(m)) && m@ == v,
                None => r matches Step::Done(CommandResult::Error(m)) && m@
                    == "No memory found for key: "@ + key@,
            }),
            (command matches Command::WebFetch { url, .. } ==> r matches Step::Need(
                Effect::FetchUrl { url: u },
            ) && u@ == url@),
            (command matches Command::Parse { content, format } ==> match format {
                DataFormat::Json => match json_parse_rendering(content@) {
                    Ok(t) => r matches Step::Done(CommandResult::Value(m)) && m@ == t,
                    Err(e) => r matches Step::Done(CommandResult::Error(m)) && m@
                        == "Failed to parse JSON: "@ + e,
                },
                DataFormat::Yaml => match yaml_parse_rendering(content@) {
                    Ok(t) => r matches Step::Done(CommandResult::Value(m)) && m@ == t,
                    Err(e) => r matches Step::Done(CommandResult::Error(m)) && m@
                        == "Failed to parse YAML: "@ + e,
                },
                DataFormat::Toml => match toml_parse_rendering(content@) {
                    Ok(t) => r matches Step::Done(CommandResult::Success(m)) && m@ == t,
                    Err(e) => r matches Step::Done(CommandResult::Error(m)) && m@
                        == "Failed to parse TOML: "@ + e,
                },
                DataFormat::Xml => r matches Step::Done(CommandResult::Error(m)) && m@
                    == "XML parsing not implemented"@,
            }),
            (command matches Command::Report { title, sections } ==> r matches Step::Done(
                CommandResult::Success(m),
            ) && m@ == spec_report_text(title@, crate::commands::section_views(sections@))),
    {
        match command {
            Command::Read { path } => Step::Need(Effect::ReadFile { path: path.clone() }),
            Command::Write { path, content } => Step::Need(
                Effect::WriteFile { path: path.clone(), content: content.clone() },
            ),
            Command::Edit { path, .. } => Step::Need(Effect::ReadFile { path: path.clone() }),
            Command::Delete { path } => Step::Need(Effect::DeleteFile { path: path.clone() }),
            Command::Exec { command, args } => Step::Need(
                Effect::RunProcess {
                    command: command.clone(),
                    args: crate::text::clone_strings(args),
                },
            ),
            Command::List { path, .. } => Step::Need(Effect::ListDir { path: path.clone() }),
            Command::Search { pattern, path, file_type } => Step::Need(
                Effect::RunSearch {
                    pattern: pattern.clone(),
                    path: clone_opt(path),
                    file_type: clone_opt(file_type),
                },
            ),
            Command::Think { .. } => Step::Done(CommandResult::Empty),
            Command::Plan { .. } => Step::Need(Effect::FreshId),
            Command::UpdatePlan { .. } => Step::Done(CommandResult::Empty),
            Command::Status { .. } => Step::Done(CommandResult::Empty),
            Command::Remember { key, value } => {
                self.remember(key.as_str(), value.clone());
                let mut m = String::from_str("Remembered: ");
                m.append(key.as_str());
                Step::Done(CommandResult::Success(m))
            },
            Command::Recall { key } => match self.recall(key.as_str()) {
                Some(v) => Step::Done(CommandResult::Success(v)),
                None => {
                    let mut m = String::from_str("No memory found for key: ");
                    m.append(key.as_str());
                    Step::Done(CommandResult::Error(m))
                },
            },
            Command::WebFetch { url, .. } => Step::Need(Effect::FetchUrl { url: url.clone() }),
            Command::Parse { content, format } => {
                match format {
                    DataFormat::Json => match parse_json_rendered(content.as_str()) {
                        Ok(t) => Step::Done(CommandResult::Value(t)),
                        Err(e) => {
                            let mut m = String::from_str("Failed to parse JSON: ");
                            m.append(e.as_str());
                            Step::Done(CommandResult::Error(m))
                        },
                    },
                    DataFormat::Yaml => match parse_yaml_rendered(content.as_str()) {
                        Ok(t) => Step::Done(CommandResult::Value(t)),
                        Err(e) => {
                            let mut m = String::from_str("Failed to parse YAML: ");
                            m.append(e.as_str());
                            Step::Done(CommandResult::Error(m))
                        },
                    },
                    DataFormat::Toml => match parse_toml_rendered(content.as_str()) {
                        Ok(t) => Step::Done(CommandResult::Success(t)),
                        Err(e) => {
                            let mut m = String::from_str("Failed to parse TOML: ");
                            m.append(e.as_str());
                            Step::Done(CommandResult::Error(m))
                        },
                    },
                    DataFormat::Xml => Step::Done(
                        CommandResult::Error(String::from_str("XML parsing not implemented")),
                    ),
                }
            },
            Command::Report { title, sections } => Step::Done(
                CommandResult::Success(report_text(title.as_str(), sections)),
            ),
        }
    }
}

fn clone_opt(o: &Option<String>) -> (r: Option<String>)
    ensures
        r == *o,
{
    match o {
        Some(s) => Some(s.clone()),
        None => None,
    }
}

proof fn lemma_mem_update(
    old_mem: Seq<(String, String)>,
    new_mem: Seq<(String, String)>,
    i: int,
    key: Seq<char>,
)
    requires
        0 <= i < old_mem.len(),
        old_mem[i].0@ == key,
        new_mem.len() == old_mem.len(),
        new_mem[i].0@ == key,
        forall|j: int| 0 <= j < old_mem.len() && j != i ==> new_mem[j] == old_mem[j],
        forall|a: int, b: int|
            0 <= a < b < old_mem.len() ==> #[trigger] old_mem[a].0@ != #[trigger] old_mem[b].0@,
    ensures
        mem_lookup(new_mem, key) == Some(new_mem[i].1@),
        forall|k: Seq<char>|
            k != key ==> #[trigger] mem_lookup(new_mem, k) == mem_lookup(old_mem, k),
    decreases old_mem.len(),
{
    if i == 0 {
        assert forall|k: Seq<char>| k != key implies #[trigger] mem_lookup(new_mem, k)
            == mem_lookup(old_mem, k) by {
            assert(new_mem.drop_first() =~= old_mem.drop_first());
        }
    } else {
        assert forall|a: int, b: int|
            0 <= a < b < old_mem.drop_first().len() implies #[trigger] old_mem.drop_first(
        )[a].0@ != #[trigger] old_mem.drop_first()[b].0@ by {
            assert(old_mem[a + 1].0@ != old_mem[b + 1].0@);
        }
        assert forall|j: int|
            0 <= j < old_mem.drop_first().len() && j != i - 1 implies new_mem.drop_first()[j]
            == old_mem.drop_first()[j] by {
            assert(new_mem[j + 1] == old_mem[j + 1]);
        }
        lemma_mem_update(old_mem.drop_first(), new_mem.drop_first(), i - 1, key);
        assert(new_mem.first() == old_mem.first());
        assert(old_mem.first().0@ != key) by {
            assert(old_mem[0].0@ != old_mem[i].0@);
        }
        assert(new_mem.drop_first()[i - 1] == new_mem[i]);
        assert(mem_lookup(new_mem, key) == mem_lookup(new_mem.drop_first(), key));
        assert forall|k: Seq<char>| k != key implies #[trigger] mem_lookup(new_mem, k)
            == mem_lookup(old_mem, k) by {
            if new_mem.first().0@ == k {
            } else {
                assert(mem_lookup(new_mem, k) == mem_lookup(new_mem.drop_first(), k));
                assert(mem_lookup(old_mem, k) == mem_lookup(old_mem.drop_first(), k));
                assert(mem_lookup(new_mem.drop_first(), k) == mem_lookup(
                    old_mem.drop_first(),
                    k,
                ));
            }
        }
    }
}

proof fn lemma_mem_append(
    old_mem: Seq<(String, String)>,
    new_mem: Seq<(String, String)>,
    key: Seq<char>,
)
    requires
        new_mem.len() == old_mem.len() + 1,
        forall|j: int| 0 <= j < old_mem.len() ==> new_mem[j] == old_mem[j],
        new_mem.last().0@ == key,
        forall|j: int| 0 <= j < old_mem.len() ==> #[trigger] old_mem[j].0@ != key,
    ensures
        mem_lookup(new_mem, key) == Some(new_mem.last().1@),
        forall|k: Seq<char>|
            k != key ==> #[trigger] mem_lookup(new_mem, k) == mem_lookup(old_mem, k),
    decreases old_mem.len(),
{
    if old_mem.len() == 0 {
        let e: Seq<(String, String)> = Seq::empty();
        assert forall|k: Seq<char>| k != key implies #[trigger] mem_lookup(new_mem, k)
            == mem_lookup(old_mem, k) by {
            assert(new_mem.drop_first() =~= e);
            assert(mem_lookup(e, k) is None);
            assert(mem_lookup(old_mem, k) is None);
        }
    } else {
        assert(new_mem.drop_first().last() == new_mem.last());
        assert(new_mem.drop_first().len() == old_mem.drop_first().len() + 1);
        assert forall|j: int| 0 <= j < old_mem.drop_first().len() implies new_mem.drop_first()[j]
            == old_mem.drop_first()[j] by {
            assert(new_mem[j + 1] == old_mem[j + 1]);
        }
        assert forall|j: int|
            0 <= j < old_mem.drop_first().len() implies #[trigger] old_mem.drop_first()[j].0@
            != key by {
            assert(old_mem[j + 1].0@ != key);
        }
        lemma_mem_append(old_mem.drop_first(), new_mem.drop_first(), key);
        assert(new_mem.first() == old_mem.first());
        assert(old_mem.first().0@ != key) by {
            assert(old_mem[0].0@ != key);
        }
        assert(mem_lookup(new_mem, key) == mem_lookup(new_mem.drop_first(), key));
        assert forall|k: Seq<char>| k != key implies #[trigger] mem_lookup(new_mem, k)
            == mem_lookup(old_mem, k) by {
            if new_mem.first().0@ == k {
            } else {
                assert(mem_lookup(new_mem, k) == mem_lookup(new_mem.drop_first(), k));
                assert(mem_lookup(old_mem, k) == mem_lookup(old_mem.drop_first(), k));
                assert(mem_lookup(new_mem.drop_first(), k) == mem_lookup(
                    old_mem.drop_first(),
                    k,
                ));
            }
        }
    }
}

/// The report text of a report command: a heading, then each section
/// under its own heading.
pub open spec fn spec_report_text(title: Seq<char>, sections: Seq<(Seq<char>, Seq<char>)>) -> Seq<
    char,
> {
    "# "@ + title + "\n\n"@ + spec_sections_text(sections)
}

pub open spec fn spec_sections_text(sections: Seq<(Seq<char>, Seq<char>)>) -> Seq<char>
    decreases sections.len(),
{
    if sections.len() == 0 {
        Seq::empty()
    } else {
        spec_sections_text(sections.drop_last()) + "## "@ + sections.last().0 + "\n\n"@
            + sections.last().1 + "\n\n"@
    }
}

fn report_text(title: &str, sections: &Vec<crate::commands::Section>) -> (r: String)
    ensures
        r@ == spec_report_text(title@, crate::commands::section_views(sections@)),
{
    let mut out = String::from_str("# ");
    out.append(title);
    out.append("\n\n");
    let n = sections.len();
    let ghost sv = crate::commands::section_views(sections@);
    assert(sv.len() == n);
    let mut i: usize = 0;
    assert(sv.take(0) =~= Seq::<(Seq<char>, Seq<char>)>::empty());
    while i < n
        invariant
            0 <= i <= n,
            n == sections@.len(),
            sv == crate::commands::section_views(sections@),
            sv.len() == n,
            out@ == "# "@ + title@ + "\n\n"@ + spec_sections_text(sv.take(i as int)),
        decreases n - i,
    {
        out.append("## ");
        out.append(sections[i].title.as_str());
        out.append("\n\n");
        out.append(sections[i].content.as_str());
        out.append("\n\n");
        proof {
            assert(sv.take(i + 1).drop_last() =~= sv.take(i as int));
            assert(sv.take(i + 1).last() == sv[i as int]);
            assert(sv[i as int] == (sections@[i as int].title@, sections@[i as int].content@));
        }
        i = i + 1;
    }
    assert(sv.take(n as int) =~= sv);
    out
}

/// Whether a listing entry survives the pattern filter.
pub open spec fn keep_file(f: FileInfo, pat: Option<Seq<char>>) -> bool {
    match pat {
        None => true,
        Some(p) => contains_seq(f.path@, p),
    }
}

/// The listing entries whose path holds the pattern, in order; with no
/// pattern, all of them.
pub open spec fn spec_filter_files(fs: Seq<FileInfo>, pat: Option<Seq<char>>) -> Seq<FileInfo>
    decreases fs.len(),
{
    if fs.len() == 0 {
        Seq::empty()
    } else if keep_file(fs.last(), pat) {
        spec_filter_files(fs.drop_last(), pat).push(fs.last())
    } else {
        spec_filter_files(fs.drop_last(), pat)
    }
}

fn filter_files(files: Vec<FileInfo>, pattern: &Option<String>) -> (r: Vec<FileInfo>)
    ensures
        r@ == spec_filter_files(files@, crate::commands::opt_view(*pattern)),
{
    let ghost pat = crate::commands::opt_view(*pattern);
    let n = files.len();
    let mut out: Vec<FileInfo> = Vec::new();
    let mut i: usize = 0;
    assert(spec_filter_files(files@.take(0), pat) =~= Seq::<FileInfo>::empty()) by {
        assert(files@.take(0) =~= Seq::<FileInfo>::empty());
    }
    while i < n
        invariant
            0 <= i <= n,
            n == files@.len(),
            out@ == spec_filter_files(files@.take(i as int), pat),
            pat == crate::commands::opt_view(*pattern),
        decreases n - i,
    {
        proof {
            assert(files@.take(i + 1).drop_last() =~= files@.take(i as int));
            assert(files@.take(i + 1).last() == files@[i as int]);
        }
        let keep = match pattern {
            None => true,
            Some(p) => str_contains(files[i].path.as_str(), p.as_str()),
        };
        if keep {
            let f = FileInfo {
                path: files[i].path.clone(),
                is_dir: files[i].is_dir,
                size: files[i].size,
            };
            assert(f == files@[i as int]);
            out.push(f);
        }
        i = i + 1;
    }
    assert(files@.take(n as int) =~= files@);
    out
}

/// How one output line of the search subprocess reads as a match
/// record: a JSON object tagged `"type": "match"` whose `data` carries
/// the file path, the line number and the matched line's text, which is
/// kept trimmed.  Any other line contributes nothing.
pub open spec fn spec_match_record(l: Seq<char>) -> Option<(Seq<char>, u64, Seq<char>)> {
    match crate::json::spec_json(l) {
        Some(JsonV::VObject(fs)) => if crate::commands::jstr_field(fs, "type"@) == Some(
            "match"@,
        ) {
            match crate::commands::jfield(fs, "data"@) {
                Some(JsonV::VObject(dfs)) => {
                    let file = match crate::commands::jfield(dfs, "path"@) {
                        Some(JsonV::VObject(pfs)) => crate::commands::jstr_field(pfs, "text"@),
                        _ => None,
                    };
                    let line_no = match crate::commands::jfield(dfs, "line_number"@) {
                        Some(JsonV::VNumber(n)) => Some(n),
                        _ => None,
                    };
                    let content = match crate::commands::jfield(dfs, "lines"@) {
                        Some(JsonV::VObject(lfs)) => crate::commands::jstr_field(lfs, "text"@),
                        _ => None,
                    };
                    match (file, line_no, content) {
                        (Some(f), Some(n), Some(c)) => if n <= usize::MAX as u64 {
                            Some((f, n, crate::text::trim_right(crate::text::trim_left(c))))
                        } else {
                            None
                        },
                        _ => None,
                    }
                },
                _ => None,
            }
        } else {
            None
        },
        _ => None,
    }
}

/// The match records of a sequence of output lines, in order.
pub open spec fn matches_of_lines(ls: Seq<Seq<char>>) -> Seq<(Seq<char>, u64, Seq<char>)>
    decreases ls.len(),
{
    if ls.len() == 0 {
        Seq::empty()
    } else {
        matches_of_lines(ls.drop_last()) + match spec_match_record(ls.last()) {
            Some(m) => seq![m],
            None => Seq::empty(),
        }
    }
}

/// The `(file, line, content)` views of extracted matches.
pub open spec fn match_views(ms: Seq<SearchMatch>) -> Seq<(Seq<char>, u64, Seq<char>)> {
    ms.map_values(|m: SearchMatch| (m.file@, m.line as u64, m.content@))
}

/// Reads one output line of the search subprocess, exactly as
/// [`spec_match_record`] reads it.
fn match_record_of(line: &str) -> (r: Option<SearchMatch>)
    ensures
        match r {
            Some(m) => spec_match_record(line@) == Some((m.file@, m.line as u64, m.content@)),
            None => spec_match_record(line@) is None,
        },
{
    let v = match parse_json_text(line) {
        Some(v) => v,
        None => {
            return None;
        },
    };
    let fs = match &v {
        JsonValue::JObject(fs) => fs,
        _ => {
            proof {
                crate::json::lemma_jv_shape(v);
            }
            return None;
        },
    };
    let is_match_record = match crate::commands::get_str_field(fs, "type") {
        Some(t) => str_eq(t.as_str(), "match"),
        None => false,
    };
    if !is_match_record {
        return None;
    }
    let dfs = match crate::commands::get_field(fs, "data") {
        Some(d) => match d {
            JsonValue::JObject(dfs) => dfs,
            _ => {
                proof {
                    crate::json::lemma_jv_shape(*d);
                }
                return None;
            },
        },
        None => {
            return None;
        },
    };
    let file = match crate::commands::get_field(dfs, "path") {
        Some(p) => match p {
            JsonValue::JObject(pfs) => crate::commands::get_str_field(pfs, "text"),
            _ => {
                proof {
                    crate::json::lemma_jv_shape(*p);
                }
                None
            },
        },
        None => None,
    };
    let line_no = match crate::commands::get_field(dfs, "line_number") {
        Some(l) => match l {
            JsonValue::JNumber(n) => Some(*n),
            _ => {
                proof {
                    crate::json::lemma_jv_shape(*l);
                }
                None
            },
        },
        None => None,
    };
    let content = match crate::commands::get_field(dfs, "lines") {
        Some(l) => match l {
            JsonValue::JObject(lfs) => crate::commands::get_str_field(lfs, "text"),
            _ => {
                proof {
                    crate::json::lemma_jv_shape(*l);
                }
                None
            },
        },
        None => None,
    };
    match (file, line_no, content) {
        (Some(file), Some(n), Some(content)) => {
            if n <= usize::MAX as u64 {
                Some(SearchMatch { file, line: n as usize, content: trim_str(content.as_str()) })
            } else {
                None
            }
        },
        _ => None,
    }
}

/// Reads the JSON lines the search subprocess printed, keeping exactly
/// the match records, in order, as [`matches_of_lines`] reads them.
fn parse_search_output(out: &str) -> (r: Vec<SearchMatch>)
    ensures
        match_views(r@) == matches_of_lines(crate::text::spec_lines(out@)),
{
    let ghost sl = crate::text::spec_lines(out@);
    let lines = lines_of(out);
    let mut matches: Vec<SearchMatch> = Vec::new();
    let n = lines.len();
    let mut i: usize = 0;
    assert(matches_of_lines(sl.take(0)) =~= Seq::<(Seq<char>, u64, Seq<char>)>::empty()) by {
        assert(sl.take(0) =~= Seq::<Seq<char>>::empty());
    }
    assert(match_views(matches@) =~= Seq::<(Seq<char>, u64, Seq<char>)>::empty());
    while i < n
        invariant
            0 <= i <= n,
            n == lines@.len(),
            sl == crate::text::spec_lines(out@),
            sl.len() == n,
            forall|k: int| 0 <= k < n ==> lines@[k]@ == #[trigger] sl[k],
            match_views(matches@) == matches_of_lines(sl.take(i as int)),
        decreases n - i,
    {
        proof {
            assert(sl.take(i + 1).drop_last() =~= sl.take(i as int));
            assert(sl.take(i + 1).last() == sl[i as int]);
        }
        match match_record_of(lines[i].as_str()) {
            Some(m) => {
                let ghost prev = matches@;
                matches.push(m);
                proof {
                    assert(matches@.drop_last() =~= prev);
                    assert(match_views(matches@) =~= match_views(prev).push(
                        (matches@.last().file@, matches@.last().line as u64,
                        matches@.last().content@),
                    ));
                    assert(match_views(matches@) =~= matches_of_lines(sl.take(i + 1)));
                }
            },
            None => {
                proof {
                    assert(matches_of_lines(sl.take(i + 1)) =~= matches_of_lines(
                        sl.take(i as int),
                    ));
                }
            },
        }
        i = i + 1;
    }
    assert(sl.take(n as int) =~= sl);
    matches
}

/// Settles a command once its effect's outcome is in: most commands turn
/// the outcome straight into their result; an edit that has just read the
/// file asks for one more effect, the write-back of the rewritten text.
/// An outcome of the wrong shape for the command settles as `Empty`.
pub fn continue_command(command: &Command, outcome: Outcome) -> (r: Step)
    ensures
        (command matches Command::Read { path } ==> match outcome {
            Outcome::Text(Ok(c)) => r matches Step::Done(CommandResult::Success(m)) && m == c,
            Outcome::Text(Err(e)) => r matches Step::Done(CommandResult::Error(m)) && m@
                == "Failed to read "@ + path@ + ": "@ + e@,
            _ => r == Step::Done(CommandResult::Empty),
        }),
        (command matches Command::Write { path, .. } ==> match outcome {
            Outcome::Unit(Ok(())) => r matches Step::Done(CommandResult::Success(m)) && m@
                == "Successfully wrote to "@ + path@,
            Outcome::Unit(Err(e)) => r matches Step::Done(CommandResult::Error(m)) && m@
                == "Failed to write to "@ + path@ + ": "@ + e@,
            _ => r == Step::Done(CommandResult::Empty),
        }),
        (command matches Command::Edit { path, pattern, replacement } ==> match outcome {
            Outcome::Text(Ok(c)) => r matches Step::Need(
                Effect::WriteFile { path: p, content: w },
            ) && p@ == path@ && w@ == spec_replace(c@, pattern@, replacement@),
            Outcome::Text(Err(e)) => r matches Step::Done(CommandResult::Error(m)) && m@
                == "Failed to read "@ + path@ + ": "@ + e@,
            Outcome::Unit(Ok(())) => r matches Step::Done(CommandResult::Success(m)) && m@
                == "Successfully edited "@ + path@,
            Outcome::Unit(Err(e)) => r matches Step::Done(CommandResult::Error(m)) && m@
                == "Failed to write to "@ + path@ + ": "@ + e@,
            _ => r == Step::Done(CommandResult::Empty),
        }),
        (command matches Command::Delete { path } ==> match outcome {
            Outcome::Unit(Ok(())) => r matches Step::Done(CommandResult::Success(m)) && m@
                == "Successfully deleted "@ + path@,
            Outcome::Unit(Err(e)) => r matches Step::Done(CommandResult::Error(m)) && m@
                == "Failed to delete "@ + path@ + ": "@ + e@,
            _ => r == Step::Done(CommandResult::Empty),
        }),
        (command matches Command::Exec { .. } ==> match outcome {
            Outcome::Proc { ok, stdout, stderr } => {
                if ok {
                    r matches Step::Done(CommandResult::Success(m)) && m == stdout
                } else {
                    r matches Step::Done(CommandResult::Error(m)) && m@ == "Command failed: "@
                        + stderr@
                }
            },
            Outcome::ProcFailed(e) => r matches Step::Done(CommandResult::Error(m)) && m@
                == "Failed to execute command: "@ + e@,
            _ => r == Step::Done(CommandResult::Empty),
        }),
        (command matches Command::List { path, pattern } ==> match outcome {
            Outcome::Listing(Ok(files)) => r matches Step::Done(CommandResult::FileList(v)) && v@
                == spec_filter_files(files@, crate::commands::opt_view(*pattern)),
            Outcome::Listing(Err(e)) => r matches Step::Done(CommandResult::Error(m)) && m@
                == "Failed to list directory "@ + path@ + ": "@ + e@,
            _ => r == Step::Done(CommandResult::Empty),
        }),
        (command matches Command::Search { .. } ==> match outcome {
            Outcome::Text(Ok(out)) => r matches Step::Done(CommandResult::SearchResults(ms))
                && match_views(ms@) == matches_of_lines(crate::text::spec_lines(out@)),
            Outcome::Text(Err(e)) => r matches Step::Done(CommandResult::Error(m)) && m@
                == "Search failed: "@ + e@,
            _ => r == Step::Done(CommandResult::Empty),
        }),
        (command matches Command::WebFetch { url, extract } ==> match outcome {
            Outcome::Text(Ok(text)) => match extract {
                Some(x) => r matches Step::Done(CommandResult::Success(m)) && m@
                    == "Fetched from "@ + url@ + ": "@ + x@,
                None => r matches Step::Done(CommandResult::Success(m)) && m == text,
            },
            Outcome::Text(Err(e)) => r matches Step::Done(CommandResult::Error(m)) && m@
                == "Failed to fetch "@ + url@ + ": "@ + e@,
            _ => r == Step::Done(CommandResult::Empty),
        }),
        (command matches Command::Plan { .. } ==> match outcome {
            Outcome::Id(s) => r matches Step::Done(CommandResult::Success(m)) && m == s,
            _ => r == Step::Done(CommandResult::Empty),
        }),
        ((command matches Command::Think { .. } || command matches Command::UpdatePlan { .. }
            || command matches Command::Remember { .. } || command matches Command::Recall {
            ..
        } || command matches Command::Parse { .. } || command matches Command::Status { .. }
            || command matches Command::Report { .. }) ==> r == Step::Done(
            CommandResult::Empty,
        )),
{
    match command {
        Command::Read { path } => match outcome {
            Outcome::Text(Ok(c)) => Step::Done(CommandResult::Success(c)),
            Outcome::Text(Err(e)) => Step::Done(
                CommandResult::Error(fail_msg("Failed to read ", path.as_str(), e.as_str())),
            ),
            _ => Step::Done(CommandResult::Empty),
        },
        Command::Write { path, .. } => match outcome {
            Outcome::Unit(Ok(())) => {
                let mut m = String::from_str("Successfully wrote to ");
                m.append(path.as_str());
                Step::Done(CommandResult::Success(m))
            },
            Outcome::Unit(Err(e)) => Step::Done(
                CommandResult::Error(fail_msg("Failed to write to ", path.as_str(), e.as_str())),
            ),
            _ => Step::Done(CommandResult::Empty),
        },
        Command::Edit { path, pattern, replacement } => match outcome {
            Outcome::Text(Ok(c)) => {
                let rewritten = replace_str(c.as_str(), pattern.as_str(), replacement.as_str());
                Step::Need(Effect::WriteFile { path: path.clone(), content: rewritten })
            },
            Outcome::Text(Err(e)) => Step::Done(
                CommandResult::Error(fail_msg("Failed to read ", path.as_str(), e.as_str())),
            ),
            Outcome::Unit(Ok(())) => {
                let mut m = String::from_str("Successfully edited ");
                m.append(path.as_str());
                Step::Done(CommandResult::Success(m))
            },
            Outcome::Unit(Err(e)) => Step::Done(
                CommandResult::Error(fail_msg("Failed to write to ", path.as_str(), e.as_str())),
            ),
            _ => Step::Done(CommandResult::Empty),
        },
        Command::Delete { path } => match outcome {
            Outcome::Unit(Ok(())) => {
                let mut m = String::from_str("Successfully deleted ");
                m.append(path.as_str());
                Step::Done(CommandResult::Success(m))
            },
            Outcome::Unit(Err(e)) => Step::Done(
                CommandResult::Error(fail_msg("Failed to delete ", path.as_str(), e.as_str())),
            ),
            _ => Step::Done(CommandResult::Empty),
        },
        Command::Exec { .. } => match outcome {
            Outcome::Proc { ok, stdout, stderr } => {
                if ok {
                    Step::Done(CommandResult::Success(stdout))
                } else {
                    let mut m = String::from_str("Command failed: ");
                    m.append(stderr.as_str());
                    Step::Done(CommandResult::Error(m))
                }
            },
            Outcome::ProcFailed(e) => {
                let mut m = String::from_str("Failed to execute command: ");
                m.append(e.as_str());
                Step::Done(CommandResult::Error(m))
            },
            _ => Step::Done(CommandResult::Empty),
        },
        Command::List { path, pattern } => match outcome {
            Outcome::Listing(Ok(files)) => Step::Done(
                CommandResult::FileList(filter_files(files, pattern)),
            ),
            Outcome::Listing(Err(e)) => Step::Done(
                CommandResult::Error(
                    fail_msg("Failed to list directory ", path.as_str(), e.as_str()),
                ),
            ),
            _ => Step::Done(CommandResult::Empty),
        },
        Command::Search { .. } => match outcome {
            Outcome::Text(Ok(out)) => Step::Done(
                CommandResult::SearchResults(parse_search_output(out.as_str())),
            ),
            Outcome::Text(Err(e)) => {
                let mut m = String::from_str("Search failed: ");
                m.append(e.as_str());
                Step::Done(CommandResult::Error(m))
            },
            _ => Step::Done(CommandResult::Empty),
        },
        Command::WebFetch { url, extract } => match outcome {
            Outcome::Text(Ok(text)) => match extract {
                Some(x) => Step::Done(
                    CommandResult::Success(fail_msg("Fetched from ", url.as_str(), x.as_str())),
                ),
                None => Step::Done(CommandResult::Success(text)),
            },
            Outcome::Text(Err(e)) => Step::Done(
                CommandResult::Error(fail_msg("Failed to fetch ", url.as_str(), e.as_str())),
            ),
            _ => Step::Done(CommandResult::Empty),
        },
        Command::Plan { .. } => match outcome {
            Outcome::Id(s) => Step::Done(CommandResult::Success(s)),
            _ => Step::Done(CommandResult::Empty),
        },
        _ => Step::Done(CommandResult::Empty),
    }
}

/// `prefix`, the subject, `": "`, and the detail — the shape every
/// failure message of the engine takes.
fn fail_msg(prefix: &str, subject: &str, detail: &str) -> (r: String)
    ensures
        r@ == prefix@ + subject@ + ": "@ + detail@,
{
    let mut m = String::from_str(prefix);
    m.append(subject);
    m.append(": ");
    m.append(detail);
    m
}

/// The report line for one listing entry.
pub open spec fn file_line(f: FileInfo) -> Seq<char> {
    "  "@ + (if f.is_dir {
        "\u{1F4C1}"@
    } else {
        "\u{1F4C4}"@
    }) + " "@ + f.path@
}

pub open spec fn file_lines_view(fs: Seq<FileInfo>) -> Seq<Seq<char>> {
    fs.map_values(|f: FileInfo| file_line(f))
}

/// The report line for one search match.
pub open spec fn match_line(m: SearchMatch) -> Seq<char> {
    "  "@ + m.file@ + ":"@ + spec_dec(m.line as nat) + " - "@ + m.content@
}

pub open spec fn match_lines_view(ms: Seq<SearchMatch>) -> Seq<Seq<char>> {
    ms.map_values(|m: SearchMatch| match_line(m))
}

/// The lines one command's result contributes to the batch report: a
/// check or cross with the message, a capped preview for listings and
/// search results with an `... and N more` suffix, the rendered value of
/// a parse, and nothing at all for an empty result.
pub open spec fn result_lines(r: CommandResult) -> Seq<Seq<char>> {
    match r {
        CommandResult::Success(m) => seq!["\u{2713} "@ + m@],
        CommandResult::Error(m) => seq!["\u{2717} "@ + m@],
        CommandResult::FileList(files) => {
            let shown = if files@.len() > 10 {
                files@.take(10)
            } else {
                files@
            };
            seq!["Found "@ + spec_dec(files@.len()) + " files"@] + file_lines_view(shown) + (
            if files@.len() > 10 {
                seq!["  ... and "@ + spec_dec((files@.len() - 10) as nat) + " more"@]
            } else {
                Seq::empty()
            })
        },
        CommandResult::SearchResults(ms) => {
            let shown = if ms@.len() > 5 {
                ms@.take(5)
            } else {
                ms@
            };
            seq!["Found "@ + spec_dec(ms@.len()) + " matches"@] + match_lines_view(shown) + (
            if ms@.len() > 5 {
                seq!["  ... and "@ + spec_dec((ms@.len() - 5) as nat) + " more"@]
            } else {
                Seq::empty()
            })
        },
        CommandResult::Value(v) => seq!["Parsed: "@ + v@],
        CommandResult::Empty => Seq::empty(),
    }
}

/// The lines of a whole batch report, in command order.
pub open spec fn all_result_lines(rs: Seq<CommandResult>) -> Seq<Seq<char>>
    decreases rs.len(),
{
    if rs.len() == 0 {
        Seq::empty()
    } else {
        all_result_lines(rs.drop_last()) + result_lines(rs.last())
    }
}

fn count_line(prefix: &str, count: usize, suffix: &str) -> (r: String)
    ensures
        r@ == prefix@ + spec_dec(count as nat) + suffix@,
{
    let mut m = String::from_str(prefix);
    let d = u64_to_string(count as u64);
    m.append(d.as_str());
    m.append(suffix);
    m
}

fn result_lines_exec(r: &CommandResult) -> (out: Vec<String>)
    ensures
        views_of(out@) == result_lines(*r),
{
    let mut out: Vec<String> = Vec::new();
    assert(views_of(out@) =~= Seq::<Seq<char>>::empty());
    match r {
        CommandResult::Success(m) => {
            let mut line = String::from_str("\u{2713} ");
            line.append(m.as_str());
            out.push(line);
            assert(views_of(out@) =~= result_lines(*r));
        },
        CommandResult::Error(m) => {
            let mut line = String::from_str("\u{2717} ");
            line.append(m.as_str());
            out.push(line);
            assert(views_of(out@) =~= result_lines(*r));
        },
        CommandResult::FileList(files) => {
            let n = files.len();
            out.push(count_line("Found ", n, " files"));
            let cap: usize = if n > 10 {
                10
            } else {
                n
            };
            let ghost shown = if files@.len() > 10 {
                files@.take(10)
            } else {
                files@
            };
            assert(shown =~= files@.take(cap as int));
            let mut k: usize = 0;
            while k < cap
                invariant
                    0 <= k <= cap,
                    cap <= n == files@.len(),
                    shown == files@.take(cap as int),
                    views_of(out@) =~= seq!["Found "@ + spec_dec(files@.len()) + " files"@]
                        + file_lines_view(shown.take(k as int)),
                decreases cap - k,
            {
                let mut line = String::from_str("  ");
                if files[k].is_dir {
                    line.append("\u{1F4C1}");
                } else {
                    line.append("\u{1F4C4}");
                }
                line.append(" ");
                line.append(files[k].path.as_str());
                assert(line@ == file_line(files@[k as int]));
                let ghost prev_out = out@;
                out.push(line);
                proof {
                    assert(out@.drop_last() =~= prev_out);
                    assert(shown.take(k + 1).drop_last() =~= shown.take(k as int));
                    assert(shown.take(k + 1).last() == files@[k as int]);
                    assert(file_lines_view(shown.take(k + 1)) =~= file_lines_view(
                        shown.take(k as int),
                    ).push(file_line(files@[k as int])));
                    assert(views_of(out@) =~= views_of(out@.drop_last()).push(out@.last()@));
                    assert(views_of(out@) =~= seq!["Found "@ + spec_dec(files@.len())
                        + " files"@] + file_lines_view(shown.take(k + 1)));
                }
                k = k + 1;
            }
            assert(shown.take(cap as int) =~= shown);
            if n > 10 {
                out.push(count_line("  ... and ", n - 10, " more"));
                proof {
                    assert(views_of(out@) =~= views_of(out@.drop_last()).push(out@.last()@));
                }
            }
            assert(views_of(out@) =~= result_lines(*r));
        },
        CommandResult::SearchResults(ms) => {
            let n = ms.len();
            out.push(count_line("Found ", n, " matches"));
            let cap: usize = if n > 5 {
                5
            } else {
                n
            };
            let ghost shown = if ms@.len() > 5 {
                ms@.take(5)
            } else {
                ms@
            };
            assert(shown =~= ms@.take(cap as int));
            let mut k: usize = 0;
            while k < cap
                invariant
                    0 <= k <= cap,
                    cap <= n == ms@.len(),
                    shown == ms@.take(cap as int),
                    views_of(out@) =~= seq!["Found "@ + spec_dec(ms@.len()) + " matches"@]
                        + match_lines_view(shown.take(k as int)),
                decreases cap - k,
            {
                let mut line = String::from_str("  ");
                line.append(ms[k].file.as_str());
                line.append(":");
                let d = u64_to_string(ms[k].line as u64);
                line.append(d.as_str());
                line.append(" - ");
                line.append(ms[k].content.as_str());
                assert(line@ == match_line(ms@[k as int]));
                let ghost prev_out = out@;
                out.push(line);
                proof {
                    assert(out@.drop_last() =~= prev_out);
                    assert(shown.take(k + 1).drop_last() =~= shown.take(k as int));
                    assert(shown.take(k + 1).last() == ms@[k as int]);
                    assert(match_lines_view(shown.take(k + 1)) =~= match_lines_view(
                        shown.take(k as int),
                    ).push(match_line(ms@[k as int])));
                    assert(views_of(out@) =~= views_of(out@.drop_last()).push(out@.last()@));
                    assert(views_of(out@) =~= seq!["Found "@ + spec_dec(ms@.len())
                        + " matches"@] + match_lines_view(shown.take(k + 1)));
                }
                k = k + 1;
            }
            assert(shown.take(cap as int) =~= shown);
            if n > 5 {
                out.push(count_line("  ... and ", n - 5, " more"));
                proof {
                    assert(views_of(out@) =~= views_of(out@.drop_last()).push(out@.last()@));
                }
            }
            assert(views_of(out@) =~= result_lines(*r));
        },
        CommandResult::Value(v) => {
            let mut line = String::from_str("Parsed: ");
            line.append(v.as_str());
            out.push(line);
            assert(views_of(out@) =~= result_lines(*r));
        },
        CommandResult::Empty => {
            assert(views_of(out@) =~= result_lines(*r));
        },
    }
    out
}

/// Renders a whole batch's results as the report an invocation returns:
/// every command's lines in order, joined with newlines.
pub fn render_results(results: &Vec<CommandResult>) -> (r: String)
    ensures
        r@ == joined_views(all_result_lines(results@)),
{
    let n = results.len();
    let mut lines: Vec<String> = Vec::new();
    let mut i: usize = 0;
    assert(all_result_lines(results@.take(0)) =~= Seq::<Seq<char>>::empty()) by {
        assert(results@.take(0) =~= Seq::<CommandResult>::empty());
    }
    assert(views_of(lines@) =~= Seq::<Seq<char>>::empty());
    while i < n
        invariant
            0 <= i <= n,
            n == results@.len(),
            views_of(lines@) == all_result_lines(results@.take(i as int)),
        decreases n - i,
    {
        proof {
            assert(results@.take(i + 1).drop_last() =~= results@.take(i as int));
            assert(results@.take(i + 1).last() == results@[i as int]);
        }
        let ghost before = lines@;
        let mut more = result_lines_exec(&results[i]);
        let ghost more_view = more@;
        lines.append(&mut more);
        proof {
            assert(lines@ == before + more_view);
            assert(views_of(lines@) =~= views_of(before) + views_of(more_view));
        }
        i = i + 1;
    }
    assert(results@.take(n as int) =~= results@);
    let joined = crate::text::join_lines(&lines);
    proof {
        lemma_joined_views(lines@);
    }
    joined
}

/// What `serde_json` renders a successfully parsed document as, or the
/// parse error's text.  A function of the input text alone.
pub uninterp spec fn json_parse_rendering(s: Seq<char>) -> Result<Seq<char>, Seq<char>>;

/// Relies on `serde_json::from_str::<serde_json::Value>` and the `Debug`
/// rendering of the parsed value; both depend on the input text alone.
#[verifier::external_body]
fn parse_json_rendered(content: &str) -> (r: Result<String, String>)
    ensures
        match r {
            Ok(t) => json_parse_rendering(content@) matches Ok(v) && v == t@,
            Err(e) => json_parse_rendering(content@) matches Err(v) && v == e@,
        },
{
    match serde_json::from_str::<serde_json::Value>(content) {
        Ok(v) => Ok(format!("{:?}", v)),
        Err(e) => Err(e.to_string()),
    }
}

/// What `serde_yaml` renders a successfully parsed document as, or the
/// parse error's text.  A function of the input text alone.
pub uninterp spec fn yaml_parse_rendering(s: Seq<char>) -> Result<Seq<char>, Seq<char>>;

/// Relies on `serde_yaml::from_str::<serde_json::Value>` and the `Debug`
/// rendering of the parsed value; both depend on the input text alone.
#[verifier::external_body]
fn parse_yaml_rendered(content: &str) -> (r: Result<String, String>)
    ensures
        match r {
            Ok(t) => yaml_parse_rendering(content@) matches Ok(v) && v == t@,
            Err(e) => yaml_parse_rendering(content@) matches Err(v) && v == e@,
        },
{
    match serde_yaml::from_str::<serde_json::Value>(content) {
        Ok(v) => Ok(format!("{:?}", v)),
        Err(e) => Err(e.to_string()),
    }
}

/// What `toml` renders a successfully parsed document as, or the parse
/// error's text.  A function of the input text alone.
pub uninterp spec fn toml_parse_rendering(s: Seq<char>) -> Result<Seq<char>, Seq<char>>;

/// Relies on `toml::from_str::<toml::Value>` and the `Debug` rendering of
/// the parsed value; both depend on the input text alone.
#[verifier::external_body]
fn parse_toml_rendered(content: &str) -> (r: Result<String, String>)
    ensures
        match r {
            Ok(t) => toml_parse_rendering(content@) matches Ok(v) && v == t@,
            Err(e) => toml_parse_rendering(content@) matches Err(v) && v == e@,
        },
{
    match toml::from_str::<toml::Value>(content) {
        Ok(v) => Ok(format!("{:?}", v)),
        Err(e) => Err(e.to_string()),
    }
}

} // verus!
