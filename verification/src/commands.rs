//! The command language a worker in autonomous mode reads out of a
//! model's reply: a batch is a JSON object `{"commands": [...]}` whose
//! elements each carry a `"cmd"` tag naming one of a closed set of
//! operations.  A reply that does not read as a batch is not an error:
//! the worker hands the text through unchanged.

use vstd::prelude::*;

use crate::json::JsonV;
use crate::json::JsonValue;
use crate::json::jv;
use crate::json::jv_fields;
use crate::json::jv_list;
use crate::json::lemma_jv_shape;
use crate::json::parse_json_text;
use crate::json::spec_json;
use crate::text::str_eq;

verus! {

/// The progress states a plan task can be moved to.
#[derive(PartialEq, Eq, Structural, Clone, Copy, Debug)]
pub enum TaskStatus {
    Pending,
    InProgress,
    Completed,
    Failed,
}

/// The formats the parse command understands.
#[derive(PartialEq, Eq, Structural, Clone, Copy, Debug)]
pub enum DataFormat {
    Json,
    Yaml,
    Toml,
    Xml,
}

/// The severity of a status command.
#[derive(PartialEq, Eq, Structural, Clone, Copy, Debug)]
pub enum StatusLevel {
    Info,
    Warning,
    Error,
    Success,
}

/// One titled section of a report command.
#[derive(Debug)]
pub struct Section {
    pub title: String,
    pub content: String,
}

/// One directory entry of a listing result.
#[derive(Debug)]
pub struct FileInfo {
    pub path: String,
    pub is_dir: bool,
    pub size: u64,
}

/// One match of a search result.
#[derive(Debug)]
pub struct SearchMatch {
    pub file: String,
    pub line: usize,
    pub content: String,
}

/// The result of one executed command.  A parsed value is carried as its
/// rendered text; a command with nothing to say yields `Empty`, which
/// contributes no line to the batch report.
#[derive(Debug)]
pub enum CommandResult {
    Success(String),
    Error(String),
    FileList(Vec<FileInfo>),
    SearchResults(Vec<SearchMatch>),
    Value(String),
    Empty,
}

/// One structured operation of a command batch.
#[derive(Debug)]
pub enum Command {
    Read { path: String },
    Write { path: String, content: String },
    Edit { path: String, pattern: String, replacement: String },
    Delete { path: String },
    Exec { command: String, args: Vec<String> },
    List { path: String, pattern: Option<String> },
    Search { pattern: String, path: Option<String>, file_type: Option<String> },
    Think { reasoning: String },
    Plan { tasks: Vec<String> },
    UpdatePlan { plan_id: String, task_id: String, status: TaskStatus },
    Remember { key: String, value: String },
    Recall { key: String },
    WebFetch { url: String, extract: Option<String> },
    Parse { content: String, format: DataFormat },
    Status { message: String, level: StatusLevel },
    Report { title: String, sections: Vec<Section> },
}

/// An ordered batch of commands, all from one model reply.
#[derive(Debug)]
pub struct CommandBatch {
    pub commands: Vec<Command>,
}

/// The character-level view of a [`Command`], used by the specifications
/// of batch reading and execution.
pub enum CommandView {
    Read { path: Seq<char> },
    Write { path: Seq<char>, content: Seq<char> },
    Edit { path: Seq<char>, pattern: Seq<char>, replacement: Seq<char> },
    Delete { path: Seq<char> },
    Exec { command: Seq<char>, args: Seq<Seq<char>> },
    List { path: Seq<char>, pattern: Option<Seq<char>> },
    Search { pattern: Seq<char>, path: Option<Seq<char>>, file_type: Option<Seq<char>> },
    Think { reasoning: Seq<char> },
    Plan { tasks: Seq<Seq<char>> },
    UpdatePlan { plan_id: Seq<char>, task_id: Seq<char>, status: TaskStatus },
    Remember { key: Seq<char>, value: Seq<char> },
    Recall { key: Seq<char> },
    WebFetch { url: Seq<char>, extract: Option<Seq<char>> },
    Parse { content: Seq<char>, format: DataFormat },
    Status { message: Seq<char>, level: StatusLevel },
    Report { title: Seq<char>, sections: Seq<(Seq<char>, Seq<char>)> },
}

pub open spec fn opt_view(o: Option<String>) -> Option<Seq<char>> {
    match o {
        Some(s) => Some(s@),
        None => None,
    }
}

pub open spec fn section_views(ss: Seq<Section>) -> Seq<(Seq<char>, Seq<char>)> {
    ss.map_values(|s: Section| (s.title@, s.content@))
}

/// The view of one command.
pub open spec fn cmd_view(c: Command) -> CommandView {
    match c {
        Command::Read { path } => CommandView::Read { path: path@ },
        Command::Write { path, content } => CommandView::Write {
            path: path@,
            content: content@,
        },
        Command::Edit { path, pattern, replacement } => CommandView::Edit {
            path: path@,
            pattern: pattern@,
            replacement: replacement@,
        },
        Command::Delete { path } => CommandView::Delete { path: path@ },
        Command::Exec { command, args } => CommandView::Exec {
            command: command@,
            args: crate::text::views_of(args@),
        },
        Command::List { path, pattern } => CommandView::List {
            path: path@,
            pattern: opt_view(pattern),
        },
        Command::Search { pattern, path, file_type } => CommandView::Search {
            pattern: pattern@,
            path: opt_view(path),
            file_type: opt_view(file_type),
        },
        Command::Think { reasoning } => CommandView::Think { reasoning: reasoning@ },
        Command::Plan { tasks } => CommandView::Plan { tasks: crate::text::views_of(tasks@) },
        Command::UpdatePlan { plan_id, task_id, status } => CommandView::UpdatePlan {
            plan_id: plan_id@,
            task_id: task_id@,
            status,
        },
        Command::Remember { key, value } => CommandView::Remember { key: key@, value: value@ },
        Command::Recall { key } => CommandView::Recall { key: key@ },
        Command::WebFetch { url, extract } => CommandView::WebFetch {
            url: url@,
            extract: opt_view(extract),
        },
        Command::Parse { content, format } => CommandView::Parse { content: content@, format },
        Command::Status { message, level } => CommandView::Status { message: message@, level },
        Command::Report { title, sections } => CommandView::Report {
            title: title@,
            sections: section_views(sections@),
        },
    }
}

/// The views of a sequence of commands.
pub open spec fn cmd_views(s: Seq<Command>) -> Seq<CommandView> {
    s.map_values(|c: Command| cmd_view(c))
}

/// The first field of this name, if any.
pub open spec fn jfield(fields: Seq<(Seq<char>, JsonV)>, name: Seq<char>) -> Option<JsonV>
    decreases fields.len(),
{
    if fields.len() == 0 {
        None
    } else if fields.first().0 == name {
        Some(fields.first().1)
    } else {
        jfield(fields.drop_first(), name)
    }
}

/// The first field of this name, when it is a string.
pub open spec fn jstr_field(fields: Seq<(Seq<char>, JsonV)>, name: Seq<char>) -> Option<
    Seq<char>,
> {
    match jfield(fields, name) {
        Some(JsonV::VString(t)) => Some(t),
        _ => None,
    }
}

/// An optional string field: absent or null reads as `None`, a string
/// reads as `Some`, and anything else refuses the command.
pub open spec fn jopt_str_field(fields: Seq<(Seq<char>, JsonV)>, name: Seq<char>) -> Option<
    Option<Seq<char>>,
> {
    match jfield(fields, name) {
        None => Some(None),
        Some(JsonV::VNull) => Some(None),
        Some(JsonV::VString(t)) => Some(Some(t)),
        Some(_) => None,
    }
}

/// The strings of a JSON array of strings.
pub open spec fn strs_of(items: Seq<JsonV>) -> Option<Seq<Seq<char>>>
    decreases items.len(),
{
    if items.len() == 0 {
        Some(Seq::empty())
    } else {
        match strs_of(items.drop_last()) {
            Some(pre) => match items.last() {
                JsonV::VString(t) => Some(pre.push(t)),
                _ => None,
            },
            None => None,
        }
    }
}

/// The `(title, content)` pairs of a JSON array of section objects.
pub open spec fn sections_of(items: Seq<JsonV>) -> Option<Seq<(Seq<char>, Seq<char>)>>
    decreases items.len(),
{
    if items.len() == 0 {
        Some(Seq::empty())
    } else {
        match sections_of(items.drop_last()) {
            Some(pre) => match items.last() {
                JsonV::VObject(fs) => match (jstr_field(fs, "title"@), jstr_field(
                    fs,
                    "content"@,
                )) {
                    (Some(t), Some(c)) => Some(pre.push((t, c))),
                    _ => None,
                },
                _ => None,
            },
            None => None,
        }
    }
}

pub open spec fn status_of(s: Seq<char>) -> Option<TaskStatus> {
    if s == "pending"@ {
        Some(TaskStatus::Pending)
    } else if s == "in_progress"@ {
        Some(TaskStatus::InProgress)
    } else if s == "completed"@ {
        Some(TaskStatus::Completed)
    } else if s == "failed"@ {
        Some(TaskStatus::Failed)
    } else {
        None
    }
}

pub open spec fn format_of(s: Seq<char>) -> Option<DataFormat> {
    if s == "json"@ {
        Some(DataFormat::Json)
    } else if s == "yaml"@ {
        Some(DataFormat::Yaml)
    } else if s == "toml"@ {
        Some(DataFormat::Toml)
    } else if s == "xml"@ {
        Some(DataFormat::Xml)
    } else {
        None
    }
}

pub open spec fn level_of(s: Seq<char>) -> Option<StatusLevel> {
    if s == "info"@ {
        Some(StatusLevel::Info)
    } else if s == "warning"@ {
        Some(StatusLevel::Warning)
    } else if s == "error"@ {
        Some(StatusLevel::Error)
    } else if s == "success"@ {
        Some(StatusLevel::Success)
    } else {
        None
    }
}

/// The command a tagged JSON object denotes, given its fields and the
/// value of its `cmd` tag.
pub open spec fn spec_tagged_command(fs: Seq<(Seq<char>, JsonV)>, tag: Seq<char>) -> Option<
    CommandView,
> {
    if tag == "Read"@ {
        match jstr_field(fs, "path"@) {
            Some(path) => Some(CommandView::Read { path }),
            None => None,
        }
    } else if tag == "Write"@ {
        match (jstr_field(fs, "path"@), jstr_field(fs, "content"@)) {
            (Some(path), Some(content)) => Some(CommandView::Write { path, content }),
            _ => None,
        }
    } else if tag == "Edit"@ {
        match (jstr_field(fs, "path"@), jstr_field(fs, "pattern"@), jstr_field(
            fs,
            "replacement"@,
        )) {
            (Some(path), Some(pattern), Some(replacement)) => Some(
                CommandView::Edit { path, pattern, replacement },
            ),
            _ => None,
        }
    } else if tag == "Delete"@ {
        match jstr_field(fs, "path"@) {
            Some(path) => Some(CommandView::Delete { path }),
            None => None,
        }
    } else if tag == "Exec"@ {
        match (jstr_field(fs, "command"@), jfield(fs, "args"@)) {
            (Some(command), Some(JsonV::VArray(items))) => match strs_of(items) {
                Some(args) => Some(CommandView::Exec { command, args }),
                None => None,
            },
            _ => None,
        }
    } else if tag == "List"@ {
        match (jstr_field(fs, "path"@), jopt_str_field(fs, "pattern"@)) {
            (Some(path), Some(pattern)) => Some(CommandView::List { path, pattern }),
            _ => None,
        }
    } else if tag == "Search"@ {
        match (jstr_field(fs, "pattern"@), jopt_str_field(fs, "path"@), jopt_str_field(
            fs,
            "file_type"@,
        )) {
            (Some(pattern), Some(path), Some(file_type)) => Some(
                CommandView::Search { pattern, path, file_type },
            ),
            _ => None,
        }
    } else if tag == "Think"@ {
        match jstr_field(fs, "reasoning"@) {
            Some(reasoning) => Some(CommandView::Think { reasoning }),
            None => None,
        }
    } else if tag == "Plan"@ {
        match jfield(fs, "tasks"@) {
            Some(JsonV::VArray(items)) => match strs_of(items) {
                Some(tasks) => Some(CommandView::Plan { tasks }),
                None => None,
            },
            _ => None,
        }
    } else if tag == "UpdatePlan"@ {
        match (jstr_field(fs, "plan_id"@), jstr_field(fs, "task_id"@), jstr_field(
            fs,
            "status"@,
        )) {
            (Some(plan_id), Some(task_id), Some(st)) => match status_of(st) {
                Some(status) => Some(CommandView::UpdatePlan { plan_id, task_id, status }),
                None => None,
            },
            _ => None,
        }
    } else if tag == "Remember"@ {
        match (jstr_field(fs, "key"@), jstr_field(fs, "value"@)) {
            (Some(key), Some(value)) => Some(CommandView::Remember { key, value }),
            _ => None,
        }
    } else if tag == "Recall"@ {
        match jstr_field(fs, "key"@) {
            Some(key) => Some(CommandView::Recall { key }),
            None => None,
        }
    } else if tag == "WebFetch"@ {
        match (jstr_field(fs, "url"@), jopt_str_field(fs, "extract"@)) {
            (Some(url), Some(extract)) => Some(CommandView::WebFetch { url, extract }),
            _ => None,
        }
    } else if tag == "Parse"@ {
        match (jstr_field(fs, "content"@), jstr_field(fs, "format"@)) {
            (Some(content), Some(f)) => match format_of(f) {
                Some(format) => Some(CommandView::Parse { content, format }),
                None => None,
            },
            _ => None,
        }
    } else if tag == "Status"@ {
        match (jstr_field(fs, "message"@), jstr_field(fs, "level"@)) {
            (Some(message), Some(l)) => match level_of(l) {
                Some(level) => Some(CommandView::Status { message, level }),
                None => None,
            },
            _ => None,
        }
    } else if tag == "Report"@ {
        match (jstr_field(fs, "title"@), jfield(fs, "sections"@)) {
            (Some(title), Some(JsonV::VArray(items))) => match sections_of(items) {
                Some(sections) => Some(CommandView::Report { title, sections }),
                None => None,
            },
            _ => None,
        }
    } else {
        None
    }
}

/// The command a JSON value denotes: an object with a string `cmd` tag
/// and the tag's fields.
pub open spec fn spec_command_of(v: JsonV) -> Option<CommandView> {
    match v {
        JsonV::VObject(fs) => match jstr_field(fs, "cmd"@) {
            Some(tag) => spec_tagged_command(fs, tag),
            None => None,
        },
        _ => None,
    }
}

/// The commands of a JSON array, refused as a whole if any element is
/// not a command.
pub open spec fn spec_commands_of(items: Seq<JsonV>) -> Option<Seq<CommandView>>
    decreases items.len(),
{
    if items.len() == 0 {
        Some(Seq::empty())
    } else {
        match spec_commands_of(items.drop_last()) {
            Some(pre) => match spec_command_of(items.last()) {
                Some(c) => Some(pre.push(c)),
                None => None,
            },
            None => None,
        }
    }
}

/// The batch a JSON value denotes: an object whose `commands` field is
/// an array of commands.
pub open spec fn spec_batch_of(v: JsonV) -> Option<Seq<CommandView>> {
    match v {
        JsonV::VObject(fs) => match jfield(fs, "commands"@) {
            Some(JsonV::VArray(items)) => spec_commands_of(items),
            _ => None,
        },
        _ => None,
    }
}

/// How a model reply reads as a command batch: the text must read as
/// JSON, and that value must read as a batch.
pub open spec fn spec_batch_reading(s: Seq<char>) -> Option<Seq<CommandView>> {
    match spec_json(s) {
        Some(w) => spec_batch_of(w),
        None => None,
    }
}

proof fn lemma_strs_of_none(items: Seq<JsonV>, k: int)
    requires
        0 <= k < items.len(),
        !(items[k] is VString),
    ensures
        strs_of(items) is None,
    decreases items.len(),
{
    if k < items.len() - 1 {
        lemma_strs_of_none(items.drop_last(), k);
    }
}

proof fn lemma_sections_of_none(items: Seq<JsonV>, k: int)
    requires
        0 <= k < items.len(),
        match items[k] {
            JsonV::VObject(fs) => jstr_field(fs, "title"@) is None || jstr_field(
                fs,
                "content"@,
            ) is None,
            _ => true,
        },
    ensures
        sections_of(items) is None,
    decreases items.len(),
{
    if k < items.len() - 1 {
        lemma_sections_of_none(items.drop_last(), k);
    }
}

proof fn lemma_commands_of_none(items: Seq<JsonV>, k: int)
    requires
        0 <= k < items.len(),
        spec_command_of(items[k]) is None,
    ensures
        spec_commands_of(items) is None,
    decreases items.len(),
{
    if k < items.len() - 1 {
        lemma_commands_of_none(items.drop_last(), k);
    }
}

/// The first field of this name, as [`jfield`] reads the object's view.
pub(crate) fn get_field<'a>(fields: &'a Vec<(String, JsonValue)>, name: &str) -> (r: Option<
    &'a JsonValue,
>)
    ensures
        match r {
            Some(v) => jfield(jv_fields(fields@), name@) == Some(jv(*v)),
            None => jfield(jv_fields(fields@), name@) is None,
        },
{
    let ghost vf = jv_fields(fields@);
    let n = fields.len();
    assert(vf.skip(0) =~= vf);
    let mut i: usize = 0;
    while i < n
        invariant
            0 <= i <= n,
            n == fields@.len(),
            vf == jv_fields(fields@),
            vf.len() == n,
            jfield(vf, name@) == jfield(vf.skip(i as int), name@),
        decreases n - i,
    {
        proof {
            assert(vf.skip(i as int).drop_first() =~= vf.skip(i + 1));
            assert(vf.skip(i as int).first() == vf[i as int]);
            assert(vf[i as int] == (fields@[i as int].0@, jv(fields@[i as int].1)));
        }
        if str_eq(fields[i].0.as_str(), name) {
            return Some(&fields[i].1);
        }
        i = i + 1;
    }
    assert(vf.skip(n as int) =~= Seq::<(Seq<char>, JsonV)>::empty());
    None
}

/// The first field of this name, when it is a string.
pub(crate) fn get_str_field(fields: &Vec<(String, JsonValue)>, name: &str) -> (r: Option<String>)
    ensures
        match r {
            Some(s) => jstr_field(jv_fields(fields@), name@) == Some(s@),
            None => jstr_field(jv_fields(fields@), name@) is None,
        },
{
    match get_field(fields, name) {
        Some(v) => match v {
            JsonValue::JString(s) => Some(s.clone()),
            _ => {
                proof {
                    lemma_jv_shape(*v);
                }
                None
            },
        },
        None => None,
    }
}

/// An optional string field: absent or null is `None`; any other
/// non-string value refuses the command.
fn get_opt_str_field(fields: &Vec<(String, JsonValue)>, name: &str) -> (r: Option<Option<String>>)
    ensures
        match r {
            Some(o) => jopt_str_field(jv_fields(fields@), name@) == Some(opt_view(o)),
            None => jopt_str_field(jv_fields(fields@), name@) is None,
        },
{
    match get_field(fields, name) {
        None => Some(None),
        Some(v) => match v {
            JsonValue::JNull => Some(None),
            JsonValue::JString(s) => Some(Some(s.clone())),
            _ => {
                proof {
                    lemma_jv_shape(*v);
                }
                None
            },
        },
    }
}

/// The strings of a JSON array of strings, as [`strs_of`] reads them.
fn get_str_list(items: &Vec<JsonValue>) -> (r: Option<Vec<String>>)
    ensures
        match r {
            Some(vs) => strs_of(jv_list(items@)) == Some(crate::text::views_of(vs@)),
            None => strs_of(jv_list(items@)) is None,
        },
{
    let ghost gl = jv_list(items@);
    let n = items.len();
    let mut out: Vec<String> = Vec::new();
    let mut i: usize = 0;
    assert(strs_of(gl.take(0)) =~= Some(Seq::<Seq<char>>::empty())) by {
        assert(gl.take(0) =~= Seq::<JsonV>::empty());
    }
    assert(crate::text::views_of(out@) =~= Seq::<Seq<char>>::empty());
    while i < n
        invariant
            0 <= i <= n,
            n == items@.len(),
            out@.len() == i,
            gl == jv_list(items@),
            gl.len() == n,
            strs_of(gl.take(i as int)) == Some(crate::text::views_of(out@)),
        decreases n - i,
    {
        proof {
            assert(gl.take(i + 1).drop_last() =~= gl.take(i as int));
            assert(gl.take(i + 1).last() == gl[i as int]);
            assert(gl[i as int] == jv(items@[i as int]));
        }
        match &items[i] {
            JsonValue::JString(s) => {
                out.push(s.clone());
                proof {
                    assert(crate::text::views_of(out@) =~= crate::text::views_of(
                        out@.drop_last(),
                    ).push(out@.last()@));
                }
            },
            _ => {
                proof {
                    lemma_jv_shape(items@[i as int]);
                    lemma_strs_of_none(gl, i as int);
                }
                return None;
            },
        }
        i = i + 1;
    }
    assert(gl.take(n as int) =~= gl);
    Some(out)
}

/// The sections of a JSON array of section objects.
fn get_sections(items: &Vec<JsonValue>) -> (r: Option<Vec<Section>>)
    ensures
        match r {
            Some(ss) => sections_of(jv_list(items@)) == Some(section_views(ss@)),
            None => sections_of(jv_list(items@)) is None,
        },
{
    let ghost gl = jv_list(items@);
    let n = items.len();
    let mut out: Vec<Section> = Vec::new();
    let mut i: usize = 0;
    assert(sections_of(gl.take(0)) =~= Some(Seq::<(Seq<char>, Seq<char>)>::empty())) by {
        assert(gl.take(0) =~= Seq::<JsonV>::empty());
    }
    assert(section_views(out@) =~= Seq::<(Seq<char>, Seq<char>)>::empty());
    while i < n
        invariant
            0 <= i <= n,
            n == items@.len(),
            out@.len() == i,
            gl == jv_list(items@),
            gl.len() == n,
            sections_of(gl.take(i as int)) == Some(section_views(out@)),
        decreases n - i,
    {
        proof {
            assert(gl.take(i + 1).drop_last() =~= gl.take(i as int));
            assert(gl.take(i + 1).last() == gl[i as int]);
            assert(gl[i as int] == jv(items@[i as int]));
        }
        match &items[i] {
            JsonValue::JObject(fs) => {
                let title = get_str_field(fs, "title");
                let content = get_str_field(fs, "content");
                match (title, content) {
                    (Some(t), Some(c)) => {
                        out.push(Section { title: t, content: c });
                        proof {
                            assert(section_views(out@) =~= section_views(out@.drop_last()).push(
                                (out@.last().title@, out@.last().content@),
                            ));
                        }
                    },
                    _ => {
                        proof {
                            lemma_sections_of_none(gl, i as int);
                        }
                        return None;
                    },
                }
            },
            _ => {
                proof {
                    lemma_jv_shape(items@[i as int]);
                    lemma_sections_of_none(gl, i as int);
                }
                return None;
            },
        }
        i = i + 1;
    }
    assert(gl.take(n as int) =~= gl);
    Some(out)
}

/// The command a JSON value denotes, as [`spec_command_of`] reads its
/// view.
fn command_of_json(v: &JsonValue) -> (r: Option<Command>)
    ensures
        match r {
            Some(c) => spec_command_of(jv(*v)) == Some(cmd_view(c)),
            None => spec_command_of(jv(*v)) is None,
        },
{
    let fields = match v {
        JsonValue::JObject(fs) => fs,
        _ => {
            proof {
                lemma_jv_shape(*v);
            }
            return None;
        },
    };
    assert(jv(*v) == JsonV::VObject(jv_fields(fields@)));
    let tag = match get_str_field(fields, "cmd") {
        Some(t) => t,
        None => {
            return None;
        },
    };
    if str_eq(tag.as_str(), "Read") {
        match get_str_field(fields, "path") {
            Some(path) => Some(Command::Read { path }),
            None => None,
        }
    } else if str_eq(tag.as_str(), "Write") {
        match (get_str_field(fields, "path"), get_str_field(fields, "content")) {
            (Some(path), Some(content)) => Some(Command::Write { path, content }),
            _ => None,
        }
    } else if str_eq(tag.as_str(), "Edit") {
        match (
            get_str_field(fields, "path"),
            get_str_field(fields, "pattern"),
            get_str_field(fields, "replacement"),
        ) {
            (Some(path), Some(pattern), Some(replacement)) => Some(
                Command::Edit { path, pattern, replacement },
            ),
            _ => None,
        }
    } else if str_eq(tag.as_str(), "Delete") {
        match get_str_field(fields, "path") {
            Some(path) => Some(Command::Delete { path }),
            None => None,
        }
    } else if str_eq(tag.as_str(), "Exec") {
        let command = match get_str_field(fields, "command") {
            Some(c) => c,
            None => {
                return None;
            },
        };
        match get_field(fields, "args") {
            Some(a) => match a {
                JsonValue::JArray(items) => match get_str_list(items) {
                    Some(args) => Some(Command::Exec { command, args }),
                    None => None,
                },
                _ => {
                    proof {
                        lemma_jv_shape(*a);
                    }
                    None
                },
            },
            None => None,
        }
    } else if str_eq(tag.as_str(), "List") {
        match (get_str_field(fields, "path"), get_opt_str_field(fields, "pattern")) {
            (Some(path), Some(pattern)) => Some(Command::List { path, pattern }),
            _ => None,
        }
    } else if str_eq(tag.as_str(), "Search") {
        match (
            get_str_field(fields, "pattern"),
            get_opt_str_field(fields, "path"),
            get_opt_str_field(fields, "file_type"),
        ) {
            (Some(pattern), Some(path), Some(file_type)) => Some(
                Command::Search { pattern, path, file_type },
            ),
            _ => None,
        }
    } else if str_eq(tag.as_str(), "Think") {
        match get_str_field(fields, "reasoning") {
            Some(reasoning) => Some(Command::Think { reasoning }),
            None => None,
        }
    } else if str_eq(tag.as_str(), "Plan") {
        match get_field(fields, "tasks") {
            Some(a) => match a {
                JsonValue::JArray(items) => match get_str_list(items) {
                    Some(tasks) => Some(Command::Plan { tasks }),
                    None => None,
                },
                _ => {
                    proof {
                        lemma_jv_shape(*a);
                    }
                    None
                },
            },
            None => None,
        }
    } else if str_eq(tag.as_str(), "UpdatePlan") {
        match (
            get_str_field(fields, "plan_id"),
            get_str_field(fields, "task_id"),
            get_str_field(fields, "status"),
        ) {
            (Some(plan_id), Some(task_id), Some(st)) => {
                let status = if str_eq(st.as_str(), "pending") {
                    Some(TaskStatus::Pending)
                } else if str_eq(st.as_str(), "in_progress") {
                    Some(TaskStatus::InProgress)
                } else if str_eq(st.as_str(), "completed") {
                    Some(TaskStatus::Completed)
                } else if str_eq(st.as_str(), "failed") {
                    Some(TaskStatus::Failed)
                } else {
                    None
                };
                match status {
                    Some(status) => Some(Command::UpdatePlan { plan_id, task_id, status }),
                    None => None,
                }
            },
            _ => None,
        }
    } else if str_eq(tag.as_str(), "Remember") {
        match (get_str_field(fields, "key"), get_str_field(fields, "value")) {
            (Some(key), Some(value)) => Some(Command::Remember { key, value }),
            _ => None,
        }
    } else if str_eq(tag.as_str(), "Recall") {
        match get_str_field(fields, "key") {
            Some(key) => Some(Command::Recall { key }),
            None => None,
        }
    } else if str_eq(tag.as_str(), "WebFetch") {
        match (get_str_field(fields, "url"), get_opt_str_field(fields, "extract")) {
            (Some(url), Some(extract)) => Some(Command::WebFetch { url, extract }),
            _ => None,
        }
    } else if str_eq(tag.as_str(), "Parse") {
        match (get_str_field(fields, "content"), get_str_field(fields, "format")) {
            (Some(content), Some(f)) => {
                let format = if str_eq(f.as_str(), "json") {
                    Some(DataFormat::Json)
                } else if str_eq(f.as_str(), "yaml") {
                    Some(DataFormat::Yaml)
                } else if str_eq(f.as_str(), "toml") {
                    Some(DataFormat::Toml)
                } else if str_eq(f.as_str(), "xml") {
                    Some(DataFormat::Xml)
                } else {
                    None
                };
                match format {
                    Some(format) => Some(Command::Parse { content, format }),
                    None => None,
                }
            },
            _ => None,
        }
    } else if str_eq(tag.as_str(), "Status") {
        match (get_str_field(fields, "message"), get_str_field(fields, "level")) {
            (Some(message), Some(l)) => {
                let level = if str_eq(l.as_str(), "info") {
                    Some(StatusLevel::Info)
                } else if str_eq(l.as_str(), "warning") {
                    Some(StatusLevel::Warning)
                } else if str_eq(l.as_str(), "error") {
                    Some(StatusLevel::Error)
                } else if str_eq(l.as_str(), "success") {
                    Some(StatusLevel::Success)
                } else {
                    None
                };
                match level {
                    Some(level) => Some(Command::Status { message, level }),
                    None => None,
                }
            },
            _ => None,
        }
    } else if str_eq(tag.as_str(), "Report") {
        match (get_str_field(fields, "title"), get_field(fields, "sections")) {
            (Some(title), Some(a)) => match a {
                JsonValue::JArray(items) => match get_sections(items) {
                    Some(sections) => Some(Command::Report { title, sections }),
                    None => None,
                },
                _ => {
                    proof {
                        lemma_jv_shape(*a);
                    }
                    None
                },
            },
            _ => None,
        }
    } else {
        None
    }
}

/// The batch a JSON value denotes, as [`spec_batch_of`] reads its view.
fn batch_of_json(v: &JsonValue) -> (r: Option<CommandBatch>)
    ensures
        match r {
            Some(b) => spec_batch_of(jv(*v)) == Some(cmd_views(b.commands@)),
            None => spec_batch_of(jv(*v)) is None,
        },
{
    let fields = match v {
        JsonValue::JObject(fs) => fs,
        _ => {
            proof {
                lemma_jv_shape(*v);
            }
            return None;
        },
    };
    assert(jv(*v) == JsonV::VObject(jv_fields(fields@)));
    let items = match get_field(fields, "commands") {
        Some(a) => match a {
            JsonValue::JArray(items) => items,
            _ => {
                proof {
                    lemma_jv_shape(*a);
                }
                return None;
            },
        },
        None => {
            return None;
        },
    };
    let ghost gl = jv_list(items@);
    assert(spec_batch_of(jv(*v)) == spec_commands_of(gl));
    let n = items.len();
    let mut out: Vec<Command> = Vec::new();
    let mut i: usize = 0;
    assert(spec_commands_of(gl.take(0)) =~= Some(Seq::<CommandView>::empty())) by {
        assert(gl.take(0) =~= Seq::<JsonV>::empty());
    }
    assert(cmd_views(out@) =~= Seq::<CommandView>::empty());
    while i < n
        invariant
            0 <= i <= n,
            n == items@.len(),
            out@.len() == i,
            gl == jv_list(items@),
            gl.len() == n,
            spec_batch_of(jv(*v)) == spec_commands_of(gl),
            spec_commands_of(gl.take(i as int)) == Some(cmd_views(out@)),
        decreases n - i,
    {
        proof {
            assert(gl.take(i + 1).drop_last() =~= gl.take(i as int));
            assert(gl.take(i + 1).last() == gl[i as int]);
            assert(gl[i as int] == jv(items@[i as int]));
        }
        match command_of_json(&items[i]) {
            Some(c) => {
                out.push(c);
                proof {
                    assert(cmd_views(out@) =~= cmd_views(out@.drop_last()).push(
                        cmd_view(out@.last()),
                    ));
                }
            },
            None => {
                proof {
                    lemma_commands_of_none(gl, i as int);
                }
                return None;
            },
        }
        i = i + 1;
    }
    assert(gl.take(n as int) =~= gl);
    Some(CommandBatch { commands: out })
}

/// Tries to read a model reply as a command batch, exactly as
/// [`spec_batch_reading`] reads it: the reply must read as JSON whose
/// top-level object carries a `commands` array of tagged commands.  Any
/// reply that does not fit reads as `None`, which callers treat as plain
/// text, never as an error.
pub fn parse_commands(response: &str) -> (r: Option<CommandBatch>)
    ensures
        match r {
            Some(b) => spec_batch_reading(response@) == Some(cmd_views(b.commands@)),
            None => spec_batch_reading(response@) is None,
        },
{
    match parse_json_text(response) {
        Some(v) => batch_of_json(&v),
        None => None,
    }
}

/// What becomes of one model reply in autonomous mode.
pub enum ResponseHandling {
    /// The reply was not a command batch: it is handed through exactly as
    /// it came, and nothing is executed.
    Passthrough(String),
    /// The reply was a command batch to run in order.
    Commands(CommandBatch),
}

/// Reads a model reply: a reply that reads as a command batch comes back
/// as exactly those commands to run, and any other reply comes back
/// verbatim, with no commands to execute.
pub fn handle_response(response: &str) -> (r: ResponseHandling)
    ensures
        r matches ResponseHandling::Passthrough(t) ==> t@ == response@,
        (r is Passthrough) <==> spec_batch_reading(response@) is None,
        r matches ResponseHandling::Commands(b) ==> spec_batch_reading(response@) == Some(
            cmd_views(b.commands@),
        ),
{
    match parse_commands(response) {
        Some(batch) => ResponseHandling::Commands(batch),
        None => ResponseHandling::Passthrough(response.to_owned()),
    }
}

} // verus!
