//! Configuration: the file and its defaults, where the runtime is looked for,
//! and how paths of workspaces are written.

use crate::commands::{config_toml, first_settings, first_toml, law_first_config};
use crate::json::{json_of_toml, read_toml, slot, toml_error_of_text, Json, JsonView};
use crate::text::{
    contains, from_chars, group_contains, has_char, is_blank, is_white, join, joined, law_join_holds,
    law_replace, lemma_contains_trans, lemma_trim_solid, replace_char, replaced, to_chars, trim, trimmed,
};
use crate::paths::{app_file, app_file_in, below, path_below, user_config_dir, user_home_dir};
use crate::toml_text::plain;
use vstd::prelude::*;

verus! {

#[derive(Debug, Clone, PartialEq, Eq)]
pub enum ConfigError {
    NotFound(String),
}

impl ConfigError {
    /// The message shown for the error.
    pub open spec fn text(&self) -> Seq<char> {
        match self {
            ConfigError::NotFound(m) => m@,
        }
    }

    pub fn to_text(&self) -> (r: String)
        ensures
            r@ == self.text(),
    {
        match self {
            ConfigError::NotFound(m) => m.clone(),
        }
    }
}

/// The model named where nothing else names one.
pub fn default_model() -> (r: String)
    ensures
        r@ == "zai/glm-5.3"@,
{
    "zai/glm-5.3".to_owned()
}

/// A text divided at its first `c`, which belongs to neither part.
pub open spec fn split_once(s: Seq<char>, c: char) -> Option<(Seq<char>, Seq<char>)>
    decreases s.len(),
{
    if s.len() == 0 {
        None
    } else if s[0] == c {
        Some((Seq::empty(), s.drop_first()))
    } else {
        match split_once(s.drop_first(), c) {
            Some((a, b)) => Some((seq![s[0]] + a, b)),
            None => None,
        }
    }
}

proof fn lemma_split_once_at(s: Seq<char>, c: char, i: int)
    requires
        0 <= i <= s.len(),
        forall|k: int| 0 <= k < i ==> #[trigger] s[k] != c,
        i < s.len() ==> s[i] == c,
    ensures
        split_once(s, c) == if i < s.len() {
            Some((s.take(i), s.skip(i + 1)))
        } else {
            None
        },
    decreases i,
{
    if i > 0 {
        lemma_split_once_at(s.drop_first(), c, i - 1);
        if i < s.len() {
            assert(seq![s[0]] + s.drop_first().take(i - 1) =~= s.take(i));
            assert(s.drop_first().skip(i) =~= s.skip(i + 1));
        }
    } else if s.len() > 0 {
        assert(s.take(0) =~= Seq::empty());
        assert(s.skip(1) =~= s.drop_first());
    }
}

/// A text divided at its first `c`.
pub fn cut_once(s: &str, c: char) -> (r: Option<(String, String)>)
    ensures
        r.deep_view() == split_once(s@, c),
{
    let v = to_chars(s);
    let mut i: usize = 0;
    while i < v.len() && v[i] != c
        invariant
            i <= v@.len(),
            v@ == s@,
            forall|k: int| 0 <= k < i ==> #[trigger] v@[k] != c,
        decreases v@.len() - i,
    {
        i = i + 1;
    }
    proof {
        lemma_split_once_at(v@, c, i as int);
    }
    if i < v.len() {
        let a = from_chars(v.as_slice(), 0, i);
        let b = from_chars(v.as_slice(), i + 1, v.len());
        assert(v@.subrange(0, i as int) == v@.take(i as int));
        assert(v@.subrange(i + 1, v@.len() as int) == v@.skip(i + 1));
        Some((a, b))
    } else {
        None
    }
}

/// The provider and the model that a reference names.
pub open spec fn model_ref(model: Seq<char>) -> Option<(Seq<char>, Seq<char>)> {
    match split_once(trim(model), '/') {
        Some((p, id)) => if p.len() > 0 && id.len() > 0 {
            Some((p, id))
        } else {
            None
        },
        None => None,
    }
}

pub open spec fn bad_model_text(model: Seq<char>) -> Seq<char> {
    "modelo inválido '"@ + trim(model) + "': use providerId/modelId (ex.: zai/glm-5.3)"@
}

/// `"zai/glm-5.3"` names provider `zai` and model `glm-5.3`; a reference without
/// a slash, or with nothing on one side of it, names none.
pub fn split_model_ref(model: &str) -> (r: Result<(String, String), ConfigError>)
    ensures
        match r {
            Ok(p) => model_ref(model@) == Some(p.deep_view()),
            Err(e) => model_ref(model@) is None && e.text() == bad_model_text(model@),
        },
{
    let m = trimmed(model);
    match cut_once(m.as_str(), '/') {
        Some((p, id)) => {
            if !p.as_str().is_empty() && !id.as_str().is_empty() {
                return Ok((p, id));
            }
        },
        None => {},
    }
    let mut t = "modelo inválido '".to_owned();
    t.append(m.as_str());
    t.append("': use providerId/modelId (ex.: zai/glm-5.3)");
    Err(ConfigError::NotFound(t))
}

/// Whether the server speaks a protocol newer than the one known here.
pub fn is_new_protocol_version(v: Option<u64>) -> (r: bool)
    ensures
        r == (v matches Some(n) && n > 1),
{
    match v {
        Some(n) => n > 1,
        None => false,
    }
}

// ---------------------------------------------------------------- file

#[derive(Debug, Clone, PartialEq, Eq)]
pub struct FileConfig {
    pub runtime: RuntimeCfg,
    pub default: DefaultCfg,
    pub ui: UiCfg,
}

#[derive(Debug, Clone, PartialEq, Eq)]
pub struct RuntimeCfg {
    pub zcode_cjs: String,
    pub node: String,
}

#[derive(Debug, Clone, PartialEq, Eq)]
pub struct DefaultCfg {
    pub workspace: String,
    pub mode: String,
    pub model: String,
    pub thought_level: String,
}

#[derive(Debug, Clone, PartialEq, Eq)]
pub struct UiCfg {
    pub theme: String,
    pub stream_refresh_ms: u64,
}

pub struct RuntimeCfgView {
    pub zcode_cjs: Seq<char>,
    pub node: Seq<char>,
}

pub struct DefaultCfgView {
    pub workspace: Seq<char>,
    pub mode: Seq<char>,
    pub model: Seq<char>,
    pub thought_level: Seq<char>,
}

pub struct UiCfgView {
    pub theme: Seq<char>,
    pub stream_refresh_ms: u64,
}

pub struct FileConfigView {
    pub runtime: RuntimeCfgView,
    pub default: DefaultCfgView,
    pub ui: UiCfgView,
}

impl DeepView for RuntimeCfg {
    type V = RuntimeCfgView;

    open spec fn deep_view(&self) -> RuntimeCfgView {
        RuntimeCfgView { zcode_cjs: self.zcode_cjs@, node: self.node@ }
    }
}

impl DeepView for DefaultCfg {
    type V = DefaultCfgView;

    open spec fn deep_view(&self) -> DefaultCfgView {
        DefaultCfgView {
            workspace: self.workspace@,
            mode: self.mode@,
            model: self.model@,
            thought_level: self.thought_level@,
        }
    }
}

impl DeepView for UiCfg {
    type V = UiCfgView;

    open spec fn deep_view(&self) -> UiCfgView {
        UiCfgView { theme: self.theme@, stream_refresh_ms: self.stream_refresh_ms }
    }
}

impl DeepView for FileConfig {
    type V = FileConfigView;

    open spec fn deep_view(&self) -> FileConfigView {
        FileConfigView {
            runtime: self.runtime.deep_view(),
            default: self.default.deep_view(),
            ui: self.ui.deep_view(),
        }
    }
}

/// The workspace where the current directory is not known.
pub open spec fn lost_workspace() -> Seq<char> {
    "C:/Users/eduar"@
}

pub open spec fn runtime_defaults() -> RuntimeCfgView {
    RuntimeCfgView { zcode_cjs: ""@, node: "node"@ }
}

pub open spec fn session_defaults(workspace: Seq<char>) -> DefaultCfgView {
    DefaultCfgView {
        workspace,
        mode: "build"@,
        model: "zai/glm-5.3"@,
        thought_level: "max"@,
    }
}

pub open spec fn ui_defaults() -> UiCfgView {
    UiCfgView { theme: "dark"@, stream_refresh_ms: 300 }
}

/// What holds without a file, in a given current directory.
pub open spec fn config_defaults(workspace: Seq<char>) -> FileConfigView {
    FileConfigView {
        runtime: runtime_defaults(),
        default: session_defaults(workspace),
        ui: ui_defaults(),
    }
}

impl Default for RuntimeCfg {
    fn default() -> (r: RuntimeCfg)
        ensures
            r.deep_view() == runtime_defaults(),
    {
        RuntimeCfg { zcode_cjs: "".to_owned(), node: "node".to_owned() }
    }
}

impl Default for UiCfg {
    fn default() -> (r: UiCfg)
        ensures
            r.deep_view() == ui_defaults(),
    {
        UiCfg { theme: "dark".to_owned(), stream_refresh_ms: 300 }
    }
}

impl DefaultCfg {
    /// The defaults of a session in a current directory.
    pub fn of_workspace(workspace: &str) -> (r: DefaultCfg)
        ensures
            r.deep_view() == session_defaults(workspace@),
    {
        DefaultCfg {
            workspace: workspace.to_owned(),
            mode: "build".to_owned(),
            model: default_model(),
            thought_level: "max".to_owned(),
        }
    }
}

/// The defaults where the current directory is not known.
impl Default for DefaultCfg {
    fn default() -> (r: DefaultCfg)
        ensures
            r.deep_view() == session_defaults(lost_workspace()),
    {
        DefaultCfg::of_workspace("C:/Users/eduar")
    }
}

impl FileConfig {
    /// What holds without a file, in a current directory.
    pub fn of_workspace(workspace: &str) -> (r: FileConfig)
        ensures
            r.deep_view() == config_defaults(workspace@),
    {
        FileConfig {
            runtime: RuntimeCfg::default(),
            default: DefaultCfg::of_workspace(workspace),
            ui: UiCfg::default(),
        }
    }
}

/// What holds without a file, where the current directory is not known.
impl Default for FileConfig {
    fn default() -> (r: FileConfig)
        ensures
            r.deep_view() == config_defaults(lost_workspace()),
    {
        FileConfig::of_workspace("C:/Users/eduar")
    }
}

/// A section of the file: a table, or a list of its fields in their order.
pub open spec fn section_shape(v: JsonView) -> bool {
    v is Obj || v is Arr
}

/// A text of a section: its default where it is missing; `None` where it is
/// not a text.
pub open spec fn text_field(
    section: Option<JsonView>,
    i: int,
    key: Seq<char>,
    default: Seq<char>,
) -> Option<Seq<char>> {
    match section {
        Some(s) => match slot(s, i, key) {
            Some(x) => x.as_text(),
            None => Some(default),
        },
        None => Some(default),
    }
}

pub open spec fn number_field(
    section: Option<JsonView>,
    i: int,
    key: Seq<char>,
    default: u64,
) -> Option<u64> {
    match section {
        Some(s) => match slot(s, i, key) {
            Some(x) => x.as_unsigned(),
            None => Some(default),
        },
        None => Some(default),
    }
}

pub open spec fn section_ok(section: Option<JsonView>) -> bool {
    section matches Some(s) ==> section_shape(s)
}

/// The configuration that a file's table gives: missing fields have their
/// defaults, unknown ones are passed over, and none may have another type.
pub open spec fn config_of(v: JsonView, workspace: Seq<char>) -> Option<FileConfigView> {
    let rt = v.get("runtime"@);
    let df = v.get("default"@);
    let ui = v.get("ui"@);
    if !section_ok(rt) || !section_ok(df) || !section_ok(ui) {
        None
    } else {
        match (
            text_field(rt, 0, "zcode_cjs"@, ""@),
            text_field(rt, 1, "node"@, "node"@),
            text_field(df, 0, "workspace"@, workspace),
            text_field(df, 1, "mode"@, "build"@),
            text_field(df, 2, "model"@, "zai/glm-5.3"@),
            text_field(df, 3, "thought_level"@, "max"@),
            text_field(ui, 0, "theme"@, "dark"@),
            number_field(ui, 1, "stream_refresh_ms"@, 300),
        ) {
            (
                Some(zcode_cjs),
                Some(node),
                Some(ws),
                Some(mode),
                Some(model),
                Some(thought_level),
                Some(theme),
                Some(stream_refresh_ms),
            ) => Some(
                FileConfigView {
                    runtime: RuntimeCfgView { zcode_cjs, node },
                    default: DefaultCfgView { workspace: ws, mode, model, thought_level },
                    ui: UiCfgView { theme, stream_refresh_ms },
                },
            ),
            _ => None,
        }
    }
}

/// The configuration that the text of a file gives.
pub open spec fn config_of_text(text: Seq<char>, workspace: Seq<char>) -> Option<FileConfigView> {
    match json_of_toml(text) {
        Some(v) => config_of(v, workspace),
        None => None,
    }
}

/// The message for a text that gives no configuration: the reader's own where
/// it is not TOML.
pub open spec fn config_error(text: Seq<char>) -> Seq<char> {
    match json_of_toml(text) {
        Some(_) => "tipo inválido na configuração"@,
        None => toml_error_of_text(text),
    }
}

fn read_text_field(section: Option<&Json>, i: usize, key: &str, default: &str) -> (r: Option<
    String,
>)
    ensures
        r.deep_view() == text_field(
            match section {
                Some(s) => Some(s@),
                None => None,
            },
            i as int,
            key@,
            default@,
        ),
{
    match section {
        Some(s) => match s.slot(i, key) {
            Some(x) => match x.as_str() {
                Some(t) => Some(t.to_owned()),
                None => None,
            },
            None => Some(default.to_owned()),
        },
        None => Some(default.to_owned()),
    }
}

fn read_number_field(section: Option<&Json>, i: usize, key: &str, default: u64) -> (r: Option<u64>)
    ensures
        r == number_field(
            match section {
                Some(s) => Some(s@),
                None => None,
            },
            i as int,
            key@,
            default,
        ),
{
    match section {
        Some(s) => match s.slot(i, key) {
            Some(x) => x.as_u64(),
            None => Some(default),
        },
        None => Some(default),
    }
}

fn section_readable(section: Option<&Json>) -> (r: bool)
    ensures
        r == section_ok(
            match section {
                Some(s) => Some(s@),
                None => None,
            },
        ),
{
    match section {
        Some(s) => match s {
            Json::Obj(_) => true,
            Json::Arr(_) => true,
            _ => false,
        },
        None => true,
    }
}

/// The configuration that a file's table gives.
pub fn read_config(v: &Json, workspace: &str) -> (r: Option<FileConfig>)
    ensures
        r.deep_view() == config_of(v@, workspace@),
{
    let rt = v.get("runtime");
    let df = v.get("default");
    let ui = v.get("ui");
    if !section_readable(rt) || !section_readable(df) || !section_readable(ui) {
        return None;
    }
    let runtime = match (
        read_text_field(rt, 0, "zcode_cjs", ""),
        read_text_field(rt, 1, "node", "node"),
    ) {
        (Some(zcode_cjs), Some(node)) => RuntimeCfg { zcode_cjs, node },
        _ => {
            return None;
        },
    };
    let default = match (
        read_text_field(df, 0, "workspace", workspace),
        read_text_field(df, 1, "mode", "build"),
        read_text_field(df, 2, "model", "zai/glm-5.3"),
        read_text_field(df, 3, "thought_level", "max"),
    ) {
        (Some(ws), Some(mode), Some(model), Some(thought_level)) => DefaultCfg {
            workspace: ws,
            mode,
            model,
            thought_level,
        },
        _ => {
            return None;
        },
    };
    let ui = match (
        read_text_field(ui, 0, "theme", "dark"),
        read_number_field(ui, 1, "stream_refresh_ms", 300),
    ) {
        (Some(theme), Some(stream_refresh_ms)) => UiCfg { theme, stream_refresh_ms },
        _ => {
            return None;
        },
    };
    Some(FileConfig { runtime, default, ui })
}

/// The configuration that the text of a file gives, with the current directory
/// as the default workspace. The first configuration gives its own settings.
pub fn parse_toml_in(text: &str, workspace: &str) -> (r: Result<FileConfig, String>)
    ensures
        match r {
            Ok(c) => config_of_text(text@, workspace@) == Some(c.deep_view()),
            Err(e) => config_of_text(text@, workspace@) is None && e@ == config_error(text@),
        },
        forall|hint: Seq<char>|
            plain(hint) && text@ == #[trigger] config_toml(hint) ==> (r matches Ok(c)
                && c.deep_view() == first_settings(hint)),
{
    let read = read_toml(text);
    proof {
        assert forall|hint: Seq<char>| plain(hint) && text@ == #[trigger] config_toml(hint) implies (
        read matches Ok(v) && config_of(v@, workspace@) == Some(first_settings(hint))) by {
            law_first_config(hint, workspace@);
            assert(text@ == first_toml(hint).written());
        }
    }
    match read {
        Ok(v) => match read_config(&v, workspace) {
            Some(c) => Ok(c),
            None => Err("tipo inválido na configuração".to_owned()),
        },
        Err(e) => Err(e),
    }
}

/// The configuration that the text of a file gives, where the current
/// directory is not known. The first configuration gives its own settings.
pub fn parse_toml_str(text: &str) -> (r: Result<FileConfig, String>)
    ensures
        match r {
            Ok(c) => config_of_text(text@, lost_workspace()) == Some(c.deep_view()),
            Err(e) => config_of_text(text@, lost_workspace()) is None && e@ == config_error(text@),
        },
        forall|hint: Seq<char>|
            plain(hint) && text@ == #[trigger] config_toml(hint) ==> (r matches Ok(c)
                && c.deep_view() == first_settings(hint)),
{
    parse_toml_in(text, "C:/Users/eduar")
}

/// The configuration in force: that of the file; the defaults where there is
/// no file, or where its text gives none.
pub fn load_config(text: Option<&str>, workspace: &str) -> (r: FileConfig)
    ensures
        r.deep_view() == match text {
            Some(t) => match config_of_text(t@, workspace@) {
                Some(c) => c,
                None => config_defaults(workspace@),
            },
            None => config_defaults(workspace@),
        },
{
    match text {
        Some(t) => match parse_toml_in(t, workspace) {
            Ok(c) => c,
            Err(_) => FileConfig::of_workspace(workspace),
        },
        None => FileConfig::of_workspace(workspace),
    }
}

/// Whether a text gives a configuration does not depend on the directory it is
/// read in.
pub proof fn law_validity_independent_of_workspace(text: Seq<char>, a: Seq<char>, b: Seq<char>)
    ensures
        config_of_text(text, a) is Some <==> config_of_text(text, b) is Some,
{
}

// ---------------------------------------------------------------- paths

/// `s` without the leading `c`s.
pub open spec fn strip_front(s: Seq<char>, c: char) -> Seq<char>
    decreases s.len(),
{
    if s.len() > 0 && s[0] == c {
        strip_front(s.drop_first(), c)
    } else {
        s
    }
}

/// `s` without the trailing `c`s.
pub open spec fn strip_back(s: Seq<char>, c: char) -> Seq<char>
    decreases s.len(),
{
    if s.len() > 0 && s.last() == c {
        strip_back(s.drop_last(), c)
    } else {
        s
    }
}

/// A path as it was typed, without quotes and white space around it.
pub open spec fn clean_path(input: Seq<char>) -> Seq<char> {
    trim(strip_back(strip_front(trim(input), '"'), '"'))
}

/// A text whose second byte is a colon.
pub open spec fn second_is_colon(s: Seq<char>) -> bool {
    s.len() >= 2 && s[1] == ':' && (s[0] as u32) < 0x80
}

/// A path that begins with a drive letter.
pub open spec fn has_drive(s: Seq<char>) -> bool {
    s.len() >= 2 && s[1] == ':' && ('a' <= s[0] <= 'z' || 'A' <= s[0] <= 'Z')
}

pub open spec fn path_like(s: Seq<char>) -> bool {
    s.contains('/') || s.contains('\\') || second_is_colon(s) || (s.len() > 0 && s[0] == '.')
}

pub fn looks_like_path(s: &str) -> (r: bool)
    ensures
        r == path_like(s@),
{
    let v = to_chars(s);
    has_char(s, '/') || has_char(s, '\\') || colon_second(v.as_slice()) || (v.len() > 0 && v[0] == '.')
}

fn drive(v: &[char]) -> (r: bool)
    ensures
        r == has_drive(v@),
{
    v.len() >= 2 && v[1] == ':' && (('a' <= v[0] && v[0] <= 'z') || ('A' <= v[0] && v[0] <= 'Z'))
}

fn colon_second(v: &[char]) -> (r: bool)
    ensures
        r == second_is_colon(v@),
{
    v.len() >= 2 && v[1] == ':' && (v[0] as u32) < 0x80
}

proof fn lemma_strip_front(s: Seq<char>, c: char, i: int)
    requires
        0 <= i <= s.len(),
        forall|k: int| 0 <= k < i ==> #[trigger] s[k] == c,
        i < s.len() ==> s[i] != c,
    ensures
        strip_front(s, c) == s.skip(i),
    decreases i,
{
    if i > 0 {
        lemma_strip_front(s.drop_first(), c, i - 1);
        assert(s.drop_first().skip(i - 1) == s.skip(i));
    } else {
        assert(s.skip(0) == s);
    }
}

proof fn lemma_strip_back(s: Seq<char>, c: char, j: int)
    requires
        0 <= j <= s.len(),
        forall|k: int| j <= k < s.len() ==> #[trigger] s[k] == c,
        j > 0 ==> s[j - 1] != c,
    ensures
        strip_back(s, c) == s.take(j),
    decreases s.len() - j,
{
    if j < s.len() {
        lemma_strip_back(s.drop_last(), c, j);
        assert(s.drop_last().take(j) == s.take(j));
    } else {
        assert(s.take(j) == s);
    }
}

/// A path as it was typed, without quotes and white space around it.
pub fn cleaned_path(input: &str) -> (r: String)
    ensures
        r@ == clean_path(input@),
{
    let t = trimmed(input);
    let v = to_chars(t.as_str());
    let mut i: usize = 0;
    while i < v.len() && v[i] == '"'
        invariant
            i <= v@.len(),
            forall|k: int| 0 <= k < i ==> #[trigger] v@[k] == '"',
        decreases v@.len() - i,
    {
        i = i + 1;
    }
    let mut j: usize = v.len();
    while j > i && v[j - 1] == '"'
        invariant
            i <= j <= v@.len(),
            forall|k: int| j <= k < v@.len() ==> #[trigger] v@[k] == '"',
        decreases j,
    {
        j = j - 1;
    }
    proof {
        lemma_strip_front(v@, '"', i as int);
        let s = v@.skip(i as int);
        assert forall|k: int| j - i <= k < s.len() implies #[trigger] s[k] == '"' by {
            assert(s[k] == v@[k + i]);
        }
        lemma_strip_back(s, '"', j - i);
        assert(s.take(j - i) == v@.subrange(i as int, j as int));
    }
    let inner = from_chars(v.as_slice(), i, j);
    trimmed(inner.as_str())
}

/// The path of a workspace as the runtime takes it: forward slashes, and made
/// absolute where it is a relative path. `absolute` is the cleaned path joined
/// to the current directory, where the system calls it relative and the
/// directory is known.
pub open spec fn workspace_path(input: Seq<char>, absolute: Option<Seq<char>>) -> Seq<char> {
    let t = clean_path(input);
    let p = match absolute {
        Some(a) => if path_like(t) && !has_drive(t) {
            a
        } else {
            t
        },
        None => t,
    };
    replace_char(p, '\\', "/"@)
}

pub fn normalize_workspace(input: &str, absolute: Option<&str>) -> (r: String)
    ensures
        r@ == workspace_path(
            input@,
            match absolute {
                Some(a) => Some(a@),
                None => None,
            },
        ),
{
    let t = cleaned_path(input);
    let v = to_chars(t.as_str());
    match absolute {
        Some(a) => {
            if looks_like_path(t.as_str()) && !drive(v.as_slice()) {
                return replaced(a, '\\', "/");
            }
        },
        None => {},
    }
    replaced(t.as_str(), '\\', "/")
}

proof fn lemma_no_backslash(s: Seq<char>, k: int)
    requires
        0 <= k < replace_char(s, '\\', "/"@).len(),
    ensures
        replace_char(s, '\\', "/"@)[k] != '\\',
    decreases s.len(),
{
    reveal_strlit("/");
    if s.len() > 0 {
        let before = replace_char(s.drop_last(), '\\', "/"@);
        if k < before.len() {
            lemma_no_backslash(s.drop_last(), k);
        }
    }
}

/// However it was typed, the path of a workspace has no backslash.
pub proof fn law_workspace_forward_slashes(input: Seq<char>, absolute: Option<Seq<char>>)
    ensures
        !workspace_path(input, absolute).contains('\\'),
{
    let t = clean_path(input);
    let p = match absolute {
        Some(a) => if path_like(t) && !has_drive(t) {
            a
        } else {
            t
        },
        None => t,
    };
    let r = workspace_path(input, absolute);
    assert forall|k: int| 0 <= k < r.len() implies #[trigger] r[k] != '\\' by {
        lemma_no_backslash(p, k);
    }
}

// ---------------------------------------------------------------- runtime

/// A value of the environment, where it says something.
pub open spec fn set_value(v: Option<Seq<char>>) -> Seq<Seq<char>> {
    match v {
        Some(t) => if trim(t).len() > 0 {
            seq![t]
        } else {
            Seq::empty()
        },
        None => Seq::empty(),
    }
}

/// A path below a directory that may not be there.
pub open spec fn below_given(dir: Option<Seq<char>>, path: Seq<char>) -> Seq<Seq<char>> {
    match dir {
        Some(d) => seq![below(d, path)],
        None => Seq::empty(),
    }
}

/// Where the runtime is looked for, in this order: the variable `ZCODE_CJS`,
/// the configuration, the local application data of Windows, macOS, the home
/// directory of Linux, `/opt`.
pub open spec fn candidate_paths(
    env: Option<Seq<char>>,
    configured: Seq<char>,
    local: Option<Seq<char>>,
    home: Option<Seq<char>>,
) -> Seq<Seq<char>> {
    set_value(env) + set_value(Some(configured)) + below_given(
        local,
        "Programs/ZCode/resources/glm/zcode.cjs"@,
    ) + seq!["/Applications/ZCode.app/Contents/Resources/glm/zcode.cjs"@] + below_given(
        home,
        ".local/share/ZCode/resources/glm/zcode.cjs"@,
    ) + seq!["/opt/ZCode/resources/glm/zcode.cjs"@]
}

pub fn zcode_candidates(
    env: &Option<String>,
    cfg: &FileConfig,
    local: &Option<String>,
    home: &Option<String>,
) -> (r: Vec<String>)
    ensures
        r.deep_view() == candidate_paths(
            env.deep_view(),
            cfg.runtime.zcode_cjs@,
            local.deep_view(),
            home.deep_view(),
        ),
{
    let mut out: Vec<String> = Vec::new();
    match env {
        Some(e) => {
            if !is_blank(e.as_str()) {
                out.push(e.clone());
            }
        },
        None => {},
    }
    assert(out.deep_view() =~= set_value(env.deep_view()));
    let ghost a = out.deep_view();
    if !is_blank(cfg.runtime.zcode_cjs.as_str()) {
        out.push(cfg.runtime.zcode_cjs.clone());
    }
    assert(out.deep_view() =~= a + set_value(Some(cfg.runtime.zcode_cjs@)));
    let ghost b = out.deep_view();
    match local {
        Some(l) => {
            out.push(path_below(l.as_str(), "Programs/ZCode/resources/glm/zcode.cjs"));
        },
        None => {},
    }
    assert(out.deep_view() =~= b + below_given(
        local.deep_view(),
        "Programs/ZCode/resources/glm/zcode.cjs"@,
    ));
    let ghost c = out.deep_view();
    out.push("/Applications/ZCode.app/Contents/Resources/glm/zcode.cjs".to_owned());
    assert(out.deep_view() =~= c + seq![
        "/Applications/ZCode.app/Contents/Resources/glm/zcode.cjs"@,
    ]);
    let ghost d = out.deep_view();
    match home {
        Some(h) => {
            out.push(path_below(h.as_str(), ".local/share/ZCode/resources/glm/zcode.cjs"));
        },
        None => {},
    }
    assert(out.deep_view() =~= d + below_given(
        home.deep_view(),
        ".local/share/ZCode/resources/glm/zcode.cjs"@,
    ));
    let ghost e = out.deep_view();
    out.push("/opt/ZCode/resources/glm/zcode.cjs".to_owned());
    assert(out.deep_view() =~= e + seq!["/opt/ZCode/resources/glm/zcode.cjs"@]);
    out
}

/// The first candidate that is a file.
pub open spec fn first_file(paths: Seq<Seq<char>>, is_file: Seq<bool>) -> Option<Seq<char>>
    decreases paths.len(),
{
    if paths.len() == 0 || is_file.len() == 0 {
        None
    } else if is_file[0] {
        Some(paths[0])
    } else {
        first_file(paths.drop_first(), is_file.drop_first())
    }
}

pub open spec fn no_override_text(path: Seq<char>) -> Seq<char> {
    "ZCode não encontrado em "@ + path
        + " (via --runtime). Instale o ZCode desktop ou corrija o caminho."@
}

pub open spec fn no_runtime_text(paths: Seq<Seq<char>>) -> Seq<char> {
    "ZCode não encontrado em "@ + join(paths, "; "@)
        + ". Instale o ZCode desktop ou informe --runtime / ZCODE_CJS."@
}

/// Chooses the runtime. A path given on the command line is the only one
/// considered; otherwise the first candidate that is a file is taken.
pub fn discover_zcode_cjs(
    explicit: Option<&str>,
    explicit_is_file: bool,
    candidates: &Vec<String>,
    is_file: &Vec<bool>,
) -> (r: Result<String, ConfigError>)
    requires
        candidates@.len() == is_file@.len(),
    ensures
        match explicit {
            Some(e) if e@.len() > 0 => if explicit_is_file {
                r matches Ok(p) && p@ == e@
            } else {
                r matches Err(x) && x.text() == no_override_text(e@)
            },
            _ => match first_file(candidates.deep_view(), is_file@) {
                Some(c) => r matches Ok(p) && p@ == c,
                None => r matches Err(x) && x.text() == no_runtime_text(candidates.deep_view()),
            },
        },
        explicit matches Some(e) ==> (e@.len() > 0 ==> (r is Ok <==> explicit_is_file)),
        r matches Ok(p) ==> (explicit matches Some(e) && e@.len() > 0 && p@ == e@) || exists|i: int|
            0 <= i < candidates@.len() && #[trigger] candidates.deep_view()[i] == p@ && is_file@[i]
                && (forall|j: int| 0 <= j < i ==> !(#[trigger] is_file@[j])),
{
    match explicit {
        Some(e) => {
            if !e.is_empty() {
                if explicit_is_file {
                    return Ok(e.to_owned());
                }
                let mut m = "ZCode não encontrado em ".to_owned();
                m.append(e);
                m.append(" (via --runtime). Instale o ZCode desktop ou corrija o caminho.");
                return Err(ConfigError::NotFound(m));
            }
        },
        None => {},
    }
    let ghost paths = candidates.deep_view();
    let mut i: usize = 0;
    assert(paths.skip(0) == paths);
    assert(is_file@.skip(0) == is_file@);
    while i < candidates.len()
        invariant
            i <= candidates@.len(),
            candidates@.len() == is_file@.len(),
            paths == candidates.deep_view(),
            !(explicit matches Some(e) && e@.len() > 0),
            forall|j: int| 0 <= j < i ==> !(#[trigger] is_file@[j]),
            first_file(paths, is_file@) == first_file(
                paths.skip(i as int),
                is_file@.skip(i as int),
            ),
        decreases candidates@.len() - i,
    {
        proof {
            assert(paths.skip(i as int)[0] == candidates@[i as int]@);
            assert(is_file@.skip(i as int)[0] == is_file@[i as int]);
            assert(paths.skip(i as int).drop_first() == paths.skip(i + 1));
            assert(is_file@.skip(i as int).drop_first() == is_file@.skip(i + 1));
        }
        if is_file[i] {
            assert(candidates.deep_view()[i as int] == candidates@[i as int]@);
            return Ok(candidates[i].clone());
        }
        i = i + 1;
    }
    let mut m = "ZCode não encontrado em ".to_owned();
    let list = joined(candidates, "; ");
    m.append(list.as_str());
    m.append(". Instale o ZCode desktop ou informe --runtime / ZCODE_CJS.");
    Err(ConfigError::NotFound(m))
}

/// Where the runtime is looked for on this machine: as `zcode_candidates` says,
/// below the user's home directory.
pub fn zcode_candidates_here(
    env: &Option<String>,
    cfg: &FileConfig,
    local: &Option<String>,
) -> (r: Vec<String>)
    ensures
        exists|home: Option<Seq<char>>|
            r.deep_view() == #[trigger] candidate_paths(
                env.deep_view(),
                cfg.runtime.zcode_cjs@,
                local.deep_view(),
                home,
            ),
{
    let home = user_home_dir();
    zcode_candidates(env, cfg, local, &home)
}

/// Where the configuration lies.
pub fn config_path() -> (r: String)
    ensures
        exists|base: Option<Seq<char>>| r@ == #[trigger] app_file(base, "config.toml"@),
{
    let base = user_config_dir();
    let r = match &base {
        Some(b) => app_file_in(Some(b.as_str()), "config.toml"),
        None => app_file_in(None, "config.toml"),
    };
    assert(r@ == app_file(base.deep_view(), "config.toml"@));
    r
}

// ---------------------------------------------------------------- laws

/// A text is parted at the first such character: the two halves with it between
/// them are the text, and the first half does not hold it.
pub proof fn law_split_once(s: Seq<char>, c: char)
    ensures
        match split_once(s, c) {
            Some((a, b)) => a + seq![c] + b == s && !a.contains(c),
            None => !s.contains(c),
        },
    decreases s.len(),
{
    if s.len() > 0 {
        if s[0] == c {
            assert(Seq::<char>::empty() + seq![c] + s.drop_first() =~= s);
        } else {
            law_split_once(s.drop_first(), c);
            match split_once(s.drop_first(), c) {
                Some((a, b)) => {
                    let x = seq![s[0]] + a;
                    assert(seq![s[0]] + (a + seq![c] + b) =~= s);
                    assert(x + seq![c] + b =~= s);
                    if x.contains(c) {
                        let k = choose|k: int| 0 <= k < x.len() && x[k] == c;
                        assert(a[k - 1] == c);
                    }
                },
                None => {
                    if s.contains(c) {
                        let k = choose|k: int| 0 <= k < s.len() && s[k] == c;
                        assert(s.drop_first()[k - 1] == c);
                    }
                },
            }
        }
    }
}

/// A model is its provider and its id with a slash between them, and neither is
/// empty; what has no slash is none.
pub proof fn law_model_ref(model: Seq<char>)
    ensures
        match model_ref(model) {
            Some((p, id)) => p + seq!['/'] + id == trim(model) && p.len() > 0 && id.len() > 0
                && !p.contains('/'),
            None => !trim(model).contains('/') || trim(model)[0] == '/' || trim(model).last() == '/',
        },
{
    law_split_once(trim(model), '/');
    match split_once(trim(model), '/') {
        Some((p, id)) => {
            assert((p + seq!['/'] + id)[p.len() as int] == '/');
        },
        None => {},
    }
}

/// A setting of the file counts, and where it is missing its default does.
pub proof fn law_config_reads_its_entries(v: JsonView, section: JsonView, t: Seq<char>, n: u64, ws: Seq<char>, c: FileConfigView)
    requires
        config_of(v, ws) == Some(c),
        section is Obj,
    ensures
        v.get("runtime"@) == Some(section) && section.get("zcode_cjs"@) == Some(JsonView::Str(t))
            ==> c.runtime.zcode_cjs == t,
        v.get("runtime"@) == Some(section) && section.get("node"@) == Some(JsonView::Str(t))
            ==> c.runtime.node == t,
        v.get("default"@) == Some(section) && section.get("workspace"@) == Some(JsonView::Str(t))
            ==> c.default.workspace == t,
        v.get("default"@) == Some(section) && section.get("mode"@) == Some(JsonView::Str(t))
            ==> c.default.mode == t,
        v.get("default"@) == Some(section) && section.get("model"@) == Some(JsonView::Str(t))
            ==> c.default.model == t,
        v.get("default"@) == Some(section) && section.get("thought_level"@) == Some(
            JsonView::Str(t),
        ) ==> c.default.thought_level == t,
        v.get("ui"@) == Some(section) && section.get("theme"@) == Some(JsonView::Str(t))
            ==> c.ui.theme == t,
        v.get("ui"@) == Some(section) && section.get("stream_refresh_ms"@) == Some(
            JsonView::Int(n as int),
        ) ==> c.ui.stream_refresh_ms == n,
        v.get("default"@) is None ==> c.default.workspace == ws,
{
}

/// A file without settings gives the defaults.
pub proof fn law_empty_config_is_the_default(ws: Seq<char>)
    ensures
        config_of(JsonView::Obj(Map::empty()), ws) == Some(config_defaults(ws)),
        config_defaults(ws).default.workspace == ws,
        config_defaults(ws).default.mode == "build"@,
        config_defaults(ws).runtime.node == "node"@,
        config_defaults(ws).ui.theme == "dark"@,
{
}

/// The first of the places that holds a file is taken: none before it does, and
/// where none is taken none does.
pub proof fn law_first_file(paths: Seq<Seq<char>>, is_file: Seq<bool>)
    requires
        paths.len() == is_file.len(),
    ensures
        match first_file(paths, is_file) {
            Some(p) => exists|i: int|
                0 <= i < paths.len() && #[trigger] paths[i] == p && is_file[i] && (forall|j: int|
                    0 <= j < i ==> !(#[trigger] is_file[j])),
            None => forall|i: int| 0 <= i < is_file.len() ==> !(#[trigger] is_file[i]),
        },
    decreases paths.len(),
{
    if paths.len() > 0 {
        if is_file[0] {
            assert(paths[0] == paths[0]);
        } else {
            let ps = paths.drop_first();
            let fs = is_file.drop_first();
            law_first_file(ps, fs);
            match first_file(ps, fs) {
                Some(p) => {
                    let i = choose|i: int|
                        0 <= i < ps.len() && #[trigger] ps[i] == p && fs[i] && (forall|j: int|
                            0 <= j < i ==> !(#[trigger] fs[j]));
                    assert(paths[i + 1] == p && is_file[i + 1]);
                    assert forall|j: int| 0 <= j < i + 1 implies !(#[trigger] is_file[j]) by {
                        if j > 0 {
                            assert(fs[j - 1] == is_file[j]);
                        }
                    }
                },
                None => {
                    assert forall|i: int| 0 <= i < is_file.len() implies !(#[trigger] is_file[i]) by {
                        if i > 0 {
                            assert(fs[i - 1] == is_file[i]);
                        }
                    }
                },
            }
        }
    }
}

/// The place that the environment names comes before the one that the file
/// names, and both before those that are searched.
pub proof fn law_named_places_first(
    env: Seq<char>,
    configured: Seq<char>,
    local: Option<Seq<char>>,
    home: Option<Seq<char>>,
)
    requires
        trim(env).len() > 0,
        trim(configured).len() > 0,
    ensures
        candidate_paths(Some(env), configured, local, home)[0] == env,
        candidate_paths(Some(env), configured, local, home)[1] == configured,
        candidate_paths(None, configured, local, home)[0] == configured,
        candidate_paths(Some(env), configured, local, home).len() == 2 + candidate_paths(
            None,
            Seq::empty(),
            local,
            home,
        ).len(),
{
    assert(trim(Seq::<char>::empty()).len() == 0);
}

/// Where nothing is found every place is told.
pub proof fn law_missing_runtime_tells_places(paths: Seq<Seq<char>>, i: int)
    requires
        0 <= i < paths.len(),
    ensures
        contains(no_runtime_text(paths), paths[i]),
        contains(no_override_text(paths[i]), paths[i]),
        contains(bad_model_text(paths[i]), trim(paths[i])),
{
    broadcast use group_contains;

    let all = no_runtime_text(paths);
    law_join_holds(paths, "; "@, i);
    assert(contains(all, join(paths, "; "@)));
    lemma_contains_trans(all, join(paths, "; "@), paths[i]);
}

/// A plain name or a path with a drive is kept; a path without one is the
/// absolute path that it stands for.
pub proof fn law_workspace_path(input: Seq<char>, absolute: Seq<char>)
    requires
        !absolute.contains('\\'),
        !clean_path(input).contains('\\'),
    ensures
        path_like(clean_path(input)) && !has_drive(clean_path(input)) ==> workspace_path(
            input,
            Some(absolute),
        ) == absolute,
        !path_like(clean_path(input)) || has_drive(clean_path(input)) ==> workspace_path(
            input,
            Some(absolute),
        ) == clean_path(input),
        workspace_path(input, None) == clean_path(input),
{
    law_replace(absolute, Seq::empty(), '\\', "/"@);
    law_replace(clean_path(input), Seq::empty(), '\\', "/"@);
}

/// A path without quotes and white space around it is kept as it is, and one in
/// quotes is the path between them.
pub proof fn law_clean_path(p: Seq<char>)
    requires
        p.len() > 0,
        !is_white(p[0]) && !is_white(p.last()),
        p[0] != '"' && p.last() != '"',
    ensures
        clean_path(p) == p,
        clean_path(seq!['"'] + p + seq!['"']) == p,
{
    lemma_trim_solid(p);
    let q = seq!['"'] + p + seq!['"'];
    lemma_trim_solid(q);
    let r = p + seq!['"'];
    reveal_with_fuel(strip_front, 3);
    reveal_with_fuel(strip_back, 3);
    assert(q.drop_first() =~= r);
    assert(strip_front(q, '"') == strip_front(r, '"'));
    assert(strip_front(r, '"') == r);
    assert(r.drop_last() =~= p);
    assert(strip_back(r, '"') == strip_back(p, '"'));
    assert(strip_back(p, '"') == p);
}

} // verus!
