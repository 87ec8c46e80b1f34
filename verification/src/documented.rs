//! The documented configuration fields (default value and Chinese comment
//! each), and the filling-in of missing fields into an existing TOML
//! document, as `doctor --fix` uses it: existing values, comments and
//! formatting are kept.

use vstd::prelude::*;
use toml_edit::Decor;
use toml_edit::DocumentMut;
use toml_edit::Key;
use toml_edit::Item;
use toml_edit::Table;
use toml_edit::Value;
use crate::text::chars_to_string;
use crate::text::decimal;
use crate::text::push_str;
use crate::text::str_chars;
use crate::text::views;

verus! {

#[verifier::external_type_specification]
#[verifier::external_body]
pub struct ExDocumentMut(toml_edit::DocumentMut);

/// The default value of a documented field.
#[derive(Debug)]
pub enum DocValue {
    Int(i64),
    Str(String),
    Bool(bool),
    /// A float, as its TOML literal (e.g. `0.7`).
    Float(String),
}

/// A documented field: its table (none for a top-level key), key, default
/// value and comment.
#[derive(Debug)]
pub struct DocumentedField {
    pub section: Option<String>,
    pub key: String,
    pub value: DocValue,
    pub comment: String,
}

/// A default value, as plain values.
pub enum DefaultSpec {
    Int(i64),
    Text(Seq<char>),
    Flag(bool),
    Decimal(Seq<char>),
}

/// A documented field, as plain values.
pub struct FieldSpec {
    pub section: Option<Seq<char>>,
    pub key: Seq<char>,
    pub value: DefaultSpec,
    pub comment: Seq<char>,
}

pub open spec fn value_spec(v: DocValue) -> DefaultSpec {
    match v {
        DocValue::Int(n) => DefaultSpec::Int(n),
        DocValue::Str(s) => DefaultSpec::Text(s@),
        DocValue::Bool(b) => DefaultSpec::Flag(b),
        DocValue::Float(t) => DefaultSpec::Decimal(t@),
    }
}

pub open spec fn opt_view(o: Option<String>) -> Option<Seq<char>> {
    match o {
        Some(s) => Some(s@),
        None => None,
    }
}

pub open spec fn field_spec(f: DocumentedField) -> FieldSpec {
    FieldSpec { section: opt_view(f.section), key: f.key@, value: value_spec(f.value), comment: f.comment@ }
}

pub open spec fn field_specs(v: Seq<DocumentedField>) -> Seq<FieldSpec> {
    v.map_values(|f: DocumentedField| field_spec(f))
}

/// The documented fields in the order of their dotted paths.
pub open spec fn documented_table() -> Seq<FieldSpec> {
    seq![
        FieldSpec { section: None, key: "_config_version"@, value: DefaultSpec::Int(4), comment: "配置格式版本号（用于自动迁移，请勿手动修改）"@ },
        FieldSpec { section: Some("agent"@), key: "connect_timeout"@, value: DefaultSpec::Int(10), comment: "HTTP 连接超时（秒）"@ },
        FieldSpec { section: Some("agent"@), key: "first_byte_timeout"@, value: DefaultSpec::Int(15), comment: "首字节超时（秒），等待模型开始输出的时间"@ },
        FieldSpec { section: Some("agent"@), key: "idle_timeout"@, value: DefaultSpec::Int(120), comment: "流式传输中两个 chunk 之间的空闲超时（秒）"@ },
        FieldSpec { section: Some("agent"@), key: "max_iterations"@, value: DefaultSpec::Int(50), comment: "工具调用循环最大迭代次数"@ },
        FieldSpec { section: Some("agent"@), key: "max_tokens"@, value: DefaultSpec::Int(4096), comment: "单次回复最大 token 数（推理模型会自动放大）"@ },
        FieldSpec { section: Some("agent"@), key: "message_timeout"@, value: DefaultSpec::Int(300), comment: "单条消息处理总超时（秒）"@ },
        FieldSpec { section: Some("agent"@), key: "model"@, value: DefaultSpec::Text("gpt-4o"@), comment: "默认模型名称"@ },
        FieldSpec { section: Some("agent"@), key: "provider"@, value: DefaultSpec::Text(""@), comment: "指定 provider 名称（如 \"openai\"），留空则使用第一个已注册的 provider"@ },
        FieldSpec { section: Some("agent"@), key: "stale_poll_timeout"@, value: DefaultSpec::Int(30), comment: "流式停滞时的轮询间隔（秒）"@ },
        FieldSpec { section: Some("agent"@), key: "streaming"@, value: DefaultSpec::Flag(true), comment: "是否启用流式输出"@ },
        FieldSpec { section: Some("agent"@), key: "temperature"@, value: DefaultSpec::Decimal("0.7"@), comment: "生成温度 (0.0~2.0)，越高越随机"@ },
        FieldSpec { section: Some("agent"@), key: "tool_timeout"@, value: DefaultSpec::Int(60), comment: "工具执行超时（秒）"@ },
        FieldSpec { section: Some("api"@), key: "host"@, value: DefaultSpec::Text("0.0.0.0"@), comment: "API 服务监听地址"@ },
        FieldSpec { section: Some("api"@), key: "max_body_size"@, value: DefaultSpec::Int(10485760), comment: "请求体最大字节数（默认 10MB）"@ },
        FieldSpec { section: Some("api"@), key: "port"@, value: DefaultSpec::Int(8080), comment: "API 服务监听端口"@ },
        FieldSpec { section: Some("cron"@), key: "enabled"@, value: DefaultSpec::Flag(false), comment: "是否启用定时任务调度"@ },
        FieldSpec { section: Some("cron"@), key: "tick_secs"@, value: DefaultSpec::Int(60), comment: "定时任务检查间隔（秒）"@ },
        FieldSpec { section: Some("daemon"@), key: "grace_period_secs"@, value: DefaultSpec::Int(30), comment: "守护进程关闭时等待在途任务的宽限时间（秒）"@ },
        FieldSpec { section: Some("daemon"@), key: "log_format"@, value: DefaultSpec::Text("text"@), comment: "日志格式: text 或 json"@ },
        FieldSpec { section: Some("daemon"@), key: "log_level"@, value: DefaultSpec::Text("info"@), comment: "日志级别: trace, debug, info, warn, error"@ },
        FieldSpec { section: Some("daemon"@), key: "log_retain_days"@, value: DefaultSpec::Int(30), comment: "日志文件保留天数"@ },
        FieldSpec { section: Some("dream"@), key: "enabled"@, value: DefaultSpec::Flag(true), comment: "是否启用记忆整合（dream）"@ },
        FieldSpec { section: Some("dream"@), key: "interval_secs"@, value: DefaultSpec::Int(7200), comment: "dream 周期（秒），默认 2 小时"@ },
        FieldSpec { section: Some("heartbeat"@), key: "enabled"@, value: DefaultSpec::Flag(false), comment: "是否启用心跳检测"@ },
        FieldSpec { section: Some("heartbeat"@), key: "interval_secs"@, value: DefaultSpec::Int(1800), comment: "心跳间隔（秒），默认 30 分钟"@ },
        FieldSpec { section: Some("notifications"@), key: "online_message"@, value: DefaultSpec::Text("🟢 Kestrel v{version} online — {channel} connected"@), comment: "上线通知消息模板，支持 {version} 和 {channel} 占位符"@ },
        FieldSpec { section: Some("notifications"@), key: "online_notify"@, value: DefaultSpec::Flag(true), comment: "渠道连接成功时是否发送上线通知"@ },
        FieldSpec { section: Some("security"@), key: "block_private_ips"@, value: DefaultSpec::Flag(false), comment: "是否禁止访问内网/私有 IP 地址"@ },
    ]
}

/// The tables that documented fields live in.
pub open spec fn documented_sections() -> Seq<Seq<char>> {
    seq!["agent"@, "api"@, "cron"@, "daemon"@, "dream"@, "heartbeat"@, "notifications"@, "security"@]
}

/// The key path of a field inside the document.
pub open spec fn key_path(section: Option<Seq<char>>, key: Seq<char>) -> Seq<Seq<char>> {
    match section {
        Some(s) => seq![s, key],
        None => seq![key],
    }
}

/// The dotted path of a field (e.g. `agent.model`).
pub open spec fn dotted(section: Option<Seq<char>>, key: Seq<char>) -> Seq<char> {
    match section {
        Some(s) => s + "."@ + key,
        None => key,
    }
}

fn documented_field(section: Option<&str>, key: &str, value: DocValue, comment: &str) -> (f: DocumentedField)
    ensures
        opt_view(f.section) == match section {
            Some(s) => Some(s@),
            None => None,
        },
        f.key@ == key@,
        f.value == value,
        f.comment@ == comment@,
{
    let section = match section {
        Some(s) => Some(String::from_str(s)),
        None => None,
    };
    DocumentedField { section, key: String::from_str(key), value, comment: String::from_str(comment) }
}

/// All documented fields, ordered by dotted path.
pub fn all_documented_fields() -> (v: Vec<DocumentedField>)
    ensures
        field_specs(v@) == documented_table(),
{
    let mut v: Vec<DocumentedField> = Vec::new();
    v.push(documented_field(None, "_config_version", DocValue::Int(4), "配置格式版本号（用于自动迁移，请勿手动修改）"));
    v.push(documented_field(Some("agent"), "connect_timeout", DocValue::Int(10), "HTTP 连接超时（秒）"));
    v.push(documented_field(Some("agent"), "first_byte_timeout", DocValue::Int(15), "首字节超时（秒），等待模型开始输出的时间"));
    v.push(documented_field(Some("agent"), "idle_timeout", DocValue::Int(120), "流式传输中两个 chunk 之间的空闲超时（秒）"));
    v.push(documented_field(Some("agent"), "max_iterations", DocValue::Int(50), "工具调用循环最大迭代次数"));
    v.push(documented_field(Some("agent"), "max_tokens", DocValue::Int(4096), "单次回复最大 token 数（推理模型会自动放大）"));
    v.push(documented_field(Some("agent"), "message_timeout", DocValue::Int(300), "单条消息处理总超时（秒）"));
    v.push(documented_field(Some("agent"), "model", DocValue::Str(String::from_str("gpt-4o")), "默认模型名称"));
    v.push(documented_field(Some("agent"), "provider", DocValue::Str(String::from_str("")), "指定 provider 名称（如 \"openai\"），留空则使用第一个已注册的 provider"));
    v.push(documented_field(Some("agent"), "stale_poll_timeout", DocValue::Int(30), "流式停滞时的轮询间隔（秒）"));
    v.push(documented_field(Some("agent"), "streaming", DocValue::Bool(true), "是否启用流式输出"));
    v.push(documented_field(Some("agent"), "temperature", DocValue::Float(String::from_str("0.7")), "生成温度 (0.0~2.0)，越高越随机"));
    v.push(documented_field(Some("agent"), "tool_timeout", DocValue::Int(60), "工具执行超时（秒）"));
    v.push(documented_field(Some("api"), "host", DocValue::Str(String::from_str("0.0.0.0")), "API 服务监听地址"));
    v.push(documented_field(Some("api"), "max_body_size", DocValue::Int(10485760), "请求体最大字节数（默认 10MB）"));
    v.push(documented_field(Some("api"), "port", DocValue::Int(8080), "API 服务监听端口"));
    v.push(documented_field(Some("cron"), "enabled", DocValue::Bool(false), "是否启用定时任务调度"));
    v.push(documented_field(Some("cron"), "tick_secs", DocValue::Int(60), "定时任务检查间隔（秒）"));
    v.push(documented_field(Some("daemon"), "grace_period_secs", DocValue::Int(30), "守护进程关闭时等待在途任务的宽限时间（秒）"));
    v.push(documented_field(Some("daemon"), "log_format", DocValue::Str(String::from_str("text")), "日志格式: text 或 json"));
    v.push(documented_field(Some("daemon"), "log_level", DocValue::Str(String::from_str("info")), "日志级别: trace, debug, info, warn, error"));
    v.push(documented_field(Some("daemon"), "log_retain_days", DocValue::Int(30), "日志文件保留天数"));
    v.push(documented_field(Some("dream"), "enabled", DocValue::Bool(true), "是否启用记忆整合（dream）"));
    v.push(documented_field(Some("dream"), "interval_secs", DocValue::Int(7200), "dream 周期（秒），默认 2 小时"));
    v.push(documented_field(Some("heartbeat"), "enabled", DocValue::Bool(false), "是否启用心跳检测"));
    v.push(documented_field(Some("heartbeat"), "interval_secs", DocValue::Int(1800), "心跳间隔（秒），默认 30 分钟"));
    v.push(documented_field(Some("notifications"), "online_message", DocValue::Str(String::from_str("🟢 Kestrel v{version} online — {channel} connected")), "上线通知消息模板，支持 {version} 和 {channel} 占位符"));
    v.push(documented_field(Some("notifications"), "online_notify", DocValue::Bool(true), "渠道连接成功时是否发送上线通知"));
    v.push(documented_field(Some("security"), "block_private_ips", DocValue::Bool(false), "是否禁止访问内网/私有 IP 地址"));
    assert(field_specs(v@) =~= documented_table());
    v
}

/// The dotted path of a field.
pub fn field_path(f: &DocumentedField) -> (p: String)
    ensures
        p@ == dotted(opt_view(f.section), f.key@),
{
    match &f.section {
        Some(s) => {
            let mut c = str_chars(s.as_str());
            push_str(&mut c, ".");
            push_str(&mut c, f.key.as_str());
            chars_to_string(&c)
        },
        None => f.key.clone(),
    }
}

// ---------------------------------------------------------------------------
// The TOML document
// ---------------------------------------------------------------------------

/// What a document holds at a value's path: the text written before its key
/// (the key's decor prefix, when one is set) and the value's representation
/// (`Formatted::display_repr`).
pub type ValueEntry = (Option<Seq<char>>, Seq<char>);

/// The key paths present in a document, reached from the root through
/// standard tables (`[section]` or dotted-key tables; not inline tables),
/// each with whether the item there is itself a standard table.
pub uninterp spec fn doc_items(doc: DocumentMut) -> Map<Seq<Seq<char>>, bool>;

/// The values of a document: for each key path reached from the root through
/// standard tables whose item is a value (`Item::Value`), its `ValueEntry`.
pub uninterp spec fn doc_values(doc: DocumentMut) -> Map<Seq<Seq<char>>, ValueEntry>;

/// What `toml_edit` renders a document as.
pub uninterp spec fn rendered(doc: DocumentMut) -> Seq<char>;

/// The items and values of the document that TOML text parses to, or
/// nothing when it is not valid TOML.
pub uninterp spec fn parsed_document(raw: Seq<char>) -> Option<(Map<Seq<Seq<char>>, bool>, Map<Seq<Seq<char>>, ValueEntry>)>;

/// The representation of the value that a TOML value literal parses to
/// (`str::parse::<Value>`), or nothing when the text is not one.
pub uninterp spec fn parsed_literal(text: Seq<char>) -> Option<Seq<char>>;

/// How `toml_edit` writes a text value by default (its string encoder:
/// quotes and escapes).
pub uninterp spec fn toml_str_repr(text: Seq<char>) -> Seq<char>;

/// A document as plain values: its items and its values.
pub struct DocModel {
    pub items: Map<Seq<Seq<char>>, bool>,
    pub values: Map<Seq<Seq<char>>, ValueEntry>,
}

pub open spec fn doc_model(d: DocumentMut) -> DocModel {
    DocModel { items: doc_items(d), values: doc_values(d) }
}

/// Decimal text of an integer, with `-` when negative (`i64`'s `Display`).
pub open spec fn int_text(n: i64) -> Seq<char> {
    if n < 0 {
        "-"@ + decimal((-(n as int)) as nat)
    } else {
        decimal(n as nat)
    }
}

/// `true` or `false` (`bool`'s `Display`).
pub open spec fn bool_text(b: bool) -> Seq<char> {
    if b {
        "true"@
    } else {
        "false"@
    }
}

/// A default value can be turned into a TOML value.
pub open spec fn convertible(v: DefaultSpec) -> bool {
    match v {
        DefaultSpec::Decimal(t) => parsed_literal(t) is Some,
        _ => true,
    }
}

/// The representation written for a default value.
pub open spec fn repr_of(v: DefaultSpec) -> Seq<char> {
    match v {
        DefaultSpec::Int(n) => int_text(n),
        DefaultSpec::Text(t) => toml_str_repr(t),
        DefaultSpec::Flag(b) => bool_text(b),
        DefaultSpec::Decimal(t) => match parsed_literal(t) {
            Some(r) => r,
            None => Seq::empty(),
        },
    }
}

/// Parse TOML text into an editable document, by `str::parse::<DocumentMut>`;
/// the error is `toml_edit`'s message.
#[verifier::external_body]
fn parse_document(raw: &str) -> (r: Result<DocumentMut, String>)
    ensures
        r is Ok <==> parsed_document(raw@) is Some,
        r matches Ok(d) ==> parsed_document(raw@) == Some((doc_items(d), doc_values(d))),
{
    raw.parse::<DocumentMut>().map_err(|e| e.to_string())
}

/// Render a document, by its `Display` (`to_string`).
#[verifier::external_body]
fn render_document(doc: &DocumentMut) -> (r: String)
    ensures
        r@ == rendered(*doc),
{
    doc.to_string()
}

/// Look up a top-level key, by `DocumentMut::as_table` and `Table::get`
/// (which skips empty items): whether it is there, and whether it is a
/// standard table (`Item::is_table`).
#[verifier::external_body]
fn root_entry(doc: &DocumentMut, key: &str) -> (r: Option<bool>)
    ensures
        r == (if doc_items(*doc).contains_key(seq![key@]) {
            Some(doc_items(*doc)[seq![key@]])
        } else {
            None
        }),
{
    match doc.as_table().get(key) {
        Some(item) => Some(item.is_table()),
        None => None,
    }
}

/// Whether a standard table `section` holds `key`, by `Table::get`,
/// `Item::as_table` and `Table::contains_key`.
#[verifier::external_body]
fn section_has(doc: &DocumentMut, section: &str, key: &str) -> (r: bool)
    ensures
        r == doc_items(*doc).contains_key(seq![section@, key@]),
{
    match doc.as_table().get(section).and_then(Item::as_table) {
        Some(t) => t.contains_key(key),
        None => false,
    }
}

/// Add an empty standard table under a top-level key that is absent, by
/// `Table::insert` with `Item::Table(Table::new())`; no value is added.
#[verifier::external_body]
fn insert_root_table(doc: &mut DocumentMut, key: &str)
    requires
        !doc_items(*old(doc)).contains_key(seq![key@]),
    ensures
        doc_items(*final(doc)) == doc_items(*old(doc)).insert(seq![key@], true),
        doc_values(*final(doc)) == doc_values(*old(doc)),
{
    doc.as_table_mut().insert(key, Item::Table(Table::new()));
}

/// Add a value under an absent top-level key, with `prefix` written before
/// the key: the value by `Value::from` (integer, text, boolean) or, for a
/// float literal, `str::parse::<Value>` (no change when it does not parse);
/// the key by `Key::new` with `Decor::new(prefix, " ")` as its decor; the
/// pair by `Table::insert_formatted`.
#[verifier::external_body]
fn insert_root_value(doc: &mut DocumentMut, key: &str, value: &DocValue, prefix: &str) -> (r: bool)
    requires
        !doc_items(*old(doc)).contains_key(seq![key@]),
    ensures
        r == match *value {
            DocValue::Float(t) => parsed_literal(t@) is Some,
            _ => true,
        },
        r ==> doc_items(*final(doc)) == doc_items(*old(doc)).insert(seq![key@], false)
            && doc_values(*final(doc)) == doc_values(*old(doc)).insert(
            seq![key@],
            (
                Some(prefix@),
                match *value {
                    DocValue::Int(n) => int_text(n),
                    DocValue::Str(t) => toml_str_repr(t@),
                    DocValue::Bool(b) => bool_text(b),
                    DocValue::Float(t) => parsed_literal(t@)->0,
                },
            ),
        ),
        !r ==> *final(doc) == *old(doc),
{
    let v = match value {
        DocValue::Int(n) => Value::from(*n),
        DocValue::Str(s) => Value::from(s.as_str()),
        DocValue::Bool(b) => Value::from(*b),
        DocValue::Float(t) => match t.parse::<Value>() {
            Ok(v) => v,
            Err(_) => return false,
        },
    };
    let k = Key::new(key).with_leaf_decor(Decor::new(prefix, " "));
    doc.as_table_mut().insert_formatted(&k, Item::Value(v));
    true
}

/// Add a value under an absent key of the standard table `section`, with
/// `prefix` written before the key: value and key as `insert_root_value`
/// makes them, the pair by `Table::get_mut`, `Item::as_table_mut` and
/// `Table::insert_formatted`.
#[verifier::external_body]
fn insert_section_value(doc: &mut DocumentMut, section: &str, key: &str, value: &DocValue, prefix: &str) -> (r: bool)
    requires
        doc_items(*old(doc)).contains_key(seq![section@]),
        doc_items(*old(doc))[seq![section@]],
        !doc_items(*old(doc)).contains_key(seq![section@, key@]),
    ensures
        r == match *value {
            DocValue::Float(t) => parsed_literal(t@) is Some,
            _ => true,
        },
        r ==> doc_items(*final(doc)) == doc_items(*old(doc)).insert(seq![section@, key@], false)
            && doc_values(*final(doc)) == doc_values(*old(doc)).insert(
            seq![section@, key@],
            (
                Some(prefix@),
                match *value {
                    DocValue::Int(n) => int_text(n),
                    DocValue::Str(t) => toml_str_repr(t@),
                    DocValue::Bool(b) => bool_text(b),
                    DocValue::Float(t) => parsed_literal(t@)->0,
                },
            ),
        ),
        !r ==> *final(doc) == *old(doc),
{
    let v = match value {
        DocValue::Int(n) => Value::from(*n),
        DocValue::Str(s) => Value::from(s.as_str()),
        DocValue::Bool(b) => Value::from(*b),
        DocValue::Float(t) => match t.parse::<Value>() {
            Ok(v) => v,
            Err(_) => return false,
        },
    };
    let k = Key::new(key).with_leaf_decor(Decor::new(prefix, " "));
    if let Some(t) = doc.as_table_mut().get_mut(section).and_then(Item::as_table_mut) {
        t.insert_formatted(&k, Item::Value(v));
    }
    true
}

/// The comment line written above a documented field: `# <comment>` and a
/// line break.
pub open spec fn comment_line(comment: Seq<char>) -> Seq<char> {
    "# "@ + comment + "\n"@
}

/// Computes `comment_line`.
fn comment_prefix(comment: &str) -> (r: String)
    ensures
        r@ == comment_line(comment@),
{
    let mut c = str_chars("# ");
    push_str(&mut c, comment);
    push_str(&mut c, "\n");
    chars_to_string(&c)
}

/// What a document holds for a field filled in: its comment line before
/// the default value's representation.
pub open spec fn default_entry(f: FieldSpec) -> ValueEntry {
    (Some(comment_line(f.comment)), repr_of(f.value))
}

/// The field's table is present but written some other way than as a
/// standard table (inline, or a value): such a field is skipped.
pub open spec fn blocked(items: Map<Seq<Seq<char>>, bool>, f: FieldSpec) -> bool {
    match f.section {
        Some(s) => items.contains_key(seq![s]) && !items[seq![s]],
        None => false,
    }
}

/// The model with the field's table created when absent.
pub open spec fn with_table(m: DocModel, f: FieldSpec) -> DocModel {
    match f.section {
        Some(s) => if m.items.contains_key(seq![s]) {
            m
        } else {
            DocModel { items: m.items.insert(seq![s], true), values: m.values }
        },
        None => m,
    }
}

/// The document after `insert_field` of `f`: nothing changes when the field
/// is present or its table is written otherwise; else its table is created
/// when absent, then its default is added under its comment (when the
/// default converts).
pub open spec fn insert_step(m: DocModel, f: FieldSpec) -> DocModel {
    let kp = key_path(f.section, f.key);
    if m.items.contains_key(kp) || blocked(m.items, f) {
        m
    } else {
        let t = with_table(m, f);
        if convertible(f.value) {
            DocModel { items: t.items.insert(kp, false), values: t.values.insert(kp, default_entry(f)) }
        } else {
            t
        }
    }
}

/// `f` is inserted into a document with this model.
pub open spec fn inserted_by(m: DocModel, f: FieldSpec) -> bool {
    !m.items.contains_key(key_path(f.section, f.key)) && !blocked(m.items, f) && convertible(f.value)
}

/// The document after inserting the missing fields of `fs` in order.
pub open spec fn items_after(m: DocModel, fs: Seq<FieldSpec>) -> DocModel
    decreases fs.len(),
{
    if fs.len() == 0 {
        m
    } else {
        insert_step(items_after(m, fs.drop_last()), fs.last())
    }
}

/// The dotted paths inserted, in order.
pub open spec fn paths_inserted(m: DocModel, fs: Seq<FieldSpec>) -> Seq<Seq<char>>
    decreases fs.len(),
{
    if fs.len() == 0 {
        Seq::empty()
    } else {
        let before = items_after(m, fs.drop_last());
        let rest = paths_inserted(m, fs.drop_last());
        if inserted_by(before, fs.last()) {
            rest.push(dotted(fs.last().section, fs.last().key))
        } else {
            rest
        }
    }
}

/// Whether a dotted field path is already in the document.
fn field_exists(doc: &DocumentMut, section: &Option<String>, key: &str) -> (r: bool)
    ensures
        r == doc_items(*doc).contains_key(key_path(opt_view(*section), key@)),
{
    match section {
        Some(s) => section_has(doc, s.as_str(), key),
        None => root_entry(doc, key).is_some(),
    }
}

/// Insert a field's value, with its comment above it, creating its table
/// when absent; a field whose table is written otherwise is skipped.
/// Returns whether the value was inserted.
fn insert_field(doc: &mut DocumentMut, section: &Option<String>, key: &str, value: &DocValue, comment: &str) -> (r: bool)
    requires
        !doc_items(*old(doc)).contains_key(key_path(opt_view(*section), key@)),
    ensures
        r == inserted_by(
            doc_model(*old(doc)),
            FieldSpec { section: opt_view(*section), key: key@, value: value_spec(*value), comment: comment@ },
        ),
        doc_model(*final(doc)) == insert_step(
            doc_model(*old(doc)),
            FieldSpec { section: opt_view(*section), key: key@, value: value_spec(*value), comment: comment@ },
        ),
{
    let prefix = comment_prefix(comment);
    match section {
        Some(s) => {
            match root_entry(doc, s.as_str()) {
                Some(false) => return false,
                Some(true) => {},
                None => {
                    insert_root_table(doc, s.as_str());
                    assert(seq![s@, key@].len() != seq![s@].len());
                },
            }
            insert_section_value(doc, s.as_str(), key, value, prefix.as_str())
        },
        None => insert_root_value(doc, key, value, prefix.as_str()),
    }
}

/// Insert every documented field missing from the document, each with its
/// comment above it, creating tables as needed and skipping fields whose
/// table is written otherwise; existing values, comments and formatting
/// stay. Returns the dotted paths inserted, in order.
pub fn insert_missing_fields(doc: &mut DocumentMut) -> (r: Vec<String>)
    ensures
        doc_model(*final(doc)) == items_after(doc_model(*old(doc)), documented_table()),
        views(r@) == paths_inserted(doc_model(*old(doc)), documented_table()),
{
    let fields = all_documented_fields();
    let ghost start = doc_model(*doc);
    let ghost table = documented_table();
    let mut out: Vec<String> = Vec::new();
    let mut i: usize = 0;
    while i < fields.len()
        invariant
            i <= fields@.len(),
            field_specs(fields@) == table,
            table == documented_table(),
            doc_model(*doc) == items_after(start, table.take(i as int)),
            views(out@) == paths_inserted(start, table.take(i as int)),
        decreases fields.len() - i,
    {
        let f = &fields[i];
        let ghost fs = table[i as int];
        proof {
            assert(table.take(i + 1).drop_last() =~= table.take(i as int));
            assert(table.take(i + 1).last() == fs);
            assert(fs == field_spec(*f));
        }
        if !field_exists(doc, &f.section, f.key.as_str()) {
            if insert_field(doc, &f.section, f.key.as_str(), &f.value, f.comment.as_str()) {
                let p = field_path(f);
                out.push(p);
                proof {
                    assert(views(out@) =~= paths_inserted(start, table.take(i + 1)));
                }
            }
        }
        i = i + 1;
    }
    assert(table.take(i as int) =~= table);
    out
}

/// The model of a parsed document.
pub open spec fn parsed_model(p: (Map<Seq<Seq<char>>, bool>, Map<Seq<Seq<char>>, ValueEntry>)) -> DocModel {
    DocModel { items: p.0, values: p.1 }
}

/// The documented fields missing from TOML text (found by inserting them
/// into the parsed document), and whether a fix is due: only when `fix` is
/// asked and something is missing. Invalid TOML gives the parser's message.
pub fn check_and_fix(raw_toml: &str, fix: bool) -> (r: Result<(Vec<String>, bool), String>)
    ensures
        r is Ok <==> parsed_document(raw_toml@) is Some,
        parsed_document(raw_toml@) matches Some(m) ==> (r matches Ok((missing, fixed))
            && views(missing@) == paths_inserted(parsed_model(m), documented_table())
            && fixed == (fix && missing@.len() > 0)),
{
    let mut doc = match parse_document(raw_toml) {
        Ok(d) => d,
        Err(e) => return Err(e),
    };
    let missing = insert_missing_fields(&mut doc);
    if missing.len() == 0 || !fix {
        return Ok((missing, false));
    }
    Ok((missing, true))
}

/// Parse TOML text, insert the missing documented fields, and return the
/// inserted paths with the updated text.
pub fn apply_fix(raw_toml: &str) -> (r: Result<(Vec<String>, String), String>)
    ensures
        r is Ok <==> parsed_document(raw_toml@) is Some,
        parsed_document(raw_toml@) matches Some(m) ==> (r matches Ok((missing, text))
            && views(missing@) == paths_inserted(parsed_model(m), documented_table())
            && exists|d: DocumentMut| #[trigger] doc_model(d) == items_after(parsed_model(m), documented_table())
                && text@ == rendered(d)),
{
    let mut doc = match parse_document(raw_toml) {
        Ok(d) => d,
        Err(e) => return Err(e),
    };
    let missing = insert_missing_fields(&mut doc);
    let text = render_document(&doc);
    Ok((missing, text))
}

// ---------------------------------------------------------------------------
// Laws of filling in
// ---------------------------------------------------------------------------

/// Filling in fields keeps every item the document already had, with its
/// kind, and every value it had, with its comment and representation:
/// existing values are never replaced.
pub proof fn law_fill_keeps_existing(m: DocModel, fs: Seq<FieldSpec>, p: Seq<Seq<char>>)
    ensures
        m.items.contains_key(p) ==> items_after(m, fs).items.contains_key(p) && items_after(m, fs).items[p] == m.items[p],
        m.values.contains_key(p) && m.items.contains_key(p) ==> items_after(m, fs).values.contains_key(p)
            && items_after(m, fs).values[p] == m.values[p],
    decreases fs.len(),
{
    if fs.len() > 0 {
        law_fill_keeps_existing(m, fs.drop_last(), p);
    }
}

/// A field that was filled in holds, at the end, its default under its
/// comment: later fields never overwrite it.
pub proof fn law_filled_field_holds_default(m: DocModel, fs: Seq<FieldSpec>, i: int)
    requires
        0 <= i < fs.len(),
        inserted_by(items_after(m, fs.take(i)), fs[i]),
    ensures
        items_after(m, fs).values.contains_key(key_path(fs[i].section, fs[i].key)),
        items_after(m, fs).values[key_path(fs[i].section, fs[i].key)] == default_entry(fs[i]),
{
    let kp = key_path(fs[i].section, fs[i].key);
    let after_i = items_after(m, fs.take(i + 1));
    assert(fs.take(i + 1).drop_last() =~= fs.take(i));
    assert(after_i.items.contains_key(kp) && after_i.values[kp] == default_entry(fs[i]));
    lemma_rest_keeps(m, fs, i + 1, kp);
}

proof fn lemma_rest_keeps(m: DocModel, fs: Seq<FieldSpec>, j: int, p: Seq<Seq<char>>)
    requires
        0 <= j <= fs.len(),
        items_after(m, fs.take(j)).items.contains_key(p),
        items_after(m, fs.take(j)).values.contains_key(p),
    ensures
        items_after(m, fs).items.contains_key(p),
        items_after(m, fs).values.contains_key(p),
        items_after(m, fs).values[p] == items_after(m, fs.take(j)).values[p],
    decreases fs.len() - j,
{
    if j < fs.len() {
        assert(fs.take(j + 1).drop_last() =~= fs.take(j));
        lemma_rest_keeps(m, fs, j + 1, p);
    } else {
        assert(fs.take(j) =~= fs);
    }
}

/// Filling in twice changes nothing the second time: nothing is missing any
/// more.
pub proof fn law_fill_idempotent(m: DocModel, fs: Seq<FieldSpec>)
    ensures
        items_after(items_after(m, fs), fs) == items_after(m, fs),
        paths_inserted(items_after(m, fs), fs) == Seq::<Seq<char>>::empty(),
{
    let f = items_after(m, fs);
    assert forall|i: int| 0 <= i < fs.len() implies !#[trigger] inserted_by(f, fs[i]) && insert_step(f, fs[i]) == f by {
        law_fill_completes(m, fs, i);
    }
    lemma_fixed_point(f, fs);
}

/// After filling in, each field is present, or its default does not convert,
/// or its table is written otherwise (and filling it in again changes
/// nothing).
pub proof fn law_fill_completes(m: DocModel, fs: Seq<FieldSpec>, i: int)
    requires
        0 <= i < fs.len(),
    ensures
        !inserted_by(items_after(m, fs), fs[i]),
        insert_step(items_after(m, fs), fs[i]) == items_after(m, fs),
{
    let g = fs[i];
    let kp = key_path(g.section, g.key);
    let before = items_after(m, fs.take(i));
    let after = items_after(m, fs.take(i + 1));
    assert(fs.take(i + 1).drop_last() =~= fs.take(i));
    assert(fs.take(i + 1).last() == g);
    let fin = items_after(m, fs);
    if after.items.contains_key(kp) {
        lemma_rest_keeps_items(m, fs, i + 1, kp);
    } else {
        // not inserted: either blocked or not convertible; a table that was
        // written otherwise stays so
        if blocked(before.items, g) {
            let s = g.section->0;
            assert(after.items.contains_key(seq![s]) && !after.items[seq![s]]);
            lemma_rest_keeps_items(m, fs, i + 1, seq![s]);
        } else {
            assert(!convertible(g.value));
            match g.section {
                Some(s) => {
                    assert(after.items.contains_key(seq![s]));
                    lemma_rest_keeps_items(m, fs, i + 1, seq![s]);
                    if fin.items.contains_key(kp) {
                    } else {
                        assert(with_table(fin, g) == fin);
                    }
                },
                None => {},
            }
        }
    }
}

proof fn lemma_rest_keeps_items(m: DocModel, fs: Seq<FieldSpec>, j: int, p: Seq<Seq<char>>)
    requires
        0 <= j <= fs.len(),
        items_after(m, fs.take(j)).items.contains_key(p),
    ensures
        items_after(m, fs).items.contains_key(p),
        items_after(m, fs).items[p] == items_after(m, fs.take(j)).items[p],
    decreases fs.len() - j,
{
    if j < fs.len() {
        assert(fs.take(j + 1).drop_last() =~= fs.take(j));
        lemma_rest_keeps_items(m, fs, j + 1, p);
    } else {
        assert(fs.take(j) =~= fs);
    }
}

proof fn lemma_fixed_point(f: DocModel, fs: Seq<FieldSpec>)
    requires
        forall|i: int| 0 <= i < fs.len() ==> !#[trigger] inserted_by(f, fs[i]) && insert_step(f, fs[i]) == f,
    ensures
        items_after(f, fs) == f,
        paths_inserted(f, fs) == Seq::<Seq<char>>::empty(),
    decreases fs.len(),
{
    if fs.len() > 0 {
        assert forall|i: int| 0 <= i < fs.drop_last().len() implies !#[trigger] inserted_by(f, fs.drop_last()[i])
            && insert_step(f, fs.drop_last()[i]) == f by {
            assert(fs.drop_last()[i] == fs[i]);
        }
        lemma_fixed_point(f, fs.drop_last());
        assert(fs.last() == fs[fs.len() - 1]);
        let j = fs.len() - 1;
        assert(!inserted_by(f, fs[j]) && insert_step(f, fs[j]) == f);
    }
}

} // verus!
