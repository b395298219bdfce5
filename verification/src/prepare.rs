//! Reading a prepare-upload request: the sender's alias and version, and the
//! files it announces, tolerant of the key spellings that clients use.
use vstd::prelude::*;

use crate::json::{
    as_str_spec, get_spec, keys_view, read_string_field, read_string_spec, read_u64_field,
    read_u64_spec, JsonValue,
};
use crate::text::{concat2, str_eq};
use crate::transfer::{opt_view, FileDto, FileDtoView, FileMetadata, FileMetadataView};

verus! {

broadcast use vstd::string::group_string_axioms;

/// Declares `serde_json::Value` so that the parser's converter can name it.
#[verifier::external_type_specification]
#[verifier::external_body]
pub struct ExSerdeJsonValue(serde_json::Value);

/// What `serde_json::from_str::<serde_json::Value>` makes of a text: the
/// document, or the rendered parse error.
pub uninterp spec fn parsed_json(body: Seq<char>) -> Result<JsonValue, Seq<char>>;

/// Converts a `serde_json::Value` into the library's model, variant by variant.
#[verifier::external_body]
fn json_from_serde(v: serde_json::Value) -> JsonValue {
    match v {
        serde_json::Value::Null => JsonValue::Null,
        serde_json::Value::Bool(b) => JsonValue::Bool(b),
        serde_json::Value::Number(n) => match n.as_u64() {
            Some(u) => JsonValue::UInt(u),
            None => JsonValue::OtherNumber,
        },
        serde_json::Value::String(s) => JsonValue::Str(s),
        serde_json::Value::Array(a) => JsonValue::Array(a.into_iter().map(json_from_serde).collect()),
        serde_json::Value::Object(o) => JsonValue::Object(
            o.into_iter().map(|(k, x)| (k, json_from_serde(x))).collect(),
        ),
    }
}

/// `serde_json::from_str::<serde_json::Value>`: the parsed document, or the
/// parse error's message. The result is named `parsed_json` of the text; what
/// that is on a given text is serde_json's grammar and is not stated here.
#[verifier::external_body]
fn parse_json(body: &str) -> (r: Result<JsonValue, String>)
    ensures
        match r {
            Ok(v) => parsed_json(body@) == Ok::<JsonValue, Seq<char>>(v),
            Err(e) => parsed_json(body@) == Err::<JsonValue, Seq<char>>(e@),
        },
{
    match serde_json::from_str::<serde_json::Value>(body) {
        Ok(v) => Ok(json_from_serde(v)),
        Err(e) => Err(e.to_string()),
    }
}

/// Why a prepare-upload body was refused.
#[derive(Debug)]
pub enum PrepareUploadParseError {
    Json(String),
    MissingField(&'static str),
    InvalidField(&'static str),
}

pub enum ParseErrorView {
    Json(Seq<char>),
    MissingField(Seq<char>),
    InvalidField(Seq<char>),
}

impl View for PrepareUploadParseError {
    type V = ParseErrorView;

    open spec fn view(&self) -> ParseErrorView {
        match self {
            PrepareUploadParseError::Json(s) => ParseErrorView::Json(s@),
            PrepareUploadParseError::MissingField(s) => ParseErrorView::MissingField(s@),
            PrepareUploadParseError::InvalidField(s) => ParseErrorView::InvalidField(s@),
        }
    }
}

pub open spec fn parse_error_message(e: ParseErrorView) -> Seq<char> {
    match e {
        ParseErrorView::Json(m) => "json error: "@ + m,
        ParseErrorView::MissingField(f) => "missing field: "@ + f,
        ParseErrorView::InvalidField(f) => "invalid field: "@ + f,
    }
}

impl PrepareUploadParseError {
    /// The error as text (what it displays as).
    pub fn to_string(&self) -> (r: String)
        ensures
            r@ == parse_error_message(self@),
    {
        match self {
            PrepareUploadParseError::Json(m) => concat2("json error: ", m.as_str()),
            PrepareUploadParseError::MissingField(f) => concat2("missing field: ", f),
            PrepareUploadParseError::InvalidField(f) => concat2("invalid field: ", f),
        }
    }
}

/// A prepare-upload request as the receiver uses it.
#[derive(Debug)]
pub struct ParsedPrepareUpload {
    pub sender_alias: String,
    pub sender_version: String,
    pub files: Vec<(String, FileDto)>,
}

pub struct ParsedView {
    pub sender_alias: Seq<char>,
    pub sender_version: Seq<char>,
    pub files: Seq<(Seq<char>, FileDtoView)>,
}

pub open spec fn files_view(files: Seq<(String, FileDto)>) -> Seq<(Seq<char>, FileDtoView)> {
    files.map_values(|e: (String, FileDto)| (e.0@, e.1@))
}

impl View for ParsedPrepareUpload {
    type V = ParsedView;

    open spec fn view(&self) -> ParsedView {
        ParsedView {
            sender_alias: self.sender_alias@,
            sender_version: self.sender_version@,
            files: files_view(self.files@),
        }
    }
}

// ---------------------------------------------------------------- specification

pub open spec fn or_default(o: Option<Seq<char>>, d: Seq<char>) -> Seq<char> {
    match o {
        Some(s) => s,
        None => d,
    }
}

pub open spec fn metadata_spec(m: Option<JsonValue>) -> Option<FileMetadataView> {
    match m {
        Some(v) => if v is Object {
            Some(
                FileMetadataView {
                    modified: read_string_spec(v, seq!["modified"@, "lastModified"@]),
                    accessed: read_string_spec(v, seq!["accessed"@, "lastAccessed"@]),
                },
            )
        } else {
            None
        },
        None => None,
    }
}

/// One file entry read field by field: an object with a name, a size (a
/// number or a numeric string) and a type; a missing id defaults to the
/// entry's key.
pub open spec fn file_dto_spec(map_key: Seq<char>, v: JsonValue) -> Result<FileDtoView, ParseErrorView> {
    if !(v is Object) {
        Err(ParseErrorView::InvalidField("files.*"@))
    } else {
        match read_string_spec(v, seq!["fileName"@, "file_name"@]) {
            None => Err(ParseErrorView::MissingField("files.*.fileName"@)),
            Some(file_name) => match read_u64_spec(v, seq!["size"@]) {
                None => Err(ParseErrorView::MissingField("files.*.size"@)),
                Some(size) => match read_string_spec(v, seq!["fileType"@, "file_type"@]) {
                    None => Err(ParseErrorView::MissingField("files.*.fileType"@)),
                    Some(file_type) => Ok(
                        FileDtoView {
                            id: or_default(read_string_spec(v, seq!["id"@]), map_key),
                            file_name,
                            size,
                            file_type,
                            sha256: read_string_spec(v, seq!["sha256"@, "hash"@]),
                            preview: read_string_spec(v, seq!["preview"@]),
                            metadata: metadata_spec(get_spec(v, "metadata"@)),
                        },
                    ),
                },
            },
        }
    }
}

/// A file's id: its own when it has a non-empty one, else the key it is
/// listed under.
pub open spec fn file_id_spec(id: Option<Seq<char>>, map_key: Seq<char>) -> Seq<char> {
    match id {
        Some(i) => if i.len() > 0 {
            i
        } else {
            map_key
        },
        None => map_key,
    }
}

// The typed reading. A request whose members all have the types the protocol
// gives them is read as a typed document first; only a request that does not
// fit is read field by field. The two readings differ in two places: a typed
// file with an empty id takes its key, and typed metadata knows only
// `modified` and `accessed`.

/// A member that is absent, `null` or a string.
pub open spec fn opt_str_ok(m: Option<JsonValue>) -> bool {
    match m {
        None => true,
        Some(JsonValue::Null) => true,
        Some(JsonValue::Str(_)) => true,
        _ => false,
    }
}

/// A member that is absent or a string (a string with a default).
pub open spec fn str_or_absent(m: Option<JsonValue>) -> bool {
    match m {
        None => true,
        Some(JsonValue::Str(_)) => true,
        _ => false,
    }
}

/// A member that is absent, `null` or a boolean.
pub open spec fn opt_bool_ok(m: Option<JsonValue>) -> bool {
    match m {
        None => true,
        Some(JsonValue::Null) => true,
        Some(JsonValue::Bool(_)) => true,
        _ => false,
    }
}

/// A member that is absent, `null` or a port number.
pub open spec fn opt_port_ok(m: Option<JsonValue>) -> bool {
    match m {
        None => true,
        Some(JsonValue::Null) => true,
        Some(JsonValue::UInt(n)) => n <= 65535,
        _ => false,
    }
}

pub open spec fn typed_metadata_ok(m: Option<JsonValue>) -> bool {
    match m {
        None => true,
        Some(JsonValue::Null) => true,
        Some(v) => v is Object && opt_str_ok(get_spec(v, "modified"@)) && opt_str_ok(get_spec(v, "accessed"@)),
    }
}

pub open spec fn typed_file_ok(v: JsonValue) -> bool {
    &&& v is Object
    &&& str_or_absent(get_spec(v, "id"@))
    &&& get_spec(v, "fileName"@) matches Some(JsonValue::Str(_))
    &&& get_spec(v, "size"@) matches Some(JsonValue::UInt(_))
    &&& get_spec(v, "fileType"@) matches Some(JsonValue::Str(_))
    &&& opt_str_ok(get_spec(v, "hash"@))
    &&& opt_str_ok(get_spec(v, "sha256"@))
    &&& opt_str_ok(get_spec(v, "preview"@))
    &&& typed_metadata_ok(get_spec(v, "metadata"@))
}

pub open spec fn typed_info_ok(v: JsonValue) -> bool {
    &&& v is Object
    &&& get_spec(v, "alias"@) matches Some(JsonValue::Str(_))
    &&& opt_str_ok(get_spec(v, "version"@))
    &&& opt_str_ok(get_spec(v, "deviceModel"@))
    &&& opt_str_ok(get_spec(v, "deviceType"@))
    &&& str_or_absent(get_spec(v, "fingerprint"@))
    &&& str_or_absent(get_spec(v, "token"@))
    &&& opt_port_ok(get_spec(v, "port"@))
    &&& opt_str_ok(get_spec(v, "protocol"@))
    &&& opt_bool_ok(get_spec(v, "download"@))
    &&& opt_bool_ok(get_spec(v, "hasWebInterface"@))
}

/// Whether a document fits the typed reading.
pub open spec fn typed_ok(root: JsonValue) -> bool {
    &&& root is Object
    &&& get_spec(root, "info"@) matches Some(info) && typed_info_ok(info)
    &&& get_spec(root, "files"@) matches Some(JsonValue::Object(entries))
        && forall|i: int| 0 <= i < entries@.len() ==> typed_file_ok(#[trigger] entries@[i].1)
}

pub open spec fn typed_metadata_spec(m: Option<JsonValue>) -> Option<FileMetadataView> {
    match m {
        Some(v) => if v is Object {
            Some(
                FileMetadataView {
                    modified: as_str_spec(get_spec(v, "modified"@)),
                    accessed: as_str_spec(get_spec(v, "accessed"@)),
                },
            )
        } else {
            None
        },
        None => None,
    }
}

/// A file entry of a typed document; an empty or missing id takes the key.
pub open spec fn typed_dto_spec(map_key: Seq<char>, v: JsonValue) -> FileDtoView {
    FileDtoView {
        id: file_id_spec(as_str_spec(get_spec(v, "id"@)), map_key),
        file_name: or_default(as_str_spec(get_spec(v, "fileName"@)), Seq::empty()),
        size: match get_spec(v, "size"@) {
            Some(JsonValue::UInt(n)) => n,
            _ => 0,
        },
        file_type: or_default(as_str_spec(get_spec(v, "fileType"@)), Seq::empty()),
        sha256: read_string_spec(v, seq!["sha256"@, "hash"@]),
        preview: read_string_spec(v, seq!["preview"@]),
        metadata: typed_metadata_spec(get_spec(v, "metadata"@)),
    }
}

/// One entry, read the typed way or field by field.
pub open spec fn entry_spec(map_key: Seq<char>, v: JsonValue, typed: bool) -> Result<FileDtoView, ParseErrorView> {
    if typed {
        Ok(typed_dto_spec(map_key, v))
    } else {
        file_dto_spec(map_key, v)
    }
}

/// The position of `key` in a list of keyed entries.
pub open spec fn key_index<T>(files: Seq<(Seq<char>, T)>, key: Seq<char>) -> int
    decreases files.len(),
{
    if files.len() == 0 {
        -1
    } else if files.last().0 == key {
        files.len() - 1
    } else {
        key_index(files.drop_last(), key)
    }
}

/// `HashMap::insert` on a keyed list: the value under an existing key is
/// replaced in place, a new key goes last.
pub open spec fn upsert<T>(files: Seq<(Seq<char>, T)>, key: Seq<char>, v: T) -> Seq<(Seq<char>, T)> {
    let i = key_index(files, key);
    if i >= 0 {
        files.update(i, (key, v))
    } else {
        files.push((key, v))
    }
}

/// All entries of the `files` object, in order; the first bad entry decides the error.
pub open spec fn files_spec(entries: Seq<(String, JsonValue)>, typed: bool) -> Result<Seq<(Seq<char>, FileDtoView)>, ParseErrorView>
    decreases entries.len(),
{
    if entries.len() == 0 {
        Ok(Seq::empty())
    } else {
        match files_spec(entries.drop_last(), typed) {
            Err(e) => Err(e),
            Ok(fs) => match entry_spec(entries.last().0@, entries.last().1, typed) {
                Err(e) => Err(e),
                Ok(d) => Ok(upsert(fs, entries.last().0@, d)),
            },
        }
    }
}

/// The request read from a parsed document: the typed way when it fits,
/// else field by field.
pub open spec fn prepare_value_spec(root: JsonValue) -> Result<ParsedView, ParseErrorView> {
    match get_spec(root, "info"@) {
        None => Err(ParseErrorView::MissingField("info"@)),
        Some(info) => match read_string_spec(info, seq!["alias"@]) {
            None => Err(ParseErrorView::MissingField("info.alias"@)),
            Some(alias) => match get_spec(root, "files"@) {
                Some(JsonValue::Object(entries)) => match files_spec(entries@, typed_ok(root)) {
                    Err(e) => Err(e),
                    Ok(files) => Ok(
                        ParsedView {
                            sender_alias: alias,
                            sender_version: or_default(read_string_spec(info, seq!["version"@]), "1.0"@),
                            files,
                        },
                    ),
                },
                _ => Err(ParseErrorView::MissingField("files"@)),
            },
        },
    }
}

/// The request read from a body text.
pub open spec fn prepare_request_spec(body: Seq<char>) -> Result<ParsedView, ParseErrorView> {
    match parsed_json(body) {
        Err(m) => Err(ParseErrorView::Json(m)),
        Ok(root) => prepare_value_spec(root),
    }
}

pub open spec fn result_view(r: Result<ParsedPrepareUpload, PrepareUploadParseError>) -> Result<ParsedView, ParseErrorView> {
    match r {
        Ok(p) => Ok(p@),
        Err(e) => Err(e@),
    }
}

pub open spec fn keys_unique<T>(files: Seq<(Seq<char>, T)>) -> bool {
    forall|i: int, j: int| 0 <= i < j < files.len() ==> files[i].0 != files[j].0
}

// ---------------------------------------------------------------- reading

/// `read_string_field` with two candidate keys.
fn read_string2(v: &JsonValue, a: &'static str, b: &'static str) -> (r: Option<String>)
    ensures
        opt_view(r) == read_string_spec(*v, seq![a@, b@]),
{
    let keys: [&str; 2] = [a, b];
    let r = read_string_field(v, &keys);
    assert(keys_view(keys@) =~= seq![a@, b@]);
    r
}

/// `read_string_field` with one key.
fn read_string1(v: &JsonValue, a: &'static str) -> (r: Option<String>)
    ensures
        opt_view(r) == read_string_spec(*v, seq![a@]),
{
    let keys: [&str; 1] = [a];
    let r = read_string_field(v, &keys);
    assert(keys_view(keys@) =~= seq![a@]);
    r
}

/// `parse_file_metadata`: an object's modification and access times.
pub fn parse_file_metadata(v: &JsonValue) -> (r: Option<FileMetadata>)
    ensures
        match r {
            Some(m) => metadata_spec(Some(*v)) == Some(m@),
            None => metadata_spec(Some(*v)) is None,
        },
{
    if !v.is_object() {
        return None;
    }
    Some(
        FileMetadata {
            modified: read_string2(v, "modified", "lastModified"),
            accessed: read_string2(v, "accessed", "lastAccessed"),
        },
    )
}

/// One file entry of the request.
pub fn parse_file_dto(map_key: &str, value: &JsonValue) -> (r: Result<FileDto, PrepareUploadParseError>)
    ensures
        match r {
            Ok(d) => file_dto_spec(map_key@, *value) == Ok::<FileDtoView, ParseErrorView>(d@),
            Err(e) => file_dto_spec(map_key@, *value) == Err::<FileDtoView, ParseErrorView>(e@),
        },
{
    if !value.is_object() {
        return Err(PrepareUploadParseError::InvalidField("files.*"));
    }
    let id = match read_string1(value, "id") {
        Some(s) => s,
        None => String::from_str(map_key),
    };
    let file_name = match read_string2(value, "fileName", "file_name") {
        Some(s) => s,
        None => {
            return Err(PrepareUploadParseError::MissingField("files.*.fileName"));
        },
    };
    let size_keys: [&str; 1] = ["size"];
    let size = read_u64_field(value, &size_keys);
    assert(keys_view(size_keys@) =~= seq!["size"@]);
    let size = match size {
        Some(n) => n,
        None => {
            return Err(PrepareUploadParseError::MissingField("files.*.size"));
        },
    };
    let file_type = match read_string2(value, "fileType", "file_type") {
        Some(s) => s,
        None => {
            return Err(PrepareUploadParseError::MissingField("files.*.fileType"));
        },
    };
    let sha256 = read_string2(value, "sha256", "hash");
    let preview = read_string1(value, "preview");
    let metadata = match value.get("metadata") {
        Some(m) => parse_file_metadata(m),
        None => None,
    };
    Ok(FileDto { id, file_name, size, file_type, sha256, preview, metadata })
}

fn opt_str_ok_exec(m: Option<&JsonValue>) -> (r: bool)
    ensures
        r == opt_str_ok(match m { Some(x) => Some(*x), None => None }),
{
    match m {
        None => true,
        Some(JsonValue::Null) => true,
        Some(JsonValue::Str(_)) => true,
        _ => false,
    }
}

fn str_or_absent_exec(m: Option<&JsonValue>) -> (r: bool)
    ensures
        r == str_or_absent(match m { Some(x) => Some(*x), None => None }),
{
    match m {
        None => true,
        Some(JsonValue::Str(_)) => true,
        _ => false,
    }
}

fn opt_bool_ok_exec(m: Option<&JsonValue>) -> (r: bool)
    ensures
        r == opt_bool_ok(match m { Some(x) => Some(*x), None => None }),
{
    match m {
        None => true,
        Some(JsonValue::Null) => true,
        Some(JsonValue::Bool(_)) => true,
        _ => false,
    }
}

fn opt_port_ok_exec(m: Option<&JsonValue>) -> (r: bool)
    ensures
        r == opt_port_ok(match m { Some(x) => Some(*x), None => None }),
{
    match m {
        None => true,
        Some(JsonValue::Null) => true,
        Some(JsonValue::UInt(n)) => *n <= 65535,
        _ => false,
    }
}

fn is_str_member(m: Option<&JsonValue>) -> (r: bool)
    ensures
        r == (match m { Some(x) => Some(*x), None => None::<JsonValue> } matches Some(JsonValue::Str(_))),
{
    match m {
        Some(JsonValue::Str(_)) => true,
        _ => false,
    }
}

fn typed_metadata_ok_exec(m: Option<&JsonValue>) -> (r: bool)
    ensures
        r == typed_metadata_ok(match m { Some(x) => Some(*x), None => None }),
{
    match m {
        None => true,
        Some(JsonValue::Null) => true,
        Some(v) => v.is_object() && opt_str_ok_exec(v.get("modified")) && opt_str_ok_exec(v.get("accessed")),
    }
}

fn typed_file_ok_exec(v: &JsonValue) -> (r: bool)
    ensures
        r == typed_file_ok(*v),
{
    let size_ok = match v.get("size") {
        Some(JsonValue::UInt(_)) => true,
        _ => false,
    };
    v.is_object() && str_or_absent_exec(v.get("id")) && is_str_member(v.get("fileName")) && size_ok
        && is_str_member(v.get("fileType")) && opt_str_ok_exec(v.get("hash")) && opt_str_ok_exec(v.get("sha256"))
        && opt_str_ok_exec(v.get("preview")) && typed_metadata_ok_exec(v.get("metadata"))
}

fn typed_info_ok_exec(v: &JsonValue) -> (r: bool)
    ensures
        r == typed_info_ok(*v),
{
    v.is_object() && is_str_member(v.get("alias")) && opt_str_ok_exec(v.get("version")) && opt_str_ok_exec(
        v.get("deviceModel"),
    ) && opt_str_ok_exec(v.get("deviceType")) && str_or_absent_exec(v.get("fingerprint")) && str_or_absent_exec(
        v.get("token"),
    ) && opt_port_ok_exec(v.get("port")) && opt_str_ok_exec(v.get("protocol")) && opt_bool_ok_exec(
        v.get("download"),
    ) && opt_bool_ok_exec(v.get("hasWebInterface"))
}

/// Whether a document fits the typed reading.
pub fn typed_shape(root: &JsonValue) -> (r: bool)
    ensures
        r == typed_ok(*root),
{
    if !root.is_object() {
        return false;
    }
    let info_ok = match root.get("info") {
        Some(info) => typed_info_ok_exec(info),
        None => false,
    };
    if !info_ok {
        return false;
    }
    let files = root.get("files");
    match files {
        Some(JsonValue::Object(entries)) => {
            assert(get_spec(*root, "files"@) == Some(JsonValue::Object(*entries)));
            let mut i: usize = 0;
            while i < entries.len()
                invariant
                    i <= entries@.len(),
                    get_spec(*root, "files"@) == Some(JsonValue::Object(*entries)),
                    forall|k: int| 0 <= k < i ==> typed_file_ok(#[trigger] entries@[k].1),
                decreases entries@.len() - i,
            {
                if !typed_file_ok_exec(&entries[i].1) {
                    assert(!typed_file_ok(entries@[i as int].1));
                    proof {
                        if typed_ok(*root) {
                            let e = get_spec(*root, "files"@)->0->Object_0;
                            assert(e == *entries);
                            assert(typed_file_ok(e@[i as int].1));
                        }
                    }
                    return false;
                }
                i = i + 1;
            }
            true
        },
        _ => false,
    }
}

/// A file entry of a typed document.
fn typed_file_dto(map_key: &str, value: &JsonValue) -> (r: FileDto)
    requires
        typed_file_ok(*value),
    ensures
        r@ == typed_dto_spec(map_key@, *value),
{
    let id = match value.get("id") {
        Some(JsonValue::Str(s)) => if s.as_str().is_empty() {
            String::from_str(map_key)
        } else {
            s.clone()
        },
        _ => String::from_str(map_key),
    };
    let file_name = match value.get("fileName") {
        Some(JsonValue::Str(s)) => s.clone(),
        _ => String::new(),
    };
    let size = match value.get("size") {
        Some(JsonValue::UInt(n)) => *n,
        _ => 0,
    };
    let file_type = match value.get("fileType") {
        Some(JsonValue::Str(s)) => s.clone(),
        _ => String::new(),
    };
    let sha256 = read_string2(value, "sha256", "hash");
    let preview = read_string1(value, "preview");
    let metadata = match value.get("metadata") {
        Some(m) => if m.is_object() {
            let modified = match m.get("modified") {
                Some(JsonValue::Str(s)) => Some(s.clone()),
                _ => None,
            };
            let accessed = match m.get("accessed") {
                Some(JsonValue::Str(s)) => Some(s.clone()),
                _ => None,
            };
            Some(FileMetadata { modified, accessed })
        } else {
            None
        },
        None => None,
    };
    FileDto { id, file_name, size, file_type, sha256, preview, metadata }
}

/// The position of `key` among the entries, searching from the end.
fn find_key(files: &Vec<(String, FileDto)>, key: &str) -> (r: Option<usize>)
    ensures
        match r {
            Some(i) => key_index(files_view(files@), key@) == i as int && i < files@.len(),
            None => key_index(files_view(files@), key@) == -1,
        },
{
    let mut n: usize = files.len();
    assert(files@.take(files@.len() as int) == files@);
    while n > 0
        invariant
            n <= files@.len(),
            key_index(files_view(files@), key@) == key_index(files_view(files@.take(n as int)), key@),
        decreases n,
    {
        let ghost t = files_view(files@.take(n as int));
        assert(t.drop_last() == files_view(files@.take(n - 1)));
        assert(t.last() == (files@[n - 1].0@, files@[n - 1].1@));
        if str_eq(files[n - 1].0.as_str(), key) {
            return Some(n - 1);
        }
        n = n - 1;
    }
    None
}

/// `HashMap::insert` on the keyed list of files.
fn upsert_file(files: &mut Vec<(String, FileDto)>, key: String, dto: FileDto)
    ensures
        files_view(final(files)@) == upsert(files_view(old(files)@), key@, dto@),
{
    proof {
        assert(files_view(old(files)@).take(old(files)@.len() as int) == files_view(old(files)@));
    }
    assert(files@.take(files@.len() as int) == files@);
    match find_key(files, key.as_str()) {
        Some(i) => {
            let ghost k = key@;
            let ghost d = dto@;
            files.set(i, (key, dto));
            assert(files_view(files@) =~= files_view(old(files)@).update(i as int, (k, d)));
        },
        None => {
            let ghost k = key@;
            let ghost d = dto@;
            files.push((key, dto));
            assert(files_view(files@) =~= files_view(old(files)@).push((k, d)));
        },
    }
}

/// All entries of the `files` object.
fn parse_files(entries: &Vec<(String, JsonValue)>, typed: bool) -> (r: Result<Vec<(String, FileDto)>, PrepareUploadParseError>)
    requires
        typed ==> forall|k: int| 0 <= k < entries@.len() ==> typed_file_ok(#[trigger] entries@[k].1),
    ensures
        match r {
            Ok(fs) => files_spec(entries@, typed) == Ok::<Seq<(Seq<char>, FileDtoView)>, ParseErrorView>(files_view(fs@)),
            Err(e) => files_spec(entries@, typed) == Err::<Seq<(Seq<char>, FileDtoView)>, ParseErrorView>(e@),
        },
{
    let mut files: Vec<(String, FileDto)> = Vec::new();
    let mut i: usize = 0;
    assert(files_view(files@) =~= Seq::empty());
    assert(entries@.take(0) =~= Seq::<(String, JsonValue)>::empty());
    while i < entries.len()
        invariant
            i <= entries@.len(),
            typed ==> forall|k: int| 0 <= k < entries@.len() ==> typed_file_ok(#[trigger] entries@[k].1),
            files_spec(entries@.take(i as int), typed) == Ok::<Seq<(Seq<char>, FileDtoView)>, ParseErrorView>(files_view(files@)),
        decreases entries@.len() - i,
    {
        let ghost t = entries@.take(i + 1);
        assert(t.drop_last() == entries@.take(i as int));
        assert(t.last() == entries@[i as int]);
        let key = &entries[i].0;
        let entry = if typed {
            Ok(typed_file_dto(key.as_str(), &entries[i].1))
        } else {
            parse_file_dto(key.as_str(), &entries[i].1)
        };
        match entry {
            Ok(dto) => {
                upsert_file(&mut files, key.clone(), dto);
            },
            Err(e) => {
                proof {
                    lemma_files_spec_err_persists(entries@, i as int + 1, typed);
                }
                return Err(e);
            },
        }
        i = i + 1;
    }
    assert(entries@.take(entries@.len() as int) == entries@);
    Ok(files)
}

/// Once a prefix of the entries fails, every longer prefix fails the same way.
proof fn lemma_files_spec_err_persists(entries: Seq<(String, JsonValue)>, k: int, typed: bool)
    requires
        0 <= k <= entries.len(),
        files_spec(entries.take(k), typed) is Err,
    ensures
        files_spec(entries, typed) == files_spec(entries.take(k), typed),
    decreases entries.len() - k,
{
    if k == entries.len() {
        assert(entries.take(k) == entries);
    } else {
        let t = entries.take(k + 1);
        assert(t.drop_last() == entries.take(k));
        lemma_files_spec_err_persists(entries, k + 1, typed);
    }
}

/// Reads the request out of a parsed document.
pub fn parse_prepare_upload_value(root: &JsonValue) -> (r: Result<ParsedPrepareUpload, PrepareUploadParseError>)
    ensures
        result_view(r) == prepare_value_spec(*root),
{
    let info = match root.get("info") {
        Some(i) => i,
        None => {
            return Err(PrepareUploadParseError::MissingField("info"));
        },
    };
    let alias = match read_string1(info, "alias") {
        Some(a) => a,
        None => {
            return Err(PrepareUploadParseError::MissingField("info.alias"));
        },
    };
    let version = match read_string1(info, "version") {
        Some(v) => v,
        None => String::from_str("1.0"),
    };
    let typed = typed_shape(root);
    match root.get("files") {
        Some(JsonValue::Object(entries)) => {
            let files = parse_files(entries, typed)?;
            Ok(ParsedPrepareUpload { sender_alias: alias, sender_version: version, files })
        },
        _ => Err(PrepareUploadParseError::MissingField("files")),
    }
}

/// Parses a prepare-upload body.
pub fn parse_prepare_upload_request(body: &str) -> (r: Result<ParsedPrepareUpload, PrepareUploadParseError>)
    ensures
        result_view(r) == prepare_request_spec(body@),
{
    match parse_json(body) {
        Ok(root) => parse_prepare_upload_value(&root),
        Err(message) => Err(PrepareUploadParseError::Json(message)),
    }
}

impl ParsedPrepareUpload {
    /// The file announced under a key.
    pub fn file(&self, key: &str) -> (r: Option<&FileDto>)
        ensures
            match r {
                Some(d) => key_index(files_view(self.files@), key@) >= 0
                    && files_view(self.files@)[key_index(files_view(self.files@), key@)].1 == d@,
                None => key_index(files_view(self.files@), key@) == -1,
            },
    {
        match find_key(&self.files, key) {
            Some(i) => {
                assert(files_view(self.files@)[i as int] == (self.files@[i as int].0@, self.files@[i as int].1@));
                Some(&self.files[i].1)
            },
            None => None,
        }
    }
}

proof fn lemma_key_index<T>(files: Seq<(Seq<char>, T)>, key: Seq<char>)
    ensures
        -1 <= key_index(files, key) < files.len(),
        key_index(files, key) >= 0 ==> files[key_index(files, key)].0 == key,
        key_index(files, key) == -1 ==> forall|i: int| 0 <= i < files.len() ==> files[i].0 != key,
    decreases files.len(),
{
    if files.len() > 0 {
        lemma_key_index(files.drop_last(), key);
        if files.last().0 != key {
            assert forall|i: int| 0 <= i < files.len() - 1 implies files[i] == files.drop_last()[i] by {}
        }
    }
}

proof fn lemma_upsert_unique<T>(files: Seq<(Seq<char>, T)>, key: Seq<char>, v: T)
    requires
        keys_unique(files),
    ensures
        keys_unique(upsert(files, key, v)),
{
    lemma_key_index(files, key);
    let i = key_index(files, key);
    let r = upsert(files, key, v);
    if i >= 0 {
        assert forall|a: int, b: int| 0 <= a < b < r.len() implies r[a].0 != r[b].0 by {
            assert(r[a].0 == files[a].0);
            assert(r[b].0 == files[b].0);
        }
    } else {
        assert forall|a: int, b: int| 0 <= a < b < r.len() implies r[a].0 != r[b].0 by {
            if b == files.len() {
                assert(r[b].0 == key);
                assert(r[a] == files[a]);
            } else {
                assert(r[a] == files[a] && r[b] == files[b]);
            }
        }
    }
}

/// The files a request announces are keyed uniquely: each id appears once,
/// a repeated key keeping its last description.
pub proof fn law_parsed_files_have_unique_ids(entries: Seq<(String, JsonValue)>, typed: bool)
    requires
        files_spec(entries, typed) is Ok,
    ensures
        keys_unique(files_spec(entries, typed)->Ok_0),
    decreases entries.len(),
{
    if entries.len() > 0 {
        law_parsed_files_have_unique_ids(entries.drop_last(), typed);
        let fs = files_spec(entries.drop_last(), typed)->Ok_0;
        let d = entry_spec(entries.last().0@, entries.last().1, typed)->Ok_0;
        lemma_upsert_unique(fs, entries.last().0@, d);
    }
}

/// A file entry that fits the typed reading is read alike either way: its
/// name, size and type are the `fileName`, `size` and `fileType` members the
/// entry gives, in the typed reading as in the field-by-field one.
pub proof fn law_typed_and_field_readings_agree(map_key: Seq<char>, v: JsonValue)
    requires
        typed_file_ok(v),
    ensures
        get_spec(v, "size"@) == Some(JsonValue::UInt(typed_dto_spec(map_key, v).size)),
        as_str_spec(get_spec(v, "fileName"@)) == Some(typed_dto_spec(map_key, v).file_name),
        as_str_spec(get_spec(v, "fileType"@)) == Some(typed_dto_spec(map_key, v).file_type),
        file_dto_spec(map_key, v) matches Ok(d) && d.file_name == typed_dto_spec(map_key, v).file_name
            && d.size == typed_dto_spec(map_key, v).size && d.file_type == typed_dto_spec(map_key, v).file_type,
{
    let ks_name = seq!["fileName"@, "file_name"@];
    let ks_type = seq!["fileType"@, "file_type"@];
    let ks_size = seq!["size"@];
    assert(ks_name[0] == "fileName"@);
    assert(ks_type[0] == "fileType"@);
    assert(ks_size[0] == "size"@);
    assert(read_string_spec(v, ks_name) == as_str_spec(get_spec(v, "fileName"@)));
    assert(read_string_spec(v, ks_type) == as_str_spec(get_spec(v, "fileType"@)));
    assert(read_u64_spec(v, ks_size) == crate::json::member_u64(get_spec(v, "size"@)));
}

} // verus!
