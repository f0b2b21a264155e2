//! The secrets backend: parsing a backend URI, merging installer-declared
//! secret writes into a file-backed JSON store or a cluster config-map
//! manifest, and the snapshot/restore contract the orchestrator's rollback
//! rests on.

use vstd::prelude::*;
use crate::errors::BootstrapError;
use crate::json::{
    json_view, json_view_fields, obj_insert, spec_json_text, spec_obj_insert, json_to_string,
    JsonSpec, JsonValue,
};
use crate::output::{write_view, writes_view, SecretWrite, SecretWriteSpec};
use crate::strutil::{
    concat2, concat3, find_char, lemma_find_char_from_bounds, lemma_find_char_from_unique,
    spec_find_char, spec_starts_with, starts_with_str, substr, str_eq,
};
use vstd::string::StringExecFns;
use vstd::string::StringSliceAdditionalSpecFns;

verus! {

/// Where secret values are written.
#[derive(Debug)]
pub enum SecretsBackend {
    File(String),
    K8s { namespace: String, name: String },
}

impl Clone for SecretsBackend {
    /// A clone has the same mathematical image as the original.
    fn clone(&self) -> (r: Self)
        ensures
            backend_view(r) == backend_view(*self),
    {
        match self {
            SecretsBackend::File(path) => SecretsBackend::File(path.clone()),
            SecretsBackend::K8s { namespace, name } => SecretsBackend::K8s {
                namespace: namespace.clone(),
                name: name.clone(),
            },
        }
    }
}

/// The mathematical image of a backend choice.
#[verifier::ext_equal]
pub enum SecretsBackendSpec {
    File(Seq<char>),
    K8s { namespace: Seq<char>, name: Seq<char> },
}

pub open spec fn backend_view(b: SecretsBackend) -> SecretsBackendSpec {
    match b {
        SecretsBackend::File(path) => SecretsBackendSpec::File(path@),
        SecretsBackend::K8s { namespace, name } => SecretsBackendSpec::K8s {
            namespace: namespace@,
            name: name@,
        },
    }
}

/// One comma-separated `key=value` pair applied to the scan state: later
/// `namespace=` and `name=` assignments override earlier ones, anything
/// else is ignored.
pub open spec fn spec_apply_pair(
    part: Seq<char>,
    ns: Option<Seq<char>>,
    name: Option<Seq<char>>,
) -> (Option<Seq<char>>, Option<Seq<char>>) {
    match spec_find_char(part, '=') {
        Option::None => (ns, name),
        Option::Some(e) => {
            let key = part.subrange(0, e);
            let val = part.subrange(e + 1, part.len() as int);
            if key == "namespace"@ {
                (Option::Some(val), name)
            } else if key == "name"@ {
                (ns, Option::Some(val))
            } else {
                (ns, name)
            }
        },
    }
}

/// The namespace and name a `namespace=...,name=...` text scans to.
pub open spec fn spec_scan_pairs(
    s: Seq<char>,
    ns: Option<Seq<char>>,
    name: Option<Seq<char>>,
) -> (Option<Seq<char>>, Option<Seq<char>>)
    decreases s.len(),
{
    match spec_find_char(s, ',') {
        Option::Some(i) => if 0 <= i < s.len() {
            let applied = spec_apply_pair(s.subrange(0, i), ns, name);
            spec_scan_pairs(s.subrange(i + 1, s.len() as int), applied.0, applied.1)
        } else {
            spec_apply_pair(s, ns, name)
        },
        Option::None => spec_apply_pair(s, ns, name),
    }
}

/// What a backend URI parses to: `file:<path>` with a non-empty path,
/// `k8s:<namespace>/<name>`, or `k8s:namespace=...,name=...`; anything
/// else is refused.
pub open spec fn spec_parse_backend(s: Seq<char>) -> Option<SecretsBackendSpec> {
    if spec_starts_with(s, "file:"@) {
        let path = s.subrange(5, s.len() as int);
        if path.len() == 0 {
            Option::None
        } else {
            Option::Some(SecretsBackendSpec::File(path))
        }
    } else if spec_starts_with(s, "k8s:"@) {
        let rest = s.subrange(4, s.len() as int);
        match spec_find_char(rest, '/') {
            Option::Some(i) => Option::Some(
                SecretsBackendSpec::K8s {
                    namespace: rest.subrange(0, i),
                    name: rest.subrange(i + 1, rest.len() as int),
                },
            ),
            Option::None => match spec_find_char(rest, '=') {
                Option::Some(_) => match spec_scan_pairs(rest, Option::None, Option::None) {
                    (Option::Some(ns), Option::Some(name)) => Option::Some(
                        SecretsBackendSpec::K8s { namespace: ns, name },
                    ),
                    _ => Option::None,
                },
                Option::None => Option::None,
            },
        }
    } else {
        Option::None
    }
}

/// Applies one scanned pair to the running namespace/name assignment.
fn apply_pair(
    part: &str,
    ns: Option<String>,
    name: Option<String>,
) -> (r: (Option<String>, Option<String>))
    ensures
        (crate::state::opt_text_view(r.0), crate::state::opt_text_view(r.1)) == spec_apply_pair(
            part@,
            crate::state::opt_text_view(ns),
            crate::state::opt_text_view(name),
        ),
{
    proof {
        reveal_strlit("namespace");
        reveal_strlit("name");
    }
    let pn: usize = part.unicode_len();
    match find_char(part, '=') {
        Option::None => (ns, name),
        Option::Some(e) => {
            let key = substr(part, 0, e);
            let val = substr(part, e + 1, pn);
            if str_eq(key.as_str(), "namespace") {
                (Option::Some(val), name)
            } else if str_eq(key.as_str(), "name") {
                (ns, Option::Some(val))
            } else {
                (ns, name)
            }
        },
    }
}

/// Parses a secrets backend URI.
pub fn parse_backend(input: &str) -> (r: Result<SecretsBackend, BootstrapError>)
    ensures
        match r {
            Result::Ok(b) => spec_parse_backend(input@) == Option::Some(backend_view(b)),
            Result::Err(e) => spec_parse_backend(input@) is None && e is Config,
        },
{
    proof {
        reveal_strlit("file:");
        reveal_strlit("k8s:");
    }
    let n: usize = input.unicode_len();
    if starts_with_str(input, "file:") {
        let path = substr(input, 5, n);
        if path.as_str().unicode_len() == 0 {
            return Result::Err(
                BootstrapError::Config(
                    String::from_str("file secrets backend requires a path"),
                ),
            );
        }
        return Result::Ok(SecretsBackend::File(path));
    }
    if !starts_with_str(input, "k8s:") {
        return Result::Err(
            BootstrapError::Config(concat2("unsupported secrets backend: ", input)),
        );
    }
    let rest = substr(input, 4, n);
    let rn: usize = rest.as_str().unicode_len();
    match find_char(rest.as_str(), '/') {
        Option::Some(i) => {
            let namespace = substr(rest.as_str(), 0, i);
            let name = substr(rest.as_str(), i + 1, rn);
            return Result::Ok(SecretsBackend::K8s { namespace, name });
        },
        Option::None => {},
    }
    match find_char(rest.as_str(), '=') {
        Option::None => {
            return Result::Err(
                BootstrapError::Config(
                    String::from_str(
                        "k8s backend expects k8s:<namespace>/<name> or k8s:namespace=...",
                    ),
                ),
            );
        },
        Option::Some(_) => {},
    }
    let mut ns: Option<String> = Option::None;
    let mut name: Option<String> = Option::None;
    let mut start: usize = 0;
    let ghost full = rest@;
    proof {
        assert(full.subrange(0, rn as int) =~= full);
    }
    loop
        invariant_except_break
            spec_scan_pairs(full, Option::None, Option::None) == spec_scan_pairs(
                full.subrange(start as int, rn as int),
                crate::state::opt_text_view(ns),
                crate::state::opt_text_view(name),
            ),
        invariant
            start <= rn,
            rn == full.len(),
            rest@ == full,
        ensures
            (crate::state::opt_text_view(ns), crate::state::opt_text_view(name))
                == spec_scan_pairs(full, Option::None, Option::None),
        decreases rn - start,
    {
        let ghost remaining = full.subrange(start as int, rn as int);
        match crate::strutil::find_char_from(rest.as_str(), ',', start) {
            Option::Some(i) => {
                proof {
                    lemma_find_char_from_bounds(full, ',', start as int);
                    assert(remaining[i - start] == full[i as int]);
                    assert forall|j: int| 0 <= j < i - start implies remaining[j] != ',' by {
                        assert(remaining[j] == full[start + j]);
                    };
                    lemma_find_char_from_unique(remaining, ',', 0, i - start);
                    assert(remaining.subrange(0, i - start) =~= full.subrange(
                        start as int,
                        i as int,
                    ));
                    assert(remaining.subrange(i - start + 1, remaining.len() as int)
                        =~= full.subrange(i + 1, rn as int));
                }
                let part = substr(rest.as_str(), start, i);
                let applied = apply_pair(part.as_str(), ns, name);
                ns = applied.0;
                name = applied.1;
                start = i + 1;
            },
            Option::None => {
                proof {
                    lemma_find_char_from_bounds(full, ',', start as int);
                    lemma_find_char_from_bounds(remaining, ',', 0);
                    if spec_find_char(remaining, ',') is Some {
                        let t = spec_find_char(remaining, ',')->Some_0;
                        assert(remaining[t] == full[start + t]);
                        assert(false);
                    }
                }
                let part = substr(rest.as_str(), start, rn);
                let applied = apply_pair(part.as_str(), ns, name);
                ns = applied.0;
                name = applied.1;
                break ;
            },
        }
    }
    let ns = match ns {
        Option::Some(ns) => ns,
        Option::None => {
            return Result::Err(
                BootstrapError::Config(
                    String::from_str("k8s backend requires namespace=<ns>"),
                ),
            );
        },
    };
    let name = match name {
        Option::Some(name) => name,
        Option::None => {
            return Result::Err(
                BootstrapError::Config(String::from_str("k8s backend requires name=<secret>")),
            );
        },
    };
    Result::Ok(SecretsBackend::K8s { namespace: ns, name })
}

/// The key a write is stored under: `scope/key`, or the bare key when
/// unscoped.
pub open spec fn spec_storage_key(w: SecretWriteSpec) -> Seq<char> {
    match w.scope {
        Option::Some(scope) => scope + "/"@ + w.key,
        Option::None => w.key,
    }
}

fn storage_key(w: &SecretWrite) -> (r: String)
    ensures
        r@ == spec_storage_key(write_view(*w)),
{
    match &w.scope {
        Option::Some(scope) => concat3(scope.as_str(), "/", w.key.as_str()),
        Option::None => w.key.clone(),
    }
}

/// The stored record of one secret: its value, and the scope and metadata
/// when declared.
pub open spec fn spec_stored_record(w: SecretWriteSpec, value: Seq<char>) -> JsonSpec {
    JsonSpec::Obj(
        seq![("value"@, JsonSpec::Str(value))] + (match w.scope {
            Option::Some(scope) => seq![("scope"@, JsonSpec::Str(scope))],
            Option::None => Seq::<(Seq<char>, JsonSpec)>::empty(),
        }) + (match w.metadata {
            Option::Some(m) => seq![("metadata"@, m)],
            Option::None => Seq::<(Seq<char>, JsonSpec)>::empty(),
        }),
    )
}

fn stored_record(w: &SecretWrite, value: &String) -> (r: JsonValue)
    ensures
        json_view(r) == spec_stored_record(write_view(*w), value@),
{
    broadcast use crate::json::lemma_json_view_fields;

    proof {
        reveal_strlit("value");
        reveal_strlit("scope");
        reveal_strlit("metadata");
    }
    let ghost seg0 = seq![("value"@, JsonSpec::Str(value@))];
    let ghost seg1 = match write_view(*w).scope {
        Option::Some(scope) => seq![("scope"@, JsonSpec::Str(scope))],
        Option::None => Seq::<(Seq<char>, JsonSpec)>::empty(),
    };
    let ghost seg2 = match write_view(*w).metadata {
        Option::Some(m) => seq![("metadata"@, m)],
        Option::None => Seq::<(Seq<char>, JsonSpec)>::empty(),
    };
    let mut fields: Vec<(String, JsonValue)> = Vec::new();
    fields.push((String::from_str("value"), JsonValue::Str(value.clone())));
    proof {
        assert(json_view_fields(fields@) =~= seg0);
    }
    match &w.scope {
        Option::Some(scope) => {
            let ghost before = fields@;
            let k = String::from_str("scope");
            let doc = JsonValue::Str(scope.clone());
            fields.push((k, doc));
            proof {
                crate::json::lemma_view_fields_push(before, k, doc);
                assert(json_view_fields(fields@) =~= seg0 + seg1);
            }
        },
        Option::None => {
            assert(json_view_fields(fields@) =~= seg0 + seg1);
        },
    }
    match &w.metadata {
        Option::Some(m) => {
            let ghost before = fields@;
            let k = String::from_str("metadata");
            let doc = m.clone();
            fields.push((k, doc));
            proof {
                crate::json::lemma_view_fields_push(before, k, doc);
                assert(json_view_fields(fields@) =~= (seg0 + seg1) + seg2);
            }
        },
        Option::None => {
            assert(json_view_fields(fields@) =~= (seg0 + seg1) + seg2);
        },
    }
    let r = JsonValue::Obj(fields);
    proof {
        assert((seg0 + seg1) + seg2 =~= seg0 + seg1 + seg2);
        assert(spec_stored_record(write_view(*w), value@)->Obj_0 == seg0 + seg1 + seg2);
        assert(json_view(r) =~~= spec_stored_record(write_view(*w), value@));
    }
    r
}

/// The index of the first write without a concrete value, if any:
/// installers must supply values, never placeholders, in bootstrap mode.
pub open spec fn spec_first_missing_value(writes: Seq<SecretWriteSpec>) -> Option<int> {
    if exists|i: int| 0 <= i < writes.len() && writes[i].value is None {
        Option::Some(
            choose|i: int|
                0 <= i < writes.len() && writes[i].value is None && forall|j: int|
                    0 <= j < i ==> !(writes[j].value is None),
        )
    } else {
        Option::None
    }
}

/// The store fields after merging the writes, each under its storage key.
pub open spec fn spec_merge_writes(
    fields: Seq<(Seq<char>, JsonSpec)>,
    writes: Seq<SecretWriteSpec>,
) -> Seq<(Seq<char>, JsonSpec)>
    decreases writes.len(),
{
    if writes.len() == 0 {
        fields
    } else {
        let w = writes[0];
        let next = match w.value {
            Option::Some(value) => spec_obj_insert(
                fields,
                spec_storage_key(w),
                spec_stored_record(w, value),
            ),
            Option::None => fields,
        };
        spec_merge_writes(next, writes.drop_first())
    }
}

/// Merges installer writes into the fields of an existing store object.
/// Fails with the first write that declares no value, leaving what was
/// merged so far unreturned.
#[verifier::loop_isolation(false)]
fn merge_into_fields(fields: &mut Vec<(String, JsonValue)>, writes: &Vec<SecretWrite>) -> (r:
    Result<(), BootstrapError>)
    ensures
        match r {
            Result::Ok(()) => spec_first_missing_value(writes_view(writes@)) is None
                && json_view_fields(final(fields)@) == spec_merge_writes(
                json_view_fields(old(fields)@),
                writes_view(writes@),
            ),
            Result::Err(e) => spec_first_missing_value(writes_view(writes@)) is Some && (
            e matches BootstrapError::MissingValue(key) && key@ == writes_view(writes@)[
                spec_first_missing_value(writes_view(writes@))->Some_0
            ].key),
        },
{
    let ghost gwrites = writes_view(writes@);
    let n = writes.len();
    let mut i: usize = 0;
    assert(gwrites.subrange(0, n as int) =~= gwrites);
    while i < n
        invariant
            i <= n,
            forall|j: int| 0 <= j < i ==> !(gwrites[j].value is None),
            spec_merge_writes(json_view_fields(old(fields)@), gwrites) == spec_merge_writes(
                json_view_fields(fields@),
                gwrites.subrange(i as int, n as int),
            ),
        decreases n - i,
    {
        let ghost rest = gwrites.subrange(i as int, n as int);
        assert(rest[0] == gwrites[i as int]);
        assert(rest.drop_first() =~= gwrites.subrange(i + 1, n as int));
        assert(gwrites[i as int] == write_view(writes@[i as int]));
        let w = &writes[i];
        let value: String = match &w.value {
            Option::Some(value) => value.clone(),
            Option::None => {
                proof {
                    let missing = spec_first_missing_value(gwrites);
                    assert(0 <= i < gwrites.len() && gwrites[i as int].value is None && forall|
                        j: int,
                    | 0 <= j < i ==> !(gwrites[j].value is None));
                    let found = choose|k: int|
                        0 <= k < gwrites.len() && gwrites[k].value is None && forall|j: int|
                            0 <= j < k ==> !(gwrites[j].value is None);
                    if found != i {
                        if found < i {
                            assert(!(gwrites[found].value is None));
                        } else {
                            assert(!(gwrites[i as int].value is None));
                        }
                    }
                }
                return Result::Err(BootstrapError::MissingValue(w.key.clone()));
            },
        };
        let key = storage_key(w);
        let record = stored_record(w, &value);
        obj_insert(fields, key.as_str(), record);
        i = i + 1;
    }
    assert(gwrites.subrange(n as int, n as int) =~= Seq::<SecretWriteSpec>::empty());
    Result::Ok(())
}

/// What is to be written for a set of secret writes, for the surrounding
/// run to perform.
#[derive(Debug)]
pub enum SecretsWritePlan {
    /// No writes were declared: nothing touches the backend.
    Nothing,
    /// The file store's full new content.
    WriteFile { path: String, content: String },
    /// The config-map manifest for the cluster backend, to be rendered and
    /// placed under the namespace's directory as `<name>.yaml`.
    WriteK8sManifest { namespace: String, name: String, manifest: JsonValue },
}

/// Whether the bytes are nothing but ASCII whitespace: such a store file
/// counts as empty rather than malformed.
pub open spec fn spec_blank_bytes(bytes: Seq<u8>) -> bool {
    forall|i: int|
        0 <= i < bytes.len() ==> (#[trigger] bytes[i] == 32 || bytes[i] == 9 || bytes[i] == 13
            || bytes[i] == 10)
}

fn is_blank_bytes(bytes: &Vec<u8>) -> (r: bool)
    ensures
        r == spec_blank_bytes(bytes@),
{
    let n = bytes.len();
    let mut i: usize = 0;
    while i < n
        invariant
            i <= n,
            n == bytes@.len(),
            forall|j: int|
                0 <= j < i ==> (#[trigger] bytes@[j] == 32 || bytes@[j] == 9 || bytes@[j] == 13
                    || bytes@[j] == 10),
        decreases n - i,
    {
        let b = bytes[i];
        if !(b == 32 || b == 9 || b == 13 || b == 10) {
            return false;
        }
        i = i + 1;
    }
    true
}

/// The object fields an existing store file starts the merge from: an
/// absent or blank file is an empty object, any other file must be a JSON
/// object; `None` when it is not.
pub open spec fn spec_existing_store(existing: Option<Seq<u8>>) -> Option<
    Seq<(Seq<char>, JsonSpec)>,
> {
    match existing {
        Option::None => Option::Some(Seq::<(Seq<char>, JsonSpec)>::empty()),
        Option::Some(bytes) => if spec_blank_bytes(bytes) {
            Option::Some(Seq::<(Seq<char>, JsonSpec)>::empty())
        } else {
            match crate::json::json_of(bytes) {
                Option::Some(JsonSpec::Obj(fields)) => Option::Some(fields),
                _ => Option::None,
            }
        },
    }
}

/// Computes what the file-backed store must hold after the writes: the
/// existing JSON object (an absent or blank file is an empty one) with
/// each write merged in under its storage key.  Succeeds exactly when the
/// existing store is readable as an object and every write carries a
/// value.
pub fn plan_file_writes(path: &String, existing: Option<&Vec<u8>>, writes: &Vec<SecretWrite>) -> (r:
    Result<SecretsWritePlan, BootstrapError>)
    ensures
        ({
            let store = spec_existing_store(
                match existing {
                    Option::Some(bytes) => Option::Some(bytes@),
                    Option::None => Option::None,
                },
            );
            match store {
                Option::None => r matches Result::Err(e) && e is Pack,
                Option::Some(fields0) => match spec_first_missing_value(writes_view(writes@)) {
                    Option::Some(ix) => r matches Result::Err(e) && (
                    e matches BootstrapError::MissingValue(key) && key@ == writes_view(writes@)[
                        ix
                    ].key),
                    Option::None => r matches Result::Ok(plan) && (
                    plan matches SecretsWritePlan::WriteFile {
                        path: out_path,
                        content,
                    } && out_path@ == path@ && content@ == spec_json_text(
                        JsonSpec::Obj(spec_merge_writes(fields0, writes_view(writes@))),
                    )),
                },
            }
        }),
{
    let mut fields: Vec<(String, JsonValue)> = Vec::new();
    assert(json_view_fields(fields@) =~= Seq::<(Seq<char>, JsonSpec)>::empty());
    match existing {
        Option::None => {},
        Option::Some(bytes) => {
            if !is_blank_bytes(bytes) {
                let doc = match crate::json::parse_json(bytes.as_slice()) {
                    Option::Some(doc) => doc,
                    Option::None => {
                        return Result::Err(
                            BootstrapError::Pack(
                                String::from_str("secrets store is not valid JSON"),
                            ),
                        );
                    },
                };
                match doc {
                    JsonValue::Obj(existing_fields) => {
                        fields = existing_fields;
                        assert(json_view_fields(fields@) == spec_existing_store(
                            Option::Some(bytes@),
                        )->Some_0);
                    },
                    _ => {
                        return Result::Err(
                            BootstrapError::Pack(
                                String::from_str("secrets store is not a JSON object"),
                            ),
                        );
                    },
                }
            }
        },
    }
    match merge_into_fields(&mut fields, writes) {
        Result::Ok(()) => {},
        Result::Err(e) => {
            return Result::Err(e);
        },
    }
    let merged = JsonValue::Obj(fields);
    let content = json_to_string(&merged);
    Result::Ok(SecretsWritePlan::WriteFile { path: path.clone(), content })
}


/// What `base64`'s standard engine encodes the UTF-8 bytes of a text to: a
/// function of the text alone.
pub uninterp spec fn base64_of_text(s: Seq<char>) -> Seq<char>;

/// Relies on the `base64` crate's standard engine, applied to the UTF-8
/// bytes of the text: the encoding depends on the text alone, and with the
/// standard padded alphabet its length is four characters for every three
/// bytes, rounded up.
#[verifier::external_body]
fn base64_encode_text(s: &str) -> (r: String)
    ensures
        r@ == base64_of_text(s@),
        r@.len() == 4 * ((s.spec_bytes().len() + 2) / 3),
{
    base64::Engine::encode(&base64::engine::general_purpose::STANDARD, s.as_bytes())
}

/// The config-map data fields after encoding the writes: each value
/// base64-encoded under its storage key.
pub open spec fn spec_k8s_data(
    fields: Seq<(Seq<char>, JsonSpec)>,
    writes: Seq<SecretWriteSpec>,
) -> Seq<(Seq<char>, JsonSpec)>
    decreases writes.len(),
{
    if writes.len() == 0 {
        fields
    } else {
        let w = writes[0];
        let next = match w.value {
            Option::Some(value) => spec_obj_insert(
                fields,
                spec_storage_key(w),
                JsonSpec::Str(base64_of_text(value)),
            ),
            Option::None => fields,
        };
        spec_k8s_data(next, writes.drop_first())
    }
}

/// The minimal Secret manifest the cluster backend writes.
pub open spec fn spec_k8s_manifest(
    namespace: Seq<char>,
    name: Seq<char>,
    data: Seq<(Seq<char>, JsonSpec)>,
) -> JsonSpec {
    JsonSpec::Obj(
        seq![
            ("apiVersion"@, JsonSpec::Str("v1"@)),
            ("kind"@, JsonSpec::Str("Secret"@)),
            ("metadata"@, JsonSpec::Obj(
                seq![
                    ("name"@, JsonSpec::Str(name)),
                    ("namespace"@, JsonSpec::Str(namespace)),
                    ("annotations"@, JsonSpec::Obj(
                        seq![("managed-by"@, JsonSpec::Str("greentic-deployer"@))],
                    )),
                ],
            )),
            ("type"@, JsonSpec::Str("Opaque"@)),
            ("data"@, JsonSpec::Obj(data)),
        ],
    )
}

/// Builds the Secret manifest for the cluster backend.  Fails with the
/// first write that declares no value.
#[verifier::loop_isolation(false)]
fn plan_k8s_manifest(namespace: &String, name: &String, writes: &Vec<SecretWrite>) -> (r: Result<
    SecretsWritePlan,
    BootstrapError,
>)
    ensures
        match r {
            Result::Ok(plan) => spec_first_missing_value(writes_view(writes@)) is None && (
            plan matches SecretsWritePlan::WriteK8sManifest {
                namespace: out_ns,
                name: out_name,
                manifest,
            } && out_ns@ == namespace@ && out_name@ == name@ && json_view(manifest)
                == spec_k8s_manifest(
                namespace@,
                name@,
                spec_k8s_data(
                    Seq::<(Seq<char>, JsonSpec)>::empty(),
                    writes_view(writes@),
                ),
            )),
            Result::Err(e) => spec_first_missing_value(writes_view(writes@)) matches Option::Some(
                ix,
            ) && (e matches BootstrapError::MissingValue(key) && key@ == writes_view(writes@)[
                ix
            ].key),
        },
{
    broadcast use crate::json::lemma_json_view_fields;

    let ghost gwrites = writes_view(writes@);
    let mut data: Vec<(String, JsonValue)> = Vec::new();
    assert(json_view_fields(data@) =~= Seq::<(Seq<char>, JsonSpec)>::empty());
    let n = writes.len();
    let mut i: usize = 0;
    assert(gwrites.subrange(0, n as int) =~= gwrites);
    while i < n
        invariant
            i <= n,
            forall|j: int| 0 <= j < i ==> !(gwrites[j].value is None),
            spec_k8s_data(Seq::<(Seq<char>, JsonSpec)>::empty(), gwrites) == spec_k8s_data(
                json_view_fields(data@),
                gwrites.subrange(i as int, n as int),
            ),
        decreases n - i,
    {
        let ghost rest = gwrites.subrange(i as int, n as int);
        assert(rest[0] == gwrites[i as int]);
        assert(rest.drop_first() =~= gwrites.subrange(i + 1, n as int));
        assert(gwrites[i as int] == write_view(writes@[i as int]));
        let w = &writes[i];
        let value: String = match &w.value {
            Option::Some(value) => value.clone(),
            Option::None => {
                proof {
                    assert(0 <= i < gwrites.len() && gwrites[i as int].value is None && forall|
                        j: int,
                    | 0 <= j < i ==> !(gwrites[j].value is None));
                    let found = choose|k: int|
                        0 <= k < gwrites.len() && gwrites[k].value is None && forall|j: int|
                            0 <= j < k ==> !(gwrites[j].value is None);
                    if found != i {
                        if found < i {
                            assert(!(gwrites[found].value is None));
                        } else {
                            assert(!(gwrites[i as int].value is None));
                        }
                    }
                }
                return Result::Err(BootstrapError::MissingValue(w.key.clone()));
            },
        };
        let key = storage_key(w);
        let encoded = base64_encode_text(value.as_str());
        obj_insert(&mut data, key.as_str(), JsonValue::Str(encoded));
        i = i + 1;
    }
    assert(gwrites.subrange(n as int, n as int) =~= Seq::<SecretWriteSpec>::empty());
    proof {
        reveal_strlit("apiVersion");
        reveal_strlit("v1");
        reveal_strlit("kind");
        reveal_strlit("Secret");
        reveal_strlit("metadata");
        reveal_strlit("name");
        reveal_strlit("namespace");
        reveal_strlit("annotations");
        reveal_strlit("managed-by");
        reveal_strlit("greentic-deployer");
        reveal_strlit("type");
        reveal_strlit("Opaque");
        reveal_strlit("data");
    }
    let mut annotations: Vec<(String, JsonValue)> = Vec::new();
    annotations.push(
        (String::from_str("managed-by"), JsonValue::Str(String::from_str("greentic-deployer"))),
    );
    let mut metadata: Vec<(String, JsonValue)> = Vec::new();
    metadata.push((String::from_str("name"), JsonValue::Str(name.clone())));
    metadata.push((String::from_str("namespace"), JsonValue::Str(namespace.clone())));
    metadata.push((String::from_str("annotations"), JsonValue::Obj(annotations)));
    let mut fields: Vec<(String, JsonValue)> = Vec::new();
    fields.push((String::from_str("apiVersion"), JsonValue::Str(String::from_str("v1"))));
    fields.push((String::from_str("kind"), JsonValue::Str(String::from_str("Secret"))));
    fields.push((String::from_str("metadata"), JsonValue::Obj(metadata)));
    fields.push((String::from_str("type"), JsonValue::Str(String::from_str("Opaque"))));
    fields.push((String::from_str("data"), JsonValue::Obj(data)));
    let manifest = JsonValue::Obj(fields);
    proof {
        let target = spec_k8s_manifest(
            namespace@,
            name@,
            spec_k8s_data(Seq::<(Seq<char>, JsonSpec)>::empty(), gwrites),
        );
        let gf = json_view_fields(fields@);
        assert(gf.len() == 5);
        assert(gf[0] == (fields@[0].0@, json_view(fields@[0].1)));
        assert(gf[1] == (fields@[1].0@, json_view(fields@[1].1)));
        assert(gf[2] == (fields@[2].0@, json_view(fields@[2].1)));
        assert(gf[3] == (fields@[3].0@, json_view(fields@[3].1)));
        assert(gf[4] == (fields@[4].0@, json_view(fields@[4].1)));
        let gm = json_view_fields(metadata@);
        assert(gm.len() == 3);
        assert(gm[0] == (metadata@[0].0@, json_view(metadata@[0].1)));
        assert(gm[1] == (metadata@[1].0@, json_view(metadata@[1].1)));
        assert(gm[2] == (metadata@[2].0@, json_view(metadata@[2].1)));
        let ga = json_view_fields(annotations@);
        assert(ga.len() == 1);
        assert(ga[0] == (annotations@[0].0@, json_view(annotations@[0].1)));
        assert(ga =~= target->Obj_0[2].1->Obj_0[2].1->Obj_0);
        assert(gm =~~= target->Obj_0[2].1->Obj_0);
        assert(gf =~~= target->Obj_0);
        assert(json_view(manifest) =~~= target);
    }
    Result::Ok(
        SecretsWritePlan::WriteK8sManifest {
            namespace: namespace.clone(),
            name: name.clone(),
            manifest,
        },
    )
}

/// Computes what the backend must perform for the installer's writes: an
/// empty write set touches nothing; otherwise the file store's new content
/// or the cluster manifest.  Succeeds exactly when the existing store (for
/// the file backend) is readable as an object and every write carries a
/// value.
pub fn execute_writes(
    backend: &SecretsBackend,
    existing_file: Option<&Vec<u8>>,
    writes: &Vec<SecretWrite>,
) -> (r: Result<SecretsWritePlan, BootstrapError>)
    ensures
        writes@.len() == 0 ==> (r matches Result::Ok(plan) && plan is Nothing),
        writes@.len() > 0 ==> match *backend {
            SecretsBackend::File(path) => ({
                let store = spec_existing_store(
                    match existing_file {
                        Option::Some(bytes) => Option::Some(bytes@),
                        Option::None => Option::None,
                    },
                );
                match store {
                    Option::None => r matches Result::Err(e) && e is Pack,
                    Option::Some(fields0) => match spec_first_missing_value(
                        writes_view(writes@),
                    ) {
                        Option::Some(ix) => r matches Result::Err(e) && (
                        e matches BootstrapError::MissingValue(key) && key@ == writes_view(
                            writes@,
                        )[ix].key),
                        Option::None => r matches Result::Ok(plan) && (
                        plan matches SecretsWritePlan::WriteFile {
                            path: out_path,
                            content,
                        } && out_path@ == path@ && content@ == spec_json_text(
                            JsonSpec::Obj(spec_merge_writes(fields0, writes_view(writes@))),
                        )),
                    },
                }
            }),
            SecretsBackend::K8s { namespace, name } => match spec_first_missing_value(
                writes_view(writes@),
            ) {
                Option::Some(ix) => r matches Result::Err(e) && (
                e matches BootstrapError::MissingValue(key) && key@ == writes_view(writes@)[
                    ix
                ].key),
                Option::None => r matches Result::Ok(plan) && (
                plan matches SecretsWritePlan::WriteK8sManifest {
                    namespace: out_ns,
                    name: out_name,
                    manifest,
                } && out_ns@ == namespace@ && out_name@ == name@ && json_view(manifest)
                    == spec_k8s_manifest(
                    namespace@,
                    name@,
                    spec_k8s_data(
                        Seq::<(Seq<char>, JsonSpec)>::empty(),
                        writes_view(writes@),
                    ),
                )),
            },
        },
{
    if writes.len() == 0 {
        return Result::Ok(SecretsWritePlan::Nothing);
    }
    match backend {
        SecretsBackend::File(path) => plan_file_writes(path, existing_file, writes),
        SecretsBackend::K8s { namespace, name } => plan_k8s_manifest(namespace, name, writes),
    }
}

/// A snapshot of the secrets store taken immediately before a mutating
/// write, used exclusively for best-effort restoration.
#[derive(Debug, Clone)]
pub struct SecretsSnapshot {
    pub backend: SecretsBackend,
    pub content: Option<String>,
}

/// Captures the state to restore on rollback: the file store's prior
/// content (or its absence).  The cluster backend has no snapshot in this
/// build.
pub fn snapshot_backend(backend: &SecretsBackend, file_content: Option<String>) -> (r: Option<
    SecretsSnapshot,
>)
    ensures
        match r {
            Option::Some(snapshot) => backend is File && backend_view(snapshot.backend)
                == backend_view(*backend) && crate::state::opt_text_view(snapshot.content)
                == crate::state::opt_text_view(file_content),
            Option::None => backend is K8s,
        },
{
    match backend {
        SecretsBackend::File(_) => Option::Some(
            SecretsSnapshot { backend: backend.clone(), content: file_content },
        ),
        SecretsBackend::K8s { .. } => Option::None,
    }
}

/// What restoring a snapshot must do to the store.
#[derive(Debug, Clone)]
pub enum RestoreAction {
    /// Write this content back to the file.
    WriteFile { path: String, content: String },
    /// Remove the file if it exists: it did not exist before the run.
    RemoveFileIfExists { path: String },
}

/// Decides how to restore a snapshot: rewrite the prior content, or remove
/// the file that did not exist.  The cluster backend cannot be restored in
/// this build, and says so rather than silently succeeding.
pub fn restore_backend(snapshot: &SecretsSnapshot) -> (r: Result<RestoreAction, BootstrapError>)
    ensures
        match r {
            Result::Ok(action) => snapshot.backend matches SecretsBackend::File(path) && match (
                action,
                &snapshot.content,
            ) {
                (RestoreAction::WriteFile { path: out_path, content }, Option::Some(prior)) =>
                    out_path@ == path@ && content@ == prior@,
                (RestoreAction::RemoveFileIfExists { path: out_path }, Option::None) => out_path@
                    == path@,
                _ => false,
            },
            Result::Err(e) => snapshot.backend is K8s && e is Config,
        },
{
    match &snapshot.backend {
        SecretsBackend::File(path) => match &snapshot.content {
            Option::Some(content) => Result::Ok(
                RestoreAction::WriteFile { path: path.clone(), content: content.clone() },
            ),
            Option::None => Result::Ok(RestoreAction::RemoveFileIfExists { path: path.clone() }),
        },
        SecretsBackend::K8s { .. } => Result::Err(
            BootstrapError::Config(
                String::from_str("k8s secrets backend restore not implemented in stub"),
            ),
        ),
    }
}

/// Where the cluster backend writes its manifests: an explicitly supplied
/// override, else the surrounding environment's choice, else a fixed
/// default.  Carried as a passed-down context rather than process-wide
/// state so that tests inject their own.
#[derive(Debug, Clone, Default)]
pub struct K8sSecretDirs {
    override_dir: Option<String>,
}

impl K8sSecretDirs {
    pub closed spec fn view_override(&self) -> Option<Seq<char>> {
        crate::state::opt_text_view(self.override_dir)
    }

    pub fn new() -> (r: Self)
        ensures
            r.view_override() is None,
    {
        K8sSecretDirs { override_dir: Option::None }
    }

    /// Sets or clears the directory override (a test seam).
    pub fn set_k8s_secret_dir_override(&mut self, path: Option<String>)
        ensures
            final(self).view_override() == crate::state::opt_text_view(path),
    {
        self.override_dir = path;
    }

    /// The directory manifests go under: override, else the environment's
    /// value, else the fixed default.
    pub fn base_dir(&self, env_value: Option<String>) -> (r: String)
        ensures
            match self.view_override() {
                Option::Some(dir) => r@ == dir,
                Option::None => match crate::state::opt_text_view(env_value) {
                    Option::Some(env_dir) => r@ == env_dir,
                    Option::None => r@ == "/tmp/greentic-k8s-secrets"@,
                },
            },
    {
        match &self.override_dir {
            Option::Some(dir) => dir.clone(),
            Option::None => match env_value {
                Option::Some(env_dir) => env_dir,
                Option::None => String::from_str("/tmp/greentic-k8s-secrets"),
            },
        }
    }
}

} // verus!
