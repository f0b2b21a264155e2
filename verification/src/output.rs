//! The installer's declarative output: secret writes, a configuration
//! patch, warnings and a readiness flag, with its JSON form and the
//! redaction that strips secret values before anything is logged or
//! persisted outside the secrets backend.

use vstd::prelude::*;
use crate::json::{
    json_view, json_view_list, spec_json_get, JsonSpec, JsonValue,
};
use vstd::string::StringExecFns;

verus! {

/// One secret the installer asks to be written.
#[derive(Debug, Clone)]
pub struct SecretWrite {
    pub key: String,
    pub value: Option<String>,
    pub scope: Option<String>,
    pub metadata: Option<JsonValue>,
}

/// The mathematical image of a secret write.
#[verifier::ext_equal]
pub struct SecretWriteSpec {
    pub key: Seq<char>,
    pub value: Option<Seq<char>>,
    pub scope: Option<Seq<char>>,
    pub metadata: Option<JsonSpec>,
}

pub open spec fn opt_text_view(o: Option<String>) -> Option<Seq<char>> {
    match o {
        Option::Some(s) => Option::Some(s@),
        Option::None => Option::None,
    }
}

pub open spec fn opt_json_view(o: Option<JsonValue>) -> Option<JsonSpec> {
    match o {
        Option::Some(v) => Option::Some(json_view(v)),
        Option::None => Option::None,
    }
}

pub open spec fn write_view(w: SecretWrite) -> SecretWriteSpec {
    SecretWriteSpec {
        key: w.key@,
        value: opt_text_view(w.value),
        scope: opt_text_view(w.scope),
        metadata: opt_json_view(w.metadata),
    }
}

pub open spec fn writes_view(ws: Seq<SecretWrite>) -> Seq<SecretWriteSpec> {
    ws.map_values(|w: SecretWrite| write_view(w))
}

pub open spec fn texts_view(ts: Seq<String>) -> Seq<Seq<char>> {
    ts.map_values(|t: String| t@)
}

/// The installer's final declarative output.
#[derive(Debug, Clone)]
pub struct BootstrapOutput {
    pub output_version: String,
    pub config_patch: JsonValue,
    pub secrets_writes: Vec<SecretWrite>,
    pub warnings: Vec<String>,
    pub ready: bool,
}

/// The mathematical image of a bootstrap output.
#[verifier::ext_equal]
pub struct BootstrapOutputSpec {
    pub output_version: Seq<char>,
    pub config_patch: JsonSpec,
    pub secrets_writes: Seq<SecretWriteSpec>,
    pub warnings: Seq<Seq<char>>,
    pub ready: bool,
}

pub open spec fn output_view(o: BootstrapOutput) -> BootstrapOutputSpec {
    BootstrapOutputSpec {
        output_version: o.output_version@,
        config_patch: json_view(o.config_patch),
        secrets_writes: writes_view(o.secrets_writes@),
        warnings: texts_view(o.warnings@),
        ready: o.ready,
    }
}

/// A write with its value stripped, everything else kept.
pub open spec fn spec_redact_write(w: SecretWriteSpec) -> SecretWriteSpec {
    SecretWriteSpec { key: w.key, value: Option::None, scope: w.scope, metadata: w.metadata }
}

/// An output with every secret value stripped.
pub open spec fn spec_redacted(o: BootstrapOutputSpec) -> BootstrapOutputSpec {
    BootstrapOutputSpec {
        output_version: o.output_version,
        config_patch: o.config_patch,
        secrets_writes: o.secrets_writes.map_values(|w: SecretWriteSpec| spec_redact_write(w)),
        warnings: o.warnings,
        ready: o.ready,
    }
}

impl BootstrapOutput {
    /// A fresh output under the current output version.
    pub fn new(
        config_patch: JsonValue,
        secrets_writes: Vec<SecretWrite>,
        warnings: Vec<String>,
        ready: bool,
    ) -> (r: Self)
        ensures
            output_view(r).output_version == "v1"@,
            output_view(r).config_patch == json_view(config_patch),
            output_view(r).secrets_writes == writes_view(secrets_writes@),
            output_view(r).warnings == texts_view(warnings@),
            output_view(r).ready == ready,
    {
        BootstrapOutput {
            output_version: String::from_str("v1"),
            config_patch,
            secrets_writes,
            warnings,
            ready,
        }
    }

    /// This output with every secret value removed: what may be logged or
    /// written anywhere but the secrets backend itself.
    pub fn redacted(&self) -> (r: Self)
        ensures
            output_view(r) == spec_redacted(output_view(*self)),
    {
        let n = self.secrets_writes.len();
        let mut stripped: Vec<SecretWrite> = Vec::new();
        let mut i: usize = 0;
        while i < n
            invariant
                i <= n,
                n == self.secrets_writes@.len(),
                writes_view(stripped@) =~= writes_view(self.secrets_writes@).map_values(
                    |w: SecretWriteSpec| spec_redact_write(w),
                ).subrange(0, i as int),
            decreases n - i,
        {
            let w = &self.secrets_writes[i];
            let ghost before = stripped@;
            stripped.push(
                SecretWrite {
                    key: w.key.clone(),
                    value: Option::None,
                    scope: w.scope.clone(),
                    metadata: match &w.metadata {
                        Option::Some(m) => Option::Some(m.clone()),
                        Option::None => Option::None,
                    },
                },
            );
            proof {
                assert(writes_view(stripped@) =~= writes_view(before).push(
                    write_view(stripped@[i as int]),
                ));
                assert(write_view(stripped@[i as int]) =~= spec_redact_write(
                    write_view(self.secrets_writes@[i as int]),
                ));
                assert(writes_view(stripped@) =~= writes_view(self.secrets_writes@).map_values(
                    |w: SecretWriteSpec| spec_redact_write(w),
                ).subrange(0, i + 1));
            }
            i = i + 1;
        }
        proof {
            let mapped = writes_view(self.secrets_writes@).map_values(
                |w: SecretWriteSpec| spec_redact_write(w),
            );
            assert(mapped.subrange(0, n as int) =~= mapped);
        }
        let r = BootstrapOutput {
            output_version: self.output_version.clone(),
            config_patch: self.config_patch.clone(),
            secrets_writes: stripped,
            warnings: self.warnings.clone(),
            ready: self.ready,
        };
        proof {
            assert(texts_view(r.warnings@) =~= texts_view(self.warnings@)) by {
                assert(r.warnings@ == self.warnings@);
            };
            assert(output_view(r) =~~= spec_redacted(output_view(*self)));
        }
        r
    }
}

/// What a JSON document decodes to as one secret write: `key` a required
/// string, `value` and `scope` optional strings, `metadata` an arbitrary
/// optional document.
pub open spec fn spec_write_of_json(v: JsonSpec) -> Option<SecretWriteSpec> {
    if !(v is Obj) {
        Option::None
    } else {
        match spec_json_get(v, "key"@) {
            Option::Some(JsonSpec::Str(key)) => {
                match (
                    spec_opt_text_field(v, "value"@),
                    spec_opt_text_field(v, "scope"@),
                    spec_opt_json_field(v, "metadata"@),
                ) {
                    (Option::Some(value), Option::Some(scope), Option::Some(metadata)) =>
                        Option::Some(SecretWriteSpec { key, value, scope, metadata }),
                    _ => Option::None,
                }
            },
            _ => Option::None,
        }
    }
}

/// An optional text field: absent or `null` is `None`, a string is its
/// text, anything else fails the decode.
pub open spec fn spec_opt_text_field(v: JsonSpec, key: Seq<char>) -> Option<Option<Seq<char>>> {
    match spec_json_get(v, key) {
        Option::None => Option::Some(Option::None),
        Option::Some(JsonSpec::Null) => Option::Some(Option::None),
        Option::Some(JsonSpec::Str(s)) => Option::Some(Option::Some(s)),
        Option::Some(_) => Option::None,
    }
}

/// An optional document field: absent or `null` is `None`, anything else is
/// kept whole.
pub open spec fn spec_opt_json_field(v: JsonSpec, key: Seq<char>) -> Option<Option<JsonSpec>> {
    match spec_json_get(v, key) {
        Option::None => Option::Some(Option::None),
        Option::Some(JsonSpec::Null) => Option::Some(Option::None),
        Option::Some(m) => Option::Some(Option::Some(m)),
    }
}

/// What a JSON document decodes to as a list of secret writes.
pub open spec fn spec_writes_of_json(items: Seq<JsonSpec>) -> Option<Seq<SecretWriteSpec>>
    decreases items,
{
    if items.len() == 0 {
        Option::Some(Seq::<SecretWriteSpec>::empty())
    } else {
        match (spec_write_of_json(items[0]), spec_writes_of_json(items.drop_first())) {
            (Option::Some(w), Option::Some(rest)) => Option::Some(seq![w] + rest),
            _ => Option::None,
        }
    }
}

/// What a JSON document decodes to as a list of warning texts.
pub open spec fn spec_texts_of_json(items: Seq<JsonSpec>) -> Option<Seq<Seq<char>>>
    decreases items,
{
    if items.len() == 0 {
        Option::Some(Seq::<Seq<char>>::empty())
    } else {
        match (items[0], spec_texts_of_json(items.drop_first())) {
            (JsonSpec::Str(t), Option::Some(rest)) => Option::Some(seq![t] + rest),
            _ => Option::None,
        }
    }
}

/// What a JSON document decodes to as a bootstrap output: `output_version`
/// a required string, `ready` a required boolean, `config_patch` any
/// document defaulting to `null`, `secrets_writes` and `warnings`
/// defaulting to empty lists.
pub open spec fn spec_output_of_json(v: JsonSpec) -> Option<BootstrapOutputSpec> {
    if !(v is Obj) {
        Option::None
    } else {
        match (spec_json_get(v, "output_version"@), spec_json_get(v, "ready"@)) {
            (Option::Some(JsonSpec::Str(output_version)), Option::Some(JsonSpec::Bool(ready))) => {
                let config_patch = match spec_json_get(v, "config_patch"@) {
                    Option::Some(p) => p,
                    Option::None => JsonSpec::Null,
                };
                let writes_doc = match spec_json_get(v, "secrets_writes"@) {
                    Option::Some(w) => w,
                    Option::None => JsonSpec::Arr(Seq::<JsonSpec>::empty()),
                };
                let warnings_doc = match spec_json_get(v, "warnings"@) {
                    Option::Some(w) => w,
                    Option::None => JsonSpec::Arr(Seq::<JsonSpec>::empty()),
                };
                if writes_doc is Arr && warnings_doc is Arr {
                    match (
                        spec_writes_of_json(writes_doc->Arr_0),
                        spec_texts_of_json(warnings_doc->Arr_0),
                    ) {
                        (Option::Some(secrets_writes), Option::Some(warnings)) => Option::Some(
                            BootstrapOutputSpec {
                                output_version,
                                config_patch,
                                secrets_writes,
                                warnings,
                                ready,
                            },
                        ),
                        _ => Option::None,
                    }
                } else {
                    Option::None
                }
            },
            _ => Option::None,
        }
    }
}

fn get_opt_text_field(v: &JsonValue, key: &str) -> (r: Option<Option<String>>)
    ensures
        match r {
            Option::Some(o) => spec_opt_text_field(json_view(*v), key@) == Option::Some(
                opt_text_view(o),
            ),
            Option::None => spec_opt_text_field(json_view(*v), key@) == Option::<
                Option<Seq<char>>,
            >::None,
        },
{
    match v.get(key) {
        Option::None => Option::Some(Option::None),
        Option::Some(found) => match found {
            JsonValue::Null => Option::Some(Option::None),
            JsonValue::Str(text) => Option::Some(Option::Some(text.clone())),
            _ => Option::None,
        },
    }
}

fn get_opt_json_field(v: &JsonValue, key: &str) -> (r: Option<Option<JsonValue>>)
    ensures
        match r {
            Option::Some(o) => spec_opt_json_field(json_view(*v), key@) == Option::Some(
                opt_json_view(o),
            ),
            Option::None => false,
        },
{
    match v.get(key) {
        Option::None => Option::Some(Option::None),
        Option::Some(found) => match found {
            JsonValue::Null => Option::Some(Option::None),
            _ => Option::Some(Option::Some(found.clone())),
        },
    }
}

/// Decodes one secret write.
fn write_from_json(v: &JsonValue) -> (r: Option<SecretWrite>)
    ensures
        match r {
            Option::Some(w) => spec_write_of_json(json_view(*v)) == Option::Some(write_view(w)),
            Option::None => spec_write_of_json(json_view(*v)) is None,
        },
{
    match v {
        JsonValue::Obj(_) => {},
        _ => {
            return Option::None;
        },
    }
    let key: String = match v.get("key") {
        Option::Some(found) => match found {
            JsonValue::Str(text) => text.clone(),
            _ => {
                return Option::None;
            },
        },
        Option::None => {
            return Option::None;
        },
    };
    let value = match get_opt_text_field(v, "value") {
        Option::Some(o) => o,
        Option::None => {
            return Option::None;
        },
    };
    let scope = match get_opt_text_field(v, "scope") {
        Option::Some(o) => o,
        Option::None => {
            return Option::None;
        },
    };
    let metadata = match get_opt_json_field(v, "metadata") {
        Option::Some(o) => o,
        Option::None => {
            return Option::None;
        },
    };
    Option::Some(SecretWrite { key, value, scope, metadata })
}

/// Decodes a bootstrap output from an `installer_call` payload.
#[verifier::loop_isolation(false)]
pub fn output_from_json(v: &JsonValue) -> (r: Option<BootstrapOutput>)
    ensures
        match r {
            Option::Some(o) => spec_output_of_json(json_view(*v)) == Option::Some(output_view(o)),
            Option::None => spec_output_of_json(json_view(*v)) is None,
        },
{
    broadcast use crate::json::lemma_json_view_list;

    match v {
        JsonValue::Obj(_) => {},
        _ => {
            return Option::None;
        },
    }
    let output_version: String = match v.get("output_version") {
        Option::Some(found) => match found {
            JsonValue::Str(text) => text.clone(),
            _ => {
                return Option::None;
            },
        },
        Option::None => {
            return Option::None;
        },
    };
    let ready: bool = match v.get("ready") {
        Option::Some(found) => match found {
            JsonValue::Bool(b) => *b,
            _ => {
                return Option::None;
            },
        },
        Option::None => {
            return Option::None;
        },
    };
    let config_patch: JsonValue = match v.get("config_patch") {
        Option::Some(found) => found.clone(),
        Option::None => JsonValue::Null,
    };
    let mut secrets_writes: Vec<SecretWrite> = Vec::new();
    match v.get("secrets_writes") {
        Option::None => {
            assert(spec_writes_of_json(Seq::<JsonSpec>::empty()) == Option::Some(
                Seq::<SecretWriteSpec>::empty(),
            ));
        },
        Option::Some(found) => {
            let items = match found {
                JsonValue::Arr(items) => items,
                _ => {
                    return Option::None;
                },
            };
            let ghost gitems = json_view_list(items@);
            let n = items.len();
            let mut i: usize = 0;
            assert(gitems.subrange(0, n as int) =~= gitems);
            while i < n
                invariant
                    i <= n,
                    writes_view(secrets_writes@).len() == i,
                    match spec_writes_of_json(gitems.subrange(i as int, n as int)) {
                        Option::Some(rest) => spec_writes_of_json(gitems) == Option::Some(
                            writes_view(secrets_writes@) + rest,
                        ),
                        Option::None => spec_writes_of_json(gitems) is None,
                    },
                decreases n - i,
            {
                let ghost rest = gitems.subrange(i as int, n as int);
                assert(rest[0] == gitems[i as int]);
                assert(rest.drop_first() =~= gitems.subrange(i + 1, n as int));
                assert(gitems[i as int] == json_view(items@[i as int]));
                let w = match write_from_json(&items[i]) {
                    Option::Some(w) => w,
                    Option::None => {
                        return Option::None;
                    },
                };
                let ghost before = secrets_writes@;
                secrets_writes.push(w);
                proof {
                    assert(writes_view(secrets_writes@) =~= writes_view(before).push(
                        write_view(w),
                    ));
                    if spec_writes_of_json(gitems.subrange(i + 1, n as int)) is Some {
                        let tail = spec_writes_of_json(gitems.subrange(i + 1, n as int))->Some_0;
                        assert(spec_writes_of_json(rest) == Option::Some(
                            seq![write_view(w)] + tail,
                        ));
                        assert(writes_view(before) + (seq![write_view(w)] + tail) =~= writes_view(
                            secrets_writes@,
                        ) + tail);
                    }
                }
                i = i + 1;
            }
            assert(gitems.subrange(n as int, n as int) =~= Seq::<JsonSpec>::empty());
            assert(writes_view(secrets_writes@) + Seq::<SecretWriteSpec>::empty() =~= writes_view(
                secrets_writes@,
            ));
        },
    }
    let mut warnings: Vec<String> = Vec::new();
    match v.get("warnings") {
        Option::None => {
            assert(spec_texts_of_json(Seq::<JsonSpec>::empty()) == Option::Some(
                Seq::<Seq<char>>::empty(),
            ));
        },
        Option::Some(found) => {
            let items = match found {
                JsonValue::Arr(items) => items,
                _ => {
                    return Option::None;
                },
            };
            let ghost gitems = json_view_list(items@);
            let n = items.len();
            let mut i: usize = 0;
            assert(gitems.subrange(0, n as int) =~= gitems);
            while i < n
                invariant
                    i <= n,
                    texts_view(warnings@).len() == i,
                    match spec_texts_of_json(gitems.subrange(i as int, n as int)) {
                        Option::Some(rest) => spec_texts_of_json(gitems) == Option::Some(
                            texts_view(warnings@) + rest,
                        ),
                        Option::None => spec_texts_of_json(gitems) is None,
                    },
                decreases n - i,
            {
                let ghost rest = gitems.subrange(i as int, n as int);
                assert(rest[0] == gitems[i as int]);
                assert(rest.drop_first() =~= gitems.subrange(i + 1, n as int));
                assert(gitems[i as int] == json_view(items@[i as int]));
                let t = match &items[i] {
                    JsonValue::Str(text) => text.clone(),
                    _ => {
                        return Option::None;
                    },
                };
                let ghost before = warnings@;
                warnings.push(t);
                proof {
                    assert(texts_view(warnings@) =~= texts_view(before).push(t@));
                    if spec_texts_of_json(gitems.subrange(i + 1, n as int)) is Some {
                        let tail = spec_texts_of_json(gitems.subrange(i + 1, n as int))->Some_0;
                        assert(spec_texts_of_json(rest) == Option::Some(seq![t@] + tail));
                        assert(texts_view(before) + (seq![t@] + tail) =~= texts_view(warnings@)
                            + tail);
                    }
                }
                i = i + 1;
            }
            assert(gitems.subrange(n as int, n as int) =~= Seq::<JsonSpec>::empty());
            assert(texts_view(warnings@) + Seq::<Seq<char>>::empty() =~= texts_view(warnings@));
        },
    }
    let r = BootstrapOutput { output_version, config_patch, secrets_writes, warnings, ready };
    proof {
        assert(spec_output_of_json(json_view(*v)) =~~= Option::Some(output_view(r)));
    }
    Option::Some(r)
}


/// The JSON document one secret write renders as: `key` always, `value`,
/// `scope` and `metadata` only when present.
pub open spec fn spec_write_json(w: SecretWriteSpec) -> JsonSpec {
    JsonSpec::Obj(
        seq![("key"@, JsonSpec::Str(w.key))] + (match w.value {
            Option::Some(value) => seq![("value"@, JsonSpec::Str(value))],
            Option::None => Seq::<(Seq<char>, JsonSpec)>::empty(),
        }) + (match w.scope {
            Option::Some(scope) => seq![("scope"@, JsonSpec::Str(scope))],
            Option::None => Seq::<(Seq<char>, JsonSpec)>::empty(),
        }) + (match w.metadata {
            Option::Some(m) => seq![("metadata"@, m)],
            Option::None => Seq::<(Seq<char>, JsonSpec)>::empty(),
        }),
    )
}

/// The JSON document an output renders as, fields in declaration order.
pub open spec fn spec_output_json(o: BootstrapOutputSpec) -> JsonSpec {
    JsonSpec::Obj(
        seq![
            ("output_version"@, JsonSpec::Str(o.output_version)),
            ("config_patch"@, o.config_patch),
            ("secrets_writes"@, JsonSpec::Arr(
                o.secrets_writes.map_values(|w: SecretWriteSpec| spec_write_json(w)),
            )),
            ("warnings"@, JsonSpec::Arr(
                o.warnings.map_values(|t: Seq<char>| JsonSpec::Str(t)),
            )),
            ("ready"@, JsonSpec::Bool(o.ready)),
        ],
    )
}

/// Renders one secret write as its JSON document.
fn write_to_json(w: &SecretWrite) -> (r: JsonValue)
    ensures
        json_view(r) == spec_write_json(write_view(*w)),
{
    broadcast use crate::json::lemma_json_view_fields;

    proof {
        reveal_strlit("key");
        reveal_strlit("value");
        reveal_strlit("scope");
        reveal_strlit("metadata");
    }
    let ghost seg0 = seq![("key"@, JsonSpec::Str(w.key@))];
    let ghost seg1 = match write_view(*w).value {
        Option::Some(value) => seq![("value"@, JsonSpec::Str(value))],
        Option::None => Seq::<(Seq<char>, JsonSpec)>::empty(),
    };
    let ghost seg2 = match write_view(*w).scope {
        Option::Some(scope) => seq![("scope"@, JsonSpec::Str(scope))],
        Option::None => Seq::<(Seq<char>, JsonSpec)>::empty(),
    };
    let ghost seg3 = match write_view(*w).metadata {
        Option::Some(m) => seq![("metadata"@, m)],
        Option::None => Seq::<(Seq<char>, JsonSpec)>::empty(),
    };
    let mut fields: Vec<(String, JsonValue)> = Vec::new();
    fields.push((String::from_str("key"), JsonValue::Str(w.key.clone())));
    proof {
        assert(crate::json::json_view_fields(fields@) =~= seg0);
    }
    match &w.value {
        Option::Some(value) => {
            let ghost before = fields@;
            let k = String::from_str("value");
            let doc = JsonValue::Str(value.clone());
            fields.push((k, doc));
            proof {
                crate::json::lemma_view_fields_push(before, k, doc);
                assert(crate::json::json_view_fields(fields@) =~= seg0 + seg1);
            }
        },
        Option::None => {
            assert(crate::json::json_view_fields(fields@) =~= seg0 + seg1);
        },
    }
    match &w.scope {
        Option::Some(scope) => {
            let ghost before = fields@;
            let k = String::from_str("scope");
            let doc = JsonValue::Str(scope.clone());
            fields.push((k, doc));
            proof {
                crate::json::lemma_view_fields_push(before, k, doc);
                assert(crate::json::json_view_fields(fields@) =~= (seg0 + seg1) + seg2);
            }
        },
        Option::None => {
            assert(crate::json::json_view_fields(fields@) =~= (seg0 + seg1) + seg2);
        },
    }
    match &w.metadata {
        Option::Some(m) => {
            let ghost before = fields@;
            let k = String::from_str("metadata");
            let doc = m.clone();
            fields.push((k, doc));
            proof {
                crate::json::lemma_view_fields_push(before, k, doc);
                assert(crate::json::json_view_fields(fields@) =~= ((seg0 + seg1) + seg2) + seg3);
            }
        },
        Option::None => {
            assert(crate::json::json_view_fields(fields@) =~= ((seg0 + seg1) + seg2) + seg3);
        },
    }
    let r = JsonValue::Obj(fields);
    proof {
        assert(((seg0 + seg1) + seg2) + seg3 =~= seg0 + seg1 + seg2 + seg3);
        assert(spec_write_json(write_view(*w))->Obj_0 == seg0 + seg1 + seg2 + seg3);
        assert(json_view(r) =~~= spec_write_json(write_view(*w)));
    }
    r
}

/// Renders an output as its JSON document.
#[verifier::loop_isolation(false)]
pub fn output_to_json(o: &BootstrapOutput) -> (r: JsonValue)
    ensures
        json_view(r) == spec_output_json(output_view(*o)),
{
    broadcast use crate::json::lemma_json_view_fields, crate::json::lemma_json_view_list;

    let mut write_docs: Vec<JsonValue> = Vec::new();
    let n = o.secrets_writes.len();
    let mut i: usize = 0;
    let ghost wtarget = writes_view(o.secrets_writes@).map_values(
        |w: SecretWriteSpec| spec_write_json(w),
    );
    while i < n
        invariant
            i <= n,
            json_view_list(write_docs@) =~= wtarget.subrange(0, i as int),
        decreases n - i,
    {
        let ghost before = write_docs@;
        let doc = write_to_json(&o.secrets_writes[i]);
        write_docs.push(doc);
        proof {
            crate::json::lemma_view_list_push(before, doc);
            assert(wtarget[i as int] == spec_write_json(write_view(o.secrets_writes@[i as int])));
            assert(json_view_list(write_docs@) =~= wtarget.subrange(0, i + 1));
        }
        i = i + 1;
    }
    assert(wtarget.subrange(0, n as int) =~= wtarget);
    let mut warning_docs: Vec<JsonValue> = Vec::new();
    let m = o.warnings.len();
    let mut j: usize = 0;
    let ghost ttarget = texts_view(o.warnings@).map_values(|t: Seq<char>| JsonSpec::Str(t));
    while j < m
        invariant
            j <= m,
            json_view_list(warning_docs@) =~= ttarget.subrange(0, j as int),
        decreases m - j,
    {
        let ghost before = warning_docs@;
        let doc = JsonValue::Str(o.warnings[j].clone());
        warning_docs.push(doc);
        proof {
            crate::json::lemma_view_list_push(before, doc);
            assert(ttarget[j as int] == JsonSpec::Str(o.warnings@[j as int]@));
            assert(json_view_list(warning_docs@) =~= ttarget.subrange(0, j + 1));
        }
        j = j + 1;
    }
    assert(ttarget.subrange(0, m as int) =~= ttarget);
    let mut fields: Vec<(String, JsonValue)> = Vec::new();
    fields.push((String::from_str("output_version"), JsonValue::Str(o.output_version.clone())));
    fields.push((String::from_str("config_patch"), o.config_patch.clone()));
    fields.push((String::from_str("secrets_writes"), JsonValue::Arr(write_docs)));
    fields.push((String::from_str("warnings"), JsonValue::Arr(warning_docs)));
    fields.push((String::from_str("ready"), JsonValue::Bool(o.ready)));
    let r = JsonValue::Obj(fields);
    proof {
        reveal_strlit("output_version");
        reveal_strlit("config_patch");
        reveal_strlit("secrets_writes");
        reveal_strlit("warnings");
        reveal_strlit("ready");
        let gf = crate::json::json_view_fields(fields@);
        assert(gf.len() == 5);
        assert(gf[0] == (fields@[0].0@, json_view(fields@[0].1)));
        assert(gf[1] == (fields@[1].0@, json_view(fields@[1].1)));
        assert(gf[2] == (fields@[2].0@, json_view(fields@[2].1)));
        assert(gf[3] == (fields@[3].0@, json_view(fields@[3].1)));
        assert(gf[4] == (fields@[4].0@, json_view(fields@[4].1)));
        assert(gf =~= spec_output_json(output_view(*o))->Obj_0);
        assert(json_view(r) =~~= spec_output_json(output_view(*o)));
    }
    r
}


/// One write survives its JSON round trip, provided its metadata is not
/// the `null` document — that one has no distinct rendering, exactly as
/// absent metadata.
proof fn lemma_write_round_trip(w: SecretWriteSpec)
    requires
        w.metadata != Option::Some(JsonSpec::Null),
    ensures
        spec_write_of_json(spec_write_json(w)) == Option::Some(w),
{
    reveal_strlit("key");
    reveal_strlit("value");
    reveal_strlit("scope");
    reveal_strlit("metadata");
    assert("key"@.len() == 3);
    assert("value"@.len() == 5);
    assert("scope"@.len() == 5);
    assert("metadata"@.len() == 8);
    assert("value"@ != "scope"@) by {
        assert("value"@[0] == 'v');
        assert("scope"@[0] == 's');
    };
    let v = spec_write_json(w);
    let fields = v->Obj_0;
    reveal_with_fuel(crate::json::spec_fields_get, 6);
    let seg0 = seq![("key"@, JsonSpec::Str(w.key))];
    let seg1 = match w.value {
        Option::Some(value) => seq![("value"@, JsonSpec::Str(value))],
        Option::None => Seq::<(Seq<char>, JsonSpec)>::empty(),
    };
    let seg2 = match w.scope {
        Option::Some(scope) => seq![("scope"@, JsonSpec::Str(scope))],
        Option::None => Seq::<(Seq<char>, JsonSpec)>::empty(),
    };
    let seg3 = match w.metadata {
        Option::Some(m) => seq![("metadata"@, m)],
        Option::None => Seq::<(Seq<char>, JsonSpec)>::empty(),
    };
    assert(fields == seg0 + seg1 + seg2 + seg3);
    lemma_fields_get_by_cases(fields, w, seg1, seg2, seg3);
}

/// Spells the four lookups out for the write object's field layout.
proof fn lemma_fields_get_by_cases(
    fields: Seq<(Seq<char>, JsonSpec)>,
    w: SecretWriteSpec,
    seg1: Seq<(Seq<char>, JsonSpec)>,
    seg2: Seq<(Seq<char>, JsonSpec)>,
    seg3: Seq<(Seq<char>, JsonSpec)>,
)
    requires
        "key"@.len() == 3,
        "value"@.len() == 5,
        "scope"@.len() == 5,
        "metadata"@.len() == 8,
        "value"@ != "scope"@,
        fields == seq![("key"@, JsonSpec::Str(w.key))] + seg1 + seg2 + seg3,
        seg1 == (match w.value {
            Option::Some(value) => seq![("value"@, JsonSpec::Str(value))],
            Option::None => Seq::<(Seq<char>, JsonSpec)>::empty(),
        }),
        seg2 == (match w.scope {
            Option::Some(scope) => seq![("scope"@, JsonSpec::Str(scope))],
            Option::None => Seq::<(Seq<char>, JsonSpec)>::empty(),
        }),
        seg3 == (match w.metadata {
            Option::Some(m) => seq![("metadata"@, m)],
            Option::None => Seq::<(Seq<char>, JsonSpec)>::empty(),
        }),
    ensures
        crate::json::spec_fields_get(fields, "key"@) == Option::Some(JsonSpec::Str(w.key)),
        crate::json::spec_fields_get(fields, "value"@) == (match w.value {
            Option::Some(value) => Option::Some(JsonSpec::Str(value)),
            Option::None => Option::None,
        }),
        crate::json::spec_fields_get(fields, "scope"@) == (match w.scope {
            Option::Some(scope) => Option::Some(JsonSpec::Str(scope)),
            Option::None => Option::None,
        }),
        crate::json::spec_fields_get(fields, "metadata"@) == (match w.metadata {
            Option::Some(m) => Option::Some(m),
            Option::None => Option::None,
        }),
{
    reveal_with_fuel(crate::json::spec_fields_get, 6);
    if w.value is Some {
        if w.scope is Some {
            if w.metadata is Some {
                assert(fields =~= seq![
                    ("key"@, JsonSpec::Str(w.key)),
                    ("value"@, JsonSpec::Str(w.value->0)),
                    ("scope"@, JsonSpec::Str(w.scope->0)),
                    ("metadata"@, w.metadata->0),
                ]);
            } else {
                assert(fields =~= seq![
                    ("key"@, JsonSpec::Str(w.key)),
                    ("value"@, JsonSpec::Str(w.value->0)),
                    ("scope"@, JsonSpec::Str(w.scope->0)),
                ]);
            }
        } else {
            if w.metadata is Some {
                assert(fields =~= seq![
                    ("key"@, JsonSpec::Str(w.key)),
                    ("value"@, JsonSpec::Str(w.value->0)),
                    ("metadata"@, w.metadata->0),
                ]);
            } else {
                assert(fields =~= seq![
                    ("key"@, JsonSpec::Str(w.key)),
                    ("value"@, JsonSpec::Str(w.value->0)),
                ]);
            }
        }
    } else {
        if w.scope is Some {
            if w.metadata is Some {
                assert(fields =~= seq![
                    ("key"@, JsonSpec::Str(w.key)),
                    ("scope"@, JsonSpec::Str(w.scope->0)),
                    ("metadata"@, w.metadata->0),
                ]);
            } else {
                assert(fields =~= seq![
                    ("key"@, JsonSpec::Str(w.key)),
                    ("scope"@, JsonSpec::Str(w.scope->0)),
                ]);
            }
        } else {
            if w.metadata is Some {
                assert(fields =~= seq![
                    ("key"@, JsonSpec::Str(w.key)),
                    ("metadata"@, w.metadata->0),
                ]);
            } else {
                assert(fields =~= seq![("key"@, JsonSpec::Str(w.key))]);
            }
        }
    }
}


/// A list of writes survives its JSON round trip under the same proviso.
proof fn lemma_writes_round_trip(writes: Seq<SecretWriteSpec>)
    requires
        forall|i: int|
            0 <= i < writes.len() ==> (#[trigger] writes[i]).metadata != Option::Some(
                JsonSpec::Null,
            ),
    ensures
        spec_writes_of_json(writes.map_values(|w: SecretWriteSpec| spec_write_json(w)))
            == Option::Some(writes),
    decreases writes.len(),
{
    let docs = writes.map_values(|w: SecretWriteSpec| spec_write_json(w));
    if writes.len() == 0 {
        assert(docs.len() == 0);
    } else {
        lemma_write_round_trip(writes[0]);
        lemma_writes_round_trip(writes.drop_first());
        assert(docs[0] == spec_write_json(writes[0]));
        assert(docs.drop_first() =~= writes.drop_first().map_values(
            |w: SecretWriteSpec| spec_write_json(w),
        ));
        assert(seq![writes[0]] + writes.drop_first() =~= writes);
    }
}

/// A list of warning texts survives its JSON round trip.
proof fn lemma_texts_round_trip(texts: Seq<Seq<char>>)
    ensures
        spec_texts_of_json(texts.map_values(|t: Seq<char>| JsonSpec::Str(t))) == Option::Some(
            texts,
        ),
    decreases texts.len(),
{
    let docs = texts.map_values(|t: Seq<char>| JsonSpec::Str(t));
    if texts.len() == 0 {
        assert(docs.len() == 0);
    } else {
        lemma_texts_round_trip(texts.drop_first());
        assert(docs[0] == JsonSpec::Str(texts[0]));
        assert(docs.drop_first() =~= texts.drop_first().map_values(
            |t: Seq<char>| JsonSpec::Str(t),
        ));
        assert(seq![texts[0]] + texts.drop_first() =~= texts);
    }
}

/// Rendering an installer output and decoding it back yields the same
/// output, for every output whose secret writes carry no `null` metadata
/// document — that one has no rendering distinct from absent metadata.
pub proof fn lemma_output_round_trip(o: BootstrapOutputSpec)
    requires
        forall|i: int|
            0 <= i < o.secrets_writes.len() ==> (#[trigger] o.secrets_writes[i]).metadata
                != Option::Some(JsonSpec::Null),
    ensures
        spec_output_of_json(spec_output_json(o)) == Option::Some(o),
{
    reveal_strlit("output_version");
    reveal_strlit("config_patch");
    reveal_strlit("secrets_writes");
    reveal_strlit("warnings");
    reveal_strlit("ready");
    assert("output_version"@.len() == 14);
    assert("config_patch"@.len() == 12);
    assert("secrets_writes"@.len() == 14);
    assert("warnings"@.len() == 8);
    assert("ready"@.len() == 5);
    assert("output_version"@ != "secrets_writes"@) by {
        assert("output_version"@[0] == 'o');
        assert("secrets_writes"@[0] == 's');
    };
    let v = spec_output_json(o);
    reveal_with_fuel(crate::json::spec_fields_get, 7);
    assert(spec_json_get(v, "output_version"@) == Option::Some(JsonSpec::Str(o.output_version)));
    assert(spec_json_get(v, "ready"@) == Option::Some(JsonSpec::Bool(o.ready)));
    assert(spec_json_get(v, "config_patch"@) == Option::Some(o.config_patch));
    assert(spec_json_get(v, "secrets_writes"@) == Option::Some(
        JsonSpec::Arr(o.secrets_writes.map_values(|w: SecretWriteSpec| spec_write_json(w))),
    ));
    assert(spec_json_get(v, "warnings"@) == Option::Some(
        JsonSpec::Arr(o.warnings.map_values(|t: Seq<char>| JsonSpec::Str(t))),
    ));
    lemma_writes_round_trip(o.secrets_writes);
    lemma_texts_round_trip(o.warnings);
    assert(spec_output_of_json(v) =~~= Option::Some(o));
}

} // verus!
