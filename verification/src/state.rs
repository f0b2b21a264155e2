//! The bootstrap state record: the only durable cross-run record, with its
//! JSON persistence and the upgrade preflight that demands a strictly newer
//! version.

use vstd::prelude::*;
use crate::config::BootstrapStateBackend;
use crate::errors::BootstrapError;
use crate::json::{
    json_view, parse_json, spec_json_get, spec_json_text, json_to_string, JsonSpec, JsonValue,
};
use crate::strutil::{
    parse_u64_dec, spec_all_digits, spec_dec_val, spec_u64_dec, str_eq, u64_to_string,
};
use vstd::string::StringExecFns;

verus! {

/// The durable record of what is installed: created on first successful
/// install, mutated (not replaced) on upgrade so that `installed_at`
/// survives.
#[derive(Debug, Clone, Default)]
pub struct BootstrapState {
    pub version: Option<String>,
    pub digest: Option<String>,
    pub installed_at: Option<u64>,
    pub environment_kind: Option<String>,
    pub last_upgrade_at: Option<u64>,
    pub rollback_ref: Option<String>,
}

/// The mathematical image of a state record.
#[verifier::ext_equal]
pub struct BootstrapStateSpec {
    pub version: Option<Seq<char>>,
    pub digest: Option<Seq<char>>,
    pub installed_at: Option<u64>,
    pub environment_kind: Option<Seq<char>>,
    pub last_upgrade_at: Option<u64>,
    pub rollback_ref: Option<Seq<char>>,
}

pub open spec fn opt_text_view(o: Option<String>) -> Option<Seq<char>> {
    match o {
        Option::Some(s) => Option::Some(s@),
        Option::None => Option::None,
    }
}

pub open spec fn state_view(s: BootstrapState) -> BootstrapStateSpec {
    BootstrapStateSpec {
        version: opt_text_view(s.version),
        digest: opt_text_view(s.digest),
        installed_at: s.installed_at,
        environment_kind: opt_text_view(s.environment_kind),
        last_upgrade_at: s.last_upgrade_at,
        rollback_ref: opt_text_view(s.rollback_ref),
    }
}

fn opt_str_eq(a: &Option<String>, b: &Option<String>) -> (r: bool)
    ensures
        r == (opt_text_view(*a) == opt_text_view(*b)),
{
    match (a, b) {
        (Option::None, Option::None) => true,
        (Option::Some(x), Option::Some(y)) => str_eq(x.as_str(), y.as_str()),
        _ => false,
    }
}

fn opt_u64_eq(a: &Option<u64>, b: &Option<u64>) -> (r: bool)
    ensures
        r == (*a == *b),
{
    match (a, b) {
        (Option::None, Option::None) => true,
        (Option::Some(x), Option::Some(y)) => *x == *y,
        _ => false,
    }
}

impl PartialEq for BootstrapState {
    fn eq(&self, other: &Self) -> (r: bool) {
        opt_str_eq(&self.version, &other.version) && opt_str_eq(&self.digest, &other.digest)
            && opt_u64_eq(&self.installed_at, &other.installed_at) && opt_str_eq(
            &self.environment_kind,
            &other.environment_kind,
        ) && opt_u64_eq(&self.last_upgrade_at, &other.last_upgrade_at) && opt_str_eq(
            &self.rollback_ref,
            &other.rollback_ref,
        )
    }
}

impl vstd::std_specs::cmp::PartialEqSpecImpl for BootstrapState {
    open spec fn obeys_eq_spec() -> bool {
        true
    }

    open spec fn eq_spec(&self, other: &Self) -> bool {
        state_view(*self) == state_view(*other)
    }
}

/// Relies on `std::time::SystemTime::now` with `duration_since` of the Unix
/// epoch: seconds since the epoch, or zero when the clock reads before it.
/// Nothing is promised of the value.
#[verifier::external_body]
fn now_ts() -> u64 {
    std::time::SystemTime::now().duration_since(std::time::UNIX_EPOCH).map(
        |d| d.as_secs(),
    ).unwrap_or(0)
}

impl BootstrapState {
    /// The record of a fresh install, stamped with the present time.
    pub fn installed_now(version: Option<String>, digest: Option<String>) -> (r: Self)
        ensures
            state_view(r).version == opt_text_view(version),
            state_view(r).digest == opt_text_view(digest),
            state_view(r).installed_at is Some,
            state_view(r).environment_kind is None,
            state_view(r).last_upgrade_at is None,
            state_view(r).rollback_ref is None,
    {
        BootstrapState {
            version,
            digest,
            installed_at: Option::Some(now_ts()),
            environment_kind: Option::None,
            last_upgrade_at: Option::None,
            rollback_ref: Option::None,
        }
    }

    /// The record after an upgrade: the original `installed_at` and
    /// environment kind survive, the upgrade is stamped, and a rollback
    /// reference is recorded.
    pub fn upgraded_from(
        current: &BootstrapState,
        version: Option<String>,
        digest: Option<String>,
        rollback_ref: Option<String>,
    ) -> (r: Self)
        ensures
            state_view(r).version == opt_text_view(version),
            state_view(r).digest == opt_text_view(digest),
            current.installed_at is Some ==> state_view(r).installed_at == current.installed_at,
            state_view(r).installed_at is Some,
            state_view(r).environment_kind == state_view(*current).environment_kind,
            state_view(r).last_upgrade_at is Some,
            state_view(r).rollback_ref == opt_text_view(rollback_ref),
    {
        let installed_at: Option<u64> = match current.installed_at {
            Option::Some(ts) => Option::Some(ts),
            Option::None => Option::Some(now_ts()),
        };
        BootstrapState {
            version,
            digest,
            installed_at,
            environment_kind: current.environment_kind.clone(),
            last_upgrade_at: Option::Some(now_ts()),
            rollback_ref,
        }
    }
}

/// The JSON document a state record persists as: one field per record
/// field, in a fixed order, absent values as `null`.
pub open spec fn spec_state_json(s: BootstrapStateSpec) -> JsonSpec {
    JsonSpec::Obj(
        seq![
            ("version"@, spec_opt_text_json(s.version)),
            ("digest"@, spec_opt_text_json(s.digest)),
            ("installed_at"@, spec_opt_u64_json(s.installed_at)),
            ("environment_kind"@, spec_opt_text_json(s.environment_kind)),
            ("last_upgrade_at"@, spec_opt_u64_json(s.last_upgrade_at)),
            ("rollback_ref"@, spec_opt_text_json(s.rollback_ref)),
        ],
    )
}

pub open spec fn spec_opt_text_json(o: Option<Seq<char>>) -> JsonSpec {
    match o {
        Option::Some(s) => JsonSpec::Str(s),
        Option::None => JsonSpec::Null,
    }
}

pub open spec fn spec_opt_u64_json(o: Option<u64>) -> JsonSpec {
    match o {
        Option::Some(v) => JsonSpec::Num(spec_u64_dec(v as nat)),
        Option::None => JsonSpec::Null,
    }
}

fn opt_text_json(o: &Option<String>) -> (r: JsonValue)
    ensures
        json_view(r) == spec_opt_text_json(opt_text_view(*o)),
{
    match o {
        Option::Some(s) => JsonValue::Str(s.clone()),
        Option::None => JsonValue::Null,
    }
}

fn opt_u64_json(o: &Option<u64>) -> (r: JsonValue)
    ensures
        json_view(r) == spec_opt_u64_json(*o),
{
    match o {
        Option::Some(v) => JsonValue::Num(u64_to_string(*v)),
        Option::None => JsonValue::Null,
    }
}

/// Renders a state record as its JSON document.
pub fn state_to_json(s: &BootstrapState) -> (r: JsonValue)
    ensures
        json_view(r) == spec_state_json(state_view(*s)),
{
    broadcast use crate::json::lemma_json_view_fields;

    let mut fields: Vec<(String, JsonValue)> = Vec::new();
    fields.push((String::from_str("version"), opt_text_json(&s.version)));
    fields.push((String::from_str("digest"), opt_text_json(&s.digest)));
    fields.push((String::from_str("installed_at"), opt_u64_json(&s.installed_at)));
    fields.push((String::from_str("environment_kind"), opt_text_json(&s.environment_kind)));
    fields.push((String::from_str("last_upgrade_at"), opt_u64_json(&s.last_upgrade_at)));
    fields.push((String::from_str("rollback_ref"), opt_text_json(&s.rollback_ref)));
    let r = JsonValue::Obj(fields);
    proof {
        reveal_strlit("version");
        reveal_strlit("digest");
        reveal_strlit("installed_at");
        reveal_strlit("environment_kind");
        reveal_strlit("last_upgrade_at");
        reveal_strlit("rollback_ref");
        let gf = crate::json::json_view_fields(fields@);
        assert(fields@.len() == 6);
        assert(gf.len() == 6);
        assert(gf[0] == (fields@[0].0@, json_view(fields@[0].1)));
        assert(gf[1] == (fields@[1].0@, json_view(fields@[1].1)));
        assert(gf[2] == (fields@[2].0@, json_view(fields@[2].1)));
        assert(gf[3] == (fields@[3].0@, json_view(fields@[3].1)));
        assert(gf[4] == (fields@[4].0@, json_view(fields@[4].1)));
        assert(gf[5] == (fields@[5].0@, json_view(fields@[5].1)));
        assert(gf =~= spec_state_json(state_view(*s))->Obj_0);
        assert(json_view(r) =~~= spec_state_json(state_view(*s)));
    }
    r
}

/// What a JSON document decodes to as an optional text field: `None` for a
/// missing field or `null`, the text for a string, nothing for any other
/// kind.
pub open spec fn spec_opt_text_of_json(v: JsonSpec, key: Seq<char>) -> Option<Option<Seq<char>>> {
    match spec_json_get(v, key) {
        Option::None => Option::Some(Option::None),
        Option::Some(JsonSpec::Null) => Option::Some(Option::None),
        Option::Some(JsonSpec::Str(s)) => Option::Some(Option::Some(s)),
        Option::Some(_) => Option::None,
    }
}

/// What a JSON document decodes to as an optional timestamp field: `None`
/// for a missing field or `null`, the value for an unsigned decimal number
/// that fits, nothing otherwise.
pub open spec fn spec_opt_u64_of_json(v: JsonSpec, key: Seq<char>) -> Option<Option<u64>> {
    match spec_json_get(v, key) {
        Option::None => Option::Some(Option::None),
        Option::Some(JsonSpec::Null) => Option::Some(Option::None),
        Option::Some(JsonSpec::Num(text)) => if text.len() > 0 && spec_all_digits(text)
            && spec_dec_val(text) <= u64::MAX as nat {
            Option::Some(Option::Some(spec_dec_val(text) as u64))
        } else {
            Option::None
        },
        Option::Some(_) => Option::None,
    }
}

/// What a JSON document decodes to as a state record, field by field.
pub open spec fn spec_state_of_json(v: JsonSpec) -> Option<BootstrapStateSpec> {
    if !(v is Obj) {
        Option::None
    } else {
        match (
            spec_opt_text_of_json(v, "version"@),
            spec_opt_text_of_json(v, "digest"@),
            spec_opt_u64_of_json(v, "installed_at"@),
            spec_opt_text_of_json(v, "environment_kind"@),
            spec_opt_u64_of_json(v, "last_upgrade_at"@),
            spec_opt_text_of_json(v, "rollback_ref"@),
        ) {
            (
                Option::Some(version),
                Option::Some(digest),
                Option::Some(installed_at),
                Option::Some(environment_kind),
                Option::Some(last_upgrade_at),
                Option::Some(rollback_ref),
            ) => Option::Some(
                BootstrapStateSpec {
                    version,
                    digest,
                    installed_at,
                    environment_kind,
                    last_upgrade_at,
                    rollback_ref,
                },
            ),
            _ => Option::None,
        }
    }
}

fn get_opt_text_field(v: &JsonValue, key: &str) -> (r: Option<Option<String>>)
    ensures
        match r {
            Option::Some(o) => spec_opt_text_of_json(json_view(*v), key@) == Option::Some(
                opt_text_view(o),
            ),
            Option::None => spec_opt_text_of_json(json_view(*v), key@) == Option::<
                Option<Seq<char>>,
            >::None,
        },
{
    match v.get(key) {
        Option::None => Option::Some(Option::None),
        Option::Some(found) => match found {
            JsonValue::Null => Option::Some(Option::None),
            JsonValue::Str(text) => Option::Some(Option::Some(text.clone())),
            _ => Option::None,
        },
    }
}

fn get_opt_u64_field(v: &JsonValue, key: &str) -> (r: Option<Option<u64>>)
    ensures
        match r {
            Option::Some(o) => spec_opt_u64_of_json(json_view(*v), key@) == Option::Some(o),
            Option::None => spec_opt_u64_of_json(json_view(*v), key@) == Option::<
                Option<u64>,
            >::None,
        },
{
    match v.get(key) {
        Option::None => Option::Some(Option::None),
        Option::Some(found) => match found {
            JsonValue::Null => Option::Some(Option::None),
            JsonValue::Num(text) => match parse_u64_dec(text.as_str()) {
                Option::Some(value) => Option::Some(Option::Some(value)),
                Option::None => Option::None,
            },
            _ => Option::None,
        },
    }
}

/// Decodes a JSON document as a state record.
pub fn state_from_json(v: &JsonValue) -> (r: Option<BootstrapState>)
    ensures
        match r {
            Option::Some(s) => spec_state_of_json(json_view(*v)) == Option::Some(state_view(s)),
            Option::None => spec_state_of_json(json_view(*v)) == Option::<
                BootstrapStateSpec,
            >::None,
        },
{
    match v {
        JsonValue::Obj(_) => {},
        _ => {
            return Option::None;
        },
    }
    let version = match get_opt_text_field(v, "version") {
        Option::Some(o) => o,
        Option::None => {
            return Option::None;
        },
    };
    let digest = match get_opt_text_field(v, "digest") {
        Option::Some(o) => o,
        Option::None => {
            return Option::None;
        },
    };
    let installed_at = match get_opt_u64_field(v, "installed_at") {
        Option::Some(o) => o,
        Option::None => {
            return Option::None;
        },
    };
    let environment_kind = match get_opt_text_field(v, "environment_kind") {
        Option::Some(o) => o,
        Option::None => {
            return Option::None;
        },
    };
    let last_upgrade_at = match get_opt_u64_field(v, "last_upgrade_at") {
        Option::Some(o) => o,
        Option::None => {
            return Option::None;
        },
    };
    let rollback_ref = match get_opt_text_field(v, "rollback_ref") {
        Option::Some(o) => o,
        Option::None => {
            return Option::None;
        },
    };
    Option::Some(
        BootstrapState {
            version,
            digest,
            installed_at,
            environment_kind,
            last_upgrade_at,
            rollback_ref,
        },
    )
}

/// Writing a state record and reading it back yields the same record: the
/// decoder inverts the encoder on every record.
pub proof fn lemma_state_round_trip(s: BootstrapStateSpec)
    ensures
        spec_state_of_json(spec_state_json(s)) == Option::Some(s),
{
    reveal_strlit("version");
    reveal_strlit("digest");
    reveal_strlit("installed_at");
    reveal_strlit("environment_kind");
    reveal_strlit("last_upgrade_at");
    reveal_strlit("rollback_ref");
    let v = spec_state_json(s);
    let fields = v->Obj_0;
    reveal_with_fuel(crate::json::spec_fields_get, 8);
    assert("version"@.len() == 7);
    assert("digest"@.len() == 6);
    assert("installed_at"@.len() == 12);
    assert("environment_kind"@.len() == 16);
    assert("last_upgrade_at"@.len() == 15);
    assert("rollback_ref"@.len() == 12);
    assert("installed_at"@ != "rollback_ref"@) by {
        assert("installed_at"@[0] == 'i');
        assert("rollback_ref"@[0] == 'r');
    };
    assert(spec_json_get(v, "version"@) == Option::Some(spec_opt_text_json(s.version)));
    assert(spec_json_get(v, "digest"@) == Option::Some(spec_opt_text_json(s.digest)));
    assert(spec_json_get(v, "installed_at"@) == Option::Some(spec_opt_u64_json(s.installed_at)));
    assert(spec_json_get(v, "environment_kind"@) == Option::Some(
        spec_opt_text_json(s.environment_kind),
    ));
    assert(spec_json_get(v, "last_upgrade_at"@) == Option::Some(
        spec_opt_u64_json(s.last_upgrade_at),
    ));
    assert(spec_json_get(v, "rollback_ref"@) == Option::Some(spec_opt_text_json(s.rollback_ref)));
    if s.installed_at is Some {
        crate::strutil::lemma_dec_of_u64(s.installed_at->0 as nat);
    }
    if s.last_upgrade_at is Some {
        crate::strutil::lemma_dec_of_u64(s.last_upgrade_at->0 as nat);
    }
}

/// Renders a state record for persistence.
pub fn save_state(state: &BootstrapState) -> (r: String)
    ensures
        r@ == spec_json_text(spec_state_json(state_view(*state))),
{
    let doc = state_to_json(state);
    json_to_string(&doc)
}

/// Reads a state record back from persisted bytes: `None` when no file
/// existed, the record when the bytes decode, an error otherwise.
pub fn load_state(content: Option<&[u8]>) -> (r: Result<Option<BootstrapState>, BootstrapError>)
    ensures
        match r {
            Result::Ok(o) => match o {
                Option::None => content is None,
                Option::Some(s) => content matches Option::Some(bytes) && match crate::json::json_of(
                    bytes@,
                ) {
                    Option::Some(doc) => spec_state_of_json(doc) == Option::Some(state_view(s)),
                    Option::None => false,
                },
            },
            Result::Err(_) => content matches Option::Some(bytes) && match crate::json::json_of(
                bytes@,
            ) {
                Option::Some(doc) => spec_state_of_json(doc) is None,
                Option::None => true,
            },
        },
{
    let bytes = match content {
        Option::None => {
            return Result::Ok(Option::None);
        },
        Option::Some(bytes) => bytes,
    };
    let doc = match parse_json(bytes) {
        Option::Some(doc) => doc,
        Option::None => {
            return Result::Err(
                BootstrapError::Pack(String::from_str("bootstrap state is not valid JSON")),
            );
        },
    };
    match state_from_json(&doc) {
        Option::Some(s) => Result::Ok(Option::Some(s)),
        Option::None => Result::Err(
            BootstrapError::Pack(
                String::from_str("bootstrap state does not match the expected fields"),
            ),
        ),
    }
}

/// Loads the state record through the configured backend; only the file
/// backend is available in this build.
pub fn load_state_backend(
    backend: BootstrapStateBackend,
    file_content: Option<&[u8]>,
    namespace: &str,
    name: &str,
) -> (r: Result<Option<BootstrapState>, BootstrapError>)
    ensures
        backend is K8s ==> r is Err,
        backend is File ==> match r {
            Result::Ok(o) => match o {
                Option::None => file_content is None,
                Option::Some(s) => file_content matches Option::Some(bytes)
                    && match crate::json::json_of(bytes@) {
                    Option::Some(doc) => spec_state_of_json(doc) == Option::Some(state_view(s)),
                    Option::None => false,
                },
            },
            Result::Err(_) => file_content matches Option::Some(bytes)
                && match crate::json::json_of(bytes@) {
                Option::Some(doc) => spec_state_of_json(doc) is None,
                Option::None => true,
            },
        },
{
    match backend {
        BootstrapStateBackend::File => load_state(file_content),
        BootstrapStateBackend::K8s => Result::Err(
            BootstrapError::Config(
                String::from_str("k8s bootstrap state backend not available in this build"),
            ),
        ),
    }
}

/// Renders the state record for the configured backend; only the file
/// backend is available in this build.
pub fn save_state_backend(
    backend: BootstrapStateBackend,
    state: &BootstrapState,
    namespace: &str,
    name: &str,
) -> (r: Result<String, BootstrapError>)
    ensures
        backend is K8s ==> r is Err,
        backend is File ==> (r matches Result::Ok(content) && content@ == spec_json_text(
            spec_state_json(state_view(*state)),
        )),
{
    match backend {
        BootstrapStateBackend::File => Result::Ok(save_state(state)),
        BootstrapStateBackend::K8s => Result::Err(
            BootstrapError::Config(
                String::from_str("k8s bootstrap state backend not available in this build"),
            ),
        ),
    }
}


/// Whether `semver::Version::parse` accepts the text: a function of the
/// text alone.
pub uninterp spec fn is_semver(s: Seq<char>) -> bool;

/// How `semver`'s ordering ranks two valid versions: a function of the two
/// texts alone.
pub uninterp spec fn semver_lt(a: Seq<char>, b: Seq<char>) -> bool;

/// Relies on `semver::Version::parse`: whether a string is a semantic
/// version depends on the string alone.
#[verifier::external_body]
fn semver_valid(s: &str) -> (r: bool)
    ensures
        r == is_semver(s@),
{
    semver::Version::parse(s).is_ok()
}

/// Relies on `semver::Version`'s `Ord`, after `parse` of both texts:
/// whether one version precedes the other depends on the texts alone.
#[verifier::external_body]
fn semver_less(a: &str, b: &str) -> (r: bool)
    requires
        is_semver(a@),
        is_semver(b@),
    ensures
        r == semver_lt(a@, b@),
{
    match (semver::Version::parse(a), semver::Version::parse(b)) {
        (Ok(va), Ok(vb)) => va < vb,
        _ => false,
    }
}

/// Upgrade preflight: refuses to proceed without an installed state, without
/// a parsable installed version, with an unparsable target, or with a target
/// that is not strictly newer than what is installed.  On success the
/// current state is returned unchanged, for the caller to derive a rollback
/// reference from.
pub fn ensure_upgrade_allowed(state: Option<BootstrapState>, target_version: &str) -> (r: Result<
    BootstrapState,
    BootstrapError,
>)
    ensures
        state is None ==> (r matches Result::Err(e) && e is NotInstalled),
        state matches Option::Some(st) ==> {
            match state_view(st).version {
                Option::None => r matches Result::Err(e) && e is MissingVersion,
                Option::Some(current) => if !is_semver(current) {
                    r matches Result::Err(e) && e is MissingVersion
                } else if !is_semver(target_version@) {
                    r matches Result::Err(e) && e is InvalidTargetVersion
                } else if !semver_lt(current, target_version@) {
                    r matches Result::Err(e) && (e matches BootstrapError::NotNewer {
                        current: c,
                        target: t,
                    } && c@ == current && t@ == target_version@)
                } else {
                    r matches Result::Ok(out) && state_view(out) == state_view(st)
                },
            }
        },
{
    let st = match state {
        Option::Some(st) => st,
        Option::None => {
            return Result::Err(BootstrapError::NotInstalled);
        },
    };
    let current: String = match &st.version {
        Option::Some(v) => v.clone(),
        Option::None => {
            return Result::Err(
                BootstrapError::MissingVersion(
                    String::from_str("bootstrap state missing version; reinstall required"),
                ),
            );
        },
    };
    if !semver_valid(current.as_str()) {
        return Result::Err(
            BootstrapError::MissingVersion(
                crate::strutil::concat2("invalid version in state: ", current.as_str()),
            ),
        );
    }
    if !semver_valid(target_version) {
        return Result::Err(BootstrapError::InvalidTargetVersion(String::from_str(target_version)));
    }
    if !semver_less(current.as_str(), target_version) {
        return Result::Err(
            BootstrapError::NotNewer {
                current,
                target: String::from_str(target_version),
            },
        );
    }
    Result::Ok(st)
}

} // verus!
