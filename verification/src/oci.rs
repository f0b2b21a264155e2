//! Content-addressed pack fetching: OCI reference parsing, the persisted
//! cache index keyed by logical reference, pack-layer selection, and the
//! digest-checked acceptance of fetched bytes.
//!
//! The HTTP calls themselves happen outside this crate; what is verified
//! here is every decision around them: when the cache answers without a
//! fetch, which layer of a manifest is the pack, and that nothing enters
//! the cache unless its bytes hash to the advertised digest.

use vstd::prelude::*;
use crate::digest::{spec_digest_matches, verify_digest};
use crate::errors::BootstrapError;
use crate::json::{
    json_view, json_view_fields, lemma_json_view_fields, spec_json_get, JsonSpec, JsonValue,
};
use crate::strutil::{
    concat5, find_char, push_char, spec_find_char, spec_rfind_char, spec_starts_with, str_eq,
    rfind_char, starts_with_str, substr,
};
use vstd::string::StringExecFns;

verus! {

/// A reference to a pack in an OCI registry, parsed from
/// `oci://host/repo[:tag]`; the tag defaults to `latest`.  Immutable once
/// parsed.
#[derive(Debug, Clone)]
pub struct OciReference {
    pub raw: String,
    pub host: String,
    pub repository: String,
    pub tag: String,
}

/// The mathematical image of a parsed reference.
pub struct OciReferenceSpec {
    pub raw: Seq<char>,
    pub host: Seq<char>,
    pub repository: Seq<char>,
    pub tag: Seq<char>,
}

impl OciReference {
    pub open spec fn view_ref(&self) -> OciReferenceSpec {
        OciReferenceSpec {
            raw: self.raw@,
            host: self.host@,
            repository: self.repository@,
            tag: self.tag@,
        }
    }
}

/// What `oci://host/repo[:tag]` parses to: the host before the first `/`,
/// the repository and tag split at the last `:`, the tag defaulting to
/// `latest`; `None` when the scheme, host or repository is missing.
pub open spec fn spec_parse_oci_reference(s: Seq<char>) -> Option<OciReferenceSpec> {
    if !spec_starts_with(s, "oci://"@) {
        Option::None
    } else {
        let rest = s.subrange(6, s.len() as int);
        match spec_find_char(rest, '/') {
            Option::None => Option::None,
            Option::Some(i) => {
                let host = rest.subrange(0, i);
                let path = rest.subrange(i + 1, rest.len() as int);
                if host.len() == 0 || path.len() == 0 {
                    Option::None
                } else {
                    match spec_rfind_char(path, ':') {
                        Option::Some(j) => Option::Some(
                            OciReferenceSpec {
                                raw: s,
                                host,
                                repository: path.subrange(0, j),
                                tag: path.subrange(j + 1, path.len() as int),
                            },
                        ),
                        Option::None => Option::Some(
                            OciReferenceSpec { raw: s, host, repository: path, tag: "latest"@ },
                        ),
                    }
                }
            },
        }
    }
}

/// Parses an `oci://host/repo[:tag]` reference.
pub fn parse_oci_reference(raw: &str) -> (r: Result<OciReference, BootstrapError>)
    ensures
        match r {
            Result::Ok(parsed) => spec_parse_oci_reference(raw@) == Option::Some(
                parsed.view_ref(),
            ),
            Result::Err(e) => spec_parse_oci_reference(raw@) is None && e is Pack,
        },
{
    proof {
        reveal_strlit("oci://");
        reveal_strlit("latest");
    }
    if !starts_with_str(raw, "oci://") {
        return Result::Err(
            BootstrapError::Pack(String::from_str("oci reference must start with oci://")),
        );
    }
    let n: usize = raw.unicode_len();
    let rest = substr(raw, 6, n);
    let rn: usize = rest.as_str().unicode_len();
    let slash: usize = match find_char(rest.as_str(), '/') {
        Option::Some(i) => i,
        Option::None => {
            return Result::Err(
                BootstrapError::Pack(String::from_str("oci reference missing host/repo")),
            );
        },
    };
    let host = substr(rest.as_str(), 0, slash);
    let path = substr(rest.as_str(), slash + 1, rn);
    let pn: usize = path.as_str().unicode_len();
    if host.as_str().unicode_len() == 0 || pn == 0 {
        return Result::Err(
            BootstrapError::Pack(String::from_str("oci reference missing host or repository")),
        );
    }
    match rfind_char(path.as_str(), ':') {
        Option::Some(j) => {
            let repository = substr(path.as_str(), 0, j);
            let tag = substr(path.as_str(), j + 1, pn);
            Result::Ok(OciReference { raw: String::from_str(raw), host, repository, tag })
        },
        Option::None => Result::Ok(
            OciReference {
                raw: String::from_str(raw),
                host,
                repository: path,
                tag: String::from_str("latest"),
            },
        ),
    }
}

/// The logical cache key of a reference: `host/repo:tag`.
pub open spec fn spec_cache_key(r: OciReferenceSpec) -> Seq<char> {
    r.host + "/"@ + r.repository + ":"@ + r.tag
}

pub fn cache_key(reference: &OciReference) -> (r: String)
    ensures
        r@ == spec_cache_key(reference.view_ref()),
{
    concat5(
        reference.host.as_str(),
        "/",
        reference.repository.as_str(),
        ":",
        reference.tag.as_str(),
    )
}

/// The file name a blob is cached under: the digest with `:` replaced by
/// `-`, with the pack extension.
pub open spec fn spec_blob_file_name(digest: Seq<char>) -> Seq<char> {
    digest.map_values(
        |c: char|
            if c == ':' {
                '-'
            } else {
                c
            },
    ) + ".gtpack"@
}

pub fn blob_file_name(digest: &str) -> (r: String)
    ensures
        r@ == spec_blob_file_name(digest@),
{
    let n: usize = digest.unicode_len();
    let mut out = String::new();
    let mut i: usize = 0;
    let ghost mapped = digest@.map_values(
        |c: char|
            if c == ':' {
                '-'
            } else {
                c
            },
    );
    while i < n
        invariant
            i <= n,
            n == digest@.len(),
            mapped == digest@.map_values(
                |c: char|
                    if c == ':' {
                        '-'
                    } else {
                        c
                    },
            ),
            mapped.len() == n,
            out@ =~= mapped.subrange(0, i as int),
        decreases n - i,
    {
        let c = digest.get_char(i);
        let mc: char = if c == ':' {
            '-'
        } else {
            c
        };
        assert(mc == mapped[i as int]);
        push_char(&mut out, mc);
        assert(out@ =~= mapped.subrange(0, i + 1));
        i = i + 1;
    }
    assert(out@ =~= mapped);
    proof {
        reveal_strlit(".gtpack");
    }
    out.append(".gtpack");
    out
}

/// The persisted index of the content-addressed cache: logical reference
/// key to content digest, keys unique, persisted as a single JSON file.
#[derive(Debug, Clone)]
pub struct CacheIndex {
    entries: Vec<(String, String)>,
}

/// The first digest bound to `key`, if any.
pub open spec fn spec_index_get(entries: Seq<(Seq<char>, Seq<char>)>, key: Seq<char>) -> Option<
    Seq<char>,
>
    decreases entries,
{
    if entries.len() == 0 {
        Option::None
    } else if entries[0].0 == key {
        Option::Some(entries[0].1)
    } else {
        spec_index_get(entries.drop_first(), key)
    }
}

/// The entries after binding `key` to `digest`: updated in place when the
/// key is present, appended otherwise.
pub open spec fn spec_index_insert(
    entries: Seq<(Seq<char>, Seq<char>)>,
    key: Seq<char>,
    digest: Seq<char>,
) -> Seq<(Seq<char>, Seq<char>)>
    decreases entries,
{
    if entries.len() == 0 {
        seq![(key, digest)]
    } else if entries[0].0 == key {
        seq![(key, digest)] + entries.drop_first()
    } else {
        seq![entries[0]] + spec_index_insert(entries.drop_first(), key, digest)
    }
}

impl CacheIndex {
    /// The mathematical image of this index.
    pub closed spec fn view_index(&self) -> Seq<(Seq<char>, Seq<char>)> {
        self.entries@.map_values(|e: (String, String)| (e.0@, e.1@))
    }

    /// An empty index.
    pub fn new() -> (r: Self)
        ensures
            r.view_index() == Seq::<(Seq<char>, Seq<char>)>::empty(),
    {
        let r = CacheIndex { entries: Vec::new() };
        assert(r.view_index() =~= Seq::<(Seq<char>, Seq<char>)>::empty());
        r
    }

    /// The digest this index binds `key` to, if any.
    pub fn get(&self, key: &str) -> (r: Option<&String>)
        ensures
            match r {
                Option::Some(d) => spec_index_get(self.view_index(), key@) == Option::Some(d@),
                Option::None => spec_index_get(self.view_index(), key@) == Option::<Seq<char>>::None,
            },
    {
        let n = self.entries.len();
        let mut i: usize = 0;
        assert(self.view_index().subrange(0, n as int) =~= self.view_index());
        while i < n
            invariant
                i <= n,
                n == self.entries@.len(),
                n == self.view_index().len(),
                spec_index_get(self.view_index(), key@) == spec_index_get(
                    self.view_index().subrange(i as int, n as int),
                    key@,
                ),
            decreases n - i,
        {
            let ghost rest = self.view_index().subrange(i as int, n as int);
            assert(rest[0] == self.view_index()[i as int]);
            assert(rest.drop_first() =~= self.view_index().subrange(i + 1, n as int));
            assert(self.view_index()[i as int] == (self.entries@[i as int].0@, self.entries@[i as int].1@));
            if str_eq(self.entries[i].0.as_str(), key) {
                return Option::Some(&self.entries[i].1);
            }
            i = i + 1;
        }
        assert(self.view_index().subrange(n as int, n as int) =~= Seq::<(
            Seq<char>,
            Seq<char>,
        )>::empty());
        Option::None
    }

    /// Binds `key` to `digest`, replacing any earlier binding.
    pub fn insert(&mut self, key: &str, digest: &str)
        ensures
            final(self).view_index() == spec_index_insert(
                old(self).view_index(),
                key@,
                digest@,
            ),
    {
        let n = self.entries.len();
        let mut i: usize = 0;
        while i < n
            invariant
                i <= n,
                n == self.entries@.len(),
                n == self.view_index().len(),
                self.entries@ == old(self).entries@,
                forall|j: int| 0 <= j < i ==> self.view_index()[j].0 != key@,
            decreases n - i,
        {
            assert(self.view_index()[i as int] == (self.entries@[i as int].0@, self.entries@[i as int].1@));
            if str_eq(self.entries[i].0.as_str(), key) {
                self.entries.set(i, (String::from_str(key), String::from_str(digest)));
                proof {
                    lemma_index_insert_at(old(self).view_index(), key@, digest@, i as int);
                    assert(self.view_index() =~= old(self).view_index().update(
                        i as int,
                        (key@, digest@),
                    ));
                }
                return ;
            }
            i = i + 1;
        }
        self.entries.push((String::from_str(key), String::from_str(digest)));
        proof {
            lemma_index_insert_absent(old(self).view_index(), key@, digest@);
            assert(self.view_index() =~= old(self).view_index().push((key@, digest@)));
        }
    }
}

/// Inserting over the first binding of `key` updates it in place.
proof fn lemma_index_insert_at(
    entries: Seq<(Seq<char>, Seq<char>)>,
    key: Seq<char>,
    digest: Seq<char>,
    at: int,
)
    requires
        0 <= at < entries.len(),
        entries[at].0 == key,
        forall|j: int| 0 <= j < at ==> entries[j].0 != key,
    ensures
        spec_index_insert(entries, key, digest) == entries.update(at, (key, digest)),
    decreases at,
{
    if at == 0 {
        assert(spec_index_insert(entries, key, digest) =~= entries.update(0, (key, digest)));
    } else {
        lemma_index_insert_at(entries.drop_first(), key, digest, at - 1);
        assert(spec_index_insert(entries, key, digest) =~= seq![entries[0]]
            + entries.drop_first().update(at - 1, (key, digest)));
        assert(seq![entries[0]] + entries.drop_first().update(at - 1, (key, digest))
            =~= entries.update(at, (key, digest)));
    }
}

/// Inserting an absent key appends it.
proof fn lemma_index_insert_absent(
    entries: Seq<(Seq<char>, Seq<char>)>,
    key: Seq<char>,
    digest: Seq<char>,
)
    requires
        forall|j: int| 0 <= j < entries.len() ==> entries[j].0 != key,
    ensures
        spec_index_insert(entries, key, digest) == entries.push((key, digest)),
    decreases entries.len(),
{
    if entries.len() == 0 {
        assert(spec_index_insert(entries, key, digest) =~= entries.push((key, digest)));
    } else {
        lemma_index_insert_absent(entries.drop_first(), key, digest);
        assert(spec_index_insert(entries, key, digest) =~= seq![entries[0]]
            + entries.drop_first().push((key, digest)));
        assert(seq![entries[0]] + entries.drop_first().push((key, digest)) =~= entries.push(
            (key, digest),
        ));
    }
}

/// After binding a key, looking it up yields exactly that binding: a second
/// resolution of the same reference is answered from the cache.
pub proof fn lemma_cache_hit_after_insert(
    entries: Seq<(Seq<char>, Seq<char>)>,
    key: Seq<char>,
    digest: Seq<char>,
)
    ensures
        spec_index_get(spec_index_insert(entries, key, digest), key) == Option::Some(digest),
    decreases entries.len(),
{
    if entries.len() == 0 {
    } else if entries[0].0 == key {
        assert(spec_index_insert(entries, key, digest)[0] == (key, digest));
    } else {
        lemma_cache_hit_after_insert(entries.drop_first(), key, digest);
        assert(spec_index_insert(entries, key, digest)[0] == entries[0]);
        assert(spec_index_insert(entries, key, digest).drop_first() =~= spec_index_insert(
            entries.drop_first(),
            key,
            digest,
        ));
    }
}

/// One content layer of an OCI manifest.
#[derive(Debug, Clone)]
pub struct OciLayer {
    pub media_type: String,
    pub digest: String,
    pub size: Option<u64>,
}

/// The decoded body of an OCI manifest: its content layers.
#[derive(Debug, Clone)]
pub struct OciManifest {
    pub layers: Vec<OciLayer>,
}

/// Whether a media type names a pack archive.
pub open spec fn spec_is_pack_media_type(mt: Seq<char>) -> bool {
    mt == "application/vnd.greentic.pack.v1+gtpack"@ || mt == "application/octet-stream"@
}

/// The index of the layer to fetch: the first with a pack media type,
/// falling back to the first layer; `None` when there are no layers.
pub open spec fn spec_select_pack_layer(media_types: Seq<Seq<char>>) -> Option<int> {
    if exists|i: int| 0 <= i < media_types.len() && spec_is_pack_media_type(media_types[i]) {
        let found = choose|i: int|
            0 <= i < media_types.len() && spec_is_pack_media_type(media_types[i]) && forall|j: int|
                0 <= j < i ==> !spec_is_pack_media_type(media_types[j]);
        Option::Some(found)
    } else if media_types.len() > 0 {
        Option::Some(0)
    } else {
        Option::None
    }
}

/// The media types of a manifest's layers, in order.
pub open spec fn spec_layer_media_types(m: OciManifest) -> Seq<Seq<char>> {
    m.layers@.map_values(|l: OciLayer| l.media_type@)
}

impl OciManifest {
    /// Selects the layer whose bytes are the pack: the first with a known
    /// pack media type, else the first layer of all.
    pub fn select_pack_layer(&self) -> (r: Option<usize>)
        ensures
            match r {
                Option::Some(i) => i < self.layers@.len() && spec_select_pack_layer(
                    spec_layer_media_types(*self),
                ) == Option::Some(i as int),
                Option::None => self.layers@.len() == 0 && spec_select_pack_layer(
                    spec_layer_media_types(*self),
                ) is None,
            },
    {
        proof {
            reveal_strlit("application/vnd.greentic.pack.v1+gtpack");
            reveal_strlit("application/octet-stream");
        }
        let ghost mts = spec_layer_media_types(*self);
        let n = self.layers.len();
        let mut i: usize = 0;
        while i < n
            invariant
                i <= n,
                n == self.layers@.len(),
                mts == spec_layer_media_types(*self),
                mts.len() == n,
                forall|j: int| 0 <= j < i ==> !spec_is_pack_media_type(mts[j]),
            decreases n - i,
        {
            assert(mts[i as int] == self.layers@[i as int].media_type@);
            let mt = self.layers[i].media_type.as_str();
            if str_eq(mt, "application/vnd.greentic.pack.v1+gtpack") || str_eq(
                mt,
                "application/octet-stream",
            ) {
                proof {
                    let found = choose|k: int|
                        0 <= k < mts.len() && spec_is_pack_media_type(mts[k]) && forall|j: int|
                            0 <= j < k ==> !spec_is_pack_media_type(mts[j]);
                    assert(0 <= i < mts.len() && spec_is_pack_media_type(mts[i as int]) && forall|
                        j: int,
                    | 0 <= j < i ==> !spec_is_pack_media_type(mts[j]));
                    if found != i {
                        if found < i {
                            assert(!spec_is_pack_media_type(mts[found]));
                        } else {
                            assert(!spec_is_pack_media_type(mts[i as int]));
                        }
                    }
                }
                return Option::Some(i);
            }
            i = i + 1;
        }
        if n > 0 {
            assert(spec_select_pack_layer(mts) == Option::Some(0int));
            return Option::Some(0);
        }
        Option::None
    }
}

/// Checks a fetched manifest against the content digest the transport
/// advertised, when it advertised one: a mismatch aborts before any blob is
/// trusted.
pub fn check_manifest_digest(header: &Option<String>, manifest_bytes: &[u8]) -> (r: Result<
    (),
    BootstrapError,
>)
    ensures
        r is Ok <==> match *header {
            Option::Some(expected) => spec_digest_matches(expected@, manifest_bytes@),
            Option::None => true,
        },
        r is Err ==> r->Err_0 is DigestMismatch,
{
    match header {
        Option::Some(expected) => verify_digest(expected.as_str(), manifest_bytes, "manifest"),
        Option::None => Result::Ok(()),
    }
}

/// Accepts a fetched blob into the cache: verifies the bytes against the
/// selected layer's digest, and only on success binds the logical key to
/// the digest and names the cache file.  On any mismatch the index is
/// untouched and nothing is cached.
pub fn accept_blob(index: &mut CacheIndex, key: &str, layer_digest: &str, blob: &[u8]) -> (r:
    Result<String, BootstrapError>)
    ensures
        r is Ok <==> spec_digest_matches(layer_digest@, blob@),
        match r {
            Result::Ok(file_name) => file_name@ == spec_blob_file_name(layer_digest@)
                && final(index).view_index() == spec_index_insert(
                old(index).view_index(),
                key@,
                layer_digest@,
            ),
            Result::Err(e) => final(index).view_index() == old(index).view_index()
                && e is DigestMismatch,
        },
{
    match verify_digest(layer_digest, blob, "pack blob") {
        Result::Ok(()) => {
            index.insert(key, layer_digest);
            Result::Ok(blob_file_name(layer_digest))
        },
        Result::Err(e) => Result::Err(e),
    }
}

/// The registry URL base for a host: plaintext for local loopback hosts,
/// TLS for all others.  Loopback means the host itself — `localhost` (with
/// an optional port), a `127.` address, or the bracketed IPv6 loopback —
/// never a name that merely contains such a text.
pub open spec fn spec_is_loopback_host(host: Seq<char>) -> bool {
    host == "localhost"@ || spec_starts_with(host, "localhost:"@) || spec_starts_with(
        host,
        "127."@,
    ) || spec_starts_with(host, "[::1]"@)
}

pub open spec fn spec_registry_base(host: Seq<char>) -> Seq<char> {
    if spec_is_loopback_host(host) {
        "http://"@ + host
    } else {
        "https://"@ + host
    }
}

/// The scheme-qualified base URL of a reference's registry.
pub fn registry_base(reference: &OciReference) -> (r: String)
    ensures
        r@ == spec_registry_base(reference.view_ref().host),
{
    proof {
        reveal_strlit("localhost");
        reveal_strlit("localhost:");
        reveal_strlit("127.");
        reveal_strlit("[::1]");
        reveal_strlit("http://");
        reveal_strlit("https://");
    }
    let host = reference.host.as_str();
    let loopback = str_eq(host, "localhost") || starts_with_str(host, "localhost:")
        || starts_with_str(host, "127.") || starts_with_str(host, "[::1]");
    if loopback {
        crate::strutil::concat2("http://", host)
    } else {
        crate::strutil::concat2("https://", host)
    }
}


/// The JSON document the cache index persists as: an `entries` object with
/// one string field per binding, in order.
pub open spec fn spec_index_json(entries: Seq<(Seq<char>, Seq<char>)>) -> JsonSpec {
    JsonSpec::Obj(
        seq![
            ("entries"@, JsonSpec::Obj(
                entries.map_values(|e: (Seq<char>, Seq<char>)| (e.0, JsonSpec::Str(e.1))),
            )),
        ],
    )
}

/// What a JSON document decodes to as index entries, binding by binding in
/// field order; nothing when any value is not a string.
pub open spec fn spec_decode_index_fields(
    acc: Seq<(Seq<char>, Seq<char>)>,
    fields: Seq<(Seq<char>, JsonSpec)>,
) -> Option<Seq<(Seq<char>, Seq<char>)>>
    decreases fields,
{
    if fields.len() == 0 {
        Option::Some(acc)
    } else {
        match fields[0].1 {
            JsonSpec::Str(d) => spec_decode_index_fields(
                spec_index_insert(acc, fields[0].0, d),
                fields.drop_first(),
            ),
            _ => Option::None,
        }
    }
}

/// What a JSON document decodes to as a cache index: its `entries` object,
/// which must be present and hold only strings.
pub open spec fn spec_decode_index(v: JsonSpec) -> Option<Seq<(Seq<char>, Seq<char>)>> {
    match spec_json_get(v, "entries"@) {
        Option::Some(JsonSpec::Obj(fields)) => spec_decode_index_fields(
            Seq::<(Seq<char>, Seq<char>)>::empty(),
            fields,
        ),
        _ => Option::None,
    }
}

impl CacheIndex {
    /// Renders this index as its JSON document.
    pub fn to_json(&self) -> (r: JsonValue)
        ensures
            json_view(r) == spec_index_json(self.view_index()),
    {
        broadcast use lemma_json_view_fields;

        let mut inner: Vec<(String, JsonValue)> = Vec::new();
        let n = self.entries.len();
        let mut i: usize = 0;
        let ghost target = self.view_index().map_values(
            |e: (Seq<char>, Seq<char>)| (e.0, JsonSpec::Str(e.1)),
        );
        while i < n
            invariant
                i <= n,
                n == self.entries@.len(),
                target == self.view_index().map_values(
                    |e: (Seq<char>, Seq<char>)| (e.0, JsonSpec::Str(e.1)),
                ),
                target.len() == n,
                json_view_fields(inner@) =~= target.subrange(0, i as int),
            decreases n - i,
        {
            broadcast use lemma_json_view_fields;

            let ghost before = inner@;
            let key = self.entries[i].0.clone();
            let value = JsonValue::Str(self.entries[i].1.clone());
            inner.push((key, value));
            proof {
                crate::json::lemma_view_fields_push(before, key, value);
                assert(target[i as int] == (self.view_index()[i as int].0, JsonSpec::Str(
                    self.view_index()[i as int].1,
                )));
                assert(self.view_index()[i as int] == (self.entries@[i as int].0@, self.entries@[i as int].1@));
                assert(json_view_fields(inner@) =~= target.subrange(0, i + 1));
            }
            i = i + 1;
        }
        assert(target.subrange(0, n as int) =~= target);
        let mut outer: Vec<(String, JsonValue)> = Vec::new();
        outer.push((String::from_str("entries"), JsonValue::Obj(inner)));
        let r = JsonValue::Obj(outer);
        proof {
            reveal_strlit("entries");
            assert(json_view_fields(outer@).len() == 1);
            assert(json_view_fields(outer@)[0] == (outer@[0].0@, json_view(outer@[0].1)));
            assert(json_view(r) =~~= spec_index_json(self.view_index()));
        }
        r
    }

    /// Decodes a JSON document as a cache index.
    #[verifier::loop_isolation(false)]
    pub fn from_json(v: &JsonValue) -> (r: Option<CacheIndex>)
        ensures
            match r {
                Option::Some(ix) => spec_decode_index(json_view(*v)) == Option::Some(
                    ix.view_index(),
                ),
                Option::None => spec_decode_index(json_view(*v)) is None,
            },
    {
        broadcast use lemma_json_view_fields;

        let entries_doc = match v.get("entries") {
            Option::Some(found) => found,
            Option::None => {
                return Option::None;
            },
        };
        let fields = match entries_doc {
            JsonValue::Obj(fields) => fields,
            _ => {
                return Option::None;
            },
        };
        let ghost gfields = json_view_fields(fields@);
        let mut ix = CacheIndex::new();
        let n = fields.len();
        let mut i: usize = 0;
        assert(gfields.subrange(0, n as int) =~= gfields);
        while i < n
            invariant
                i <= n,
                n == fields@.len(),
                gfields == json_view_fields(fields@),
                gfields.len() == n,
                spec_decode_index_fields(
                    Seq::<(Seq<char>, Seq<char>)>::empty(),
                    gfields,
                ) == spec_decode_index_fields(
                    ix.view_index(),
                    gfields.subrange(i as int, n as int),
                ),
            decreases n - i,
        {
            broadcast use lemma_json_view_fields;

            let ghost rest = gfields.subrange(i as int, n as int);
            assert(rest[0] == gfields[i as int]);
            assert(rest.drop_first() =~= gfields.subrange(i + 1, n as int));
            assert(gfields[i as int] == (fields@[i as int].0@, json_view(fields@[i as int].1)));
            let digest = match &fields[i].1 {
                JsonValue::Str(text) => text,
                _ => {
                    proof {
                        assert(!(json_view(fields@[i as int].1) is Str));
                        assert(spec_decode_index_fields(ix.view_index(), rest) is None);
                    }
                    return Option::None;
                },
            };
            assert(json_view(fields@[i as int].1) == JsonSpec::Str(digest@));
            ix.insert(fields[i].0.as_str(), digest.as_str());
            i = i + 1;
        }
        assert(gfields.subrange(n as int, n as int) =~= Seq::<(Seq<char>, JsonSpec)>::empty());
        Option::Some(ix)
    }
}

/// Reads a persisted index: an absent file is an empty index, unreadable
/// bytes are an error.
pub fn load_index(content: Option<&[u8]>) -> (r: Result<CacheIndex, BootstrapError>)
    ensures
        match r {
            Result::Ok(ix) => match content {
                Option::None => ix.view_index() == Seq::<(Seq<char>, Seq<char>)>::empty(),
                Option::Some(bytes) => match crate::json::json_of(bytes@) {
                    Option::Some(doc) => spec_decode_index(doc) == Option::Some(ix.view_index()),
                    Option::None => false,
                },
            },
            Result::Err(_) => content matches Option::Some(bytes) && match crate::json::json_of(
                bytes@,
            ) {
                Option::Some(doc) => spec_decode_index(doc) is None,
                Option::None => true,
            },
        },
{
    let bytes = match content {
        Option::None => {
            return Result::Ok(CacheIndex::new());
        },
        Option::Some(bytes) => bytes,
    };
    let doc = match crate::json::parse_json(bytes) {
        Option::Some(doc) => doc,
        Option::None => {
            return Result::Err(
                BootstrapError::Pack(String::from_str("cache index parse error")),
            );
        },
    };
    match CacheIndex::from_json(&doc) {
        Option::Some(ix) => Result::Ok(ix),
        Option::None => Result::Err(
            BootstrapError::Pack(String::from_str("cache index parse error")),
        ),
    }
}

/// Renders an index for persistence.
pub fn save_index(index: &CacheIndex) -> (r: String)
    ensures
        r@ == crate::json::spec_json_text(spec_index_json(index.view_index())),
{
    let doc = index.to_json();
    crate::json::json_to_string(&doc)
}

/// The cache file that answers a reference without any fetch: the file
/// named by the digest the index binds the logical key to.
pub fn cached_blob_file(index: &CacheIndex, key: &str) -> (r: Option<String>)
    ensures
        match r {
            Option::Some(file_name) => match spec_index_get(index.view_index(), key@) {
                Option::Some(d) => file_name@ == spec_blob_file_name(d),
                Option::None => false,
            },
            Option::None => spec_index_get(index.view_index(), key@) is None,
        },
{
    match index.get(key) {
        Option::Some(digest) => Option::Some(blob_file_name(digest.as_str())),
        Option::None => Option::None,
    }
}


/// Decoding the rendered index re-inserts each binding in order: with
/// pairwise distinct keys, everything lands where it was.
proof fn lemma_decode_index_fields(
    acc: Seq<(Seq<char>, Seq<char>)>,
    entries: Seq<(Seq<char>, Seq<char>)>,
)
    requires
        forall|i: int, j: int|
            0 <= i < j < entries.len() ==> (#[trigger] entries[i]).0 != (#[trigger] entries[j]).0,
        forall|i: int, j: int|
            0 <= i < acc.len() && 0 <= j < entries.len() ==> (#[trigger] acc[i]).0 != (
            #[trigger] entries[j]).0,
    ensures
        spec_decode_index_fields(
            acc,
            entries.map_values(|e: (Seq<char>, Seq<char>)| (e.0, JsonSpec::Str(e.1))),
        ) == Option::Some(acc + entries),
    decreases entries.len(),
{
    let mapped = entries.map_values(|e: (Seq<char>, Seq<char>)| (e.0, JsonSpec::Str(e.1)));
    if entries.len() == 0 {
        assert(mapped.len() == 0);
        assert(acc + entries =~= acc);
    } else {
        assert(mapped[0] == (entries[0].0, JsonSpec::Str(entries[0].1)));
        assert forall|i: int| 0 <= i < acc.len() implies (#[trigger] acc[i]).0 != entries[0].0 by {
            assert(acc[i].0 != entries[0].0);
        };
        lemma_index_insert_absent(acc, entries[0].0, entries[0].1);
        let acc1 = acc.push(entries[0]);
        assert(spec_index_insert(acc, entries[0].0, entries[0].1) == acc1);
        assert(mapped.drop_first() =~= entries.drop_first().map_values(
            |e: (Seq<char>, Seq<char>)| (e.0, JsonSpec::Str(e.1)),
        ));
        assert forall|i: int, j: int|
            0 <= i < acc1.len() && 0 <= j < entries.drop_first().len() implies (
        #[trigger] acc1[i]).0 != (#[trigger] entries.drop_first()[j]).0 by {
            assert(entries.drop_first()[j] == entries[j + 1]);
            if i < acc.len() {
                assert(acc1[i] == acc[i]);
            } else {
                assert(acc1[i] == entries[0]);
            }
        };
        lemma_decode_index_fields(acc1, entries.drop_first());
        assert(acc1 + entries.drop_first() =~= acc + entries);
    }
}

/// Persisting the index and reading it back yields the same bindings: the
/// decoder inverts the renderer on every index with distinct keys, which
/// insertion maintains.
pub proof fn lemma_index_round_trip(entries: Seq<(Seq<char>, Seq<char>)>)
    requires
        forall|i: int, j: int|
            0 <= i < j < entries.len() ==> (#[trigger] entries[i]).0 != (#[trigger] entries[j]).0,
    ensures
        spec_decode_index(spec_index_json(entries)) == Option::Some(entries),
{
    reveal_strlit("entries");
    let v = spec_index_json(entries);
    reveal_with_fuel(crate::json::spec_fields_get, 3);
    assert(spec_json_get(v, "entries"@) == Option::Some(
        JsonSpec::Obj(entries.map_values(|e: (Seq<char>, Seq<char>)| (e.0, JsonSpec::Str(e.1)))),
    ));
    lemma_decode_index_fields(Seq::<(Seq<char>, Seq<char>)>::empty(), entries);
    assert(Seq::<(Seq<char>, Seq<char>)>::empty() + entries =~= entries);
}

} // verus!
