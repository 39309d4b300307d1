//! Pulling an image: from the name that was asked for to the record of the
//! image, one request to the host at a time.

pub mod machine;

use crate::image::store::{ImageMetadata, ImageMetadataView};
use crate::image::{is_digest, is_lower_hex};
use crate::registry::manifest::Descriptor;
use crate::text::{
    concat2, concat3, contains_char, from_chars, has_prefix, option_view, owned, string_views,
    strip_prefix, to_chars,
};
use vstd::prelude::*;

verus! {

// ---------------------------------------------------------------------------
// What the outside crates compute
// ---------------------------------------------------------------------------

/// The Unix timestamp of the point in time that `time::OffsetDateTime::parse`
/// reads from a text in the format of RFC 3339; `None` where it reads none.
pub uninterp spec fn rfc3339_timestamp(text: Seq<char>) -> Option<i64>;

/// Parses `text` with `time::OffsetDateTime::parse` in the format
/// `Rfc3339` and takes the `unix_timestamp` of the result.
#[verifier::external_body]
pub(crate) fn parse_rfc3339(text: &str) -> (r: Option<i64>)
    ensures
        r == rfc3339_timestamp(text@),
{
    match time::OffsetDateTime::parse(text, &time::format_description::well_known::Rfc3339) {
        Ok(t) => Some(t.unix_timestamp()),
        Err(_) => None,
    }
}

/// The `unix_timestamp` of `time::OffsetDateTime::now_utc`: it depends on
/// the clock, so nothing is said of it.
#[verifier::external_body]
pub(crate) fn unix_now() -> (r: i64) {
    time::OffsetDateTime::now_utc().unix_timestamp()
}

/// A JSON value, as `serde_json` holds it.
#[verifier::external_type_specification]
#[verifier::external_body]
pub struct ExJsonValue(serde_json::Value);

/// The JSON value that `serde_json::from_slice` reads from a document;
/// `None` where it reads none.
pub uninterp spec fn json_of(document: Seq<u8>) -> Option<serde_json::Value>;

/// The members of a JSON value that are strings, by their keys: what
/// `serde_json::Value::get` finds under a key and `as_str` takes as a
/// string. A value that is no object has none.
pub uninterp spec fn string_members(value: serde_json::Value) -> Map<Seq<char>, Seq<char>>;

/// Reads `document` with `serde_json::from_slice`.
#[verifier::external_body]
pub(crate) fn parse_json(document: &[u8]) -> (r: Option<serde_json::Value>)
    ensures
        r == json_of(document@),
{
    match serde_json::from_slice::<serde_json::Value>(document) {
        Ok(value) => Some(value),
        Err(_) => None,
    }
}

/// Takes the member under `key` with `serde_json::Value::get`, and its
/// text with `as_str`: the string under `key`, where `value` is an object
/// that has such a member and the member is a string.
#[verifier::external_body]
pub(crate) fn string_member(value: &serde_json::Value, key: &str) -> (r: Option<String>)
    ensures
        option_view(r) == if string_members(*value).dom().contains(key@) {
            Some(string_members(*value)[key@])
        } else {
            None
        },
{
    match value.get(key) {
        Some(member) => match member.as_str() {
            Some(text) => Some(text.to_owned()),
            None => None,
        },
        None => None,
    }
}

/// Whether a document is a JSON value.
pub open spec fn is_json(document: Seq<u8>) -> bool {
    json_of(document) is Some
}

/// The string that a JSON document holds under `key`; `None` where the
/// document is no JSON object, has no such member, or the member is no
/// string.
pub open spec fn json_string_member(document: Seq<u8>, key: Seq<char>) -> Option<Seq<char>> {
    match json_of(document) {
        Some(value) => if string_members(value).dom().contains(key) {
            Some(string_members(value)[key])
        } else {
            None
        },
        None => None,
    }
}

/// The string that a JSON document holds under `key`.
pub fn document_member(document: &[u8], key: &str) -> (r: Option<String>)
    ensures
        option_view(r) == json_string_member(document@, key@),
{
    match parse_json(document) {
        Some(value) => string_member(&value, key),
        None => None,
    }
}

/// Whether a document is a JSON value.
pub fn parses_as_json(document: &[u8]) -> (r: bool)
    ensures
        r == is_json(document@),
{
    parse_json(document).is_some()
}

/// The SHA-256 hash of a blob, written as hexadecimal digits: what
/// `sha2::Sha256::digest` returns, formatted with `{:x}`.
pub uninterp spec fn sha256_hex(content: Seq<u8>) -> Seq<char>;

/// Hashes `content` with `sha2::Sha256::digest` and writes the hash with
/// `{:x}`: the 32 bytes of the hash as 64 hexadecimal digits in lower case.
#[verifier::external_body]
fn hash_hex(content: &[u8]) -> (out: String)
    ensures
        out@ == sha256_hex(content@),
        out@.len() == 64,
        forall|i: int| 0 <= i < 64 ==> is_lower_hex(#[trigger] out@[i]),
{
    format!("{:x}", <sha2::Sha256 as sha2::Digest>::digest(content))
}

/// The digest of a blob: `sha256:` and the hash of its content.
pub open spec fn digest_of(content: Seq<u8>) -> Seq<char> {
    "sha256:"@ + sha256_hex(content)
}

/// The digest of a blob. It has the form of a digest.
pub fn blob_digest(content: &[u8]) -> (out: String)
    ensures
        out@ == digest_of(content@),
        is_digest(out@),
{
    let hex = hash_hex(content);
    let out = concat2("sha256:", hex.as_str());
    proof {
        let p = "sha256:"@;
        assert(out@.take(p.len() as int) =~= p);
        assert forall|i: int| p.len() <= i < out@.len() implies is_lower_hex(#[trigger] out@[i]) by {
            assert(out@[i] == hex@[i - p.len()]);
        }
    }
    out
}

// ---------------------------------------------------------------------------
// The record of a pulled image
// ---------------------------------------------------------------------------

/// The name `<repo>:<tag>`.
pub open spec fn repo_tag_of(repo: Seq<char>, tag: Seq<char>) -> Seq<char> {
    repo + ":"@ + tag
}

/// The record of an image pulled as `repo:tag`.
pub open spec fn metadata_of(
    image_id: Seq<char>,
    repo: Seq<char>,
    tag: Seq<char>,
    created: i64,
    parent: Option<Seq<char>>,
    total_size: i64,
    layers: Seq<Seq<char>>,
) -> ImageMetadataView {
    ImageMetadataView {
        id: image_id,
        repo_tags: seq![repo_tag_of(repo, tag)],
        parent_id: parent,
        created,
        size: total_size,
        layers,
    }
}

/// The record of an image pulled as `repo:tag`, made at `created`.
pub fn image_metadata(
    image_id: &str,
    repo: &str,
    tag: &str,
    created: i64,
    parent: Option<String>,
    total_size: i64,
    layers: Vec<String>,
) -> (out: ImageMetadata)
    ensures
        out@ == metadata_of(
            image_id@,
            repo@,
            tag@,
            created,
            option_view(parent),
            total_size,
            string_views(layers@),
        ),
{
    let mut repo_tags: Vec<String> = Vec::new();
    repo_tags.push(concat3(repo, ":", tag));
    proof {
        assert(string_views(repo_tags@) =~= seq![repo_tag_of(repo@, tag@)]);
    }
    ImageMetadata {
        id: owned(image_id),
        repo_tags,
        parent_id: parent,
        created,
        size: total_size,
        layers,
    }
}

/// The text under `created` in a config document, or the empty text.
pub open spec fn created_text(config_json: Seq<u8>) -> Seq<char> {
    match json_string_member(config_json, "created"@) {
        Some(text) => text,
        None => Seq::empty(),
    }
}

/// When the image of a config document was made: what the document says
/// under `created`, or `now` where it says nothing that can be read.
pub fn parse_created(config_json: &[u8], now: i64) -> (out: i64)
    ensures
        out == match rfc3339_timestamp(created_text(config_json@)) {
            Some(t) => t,
            None => now,
        },
{
    let created_str = match document_member(config_json, "created") {
        Some(text) => text,
        None => String::new(),
    };
    match parse_rfc3339(created_str.as_str()) {
        Some(t) => t,
        None => now,
    }
}

/// The record of an image pulled as `repo:tag`, from its config document:
/// the parent is the string under `parent`; the time of creation is read
/// from the string under `created`, and where none can be read it is the
/// present time.
pub fn create_image_metadata(
    image_id: &str,
    repo: &str,
    tag: &str,
    config_json: &[u8],
    total_size: i64,
    layers: Vec<String>,
) -> (out: ImageMetadata)
    ensures
        out@ == metadata_of(
            image_id@,
            repo@,
            tag@,
            out.created,
            json_string_member(config_json@, "parent"@),
            total_size,
            string_views(layers@),
        ),
        rfc3339_timestamp(created_text(config_json@)) matches Some(t) ==> out.created == t,
{
    let created_str = match document_member(config_json, "created") {
        Some(text) => text,
        None => String::new(),
    };
    let created = match parse_rfc3339(created_str.as_str()) {
        Some(t) => t,
        None => unix_now(),
    };
    let parent = document_member(config_json, "parent");
    image_metadata(image_id, repo, tag, created, parent, total_size, layers)
}

// ---------------------------------------------------------------------------
// What is asked for
// ---------------------------------------------------------------------------

/// The parameters of a pull.
#[derive(Debug, Clone)]
pub struct CreateImageParams {
    pub from_image: String,
    pub tag: Option<String>,
}

/// The repository of an image name: a name without a slash is a name in
/// `library/`.
pub open spec fn repository_of(from_image: Seq<char>) -> Seq<char> {
    if from_image.contains('/') {
        from_image
    } else {
        "library/"@ + from_image
    }
}

/// The tag that is pulled: the one asked for, or `latest`.
pub open spec fn tag_of(tag: Option<Seq<char>>) -> Seq<char> {
    match tag {
        Some(t) => t,
        None => "latest"@,
    }
}

/// The image id of a config digest: the digest without `sha256:` at its
/// start, or the digest as it is where it does not start so.
pub open spec fn image_id_of(config_digest: Seq<char>) -> Seq<char> {
    if has_prefix(config_digest, "sha256:"@) {
        config_digest.skip("sha256:"@.len() as int)
    } else {
        config_digest
    }
}

/// The sum of the sizes of the first `upto` layers.
pub open spec fn size_upto(layers: Seq<Descriptor>, upto: int) -> int
    decreases upto,
{
    if upto <= 0 {
        0
    } else {
        size_upto(layers, upto - 1) + layers[upto - 1].size
    }
}

/// The digests of `layers`, in order.
pub open spec fn digests_of(layers: Seq<Descriptor>) -> Seq<Seq<char>> {
    Seq::new(layers.len(), |i: int| layers[i].digest@)
}

impl CreateImageParams {
    /// The repository that is pulled from.
    pub fn repository(&self) -> (out: String)
        ensures
            out@ == repository_of(self.from_image@),
    {
        let v = to_chars(self.from_image.as_str());
        if contains_char(&v, '/') {
            self.from_image.clone()
        } else {
            concat2("library/", self.from_image.as_str())
        }
    }

    /// The tag that is pulled.
    pub fn tag_or_latest(&self) -> (out: String)
        ensures
            out@ == tag_of(option_view(self.tag)),
    {
        match &self.tag {
            Some(t) => t.clone(),
            None => owned("latest"),
        }
    }
}

/// The image id of a config digest.
pub fn image_id(config_digest: &str) -> (out: String)
    ensures
        out@ == image_id_of(config_digest@),
{
    let v = to_chars(config_digest);
    let prefix = to_chars("sha256:");
    match strip_prefix(&v, &prefix) {
        Some(rest) => from_chars(&rest),
        None => owned(config_digest),
    }
}

/// The sum of the sizes of `layers`, where it and the sum of every run of
/// first layers is an `i64`.
pub open spec fn total_of(layers: Seq<Descriptor>) -> Option<i64> {
    if forall|k: int| 0 <= k <= layers.len() ==> i64::MIN <= #[trigger] size_upto(layers, k)
        <= i64::MAX {
        Some(size_upto(layers, layers.len() as int) as i64)
    } else {
        None
    }
}

/// The sum of the sizes of `layers`, where it can be computed as an `i64`.
pub fn total_size(layers: &Vec<Descriptor>) -> (r: Option<i64>)
    ensures
        r == total_of(layers@),
{
    let mut total: i64 = 0;
    let mut i: usize = 0;
    while i < layers.len()
        invariant
            i <= layers.len(),
            total == size_upto(layers@, i as int),
            forall|k: int| 0 <= k <= i ==> i64::MIN <= #[trigger] size_upto(layers@, k) <= i64::MAX,
        decreases layers.len() - i,
    {
        match total.checked_add(layers[i].size) {
            Some(sum) => {
                total = sum;
            },
            None => {
                proof {
                    assert(!(i64::MIN <= size_upto(layers@, i + 1) <= i64::MAX));
                }
                return None;
            },
        }
        i += 1;
    }
    Some(total)
}

/// A copy of the digests of `layers`, in order.
pub fn layer_digests(layers: &Vec<Descriptor>) -> (out: Vec<String>)
    ensures
        string_views(out@) == digests_of(layers@),
{
    let mut out: Vec<String> = Vec::new();
    let mut i: usize = 0;
    while i < layers.len()
        invariant
            i <= layers.len(),
            out.len() == i,
            forall|j: int| 0 <= j < i ==> out[j]@ == layers[j].digest@,
        decreases layers.len() - i,
    {
        out.push(layers[i].digest.clone());
        i += 1;
    }
    proof {
        assert(string_views(out@) =~= digests_of(layers@));
    }
    out
}

} // verus!
