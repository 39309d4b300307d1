//! The pull of an image, as a sequence of requests to the host.
//!
//! The host asks [`Pull::action`] what to do, does it, and hands the reply
//! to [`Pull::advance`]; this goes on until the action is
//! [`PullAction::Finish`].

use crate::image::store::{ImageMetadata, ImageMetadataView};
use crate::pull::{
    blob_digest, digest_of,
    created_text, digests_of, image_id, image_id_of, image_metadata, is_json, json_string_member,
    layer_digests, metadata_of, parse_created, parses_as_json, rfc3339_timestamp, document_member,
    total_of, total_size, unix_now, CreateImageParams,
};
use crate::registry::manifest::{has_manifest_for, is_first_for, ManifestList, ManifestV2};
use crate::text::{
    clone_strings, concat2, concat3, option_view, owned, str_eq, string_views,
};
use vstd::prelude::*;
use vstd::string::StringExecFns;

verus! {

/// Where a pull stands: what the host was last asked.
#[derive(Debug, Clone, Copy, PartialEq, Eq, Structural)]
pub enum PullStage {
    /// The manifest of the tag is fetched.
    FetchManifest,
    /// The manifest for this platform, named by a manifest list, is fetched.
    FetchPlatformManifest,
    /// The config blob is fetched.
    FetchConfig,
    /// The config document is stored.
    SaveConfig,
    /// The blob of a layer is fetched.
    FetchLayer(usize),
    /// The blob of a layer is stored.
    SaveLayer(usize),
    /// The record of the image is stored.
    SaveMetadata,
    /// Nothing is left to do.
    Finished,
}

/// How a pull ended: the status and text of the answer, and the machine
/// code of the error where it failed.
#[derive(Debug, Clone)]
pub struct PullOutcome {
    pub status: u16,
    pub code: Option<String>,
    pub message: String,
}

/// What a [`PullOutcome`] holds, as mathematical values.
pub struct OutcomeView {
    pub status: u16,
    pub code: Option<Seq<char>>,
    pub message: Seq<char>,
}

impl View for PullOutcome {
    type V = OutcomeView;

    open spec fn view(&self) -> OutcomeView {
        OutcomeView { status: self.status, code: option_view(self.code), message: self.message@ }
    }
}

/// A pull in progress.
#[derive(Debug)]
pub struct Pull {
    stage: PullStage,
    repo: String,
    tag: String,
    reference: String,
    config_digest: String,
    layers: Vec<String>,
    total: i64,
    config: Vec<u8>,
    stored: Vec<String>,
    metadata: Option<ImageMetadata>,
    outcome: Option<PullOutcome>,
}

/// What a [`Pull`] holds, as mathematical values.
pub struct PullView {
    pub stage: PullStage,
    /// The repository that is pulled from.
    pub repo: Seq<char>,
    /// The tag that is pulled.
    pub tag: Seq<char>,
    /// The digest of the manifest for this platform.
    pub reference: Seq<char>,
    /// The digest of the config blob.
    pub config_digest: Seq<char>,
    /// The digests of the layers, base layer first.
    pub layers: Seq<Seq<char>>,
    /// The sum of the sizes of the layers.
    pub total: i64,
    /// The config document.
    pub config: Seq<u8>,
    /// The digests of the layers that the content store has stored.
    pub stored: Seq<Seq<char>>,
    /// The record of the image, once it is made.
    pub metadata: Option<ImageMetadataView>,
    /// How the pull ended, once it has.
    pub outcome: Option<OutcomeView>,
}

impl View for Pull {
    type V = PullView;

    closed spec fn view(&self) -> PullView {
        PullView {
            stage: self.stage,
            repo: self.repo@,
            tag: self.tag@,
            reference: self.reference@,
            config_digest: self.config_digest@,
            layers: string_views(self.layers@),
            total: self.total,
            config: self.config@,
            stored: string_views(self.stored@),
            metadata: match self.metadata {
                Some(m) => Some(m@),
                None => None,
            },
            outcome: match self.outcome {
                Some(o) => Some(o@),
                None => None,
            },
        }
    }
}

/// What the host reports after it has done what it was asked.
#[derive(Debug, Clone)]
pub enum PullReply {
    /// What was fetched is a manifest list.
    List(ManifestList),
    /// What was fetched is the manifest of one platform.
    Manifest(ManifestV2),
    /// What was fetched cannot be read as a manifest; the text is the reason.
    Unreadable(String),
    /// The config blob: its content, and the digest computed from it.
    Config { digest: String, content: Vec<u8> },
    /// The blob of a layer was fetched; the digest computed from it.
    Layer { digest: String },
    /// The request was carried out.
    Done,
    /// The request failed: the machine code and the text of the error.
    Failed { code: String, message: String },
}

/// What a [`PullReply`] holds, as mathematical values.
pub enum PullReplyView {
    List(ManifestList),
    Manifest(ManifestV2),
    Unreadable(Seq<char>),
    Config { digest: Seq<char>, content: Seq<u8> },
    Layer { digest: Seq<char> },
    Done,
    Failed { code: Seq<char>, message: Seq<char> },
}

impl View for PullReply {
    type V = PullReplyView;

    open spec fn view(&self) -> PullReplyView {
        match *self {
            PullReply::List(l) => PullReplyView::List(l),
            PullReply::Manifest(m) => PullReplyView::Manifest(m),
            PullReply::Unreadable(e) => PullReplyView::Unreadable(e@),
            PullReply::Config { digest, content } => PullReplyView::Config {
                digest: digest@,
                content: content@,
            },
            PullReply::Layer { digest } => PullReplyView::Layer { digest: digest@ },
            PullReply::Done => PullReplyView::Done,
            PullReply::Failed { code, message } => PullReplyView::Failed {
                code: code@,
                message: message@,
            },
        }
    }
}

/// What the host is asked to do next.
#[derive(Debug)]
pub enum PullAction {
    /// Fetch this manifest, read it as a manifest list or else as a
    /// manifest, and reply with [`PullReply::List`], [`PullReply::Manifest`],
    /// [`PullReply::Unreadable`] or [`PullReply::Failed`].
    FetchManifest { repo: String, reference: String },
    /// Fetch this blob and reply with [`PullReply::Config`] or
    /// [`PullReply::Failed`].
    FetchConfig { repo: String, digest: String },
    /// Store this config document under this image id and reply with
    /// [`PullReply::Done`] or [`PullReply::Failed`].
    SaveConfig { image_id: String, content: Vec<u8> },
    /// Fetch this blob and reply with [`PullReply::Layer`] or
    /// [`PullReply::Failed`].
    FetchLayer { repo: String, digest: String },
    /// Store the blob that was just fetched under this digest and reply
    /// with [`PullReply::Done`] or [`PullReply::Failed`].
    SaveLayer { digest: String },
    /// Store this record and reply with [`PullReply::Done`] or
    /// [`PullReply::Failed`].
    SaveMetadata(ImageMetadata),
    /// The pull is over.
    Finish(PullOutcome),
}

/// What a [`PullAction`] holds, as mathematical values.
pub enum PullActionView {
    FetchManifest { repo: Seq<char>, reference: Seq<char> },
    FetchConfig { repo: Seq<char>, digest: Seq<char> },
    SaveConfig { image_id: Seq<char>, content: Seq<u8> },
    FetchLayer { repo: Seq<char>, digest: Seq<char> },
    SaveLayer { digest: Seq<char> },
    SaveMetadata(ImageMetadataView),
    Finish(OutcomeView),
}

impl View for PullAction {
    type V = PullActionView;

    open spec fn view(&self) -> PullActionView {
        match *self {
            PullAction::FetchManifest { repo, reference } => PullActionView::FetchManifest {
                repo: repo@,
                reference: reference@,
            },
            PullAction::FetchConfig { repo, digest } => PullActionView::FetchConfig {
                repo: repo@,
                digest: digest@,
            },
            PullAction::SaveConfig { image_id, content } => PullActionView::SaveConfig {
                image_id: image_id@,
                content: content@,
            },
            PullAction::FetchLayer { repo, digest } => PullActionView::FetchLayer {
                repo: repo@,
                digest: digest@,
            },
            PullAction::SaveLayer { digest } => PullActionView::SaveLayer { digest: digest@ },
            PullAction::SaveMetadata(m) => PullActionView::SaveMetadata(m@),
            PullAction::Finish(o) => PullActionView::Finish(o@),
        }
    }
}

// ---------------------------------------------------------------------------
// The rules
// ---------------------------------------------------------------------------

/// The state in which the pull of `repo:tag` begins.
pub open spec fn initial_pull(repo: Seq<char>, tag: Seq<char>) -> PullView {
    PullView {
        stage: PullStage::FetchManifest,
        repo,
        tag,
        reference: Seq::empty(),
        config_digest: Seq::empty(),
        layers: Seq::empty(),
        total: 0,
        config: Seq::empty(),
        stored: Seq::empty(),
        metadata: None,
        outcome: None,
    }
}

/// The state of a pull that has ended with this answer.
pub open spec fn finished(
    st: PullView,
    status: u16,
    code: Option<Seq<char>>,
    message: Seq<char>,
) -> PullView {
    PullView {
        stage: PullStage::Finished,
        outcome: Some(OutcomeView { status, code, message }),
        ..st
    }
}

/// The state after the manifest `m` of this platform has arrived.
pub open spec fn accepted(st: PullView, m: ManifestV2) -> PullView {
    match total_of(m.layers@) {
        Some(total) => PullView {
            stage: PullStage::FetchConfig,
            config_digest: m.config.digest@,
            layers: digests_of(m.layers@),
            total,
            ..st
        },
        None => finished(
            st,
            500,
            Some("REG_MANIFEST_INVALID"@),
            "Failed to parse manifest: layer sizes out of range"@,
        ),
    }
}

/// When the image was made: what its config document says, or `now` where
/// it says nothing that can be read.
pub open spec fn created_at(config: Seq<u8>, now: i64) -> i64 {
    match rfc3339_timestamp(created_text(config)) {
        Some(t) => t,
        None => now,
    }
}

/// The record of the image that `st` has pulled.
pub open spec fn record_of(st: PullView, now: i64) -> ImageMetadataView {
    metadata_of(
        image_id_of(st.config_digest),
        st.repo,
        st.tag,
        created_at(st.config, now),
        json_string_member(st.config, "parent"@),
        st.total,
        st.layers,
    )
}

/// The state that turns to the layer `i`, or to the record of the image
/// where there is no layer `i`.
pub open spec fn at_layer(st: PullView, i: int, now: i64) -> PullView {
    if 0 <= i < st.layers.len() {
        PullView { stage: PullStage::FetchLayer(i as usize), ..st }
    } else {
        PullView { stage: PullStage::SaveMetadata, metadata: Some(record_of(st, now)), ..st }
    }
}

/// The state after the host has replied to what it was asked in `st`. A
/// reply that does not answer the request leaves the state as it is. `now`
/// is the time of the reply.
///
/// A manifest list leads to its first manifest for `linux/amd64`; a list
/// without one ends the pull with the status 400. A blob whose computed
/// digest is not the digest it was asked for under ends the pull. Each
/// layer is fetched and stored before the next; the record of the image is
/// made when all are stored.
pub open spec fn pull_next(st: PullView, reply: PullReplyView, now: i64) -> PullView {
    match st.stage {
        PullStage::FetchManifest => match reply {
            PullReplyView::Failed { code, message } => finished(
                st,
                400,
                Some(code),
                "Failed to get manifest: "@ + message,
            ),
            PullReplyView::List(list) => if has_manifest_for(list.manifests@, "linux"@, "amd64"@) {
                let i = choose|i: int| is_first_for(list.manifests@, "linux"@, "amd64"@, i);
                PullView {
                    stage: PullStage::FetchPlatformManifest,
                    reference: list.manifests@[i].digest@,
                    ..st
                }
            } else {
                finished(
                    st,
                    400,
                    Some("REG_NO_MATCHING_PLATFORM"@),
                    "No linux/amd64 manifest found in list"@,
                )
            },
            PullReplyView::Manifest(m) => accepted(st, m),
            PullReplyView::Unreadable(e) => finished(
                st,
                500,
                Some("REG_MANIFEST_INVALID"@),
                "Failed to parse manifest: "@ + e,
            ),
            _ => st,
        },
        PullStage::FetchPlatformManifest => match reply {
            PullReplyView::Failed { code, message } => finished(
                st,
                500,
                Some(code),
                "Failed to fetch target manifest: "@ + message,
            ),
            PullReplyView::Manifest(m) => accepted(st, m),
            PullReplyView::Unreadable(e) => finished(
                st,
                500,
                Some("REG_MANIFEST_INVALID"@),
                "Failed to parse target manifest: "@ + e,
            ),
            _ => st,
        },
        PullStage::FetchConfig => match reply {
            PullReplyView::Failed { code, message } => finished(
                st,
                500,
                Some(code),
                "Failed to get config: "@ + message,
            ),
            PullReplyView::Config { digest, content } => if digest != st.config_digest {
                finished(
                    st,
                    500,
                    Some("REG_DIGEST_MISMATCH"@),
                    "Failed to get config: Invalid digest: "@ + digest,
                )
            } else if !is_json(content) {
                finished(
                    st,
                    500,
                    Some("DB_SERIALIZATION_ERROR"@),
                    "Failed to parse config JSON"@,
                )
            } else {
                PullView { stage: PullStage::SaveConfig, config: content, ..st }
            },
            _ => st,
        },
        PullStage::SaveConfig => match reply {
            PullReplyView::Done => at_layer(st, 0, now),
            PullReplyView::Failed { code, message } => finished(
                st,
                500,
                Some(code),
                "Failed to save config: "@ + message,
            ),
            _ => st,
        },
        PullStage::FetchLayer(i) => if i >= st.layers.len() {
            st
        } else {
            match reply {
                PullReplyView::Failed { code, message } => finished(
                    st,
                    500,
                    Some(code),
                    "Failed to get layer "@ + st.layers[i as int] + ": "@ + message,
                ),
                PullReplyView::Layer { digest } => if digest != st.layers[i as int] {
                    finished(
                        st,
                        500,
                        Some("REG_DIGEST_MISMATCH"@),
                        "Failed to get layer "@ + st.layers[i as int] + ": Invalid digest: "@
                            + digest,
                    )
                } else {
                    PullView { stage: PullStage::SaveLayer(i), ..st }
                },
                _ => st,
            }
        },
        PullStage::SaveLayer(i) => if i >= st.layers.len() {
            st
        } else {
            match reply {
                PullReplyView::Done => at_layer(
                    PullView { stored: st.stored.push(st.layers[i as int]), ..st },
                    i + 1,
                    now,
                ),
                PullReplyView::Failed { code, message } => finished(
                    st,
                    500,
                    Some(code),
                    "Failed to save layer "@ + st.layers[i as int] + ": "@ + message,
                ),
                _ => st,
            }
        },
        PullStage::SaveMetadata => match reply {
            PullReplyView::Done => finished(st, 200, None, "Pull complete"@),
            PullReplyView::Failed { code, message } => finished(
                st,
                500,
                Some(code),
                "Failed to save metadata: "@ + message,
            ),
            _ => st,
        },
        PullStage::Finished => st,
    }
}

/// What the arrival of a blob reports at the stage `stage`: the config
/// document with its digest where the config was asked for, else the digest
/// of a layer.
pub open spec fn blob_reply(stage: PullStage, content: Seq<u8>) -> PullReplyView {
    match stage {
        PullStage::FetchConfig => PullReplyView::Config { digest: digest_of(content), content },
        _ => PullReplyView::Layer { digest: digest_of(content) },
    }
}

/// The answer of a pull that is out of step with itself.
pub open spec fn out_of_step() -> PullActionView {
    PullActionView::Finish(
        OutcomeView { status: 500, code: None, message: "Pull is out of step"@ },
    )
}

/// What the host is asked to do in the state `st`.
pub open spec fn pull_action_of(st: PullView) -> PullActionView {
    match st.stage {
        PullStage::FetchManifest => PullActionView::FetchManifest {
            repo: st.repo,
            reference: st.tag,
        },
        PullStage::FetchPlatformManifest => PullActionView::FetchManifest {
            repo: st.repo,
            reference: st.reference,
        },
        PullStage::FetchConfig => PullActionView::FetchConfig {
            repo: st.repo,
            digest: st.config_digest,
        },
        PullStage::SaveConfig => PullActionView::SaveConfig {
            image_id: image_id_of(st.config_digest),
            content: st.config,
        },
        PullStage::FetchLayer(i) => if i < st.layers.len() {
            PullActionView::FetchLayer { repo: st.repo, digest: st.layers[i as int] }
        } else {
            out_of_step()
        },
        PullStage::SaveLayer(i) => if i < st.layers.len() {
            PullActionView::SaveLayer { digest: st.layers[i as int] }
        } else {
            out_of_step()
        },
        PullStage::SaveMetadata => match st.metadata {
            Some(m) => PullActionView::SaveMetadata(m),
            None => out_of_step(),
        },
        PullStage::Finished => match st.outcome {
            Some(o) => PullActionView::Finish(o),
            None => out_of_step(),
        },
    }
}

// ---------------------------------------------------------------------------
// The machine
// ---------------------------------------------------------------------------

fn copy_metadata(m: &ImageMetadata) -> (out: ImageMetadata)
    ensures
        out@ == m@,
{
    ImageMetadata {
        id: m.id.clone(),
        repo_tags: clone_strings(&m.repo_tags),
        parent_id: match &m.parent_id {
            Some(p) => Some(p.clone()),
            None => None,
        },
        created: m.created,
        size: m.size,
        layers: clone_strings(&m.layers),
    }
}

fn copy_outcome(o: &PullOutcome) -> (out: PullOutcome)
    ensures
        out@ == o@,
{
    PullOutcome {
        status: o.status,
        code: match &o.code {
            Some(c) => Some(c.clone()),
            None => None,
        },
        message: o.message.clone(),
    }
}

fn copy_bytes(v: &Vec<u8>) -> (out: Vec<u8>)
    ensures
        out@ == v@,
{
    let mut out: Vec<u8> = Vec::new();
    let mut i: usize = 0;
    while i < v.len()
        invariant
            i <= v.len(),
            out@ == v@.take(i as int),
        decreases v.len() - i,
    {
        out.push(v[i]);
        i += 1;
    }
    proof {
        assert(v@.take(v.len() as int) =~= v@);
    }
    out
}

fn out_of_step_action() -> (out: PullAction)
    ensures
        out@ == out_of_step(),
{
    PullAction::Finish(
        PullOutcome { status: 500, code: None, message: owned("Pull is out of step") },
    )
}

impl Pull {
    /// The pull of the image that `params` ask for, at its beginning.
    pub fn begin(params: &CreateImageParams) -> (out: Pull)
        ensures
            out@ == initial_pull(
                crate::pull::repository_of(params.from_image@),
                crate::pull::tag_of(option_view(params.tag)),
            ),
    {
        let out = Pull {
            stage: PullStage::FetchManifest,
            repo: params.repository(),
            tag: params.tag_or_latest(),
            reference: String::new(),
            config_digest: String::new(),
            layers: Vec::new(),
            total: 0,
            config: Vec::new(),
            stored: Vec::new(),
            metadata: None,
            outcome: None,
        };
        proof {
            assert(string_views(out.layers@) =~= Seq::<Seq<char>>::empty());
            assert(string_views(out.stored@) =~= Seq::<Seq<char>>::empty());
        }
        out
    }

    /// Where the pull stands.
    pub fn stage(&self) -> (out: PullStage)
        ensures
            out == self@.stage,
    {
        self.stage
    }

    /// What the host is to do next.
    pub fn action(&self) -> (out: PullAction)
        ensures
            out@ == pull_action_of(self@),
    {
        match self.stage {
            PullStage::FetchManifest => PullAction::FetchManifest {
                repo: self.repo.clone(),
                reference: self.tag.clone(),
            },
            PullStage::FetchPlatformManifest => PullAction::FetchManifest {
                repo: self.repo.clone(),
                reference: self.reference.clone(),
            },
            PullStage::FetchConfig => PullAction::FetchConfig {
                repo: self.repo.clone(),
                digest: self.config_digest.clone(),
            },
            PullStage::SaveConfig => PullAction::SaveConfig {
                image_id: image_id(self.config_digest.as_str()),
                content: copy_bytes(&self.config),
            },
            PullStage::FetchLayer(i) => {
                if i < self.layers.len() {
                    PullAction::FetchLayer {
                        repo: self.repo.clone(),
                        digest: self.layers[i].clone(),
                    }
                } else {
                    out_of_step_action()
                }
            },
            PullStage::SaveLayer(i) => {
                if i < self.layers.len() {
                    PullAction::SaveLayer { digest: self.layers[i].clone() }
                } else {
                    out_of_step_action()
                }
            },
            PullStage::SaveMetadata => match &self.metadata {
                Some(m) => PullAction::SaveMetadata(copy_metadata(m)),
                None => out_of_step_action(),
            },
            PullStage::Finished => match &self.outcome {
                Some(o) => PullAction::Finish(copy_outcome(o)),
                None => out_of_step_action(),
            },
        }
    }

    fn finish(self, status: u16, code: Option<String>, message: String) -> (out: Pull)
        ensures
            out@ == finished(self@, status, option_view(code), message@),
    {
        Pull {
            stage: PullStage::Finished,
            repo: self.repo,
            tag: self.tag,
            reference: self.reference,
            config_digest: self.config_digest,
            layers: self.layers,
            total: self.total,
            config: self.config,
            stored: self.stored,
            metadata: self.metadata,
            outcome: Some(PullOutcome { status, code, message }),
        }
    }

    fn at(self, stage: PullStage) -> (out: Pull)
        ensures
            out@ == (PullView { stage, ..self@ }),
    {
        Pull {
            stage,
            repo: self.repo,
            tag: self.tag,
            reference: self.reference,
            config_digest: self.config_digest,
            layers: self.layers,
            total: self.total,
            config: self.config,
            stored: self.stored,
            metadata: self.metadata,
            outcome: self.outcome,
        }
    }

    fn accept(self, m: ManifestV2) -> (out: Pull)
        ensures
            out@ == accepted(self@, m),
    {
        match total_size(&m.layers) {
            Some(total) => {
                let layers = layer_digests(&m.layers);
                Pull {
                    stage: PullStage::FetchConfig,
                    repo: self.repo,
                    tag: self.tag,
                    reference: self.reference,
                    config_digest: m.config.digest,
                    layers,
                    total,
                    config: self.config,
                    stored: self.stored,
                    metadata: self.metadata,
                    outcome: self.outcome,
                }
            },
            None => self.finish(
                500,
                Some(owned("REG_MANIFEST_INVALID")),
                owned("Failed to parse manifest: layer sizes out of range"),
            ),
        }
    }

    fn turn_to_layer(self, i: usize, now: i64) -> (out: Pull)
        ensures
            out@ == at_layer(self@, i as int, now),
    {
        if i < self.layers.len() {
            self.at(PullStage::FetchLayer(i))
        } else {
            let created = parse_created(self.config.as_slice(), now);
            let parent = document_member(self.config.as_slice(), "parent");
            let id = image_id(self.config_digest.as_str());
            let record = image_metadata(
                id.as_str(),
                self.repo.as_str(),
                self.tag.as_str(),
                created,
                parent,
                self.total,
                clone_strings(&self.layers),
            );
            Pull {
                stage: PullStage::SaveMetadata,
                repo: self.repo,
                tag: self.tag,
                reference: self.reference,
                config_digest: self.config_digest,
                layers: self.layers,
                total: self.total,
                config: self.config,
                stored: self.stored,
                metadata: Some(record),
                outcome: self.outcome,
            }
        }
    }

    /// The pull after the host has replied, at the time `now`, to what it
    /// was last asked.
    pub fn advance_at(self, reply: PullReply, now: i64) -> (out: Pull)
        ensures
            out@ == pull_next(self@, reply@, now),
    {
        match self.stage {
            PullStage::FetchManifest => match reply {
                PullReply::Failed { code, message } => self.finish(
                    400,
                    Some(code),
                    concat2("Failed to get manifest: ", message.as_str()),
                ),
                PullReply::List(list) => match list.select("linux", "amd64") {
                    Some(i) => {
                        proof {
                            let k = choose|k: int|
                                is_first_for(list.manifests@, "linux"@, "amd64"@, k);
                            assert(is_first_for(list.manifests@, "linux"@, "amd64"@, i as int));
                            assert(k == i);
                        }
                        Pull {
                            stage: PullStage::FetchPlatformManifest,
                            repo: self.repo,
                            tag: self.tag,
                            reference: list.manifests[i].digest.clone(),
                            config_digest: self.config_digest,
                            layers: self.layers,
                            total: self.total,
                            config: self.config,
                            stored: self.stored,
                            metadata: self.metadata,
                            outcome: self.outcome,
                        }
                    },
                    None => self.finish(
                        400,
                        Some(owned("REG_NO_MATCHING_PLATFORM")),
                        owned("No linux/amd64 manifest found in list"),
                    ),
                },
                PullReply::Manifest(m) => self.accept(m),
                PullReply::Unreadable(e) => self.finish(
                    500,
                    Some(owned("REG_MANIFEST_INVALID")),
                    concat2("Failed to parse manifest: ", e.as_str()),
                ),
                _ => self,
            },
            PullStage::FetchPlatformManifest => match reply {
                PullReply::Failed { code, message } => self.finish(
                    500,
                    Some(code),
                    concat2("Failed to fetch target manifest: ", message.as_str()),
                ),
                PullReply::Manifest(m) => self.accept(m),
                PullReply::Unreadable(e) => self.finish(
                    500,
                    Some(owned("REG_MANIFEST_INVALID")),
                    concat2("Failed to parse target manifest: ", e.as_str()),
                ),
                _ => self,
            },
            PullStage::FetchConfig => match reply {
                PullReply::Failed { code, message } => self.finish(
                    500,
                    Some(code),
                    concat2("Failed to get config: ", message.as_str()),
                ),
                PullReply::Config { digest, content } => {
                    if !str_eq(digest.as_str(), self.config_digest.as_str()) {
                        self.finish(
                            500,
                            Some(owned("REG_DIGEST_MISMATCH")),
                            concat2("Failed to get config: Invalid digest: ", digest.as_str()),
                        )
                    } else if !parses_as_json(content.as_slice()) {
                        self.finish(
                            500,
                            Some(owned("DB_SERIALIZATION_ERROR")),
                            owned("Failed to parse config JSON"),
                        )
                    } else {
                        Pull {
                            stage: PullStage::SaveConfig,
                            repo: self.repo,
                            tag: self.tag,
                            reference: self.reference,
                            config_digest: self.config_digest,
                            layers: self.layers,
                            total: self.total,
                            config: content,
                            stored: self.stored,
                            metadata: self.metadata,
                            outcome: self.outcome,
                        }
                    }
                },
                _ => self,
            },
            PullStage::SaveConfig => match reply {
                PullReply::Done => self.turn_to_layer(0, now),
                PullReply::Failed { code, message } => self.finish(
                    500,
                    Some(code),
                    concat2("Failed to save config: ", message.as_str()),
                ),
                _ => self,
            },
            PullStage::FetchLayer(i) => {
                if i >= self.layers.len() {
                    self
                } else {
                    match reply {
                        PullReply::Failed { code, message } => {
                            let mut text = concat3(
                                "Failed to get layer ",
                                self.layers[i].as_str(),
                                ": ",
                            );
                            text.append(message.as_str());
                            self.finish(500, Some(code), text)
                        },
                        PullReply::Layer { digest } => {
                            if !str_eq(digest.as_str(), self.layers[i].as_str()) {
                                let mut text = concat3(
                                    "Failed to get layer ",
                                    self.layers[i].as_str(),
                                    ": Invalid digest: ",
                                );
                                text.append(digest.as_str());
                                self.finish(500, Some(owned("REG_DIGEST_MISMATCH")), text)
                            } else {
                                self.at(PullStage::SaveLayer(i))
                            }
                        },
                        _ => self,
                    }
                }
            },
            PullStage::SaveLayer(i) => {
                if i >= self.layers.len() {
                    self
                } else {
                    match reply {
                        PullReply::Done => {
                            let ghost before = string_views(self.stored@);
                            let mut stored = self.stored;
                            stored.push(self.layers[i].clone());
                            proof {
                                assert(string_views(stored@) =~= before.push(
                                    self.layers[i as int]@,
                                ));
                            }
                            let next = Pull {
                                stage: self.stage,
                                repo: self.repo,
                                tag: self.tag,
                                reference: self.reference,
                                config_digest: self.config_digest,
                                layers: self.layers,
                                total: self.total,
                                config: self.config,
                                stored,
                                metadata: self.metadata,
                                outcome: self.outcome,
                            };
                            next.turn_to_layer(i + 1, now)
                        },
                        PullReply::Failed { code, message } => {
                            let mut text = concat3(
                                "Failed to save layer ",
                                self.layers[i].as_str(),
                                ": ",
                            );
                            text.append(message.as_str());
                            self.finish(500, Some(code), text)
                        },
                        _ => self,
                    }
                }
            },
            PullStage::SaveMetadata => match reply {
                PullReply::Done => self.finish(200, None, owned("Pull complete")),
                PullReply::Failed { code, message } => self.finish(
                    500,
                    Some(code),
                    concat2("Failed to save metadata: ", message.as_str()),
                ),
                _ => self,
            },
            PullStage::Finished => self,
        }
    }

    /// The pull after the host has fetched the blob it was asked for, at
    /// the time `now`. The digest of the blob is computed from its content,
    /// and the pull ends where it is not the digest that was asked for.
    pub fn blob_fetched_at(self, content: &[u8], now: i64) -> (out: Pull)
        ensures
            out@ == pull_next(self@, blob_reply(self@.stage, content@), now),
    {
        let digest = blob_digest(content);
        match self.stage {
            PullStage::FetchConfig => {
                let mut copy: Vec<u8> = Vec::new();
                let mut i: usize = 0;
                while i < content.len()
                    invariant
                        i <= content.len(),
                        copy@ == content@.take(i as int),
                    decreases content.len() - i,
                {
                    copy.push(content[i]);
                    i += 1;
                }
                proof {
                    assert(content@.take(content.len() as int) =~= content@);
                }
                self.advance_at(PullReply::Config { digest, content: copy }, now)
            },
            _ => self.advance_at(PullReply::Layer { digest }, now),
        }
    }

    /// The pull after the host has fetched the blob it was asked for. The
    /// time is read from the clock.
    pub fn blob_fetched(self, content: &[u8]) -> (out: Pull)
        ensures
            exists|now: i64| out@ == pull_next(self@, blob_reply(self@.stage, content@), now),
    {
        let now = unix_now();
        let out = self.blob_fetched_at(content, now);
        proof {
            assert(out@ == pull_next(self@, blob_reply(self@.stage, content@), now));
        }
        out
    }

    /// The pull after the host has replied to what it was last asked. The
    /// time of the reply is read from the clock.
    pub fn advance(self, reply: PullReply) -> (out: Pull)
        ensures
            exists|now: i64| out@ == pull_next(self@, reply@, now),
    {
        let now = unix_now();
        let out = self.advance_at(reply, now);
        proof {
            assert(out@ == pull_next(self@, reply@, now));
        }
        out
    }
}

// ---------------------------------------------------------------------------
// What holds of every pull
// ---------------------------------------------------------------------------

/// What holds of every state that a pull reaches: the layers stored so far
/// are the layers before the one at hand, and the record of the image is
/// made only when all layers are stored, and names exactly them.
pub open spec fn pull_in_step(st: PullView) -> bool {
    match st.stage {
        PullStage::FetchManifest | PullStage::FetchPlatformManifest | PullStage::FetchConfig
        | PullStage::SaveConfig => st.stored.len() == 0 && st.metadata is None,
        PullStage::FetchLayer(i) | PullStage::SaveLayer(i) => {
            &&& i < st.layers.len()
            &&& st.stored == st.layers.take(i as int)
            &&& st.metadata is None
        },
        PullStage::SaveMetadata => {
            &&& st.stored == st.layers
            &&& st.metadata matches Some(m) && m.layers == st.stored
        },
        PullStage::Finished => st.metadata matches Some(m) ==> m.layers == st.stored && st.stored
            == st.layers,
    }
}

/// Every state that a pull reaches is in step: the first is, and each reply
/// leads from one that is to one that is.
pub proof fn lemma_pull_stays_in_step(st: PullView, reply: PullReplyView, now: i64)
    requires
        pull_in_step(st),
        st.layers.len() <= usize::MAX,
    ensures
        pull_in_step(pull_next(st, reply, now)),
        pull_next(st, reply, now).layers.len() <= usize::MAX,
        forall|repo: Seq<char>, tag: Seq<char>| pull_in_step(#[trigger] initial_pull(repo, tag)),
{
    let next = pull_next(st, reply, now);
    match st.stage {
        PullStage::SaveLayer(i) => {
            if i < st.layers.len() && reply is Done {
                assert(st.layers.take(i as int).push(st.layers[i as int]) =~= st.layers.take(
                    i + 1,
                ));
                if i + 1 >= st.layers.len() {
                    assert(st.layers.take(i + 1) =~= st.layers);
                }
            }
        },
        PullStage::SaveConfig => {
            assert(st.layers.take(0) =~= Seq::<Seq<char>>::empty());
            assert(st.stored =~= Seq::<Seq<char>>::empty());
            if st.layers.len() == 0 {
                assert(st.stored =~= st.layers);
            }
        },
        PullStage::FetchManifest | PullStage::FetchPlatformManifest => {
            match reply {
                PullReplyView::Manifest(m) => {
                    assert(digests_of(m.layers@).len() == m.layers@.len());
                    assert(m.layers@.len() == m.layers.len());
                },
                _ => {},
            }
        },
        _ => {},
    }
}

/// The record of an image is handed to the metadata store only when the
/// content store has stored every layer that the record names.
pub proof fn lemma_record_names_stored_layers(st: PullView)
    requires
        pull_in_step(st),
        pull_action_of(st) is SaveMetadata,
    ensures
        pull_action_of(st)->SaveMetadata_0.layers == st.stored,
        st.stored == st.layers,
{
}

/// A manifest list that names no manifest for `linux/amd64` ends the pull
/// with the status 400 and the code `REG_NO_MATCHING_PLATFORM`, whatever
/// else the list holds.
pub proof fn lemma_no_platform_ends_pull(st: PullView, list: ManifestList, now: i64)
    requires
        st.stage == PullStage::FetchManifest,
        !has_manifest_for(list.manifests@, "linux"@, "amd64"@),
    ensures
        pull_action_of(pull_next(st, PullReplyView::List(list), now)) == PullActionView::Finish(
            OutcomeView {
                status: 400,
                code: Some("REG_NO_MATCHING_PLATFORM"@),
                message: "No linux/amd64 manifest found in list"@,
            },
        ),
{
}

} // verus!
