//! The record of an image, and where such records are kept.

use crate::diagnostic::Error;
use crate::text::{option_view, string_views};
use vstd::prelude::*;

verus! {

/// What is recorded of an image.
#[derive(Debug, Clone)]
pub struct ImageMetadata {
    /// The hexadecimal part of the digest of the config document.
    pub id: String,
    /// The names `<repo>:<tag>` under which the image is known.
    pub repo_tags: Vec<String>,
    pub parent_id: Option<String>,
    /// When the image was made, in seconds since the Unix epoch.
    pub created: i64,
    /// The sum of the sizes of its layers, in bytes.
    pub size: i64,
    /// The digests of its layers, base layer first.
    pub layers: Vec<String>,
}

/// What an [`ImageMetadata`] holds, as mathematical values.
pub struct ImageMetadataView {
    pub id: Seq<char>,
    pub repo_tags: Seq<Seq<char>>,
    pub parent_id: Option<Seq<char>>,
    pub created: i64,
    pub size: i64,
    pub layers: Seq<Seq<char>>,
}

impl View for ImageMetadata {
    type V = ImageMetadataView;

    open spec fn view(&self) -> ImageMetadataView {
        ImageMetadataView {
            id: self.id@,
            repo_tags: string_views(self.repo_tags@),
            parent_id: option_view(self.parent_id),
            created: self.created,
            size: self.size,
            layers: string_views(self.layers@),
        }
    }
}

/// The records of the images, by image id.
pub type Images = Map<Seq<char>, ImageMetadataView>;

/// `incoming`, followed by those of the first `n` tags of `existing` that
/// do not stand before them already, in order.
pub open spec fn merged_upto(incoming: Seq<Seq<char>>, existing: Seq<Seq<char>>, n: int) -> Seq<
    Seq<char>,
>
    decreases n,
{
    if n <= 0 {
        incoming
    } else {
        let before = merged_upto(incoming, existing, n - 1);
        if before.contains(existing[n - 1]) {
            before
        } else {
            before.push(existing[n - 1])
        }
    }
}

/// The tags of an image that is pulled again: the tags that come with the
/// pull, then the tags it had that are not among them.
pub open spec fn merged_tags(incoming: Seq<Seq<char>>, existing: Seq<Seq<char>>) -> Seq<
    Seq<char>,
> {
    merged_upto(incoming, existing, existing.len() as int)
}

/// Those of the first `n` of `tags` that are not among `taken`, in order.
pub open spec fn left_upto(tags: Seq<Seq<char>>, taken: Seq<Seq<char>>, n: int) -> Seq<Seq<char>>
    decreases n,
{
    if n <= 0 {
        Seq::empty()
    } else if taken.contains(tags[n - 1]) {
        left_upto(tags, taken, n - 1)
    } else {
        left_upto(tags, taken, n - 1).push(tags[n - 1])
    }
}

/// The tags that are left to an image when `taken` go to another.
pub open spec fn left_tags(tags: Seq<Seq<char>>, taken: Seq<Seq<char>>) -> Seq<Seq<char>> {
    left_upto(tags, taken, tags.len() as int)
}

/// The record of `m` as it is stored: with the tags it had before, where
/// it was recorded before.
pub open spec fn stored_record(images: Images, m: ImageMetadataView) -> ImageMetadataView {
    ImageMetadataView {
        repo_tags: if images.dom().contains(m.id) {
            merged_tags(m.repo_tags, images[m.id].repo_tags)
        } else {
            m.repo_tags
        },
        ..m
    }
}

/// The records after `m` is saved: the image `m.id` is recorded as `m`
/// says, with the tags it had before added to its tags; every other image
/// loses the tags that `m` comes with.
pub open spec fn saved(images: Images, m: ImageMetadataView) -> Images {
    Map::new(
        |id: Seq<char>| id == m.id || images.dom().contains(id),
        |id: Seq<char>|
            if id == m.id {
                stored_record(images, m)
            } else {
                ImageMetadataView {
                    repo_tags: left_tags(images[id].repo_tags, m.repo_tags),
                    ..images[id]
                }
            },
    )
}

/// Whether `all` holds each recorded image once, as it is recorded, and
/// nothing else.
pub open spec fn lists_images(all: Seq<ImageMetadata>, images: Images) -> bool {
    &&& forall|i: int|
        0 <= i < all.len() ==> images.dom().contains((#[trigger] all[i]).id@) && all[i]@
            == images[all[i].id@]
    &&& forall|i: int, j: int|
        0 <= i < j < all.len() ==> (#[trigger] all[i]).id@ != (#[trigger] all[j]).id@
    &&& forall|id: Seq<char>| #[trigger]
        images.dom().contains(id) ==> exists|i: int|
            0 <= i < all.len() && (#[trigger] all[i]).id@ == id
}

/// The durable record of the images.
pub trait ImageMetadataStore {
    /// The records, by image id.
    spec fn images(&self) -> Images;

    /// Records an image. An image that is recorded already keeps its tags
    /// and gains those of `metadata`; the tags of `metadata` are taken from
    /// every other image.
    fn save(&mut self, metadata: &ImageMetadata) -> (r: Result<(), Error>)
        ensures
            r is Ok ==> final(self).images() == saved(old(self).images(), metadata@),
            r is Err ==> final(self).images() == old(self).images(),
    ;

    /// Every image.
    fn list(&self) -> (r: Result<Vec<ImageMetadata>, Error>)
        ensures
            r matches Ok(all) ==> lists_images(all@, self.images()),
    ;

    /// The image `id`.
    fn get(&self, id: &str) -> (r: Result<Option<ImageMetadata>, Error>)
        ensures
            r matches Ok(found) ==> match found {
                Some(m) => self.images().dom().contains(id@) && m@ == self.images()[id@],
                None => !self.images().dom().contains(id@),
            },
    ;

    /// Whether the image `id` is recorded.
    fn has_image(&self, id: &str) -> (r: Result<bool, Error>)
        ensures
            r matches Ok(found) ==> found == self.images().dom().contains(id@),
    ;
}

// ---------------------------------------------------------------------------
// What holds of every save
// ---------------------------------------------------------------------------

/// What came with the pull is among the merged tags.
pub proof fn lemma_merged_keeps_incoming(
    incoming: Seq<Seq<char>>,
    existing: Seq<Seq<char>>,
    n: int,
    tag: Seq<char>,
)
    requires
        incoming.contains(tag),
    ensures
        merged_upto(incoming, existing, n).contains(tag),
    decreases n,
{
    if n > 0 {
        lemma_merged_keeps_incoming(incoming, existing, n - 1, tag);
        let before = merged_upto(incoming, existing, n - 1);
        let i = choose|i: int| 0 <= i < before.len() && before[i] == tag;
        if !before.contains(existing[n - 1]) {
            assert(before.push(existing[n - 1])[i] == tag);
        }
    }
}

/// What was taken is not among the tags that are left.
pub proof fn lemma_left_lacks_taken(
    tags: Seq<Seq<char>>,
    taken: Seq<Seq<char>>,
    n: int,
    tag: Seq<char>,
)
    requires
        taken.contains(tag),
        n <= tags.len(),
    ensures
        !left_upto(tags, taken, n).contains(tag),
    decreases n,
{
    if n > 0 {
        lemma_left_lacks_taken(tags, taken, n - 1, tag);
        let before = left_upto(tags, taken, n - 1);
        if !taken.contains(tags[n - 1]) {
            let now = before.push(tags[n - 1]);
            if now.contains(tag) {
                let i = choose|i: int| 0 <= i < now.len() && now[i] == tag;
                if i < before.len() {
                    assert(before[i] == tag);
                }
            }
        }
    }
}

/// After an image is saved with the tag `tag`, exactly one image is
/// recorded with that tag: the image that was saved.
pub proof fn lemma_tag_names_one_image(images: Images, m: ImageMetadataView, tag: Seq<char>)
    requires
        m.repo_tags.contains(tag),
    ensures
        saved(images, m).dom().contains(m.id),
        saved(images, m)[m.id].repo_tags.contains(tag),
        forall|id: Seq<char>|
            saved(images, m).dom().contains(id) && id != m.id ==> !(#[trigger] saved(
                images,
                m,
            )[id]).repo_tags.contains(tag),
{
    if images.dom().contains(m.id) {
        lemma_merged_keeps_incoming(
            m.repo_tags,
            images[m.id].repo_tags,
            images[m.id].repo_tags.len() as int,
            tag,
        );
    }
    assert forall|id: Seq<char>| saved(images, m).dom().contains(id) && id != m.id implies !(
    #[trigger] saved(images, m)[id]).repo_tags.contains(tag) by {
        lemma_left_lacks_taken(
            images[id].repo_tags,
            m.repo_tags,
            images[id].repo_tags.len() as int,
            tag,
        );
    }
}

} // verus!
