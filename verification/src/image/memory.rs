//! An image store that keeps its records in memory.

use crate::diagnostic::Error;
use crate::image::store::{
    left_tags, left_upto, lists_images, merged_tags, merged_upto, saved, stored_record,
    ImageMetadata, ImageMetadataStore, ImageMetadataView, Images,
};
use crate::text::{clone_strings, str_eq, string_views};
use vstd::prelude::*;

verus! {

/// Whether no two records have the same id.
pub open spec fn distinct_images(items: Seq<ImageMetadata>) -> bool {
    forall|i: int, j: int| 0 <= i < j < items.len() ==> items[i].id@ != items[j].id@
}

/// The records of a list, by id.
pub open spec fn image_table(items: Seq<ImageMetadata>) -> Images {
    Map::new(
        |id: Seq<char>| exists|i: int| 0 <= i < items.len() && (#[trigger] items[i]).id@ == id,
        |id: Seq<char>|
            items[choose|i: int| 0 <= i < items.len() && (#[trigger] items[i]).id@ == id]@,
    )
}

/// Where no two records have the same id, the table has each record under
/// its id.
proof fn lemma_image_at(items: Seq<ImageMetadata>, i: int)
    requires
        distinct_images(items),
        0 <= i < items.len(),
    ensures
        image_table(items).dom().contains(items[i].id@),
        image_table(items)[items[i].id@] == items[i]@,
{
    let id = items[i].id@;
    let k = choose|k: int| 0 <= k < items.len() && (#[trigger] items[k]).id@ == id;
    if k < i {
        assert(items[k].id@ != items[i].id@);
    } else if i < k {
        assert(items[i].id@ != items[k].id@);
    }
}

/// The record of an image that has lost the tags `taken`.
pub open spec fn without(record: ImageMetadataView, taken: Seq<Seq<char>>) -> ImageMetadataView {
    ImageMetadataView { repo_tags: left_tags(record.repo_tags, taken), ..record }
}

fn contains_tag(tags: &Vec<String>, tag: &str) -> (r: bool)
    ensures
        r == string_views(tags@).contains(tag@),
{
    let mut i: usize = 0;
    while i < tags.len()
        invariant
            i <= tags.len(),
            forall|j: int| 0 <= j < i ==> string_views(tags@)[j] != tag@,
        decreases tags.len() - i,
    {
        if str_eq(tags[i].as_str(), tag) {
            proof {
                assert(string_views(tags@)[i as int] == tag@);
            }
            return true;
        }
        i += 1;
    }
    false
}

/// The tags of an image that is pulled again.
pub fn merge_tags(incoming: &Vec<String>, existing: &Vec<String>) -> (out: Vec<String>)
    ensures
        string_views(out@) == merged_tags(string_views(incoming@), string_views(existing@)),
{
    let mut out = clone_strings(incoming);
    let mut i: usize = 0;
    while i < existing.len()
        invariant
            i <= existing.len(),
            string_views(out@) == merged_upto(
                string_views(incoming@),
                string_views(existing@),
                i as int,
            ),
        decreases existing.len() - i,
    {
        let ghost before = string_views(out@);
        proof {
            assert(string_views(existing@)[i as int] == existing[i as int]@);
        }
        if !contains_tag(&out, existing[i].as_str()) {
            out.push(existing[i].clone());
            proof {
                assert(string_views(out@) =~= before.push(existing[i as int]@));
            }
        }
        i += 1;
    }
    out
}

/// The tags that are left when `taken` go to another image.
pub fn strip_tags(tags: &Vec<String>, taken: &Vec<String>) -> (out: Vec<String>)
    ensures
        string_views(out@) == left_tags(string_views(tags@), string_views(taken@)),
{
    let mut out: Vec<String> = Vec::new();
    let mut i: usize = 0;
    proof {
        assert(string_views(out@) =~= Seq::<Seq<char>>::empty());
    }
    while i < tags.len()
        invariant
            i <= tags.len(),
            string_views(out@) == left_upto(string_views(tags@), string_views(taken@), i as int),
        decreases tags.len() - i,
    {
        let ghost before = string_views(out@);
        proof {
            assert(string_views(tags@)[i as int] == tags[i as int]@);
        }
        if !contains_tag(taken, tags[i].as_str()) {
            out.push(tags[i].clone());
            proof {
                assert(string_views(out@) =~= before.push(tags[i as int]@));
            }
        }
        i += 1;
    }
    out
}

fn copy_record(m: &ImageMetadata) -> (out: ImageMetadata)
    ensures
        out@ == m@,
{
    ImageMetadata {
        id: m.id.clone(),
        repo_tags: clone_strings(&m.repo_tags),
        parent_id: match &m.parent_id {
            Some(p) => Some(p.clone()),
            None => None,
        },
        created: m.created,
        size: m.size,
        layers: clone_strings(&m.layers),
    }
}

/// An image store in memory: the double of the durable store. Its
/// statements never fail.
#[derive(Debug)]
pub struct MemoryImages {
    items: Vec<ImageMetadata>,
}

impl MemoryImages {
    #[verifier::type_invariant]
    closed spec fn well_formed(self) -> bool {
        distinct_images(self.items@)
    }

    /// A store without records.
    pub fn new() -> (out: MemoryImages)
        ensures
            out.images() == Map::<Seq<char>, ImageMetadataView>::empty(),
    {
        let out = MemoryImages { items: Vec::new() };
        proof {
            assert(out.images() =~= Map::<Seq<char>, ImageMetadataView>::empty());
        }
        out
    }

    fn position(&self, id: &str) -> (r: Option<usize>)
        ensures
            match r {
                Some(i) => i < self.items@.len() && self.items@[i as int].id@ == id@
                    && self.images().dom().contains(id@) && self.images()[id@]
                    == self.items@[i as int]@,
                None => !self.images().dom().contains(id@),
            },
    {
        proof {
            use_type_invariant(self);
        }
        let mut i: usize = 0;
        while i < self.items.len()
            invariant
                i <= self.items.len(),
                distinct_images(self.items@),
                forall|j: int| 0 <= j < i ==> (#[trigger] self.items@[j]).id@ != id@,
            decreases self.items.len() - i,
        {
            if str_eq(self.items[i].id.as_str(), id) {
                proof {
                    lemma_image_at(self.items@, i as int);
                }
                return Some(i);
            }
            i += 1;
        }
        None
    }
}

impl ImageMetadataStore for MemoryImages {
    closed spec fn images(&self) -> Images {
        image_table(self.items@)
    }

    fn save(&mut self, metadata: &ImageMetadata) -> (r: Result<(), Error>)
        ensures
            r is Ok,
    {
        proof {
            use_type_invariant(&*self);
        }
        let ghost before = self.images();
        let ghost old_items = self.items@;
        let ghost m = metadata@;
        let repo_tags = match self.position(metadata.id.as_str()) {
            Some(i) => merge_tags(&metadata.repo_tags, &self.items[i].repo_tags),
            None => clone_strings(&metadata.repo_tags),
        };
        let record = ImageMetadata {
            id: metadata.id.clone(),
            repo_tags,
            parent_id: match &metadata.parent_id {
                Some(p) => Some(p.clone()),
                None => None,
            },
            created: metadata.created,
            size: metadata.size,
            layers: clone_strings(&metadata.layers),
        };
        proof {
            assert(record@ == stored_record(before, m));
        }
        let mut kept: Vec<ImageMetadata> = Vec::new();
        let mut found = false;
        let mut i: usize = 0;
        while i < self.items.len()
            invariant
                i <= self.items.len(),
                self.items@ == old_items,
                m == metadata@,
                kept.len() == i,
                record@ == stored_record(before, m),
                record.id@ == m.id,
                found <==> exists|b: int| 0 <= b < i && (#[trigger] old_items[b]).id@ == m.id,
                forall|a: int|
                    0 <= a < i ==> (#[trigger] kept[a]).id@ == old_items[a].id@ && kept[a]@ == (if
                        old_items[a].id@ == m.id {
                        record@
                    } else {
                        without(old_items[a]@, m.repo_tags)
                    }),
            decreases self.items.len() - i,
        {
            let item = &self.items[i];
            if str_eq(item.id.as_str(), metadata.id.as_str()) {
                kept.push(copy_record(&record));
                found = true;
            } else {
                kept.push(
                    ImageMetadata {
                        id: item.id.clone(),
                        repo_tags: strip_tags(&item.repo_tags, &metadata.repo_tags),
                        parent_id: match &item.parent_id {
                            Some(p) => Some(p.clone()),
                            None => None,
                        },
                        created: item.created,
                        size: item.size,
                        layers: clone_strings(&item.layers),
                    },
                );
            }
            proof {
                assert(old_items[i as int].id@ == item.id@);
            }
            i += 1;
        }
        let ghost aligned = kept@;
        if !found {
            kept.push(record);
        }
        proof {
            let n = old_items.len() as int;
            assert forall|a: int, b: int| 0 <= a < b < kept@.len() implies kept@[a].id@
                != kept@[b].id@ by {
                if b < n {
                    assert(kept@[a] == aligned[a]);
                    assert(kept@[b] == aligned[b]);
                    assert(old_items[a].id@ != old_items[b].id@);
                } else {
                    assert(kept@[a] == aligned[a]);
                    assert(kept@[b].id@ == m.id);
                    assert(old_items[a].id@ != m.id);
                }
            }
        }
        self.items = kept;
        proof {
            let after = self.images();
            let wanted = saved(before, m);
            let n = old_items.len() as int;
            assert forall|id: Seq<char>| after.dom().contains(id) <==> wanted.dom().contains(
                id,
            ) by {
                if after.dom().contains(id) {
                    let a = choose|a: int| 0 <= a < kept@.len() && (#[trigger] kept@[a]).id@ == id;
                    if a < n {
                        assert(kept@[a] == aligned[a]);
                        assert(old_items[a].id@ == id);
                    }
                }
                if wanted.dom().contains(id) {
                    if before.dom().contains(id) {
                        let b = choose|b: int|
                            0 <= b < old_items.len() && (#[trigger] old_items[b]).id@ == id;
                        assert(kept@[b] == aligned[b]);
                        assert(kept@[b].id@ == id);
                    } else {
                        assert(id == m.id);
                        assert(!found);
                        assert(kept@[n].id@ == id);
                    }
                }
            }
            assert forall|id: Seq<char>| after.dom().contains(id) implies after[id] == wanted[id] by {
                let a = choose|a: int| 0 <= a < kept@.len() && (#[trigger] kept@[a]).id@ == id;
                lemma_image_at(kept@, a);
                if a < n {
                    assert(kept@[a] == aligned[a]);
                    lemma_image_at(old_items, a);
                } else {
                    assert(id == m.id);
                }
            }
            assert(after =~= wanted);
        }
        Ok(())
    }

    fn list(&self) -> (r: Result<Vec<ImageMetadata>, Error>)
        ensures
            r is Ok,
    {
        proof {
            use_type_invariant(self);
        }
        let mut all: Vec<ImageMetadata> = Vec::new();
        let mut i: usize = 0;
        while i < self.items.len()
            invariant
                i <= self.items.len(),
                distinct_images(self.items@),
                all.len() == i,
                forall|j: int| 0 <= j < i ==> (#[trigger] all@[j])@ == self.items@[j]@,
            decreases self.items.len() - i,
        {
            all.push(copy_record(&self.items[i]));
            i += 1;
        }
        proof {
            assert forall|j: int| 0 <= j < all@.len() implies self.images().dom().contains(
                (#[trigger] all@[j]).id@,
            ) && all@[j]@ == self.images()[all@[j].id@] by {
                assert(all@[j]@ == self.items@[j]@);
                lemma_image_at(self.items@, j);
            }
            assert forall|a: int, b: int| 0 <= a < b < all@.len() implies (#[trigger] all@[a]).id@
                != (#[trigger] all@[b]).id@ by {
                assert(all@[a]@ == self.items@[a]@);
                assert(all@[b]@ == self.items@[b]@);
            }
            assert forall|id: Seq<char>| #[trigger]
                self.images().dom().contains(id) implies exists|j: int|
                0 <= j < all@.len() && (#[trigger] all@[j]).id@ == id by {
                let k = choose|k: int|
                    0 <= k < self.items@.len() && (#[trigger] self.items@[k]).id@ == id;
                assert(all@[k]@ == self.items@[k]@);
                assert(all@[k].id@ == id);
            }
            assert(lists_images(all@, self.images()));
        }
        Ok(all)
    }

    fn get(&self, id: &str) -> (r: Result<Option<ImageMetadata>, Error>)
        ensures
            r is Ok,
    {
        match self.position(id) {
            Some(i) => Ok(Some(copy_record(&self.items[i]))),
            None => Ok(None),
        }
    }

    fn has_image(&self, id: &str) -> (r: Result<bool, Error>)
        ensures
            r is Ok,
    {
        Ok(self.position(id).is_some())
    }
}

} // verus!
