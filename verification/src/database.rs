//! The store: every image under its id, every image under its fingerprint,
//! and the accounts.

use vstd::prelude::*;
use vstd::string::*;
use crate::fingerprint::{hamming, same_fingerprint, within_threshold, FINGERPRINT_BYTES};
use crate::images::{copy_images, image_views, Image, ImageError, ImageView};
use crate::user::{user_views, User, UserView};

verus! {

/// The images that share one fingerprint, oldest first.
pub struct HashBucket {
    pub hash: [u8; 8],
    pub images: Vec<Image>,
}

/// What a [`HashBucket`] holds, as mathematical values.
pub struct BucketView {
    pub hash: Seq<u8>,
    pub images: Seq<ImageView>,
}

impl View for HashBucket {
    type V = BucketView;

    open spec fn view(&self) -> BucketView {
        BucketView { hash: self.hash@, images: image_views(self.images@) }
    }
}

/// The views of a list of buckets.
pub open spec fn bucket_views(buckets: Seq<HashBucket>) -> Seq<BucketView> {
    Seq::new(buckets.len(), |i: int| buckets[i]@)
}

/// The accounts, the buckets and the images of a store.
pub struct Database {
    users: Vec<User>,
    image_hashes: Vec<HashBucket>,
    images: Vec<Image>,
}

/// What a [`Database`] holds, as mathematical values.
pub struct DatabaseView {
    /// The accounts, oldest first.
    pub users: Seq<UserView>,
    /// One bucket for each fingerprint that an image of the store has, in
    /// the order in which the fingerprints first came.
    pub image_hashes: Seq<BucketView>,
    /// The images, oldest first.
    pub images: Seq<ImageView>,
}

impl DatabaseView {
    /// The store without anything in it.
    pub open spec fn empty() -> DatabaseView {
        DatabaseView { users: Seq::empty(), image_hashes: Seq::empty(), images: Seq::empty() }
    }

    /// Whether `i` is the place of the bucket for `hash`.
    pub open spec fn is_bucket(self, i: int, hash: Seq<u8>) -> bool {
        0 <= i < self.image_hashes.len() && self.image_hashes[i].hash == hash
    }

    /// Whether some image of the store has the fingerprint `hash`.
    pub open spec fn has_bucket(self, hash: Seq<u8>) -> bool {
        exists|i: int| self.is_bucket(i, hash)
    }

    /// The place of the bucket for `hash`.
    pub open spec fn bucket_index(self, hash: Seq<u8>) -> int {
        choose|i: int| self.is_bucket(i, hash)
    }

    /// The images with the fingerprint `hash`, oldest first.
    pub open spec fn bucket_for(self, hash: Seq<u8>) -> Seq<ImageView> {
        if self.has_bucket(hash) {
            self.image_hashes[self.bucket_index(hash)].images
        } else {
            Seq::empty()
        }
    }

    /// Whether `i` is the place of the image with the id `id`.
    pub open spec fn is_image(self, i: int, id: Seq<char>) -> bool {
        0 <= i < self.images.len() && self.images[i].id == id
    }

    /// Whether an image of the store has the id `id`.
    pub open spec fn has_id(self, id: Seq<char>) -> bool {
        exists|i: int| self.is_image(i, id)
    }

    /// The image with the id `id`.
    pub open spec fn by_id(self, id: Seq<char>) -> ImageView {
        self.images[choose|i: int| self.is_image(i, id)]
    }

    /// Whether `i` is the place of an account with the name `username`.
    pub open spec fn is_user(self, i: int, username: Seq<char>) -> bool {
        0 <= i < self.users.len() && self.users[i].username == username
    }

    /// Whether an account has the name `username`.
    pub open spec fn has_user(self, username: Seq<char>) -> bool {
        exists|i: int| self.is_user(i, username)
    }

    /// The accounts with the name `username`, oldest first.
    pub open spec fn users_named(self, username: Seq<char>) -> Seq<UserView> {
        self.users.filter(|u: UserView| u.username == username)
    }

    /// The id that is made up where no drawn id is free: the ids of all
    /// images one after another, and an underscore behind them.
    pub open spec fn spare_id(self) -> Seq<char> {
        joined_ids(self.images) + seq!['_']
    }

    /// The store after `image` was put into it.
    pub open spec fn insert(self, image: ImageView) -> DatabaseView {
        DatabaseView {
            users: self.users,
            image_hashes: if self.has_bucket(image.hash) {
                let i = self.bucket_index(image.hash);
                self.image_hashes.update(
                    i,
                    BucketView { hash: image.hash, images: self.image_hashes[i].images.push(image) },
                )
            } else {
                self.image_hashes.push(BucketView { hash: image.hash, images: seq![image] })
            },
            images: self.images.push(image),
        }
    }

    /// The store after an account was added to it.
    pub open spec fn insert_user(self, user: UserView) -> DatabaseView {
        DatabaseView { users: self.users.push(user), ..self }
    }

    /// The images of the buckets whose fingerprint lies within `threshold`
    /// bits of `query`: bucket after bucket, each oldest first.
    pub open spec fn search(self, query: Seq<u8>, threshold: u64) -> Seq<ImageView> {
        matching(self.image_hashes, query, threshold)
    }

    /// No two buckets share a fingerprint.
    pub open spec fn keys_distinct(self) -> bool {
        forall|i: int, j: int|
            0 <= i < j < self.image_hashes.len() ==> #[trigger] self.image_hashes[i].hash
                != #[trigger] self.image_hashes[j].hash
    }

    /// No bucket is empty, and each holds images of its own fingerprint
    /// only.
    pub open spec fn buckets_sound(self) -> bool {
        &&& forall|i: int|
            0 <= i < self.image_hashes.len() ==> {
                &&& (#[trigger] self.image_hashes[i]).hash.len() == FINGERPRINT_BYTES
                &&& self.image_hashes[i].images.len() > 0
            }
        &&& forall|i: int, k: int|
            0 <= i < self.image_hashes.len() && 0 <= k < self.image_hashes[i].images.len()
                ==> (#[trigger] self.image_hashes[i].images[k]).hash == self.image_hashes[i].hash
    }

    /// Every image of a bucket is an image that its id leads to.
    pub open spec fn entries_known(self) -> bool {
        forall|i: int, k: int|
            0 <= i < self.image_hashes.len() && 0 <= k < self.image_hashes[i].images.len()
                ==> self.images.contains(#[trigger] self.image_hashes[i].images[k])
    }

    /// No image stands twice in the buckets.
    pub open spec fn entry_ids_distinct(self) -> bool {
        forall|i: int, k: int, j: int, l: int|
            0 <= i < self.image_hashes.len() && 0 <= k < self.image_hashes[i].images.len() && 0
                <= j < self.image_hashes.len() && 0 <= l < self.image_hashes[j].images.len() && (i
                != j || k != l) ==> (#[trigger] self.image_hashes[i].images[k]).id
                != (#[trigger] self.image_hashes[j].images[l]).id
    }

    /// No two images share an id.
    pub open spec fn ids_distinct(self) -> bool {
        forall|i: int, j: int|
            0 <= i < j < self.images.len() ==> #[trigger] self.images[i].id
                != #[trigger] self.images[j].id
    }

    /// Every image stands in the bucket of its fingerprint.
    pub open spec fn images_bucketed(self) -> bool {
        forall|i: int|
            0 <= i < self.images.len() ==> self.bucket_for(
                (#[trigger] self.images[i]).hash,
            ).contains(self.images[i])
    }

    /// No two accounts share a name, and the accounts are numbered from one
    /// in the order in which they came.
    pub open spec fn users_sound(self) -> bool {
        &&& forall|i: int, j: int|
            0 <= i < j < self.users.len() ==> #[trigger] self.users[i].username
                != #[trigger] self.users[j].username
        &&& forall|i: int| 0 <= i < self.users.len() ==> (#[trigger] self.users[i]).id == i + 1
        &&& self.users.len() <= i32::MAX
    }

    /// What holds of every store.
    pub open spec fn wf(self) -> bool {
        &&& self.keys_distinct()
        &&& self.buckets_sound()
        &&& self.entries_known()
        &&& self.entry_ids_distinct()
        &&& self.ids_distinct()
        &&& self.images_bucketed()
        &&& self.users_sound()
    }
}

/// The ids of a list of images, one after another.
pub open spec fn joined_ids(images: Seq<ImageView>) -> Seq<char>
    decreases images.len(),
{
    if images.len() == 0 {
        Seq::empty()
    } else {
        joined_ids(images.drop_last()) + images.last().id
    }
}

/// The ids of a list of images, one after another, are together as long as
/// the longest of them at least.
pub proof fn lemma_joined_ids_len(images: Seq<ImageView>, j: int)
    requires
        0 <= j < images.len(),
    ensures
        images[j].id.len() <= joined_ids(images).len(),
    decreases images.len(),
{
    if j < images.len() - 1 {
        lemma_joined_ids_len(images.drop_last(), j);
    }
}

impl DatabaseView {
    /// No image has the spare id: it is longer than every id of the store.
    pub proof fn lemma_spare_id_is_free(self)
        ensures
            !self.has_id(self.spare_id()),
    {
        assert forall|j: int| !self.is_image(j, self.spare_id()) by {
            if 0 <= j < self.images.len() {
                lemma_joined_ids_len(self.images, j);
            }
        }
    }

    /// A fingerprint has one bucket only.
    pub proof fn lemma_bucket_index(self, i: int, hash: Seq<u8>)
        requires
            self.keys_distinct(),
            self.is_bucket(i, hash),
        ensures
            self.has_bucket(hash),
            self.bucket_index(hash) == i,
            self.bucket_for(hash) == self.image_hashes[i].images,
    {
        let k = self.bucket_index(hash);
        assert(self.is_bucket(k, hash));
        if k < i {
            assert(self.image_hashes[k].hash != self.image_hashes[i].hash);
        } else if i < k {
            assert(self.image_hashes[i].hash != self.image_hashes[k].hash);
        }
    }

    /// The bucket of a fingerprint depends on the buckets alone.
    pub proof fn lemma_bucket_for_depends_on_buckets(self, other: DatabaseView, hash: Seq<u8>)
        requires
            self.keys_distinct(),
            self.image_hashes == other.image_hashes,
        ensures
            self.bucket_for(hash) == other.bucket_for(hash),
    {
        if self.has_bucket(hash) {
            let k = self.bucket_index(hash);
            assert(self.is_bucket(k, hash));
            assert(other.is_bucket(k, hash));
            other.lemma_bucket_index(k, hash);
        } else if other.has_bucket(hash) {
            let k = other.bucket_index(hash);
            assert(other.is_bucket(k, hash));
            assert(self.is_bucket(k, hash));
        }
    }

    /// A name has accounts exactly when an account has the name.
    pub proof fn lemma_users_named(self, username: Seq<char>)
        ensures
            self.users_named(username).len() > 0 <==> self.has_user(username),
    {
        let pred = |u: UserView| u.username == username;
        let named = self.users.filter(pred);
        if named.len() > 0 {
            assert(named.contains(named[0]));
            self.users.lemma_filter_contains_rev(pred, named[0]);
            self.users.lemma_filter_pred(pred, 0);
            let i = choose|i: int| 0 <= i < self.users.len() && self.users[i] == named[0];
            assert(self.is_user(i, username));
        }
        if self.has_user(username) {
            let i = choose|i: int| self.is_user(i, username);
            assert(self.is_user(i, username));
            self.users.lemma_filter_contains(pred, i);
            assert(named.contains(self.users[i]));
        }
    }

    /// An id leads to one image only.
    pub proof fn lemma_image_index(self, i: int, id: Seq<char>)
        requires
            self.ids_distinct(),
            self.is_image(i, id),
        ensures
            self.has_id(id),
            self.by_id(id) == self.images[i],
    {
        let k = choose|k: int| self.is_image(k, id);
        assert(self.is_image(k, id));
        if k < i {
            assert(self.images[k].id != self.images[i].id);
        } else if i < k {
            assert(self.images[i].id != self.images[k].id);
        }
    }
}

impl DatabaseView {
    /// Putting an image with a new id into a store leaves a store.
    pub proof fn lemma_insert_wf(self, image: ImageView)
        requires
            self.wf(),
            !self.has_id(image.id),
            image.hash.len() == FINGERPRINT_BYTES,
        ensures
            self.insert(image).wf(),
            self.insert(image).bucket_for(image.hash) == self.bucket_for(image.hash).push(image),
            forall|hash: Seq<u8>|
                hash != image.hash ==> self.insert(image).bucket_for(hash) == self.bucket_for(hash),
    {
        let after = self.insert(image);
        let n = self.image_hashes.len() as int;
        let place = if self.has_bucket(image.hash) {
            self.bucket_index(image.hash)
        } else {
            n
        };
        assert(self.has_bucket(image.hash) ==> self.is_bucket(place, image.hash));
        assert(!self.has_bucket(image.hash) ==> forall|j: int| !self.is_bucket(j, image.hash));
        assert(after.is_bucket(place, image.hash));
        // The fingerprints of the old buckets stay where they were.
        assert forall|j: int| 0 <= j < n implies (#[trigger] after.image_hashes[j]).hash
            == self.image_hashes[j].hash by {}
        assert forall|j: int| 0 <= j < n && j != place implies #[trigger] after.image_hashes[j]
            == self.image_hashes[j] by {}
        assert(after.keys_distinct()) by {
            assert forall|i: int, j: int| 0 <= i < j < after.image_hashes.len() implies #[trigger] after.image_hashes[i].hash != #[trigger] after.image_hashes[j].hash by {
                if j < n {
                    assert(self.image_hashes[i].hash != self.image_hashes[j].hash);
                } else {
                    assert(!self.is_bucket(i, image.hash));
                }
            }
        }
        after.lemma_bucket_index(place, image.hash);
        if self.has_bucket(image.hash) {
            self.lemma_bucket_index(place, image.hash);
        }
        assert(after.bucket_for(image.hash) =~= self.bucket_for(image.hash).push(image));
        assert forall|hash: Seq<u8>| hash != image.hash implies after.bucket_for(hash)
            == self.bucket_for(hash) by {
            if self.has_bucket(hash) {
                let j = self.bucket_index(hash);
                assert(self.is_bucket(j, hash));
                assert(after.is_bucket(j, hash));
                after.lemma_bucket_index(j, hash);
            } else if after.has_bucket(hash) {
                let j = after.bucket_index(hash);
                assert(after.is_bucket(j, hash));
                assert(self.is_bucket(j, hash));
            }
        }
        // Every old image keeps its place under the ids.
        assert forall|e: ImageView| self.images.contains(e) implies after.images.contains(e)
            && e.id != image.id by {
            let m = choose|m: int| 0 <= m < self.images.len() && self.images[m] == e;
            assert(after.images[m] == e);
            assert(self.is_image(m, e.id));
        }
        assert(after.images[self.images.len() as int] == image);
        assert(after.images.contains(image));
        assert(after.buckets_sound()) by {
            assert forall|i: int| 0 <= i < after.image_hashes.len() implies {
                &&& (#[trigger] after.image_hashes[i]).hash.len() == FINGERPRINT_BYTES
                &&& after.image_hashes[i].images.len() > 0
            } by {
                if i < n {
                    assert(self.image_hashes[i].hash.len() == FINGERPRINT_BYTES);
                }
            }
            assert forall|i: int, k: int|
                0 <= i < after.image_hashes.len() && 0 <= k < after.image_hashes[i].images.len()
                implies (#[trigger] after.image_hashes[i].images[k]).hash
                == after.image_hashes[i].hash by {
                if i < n && k < self.image_hashes[i].images.len() {
                    assert(self.image_hashes[i].images[k].hash == self.image_hashes[i].hash);
                }
            }
        }
        assert(after.entries_known()) by {
            assert forall|i: int, k: int|
                0 <= i < after.image_hashes.len() && 0 <= k < after.image_hashes[i].images.len()
                implies after.images.contains(#[trigger] after.image_hashes[i].images[k]) by {
                if i < n && k < self.image_hashes[i].images.len() {
                    assert(self.images.contains(self.image_hashes[i].images[k]));
                }
            }
        }
        assert(after.entry_ids_distinct()) by {
            assert forall|i: int, k: int, j: int, l: int|
                0 <= i < after.image_hashes.len() && 0 <= k < after.image_hashes[i].images.len()
                    && 0 <= j < after.image_hashes.len() && 0 <= l
                    < after.image_hashes[j].images.len() && (i != j || k != l) implies (
            #[trigger] after.image_hashes[i].images[k]).id
                != (#[trigger] after.image_hashes[j].images[l]).id by {
                let old_a = i < n && k < self.image_hashes[i].images.len();
                let old_b = j < n && l < self.image_hashes[j].images.len();
                if old_a {
                    assert(self.images.contains(self.image_hashes[i].images[k]));
                }
                if old_b {
                    assert(self.images.contains(self.image_hashes[j].images[l]));
                }
                if old_a && old_b {
                    assert(self.image_hashes[i].images[k].id != self.image_hashes[j].images[l].id);
                }
            }
        }
        assert(after.ids_distinct()) by {
            assert forall|i: int, j: int| 0 <= i < j < after.images.len() implies #[trigger] after.images[i].id != #[trigger] after.images[j].id by {
                if j < self.images.len() {
                    assert(self.images[i].id != self.images[j].id);
                } else {
                    assert(!self.is_image(i, image.id));
                }
            }
        }
        assert(after.images_bucketed()) by {
            assert forall|i: int| 0 <= i < after.images.len() implies after.bucket_for(
                (#[trigger] after.images[i]).hash,
            ).contains(after.images[i]) by {
                if i < self.images.len() {
                    let e = self.images[i];
                    assert(self.bucket_for(e.hash).contains(e));
                    if e.hash == image.hash {
                        let m = choose|m: int|
                            0 <= m < self.bucket_for(e.hash).len() && self.bucket_for(e.hash)[m]
                                == e;
                        assert(after.bucket_for(e.hash)[m] == e);
                    }
                } else {
                    let last = self.bucket_for(image.hash).len() as int;
                    assert(after.bucket_for(image.hash)[last] == image);
                }
            }
        }
    }
}

/// The images of those of `buckets` whose fingerprint lies within
/// `threshold` bits of `query`, in the order of the buckets.
pub open spec fn matching(buckets: Seq<BucketView>, query: Seq<u8>, threshold: u64) -> Seq<
    ImageView,
>
    decreases buckets.len(),
{
    if buckets.len() == 0 {
        Seq::empty()
    } else {
        matching(buckets.drop_last(), query, threshold) + (if hamming(buckets.last().hash, query)
            <= threshold {
            buckets.last().images
        } else {
            Seq::empty()
        })
    }
}

impl View for Database {
    type V = DatabaseView;

    closed spec fn view(&self) -> DatabaseView {
        DatabaseView {
            users: user_views(self.users@),
            image_hashes: bucket_views(self.image_hashes@),
            images: image_views(self.images@),
        }
    }
}

impl Database {
    /// A store without anything in it.
    pub fn new() -> (db: Database)
        ensures
            db@ == DatabaseView::empty(),
            db@.wf(),
    {
        let db = Database { users: Vec::new(), image_hashes: Vec::new(), images: Vec::new() };
        assert(db@.users =~= Seq::empty());
        assert(db@.image_hashes =~= Seq::empty());
        assert(db@.images =~= Seq::empty());
        db
    }

    /// The place of the bucket for `hash`, if an image has that fingerprint.
    fn find_bucket(&self, hash: &[u8; 8]) -> (place: Option<usize>)
        requires
            self@.wf(),
        ensures
            place is Some == self@.has_bucket(hash@),
            place matches Some(i) ==> i == self@.bucket_index(hash@) && self@.is_bucket(
                i as int,
                hash@,
            ),
    {
        let mut i: usize = 0;
        while i < self.image_hashes.len()
            invariant
                i <= self.image_hashes.len(),
                forall|j: int| 0 <= j < i ==> !self@.is_bucket(j, hash@),
                self@.wf(),
            decreases self.image_hashes.len() - i,
        {
            if same_fingerprint(&self.image_hashes[i].hash, hash) {
                proof {
                    assert(self@.is_bucket(i as int, hash@));
                    self@.lemma_bucket_index(i as int, hash@);
                }
                return Some(i);
            }
            i = i + 1;
        }
        None
    }

    /// The place of the image with the id `id`, if there is one.
    fn find_image(&self, id: &String) -> (place: Option<usize>)
        requires
            self@.wf(),
        ensures
            place is Some == self@.has_id(id@),
            place matches Some(i) ==> self@.is_image(i as int, id@) && self@.by_id(id@)
                == self@.images[i as int],
    {
        let mut i: usize = 0;
        while i < self.images.len()
            invariant
                i <= self.images.len(),
                forall|j: int| 0 <= j < i ==> !self@.is_image(j, id@),
                self@.wf(),
            decreases self.images.len() - i,
        {
            if self.images[i].id == *id {
                proof {
                    assert(self@.is_image(i as int, id@));
                    self@.lemma_image_index(i as int, id@);
                }
                return Some(i);
            }
            i = i + 1;
        }
        None
    }

    /// Whether an image of the store has the id `id`.
    pub fn contains_key(&self, id: &String) -> (found: bool)
        requires
            self@.wf(),
        ensures
            found == self@.has_id(id@),
    {
        self.find_image(id).is_some()
    }

    /// The image with the id `id`; the error of an id that no image has.
    pub fn get_by_id(&self, id: &String) -> (found: Result<Image, ImageError>)
        requires
            self@.wf(),
        ensures
            found is Ok == self@.has_id(id@),
            found matches Ok(image) ==> image@ == self@.by_id(id@),
            found matches Err(e) ==> e == ImageError::NotFound,
    {
        match self.find_image(id) {
            Some(i) => Ok(self.images[i].duplicate()),
            None => Err(ImageError::NotFound),
        }
    }

    /// The images with the fingerprint `hash`, oldest first; none where no
    /// image has it.
    pub fn bucket_for(&self, hash: &[u8; 8]) -> (bucket: Vec<Image>)
        requires
            self@.wf(),
        ensures
            image_views(bucket@) == self@.bucket_for(hash@),
    {
        match self.find_bucket(hash) {
            Some(i) => copy_images(&self.image_hashes[i].images),
            None => {
                let bucket: Vec<Image> = Vec::new();
                assert(image_views(bucket@) =~= Seq::empty());
                bucket
            },
        }
    }

    /// Every fingerprint of the store with its bucket, in the order in which
    /// the fingerprints first came.
    pub fn iter_fingerprints(&self) -> (all: Vec<HashBucket>)
        ensures
            bucket_views(all@) == self@.image_hashes,
    {
        let mut all: Vec<HashBucket> = Vec::new();
        let mut i: usize = 0;
        while i < self.image_hashes.len()
            invariant
                i <= self.image_hashes.len(),
                all.len() == i,
                forall|j: int| 0 <= j < i ==> all[j]@ == self.image_hashes[j]@,
            decreases self.image_hashes.len() - i,
        {
            let bucket = &self.image_hashes[i];
            all.push(HashBucket { hash: bucket.hash, images: copy_images(&bucket.images) });
            i = i + 1;
        }
        assert(bucket_views(all@) =~= self@.image_hashes);
        all
    }

    /// Puts `image` into the store: under its id, and at the end of the
    /// bucket of its fingerprint, which comes to be if no image had that
    /// fingerprint.
    pub fn insert(&mut self, image: Image)
        requires
            old(self)@.wf(),
            !old(self)@.has_id(image.id@),
        ensures
            final(self)@ == old(self)@.insert(image@),
            final(self)@.wf(),
    {
        let copy = image.duplicate();
        let ghost before = self@;
        let ghost buckets = self.image_hashes@;
        match self.find_bucket(&image.hash) {
            Some(i) => {
                let ghost entries = self.image_hashes[i as int].images@;
                self.image_hashes[i].images.push(copy);
                proof {
                    assert(self.image_hashes@[i as int].images@ == entries.push(copy));
                    assert(image_views(entries.push(copy)) =~= image_views(entries).push(copy@));
                    assert forall|j: int| 0 <= j < buckets.len() && j != i implies self.image_hashes@[j]
                        == buckets[j] by {}
                    assert(self@.image_hashes =~= before.insert(image@).image_hashes);
                }
            },
            None => {
                let mut images: Vec<Image> = Vec::new();
                images.push(copy);
                assert(image_views(images@) =~= seq![image@]);
                self.image_hashes.push(HashBucket { hash: image.hash, images });
                assert(self@.image_hashes =~= before.insert(image@).image_hashes);
            },
        }
        let ghost stored = self.images@;
        self.images.push(image);
        proof {
            assert(self@.images =~= before.images.push(image@));
            assert(self@.users == before.users);
            before.lemma_insert_wf(image@);
        }
    }

    /// The images of the buckets whose fingerprint lies within `threshold`
    /// bits of `query`: bucket after bucket in the order of the store, each
    /// oldest first. A threshold above the fingerprint's bit length selects
    /// every image.
    pub fn search(&self, query: &[u8; 8], threshold: u64) -> (found: Vec<Image>)
        ensures
            image_views(found@) == self@.search(query@, threshold),
    {
        let mut found: Vec<Image> = Vec::new();
        let mut i: usize = 0;
        assert(self@.image_hashes.take(0) =~= Seq::empty());
        assert(image_views(found@) =~= Seq::empty());
        while i < self.image_hashes.len()
            invariant
                i <= self.image_hashes.len(),
                image_views(found@) == matching(self@.image_hashes.take(i as int), query@, threshold),
            decreases self.image_hashes.len() - i,
        {
            let bucket = &self.image_hashes[i];
            let ghost sofar = found@;
            proof {
                let next = self@.image_hashes.take(i + 1);
                assert(next.drop_last() =~= self@.image_hashes.take(i as int));
                assert(next.last() == bucket@);
            }
            if within_threshold(&bucket.hash, query, threshold) {
                let mut k: usize = 0;
                while k < bucket.images.len()
                    invariant
                        k <= bucket.images.len(),
                        image_views(found@) == image_views(sofar) + image_views(
                            bucket.images@,
                        ).take(k as int),
                    decreases bucket.images.len() - k,
                {
                    let ghost prior = found@;
                    found.push(bucket.images[k].duplicate());
                    proof {
                        assert(image_views(found@) =~= image_views(prior).push(
                            bucket.images@[k as int]@,
                        ));
                        assert(image_views(bucket.images@).take(k + 1) =~= image_views(
                            bucket.images@,
                        ).take(k as int).push(bucket.images@[k as int]@));
                    }
                    k = k + 1;
                }
                assert(image_views(bucket.images@).take(k as int) =~= bucket@.images);
            } else {
                assert(image_views(found@) =~= image_views(sofar) + Seq::empty());
            }
            i = i + 1;
        }
        assert(self@.image_hashes.take(i as int) =~= self@.image_hashes);
        found
    }

    /// An id that no image of the store has: the ids of all its images one
    /// after another, and an underscore behind them.
    pub fn spare_id(&self) -> (id: String)
        ensures
            id@ == self@.spare_id(),
            !self@.has_id(id@),
    {
        let mut id = String::new();
        let mut i: usize = 0;
        assert(self@.images.take(0) =~= Seq::empty());
        while i < self.images.len()
            invariant
                i <= self.images.len(),
                id@ == joined_ids(self@.images.take(i as int)),
            decreases self.images.len() - i,
        {
            proof {
                assert(self@.images.take(i + 1).drop_last() =~= self@.images.take(i as int));
            }
            id.append(self.images[i].id.as_str());
            i = i + 1;
        }
        id.append("_");
        proof {
            reveal_strlit("_");
            assert(self@.images.take(i as int) =~= self@.images);
            assert("_"@ =~= seq!['_']);
            self@.lemma_spare_id_is_free();
        }
        id
    }

    /// The accounts with the name `username`, oldest first.
    pub fn users_named(&self, username: &str) -> (found: Vec<User>)
        ensures
            user_views(found@) == self@.users_named(username@),
    {
        let name = username.to_owned();
        let ghost pred = |u: UserView| u.username == username@;
        let mut found: Vec<User> = Vec::new();
        let mut i: usize = 0;
        proof {
            assert(self@.users.take(0) =~= Seq::empty());
            assert(self@.users.take(0).filter(pred) =~= Seq::empty());
            assert(user_views(found@) =~= Seq::empty());
        }
        while i < self.users.len()
            invariant
                i <= self.users.len(),
                name@ == username@,
                pred == (|u: UserView| u.username == username@),
                user_views(found@) == self@.users.take(i as int).filter(pred),
            decreases self.users.len() - i,
        {
            let ghost prior = found@;
            proof {
                assert(self@.users.take(i + 1) =~= self@.users.take(i as int).push(
                    self.users@[i as int]@,
                ));
                self@.users.take(i as int).lemma_filter_push(self.users@[i as int]@, pred);
            }
            if self.users[i].username == name {
                found.push(self.users[i].duplicate());
                assert(user_views(found@) =~= user_views(prior).push(self.users@[i as int]@));
            }
            i = i + 1;
        }
        assert(self@.users.take(i as int) =~= self@.users);
        found
    }

    /// Adds an account with the next number, unless the numbers have run
    /// out: then nothing changes.
    pub fn insert_user(&mut self, username: String, password: String) -> (added: bool)
        requires
            old(self)@.wf(),
            !old(self)@.has_user(username@),
        ensures
            final(self)@.wf(),
            added == (old(self)@.users.len() < i32::MAX),
            added ==> final(self)@ == old(self)@.insert_user(
                UserView {
                    id: (old(self)@.users.len() + 1) as i32,
                    username: username@,
                    password: password@,
                },
            ),
            !added ==> final(self)@ == old(self)@,
    {
        let n = self.users.len();
        if n >= 2147483647 {
            return false;
        }
        let ghost before = self@;
        let user = User { id: (n + 1) as i32, username, password };
        self.users.push(user);
        proof {
            let after = self@;
            assert(after.users =~= before.users.push(user@));
            assert(after.image_hashes == before.image_hashes);
            assert(after.images == before.images);
            assert forall|i: int, j: int| 0 <= i < j < after.users.len() implies #[trigger] after.users[i].username != #[trigger] after.users[j].username by {
                if j < before.users.len() {
                    assert(before.users[i].username != before.users[j].username);
                } else {
                    assert(!before.is_user(i, username@));
                }
            }
            assert forall|i: int| 0 <= i < after.images.len() implies after.bucket_for(
                (#[trigger] after.images[i]).hash,
            ).contains(after.images[i]) by {
                assert(before.bucket_for(before.images[i].hash).contains(before.images[i]));
                before.lemma_bucket_for_depends_on_buckets(after, before.images[i].hash);
            }
        }
        true
    }

    /// How many images the store holds.
    pub fn len(&self) -> (n: usize)
        ensures
            n == self@.images.len(),
    {
        self.images.len()
    }
}

} // verus!
