//! What holds of searches and of stores that grow by insertion.

use vstd::prelude::*;
use crate::database::{matching, BucketView, DatabaseView};
use crate::fingerprint::{
    clamped, hamming, lemma_clamped_threshold, lemma_hamming_zero_iff_equal, FINGERPRINT_BYTES,
};
use crate::images::ImageView;

verus! {

/// An image is among the matches exactly when it stands in a bucket whose
/// fingerprint lies within the threshold.
pub proof fn lemma_matching_contains(
    buckets: Seq<BucketView>,
    query: Seq<u8>,
    threshold: u64,
    image: ImageView,
)
    ensures
        matching(buckets, query, threshold).contains(image) <==> exists|i: int|
            0 <= i < buckets.len() && hamming(#[trigger] buckets[i].hash, query) <= threshold
                && buckets[i].images.contains(image),
    decreases buckets.len(),
{
    if buckets.len() > 0 {
        let front = buckets.drop_last();
        let last = buckets.last();
        lemma_matching_contains(front, query, threshold, image);
        let head = matching(front, query, threshold);
        let tail = if hamming(last.hash, query) <= threshold {
            last.images
        } else {
            Seq::empty()
        };
        assert(matching(buckets, query, threshold) == head + tail);
        if matching(buckets, query, threshold).contains(image) {
            let m = choose|m: int|
                0 <= m < (head + tail).len() && (head + tail)[m] == image;
            if m < head.len() {
                assert(head[m] == image);
                assert(head.contains(image));
                let i = choose|i: int|
                    0 <= i < front.len() && hamming(#[trigger] front[i].hash, query) <= threshold
                        && front[i].images.contains(image);
                assert(buckets[i] == front[i]);
            } else {
                assert(tail[m - head.len()] == image);
                assert(tail.contains(image));
                assert(buckets[buckets.len() - 1] == last);
            }
        }
        if exists|i: int|
            0 <= i < buckets.len() && hamming(#[trigger] buckets[i].hash, query) <= threshold
                && buckets[i].images.contains(image) {
            let i = choose|i: int|
                0 <= i < buckets.len() && hamming(#[trigger] buckets[i].hash, query) <= threshold
                    && buckets[i].images.contains(image);
            if i < front.len() {
                assert(front[i] == buckets[i]);
                assert(head.contains(image));
                let m = choose|m: int| 0 <= m < head.len() && head[m] == image;
                assert((head + tail)[m] == image);
            } else {
                let m = choose|m: int| 0 <= m < tail.len() && tail[m] == image;
                assert((head + tail)[head.len() + m] == image);
            }
        }
    }
}

/// A search with a larger threshold finds every image that a search with a
/// smaller one finds.
pub proof fn lemma_threshold_monotonic(db: DatabaseView, query: Seq<u8>, t1: u64, t2: u64)
    requires
        t1 <= t2,
    ensures
        forall|image: ImageView|
            db.search(query, t1).contains(image) ==> db.search(query, t2).contains(image),
        db.search(query, t1).to_set().subset_of(db.search(query, t2).to_set()),
{
    assert forall|image: ImageView| db.search(query, t1).contains(image) implies db.search(
        query,
        t2,
    ).contains(image) by {
        lemma_matching_contains(db.image_hashes, query, t1, image);
        lemma_matching_contains(db.image_hashes, query, t2, image);
    }
}

/// A threshold above the fingerprint's bit length finds what that length
/// finds: every image.
pub proof fn lemma_search_clamped(db: DatabaseView, query: Seq<u8>, threshold: u64)
    requires
        query.len() == FINGERPRINT_BYTES,
    ensures
        db.search(query, threshold) == db.search(query, clamped(threshold)),
{
    lemma_matching_clamped(db.image_hashes, query, threshold);
}

/// Clamping the threshold changes no match.
pub proof fn lemma_matching_clamped(buckets: Seq<BucketView>, query: Seq<u8>, threshold: u64)
    requires
        query.len() == FINGERPRINT_BYTES,
    ensures
        matching(buckets, query, threshold) == matching(buckets, query, clamped(threshold)),
    decreases buckets.len(),
{
    if buckets.len() > 0 {
        lemma_matching_clamped(buckets.drop_last(), query, threshold);
        lemma_clamped_threshold(buckets.last().hash, query, threshold);
    }
}

/// A store without images has no buckets.
pub proof fn lemma_no_images_no_buckets(db: DatabaseView)
    requires
        db.wf(),
        db.images.len() == 0,
    ensures
        db.image_hashes.len() == 0,
{
    if db.image_hashes.len() > 0 {
        assert(db.image_hashes[0].images.len() > 0);
        assert(db.images.contains(db.image_hashes[0].images[0]));
    }
}

/// A search in a store without images finds nothing, whatever the query and
/// the threshold.
pub proof fn lemma_empty_store_search(db: DatabaseView, query: Seq<u8>, threshold: u64)
    requires
        db.wf(),
        db.images.len() == 0,
    ensures
        db.search(query, threshold) == Seq::<ImageView>::empty(),
{
    lemma_no_images_no_buckets(db);
}

/// After an image was put into a store, a search for its fingerprint finds
/// it, at threshold zero and so at every threshold.
pub proof fn lemma_exact_match_retrieval(db: DatabaseView, image: ImageView, threshold: u64)
    requires
        db.wf(),
        !db.has_id(image.id),
        image.hash.len() == FINGERPRINT_BYTES,
    ensures
        db.insert(image).search(image.hash, 0).contains(image),
        db.insert(image).search(image.hash, threshold).contains(image),
{
    let after = db.insert(image);
    db.lemma_insert_wf(image);
    let bucket = after.bucket_for(image.hash);
    assert(bucket[db.bucket_for(image.hash).len() as int] == image);
    assert(bucket.contains(image));
    assert(after.has_bucket(image.hash));
    let i = after.bucket_index(image.hash);
    assert(after.is_bucket(i, image.hash));
    lemma_hamming_zero_iff_equal(image.hash, image.hash);
    assert(hamming(after.image_hashes[i].hash, image.hash) <= 0);
    lemma_matching_contains(after.image_hashes, image.hash, 0, image);
    lemma_threshold_monotonic(after, image.hash, 0, threshold);
}

/// A search at threshold zero finds the images of the query's own
/// fingerprint, and no others.
pub proof fn lemma_exact_search_is_bucket(db: DatabaseView, query: Seq<u8>)
    requires
        db.wf(),
        query.len() == FINGERPRINT_BYTES,
    ensures
        db.search(query, 0) == db.bucket_for(query),
{
    lemma_matching_exact(db, db.image_hashes.len() as int, query);
    assert(db.image_hashes.take(db.image_hashes.len() as int) =~= db.image_hashes);
}

/// Among the first `n` buckets, threshold zero selects the bucket of the
/// query and no other.
proof fn lemma_matching_exact(db: DatabaseView, n: int, query: Seq<u8>)
    requires
        db.wf(),
        query.len() == FINGERPRINT_BYTES,
        0 <= n <= db.image_hashes.len(),
    ensures
        matching(db.image_hashes.take(n), query, 0) == (if db.has_bucket(query)
            && db.bucket_index(query) < n {
            db.bucket_for(query)
        } else {
            Seq::empty()
        }),
    decreases n,
{
    let part = db.image_hashes.take(n);
    if n > 0 {
        lemma_matching_exact(db, n - 1, query);
        assert(part.drop_last() =~= db.image_hashes.take(n - 1));
        let last = part.last();
        assert(last == db.image_hashes[n - 1]);
        assert(last.hash.len() == FINGERPRINT_BYTES);
        lemma_hamming_zero_iff_equal(last.hash, query);
        let front = matching(part.drop_last(), query, 0);
        if last.hash == query {
            assert(db.is_bucket(n - 1, query));
            db.lemma_bucket_index(n - 1, query);
            assert(front + last.images =~= last.images);
        } else {
            if db.has_bucket(query) {
                assert(db.is_bucket(db.bucket_index(query), query));
            }
            assert(front + Seq::<ImageView>::empty() =~= front);
        }
    }
}

/// The store after the images of `images` were put into it one after
/// another.
pub open spec fn insert_all(db: DatabaseView, images: Seq<ImageView>) -> DatabaseView
    decreases images.len(),
{
    if images.len() == 0 {
        db
    } else {
        insert_all(db, images.drop_last()).insert(images.last())
    }
}

/// Whether each of `images` has an id that no image of `db` and no other of
/// `images` has.
pub open spec fn fresh_ids(db: DatabaseView, images: Seq<ImageView>) -> bool {
    &&& forall|i: int| 0 <= i < images.len() ==> !db.has_id(#[trigger] images[i].id)
    &&& forall|i: int, j: int|
        0 <= i < j < images.len() ==> #[trigger] images[i].id != #[trigger] images[j].id
}

/// The ids of a store after insertions are those it had and those of the
/// images put into it.
pub proof fn lemma_insert_all_ids(db: DatabaseView, images: Seq<ImageView>, id: Seq<char>)
    ensures
        insert_all(db, images).has_id(id) <==> db.has_id(id) || exists|i: int|
            0 <= i < images.len() && #[trigger] images[i].id == id,
        insert_all(db, images).images == db.images + images,
    decreases images.len(),
{
    if images.len() == 0 {
        assert(db.images + images =~= db.images);
    } else {
        let front = images.drop_last();
        let mid = insert_all(db, front);
        let after = insert_all(db, images);
        lemma_insert_all_ids(db, front, id);
        assert(after.images =~= db.images + images);
        if after.has_id(id) {
            let m = choose|m: int| after.is_image(m, id);
            assert(after.is_image(m, id));
            if m < mid.images.len() {
                assert(mid.is_image(m, id));
                if !db.has_id(id) {
                    let i = choose|i: int| 0 <= i < front.len() && #[trigger] front[i].id == id;
                    assert(images[i].id == id);
                }
            } else {
                assert(images[images.len() - 1].id == id);
            }
        }
        if db.has_id(id) {
            let m = choose|m: int| db.is_image(m, id);
            assert(db.is_image(m, id));
            assert(after.is_image(m, id));
        }
        if exists|i: int| 0 <= i < images.len() && #[trigger] images[i].id == id {
            let i = choose|i: int| 0 <= i < images.len() && #[trigger] images[i].id == id;
            assert(after.is_image(db.images.len() + i, id));
        }
    }
}

/// No update is lost and no two images ever share an id: after any number of
/// images with ids of their own were put into a store, it is a store still,
/// the bucket of each fingerprint holds what it held and, behind that, every
/// inserted image of that fingerprint once, in the order of insertion.
pub proof fn lemma_no_lost_updates(db: DatabaseView, images: Seq<ImageView>, hash: Seq<u8>)
    requires
        db.wf(),
        fresh_ids(db, images),
        forall|i: int| 0 <= i < images.len() ==> (#[trigger] images[i]).hash.len()
            == FINGERPRINT_BYTES,
    ensures
        insert_all(db, images).wf(),
        insert_all(db, images).ids_distinct(),
        insert_all(db, images).bucket_for(hash) == db.bucket_for(hash) + images.filter(
            |image: ImageView| image.hash == hash,
        ),
    decreases images.len(),
{
    let of_hash = |image: ImageView| image.hash == hash;
    if images.len() == 0 {
        assert(images.filter(of_hash) =~= Seq::empty());
        assert(db.bucket_for(hash) + Seq::<ImageView>::empty() =~= db.bucket_for(hash));
    } else {
        let front = images.drop_last();
        let last = images.last();
        let mid = insert_all(db, front);
        assert forall|i: int| 0 <= i < front.len() implies (#[trigger] front[i]).hash.len()
            == FINGERPRINT_BYTES by {
            assert(front[i] == images[i]);
        }
        assert(fresh_ids(db, front)) by {
            assert forall|i: int| 0 <= i < front.len() implies !db.has_id(
                #[trigger] front[i].id,
            ) by {
                assert(front[i] == images[i]);
            }
            assert forall|i: int, j: int| 0 <= i < j < front.len() implies #[trigger] front[i].id
                != #[trigger] front[j].id by {
                assert(front[i] == images[i]);
                assert(front[j] == images[j]);
            }
        }
        lemma_no_lost_updates(db, front, hash);
        lemma_insert_all_ids(db, front, last.id);
        assert(!mid.has_id(last.id)) by {
            if exists|i: int| 0 <= i < front.len() && #[trigger] front[i].id == last.id {
                let i = choose|i: int| 0 <= i < front.len() && #[trigger] front[i].id == last.id;
                assert(images[i].id != images[images.len() - 1].id);
            }
        }
        mid.lemma_insert_wf(last);
        assert(images =~= front.push(last));
        front.lemma_filter_push(last, of_hash);
        if last.hash == hash {
            assert(images.filter(of_hash) == front.filter(of_hash).push(last));
            assert(insert_all(db, images).bucket_for(hash) =~= db.bucket_for(hash)
                + images.filter(of_hash));
        } else {
            assert(images.filter(of_hash) == front.filter(of_hash));
        }
    }
}

/// After `n` images of one fingerprint, each with an id of its own, were put
/// into a store, in whatever order, the bucket of that fingerprint holds
/// what it held and exactly those `n` images behind it: none is missing and
/// none stands twice.
pub proof fn lemma_one_bucket_takes_all(db: DatabaseView, images: Seq<ImageView>, hash: Seq<u8>)
    requires
        db.wf(),
        fresh_ids(db, images),
        hash.len() == FINGERPRINT_BYTES,
        forall|i: int| 0 <= i < images.len() ==> (#[trigger] images[i]).hash == hash,
    ensures
        insert_all(db, images).wf(),
        insert_all(db, images).bucket_for(hash) == db.bucket_for(hash) + images,
        insert_all(db, images).bucket_for(hash).len() == db.bucket_for(hash).len() + images.len(),
        insert_all(db, images).entry_ids_distinct(),
{
    lemma_no_lost_updates(db, images, hash);
    let of_hash = |image: ImageView| image.hash == hash;
    lemma_filter_keeps_all(images, of_hash);
}

/// A filter that every item passes keeps the list as it is.
proof fn lemma_filter_keeps_all(images: Seq<ImageView>, pred: spec_fn(ImageView) -> bool)
    requires
        forall|i: int| 0 <= i < images.len() ==> pred(#[trigger] images[i]),
    ensures
        images.filter(pred) == images,
    decreases images.len(),
{
    reveal(Seq::filter);
    if images.len() > 0 {
        let front = images.drop_last();
        assert forall|i: int| 0 <= i < front.len() implies pred(#[trigger] front[i]) by {
            assert(front[i] == images[i]);
        }
        lemma_filter_keeps_all(front, pred);
        assert(images =~= front.push(images.last()));
    }
}

} // verus!
