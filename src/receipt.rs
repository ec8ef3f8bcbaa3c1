use vstd::prelude::*;

use crate::text::{chars_of, find_pattern, matches_at, occurs_at};

verus! {

/// `-..s3BucketName..-`, written before and after the bucket.
pub open spec fn bucket_marker() -> Seq<char> {
    seq!['-', '.', '.', 's', '3', 'B', 'u', 'c', 'k', 'e', 't', 'N', 'a', 'm', 'e', '.', '.', '-']
}

/// `-..s3Key..-`, written before and after the key.
pub open spec fn key_marker() -> Seq<char> {
    seq!['-', '.', '.', 's', '3', 'K', 'e', 'y', '.', '.', '-']
}

/// What ends the bucket: its closing marker followed by the key's opening one.
pub open spec fn bucket_end_marker() -> Seq<char> {
    bucket_marker() + key_marker()
}

/// An extended receipt handle: the object's bucket and key, each between its
/// markers, then the queue's own handle.
pub open spec fn handle_text(bucket: Seq<char>, key: Seq<char>, handle: Seq<char>) -> Seq<char> {
    bucket_marker() + bucket + bucket_end_marker() + key + key_marker() + handle
}

/// Whether no occurrence of `pat` in `s` starts in `[from, to)`.
pub open spec fn absent_between(s: Seq<char>, pat: Seq<char>, from: int, to: int) -> bool {
    forall|j: int| from <= j < to ==> !occurs_at(s, pat, j)
}

/// Whether the markers after a bucket are found where they are written: the
/// bucket does not run into a bucket-end marker before its end.
pub open spec fn bucket_clear(bucket: Seq<char>) -> bool {
    absent_between(bucket + bucket_end_marker(), bucket_end_marker(), 0, bucket.len() as int)
}

/// Whether the marker after a key is found where it is written.
pub open spec fn key_clear(key: Seq<char>) -> bool {
    absent_between(key + key_marker(), key_marker(), 0, key.len() as int)
}

/// Whether a text is an extended receipt handle for some bucket and key.
pub open spec fn is_extended_handle(s: Seq<char>) -> bool {
    exists|b: Seq<char>, k: Seq<char>, h: Seq<char>|
        bucket_clear(b) && key_clear(k) && s == #[trigger] handle_text(b, k, h)
}

/// An occurrence in a stretch of `s` is an occurrence in the stretch itself.
proof fn lemma_occurs_shift(s: Seq<char>, t: Seq<char>, off: int, pat: Seq<char>, j: int)
    requires
        0 <= off,
        off + t.len() <= s.len(),
        s.subrange(off, off + t.len()) == t,
        0 <= j,
        j + pat.len() <= t.len(),
    ensures
        occurs_at(s, pat, off + j) == occurs_at(t, pat, j),
{
    assert(s.subrange(off + j, off + j + pat.len()) =~= t.subrange(j, j + pat.len()));
}

/// Where the parts of an extended handle stand, and that no bucket-end or key
/// marker occurs earlier than where it is written.
proof fn lemma_handle_parts(s: Seq<char>, b: Seq<char>, k: Seq<char>, h: Seq<char>)
    requires
        s == handle_text(b, k, h),
        bucket_clear(b),
        key_clear(k),
    ensures
        occurs_at(s, bucket_marker(), 0),
        occurs_at(s, bucket_end_marker(), 18 + b.len() as int),
        absent_between(s, bucket_end_marker(), 18, 18 + b.len() as int),
        occurs_at(s, key_marker(), 47 + b.len() + k.len() as int),
        absent_between(s, key_marker(), 47 + b.len() as int, 47 + b.len() + k.len() as int),
        s.subrange(18, 18 + b.len() as int) == b,
        s.subrange(47 + b.len() as int, 47 + b.len() + k.len() as int) == k,
        s.subrange(58 + b.len() + k.len() as int, s.len() as int) == h,
{
    let bk = bucket_end_marker();
    let mk = key_marker();
    let p1: int = 18 + b.len() as int;
    let p2: int = p1 + 29 + k.len();
    assert(s.subrange(0, 18) =~= bucket_marker());
    assert(s.subrange(18, p1 + 29) =~= b + bk);
    assert(s.subrange(p1 + 29, p2 + 11) =~= k + mk);
    assert(s.subrange(18, p1) =~= b);
    assert(s.subrange(p1 + 29, p2) =~= k);
    assert(s.subrange(p2 + 11, s.len() as int) =~= h);
    lemma_occurs_shift(s, b + bk, 18, bk, b.len() as int);
    assert((b + bk).subrange(b.len() as int, b.len() + 29 as int) =~= bk);
    lemma_occurs_shift(s, k + mk, p1 + 29, mk, k.len() as int);
    assert((k + mk).subrange(k.len() as int, k.len() + 11 as int) =~= mk);
    assert forall|j: int| 18 <= j < p1 implies !occurs_at(s, bk, j) by {
        lemma_occurs_shift(s, b + bk, 18, bk, j - 18);
    }
    assert forall|j: int| p1 + 29 <= j < p2 implies !occurs_at(s, mk, j) by {
        lemma_occurs_shift(s, k + mk, p1 + 29, mk, j - p1 - 29);
    }
}

/// The extended receipt handle for an object and the queue's own handle:
/// `-..s3BucketName..-<bucket>-..s3BucketName..--..s3Key..-<key>-..s3Key..-<handle>`.
pub fn new_extended_receipt_handle(bucket: &str, key: &str, handle: &str) -> (r: String)
    ensures
        r@ == handle_text(bucket@, key@, handle@),
{
    let mut r = String::from_str("-..s3BucketName..-");
    r.append(bucket);
    r.append("-..s3BucketName..-");
    r.append("-..s3Key..-");
    r.append(key);
    r.append("-..s3Key..-");
    r.append(handle);
    proof {
        reveal_strlit("-..s3BucketName..-");
        reveal_strlit("-..s3Key..-");
        assert("-..s3BucketName..-"@ =~= bucket_marker());
        assert("-..s3Key..-"@ =~= key_marker());
        assert(r@ =~= handle_text(bucket@, key@, handle@));
    }
    r
}

/// Splits an extended receipt handle into bucket, key and the queue's own
/// handle. Gives `None` exactly on texts that are no extended handle, as a
/// handle that the queue issued for a message kept in the queue.
pub fn parse_extended_receipt_handle(s: &str) -> (r: Option<(String, String, String)>)
    ensures
        match r {
            Some((b, k, h)) => {
                &&& s@ == handle_text(b@, k@, h@)
                &&& bucket_clear(b@)
                &&& key_clear(k@)
            },
            None => !is_extended_handle(s@),
        },
{
    let v = chars_of(s);
    let bm: Vec<char> = vec![
        '-', '.', '.', 's', '3', 'B', 'u', 'c', 'k', 'e', 't', 'N', 'a', 'm', 'e', '.', '.', '-',
    ];
    let km: Vec<char> = vec!['-', '.', '.', 's', '3', 'K', 'e', 'y', '.', '.', '-'];
    let bk: Vec<char> = vec![
        '-', '.', '.', 's', '3', 'B', 'u', 'c', 'k', 'e', 't', 'N', 'a', 'm', 'e', '.', '.', '-',
        '-', '.', '.', 's', '3', 'K', 'e', 'y', '.', '.', '-',
    ];
    assert(bm@ =~= bucket_marker());
    assert(km@ =~= key_marker());
    assert(bk@ =~= bucket_end_marker());
    if !matches_at(&v, &bm, 0) {
        proof {
            if is_extended_handle(v@) {
                let (b, k, h) = choose|b: Seq<char>, k: Seq<char>, h: Seq<char>|
                    bucket_clear(b) && key_clear(k) && v@ == #[trigger] handle_text(b, k, h);
                lemma_handle_parts(v@, b, k, h);
            }
        }
        return None;
    }
    let bucket_end = match find_pattern(&v, &bk, 18) {
        Some(i) => i,
        None => {
            proof {
                if is_extended_handle(v@) {
                    let (b, k, h) = choose|b: Seq<char>, k: Seq<char>, h: Seq<char>|
                        bucket_clear(b) && key_clear(k) && v@ == #[trigger] handle_text(b, k, h);
                    lemma_handle_parts(v@, b, k, h);
                }
            }
            return None;
        },
    };
    let n: usize = v.len();
    assert(occurs_at(v@, bk@, bucket_end as int));
    assert(bk@.len() == 29 && bucket_end + 29 <= n);
    let key_start = bucket_end + 29;
    let key_end = match find_pattern(&v, &km, key_start) {
        Some(j) => j,
        None => {
            proof {
                if is_extended_handle(v@) {
                    let (b, k, h) = choose|b: Seq<char>, k: Seq<char>, h: Seq<char>|
                        bucket_clear(b) && key_clear(k) && v@ == #[trigger] handle_text(b, k, h);
                    lemma_handle_parts(v@, b, k, h);
                    assert(bucket_end == 18 + b.len()) by {
                        if bucket_end < 18 + b.len() {
                            assert(!occurs_at(v@, bucket_end_marker(), bucket_end as int));
                        } else if bucket_end > 18 + b.len() {
                            assert(!occurs_at(v@, bucket_end_marker(), 18 + b.len() as int));
                        }
                    }
                    assert(!occurs_at(v@, key_marker(), 47 + b.len() + k.len() as int));
                }
            }
            return None;
        },
    };
    let handle_start = key_end + 11;
    let bucket = String::from_str(s.substring_char(18, bucket_end));
    let key = String::from_str(s.substring_char(key_start, key_end));
    let handle = String::from_str(s.substring_char(handle_start, v.len()));
    proof {
        let t = v@;
        assert(t.subrange(0, 18) == bucket_marker());
        assert(t.subrange(bucket_end as int, key_start as int) == bucket_end_marker());
        assert(t.subrange(key_end as int, handle_start as int) == key_marker());
        assert(t =~= handle_text(bucket@, key@, handle@));
        assert(t.subrange(18, key_start as int) =~= bucket@ + bucket_end_marker());
        assert forall|j: int| 0 <= j < bucket@.len() implies !occurs_at(
            bucket@ + bucket_end_marker(),
            bucket_end_marker(),
            j,
        ) by {
            lemma_occurs_shift(t, bucket@ + bucket_end_marker(), 18, bucket_end_marker(), j);
        }
        assert(t.subrange(key_start as int, handle_start as int) =~= key@ + key_marker());
        assert forall|j: int| 0 <= j < key@.len() implies !occurs_at(
            key@ + key_marker(),
            key_marker(),
            j,
        ) by {
            lemma_occurs_shift(t, key@ + key_marker(), key_start as int, key_marker(), j);
        }
    }
    Some((bucket, key, handle))
}

/// Extended receipt handles round-trip: the handle built from a bucket, a key
/// and a queue handle is read back as those three, and as those alone,
/// wherever the bucket and the key do not run into the markers after them.
pub proof fn lemma_receipt_handle_round_trip(bucket: Seq<char>, key: Seq<char>, handle: Seq<char>)
    requires
        bucket_clear(bucket),
        key_clear(key),
    ensures
        is_extended_handle(handle_text(bucket, key, handle)),
        forall|b: Seq<char>, k: Seq<char>, h: Seq<char>|
            bucket_clear(b) && key_clear(k) && #[trigger] handle_text(b, k, h) == handle_text(
                bucket,
                key,
                handle,
            ) ==> b == bucket && k == key && h == handle,
{
    let s = handle_text(bucket, key, handle);
    lemma_handle_parts(s, bucket, key, handle);
    assert forall|b: Seq<char>, k: Seq<char>, h: Seq<char>|
        bucket_clear(b) && key_clear(k) && #[trigger] handle_text(b, k, h) == handle_text(
            bucket,
            key,
            handle,
        ) implies b == bucket && k == key && h == handle by {
        lemma_handle_parts(s, b, k, h);
        if b.len() < bucket.len() {
            assert(!occurs_at(s, bucket_end_marker(), 18 + b.len() as int));
        } else if b.len() > bucket.len() {
            assert(!occurs_at(s, bucket_end_marker(), 18 + bucket.len() as int));
        }
        if k.len() < key.len() {
            assert(!occurs_at(s, key_marker(), 47 + b.len() + k.len() as int));
        } else if k.len() > key.len() {
            assert(!occurs_at(s, key_marker(), 47 + bucket.len() + key.len() as int));
        }
    }
}

/// A handle that does not open with the bucket marker, as every handle the
/// queue issues itself, is no extended handle.
pub proof fn lemma_plain_handle_not_extended(s: Seq<char>)
    requires
        !occurs_at(s, bucket_marker(), 0),
    ensures
        !is_extended_handle(s),
{
    if is_extended_handle(s) {
        let (b, k, h) = choose|b: Seq<char>, k: Seq<char>, h: Seq<char>|
            bucket_clear(b) && key_clear(k) && s == #[trigger] handle_text(b, k, h);
        lemma_handle_parts(s, b, k, h);
    }
}

} // verus!
