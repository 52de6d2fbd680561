//! Library-wide laws: properties that tie several operations together,
//! stated over the same specification functions the operations' own
//! contracts use.

use vstd::prelude::*;
use crate::assoc::lemma_index_of_found;
use crate::chunked::is_hex_digit;
use crate::error::ApiError;
use crate::handlers::object::{delete_object_outcome, spec_effective_body, spec_put_meta};
use crate::http::Response;
use crate::state::LocalSession;
use crate::hashing::{hex_of, hex_digit_char};
use crate::http::Headers;
use crate::metadata::MetadataView;
use crate::registry::{BucketManager, spec_list_walk, spec_list_objects};
use crate::state::AppState;
use crate::store::cid_of;
use crate::text::{spec_dec, dec_digit};

verus! {

/// User isolation: everything a session can observe — its buckets and
/// their objects — is a function of its own namespace entry alone. Two
/// registries that agree on one user's entry answer every lookup of that
/// user alike, whatever other namespaces hold.
pub proof fn law_user_isolation(m: BucketManager, n: BucketManager, u: Seq<char>)
    requires
        m.spec_user(u) == n.spec_user(u),
    ensures
        forall|b: Seq<char>| #[trigger] m.spec_bucket(u, b) == n.spec_bucket(u, b),
        forall|b: Seq<char>, k: Seq<char>| #[trigger] m.spec_object(u, b, k) == n.spec_object(
            u,
            b,
            k,
        ),
{
}

/// A walk with no prefix, no delimiter, no cursor and room for everything
/// lists exactly the objects that are not delete markers.
proof fn lemma_walk_lists_all(
    objs: Seq<(Seq<char>, MetadataView)>,
    i: int,
    max: nat,
    acc_o: Seq<(Seq<char>, MetadataView)>,
    last: Option<Seq<char>>,
)
    requires
        0 <= i <= objs.len(),
        max >= acc_o.len() + objs.len() - i,
    ensures
        spec_list_walk(objs, i, Seq::empty(), None, None, max, acc_o, Seq::empty(), last).0
            == acc_o + objs.skip(i).filter(
            |p: (Seq<char>, MetadataView)| !p.1.is_delete_marker,
        ),
        spec_list_walk(objs, i, Seq::empty(), None, None, max, acc_o, Seq::empty(), last).2
            == false,
    decreases objs.len() - i,
{
    let pred = |p: (Seq<char>, MetadataView)| !p.1.is_delete_marker;
    if i >= objs.len() {
        reveal(Seq::filter);
        assert(objs.skip(i) =~= Seq::<(Seq<char>, MetadataView)>::empty());
        assert(acc_o + objs.skip(i).filter(pred) =~= acc_o);
    } else {
        let k = objs[i].0;
        let m = objs[i].1;
        assert(k.take(0) =~= Seq::<char>::empty());
        assert(crate::text::spec_has_prefix(k, Seq::empty()));
        assert(objs.skip(i) =~= seq![objs[i]] + objs.skip(i + 1));
        Seq::filter_distributes_over_add(seq![objs[i]], objs.skip(i + 1), pred);
        reveal(Seq::filter);
        assert(seq![objs[i]].drop_last() =~= Seq::<(Seq<char>, MetadataView)>::empty());
        if m.is_delete_marker {
            lemma_walk_lists_all(objs, i + 1, max, acc_o, last);
            let single = seq![objs[i]];
            assert(single.drop_last() =~= Seq::<(Seq<char>, MetadataView)>::empty());
            assert(!pred(single.last()));
            assert(single.filter(pred) == single.drop_last().filter(pred));
            assert(Seq::<(Seq<char>, MetadataView)>::empty().filter(pred)
                =~= Seq::<(Seq<char>, MetadataView)>::empty());
            assert(single.filter(pred) =~= Seq::<(Seq<char>, MetadataView)>::empty());
            assert(acc_o + objs.skip(i).filter(pred) =~= acc_o + objs.skip(i + 1).filter(pred));
        } else {
            lemma_walk_lists_all(objs, i + 1, max, acc_o.push((k, m)), Some(k));
            let single = seq![objs[i]];
            assert(single.drop_last() =~= Seq::<(Seq<char>, MetadataView)>::empty());
            assert(pred(single.last()));
            assert(single.filter(pred) == single.drop_last().filter(pred).push(single.last()));
            assert(Seq::<(Seq<char>, MetadataView)>::empty().filter(pred)
                =~= Seq::<(Seq<char>, MetadataView)>::empty());
            assert(single.filter(pred) =~= seq![objs[i]]);
            assert(acc_o.push((k, m)) + objs.skip(i + 1).filter(pred) =~= acc_o + objs.skip(
                i,
            ).filter(pred));
        }
    }
}

/// Multipart confinement, the visibility half: an object standing in a
/// bucket — as the one a completed upload wrote — appears in an
/// unfiltered listing with room for the whole bucket; delete markers do
/// not. (That aborted and expired uploads write nothing is part of the
/// abort and expiry contracts themselves.)
pub proof fn law_stored_object_is_listed(
    m: BucketManager,
    user: Seq<char>,
    bucket: Seq<char>,
    key: Seq<char>,
    max: nat,
)
    requires
        m.spec_bucket(user, bucket) is Some,
        m.spec_object(user, bucket, key) matches Some(meta) && !meta.is_delete_marker,
        max >= m.spec_bucket(user, bucket).unwrap().objects.len(),
    ensures
        exists|j: int|
            #![trigger spec_list_objects(
                m.spec_bucket(user, bucket).unwrap().objects,
                Seq::empty(),
                None,
                None,
                max,
            ).0[j]]
            0 <= j < spec_list_objects(
                m.spec_bucket(user, bucket).unwrap().objects,
                Seq::empty(),
                None,
                None,
                max,
            ).0.len() && spec_list_objects(
                m.spec_bucket(user, bucket).unwrap().objects,
                Seq::empty(),
                None,
                None,
                max,
            ).0[j].0 == key && spec_list_objects(
                m.spec_bucket(user, bucket).unwrap().objects,
                Seq::empty(),
                None,
                None,
                max,
            ).0[j].1 == m.spec_object(user, bucket, key).unwrap(),
{
    let objs = m.spec_bucket(user, bucket).unwrap().objects;
    let meta = m.spec_object(user, bucket, key).unwrap();
    let pred = |p: (Seq<char>, MetadataView)| !p.1.is_delete_marker;
    lemma_walk_lists_all(objs, 0, max, Seq::empty(), None);
    assert(objs.skip(0) =~= objs);
    let i = crate::assoc::spec_index_of(objs, key);
    lemma_index_of_found(objs, key);
    assert(objs[i].0 == key);
    assert(objs[i].1 == meta);
    objs.filter_lemma(pred);
    assert(pred(objs[i]));
    assert(objs.filter(pred).contains(objs[i]));
    let j = choose|j: int| 0 <= j < objs.filter(pred).len() && objs.filter(pred)[j] == objs[i];
    assert(Seq::empty() + objs.filter(pred) =~= objs.filter(pred));
    let listed = spec_list_objects(objs, Seq::empty(), None, None, max).0;
    assert(listed[j].0 == key && listed[j].1 == meta);
}

/// Every character the decimal rendering uses is a digit, and the first
/// is not zero when the number is not zero.
proof fn lemma_dec_shape(n: nat)
    ensures
        spec_dec(n).len() >= 1,
        forall|i: int| 0 <= i < spec_dec(n).len() ==> 48 <= #[trigger] spec_dec(n)[i] as int <= 57,
        n > 0 ==> spec_dec(n)[0] != '0',
    decreases n,
{
    if n < 10 {
        assert(spec_dec(n)[0] == dec_digit(n));
        if n > 0 {
            assert(dec_digit(n) as int == 48 + n);
            assert(dec_digit(0) as int == 48);
            assert('0' as int == 48);
        }
    } else {
        lemma_dec_shape(n / 10);
        assert forall|i: int|
            0 <= i < spec_dec(n).len() implies 48 <= #[trigger] spec_dec(n)[i] as int <= 57 by {
            if i < spec_dec(n / 10).len() {
                assert(spec_dec(n)[i] == spec_dec(n / 10)[i]);
            } else {
                assert(spec_dec(n)[i] == dec_digit(n % 10));
            }
        }
        assert(spec_dec(n)[0] == spec_dec(n / 10)[0]);
    }
}

/// Every character of a hexadecimal rendering is a hexadecimal digit, and
/// the rendering is two characters per byte.
proof fn lemma_hex_shape(bytes: Seq<u8>)
    ensures
        hex_of(bytes).len() == 2 * bytes.len(),
        forall|i: int| 0 <= i < hex_of(bytes).len() ==> is_hex_digit(
            #[trigger] hex_of(bytes)[i] as u8,
        ) && hex_of(bytes)[i] as int <= 127,
    decreases bytes.len(),
{
    if bytes.len() > 0 {
        lemma_hex_shape(bytes.drop_last());
        assert forall|i: int|
            0 <= i < hex_of(bytes).len() implies is_hex_digit(#[trigger] hex_of(bytes)[i] as u8)
            && hex_of(bytes)[i] as int <= 127 by {
            if i < hex_of(bytes.drop_last()).len() {
                assert(hex_of(bytes)[i] == hex_of(bytes.drop_last())[i]);
            } else if i == hex_of(bytes).len() - 2 {
                assert(hex_of(bytes)[i] == hex_digit_char((bytes.last() / 16) as nat));
            } else {
                assert(hex_of(bytes)[i] == hex_digit_char((bytes.last() % 16) as nat));
            }
        }
    }
}

/// ETag shape, the multipart half: with `digest` the BLAKE3 digest of
/// the concatenated part cids, the etag a completed upload stores —
/// `spec_multipart_etag`, by its definition — is thirty-two hexadecimal
/// digits, a dash, and the part count in decimal without a leading zero.
/// (The single-shot half — ETag equal to the content id — is the put
/// contract itself.)
pub proof fn law_multipart_etag_shape(digest: Seq<u8>, count: nat)
    requires
        digest.len() == 32,
        count >= 1,
    ensures
        ({
            let e = hex_of(digest.take(16)) + "-"@ + spec_dec(count);
            &&& e.len() >= 34
            &&& forall|i: int| 0 <= i < 32 ==> is_hex_digit(#[trigger] e[i] as u8)
            &&& e[32] == '-'
            &&& forall|i: int| 33 <= i < e.len() ==> 48 <= #[trigger] e[i] as int <= 57
            &&& e[33] != '0'
        }),
{
    let hx = hex_of(digest.take(16));
    lemma_hex_shape(digest.take(16));
    lemma_dec_shape(count);
    let e = hx + "-"@ + spec_dec(count);
    reveal_strlit("-");
    assert(hx.len() == 32);
    assert forall|i: int| 0 <= i < 32 implies is_hex_digit(#[trigger] e[i] as u8) by {
        assert(e[i] == hx[i]);
    }
    assert(e[32] == '-');
    assert forall|i: int| 33 <= i < e.len() implies 48 <= #[trigger] e[i] as int <= 57 by {
        assert(e[i] == spec_dec(count)[i - 33]);
    }
    assert(e[33] == spec_dec(count)[0]);
}

/// Round trip: once a put's contract holds of a state, the stored
/// object's content id names exactly the bytes that were put, and its
/// etag and size are the content id and byte count — which is what the
/// read handlers then serve, by their own contracts.
pub proof fn law_round_trip(
    state: AppState,
    headers: Headers,
    body: Seq<u8>,
    user: Seq<char>,
    bucket: Seq<char>,
    key: Seq<char>,
    now_ms: u64,
)
    requires
        state.bucket_manager.spec_object(user, bucket, key) == Some(
            spec_put_meta(headers, body, user, now_ms),
        ),
        state.block_store.spec_get_block(cid_of(spec_effective_body(headers, body))) == Some(
            spec_effective_body(headers, body),
        ),
        spec_effective_body(headers, body).len() <= u64::MAX,
    ensures
        state.block_store.spec_get_block(
            state.bucket_manager.spec_object(user, bucket, key).unwrap().cid,
        ) == Some(spec_effective_body(headers, body)),
        state.bucket_manager.spec_object(user, bucket, key).unwrap().size as nat
            == spec_effective_body(headers, body).len(),
        state.bucket_manager.spec_object(user, bucket, key).unwrap().etag == cid_of(
            spec_effective_body(headers, body),
        ),
{
}


/// Idempotent delete: once a delete of a key has answered, by its
/// contract, with a 204 — the bucket still standing and the key unbound —
/// any further delete of the same key must again answer 204 and leave the
/// registry exactly as it was.
pub proof fn law_idempotent_delete(
    pre: AppState,
    mid: AppState,
    post: AppState,
    session: LocalSession,
    bucket: Seq<char>,
    key: Seq<char>,
    hr1: Result<Response, ApiError>,
    hr2: Result<Response, ApiError>,
)
    requires
        delete_object_outcome(pre, mid, session, bucket, key, hr1),
        hr1 is Ok,
        delete_object_outcome(mid, post, session, bucket, key, hr2),
    ensures
        hr2 matches Ok(resp) && resp.status == 204,
        post.bucket_manager == mid.bucket_manager,
{
}

} // verus!
