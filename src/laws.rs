use vstd::prelude::*;
use crate::date::{CachedDate, MAX_DATE_SECS, later};
use crate::request::{ClientRequest, ContentEncoding, Hdr, Version, decimal, encoding_name, inserted, lookup, removed, replaced};
use crate::select::{
    Warning, compressed_headers, connection, content_encoding, content_length, plan, upgrade_token,
};
use crate::writer::{WriteOutcome, WriterState, drain_step, write_when_disconnected};

verus! {

/// No entry named `n` is left after removing `n`; other names read as before.
pub proof fn lemma_lookup_removed(h: Seq<Hdr>, n: Seq<u8>, m: Seq<u8>)
    ensures
        lookup(removed(h, n), m) == (if m == n { None } else { lookup(h, m) }),
    decreases h.len(),
{
    if h.len() > 0 {
        lemma_lookup_removed(h.drop_last(), n, m);
        if h.last().0 != n {
            assert(removed(h, n).drop_last() =~= removed(h.drop_last(), n));
        }
    }
}

/// Replacing the entries of `n` by `v` leaves `n` reading `v` if it had an
/// entry, and other names reading as before.
pub proof fn lemma_lookup_replaced(h: Seq<Hdr>, n: Seq<u8>, v: Seq<u8>, m: Seq<u8>)
    ensures
        lookup(replaced(h, n, v), m) == (if m != n {
            lookup(h, m)
        } else if lookup(h, n) is Some {
            Some(v)
        } else {
            None
        }),
    decreases h.len(),
{
    if h.len() > 0 {
        let d = h.drop_last();
        lemma_lookup_replaced(d, n, v, m);
        let r = replaced(d, n, v);
        assert(r.push((n, v)).drop_last() =~= r);
        assert(r.push(h.last()).drop_last() =~= r);
    }
}

/// After inserting `v` under `n`, `n` reads `v`; other names read as before.
pub proof fn lemma_lookup_inserted(h: Seq<Hdr>, n: Seq<u8>, v: Seq<u8>, m: Seq<u8>)
    ensures
        lookup(inserted(h, n, v), m) == (if m == n { Some(v) } else { lookup(h, m) }),
{
    if lookup(h, n) is Some {
        lemma_lookup_replaced(h, n, v, m);
    } else {
        assert(h.push((n, v)).drop_last() =~= h);
    }
}

/// A binary body compressed with `e` is sent with a `Content-Length` of the
/// compressed size and a `Content-Encoding` naming `e`.
pub proof fn lemma_compressed_body_headers(h: Seq<Hdr>, e: ContentEncoding, c: Seq<u8>)
    ensures
        lookup(compressed_headers(h, e, c), content_length()) == Some(decimal(c.len())),
        lookup(compressed_headers(h, e, c), content_encoding()) == Some(encoding_name(e)),
{
    assert(content_length().len() != content_encoding().len());
    let h1 = inserted(h, content_encoding(), encoding_name(e));
    lemma_lookup_inserted(h1, content_length(), decimal(c.len()), content_length());
    lemma_lookup_inserted(h1, content_length(), decimal(c.len()), content_encoding());
    lemma_lookup_inserted(h, content_encoding(), encoding_name(e), content_encoding());
}

/// A streamed body sent as an upgrade goes out uncompressed and without a
/// `Content-Encoding` header, whatever encoding was asked for.
pub proof fn lemma_upgrade_uncompressed(r: ClientRequest)
    requires
        r.upgrade,
        r.body is Streaming || r.body is Actor,
    ensures
        plan(r).2 == ContentEncoding::Identity,
        lookup(plan(r).0, content_encoding()) is None,
{
    let h1 = if r.version == Version::Http2 {
        r.headers@
    } else {
        inserted(r.headers@, connection(), upgrade_token())
    };
    lemma_lookup_removed(h1, content_encoding(), content_encoding());
}

/// An upgrade of a streamed body on a version that forbids it yields a
/// warning, adds no `Connection` header, and is still served.
pub proof fn lemma_forbidden_upgrade(r: ClientRequest)
    requires
        r.upgrade,
        r.version == Version::Http2,
        r.body is Streaming || r.body is Actor,
    ensures
        plan(r).3 == Some(Warning::UpgradeForbidden),
        plan(r).0 == removed(r.headers@, content_encoding()),
        lookup(plan(r).0, connection()) == lookup(r.headers@, connection()),
{
    assert(connection().len() != content_encoding().len());
    lemma_lookup_removed(r.headers@, content_encoding(), connection());
}

/// Over the high watermark a would-block pauses the drain; once the
/// transport has taken enough to bring the buffer to the watermark or
/// below, the drain is over at the next would-block or when it empties.
pub proof fn lemma_backpressure(b: Seq<u8>, high: nat, n: usize)
    requires
        b.len() > high,
        0 < n <= b.len(),
        b.len() - n <= high,
    ensures
        drain_step(b, high, WriteOutcome::WouldBlock) == (b, Some(WriterState::Pause)),
        ({
            let after = drain_step(b, high, WriteOutcome::Written(n));
            after.1 == Some(WriterState::Done)
                || drain_step(after.0, high, WriteOutcome::WouldBlock).1 == Some(WriterState::Done)
        }),
{
}

/// A write of zero bytes ends the drain and leaves nothing buffered; the
/// writer is then disconnected, and a later write is counted in full while
/// the buffer stays empty.
pub proof fn lemma_peer_closed(b: Seq<u8>, high: nat, written: u64, payload: Seq<u8>)
    ensures
        drain_step(b, high, WriteOutcome::Written(0)) == (Seq::<u8>::empty(), Some(WriterState::Done)),
        ({
            let after = write_when_disconnected(drain_step(b, high, WriteOutcome::Written(0)).0, written, payload);
            &&& after.0 == Seq::<u8>::empty()
            &&& written + payload.len() <= u64::MAX ==> after.1 == written + payload.len()
        }),
{
}

/// Two reads of the date cache within one wall-clock second see the same
/// text: the second one never refreshes, unless the first fell exactly on
/// the scheduled refresh instant.
pub proof fn lemma_date_same_second(c: CachedDate, sec: i64, n1: i32, n2: i32)
    requires
        c.wf(),
        0 <= n1 <= n2 < 1_000_000_000,
        0 <= sec <= MAX_DATE_SECS,
        !(sec == c.next_sec && n1 == 0),
    ensures
        ({
            let t = c.next_refresh(sec, n1);
            !later(sec, n2, t.0, t.1)
        }),
{
}

/// A read past the second boundary after a refreshing read refreshes
/// again, to the text of its own second.
pub proof fn lemma_date_next_second(c: CachedDate, s1: i64, n1: i32, s2: i64, n2: i32)
    requires
        c.wf(),
        later(s1, n1, c.next_sec, c.next_nsec),
        0 <= s1 < s2 <= MAX_DATE_SECS,
        0 <= n2 < 1_000_000_000,
        s2 > s1 + 1 || n2 > 0,
    ensures
        ({
            let t = c.next_refresh(s1, n1);
            later(s2, n2, t.0, t.1)
        }),
{
}

} // verus!
