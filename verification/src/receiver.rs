//! The receiver: pulls its own keypairs in fixed windows, asks an injected
//! reports fetcher for the relayed reports, and recovers one byte per key by
//! majority vote over the reports' status bytes.
//!
//! The first key of the stream that no report mentions marks the end of the
//! transmission: decoding stops there, in the window and overall.

use vstd::prelude::*;

use crate::bytes::{append_bytes, bytes_eq, copy_bytes};
use crate::channel::{
    emitted_state, lemma_stream_step, nth_state, state_scalar, stream_ok_upto, TwoPartyChannel,
};
use crate::codec::OfflineFindingPublicKey;
use crate::crypto::{point_bytes, sha256_of};
use crate::kex::{scalar_err, scalar_ok};
use crate::keys::{PublicKey, SecretKey};
use crate::{CurveError, Error, TransportError};

verus! {

/// One decrypted report from the finding service: the key hash it was filed
/// under and the status byte it carries.
#[derive(Clone, Debug, PartialEq, Eq)]
pub struct Report {
    /// SHA-256 of the compressed advertising public key.
    pub id: Vec<u8>,
    /// The status byte: the smuggled data byte.
    pub status: u8,
}

/// The report carries the given id and status.
pub open spec fn report_matches(r: Report, id: Seq<u8>, s: u8) -> bool {
    r.id@ == id && r.status == s
}

/// How many reports carry the given id and status.
pub open spec fn count_matching(reports: Seq<Report>, id: Seq<u8>, s: u8) -> nat
    decreases reports.len(),
{
    if reports.len() == 0 {
        0
    } else {
        count_matching(reports.drop_last(), id, s) + if report_matches(
            reports.last(),
            id,
            s,
        ) {
            1nat
        } else {
            0nat
        }
    }
}

/// Some report carries the given id.
pub open spec fn id_present(reports: Seq<Report>, id: Seq<u8>) -> bool {
    exists|j: int| 0 <= j < reports.len() && (#[trigger] reports[j]).id@ == id
}

/// `s` is the modal status byte for `id`: it occurs, no status occurs more
/// often, and among equally frequent statuses it is the lowest byte value.
pub open spec fn is_modal_status(reports: Seq<Report>, id: Seq<u8>, s: u8) -> bool {
    &&& count_matching(reports, id, s) >= 1
    &&& forall|t: u8| #[trigger] count_matching(reports, id, t) <= count_matching(
        reports,
        id,
        s,
    )
    &&& forall|t: u8| #[trigger] count_matching(reports, id, t) == count_matching(
        reports,
        id,
        s,
    ) ==> s <= t
}

/// The modal status byte for `id`.
pub open spec fn modal_status(reports: Seq<Report>, id: Seq<u8>) -> u8 {
    choose|s: u8| is_modal_status(reports, id, s)
}

/// A report at index `j` with the given id makes its status count positive.
proof fn lemma_count_witness(reports: Seq<Report>, id: Seq<u8>, j: int)
    requires
        0 <= j < reports.len(),
        reports[j].id@ == id,
    ensures
        count_matching(reports, id, reports[j].status) >= 1,
    decreases reports.len(),
{
    if j == reports.len() - 1 {
        assert(report_matches(reports.last(), id, reports[j].status));
    } else {
        assert(reports.drop_last()[j] == reports[j]);
        lemma_count_witness(reports.drop_last(), id, j);
    }
}

/// Counts the reports carrying the given id and status.
fn count_reports(reports: &Vec<Report>, id: &Vec<u8>, s: u8) -> (c: usize)
    ensures
        c == count_matching(reports@, id@, s),
{
    let mut c: usize = 0;
    let mut j: usize = 0;
    while j < reports.len()
        invariant
            j <= reports@.len(),
            c == count_matching(reports@.take(j as int), id@, s),
            c <= j,
        decreases reports@.len() - j,
    {
        proof {
            assert(reports@.take(j + 1).drop_last() =~= reports@.take(j as int));
            assert(reports@.take(j + 1).last() == reports@[j as int]);
        }
        if bytes_eq(&reports[j].id, id) && reports[j].status == s {
            c += 1;
        }
        j += 1;
    }
    proof {
        assert(reports@.take(reports@.len() as int) =~= reports@);
    }
    c
}

/// Decides whether any report carries the given id.
pub fn has_report(reports: &Vec<Report>, id: &Vec<u8>) -> (r: bool)
    ensures
        r == id_present(reports@, id@),
{
    let mut j: usize = 0;
    while j < reports.len()
        invariant
            j <= reports@.len(),
            forall|q: int| 0 <= q < j ==> (#[trigger] reports@[q]).id@ != id@,
        decreases reports@.len() - j,
    {
        if bytes_eq(&reports[j].id, id) {
            return true;
        }
        j += 1;
    }
    false
}

/// The modal status byte among the reports carrying `id`: the most frequent
/// status, ties broken towards the lowest byte value.
pub fn majority_status(reports: &Vec<Report>, id: &Vec<u8>) -> (r: u8)
    requires
        id_present(reports@, id@),
    ensures
        is_modal_status(reports@, id@, r),
        r == modal_status(reports@, id@),
{
    let mut best_s: u8 = 0;
    let mut best_c: usize = count_reports(reports, id, 0);
    let mut t: usize = 1;
    while t < 256
        invariant
            1 <= t <= 256,
            best_s < t,
            best_c == count_matching(reports@, id@, best_s),
            forall|u: u8| u < t ==> #[trigger] count_matching(reports@, id@, u) <= best_c,
            forall|u: u8| u < t && #[trigger] count_matching(reports@, id@, u) == best_c
                ==> best_s <= u,
        decreases 256 - t,
    {
        let c = count_reports(reports, id, t as u8);
        if c > best_c {
            best_s = t as u8;
            best_c = c;
        }
        t += 1;
    }
    proof {
        let j = choose|j: int| 0 <= j < reports@.len() && (#[trigger] reports@[j]).id@ == id@;
        lemma_count_witness(reports@, id@, j);
        assert(count_matching(reports@, id@, reports@[j].status) <= best_c);
        assert(is_modal_status(reports@, id@, best_s));
        let m = modal_status(reports@, id@);
        assert(is_modal_status(reports@, id@, m));
        assert(count_matching(reports@, id@, m) == count_matching(reports@, id@, best_s));
        assert(best_s == m);
    }
    best_s
}

/// The views of a vector of id byte-vectors.
pub open spec fn ids_view(ids: Seq<Vec<u8>>) -> Seq<Seq<u8>> {
    ids.map_values(|v: Vec<u8>| v@)
}

/// How many leading ids of the window have at least one report.
pub open spec fn decoded_len(ids: Seq<Seq<u8>>, reports: Seq<Report>) -> nat
    decreases ids.len(),
{
    if ids.len() == 0 {
        0
    } else if !id_present(reports, ids.first()) {
        0
    } else {
        1 + decoded_len(ids.drop_first(), reports)
    }
}

/// The bytes a window decodes to: the modal status of each leading id that
/// has reports, in window order.
pub open spec fn decoded_bytes(ids: Seq<Seq<u8>>, reports: Seq<Report>) -> Seq<u8> {
    Seq::new(decoded_len(ids, reports), |i: int| modal_status(reports, ids[i]))
}

/// `decoded_len` is the position of the first id without reports, or the
/// window length if every id has one.
proof fn lemma_decoded_len_is(ids: Seq<Seq<u8>>, reports: Seq<Report>, k: nat)
    requires
        k <= ids.len(),
        forall|j: int| 0 <= j < k ==> id_present(reports, #[trigger] ids[j]),
        k < ids.len() ==> !id_present(reports, ids[k as int]),
    ensures
        decoded_len(ids, reports) == k,
    decreases ids.len(),
{
    if ids.len() > 0 && k > 0 {
        assert(id_present(reports, ids[0]));
        assert forall|j: int| 0 <= j < k - 1 implies id_present(
            reports,
            #[trigger] ids.drop_first()[j],
        ) by {
            assert(ids.drop_first()[j] == ids[j + 1]);
        }
        if k - 1 < ids.len() - 1 {
            assert(ids.drop_first()[k - 1] == ids[k as int]);
        }
        lemma_decoded_len_is(ids.drop_first(), reports, (k - 1) as nat);
    }
}

/// `decoded_len` never exceeds the window length.
proof fn lemma_decoded_len_le(ids: Seq<Seq<u8>>, reports: Seq<Report>)
    ensures
        decoded_len(ids, reports) <= ids.len(),
    decreases ids.len(),
{
    if ids.len() > 0 && id_present(reports, ids.first()) {
        lemma_decoded_len_le(ids.drop_first(), reports);
    }
}

/// Decodes one window: for each id in window order, the modal status of its
/// reports, stopping at the first id that no report mentions.  The flag says
/// whether such a gap stopped the window early.
pub fn decode_window(ids: &Vec<Vec<u8>>, reports: &Vec<Report>) -> (out: (Vec<u8>, bool))
    ensures
        out.0@ == decoded_bytes(ids_view(ids@), reports@),
        out.1 == (decoded_len(ids_view(ids@), reports@) < ids@.len()),
{
    let ghost iv = ids_view(ids@);
    let mut out: Vec<u8> = Vec::new();
    let mut i: usize = 0;
    loop
        invariant
            i <= ids@.len(),
            iv == ids_view(ids@),
            iv.len() == ids@.len(),
            out@.len() == i,
            forall|j: int| 0 <= j < i ==> id_present(reports@, #[trigger] iv[j]),
            forall|j: int| 0 <= j < i ==> out@[j] == modal_status(reports@, iv[j]),
        ensures
            i <= ids@.len(),
            out@.len() == i,
            forall|j: int| 0 <= j < i ==> id_present(reports@, #[trigger] iv[j]),
            forall|j: int| 0 <= j < i ==> out@[j] == modal_status(reports@, iv[j]),
            i < ids@.len() ==> !id_present(reports@, iv[i as int]),
        decreases ids@.len() - i,
    {
        if i == ids.len() {
            break;
        }
        if !has_report(reports, &ids[i]) {
            proof {
                assert(iv[i as int] == ids@[i as int]@);
            }
            break;
        }
        proof {
            assert(iv[i as int] == ids@[i as int]@);
        }
        out.push(majority_status(reports, &ids[i]));
        i += 1;
    }
    proof {
        lemma_decoded_len_is(iv, reports@, i as nat);
        assert(out@ =~= decoded_bytes(iv, reports@));
    }
    let stopped = i < ids.len();
    (out, stopped)
}

/// The id the i-th emitted key is filed under at the reports service: the
/// hash of the i-th emitted public key.
pub open spec fn stream_id(b: nat, d: nat, i: nat) -> Seq<u8> {
    sha256_of(point_bytes(emitted_state(b, d, i).0))
}

/// `keys` is the `w`-th window of 256 (secret key, id) pairs of the stream
/// seeded from identity values `(b, d)`.
pub open spec fn window_keys_ok(
    b: nat,
    d: nat,
    w: nat,
    keys: Seq<(SecretKey, Vec<u8>)>,
) -> bool {
    &&& keys.len() == 256
    &&& forall|j: int| 0 <= j < 256 ==> {
        &&& (#[trigger] keys[j]).0.val() == emitted_state(b, d, (w * 256 + j) as nat).0
        &&& keys[j].1@ == stream_id(b, d, (w * 256 + j) as nat)
    }
}

/// The ids of a window's pairs, in window order.
pub open spec fn window_ids(keys: Seq<(SecretKey, Vec<u8>)>) -> Seq<Seq<u8>> {
    keys.map_values(|p: (SecretKey, Vec<u8>)| p.1@)
}

/// A fetch trace: one entry per window fetched, holding the pairs handed to
/// the fetcher and the reports it returned.  A trace is consistent when each
/// window is the right slice of the stream and each reply is one the fetcher
/// could have given.
pub open spec fn trace_ok<F: Fn(&Vec<(SecretKey, Vec<u8>)>) -> Result<
    Vec<Report>,
    TransportError,
>>(fetch: F, b: nat, d: nat, tr: Seq<(Vec<(SecretKey, Vec<u8>)>, Vec<Report>)>) -> bool {
    forall|w: int| 0 <= w < tr.len() ==> {
        &&& window_keys_ok(b, d, w as nat, (#[trigger] tr[w]).0@)
        &&& call_ensures(fetch, (&tr[w].0,), Ok(tr[w].1))
    }
}

/// The bytes a trace decodes to: each window decoded against its own
/// reports, concatenated in stream order.
pub open spec fn trace_bytes(tr: Seq<(Vec<(SecretKey, Vec<u8>)>, Vec<Report>)>) -> Seq<u8>
    decreases tr.len(),
{
    if tr.len() == 0 {
        Seq::empty()
    } else {
        trace_bytes(tr.drop_last()) + decoded_bytes(
            window_ids(tr.last().0@),
            tr.last().1@,
        )
    }
}

/// Every window of the trace but the last decoded in full, so no byte was
/// taken past a gap.
pub open spec fn trace_full_before_last(
    tr: Seq<(Vec<(SecretKey, Vec<u8>)>, Vec<Report>)>,
) -> bool {
    forall|w: int| 0 <= w < tr.len() - 1 ==> decoded_len(
        window_ids((#[trigger] tr[w]).0@),
        tr[w].1@,
    ) == 256
}

/// Fully decoded windows concatenate across window boundaries: a trace whose
/// every window decodes in full yields exactly 256 bytes per window, in
/// stream order.
pub proof fn lemma_full_trace_bytes_len(tr: Seq<(Vec<(SecretKey, Vec<u8>)>, Vec<Report>)>)
    requires
        forall|u: int| 0 <= u < tr.len() ==> decoded_len(
            window_ids((#[trigger] tr[u]).0@),
            tr[u].1@,
        ) == 256,
    ensures
        trace_bytes(tr).len() == 256 * tr.len(),
    decreases tr.len(),
{
    if tr.len() > 0 {
        assert forall|u: int| 0 <= u < tr.drop_last().len() implies decoded_len(
            window_ids((#[trigger] tr.drop_last()[u]).0@),
            tr.drop_last()[u].1@,
        ) == 256 by {
            assert(tr.drop_last()[u] == tr[u]);
        }
        lemma_full_trace_bytes_len(tr.drop_last());
        assert(tr.last() == tr[tr.len() - 1]);
        assert(decoded_bytes(window_ids(tr.last().0@), tr.last().1@).len() == 256);
    }
}

/// A fetcher that can only fail contributes no window to a consistent fetch
/// trace, so a receive through it can return no bytes at all — not even the
/// bytes of an earlier window.
pub proof fn lemma_failing_fetcher_has_empty_trace<
    F: Fn(&Vec<(SecretKey, Vec<u8>)>) -> Result<Vec<Report>, TransportError>,
>(fetch: F, b: nat, d: nat, tr: Seq<(Vec<(SecretKey, Vec<u8>)>, Vec<Report>)>)
    requires
        trace_ok(fetch, b, d, tr),
        forall|keys: &Vec<(SecretKey, Vec<u8>)>, out: Result<Vec<Report>, TransportError>|
            #[trigger] call_ensures(fetch, (keys,), out) ==> out is Err,
    ensures
        tr.len() == 0,
        trace_bytes(tr) == Seq::<u8>::empty(),
{
    if tr.len() > 0 {
        assert(call_ensures(fetch, (&tr[0].0,), Ok(tr[0].1)));
        assert(false);
    }
    assert(trace_bytes(tr) == Seq::<u8>::empty());
}

/// A receiving endpoint, holding its long-term identity secret key.
pub struct Receiver {
    identity_private_key: SecretKey,
}

impl Receiver {
    /// The value of the identity secret scalar.
    pub closed spec fn identity(&self) -> nat {
        self.identity_private_key.val()
    }

    /// Well-formed exactly when the identity key is.
    pub closed spec fn wf(&self) -> bool {
        self.identity_private_key.wf()
    }

    /// A receiver with the given identity key.
    pub fn new(identity_private_key: SecretKey) -> (s: Self)
        ensures
            s.identity() == identity_private_key.val(),
            identity_private_key.wf() ==> s.wf(),
    {
        Receiver { identity_private_key }
    }

    /// The first `data_length` (secret key, public key) pairs of our side of
    /// the stream, for callers that drive the fetch themselves.
    pub fn get_keys_for_fetching_and_decrypting(
        &self,
        sender_identity_public_key: &PublicKey,
        data_length: usize,
    ) -> (r: Result<Vec<(SecretKey, OfflineFindingPublicKey)>, CurveError>)
        requires
            self.wf(),
            sender_identity_public_key.wf(),
        ensures
            ({
                let b = self.identity();
                let d = sender_identity_public_key.dlog();
                match r {
                    Ok(v) => {
                        &&& v@.len() == data_length
                        &&& stream_ok_upto(b, d, (data_length + 2) as nat)
                        &&& forall|i: int| 0 <= i < data_length ==> {
                            &&& (#[trigger] v@[i]).0.wf()
                            &&& v@[i].0.val() == emitted_state(b, d, i as nat).0
                            &&& v@[i].1.wf()
                            &&& v@[i].1.pk().dlog() == emitted_state(b, d, i as nat).0
                            &&& v@[i].1.pk().sec1_view() == point_bytes(
                                emitted_state(b, d, i as nat).0,
                            )
                        }
                    },
                    Err(e) => exists|k: nat|
                        k < data_length + 2 && stream_ok_upto(b, d, k)
                            && !scalar_ok(#[trigger] state_scalar(b, d, k))
                            && e == scalar_err(state_scalar(b, d, k)),
                }
            }),
    {
        let ghost b = self.identity();
        let ghost d = sender_identity_public_key.dlog();

        let channel = match TwoPartyChannel::from_identity_keys(
            &self.identity_private_key,
            sender_identity_public_key,
        ) {
            Ok(c) => c,
            Err(e) => {
                proof {
                    if !scalar_ok(state_scalar(b, d, 0)) {
                        assert(stream_ok_upto(b, d, 0) && !scalar_ok(state_scalar(b, d, 0)));
                    } else {
                        assert forall|j: nat| j < 1 implies scalar_ok(
                            #[trigger] state_scalar(b, d, j)) by {
                            assert(j == 0);
                        }
                        assert(stream_ok_upto(b, d, 1) && !scalar_ok(state_scalar(b, d, 1)));
                    }
                }
                return Err(e);
            },
        };

        let mut it = channel.iter_our_keys();
        proof {
            assert(nth_state(b, d, 2)
                == (crate::channel::rot_priv(nth_state(b, d, 1).0, nth_state(b, d, 1).1),
                    crate::channel::rot_dlog(nth_state(b, d, 1).0, nth_state(b, d, 1).1)));
        }

        let mut v: Vec<(SecretKey, OfflineFindingPublicKey)> = Vec::new();
        let mut i: usize = 0;
        while i < data_length
            invariant
                b == self.identity(),
                d == sender_identity_public_key.dlog(),
                i <= data_length,
                v@.len() == i,
                it.wf(),
                it.chan().cur_priv() == nth_state(b, d, (i + 2) as nat).0,
                it.chan().cur_dlog() == nth_state(b, d, (i + 2) as nat).1,
                stream_ok_upto(b, d, (i + 2) as nat),
                forall|q: int| 0 <= q < i ==> {
                    &&& (#[trigger] v@[q]).0.wf()
                    &&& v@[q].0.val() == emitted_state(b, d, q as nat).0
                    &&& v@[q].1.wf()
                    &&& v@[q].1.pk().dlog() == emitted_state(b, d, q as nat).0
                    &&& v@[q].1.pk().sec1_view() == point_bytes(emitted_state(b, d, q as nat).0)
                },
            decreases data_length - i,
        {
            let pair = match it.next() {
                Ok(p) => p,
                Err(e) => {
                    proof {
                        let k = (i + 2) as nat;
                        assert(state_scalar(b, d, k)
                            == crate::kex::shared_scalar_val(
                                nth_state(b, d, k).0,
                                nth_state(b, d, k).1,
                            ));
                        assert(k < data_length + 2 && stream_ok_upto(b, d, k)
                            && !scalar_ok(state_scalar(b, d, k))
                            && e == scalar_err(state_scalar(b, d, k)));
                    }
                    return Err(e);
                },
            };
            proof {
                lemma_stream_step(b, d, (i + 2) as nat);
            }
            v.push(pair);
            i += 1;
        }
        Ok(v)
    }

    /// Receives a transmission from the sender: pulls our keypairs in
    /// windows of 256, asks the fetcher for the reports of each window, and
    /// decodes one byte per key by majority vote, stopping at the first key
    /// no report mentions.  At most `max_windows` windows are fetched.  A
    /// failed fetch aborts the whole operation: no partial data is returned,
    /// and the caller must retry the whole receive.
    pub fn receive<F: Fn(&Vec<(SecretKey, Vec<u8>)>) -> Result<Vec<Report>, TransportError>>(
        &self,
        sender_identity_public_key: &PublicKey,
        fetch_and_decrypt: &F,
        max_windows: usize,
    ) -> (r: Result<Vec<u8>, Error>)
        requires
            self.wf(),
            sender_identity_public_key.wf(),
            forall|keys: &Vec<(SecretKey, Vec<u8>)>| call_requires(*fetch_and_decrypt, (keys,)),
        ensures
            ({
                let b = self.identity();
                let d = sender_identity_public_key.dlog();
                match r {
                    Ok(data) => exists|tr: Seq<(Vec<(SecretKey, Vec<u8>)>, Vec<Report>)>| {
                        &&& #[trigger] trace_ok(*fetch_and_decrypt, b, d, tr)
                        &&& trace_full_before_last(tr)
                        &&& tr.len() <= max_windows
                        &&& (tr.len() < max_windows ==> tr.len() > 0 && decoded_len(
                            window_ids(tr.last().0@),
                            tr.last().1@,
                        ) < 256)
                        &&& data@ == trace_bytes(tr)
                    },
                    Err(Error::Transport(t)) => exists|
                        tr: Seq<(Vec<(SecretKey, Vec<u8>)>, Vec<Report>)>,
                        keys: Vec<(SecretKey, Vec<u8>)>,
                    |
                        #![trigger trace_ok(*fetch_and_decrypt, b, d, tr),
                            call_ensures(
                                *fetch_and_decrypt,
                                (&keys,),
                                Result::<Vec<Report>, TransportError>::Err(t),
                            )]
                        {
                            &&& trace_ok(*fetch_and_decrypt, b, d, tr)
                            &&& forall|u: int| 0 <= u < tr.len() ==> decoded_len(
                                window_ids((#[trigger] tr[u]).0@),
                                tr[u].1@,
                            ) == 256
                            &&& tr.len() < max_windows
                            &&& window_keys_ok(b, d, tr.len(), keys@)
                            &&& call_ensures(
                                *fetch_and_decrypt,
                                (&keys,),
                                Result::<Vec<Report>, TransportError>::Err(t),
                            )
                        },
                    Err(Error::Curve(e)) => exists|k: nat|
                        stream_ok_upto(b, d, k)
                            && !scalar_ok(#[trigger] state_scalar(b, d, k))
                            && e == scalar_err(state_scalar(b, d, k)),
                    Err(Error::Codec(_)) => false,
                }
            }),
    {
        let ghost b = self.identity();
        let ghost d = sender_identity_public_key.dlog();

        let channel = match TwoPartyChannel::from_identity_keys(
            &self.identity_private_key,
            sender_identity_public_key,
        ) {
            Ok(c) => c,
            Err(e) => {
                proof {
                    if !scalar_ok(state_scalar(b, d, 0)) {
                        assert(stream_ok_upto(b, d, 0) && !scalar_ok(state_scalar(b, d, 0)));
                    } else {
                        assert forall|j: nat| j < 1 implies scalar_ok(
                            #[trigger] state_scalar(b, d, j)) by {
                            assert(j == 0);
                        }
                        assert(stream_ok_upto(b, d, 1) && !scalar_ok(state_scalar(b, d, 1)));
                    }
                }
                return Err(Error::Curve(e));
            },
        };

        let mut it = channel.iter_our_keys();
        proof {
            assert(nth_state(b, d, 2)
                == (crate::channel::rot_priv(nth_state(b, d, 1).0, nth_state(b, d, 1).1),
                    crate::channel::rot_dlog(nth_state(b, d, 1).0, nth_state(b, d, 1).1)));
        }

        let mut data: Vec<u8> = Vec::new();
        let ghost mut tr: Seq<(Vec<(SecretKey, Vec<u8>)>, Vec<Report>)> = Seq::empty();
        let mut w: usize = 0;
        loop
            invariant
                b == self.identity(),
                d == sender_identity_public_key.dlog(),
                w <= max_windows,
                tr.len() == w,
                trace_ok(*fetch_and_decrypt, b, d, tr),
                forall|u: int| 0 <= u < tr.len() ==> decoded_len(
                    window_ids((#[trigger] tr[u]).0@),
                    tr[u].1@,
                ) == 256,
                data@ == trace_bytes(tr),
                it.wf(),
                it.chan().cur_priv() == nth_state(b, d, (w * 256 + 2) as nat).0,
                it.chan().cur_dlog() == nth_state(b, d, (w * 256 + 2) as nat).1,
                stream_ok_upto(b, d, (w * 256 + 2) as nat),
                forall|keys: &Vec<(SecretKey, Vec<u8>)>| call_requires(
                    *fetch_and_decrypt,
                    (keys,),
                ),
            ensures
                w == max_windows,
                tr.len() == w,
                trace_ok(*fetch_and_decrypt, b, d, tr),
                forall|u: int| 0 <= u < tr.len() ==> decoded_len(
                    window_ids((#[trigger] tr[u]).0@),
                    tr[u].1@,
                ) == 256,
                data@ == trace_bytes(tr),
            decreases max_windows - w,
        {
            if w == max_windows {
                break;
            }

            let mut keys: Vec<(SecretKey, Vec<u8>)> = Vec::new();
            let mut j: usize = 0;
            while j < 256
                invariant
                    b == self.identity(),
                    d == sender_identity_public_key.dlog(),
                    w < max_windows,
                    j <= 256,
                    keys@.len() == j,
                    it.wf(),
                    it.chan().cur_priv() == nth_state(b, d, (w * 256 + j + 2) as nat).0,
                    it.chan().cur_dlog() == nth_state(b, d, (w * 256 + j + 2) as nat).1,
                    stream_ok_upto(b, d, (w * 256 + j + 2) as nat),
                    forall|q: int| 0 <= q < j ==> {
                        &&& (#[trigger] keys@[q]).0.val() == emitted_state(
                            b,
                            d,
                            (w * 256 + q) as nat,
                        ).0
                        &&& keys@[q].1@ == stream_id(b, d, (w * 256 + q) as nat)
                    },
                decreases 256 - j,
            {
                let pair = match it.next() {
                    Ok(p) => p,
                    Err(e) => {
                        proof {
                            let k = (w * 256 + j + 2) as nat;
                            assert(state_scalar(b, d, k)
                                == crate::kex::shared_scalar_val(
                                    nth_state(b, d, k).0,
                                    nth_state(b, d, k).1,
                                ));
                            assert(stream_ok_upto(b, d, k)
                                && !scalar_ok(state_scalar(b, d, k))
                                && e == scalar_err(state_scalar(b, d, k)));
                        }
                        return Err(Error::Curve(e));
                    },
                };
                proof {
                    lemma_stream_step(b, d, (w * 256 + j + 2) as nat);
                }
                let id = pair.1.hash();
                keys.push((pair.0, id));
                j += 1;
            }

            let fetched = match fetch_and_decrypt(&keys) {
                Ok(reports) => reports,
                Err(t) => {
                    proof {
                        assert(window_keys_ok(b, d, tr.len(), keys@));
                        assert(trace_ok(*fetch_and_decrypt, b, d, tr));
                        assert(tr.len() < max_windows);
                        assert(call_ensures(
                            *fetch_and_decrypt,
                            (&keys,),
                            Result::<Vec<Report>, TransportError>::Err(t),
                        ));
                    }
                    return Err(Error::Transport(t));
                },
            };

            let mut ids: Vec<Vec<u8>> = Vec::new();
            let mut q: usize = 0;
            while q < keys.len()
                invariant
                    q <= keys@.len(),
                    ids@.len() == q,
                    forall|p: int| 0 <= p < q ==> (#[trigger] ids@[p])@ == keys@[p].1@,
                decreases keys@.len() - q,
            {
                ids.push(copy_bytes(&keys[q].1));
                q += 1;
            }
            proof {
                assert(ids_view(ids@) =~= window_ids(keys@));
            }

            let (bytes, stopped) = decode_window(&ids, &fetched);
            append_bytes(&mut data, &bytes);
            proof {
                let entry = (keys, fetched);
                let tr2 = tr.push(entry);
                assert(tr2.drop_last() =~= tr);
                assert(tr2.last() == entry);
                assert(trace_bytes(tr2) == trace_bytes(tr) + decoded_bytes(
                    window_ids(keys@),
                    fetched@,
                ));
                assert forall|u: int| 0 <= u < tr2.len() implies {
                    &&& window_keys_ok(b, d, u as nat, (#[trigger] tr2[u]).0@)
                    &&& call_ensures(*fetch_and_decrypt, (&tr2[u].0,), Ok(tr2[u].1))
                } by {
                    if u < tr.len() {
                        assert(tr2[u] == tr[u]);
                    } else {
                        assert(tr2[u] == entry);
                    }
                }
                tr = tr2;
            }
            if stopped {
                proof {
                    lemma_decoded_len_le(window_ids(keys@), fetched@);
                    assert forall|u: int| 0 <= u < tr.len() - 1 implies decoded_len(
                        window_ids((#[trigger] tr[u]).0@),
                        tr[u].1@,
                    ) == 256 by {
                        assert(tr[u] == tr.drop_last()[u]);
                    }
                    assert(trace_ok(*fetch_and_decrypt, b, d, tr));
                    assert(tr.len() <= max_windows);
                    assert(tr.len() > 0 && decoded_len(
                        window_ids(tr.last().0@),
                        tr.last().1@,
                    ) < 256);
                    assert(data@ == trace_bytes(tr));
                }
                return Ok(data);
            }
            proof {
                lemma_decoded_len_le(window_ids(keys@), fetched@);
            }
            w += 1;
        }
        proof {
            assert(trace_full_before_last(tr));
        }
        Ok(data)
    }
}

} // verus!
