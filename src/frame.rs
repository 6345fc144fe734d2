use vstd::prelude::*;

use crate::sodium::{to_array, Nonce, PublicKey, NONCE_BYTES, PUBLIC_KEY_BYTES};

verus! {

/// The byte that separates the fields of a frame (`'\n'`).
pub const SEPARATOR: u8 = 10;

/// The shortest payload that can carry a full message frame: three fixed
/// fields, each followed by a separator.
pub const MESSAGE_HEADER_BYTES: usize = 91;

/// The payload of one datagram.
pub enum Frame {
    /// Discovery only: the sender's public key and nothing else.
    Announce { src: PublicKey },
    /// A sealed message from `src` to `dst`.
    Message { src: PublicKey, dst: PublicKey, nonce: Nonce, ciphertext: Vec<u8> },
}

/// Why a payload is not a frame.
#[derive(Clone, Copy, Debug, PartialEq, Eq, Structural)]
pub enum FrameError {
    TooFewFields,
    InvalidLength,
}

/// A frame as plain byte sequences.
pub ghost enum FrameModel {
    Announce { src: Seq<u8> },
    Message { src: Seq<u8>, dst: Seq<u8>, nonce: Seq<u8>, ciphertext: Seq<u8> },
}

impl View for Frame {
    type V = FrameModel;

    open spec fn view(&self) -> FrameModel {
        match self {
            Frame::Announce { src } => FrameModel::Announce { src: src@ },
            Frame::Message { src, dst, nonce, ciphertext } => FrameModel::Message {
                src: src@,
                dst: dst@,
                nonce: nonce@,
                ciphertext: ciphertext@,
            },
        }
    }
}

/// Whether `b` holds no separator byte.
pub open spec fn no_separator(b: Seq<u8>) -> bool {
    forall|i: int| 0 <= i < b.len() ==> b[i] != SEPARATOR
}

/// A frame that its encoding describes without ambiguity: fixed fields of the
/// right widths, none of which holds a separator byte.
pub open spec fn valid_model(f: FrameModel) -> bool {
    match f {
        FrameModel::Announce { src } => src.len() == PUBLIC_KEY_BYTES && no_separator(src),
        FrameModel::Message { src, dst, nonce, ciphertext } => {
            &&& src.len() == PUBLIC_KEY_BYTES
            &&& dst.len() == PUBLIC_KEY_BYTES
            &&& nonce.len() == NONCE_BYTES
            &&& no_separator(src)
            &&& no_separator(dst)
            &&& no_separator(nonce)
        },
    }
}

/// The bytes of a frame on the wire. An announce carries its key followed by
/// one separator (an empty second field); there is no terminating separator
/// after a ciphertext.
pub open spec fn encoding(f: FrameModel) -> Seq<u8> {
    match f {
        FrameModel::Announce { src } => src + seq![SEPARATOR],
        FrameModel::Message { src, dst, nonce, ciphertext } => src + seq![SEPARATOR] + dst + seq![
            SEPARATOR,
        ] + nonce + seq![SEPARATOR] + ciphertext,
    }
}

/// Position of the first separator in `b`, or `b.len()` where there is none.
pub open spec fn first_sep(b: Seq<u8>) -> nat
    decreases b.len(),
{
    if b.len() == 0 || b[0] == SEPARATOR {
        0
    } else {
        1 + first_sep(b.drop_first())
    }
}

/// `b` split on its first `n` separators: at most `n + 1` fields, the last of
/// which keeps any later separators.
pub open spec fn fields(b: Seq<u8>, n: nat) -> Seq<Seq<u8>>
    decreases n,
{
    let i = first_sep(b) as int;
    if n == 0 || i >= b.len() {
        seq![b]
    } else {
        seq![b.subrange(0, i)] + fields(b.subrange(i + 1, b.len() as int), (n - 1) as nat)
    }
}

/// Fields that form an announce: a key-wide first field and nothing but empty
/// fields after it.
pub open spec fn is_announce(s: Seq<Seq<u8>>) -> bool {
    &&& s[0].len() == PUBLIC_KEY_BYTES
    &&& forall|k: int| 1 <= k < s.len() ==> #[trigger] s[k].len() == 0
}

/// What a payload decodes to.
pub open spec fn parse(b: Seq<u8>) -> Result<FrameModel, FrameError> {
    let s = fields(b, 3);
    if is_announce(s) {
        Ok(FrameModel::Announce { src: s[0] })
    } else if s.len() < 4 {
        Err(FrameError::TooFewFields)
    } else if s[0].len() != PUBLIC_KEY_BYTES || s[1].len() != PUBLIC_KEY_BYTES || s[2].len()
        != NONCE_BYTES {
        Err(FrameError::InvalidLength)
    } else {
        Ok(FrameModel::Message { src: s[0], dst: s[1], nonce: s[2], ciphertext: s[3] })
    }
}

/// The model of a decoding result.
pub open spec fn result_view(r: Result<Frame, FrameError>) -> Result<FrameModel, FrameError> {
    match r {
        Ok(f) => Ok(f@),
        Err(e) => Err(e),
    }
}

/// The first separator is found where the bytes before it hold none.
pub proof fn lemma_first_sep_at(b: Seq<u8>, k: int)
    requires
        0 <= k <= b.len(),
        forall|j: int| 0 <= j < k ==> b[j] != SEPARATOR,
        k == b.len() || b[k] == SEPARATOR,
    ensures
        first_sep(b) == k,
    decreases k,
{
    if k > 0 {
        let t = b.drop_first();
        assert forall|j: int| 0 <= j < k - 1 implies t[j] != SEPARATOR by {
            assert(t[j] == b[j + 1]);
        }
        if k < b.len() {
            assert(t[k - 1] == b[k]);
        }
        lemma_first_sep_at(t, k - 1);
    }
}

/// A field free of separators, followed by a separator, is the first field.
pub proof fn lemma_field_then(a: Seq<u8>, rest: Seq<u8>)
    requires
        no_separator(a),
    ensures
        first_sep(a + seq![SEPARATOR] + rest) == a.len(),
        (a + seq![SEPARATOR] + rest).subrange(0, a.len() as int) == a,
        (a + seq![SEPARATOR] + rest).subrange(
            a.len() + 1int,
            (a + seq![SEPARATOR] + rest).len() as int,
        ) == rest,
{
    let b = a + seq![SEPARATOR] + rest;
    assert forall|j: int| 0 <= j < a.len() implies b[j] != SEPARATOR by {
        assert(b[j] == a[j]);
    }
    assert(b[a.len() as int] == SEPARATOR);
    lemma_first_sep_at(b, a.len() as int);
    assert(b.subrange(0, a.len() as int) =~= a);
    assert(b.subrange(a.len() + 1int, b.len() as int) =~= rest);
}

/// Decoding the encoding of a valid frame gives the frame back.
pub proof fn lemma_decode_encode(f: FrameModel)
    requires
        valid_model(f),
    ensures
        parse(encoding(f)) == Ok::<FrameModel, FrameError>(f),
{
    match f {
        FrameModel::Announce { src } => {
            let b = encoding(f);
            lemma_field_then(src, Seq::<u8>::empty());
            assert(src + seq![SEPARATOR] =~= src + seq![SEPARATOR] + Seq::<u8>::empty());
            let e = Seq::<u8>::empty();
            assert(first_sep(e) == 0);
            assert(fields(e, 2) == seq![e]);
            let s = fields(b, 3);
            assert(s =~= seq![src, e]);
            assert(is_announce(s));
        },
        FrameModel::Message { src, dst, nonce, ciphertext } => {
            let r2 = nonce + seq![SEPARATOR] + ciphertext;
            let r1 = dst + seq![SEPARATOR] + r2;
            let b = src + seq![SEPARATOR] + r1;
            assert(encoding(f) =~= b);
            lemma_field_then(src, r1);
            lemma_field_then(dst, r2);
            lemma_field_then(nonce, ciphertext);
            assert(fields(ciphertext, 0) == seq![ciphertext]);
            assert(fields(r2, 1) =~= seq![nonce, ciphertext]);
            assert(fields(r1, 2) =~= seq![dst, nonce, ciphertext]);
            let s = fields(b, 3);
            assert(s =~= seq![src, dst, nonce, ciphertext]);
            assert(s[1].len() != 0);
            assert(!is_announce(s));
        },
    }
}

/// Splitting on `n` separators gives between one and `n + 1` fields.
pub proof fn lemma_fields_len(b: Seq<u8>, n: nat)
    ensures
        1 <= fields(b, n).len() <= n + 1,
    decreases n,
{
    let i = first_sep(b) as int;
    if n > 0 && i < b.len() {
        lemma_fields_len(b.subrange(i + 1, b.len() as int), (n - 1) as nat);
    }
}

/// A payload shorter than a full message header never decodes to a message:
/// it is an announce or it is rejected, and where it holds fewer than four
/// fields and is no announce the rejection is `TooFewFields`.
pub proof fn lemma_short_payload(b: Seq<u8>)
    requires
        b.len() < MESSAGE_HEADER_BYTES,
    ensures
        parse(b) is Ok ==> parse(b)->Ok_0 is Announce,
        !is_announce(fields(b, 3)) && fields(b, 3).len() < 4 ==> parse(b) == Err::<
            FrameModel,
            FrameError,
        >(FrameError::TooFewFields),
{
    let s = fields(b, 3);
    lemma_fields_len(b, 3);
    if s.len() == 4 {
        let i0 = first_sep(b) as int;
        assert(i0 < b.len());
        let r1 = b.subrange(i0 + 1, b.len() as int);
        assert(s == seq![b.subrange(0, i0)] + fields(r1, 2));
        let i1 = first_sep(r1) as int;
        assert(i1 < r1.len());
        let r2 = r1.subrange(i1 + 1, r1.len() as int);
        assert(fields(r1, 2) == seq![r1.subrange(0, i1)] + fields(r2, 1));
        let i2 = first_sep(r2) as int;
        assert(i2 < r2.len());
        let r3 = r2.subrange(i2 + 1, r2.len() as int);
        assert(fields(r2, 1) == seq![r2.subrange(0, i2)] + fields(r3, 0));
        assert(s[0].len() == i0);
        assert(s[1].len() == i1);
        assert(s[2].len() == i2);
    }
}

/// The fields that `bounds` marks out in `b`.
spec fn segments_at(b: Seq<u8>, bounds: Seq<(usize, usize)>) -> Seq<Seq<u8>> {
    Seq::new(bounds.len(), |k: int| b.subrange(bounds[k].0 as int, bounds[k].1 as int))
}

/// Appends every byte of `b` to `out`.
fn push_all(out: &mut Vec<u8>, b: &[u8])
    ensures
        final(out)@ == old(out)@ + b@,
{
    let mut i: usize = 0;
    while i < b.len()
        invariant
            0 <= i <= b@.len(),
            out@ == old(out)@ + b@.subrange(0, i as int),
        decreases b@.len() - i,
    {
        out.push(b[i]);
        assert(b@.subrange(0, i + 1) =~= b@.subrange(0, i as int).push(b@[i as int]));
        i = i + 1;
    }
    assert(b@.subrange(0, b@.len() as int) =~= b@);
}

/// A copy of the bytes `b[start..end]`.
fn copy_range(b: &[u8], start: usize, end: usize) -> (r: Vec<u8>)
    requires
        start <= end <= b@.len(),
    ensures
        r@ == b@.subrange(start as int, end as int),
{
    let mut out: Vec<u8> = Vec::new();
    let mut i: usize = start;
    while i < end
        invariant
            start <= i <= end <= b@.len(),
            out@ == b@.subrange(start as int, i as int),
        decreases end - i,
    {
        out.push(b[i]);
        assert(b@.subrange(start as int, i + 1) =~= b@.subrange(start as int, i as int).push(
            b@[i as int],
        ));
        i = i + 1;
    }
    out
}

/// Position of the first separator in `b` at or after `from`, or `b.len()`.
fn find_sep(b: &[u8], from: usize) -> (r: usize)
    requires
        from <= b@.len(),
    ensures
        from <= r <= b@.len(),
        r == from + first_sep(b@.subrange(from as int, b@.len() as int)),
{
    let mut i: usize = from;
    while i < b.len() && b[i] != SEPARATOR
        invariant
            from <= i <= b@.len(),
            forall|j: int| from <= j < i ==> b@[j] != SEPARATOR,
        decreases b@.len() - i,
    {
        i = i + 1;
    }
    proof {
        let t = b@.subrange(from as int, b@.len() as int);
        assert forall|j: int| 0 <= j < i - from implies t[j] != SEPARATOR by {
            assert(t[j] == b@[from + j]);
        }
        if i < b@.len() {
            assert(t[i - from] == b@[i as int]);
        }
        lemma_first_sep_at(t, i - from);
    }
    i
}

/// Where each field of `b` starts and ends, splitting on the first three separators.
fn field_bounds(b: &[u8]) -> (r: Vec<(usize, usize)>)
    ensures
        fields(b@, 3) == segments_at(b@, r@),
        forall|k: int| 0 <= k < r@.len() ==> (#[trigger] r@[k]).0 <= r@[k].1 <= b@.len(),
{
    let len = b.len();
    let mut bounds: Vec<(usize, usize)> = Vec::new();
    let mut start: usize = 0;
    let mut done = false;
    assert(b@.subrange(0, len as int) =~= b@);
    assert(segments_at(b@, bounds@) + fields(b@, 3) =~= fields(b@, 3));
    while !done
        invariant
            len == b@.len(),
            start <= len,
            bounds@.len() <= 4,
            !done ==> bounds@.len() <= 3,
            forall|k: int| 0 <= k < bounds@.len() ==> (#[trigger] bounds@[k]).0 <= bounds@[k].1 <= len,
            !done ==> fields(b@, 3) == segments_at(b@, bounds@) + fields(
                b@.subrange(start as int, len as int),
                (3 - bounds@.len()) as nat,
            ),
            done ==> fields(b@, 3) == segments_at(b@, bounds@),
        decreases 4 - bounds@.len(),
    {
        let ghost rest = b@.subrange(start as int, len as int);
        let ghost m = (3 - bounds@.len()) as nat;
        let ghost before = segments_at(b@, bounds@);
        let end = if bounds.len() < 3 {
            find_sep(b, start)
        } else {
            len
        };
        if end == len {
            bounds.push((start, len));
            done = true;
            assert(fields(rest, m) == seq![rest]);
            assert(segments_at(b@, bounds@) =~= before + seq![rest]);
        } else {
            bounds.push((start, end));
            let ghost i = end - start;
            assert(rest.subrange(0, i) =~= b@.subrange(start as int, end as int));
            assert(rest.subrange(i + 1, rest.len() as int) =~= b@.subrange(end + 1, len as int));
            let ghost seg = b@.subrange(start as int, end as int);
            let ghost after = fields(b@.subrange(end + 1, len as int), (m - 1) as nat);
            assert(fields(rest, m) == seq![seg] + after);
            assert(segments_at(b@, bounds@) =~= before + seq![seg]);
            assert(before + (seq![seg] + after) =~= (before + seq![seg]) + after);
            start = end + 1;
        }
    }
    bounds
}

/// The bytes of `frame` on the wire.
pub fn encode(frame: &Frame) -> (r: Vec<u8>)
    ensures
        r@ == encoding(frame@),
{
    let mut out: Vec<u8> = Vec::new();
    match frame {
        Frame::Announce { src } => {
            push_all(&mut out, src.key().as_slice());
            out.push(SEPARATOR);
            assert(out@ =~= encoding(frame@));
        },
        Frame::Message { src, dst, nonce, ciphertext } => {
            push_all(&mut out, src.key().as_slice());
            out.push(SEPARATOR);
            push_all(&mut out, dst.key().as_slice());
            out.push(SEPARATOR);
            push_all(&mut out, nonce.value().as_slice());
            out.push(SEPARATOR);
            push_all(&mut out, ciphertext.as_slice());
            assert(out@ =~= encoding(frame@));
        },
    }
    out
}

/// Reads one frame from the payload of a datagram.
pub fn decode(b: &[u8]) -> (r: Result<Frame, FrameError>)
    ensures
        result_view(r) == parse(b@),
{
    let bounds = field_bounds(b);
    let ghost s = fields(b@, 3);
    let n = bounds.len();
    assert(s.len() >= 1);
    let (s0, e0) = bounds[0];
    let mut rest_empty = true;
    let mut k: usize = 1;
    while k < n
        invariant
            1 <= k <= n,
            n == bounds@.len(),
            s == segments_at(b@, bounds@),
            forall|j: int| 0 <= j < bounds@.len() ==> (#[trigger] bounds@[j]).0 <= bounds@[j].1 <= b@.len(),
            rest_empty == forall|j: int| 1 <= j < k ==> #[trigger] s[j].len() == 0,
        decreases n - k,
    {
        let (a, z) = bounds[k];
        assert(s[k as int].len() == z - a);
        if a != z {
            rest_empty = false;
        }
        k = k + 1;
    }
    assert(s[0].len() == e0 - s0);
    if e0 - s0 == PUBLIC_KEY_BYTES && rest_empty {
        let src = PublicKey::new(to_array(copy_range(b, s0, e0)));
        return Ok(Frame::Announce { src });
    }
    if n < 4 {
        return Err(FrameError::TooFewFields);
    }
    let (s1, e1) = bounds[1];
    let (s2, e2) = bounds[2];
    let (s3, e3) = bounds[3];
    assert(s[1].len() == e1 - s1);
    assert(s[2].len() == e2 - s2);
    if e0 - s0 != PUBLIC_KEY_BYTES || e1 - s1 != PUBLIC_KEY_BYTES || e2 - s2 != NONCE_BYTES {
        return Err(FrameError::InvalidLength);
    }
    let src = PublicKey::new(to_array(copy_range(b, s0, e0)));
    let dst = PublicKey::new(to_array(copy_range(b, s1, e1)));
    let nonce = Nonce::new(to_array(copy_range(b, s2, e2)));
    let ciphertext = copy_range(b, s3, e3);
    Ok(Frame::Message { src, dst, nonce, ciphertext })
}

} // verus!
