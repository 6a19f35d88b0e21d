//! The compact binary form of a stored resource.
//!
//! A resource travels and is persisted as: the frame count, then each
//! frame as its byte length followed by its bytes, then the hold duration
//! in milliseconds.  Every integer is a little-endian base-128 varint
//! (seven payload bits per byte, high bit set on all but the last byte).

use vstd::prelude::*;
use crate::scene::Resource;

verus! {

/// The varint encoding of an unsigned number.
pub open spec fn spec_varint(n: nat) -> Seq<u8>
    decreases n,
{
    if n < 128 {
        seq![n as u8]
    } else {
        seq![(128 + (n % 128)) as u8] + spec_varint(n / 128)
    }
}

/// What a varint parse of `s` at `pos` yields: the value and the position
/// after it, or nothing when the bytes run out first.
pub open spec fn spec_decode_varint(s: Seq<u8>, pos: int) -> Option<(nat, int)>
    decreases s.len() - pos,
{
    if pos < 0 || pos >= s.len() {
        None
    } else if s[pos] < 128 {
        Some((s[pos] as nat, pos + 1))
    } else {
        match spec_decode_varint(s, pos + 1) {
            Some((v, p)) => Some((((s[pos] - 128) + 128 * v) as nat, p)),
            None => None,
        }
    }
}

/// Parsing bytes that start with an encoded number yields that number.
pub proof fn lemma_varint_roundtrip(s: Seq<u8>, pos: int, n: nat)
    requires
        0 <= pos,
        pos + spec_varint(n).len() <= s.len(),
        s.subrange(pos, pos + spec_varint(n).len() as int) == spec_varint(n),
    ensures
        spec_decode_varint(s, pos) == Some((n, pos + spec_varint(n).len())),
    decreases n,
{
    let e = spec_varint(n);
    assert(s[pos] == e[0]) by {
        assert(s.subrange(pos, pos + e.len() as int)[0] == s[pos]);
    }
    if n < 128 {
        assert(e.len() == 1);
    } else {
        let rest = spec_varint(n / 128);
        assert(e == seq![(128 + (n % 128)) as u8] + rest);
        assert(s.subrange(pos + 1, pos + 1 + rest.len() as int) =~= rest) by {
            assert(forall|i: int|
                0 <= i < rest.len() ==> s.subrange(pos + 1, pos + 1 + rest.len() as int)[i] == s[pos
                    + 1 + i] && e[i + 1] == rest[i] && s.subrange(pos, pos + e.len() as int)[i + 1]
                    == s[pos + 1 + i]);
        }
        lemma_varint_roundtrip(s, pos + 1, n / 128);
        assert(s[pos] == (128 + (n % 128)) as u8);
        assert((s[pos] - 128) + 128 * (n / 128) == n) by {
            assert(n % 128 + 128 * (n / 128) == n) by (nonlinear_arith);
        }
    }
}

/// A parsed varint consumes at least one byte and ends within the bytes.
pub proof fn lemma_varint_bounds(s: Seq<u8>, pos: int)
    requires
        spec_decode_varint(s, pos) is Some,
    ensures
        pos + 1 <= spec_decode_varint(s, pos).unwrap().1 <= s.len(),
    decreases s.len() - pos,
{
    if s[pos] >= 128 {
        lemma_varint_bounds(s, pos + 1);
    }
}

/// Appends the varint encoding of `n`.
pub fn encode_varint(n: u64, out: &mut Vec<u8>)
    ensures
        final(out)@ == old(out)@ + spec_varint(n as nat),
    decreases n,
{
    if n < 128 {
        out.push(n as u8);
        assert(final(out)@ =~= old(out)@ + spec_varint(n as nat));
    } else {
        out.push(128 + (n % 128) as u8);
        encode_varint(n / 128, out);
        assert(final(out)@ =~= old(out)@ + spec_varint(n as nat)) by {
            assert(128 + (n % 128) as u8 == (128 + (n as nat % 128)) as u8);
        }
    }
}

/// Parses a varint; rejects values that do not fit in a `u64`.
pub fn decode_varint(data: &Vec<u8>, pos: usize) -> (r: Option<(u64, usize)>)
    ensures
        match spec_decode_varint(data@, pos as int) {
            Some((v, p)) => if v <= u64::MAX {
                r == Some((v as u64, p as usize))
            } else {
                r is None
            },
            None => r is None,
        },
    decreases data@.len() - pos,
{
    if pos >= data.len() {
        return None;
    }
    let b = data[pos];
    if b < 128 {
        Some((b as u64, pos + 1))
    } else {
        match decode_varint(data, pos + 1) {
            Some((v, p)) => {
                let lo = (b - 128) as u64;
                if v <= (u64::MAX - lo) / 128 {
                    Some((lo + 128 * v, p))
                } else {
                    None
                }
            },
            None => None,
        }
    }
}

/// One frame on the wire: its length, then its bytes.
pub open spec fn spec_frame_bytes(f: Seq<u8>) -> Seq<u8> {
    spec_varint(f.len()) + f
}

/// All frames on the wire, in order.
pub open spec fn spec_frames_bytes(fs: Seq<Seq<u8>>) -> Seq<u8>
    decreases fs.len(),
{
    if fs.len() == 0 {
        Seq::empty()
    } else {
        spec_frame_bytes(fs.first()) + spec_frames_bytes(fs.drop_first())
    }
}

/// Appending one frame appends its wire form.
pub proof fn lemma_frames_bytes_snoc(fs: Seq<Seq<u8>>, f: Seq<u8>)
    ensures
        spec_frames_bytes(fs.push(f)) == spec_frames_bytes(fs) + spec_frame_bytes(f),
    decreases fs.len(),
{
    let t = fs.push(f);
    if fs.len() == 0 {
        assert(t.first() == f);
        assert(t.drop_first() =~= Seq::<Seq<u8>>::empty());
        assert(spec_frames_bytes(t) == spec_frame_bytes(f) + spec_frames_bytes(t.drop_first()));
        assert(spec_frames_bytes(Seq::<Seq<u8>>::empty()) == Seq::<u8>::empty());
        assert(spec_frames_bytes(fs) =~= Seq::<u8>::empty());
        assert(spec_frames_bytes(t) =~= spec_frames_bytes(fs) + spec_frame_bytes(f));
    } else {
        assert(t.first() == fs.first());
        assert(t.drop_first() =~= fs.drop_first().push(f));
        lemma_frames_bytes_snoc(fs.drop_first(), f);
        assert(spec_frames_bytes(t) =~= spec_frames_bytes(fs) + spec_frame_bytes(f));
    }
}

/// A whole resource on the wire.
pub open spec fn spec_resource_bytes(frames: Seq<Seq<u8>>, frame_time_ms: u16) -> Seq<u8> {
    spec_varint(frames.len()) + spec_frames_bytes(frames) + spec_varint(frame_time_ms as nat)
}

/// Encodes a resource into its wire form.
pub fn encode_resource(res: &Resource) -> (out: Vec<u8>)
    ensures
        out@ == spec_resource_bytes(res.frames.deep_view(), res.frame_time_ms),
{
    let mut out: Vec<u8> = Vec::new();
    let n = res.frames.len();
    encode_varint(n as u64, &mut out);
    let ghost fs = res.frames.deep_view();
    proof {
        assert(out@ =~= spec_varint(fs.len()) + spec_frames_bytes(fs.take(0)));
    }
    let mut i: usize = 0;
    while i < n
        invariant
            n == res.frames.len(),
            i <= n,
            fs == res.frames.deep_view(),
            out@ == spec_varint(fs.len()) + spec_frames_bytes(fs.take(i as int)),
        decreases n - i,
    {
        let frame = &res.frames[i];
        encode_varint(frame.len() as u64, &mut out);
        let mut j: usize = 0;
        let m = frame.len();
        while j < m
            invariant
                m == frame@.len(),
                out@ == spec_varint(fs.len()) + spec_frames_bytes(fs.take(i as int)) + spec_varint(
                    frame@.len(),
                ) + frame@.take(j as int),
                j <= m,
            decreases m - j,
        {
            out.push(frame[j]);
            proof {
                assert(frame@.take(j + 1) =~= frame@.take(j as int).push(frame@[j as int]));
                assert(out@ =~= spec_varint(fs.len()) + spec_frames_bytes(fs.take(i as int))
                    + spec_varint(frame@.len()) + frame@.take(j + 1));
            }
            j = j + 1;
        }
        proof {
            assert(frame@.take(m as int) =~= frame@);
            assert(fs[i as int] == frame@);
            lemma_frames_bytes_snoc(fs.take(i as int), frame@);
            assert(fs.take(i + 1) =~= fs.take(i as int).push(frame@));
            assert(out@ =~= spec_varint(fs.len()) + spec_frames_bytes(fs.take(i + 1)));
        }
        i = i + 1;
    }
    proof {
        assert(fs.take(n as int) =~= fs);
    }
    encode_varint(res.frame_time_ms as u64, &mut out);
    proof {
        assert(out@ =~= spec_resource_bytes(fs, res.frame_time_ms));
    }
    out
}

/// What parsing `count` frames from `s` at `pos` yields.
pub open spec fn spec_decode_frames(s: Seq<u8>, pos: int, count: nat) -> Option<(Seq<Seq<u8>>, int)>
    decreases count,
{
    if count == 0 {
        Some((Seq::empty(), pos))
    } else {
        match spec_decode_varint(s, pos) {
            Some((len, p)) => if p + len <= s.len() {
                match spec_decode_frames(s, p + len, (count - 1) as nat) {
                    Some((rest, q)) => Some((seq![s.subrange(p, p + len)] + rest, q)),
                    None => None,
                }
            } else {
                None
            },
            None => None,
        }
    }
}

/// More frames than bytes cannot parse: each frame consumes at least one.
pub proof fn lemma_frames_need_bytes(s: Seq<u8>, pos: int, count: nat)
    requires
        0 <= pos <= s.len(),
        count > s.len() - pos,
    ensures
        spec_decode_frames(s, pos, count) is None,
    decreases count,
{
    if count > 0 {
        match spec_decode_varint(s, pos) {
            Some((len, p)) => {
                lemma_varint_bounds(s, pos);
                assert(p >= pos + 1);
                if p + len <= s.len() {
                    assert((count - 1) as nat > s.len() - (p + len));
                    lemma_frames_need_bytes(s, p + len as int, (count - 1) as nat);
                    assert(spec_decode_frames(s, p + len, (count - 1) as nat) is None);
                }
            },
            None => {},
        }
    }
}

/// Parsing bytes that start with encoded frames yields those frames.
pub proof fn lemma_frames_roundtrip(s: Seq<u8>, pos: int, fs: Seq<Seq<u8>>)
    requires
        0 <= pos,
        pos + spec_frames_bytes(fs).len() <= s.len(),
        s.subrange(pos, pos + spec_frames_bytes(fs).len() as int) == spec_frames_bytes(fs),
    ensures
        spec_decode_frames(s, pos, fs.len()) == Some((fs, pos + spec_frames_bytes(fs).len())),
    decreases fs.len(),
{
    if fs.len() > 0 {
        let first = fs.first();
        let rest = fs.drop_first();
        let b = spec_frames_bytes(fs);
        let hl = spec_varint(first.len());
        let rb = spec_frames_bytes(rest);
        assert(b == hl + first + rb);
        assert forall|i: int| 0 <= i < b.len() implies s[pos + i] == b[i] by {
            assert(s.subrange(pos, pos + b.len() as int)[i] == s[pos + i]);
        }
        assert(s.subrange(pos, pos + hl.len() as int) =~= hl) by {
            assert forall|i: int| 0 <= i < hl.len() implies s.subrange(
                pos,
                pos + hl.len() as int,
            )[i] == hl[i] by {
                assert(s[pos + i] == b[i]);
            }
        }
        lemma_varint_roundtrip(s, pos, first.len());
        let p = pos + hl.len();
        assert(s.subrange(p, p + first.len() as int) =~= first) by {
            assert forall|i: int| 0 <= i < first.len() implies s.subrange(
                p,
                p + first.len() as int,
            )[i] == first[i] by {
                assert(s[pos + (hl.len() + i)] == b[hl.len() + i]);
            }
        }
        let p2 = p + first.len();
        assert(s.subrange(p2, p2 + rb.len() as int) =~= rb) by {
            assert forall|i: int| 0 <= i < rb.len() implies s.subrange(p2, p2 + rb.len() as int)[i]
                == rb[i] by {
                assert(s[pos + (hl.len() + first.len() + i)] == b[hl.len() + first.len() + i]);
            }
        }
        lemma_frames_roundtrip(s, p2, rest);
        assert(seq![first] + rest =~= fs);
    }
}

/// What parsing a whole resource from `s` yields.  Trailing bytes are
/// tolerated, as the original wire reader tolerated them.
pub open spec fn spec_decode_resource(s: Seq<u8>) -> Option<(Seq<Seq<u8>>, u16)> {
    match spec_decode_varint(s, 0) {
        Some((count, p)) => match spec_decode_frames(s, p, count) {
            Some((frames, q)) => match spec_decode_varint(s, q) {
                Some((t, _)) => if t <= u16::MAX {
                    Some((frames, t as u16))
                } else {
                    None
                },
                None => None,
            },
            None => None,
        },
        None => None,
    }
}

/// The frames already read, joined with what the rest of the parse yields.
pub open spec fn join_frames(done: Seq<Seq<u8>>, rest: Option<(Seq<Seq<u8>>, int)>) -> Option<
    (Seq<Seq<u8>>, int),
> {
    match rest {
        Some((fs, q)) => Some((done + fs, q)),
        None => None,
    }
}

/// Parses a resource from its wire form.
#[verifier::loop_isolation(false)]
pub fn decode_resource(data: &Vec<u8>) -> (r: Option<Resource>)
    ensures
        match spec_decode_resource(data@) {
            Some((frames, t)) => r matches Some(res) && res.frames.deep_view() == frames
                && res.frame_time_ms == t,
            None => r is None,
        },
{
    let dlen = data.len();
    proof {
        assert(data@.len() <= u64::MAX);
    }
    let (count, start) = match decode_varint(data, 0) {
        Some(x) => x,
        None => {
            proof {
                match spec_decode_varint(data@, 0) {
                    Some((v, p)) => {
                        lemma_varint_bounds(data@, 0);
                        assert(v > u64::MAX);
                        lemma_frames_need_bytes(data@, p, v);
                    },
                    None => {},
                }
            }
            return None;
        },
    };
    proof {
        lemma_varint_bounds(data@, 0);
    }
    let mut pos = start;
    let mut frames: Vec<Vec<u8>> = Vec::new();
    let mut remaining = count;
    let ghost whole = spec_decode_frames(data@, start as int, count as nat);
    proof {
        assert(frames.deep_view() =~= Seq::<Seq<u8>>::empty());
        match spec_decode_frames(data@, pos as int, remaining as nat) {
            Some((fs0, q0)) => {
                assert(frames.deep_view() + fs0 =~= fs0);
            },
            None => {},
        }
    }
    while remaining > 0
        invariant
            pos <= data@.len(),
            whole == join_frames(
                frames.deep_view(),
                spec_decode_frames(data@, pos as int, remaining as nat),
            ),
        decreases remaining,
    {
        let ghost step = spec_decode_frames(data@, pos as int, remaining as nat);
        let (len, p) = match decode_varint(data, pos) {
            Some(x) => {
                proof {
                    lemma_varint_bounds(data@, pos as int);
                }
                x
            },
            None => {
                proof {
                    match spec_decode_varint(data@, pos as int) {
                        Some((v, q)) => {
                            lemma_varint_bounds(data@, pos as int);
                            assert(v > u64::MAX);
                            assert(q + v > data@.len());
                        },
                        None => {},
                    }
                    assert(step is None);
                }
                return None;
            },
        };
        if len > (data.len() - p) as u64 {
            proof {
                assert(step is None);
            }
            return None;
        }
        let len = len as usize;
        let mut frame: Vec<u8> = Vec::new();
        let mut j: usize = 0;
        while j < len
            invariant
                p + len <= data@.len(),
                j <= len,
                frame@ == data@.subrange(p as int, p as int + j as int),
            decreases len - j,
        {
            frame.push(data[p + j]);
            proof {
                assert(data@.subrange(p as int, p as int + j + 1) =~= data@.subrange(
                    p as int,
                    p as int + j as int,
                ).push(data@[p as int + j]));
            }
            j = j + 1;
        }
        proof {
            assert(frame@ =~= data@.subrange(p as int, p as int + len as int));
        }
        let ghost pre = frames.deep_view();
        frames.push(frame);
        proof {
            assert(frames.deep_view() =~~= pre.push(frame@));
            match spec_decode_frames(data@, p + len as int, (remaining - 1) as nat) {
                Some((rest, q)) => {
                    assert(pre + (seq![frame@] + rest) =~= pre.push(frame@) + rest);
                },
                None => {},
            }
        }
        pos = p + len;
        remaining = remaining - 1;
    }
    proof {
        assert(spec_decode_frames(data@, pos as int, 0) == Some(
            (Seq::<Seq<u8>>::empty(), pos as int),
        ));
        assert(frames.deep_view() + Seq::<Seq<u8>>::empty() =~= frames.deep_view());
        assert(whole == Some((frames.deep_view(), pos as int)));
    }
    let frame_time_ms = match decode_varint(data, pos) {
        Some((t, _)) => {
            if t > 65535 {
                return None;
            }
            t as u16
        },
        None => {
            return None;
        },
    };
    Some(Resource { frames, frame_time_ms })
}

/// Decoding what was encoded yields the resource back.
pub proof fn lemma_resource_roundtrip(frames: Seq<Seq<u8>>, frame_time_ms: u16)
    ensures
        spec_decode_resource(spec_resource_bytes(frames, frame_time_ms)) == Some(
            (frames, frame_time_ms),
        ),
{
    let s = spec_resource_bytes(frames, frame_time_ms);
    let head = spec_varint(frames.len());
    let mid = spec_frames_bytes(frames);
    let tail = spec_varint(frame_time_ms as nat);
    assert(s == head + mid + tail);
    assert(s.subrange(0, head.len() as int) =~= head);
    lemma_varint_roundtrip(s, 0, frames.len());
    let p = head.len() as int;
    assert(s.subrange(p, p + mid.len() as int) =~= mid);
    lemma_frames_roundtrip(s, p, frames);
    let q = p + mid.len() as int;
    assert(s.subrange(q, q + tail.len() as int) =~= tail);
    lemma_varint_roundtrip(s, q, frame_time_ms as nat);
}

} // verus!
