//! Reassembling the fragments of one document: plain concatenation for
//! frame-based streams, and the strict WAVE merge that checks every fragment
//! against the first and writes one header for the joined payload.

use vstd::prelude::*;
use crate::wav::{
    WavError, WavFmt, header_fits, parse_wav_data, parse_wav_fmt, parsed_data, parsed_fmt,
    wav_header, write_wav_header,
};

verus! {

/// The fragments as byte sequences.
pub open spec fn views(parts: Seq<&[u8]>) -> Seq<Seq<u8>> {
    parts.map_values(|p: &[u8]| p@)
}

/// What stands in the way of merging a fragment under the descriptor `fmt`
/// of the first one: its own parse failure, a descriptor that differs in any
/// field, or a missing payload, in that order.
pub open spec fn fragment_issue(fmt: WavFmt, bytes: Seq<u8>) -> Option<WavError> {
    match parsed_fmt(bytes) {
        Err(e) => Some(e),
        Ok((f, _)) => if f != fmt {
            Some(WavError::FormatMismatch)
        } else {
            match parsed_data(bytes) {
                Err(e) => Some(e),
                Ok(_) => None,
            }
        },
    }
}

/// The issue of the first fragment at or after `from` that has one.
pub open spec fn first_issue(fmt: WavFmt, parts: Seq<Seq<u8>>, from: int) -> Option<WavError>
    decreases parts.len() - from,
{
    if from < 0 || from >= parts.len() {
        None
    } else if fragment_issue(fmt, parts[from]) is Some {
        fragment_issue(fmt, parts[from])
    } else {
        first_issue(fmt, parts, from + 1)
    }
}

/// The payload of a fragment's first `data` chunk; empty where it has none.
pub open spec fn payload_of(bytes: Seq<u8>) -> Seq<u8> {
    match parsed_data(bytes) {
        Ok(data) => data,
        Err(_) => Seq::empty(),
    }
}

/// The payloads of the fragments, in order.
pub open spec fn payloads(parts: Seq<Seq<u8>>) -> Seq<Seq<u8>> {
    parts.map_values(|p: Seq<u8>| payload_of(p))
}

/// The strict merge. No fragments give no bytes. Otherwise the first
/// fragment sets descriptor and declared `fmt ` length; the first fragment in
/// order with an issue fails the whole merge with that issue; and the result
/// is one header for the sum of the payload lengths, then the payloads.
pub open spec fn merged_wav(parts: Seq<Seq<u8>>) -> Result<Seq<u8>, WavError> {
    if parts.len() == 0 {
        Ok(Seq::empty())
    } else {
        match parsed_fmt(parts[0]) {
            Err(e) => Err(e),
            Ok((fmt, fmt_size)) => match first_issue(fmt, parts, 0) {
                Some(e) => Err(e),
                None => {
                    let data = payloads(parts).flatten();
                    if header_fits(fmt_size, data.len()) {
                        Ok(wav_header(fmt, fmt_size, data.len()) + data)
                    } else {
                        Err(WavError::SizeOverflow)
                    }
                },
            },
        }
    }
}

/// Joins the fragments byte for byte, in order.
pub fn merge_concat(parts: &[&[u8]]) -> (out: Vec<u8>)
    ensures
        out@ == views(parts@).flatten(),
{
    let mut out: Vec<u8> = Vec::new();
    let n: usize = parts.len();
    let mut i: usize = 0;
    while i < n
        invariant
            i <= n,
            n == parts@.len(),
            out@ == views(parts@).take(i as int).flatten(),
        decreases n - i,
    {
        let part: &[u8] = parts[i];
        out.extend_from_slice(part);
        proof {
            let done = views(parts@).take(i as int);
            assert(views(parts@).take(i + 1) =~= done.push(part@));
            done.lemma_flatten_push(part@);
        }
        i = i + 1;
    }
    proof {
        assert(views(parts@).take(n as int) =~= views(parts@));
    }
    out
}

/// Joins MP3 fragments: frames carry their own sync marker and length, so
/// fragments joined end to end stay decodable.
pub fn merge_mp3(parts: &[&[u8]]) -> (out: Vec<u8>)
    ensures
        out@ == views(parts@).flatten(),
{
    merge_concat(parts)
}

/// Merges WAVE fragments of one format into one file, or fails with the
/// first issue and no partial output.
pub fn try_merge_wav(parts: &[&[u8]]) -> (r: Result<Vec<u8>, WavError>)
    ensures
        match r {
            Ok(out) => merged_wav(views(parts@)) == Ok::<Seq<u8>, WavError>(out@),
            Err(e) => merged_wav(views(parts@)) == Err::<Seq<u8>, WavError>(e),
        },
{
    let n: usize = parts.len();
    if n == 0 {
        return Ok(Vec::new());
    }
    let ghost all = views(parts@);
    let first: &[u8] = parts[0];
    let (fmt, fmt_size) = match parse_wav_fmt(first) {
        Err(e) => {
            return Err(e);
        },
        Ok(found) => found,
    };
    let mut blobs: Vec<&[u8]> = Vec::new();
    // The sum of the payload lengths, held at the 32-bit limit once it passes it.
    let mut total: usize = 0;
    let mut i: usize = 0;
    proof {
        assert(payloads(all).take(0).flatten() =~= Seq::<u8>::empty());
    }
    while i < n
        invariant
            i <= n,
            n == parts@.len(),
            all == views(parts@),
            parsed_fmt(all[0]) == Ok::<(WavFmt, u32), WavError>((fmt, fmt_size)),
            first_issue(fmt, all, 0) == first_issue(fmt, all, i as int),
            blobs@.len() == i,
            views(blobs@) == payloads(all).take(i as int),
            total <= 0xffff_ffff,
            total as int == if payloads(all).take(i as int).flatten().len() < 0xffff_ffff {
                payloads(all).take(i as int).flatten().len() as int
            } else {
                0xffff_ffff
            },
        decreases n - i,
    {
        let part: &[u8] = parts[i];
        assert(all[i as int] == part@);
        if i > 0 {
            match parse_wav_fmt(part) {
                Err(e) => {
                    return Err(e);
                },
                Ok((fmt_n, _)) => {
                    if fmt_n != fmt {
                        return Err(WavError::FormatMismatch);
                    }
                },
            }
        }
        let data: &[u8] = match parse_wav_data(part) {
            Err(e) => {
                return Err(e);
            },
            Ok(data) => data,
        };
        proof {
            let done = payloads(all).take(i as int);
            assert(fragment_issue(fmt, all[i as int]) is None);
            assert(payload_of(all[i as int]) == data@);
            assert(payloads(all).take(i + 1) =~= done.push(data@));
            done.lemma_flatten_push(data@);
            assert(views(blobs@.push(data)) =~= views(blobs@).push(data@));
        }
        blobs.push(data);
        total = if data.len() >= 0xffff_ffff - total {
            0xffff_ffff
        } else {
            total + data.len()
        };
        i = i + 1;
    }
    proof {
        assert(payloads(all).take(n as int) =~= payloads(all));
        assert(first_issue(fmt, all, n as int) is None);
    }
    let mut out: Vec<u8> = Vec::new();
    match write_wav_header(&mut out, &fmt, fmt_size, total) {
        Err(e) => {
            return Err(e);
        },
        Ok(()) => {},
    }
    let ghost header = out@;
    let mut k: usize = 0;
    proof {
        assert(views(blobs@).take(0).flatten() =~= Seq::<u8>::empty());
        assert(out@ =~= header + views(blobs@).take(0).flatten());
    }
    while k < n
        invariant
            k <= n,
            blobs@.len() == n,
            out@ == header + views(blobs@).take(k as int).flatten(),
        decreases n - k,
    {
        let blob: &[u8] = blobs[k];
        out.extend_from_slice(blob);
        proof {
            let done = views(blobs@).take(k as int);
            assert(views(blobs@).take(k + 1) =~= done.push(blob@));
            done.lemma_flatten_push(blob@);
            assert(out@ =~= header + done.push(blob@).flatten());
        }
        k = k + 1;
    }
    proof {
        assert(views(blobs@).take(n as int) =~= views(blobs@));
    }
    Ok(out)
}

} // verus!
