//! What holds of every strict merge.

use vstd::prelude::*;
use crate::le::{le_field, lemma_le_limit_values, lemma_le_value_of_digits};
use crate::merge::{first_issue, fragment_issue, merged_wav, payload_of, payloads};
use crate::roundtrip::{lemma_header_layout, lemma_written_header_parses};
use crate::wav::{
    WavError, WavFmt, effective_fmt_size, header_fits, lemma_found_chunk, parsed_data, parsed_fmt,
    riff_size, tag_fmt, wav_header,
};

verus! {

/// The sum of the lengths of the sequences in `s`.
pub open spec fn total_len(s: Seq<Seq<u8>>) -> nat
    decreases s.len(),
{
    if s.len() == 0 {
        0
    } else {
        total_len(s.drop_last()) + s.last().len()
    }
}

/// Joined end to end, sequences are as long as their lengths sum to.
pub proof fn lemma_flatten_len(s: Seq<Seq<u8>>)
    ensures
        s.flatten().len() == total_len(s),
    decreases s.len(),
{
    if s.len() > 0 {
        lemma_flatten_len(s.drop_last());
        s.drop_last().lemma_flatten_push(s.last());
        assert(s.drop_last().push(s.last()) =~= s);
    }
}

/// A `fmt ` chunk that parses declares at least its sixteen fixed bytes.
pub proof fn lemma_parsed_fmt_size(bytes: Seq<u8>)
    requires
        parsed_fmt(bytes) is Ok,
    ensures
        parsed_fmt(bytes)->Ok_0.1 >= 16,
        effective_fmt_size(parsed_fmt(bytes)->Ok_0.1) == parsed_fmt(bytes)->Ok_0.1,
{
    lemma_found_chunk(bytes, tag_fmt(), 12);
}

/// Where no fragment from `from` on has an issue, none of them has.
pub proof fn lemma_no_issue_everywhere(fmt: WavFmt, parts: Seq<Seq<u8>>, from: int, k: int)
    requires
        0 <= from <= k < parts.len(),
        first_issue(fmt, parts, from) is None,
    ensures
        fragment_issue(fmt, parts[k]) is None,
    decreases k - from,
{
    if from < k {
        lemma_no_issue_everywhere(fmt, parts, from + 1, k);
    }
}

/// The first fragment with an issue decides: where the fragments from `from`
/// up to `k` have none and the one at `k` has one, that one is the first issue.
pub proof fn lemma_first_issue_at(fmt: WavFmt, parts: Seq<Seq<u8>>, from: int, k: int)
    requires
        0 <= from <= k < parts.len(),
        forall|j: int| from <= j < k ==> fragment_issue(fmt, #[trigger] parts[j]) is None,
        fragment_issue(fmt, parts[k]) is Some,
    ensures
        first_issue(fmt, parts, from) == fragment_issue(fmt, parts[k]),
    decreases k - from,
{
    if from < k {
        lemma_first_issue_at(fmt, parts, from + 1, k);
    }
}

/// Merging no fragments gives no bytes, and no error.
pub proof fn lemma_merge_empty()
    ensures
        merged_wav(Seq::<Seq<u8>>::empty()) == Ok::<Seq<u8>, WavError>(Seq::<u8>::empty()),
{
}

/// Merging a single fragment gives a regenerated header followed by that
/// fragment's payload, whatever else the fragment held.
pub proof fn lemma_merge_single(frag: Seq<u8>)
    requires
        parsed_fmt(frag) is Ok,
        parsed_data(frag) is Ok,
        header_fits(parsed_fmt(frag)->Ok_0.1, parsed_data(frag)->Ok_0.len()),
    ensures
        merged_wav(seq![frag]) == Ok::<Seq<u8>, WavError>(
            wav_header(
                parsed_fmt(frag)->Ok_0.0,
                parsed_fmt(frag)->Ok_0.1,
                parsed_data(frag)->Ok_0.len(),
            ) + parsed_data(frag)->Ok_0,
        ),
{
    let parts = seq![frag];
    let fmt = parsed_fmt(frag)->Ok_0.0;
    assert(fragment_issue(fmt, parts[0]) is None);
    assert(first_issue(fmt, parts, 1) is None);
    assert(first_issue(fmt, parts, 0) is None);
    assert(payloads(parts) =~= seq![payload_of(frag)]);
    payloads(parts).lemma_flatten_one_element();
}

/// A merge succeeds exactly when there is no fragment at all, or the first
/// fragment has a descriptor, no fragment has an issue under it, and the sum
/// of the payload lengths fits the header.
pub proof fn lemma_merge_succeeds_iff(parts: Seq<Seq<u8>>)
    ensures
        merged_wav(parts) is Ok <==> (parts.len() == 0 || (parsed_fmt(parts[0]) is Ok && (forall|
            k: int,
        |
            0 <= k < parts.len() ==> fragment_issue(
                parsed_fmt(parts[0])->Ok_0.0,
                #[trigger] parts[k],
            ) is None) && header_fits(
            parsed_fmt(parts[0])->Ok_0.1,
            total_len(payloads(parts)),
        ))),
{
    lemma_flatten_len(payloads(parts));
    if parts.len() > 0 && parsed_fmt(parts[0]) is Ok {
        let fmt = parsed_fmt(parts[0])->Ok_0.0;
        if first_issue(fmt, parts, 0) is None {
            assert forall|k: int| 0 <= k < parts.len() implies fragment_issue(
                fmt,
                #[trigger] parts[k],
            ) is None by {
                lemma_no_issue_everywhere(fmt, parts, 0, k);
            }
        } else {
            if forall|k: int|
                0 <= k < parts.len() ==> fragment_issue(fmt, #[trigger] parts[k]) is None {
                lemma_all_clear(fmt, parts, 0);
            }
        }
    }
}

/// Where no fragment has an issue, there is no first issue.
pub proof fn lemma_all_clear(fmt: WavFmt, parts: Seq<Seq<u8>>, from: int)
    requires
        0 <= from,
        forall|k: int| from <= k < parts.len() ==> fragment_issue(fmt, #[trigger] parts[k]) is None,
    ensures
        first_issue(fmt, parts, from) is None,
    decreases parts.len() - from,
{
    if from < parts.len() {
        lemma_all_clear(fmt, parts, from + 1);
    }
}

/// The size fields of a merge that succeeded: the `data` length field holds
/// the sum of the fragments' payload lengths, and the outer size field holds
/// 4 for the form type, 8 and the declared length for the `fmt ` chunk, and 8
/// and that sum for the `data` chunk. The output parses to the first
/// fragment's descriptor and, where the declared `fmt ` length is even, to
/// the payloads in order.
pub proof fn lemma_merged_sizes(parts: Seq<Seq<u8>>)
    requires
        parts.len() > 0,
        merged_wav(parts) is Ok,
    ensures
        ({
            let out = merged_wav(parts)->Ok_0;
            let fmt = parsed_fmt(parts[0])->Ok_0.0;
            let fmt_size = parsed_fmt(parts[0])->Ok_0.1;
            let sum = total_len(payloads(parts));
            &&& out.len() == 28 + fmt_size + sum
            &&& le_field(out, 4, 4) == 4 + (8 + fmt_size) + (8 + sum)
            &&& le_field(out, 24 + fmt_size, 4) == sum
            &&& out.subrange(28 + fmt_size, 28 + fmt_size + sum) == payloads(parts).flatten()
            &&& parsed_fmt(out) == Ok::<(WavFmt, u32), WavError>((fmt, fmt_size))
            &&& fmt_size % 2 == 0 ==> parsed_data(out) == Ok::<Seq<u8>, WavError>(
                payloads(parts).flatten(),
            )
        }),
{
    let out = merged_wav(parts)->Ok_0;
    let fmt = parsed_fmt(parts[0])->Ok_0.0;
    let fmt_size = parsed_fmt(parts[0])->Ok_0.1;
    let data = payloads(parts).flatten();
    lemma_flatten_len(payloads(parts));
    lemma_parsed_fmt_size(parts[0]);
    lemma_header_layout(fmt, fmt_size, data.len(), data);
    lemma_written_header_parses(fmt, fmt_size, data);
    lemma_le_limit_values();
    lemma_le_value_of_digits(riff_size(fmt_size, data.len()), 4);
    lemma_le_value_of_digits(data.len(), 4);
}

/// A fragment whose descriptor differs from the first one's fails the merge
/// with `FormatMismatch` when every fragment before it is in order.
pub proof fn lemma_mismatch_rejected(parts: Seq<Seq<u8>>, k: int)
    requires
        0 < k < parts.len(),
        parsed_fmt(parts[0]) is Ok,
        forall|j: int|
            0 <= j < k ==> fragment_issue(parsed_fmt(parts[0])->Ok_0.0, #[trigger] parts[j])
                is None,
        parsed_fmt(parts[k]) is Ok,
        parsed_fmt(parts[k])->Ok_0.0 != parsed_fmt(parts[0])->Ok_0.0,
    ensures
        merged_wav(parts) == Err::<Seq<u8>, WavError>(WavError::FormatMismatch),
{
    let fmt = parsed_fmt(parts[0])->Ok_0.0;
    lemma_first_issue_at(fmt, parts, 0, k);
}

/// Two well-formed fragments with different sample rates do not merge: neither
/// rate is picked, the merge fails with `FormatMismatch`.
pub proof fn lemma_sample_rate_mismatch(a: Seq<u8>, b: Seq<u8>)
    requires
        parsed_fmt(a) is Ok,
        parsed_data(a) is Ok,
        parsed_fmt(b) is Ok,
        parsed_fmt(a)->Ok_0.0.sample_rate != parsed_fmt(b)->Ok_0.0.sample_rate,
    ensures
        merged_wav(seq![a, b]) == Err::<Seq<u8>, WavError>(WavError::FormatMismatch),
{
    let parts = seq![a, b];
    let fmt = parsed_fmt(a)->Ok_0.0;
    assert(fragment_issue(fmt, parts[0]) is None);
    lemma_mismatch_rejected(parts, 1);
}

} // verus!
