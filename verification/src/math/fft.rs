use vstd::prelude::*;

verus! {

/// The samples a spectrum is computed from: the last `window_size` entries
/// of `record`, or all of `record` followed by `pad` up to `window_size`
/// entries when the record is shorter.
pub open spec fn spec_fft_window<T>(record: Seq<T>, window_size: int, pad: T) -> Seq<T> {
    if record.len() < window_size {
        record + Seq::new((window_size - record.len()) as nat, |_i: int| pad)
    } else {
        record.subrange(record.len() - window_size, record.len() as int)
    }
}

/// Selects the window of a microphone's record that its spectrum is
/// computed from: always exactly `window_size` entries, the most recent ones,
/// padded at the end when the record is too short.
pub fn fft_window<T: Copy>(record: &Vec<T>, window_size: usize, pad: T) -> (window: Vec<T>)
    ensures
        window@ == spec_fft_window(record@, window_size as int, pad),
        window.len() == window_size,
{
    let mut window: Vec<T> = Vec::new();
    let len = record.len();
    let start = if len < window_size {
        0
    } else {
        len - window_size
    };
    let mut i = start;
    while i < len
        invariant
            start <= i <= len,
            len == record.len(),
            start == (if len < window_size {
                0
            } else {
                len - window_size
            }),
            window@ == record@.subrange(start as int, i as int),
        decreases len - i,
    {
        window.push(record[i]);
        i = i + 1;
    }
    let mut k = len - start;
    while k < window_size
        invariant
            len - start <= k <= window_size || (len - start > window_size && k == len - start),
            len == record.len(),
            start == (if len < window_size {
                0
            } else {
                len - window_size
            }),
            window@ == record@.subrange(start as int, len as int) + Seq::new(
                (k - (len - start)) as nat,
                |_i: int| pad,
            ),
        decreases window_size - k,
    {
        window.push(pad);
        k = k + 1;
    }
    assert(window@ =~= spec_fft_window(record@, window_size as int, pad));
    window
}

/// The window holds exactly `window_size` samples. A record at least that
/// long gives its newest samples, in order, the newest last; a shorter
/// record gives all its samples first, in order, and the padding after them.
pub proof fn lemma_fft_window_newest_last<T>(record: Seq<T>, window_size: int, pad: T)
    requires
        0 <= window_size,
    ensures
        spec_fft_window(record, window_size, pad).len() == window_size,
        record.len() >= window_size ==> forall|j: int|
            0 <= j < window_size ==> #[trigger] spec_fft_window(record, window_size, pad)[j]
                == record[record.len() - window_size + j],
        record.len() < window_size ==> forall|j: int|
            0 <= j < window_size ==> #[trigger] spec_fft_window(record, window_size, pad)[j] == if j
                < record.len() {
                record[j]
            } else {
                pad
            },
{
}

/// The history after one spectrum was added: the old entries with the new
/// one appended, the oldest dropped when there are more than `max_len`.
pub open spec fn spec_push_history<T>(history: Seq<T>, item: T, max_len: int) -> Seq<T> {
    if history.len() + 1 > max_len {
        history.push(item).drop_first()
    } else {
        history.push(item)
    }
}

/// Adding to the history never lets it grow past `max_len` or past one
/// more than before; the newest entry is last (unless `max_len` is zero, when
/// the history stays empty), and the entries before it are the newest of the
/// old ones, in order.
pub proof fn lemma_push_history_keeps_newest<T>(history: Seq<T>, item: T, max_len: int)
    requires
        history.len() <= max_len,
    ensures
        spec_push_history(history, item, max_len).len() == if history.len() < max_len {
            history.len() as int + 1
        } else {
            history.len() as int
        },
        spec_push_history(history, item, max_len).len() <= max_len,
        max_len > 0 ==> spec_push_history(history, item, max_len).last() == item,
        forall|j: int|
            0 <= j < spec_push_history(history, item, max_len).len() - 1 ==> #[trigger] spec_push_history(
                history,
                item,
                max_len,
            )[j] == history[history.len() + 1 - spec_push_history(history, item, max_len).len() + j],
{
}

/// Appends `item` to a history that keeps at most `max_len` entries: when
/// the history grows past `max_len`, its oldest entry is dropped.
pub fn push_history<T>(history: &mut Vec<T>, item: T, max_len: usize)
    requires
        old(history).len() < usize::MAX,
    ensures
        final(history)@ == if old(history).len() + 1 > max_len {
            old(history)@.push(item).drop_first()
        } else {
            old(history)@.push(item)
        },
        final(history)@ == spec_push_history(old(history)@, item, max_len as int),
{
    history.push(item);
    if history.len() > max_len {
        history.remove(0);
    }
}

} // verus!
