use vstd::prelude::*;
use crate::text::{chars_of, contains_chars, contains_seq, lowercase, lowercase_chars, strings_view};

verus! {

/// Whether an input device's name marks a monitor or loopback source, which captures
/// the system's own sound.
pub open spec fn is_monitor_name(name: Seq<char>) -> bool {
    contains_seq(lowercase(name), "monitor"@) || contains_seq(lowercase(name), "loopback"@)
}

/// Whether an input device's name looks like a microphone.
pub open spec fn is_mic_name(name: Seq<char>) -> bool {
    let l = lowercase(name);
    contains_seq(l, "mic"@) || contains_seq(l, "input"@) || contains_seq(l, "capture"@)
        || contains_seq(l, "webcam"@) || contains_seq(l, "headset"@)
}

/// The first device that looks like a microphone and is not a monitor source.
pub open spec fn first_mic(names: Seq<Seq<char>>) -> Option<int>
    decreases names.len(),
{
    if names.len() == 0 {
        None
    } else if !is_monitor_name(names[0]) && is_mic_name(names[0]) {
        Some(0)
    } else {
        match first_mic(names.drop_first()) {
            Some(i) => Some(i + 1),
            None => None,
        }
    }
}

/// The first device that is not a monitor source.
pub open spec fn first_non_monitor(names: Seq<Seq<char>>) -> Option<int>
    decreases names.len(),
{
    if names.len() == 0 {
        None
    } else if !is_monitor_name(names[0]) {
        Some(0)
    } else {
        match first_non_monitor(names.drop_first()) {
            Some(i) => Some(i + 1),
            None => None,
        }
    }
}

/// The input device to record from: the first that looks like a microphone, else the
/// first that is not a monitor source; never a monitor or loopback source.
pub open spec fn microphone_choice(names: Seq<Seq<char>>) -> Option<int> {
    match first_mic(names) {
        Some(i) => Some(i),
        None => first_non_monitor(names),
    }
}

fn name_is_monitor(name: &String) -> (r: bool)
    ensures
        r == is_monitor_name(name@),
{
    let l = lowercase_chars(name.as_str());
    contains_chars(&l, &chars_of("monitor")) || contains_chars(&l, &chars_of("loopback"))
}

fn name_is_mic(name: &String) -> (r: bool)
    ensures
        r == is_mic_name(name@),
{
    let l = lowercase_chars(name.as_str());
    contains_chars(&l, &chars_of("mic")) || contains_chars(&l, &chars_of("input"))
        || contains_chars(&l, &chars_of("capture")) || contains_chars(&l, &chars_of("webcam"))
        || contains_chars(&l, &chars_of("headset"))
}

/// Shifts an optional position by `by`.
pub open spec fn shift(o: Option<int>, by: int) -> Option<int> {
    match o {
        Some(i) => Some(i + by),
        None => None,
    }
}

/// Which of the input devices, by name, to record from (see `microphone_choice`).
pub fn choose_microphone(names: &Vec<String>) -> (r: Option<usize>)
    ensures
        match microphone_choice(strings_view(names@)) {
            Some(i) => r == Some(i as usize),
            None => r is None,
        },
{
    let ghost v = strings_view(names@);
    let mut fallback: Option<usize> = None;
    let mut i: usize = 0;
    assert(v.skip(0) =~= v);
    while i < names.len()
        invariant
            i <= names.len(),
            v == strings_view(names@),
            first_mic(v) == shift(first_mic(v.skip(i as int)), i as int),
            match fallback {
                Some(f) => first_non_monitor(v) == Some(f as int) && f < i,
                None => first_non_monitor(v) == shift(first_non_monitor(v.skip(i as int)), i as int),
            },
        decreases names.len() - i,
    {
        assert(v.skip(i as int)[0] == names@[i as int]@);
        assert(v.skip(i as int).drop_first() =~= v.skip(i + 1));
        let monitor = name_is_monitor(&names[i]);
        if !monitor {
            if name_is_mic(&names[i]) {
                return Some(i);
            }
            if fallback.is_none() {
                fallback = Some(i);
            }
        }
        i = i + 1;
    }
    assert(v.skip(i as int).len() == 0);
    fallback
}


proof fn lemma_first_mic(names: Seq<Seq<char>>)
    ensures
        first_mic(names) matches Some(i) ==> 0 <= i < names.len() && !is_monitor_name(names[i])
            && is_mic_name(names[i]),
        first_non_monitor(names) matches Some(i) ==> 0 <= i < names.len() && !is_monitor_name(
            names[i],
        ),
    decreases names.len(),
{
    if names.len() > 0 {
        lemma_first_mic(names.drop_first());
    }
}

/// The device chosen to record from is never a monitor or loopback source; it looks
/// like a microphone whenever some non-monitor device does.
pub proof fn lemma_microphone_never_monitor(names: Seq<Seq<char>>)
    ensures
        microphone_choice(names) matches Some(i) ==> 0 <= i < names.len() && !is_monitor_name(
            names[i],
        ),
        (exists|j: int| 0 <= j < names.len() && !is_monitor_name(names[j]) && is_mic_name(#[trigger] names[j]))
            ==> (microphone_choice(names) matches Some(i) && is_mic_name(names[i])),
    decreases names.len(),
{
    lemma_first_mic(names);
    if exists|j: int| 0 <= j < names.len() && !is_monitor_name(names[j]) && is_mic_name(#[trigger] names[j]) {
        lemma_first_mic_exists(names);
    }
}

proof fn lemma_first_mic_exists(names: Seq<Seq<char>>)
    requires
        exists|j: int| 0 <= j < names.len() && !is_monitor_name(names[j]) && is_mic_name(#[trigger] names[j]),
    ensures
        first_mic(names) is Some,
    decreases names.len(),
{
    if !(!is_monitor_name(names[0]) && is_mic_name(names[0])) {
        let j = choose|j: int| 0 <= j < names.len() && !is_monitor_name(names[j]) && is_mic_name(#[trigger] names[j]);
        assert(names.drop_first()[j - 1] == names[j]);
        lemma_first_mic_exists(names.drop_first());
    }
}

/// Whether a file in `/dev/input` is an event device (its name starts with "event").
pub fn is_event_node(file_name: &str) -> (r: bool)
    ensures
        r == (file_name@.len() >= 5 && file_name@.take(5) == "event"@),
{
    let v = chars_of(file_name);
    if v.len() < 5 {
        return false;
    }
    let head = crate::text::sub_chars(&v, 0, 5);
    assert(head@ =~= v@.take(5));
    crate::text::chars_eq_str(&head, "event")
}

/// The frames of at most `size` samples that cover samples `pos..len` in order, each
/// as its start and end: all of `size` samples but the last, which takes what is left.
pub open spec fn frames_from(pos: nat, len: nat, size: nat) -> Seq<(nat, nat)>
    decreases len - pos,
{
    if size == 0 || pos >= len {
        Seq::empty()
    } else {
        let end: nat = if pos + size <= len {
            pos + size
        } else {
            len
        };
        seq![(pos, end)] + frames_from(end, len, size)
    }
}

/// The view of frame bounds.
pub open spec fn bounds_view(v: Seq<(usize, usize)>) -> Seq<(nat, nat)> {
    v.map_values(|p: (usize, usize)| (p.0 as nat, p.1 as nat))
}

/// The frames of `size` samples (the last one possibly shorter) that `len` samples
/// are processed in, as start and end positions.
pub fn frame_bounds(len: usize, size: usize) -> (r: Vec<(usize, usize)>)
    requires
        size > 0,
    ensures
        bounds_view(r@) == frames_from(0, len as nat, size as nat),
{
    let mut r: Vec<(usize, usize)> = Vec::new();
    let mut pos: usize = 0;
    while pos < len
        invariant
            pos <= len,
            size > 0,
            bounds_view(r@) + frames_from(pos as nat, len as nat, size as nat) == frames_from(
                0,
                len as nat,
                size as nat,
            ),
        decreases len - pos,
    {
        let end = if size <= len - pos {
            pos + size
        } else {
            len
        };
        let ghost before = bounds_view(r@);
        r.push((pos, end));
        assert(bounds_view(r@) =~= before + seq![(pos as nat, end as nat)]);
        assert(bounds_view(r@) + frames_from(end as nat, len as nat, size as nat) =~= before
            + frames_from(pos as nat, len as nat, size as nat));
        pos = end;
    }
    assert(frames_from(pos as nat, len as nat, size as nat) =~= Seq::<(nat, nat)>::empty());
    assert(bounds_view(r@) =~= bounds_view(r@) + Seq::<(nat, nat)>::empty());
    r
}

proof fn lemma_frames_from_tile(pos: nat, len: nat, size: nat)
    requires
        size > 0,
        pos <= len,
    ensures
        ({
            let f = frames_from(pos, len, size);
            &&& (pos == len) == (f.len() == 0)
            &&& f.len() > 0 ==> f[0].0 == pos && f.last().1 == len
            &&& forall|i: int| 0 <= i < f.len() ==> f[i].0 < #[trigger] f[i].1 <= f[i].0 + size
            &&& forall|i: int| 0 <= i < f.len() - 1 ==> #[trigger] f[i].1 == f[i + 1].0 && f[i].1
                == f[i].0 + size
        }),
    decreases len - pos,
{
    if pos < len {
        let end: nat = if pos + size <= len {
            pos + size
        } else {
            len
        };
        lemma_frames_from_tile(end, len, size);
        let rest = frames_from(end, len, size);
        let f = frames_from(pos, len, size);
        assert(f == seq![(pos, end)] + rest);
        assert forall|i: int| 0 <= i < f.len() implies f[i].0 < #[trigger] f[i].1 <= f[i].0 + size by {
            if i > 0 {
                assert(f[i] == rest[i - 1]);
            }
        }
        assert forall|i: int| 0 <= i < f.len() - 1 implies #[trigger] f[i].1 == f[i + 1].0 && f[i].1
            == f[i].0 + size by {
            if i > 0 {
                assert(f[i] == rest[i - 1]);
                assert(f[i + 1] == rest[i]);
            } else {
                assert(f[1] == rest[0]);
            }
        }
        if rest.len() > 0 {
            assert(f.last() == rest.last());
        }
    }
}

/// The frames tile the samples: they start at 0, each begins where the one before
/// ends, all but the last hold exactly `size` samples, none is empty or longer than
/// `size`, and the last ends at `len` (no frames for no samples).
pub proof fn lemma_frames_tile(len: nat, size: nat)
    requires
        size > 0,
    ensures
        ({
            let f = frames_from(0, len, size);
            &&& (len == 0) == (f.len() == 0)
            &&& f.len() > 0 ==> f[0].0 == 0 && f.last().1 == len
            &&& forall|i: int| 0 <= i < f.len() ==> f[i].0 < #[trigger] f[i].1 <= f[i].0 + size
            &&& forall|i: int| 0 <= i < f.len() - 1 ==> #[trigger] f[i].1 == f[i + 1].0 && f[i].1
                == f[i].0 + size
        }),
{
    lemma_frames_from_tile(0, len, size);
}

} // verus!
