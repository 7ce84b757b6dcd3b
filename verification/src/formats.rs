//! Buffer constraints: what a client's buffer has to be to receive a frame.
use vstd::prelude::*;

use crate::geometry::Size;

verus! {

/// The fourcc code of the 32-bit format without alpha, `XR24`.
pub const XRGB8888: u32 = 0x3432_5258;

/// The fourcc code of the 32-bit format with alpha, `AR24`.
pub const ARGB8888: u32 = 0x3432_5241;

/// A pixel format of a shared-memory buffer.
#[derive(Clone, Copy, PartialEq, Eq, Structural, Debug)]
pub enum ShmFormat {
    Argb8888,
    Xrgb8888,
}

/// A format that the renderer can render to: a fourcc code and a layout modifier.
#[derive(Clone, Copy, PartialEq, Eq, Structural, Debug)]
pub struct DmabufFormat {
    pub code: u32,
    pub modifier: u64,
}

/// The dmabufs that a capture accepts: the device that they have to be allocated on, and the
/// fourcc codes, in order of preference, each with its modifiers.
#[derive(PartialEq, Eq, Debug)]
pub struct DmabufConstraints {
    pub node: u64,
    pub formats: Vec<(u32, Vec<u64>)>,
}

/// The buffers that a capture accepts.
#[derive(PartialEq, Eq, Debug)]
pub struct BufferConstraints {
    pub size: Size,
    pub shm: Vec<ShmFormat>,
    pub dma: Option<DmabufConstraints>,
}

/// The contents of [`DmabufConstraints`].
#[verifier::ext_equal]
pub struct DmabufConstraintsView {
    pub node: u64,
    pub formats: Seq<(u32, Seq<u64>)>,
}

/// The contents of [`BufferConstraints`].
#[verifier::ext_equal]
pub struct BufferConstraintsView {
    pub size: Size,
    pub shm: Seq<ShmFormat>,
    pub dma: Option<DmabufConstraintsView>,
}

/// The contents of a format list.
pub open spec fn formats_view(formats: Seq<(u32, Vec<u64>)>) -> Seq<(u32, Seq<u64>)> {
    formats.map_values(|f: (u32, Vec<u64>)| (f.0, f.1@))
}

impl View for DmabufConstraints {
    type V = DmabufConstraintsView;

    open spec fn view(&self) -> DmabufConstraintsView {
        DmabufConstraintsView { node: self.node, formats: formats_view(self.formats@) }
    }
}

impl View for BufferConstraints {
    type V = BufferConstraintsView;

    open spec fn view(&self) -> BufferConstraintsView {
        BufferConstraintsView {
            size: self.size,
            shm: self.shm@,
            dma: match self.dma {
                Some(dma) => Some(dma@),
                None => None,
            },
        }
    }
}

/// The distinct codes of a format list, in the order in which they first occur.
pub open spec fn first_seen(formats: Seq<DmabufFormat>) -> Seq<u32>
    decreases formats.len(),
{
    if formats.len() == 0 {
        Seq::empty()
    } else {
        let before = first_seen(formats.drop_last());
        if before.contains(formats.last().code) {
            before
        } else {
            before.push(formats.last().code)
        }
    }
}

/// The modifiers that a format list has for a code, in its order.
pub open spec fn modifiers_of(formats: Seq<DmabufFormat>, code: u32) -> Seq<u64>
    decreases formats.len(),
{
    if formats.len() == 0 {
        Seq::empty()
    } else if formats.last().code == code {
        modifiers_of(formats.drop_last(), code).push(formats.last().modifier)
    } else {
        modifiers_of(formats.drop_last(), code)
    }
}

/// The rank of a code: some clients always take the first format that is advertised.
pub open spec fn rank(code: u32) -> int {
    if code == XRGB8888 {
        0
    } else if code == ARGB8888 {
        1
    } else {
        2
    }
}

/// The codes of a rank, in their order.
pub open spec fn of_rank(codes: Seq<u32>, r: int) -> Seq<u32> {
    codes.filter(|code: u32| rank(code) == r)
}

/// The codes by rank; codes of one rank keep their order.
pub open spec fn preferred_first(codes: Seq<u32>) -> Seq<u32> {
    of_rank(codes, 0) + of_rank(codes, 1) + of_rank(codes, 2)
}

/// The renderer lists a code before it first lists another.
pub open spec fn listed_before(formats: Seq<DmabufFormat>, first: u32, second: u32) -> bool {
    exists|p: int|
        0 <= p < formats.len() && (#[trigger] formats[p]).code == first && forall|q: int|
            0 <= q <= p ==> (#[trigger] formats[q]).code != second
}

/// What is advertised for the formats of a renderer: each code once, by rank and then in the
/// renderer's order, with all of its modifiers in the renderer's order.
pub open spec fn advertised(formats: Seq<DmabufFormat>) -> Seq<(u32, Seq<u64>)> {
    preferred_first(first_seen(formats)).map_values(
        |code: u32| (code, modifiers_of(formats, code)),
    )
}

fn format_rank(code: u32) -> (r: u8)
    ensures
        r == rank(code),
{
    if code == XRGB8888 {
        0
    } else if code == ARGB8888 {
        1
    } else {
        2
    }
}

fn contains_code(codes: &Vec<u32>, code: u32) -> (r: bool)
    ensures
        r == codes@.contains(code),
{
    let mut i: usize = 0;
    while i < codes.len()
        invariant
            i <= codes.len(),
            forall|j: int| 0 <= j < i ==> codes@[j] != code,
        decreases codes.len() - i,
    {
        if codes[i] == code {
            return true;
        }
        i += 1;
    }
    false
}

fn collect_codes(formats: &Vec<DmabufFormat>) -> (codes: Vec<u32>)
    ensures
        codes@ == first_seen(formats@),
{
    let mut codes: Vec<u32> = Vec::new();
    let mut i: usize = 0;
    assert(formats@.take(0).len() == 0);
    while i < formats.len()
        invariant
            i <= formats.len(),
            codes@ == first_seen(formats@.take(i as int)),
        decreases formats.len() - i,
    {
        let code = formats[i].code;
        if !contains_code(&codes, code) {
            codes.push(code);
        }
        assert(formats@.take(i + 1).drop_last() == formats@.take(i as int));
        i += 1;
    }
    assert(formats@.take(i as int) == formats@);
    codes
}

fn collect_modifiers(formats: &Vec<DmabufFormat>, code: u32) -> (modifiers: Vec<u64>)
    ensures
        modifiers@ == modifiers_of(formats@, code),
{
    let mut modifiers: Vec<u64> = Vec::new();
    let mut i: usize = 0;
    assert(formats@.take(0).len() == 0);
    while i < formats.len()
        invariant
            i <= formats.len(),
            modifiers@ == modifiers_of(formats@.take(i as int), code),
        decreases formats.len() - i,
    {
        if formats[i].code == code {
            modifiers.push(formats[i].modifier);
        }
        assert(formats@.take(i + 1).drop_last() == formats@.take(i as int));
        i += 1;
    }
    assert(formats@.take(i as int) == formats@);
    modifiers
}

fn push_of_rank(codes: &Vec<u32>, r: u8, sorted: &mut Vec<u32>)
    ensures
        final(sorted)@ == old(sorted)@ + of_rank(codes@, r as int),
{
    let ghost before = sorted@;
    let ghost pred = |code: u32| rank(code) == r as int;
    let mut i: usize = 0;
    proof {
        reveal(Seq::filter);
        assert(codes@.take(0).filter(pred) == Seq::<u32>::empty());
    }
    assert(sorted@ == before + codes@.take(0).filter(pred));
    while i < codes.len()
        invariant
            i <= codes.len(),
            pred == (|code: u32| rank(code) == r as int),
            sorted@ == before + codes@.take(i as int).filter(pred),
        decreases codes.len() - i,
    {
        if format_rank(codes[i]) == r {
            sorted.push(codes[i]);
        }
        proof {
            reveal(Seq::filter);
            assert(codes@.take(i + 1).drop_last() == codes@.take(i as int));
        }
        i += 1;
    }
    assert(codes@.take(i as int) == codes@);
}

/// Groups the formats of a renderer by code and puts the preferred codes first.
pub fn group_formats(formats: &Vec<DmabufFormat>) -> (grouped: Vec<(u32, Vec<u64>)>)
    ensures
        formats_view(grouped@) == advertised(formats@),
{
    // Keep the renderer's order, which is stable: clients rely on the list not changing between
    // constraint updates to re-select the same format.
    let codes = collect_codes(formats);

    // Xrgb8888 and Argb8888 come first since some clients always take the first format.
    let mut sorted: Vec<u32> = Vec::new();
    push_of_rank(&codes, 0, &mut sorted);
    push_of_rank(&codes, 1, &mut sorted);
    push_of_rank(&codes, 2, &mut sorted);
    assert(sorted@ == preferred_first(first_seen(formats@)));

    let mut grouped: Vec<(u32, Vec<u64>)> = Vec::new();
    let mut i: usize = 0;
    while i < sorted.len()
        invariant
            i <= sorted.len(),
            sorted@ == preferred_first(first_seen(formats@)),
            formats_view(grouped@) == advertised(formats@).take(i as int),
        decreases sorted.len() - i,
    {
        let code = sorted[i];
        let modifiers = collect_modifiers(formats, code);
        let ghost before = grouped@;
        grouped.push((code, modifiers));
        assert(formats_view(grouped@) == formats_view(before).push((code, modifiers@)));
        assert(advertised(formats@).take(i + 1) == advertised(formats@).take(i as int).push(
            advertised(formats@)[i as int],
        ));
        i += 1;
    }
    assert(advertised(formats@).take(i as int) == advertised(formats@));
    grouped
}

proof fn lemma_first_seen(formats: Seq<DmabufFormat>)
    ensures
        first_seen(formats).no_duplicates(),
        forall|i: int|
            0 <= i < formats.len() ==> first_seen(formats).contains(
                (#[trigger] formats[i]).code,
            ),
        forall|j: int|
            0 <= j < first_seen(formats).len() ==> exists|i: int|
                0 <= i < formats.len() && (#[trigger] formats[i]).code == #[trigger] first_seen(
                    formats,
                )[j],
    decreases formats.len(),
{
    if formats.len() > 0 {
        let rest = formats.drop_last();
        let code = formats.last().code;
        lemma_first_seen(rest);
        let codes = first_seen(formats);
        assert forall|i: int| 0 <= i < formats.len() implies codes.contains(
            (#[trigger] formats[i]).code,
        ) by {
            if i < rest.len() {
                assert(first_seen(rest).contains(rest[i].code));
                let k = choose|k: int|
                    0 <= k < first_seen(rest).len() && first_seen(rest)[k] == rest[i].code;
                assert(codes[k] == formats[i].code);
            } else if !first_seen(rest).contains(code) {
                assert(codes.last() == code);
            }
        }
        assert forall|j: int| 0 <= j < codes.len() implies exists|i: int|
            0 <= i < formats.len() && (#[trigger] formats[i]).code == #[trigger] codes[j] by {
            if j < first_seen(rest).len() {
                let i = choose|i: int|
                    0 <= i < rest.len() && (#[trigger] rest[i]).code == first_seen(rest)[j];
                assert(formats[i].code == codes[j]);
            } else {
                assert(formats[formats.len() - 1].code == codes[j]);
            }
        }
    }
}

proof fn lemma_modifiers_of(formats: Seq<DmabufFormat>, code: u32, modifier: u64)
    ensures
        modifiers_of(formats, code).contains(modifier) <==> formats.contains(
            (DmabufFormat { code, modifier }),
        ),
    decreases formats.len(),
{
    if formats.len() > 0 {
        let rest = formats.drop_last();
        let all = modifiers_of(formats, code);
        let before = modifiers_of(rest, code);
        let format = DmabufFormat { code, modifier };
        lemma_modifiers_of(rest, code, modifier);
        if formats.contains(format) {
            if formats.last() == format {
                assert(all.last() == modifier);
            } else {
                let i = choose|i: int| 0 <= i < formats.len() && formats[i] == format;
                assert(rest[i] == format);
                let k = choose|k: int| 0 <= k < before.len() && before[k] == modifier;
                assert(all[k] == modifier);
            }
        }
        if all.contains(modifier) {
            let k = choose|k: int| 0 <= k < all.len() && all[k] == modifier;
            if k < before.len() {
                assert(before[k] == modifier);
                let i = choose|i: int| 0 <= i < rest.len() && rest[i] == format;
                assert(formats[i] == format);
            } else {
                assert(formats[formats.len() - 1] == format);
            }
        }
    }
}

proof fn lemma_of_rank(codes: Seq<u32>, r: int)
    ensures
        forall|code: u32| #[trigger]
            of_rank(codes, r).contains(code) <==> codes.contains(code) && rank(code) == r,
        codes.no_duplicates() ==> of_rank(codes, r).no_duplicates(),
    decreases codes.len(),
{
    reveal(Seq::filter);
    if codes.len() > 0 {
        let rest = codes.drop_last();
        let all = of_rank(codes, r);
        let before = of_rank(rest, r);
        lemma_of_rank(rest, r);
        assert forall|code: u32| #[trigger] all.contains(code) <==> codes.contains(code) && rank(
            code,
        ) == r by {
            if all.contains(code) {
                let k = choose|k: int| 0 <= k < all.len() && all[k] == code;
                if k < before.len() {
                    assert(before.contains(code));
                    let i = choose|i: int| 0 <= i < rest.len() && rest[i] == code;
                    assert(codes[i] == code);
                } else {
                    assert(codes[codes.len() - 1] == code);
                }
            }
            if codes.contains(code) && rank(code) == r {
                let i = choose|i: int| 0 <= i < codes.len() && codes[i] == code;
                if i < rest.len() {
                    assert(rest[i] == code);
                    assert(before.contains(code));
                    let k = choose|k: int| 0 <= k < before.len() && before[k] == code;
                    assert(all[k] == code);
                } else {
                    assert(all.last() == code);
                }
            }
        }
        if codes.no_duplicates() {
            assert forall|a: int, b: int|
                0 <= a < all.len() && 0 <= b < all.len() && a != b implies all[a] != all[b] by {
                if rank(codes.last()) == r {
                    if a == before.len() {
                        assert(before.contains(all[b]));
                    }
                    if b == before.len() {
                        assert(before.contains(all[a]));
                    }
                }
            }
        }
    }
}

proof fn lemma_ranks(codes: Seq<u32>)
    ensures
        forall|i: int|
            0 <= i < preferred_first(codes).len() ==> rank(#[trigger] preferred_first(codes)[i])
                == (if i < of_rank(codes, 0).len() {
                0int
            } else if i < of_rank(codes, 0).len() + of_rank(codes, 1).len() {
                1int
            } else {
                2int
            }),
{
    lemma_of_rank(codes, 0);
    lemma_of_rank(codes, 1);
    lemma_of_rank(codes, 2);
    let a = of_rank(codes, 0);
    let b = of_rank(codes, 1);
    let c = of_rank(codes, 2);
    let all = preferred_first(codes);
    assert forall|i: int| 0 <= i < all.len() implies rank(#[trigger] all[i]) == (if i < a.len() {
        0int
    } else if i < a.len() + b.len() {
        1int
    } else {
        2int
    }) by {
        if i < a.len() {
            assert(a.contains(all[i]));
        } else if i < a.len() + b.len() {
            assert(b[i - a.len()] == all[i]);
            assert(b.contains(all[i]));
        } else {
            assert(c[i - a.len() - b.len()] == all[i]);
            assert(c.contains(all[i]));
        }
    }
}

proof fn lemma_preferred_first(codes: Seq<u32>)
    requires
        codes.no_duplicates(),
    ensures
        preferred_first(codes).no_duplicates(),
        forall|code: u32| #[trigger]
            preferred_first(codes).contains(code) <==> codes.contains(code),
{
    lemma_of_rank(codes, 0);
    lemma_of_rank(codes, 1);
    lemma_of_rank(codes, 2);
    let a = of_rank(codes, 0);
    let b = of_rank(codes, 1);
    let c = of_rank(codes, 2);
    let all = preferred_first(codes);
    lemma_ranks(codes);
    assert forall|i: int| 0 <= i < all.len() implies codes.contains(#[trigger] all[i]) by {
        if i < a.len() {
            assert(a.contains(all[i]));
        } else if i < a.len() + b.len() {
            assert(b[i - a.len()] == all[i]);
            assert(b.contains(all[i]));
        } else {
            assert(c[i - a.len() - b.len()] == all[i]);
            assert(c.contains(all[i]));
        }
    }
    assert forall|code: u32| codes.contains(code) implies #[trigger] all.contains(code) by {
        if rank(code) == 0 {
            assert(a.contains(code));
            let k = choose|k: int| 0 <= k < a.len() && a[k] == code;
            assert(all[k] == code);
        } else if rank(code) == 1 {
            assert(b.contains(code));
            let k = choose|k: int| 0 <= k < b.len() && b[k] == code;
            assert(all[a.len() + k] == code);
        } else {
            assert(c.contains(code));
            let k = choose|k: int| 0 <= k < c.len() && c[k] == code;
            assert(all[a.len() + b.len() + k] == code);
        }
    }
    assert forall|i: int, j: int|
        0 <= i < all.len() && 0 <= j < all.len() && i != j implies all[i] != all[j] by {
        if all[i] == all[j] {
            assert(rank(all[i]) == rank(all[j]));
            if i < a.len() {
                assert(a[i] == a[j]);
            } else if i < a.len() + b.len() {
                assert(b[i - a.len()] == b[j - a.len()]);
            } else {
                assert(c[i - a.len() - b.len()] == c[j - a.len() - b.len()]);
            }
        }
    }
}

/// What is advertised is exactly what the renderer can do: a code is advertised with a modifier if
/// and only if the renderer has that format. No code is advertised twice, and none without a
/// modifier.
pub proof fn law_advertised_formats_are_the_renderers(formats: Seq<DmabufFormat>)
    ensures
        forall|code: u32, modifier: u64|
            #![trigger formats.contains(DmabufFormat { code, modifier })]
            formats.contains(DmabufFormat { code, modifier }) <==> exists|i: int|
                0 <= i < advertised(formats).len() && (#[trigger] advertised(formats)[i]).0 == code
                    && advertised(formats)[i].1.contains(modifier),
        forall|i: int, j: int|
            0 <= i < j < advertised(formats).len() ==> (#[trigger] advertised(formats)[i]).0 != (
            #[trigger] advertised(formats)[j]).0,
        forall|i: int|
            0 <= i < advertised(formats).len() ==> (#[trigger] advertised(formats)[i]).1.len() > 0,
{
    let codes = first_seen(formats);
    let sorted = preferred_first(codes);
    let all = advertised(formats);
    lemma_first_seen(formats);
    lemma_preferred_first(codes);
    assert forall|code: u32, modifier: u64|
        #![trigger formats.contains(DmabufFormat { code, modifier })]
        formats.contains(DmabufFormat { code, modifier }) <==> exists|i: int|
            0 <= i < all.len() && (#[trigger] all[i]).0 == code && all[i].1.contains(modifier) by {
        let format = DmabufFormat { code, modifier };
        lemma_modifiers_of(formats, code, modifier);
        if formats.contains(format) {
            let k = choose|k: int| 0 <= k < formats.len() && formats[k] == format;
            assert(codes.contains(formats[k].code));
            assert(sorted.contains(code));
            let i = choose|i: int| 0 <= i < sorted.len() && sorted[i] == code;
            assert(all[i].0 == code && all[i].1.contains(modifier));
        }
    }
    assert forall|i: int| 0 <= i < all.len() implies (#[trigger] all[i]).1.len() > 0 by {
        let code = sorted[i];
        assert(sorted.contains(code));
        assert(codes.contains(code));
        let j = choose|j: int| 0 <= j < codes.len() && codes[j] == code;
        let k = choose|k: int| 0 <= k < formats.len() && (#[trigger] formats[k]).code == codes[j];
        let modifier = formats[k].modifier;
        assert(formats[k] == (DmabufFormat { code, modifier }));
        assert(formats.contains(DmabufFormat { code, modifier }));
        lemma_modifiers_of(formats, code, modifier);
    }
}

proof fn lemma_first_seen_order(formats: Seq<DmabufFormat>)
    ensures
        forall|a: int, b: int|
            0 <= a < b < first_seen(formats).len() ==> listed_before(
                formats,
                #[trigger] first_seen(formats)[a],
                #[trigger] first_seen(formats)[b],
            ),
    decreases formats.len(),
{
    if formats.len() > 0 {
        let rest = formats.drop_last();
        let codes = first_seen(formats);
        let before = first_seen(rest);
        lemma_first_seen_order(rest);
        lemma_first_seen(rest);
        assert forall|a: int, b: int| 0 <= a < b < codes.len() implies listed_before(
            formats,
            #[trigger] codes[a],
            #[trigger] codes[b],
        ) by {
            assert(codes[a] == before[a]);
            if b < before.len() {
                assert(codes[b] == before[b]);
                assert(listed_before(rest, before[a], before[b]));
                let p = choose|p: int|
                    0 <= p < rest.len() && (#[trigger] rest[p]).code == before[a] && forall|q: int|
                        0 <= q <= p ==> (#[trigger] rest[q]).code != before[b];
                assert(formats[p].code == codes[a]);
                assert forall|q: int| 0 <= q <= p implies (#[trigger] formats[q]).code
                    != codes[b] by {
                    assert(rest[q].code != before[b]);
                }
            } else {
                let p = choose|p: int|
                    0 <= p < rest.len() && (#[trigger] rest[p]).code == before[a];
                assert(formats[p].code == codes[a]);
                assert forall|q: int| 0 <= q <= p implies (#[trigger] formats[q]).code
                    != codes[b] by {
                    assert(before.contains(rest[q].code));
                }
            }
        }
    }
}

/// A list has a code before another.
spec fn in_order(codes: Seq<u32>, first: u32, second: u32) -> bool {
    exists|a: int, b: int|
        0 <= a < b < codes.len() && #[trigger] codes[a] == first && #[trigger] codes[b] == second
}

proof fn lemma_of_rank_order(codes: Seq<u32>, r: int)
    ensures
        forall|i: int, j: int|
            0 <= i < j < of_rank(codes, r).len() ==> in_order(
                codes,
                #[trigger] of_rank(codes, r)[i],
                #[trigger] of_rank(codes, r)[j],
            ),
    decreases codes.len(),
{
    reveal(Seq::filter);
    if codes.len() > 0 {
        let rest = codes.drop_last();
        let all = of_rank(codes, r);
        let before = of_rank(rest, r);
        lemma_of_rank_order(rest, r);
        lemma_of_rank(rest, r);
        assert forall|i: int, j: int| 0 <= i < j < all.len() implies in_order(
            codes,
            #[trigger] all[i],
            #[trigger] all[j],
        ) by {
            assert(all[i] == before[i]);
            if j < before.len() {
                assert(all[j] == before[j]);
                assert(in_order(rest, before[i], before[j]));
                let (a, b) = choose|a: int, b: int|
                    0 <= a < b < rest.len() && #[trigger] rest[a] == before[i]
                        && #[trigger] rest[b] == before[j];
                assert(codes[a] == all[i] && codes[b] == all[j]);
            } else {
                assert(before.contains(before[i]));
                let a = choose|a: int| 0 <= a < rest.len() && rest[a] == before[i];
                let b = codes.len() - 1;
                assert(codes[a] == all[i] && codes[b] == all[j]);
            }
        }
    }
}

/// The formats are advertised by rank, and formats of one rank in the renderer's order: the
/// renderer lists the one before it first lists the other.
pub proof fn law_formats_keep_the_renderers_order(formats: Seq<DmabufFormat>)
    ensures
        forall|i: int, j: int|
            0 <= i < j < advertised(formats).len() ==> {
                let first = (#[trigger] advertised(formats)[i]).0;
                let second = (#[trigger] advertised(formats)[j]).0;
                &&& rank(first) <= rank(second)
                &&& rank(first) == rank(second) ==> listed_before(formats, first, second)
            },
{
    let codes = first_seen(formats);
    let sorted = preferred_first(codes);
    let all = advertised(formats);
    lemma_first_seen_order(formats);
    lemma_ranks(codes);
    lemma_of_rank_order(codes, 0);
    lemma_of_rank_order(codes, 1);
    lemma_of_rank_order(codes, 2);
    assert forall|i: int, j: int| 0 <= i < j < all.len() implies {
        let first = (#[trigger] all[i]).0;
        let second = (#[trigger] all[j]).0;
        &&& rank(first) <= rank(second)
        &&& rank(first) == rank(second) ==> listed_before(formats, first, second)
    } by {
        assert(all[i].0 == sorted[i] && all[j].0 == sorted[j]);
        let r = rank(sorted[i]);
        if r == rank(sorted[j]) {
            let ranked = of_rank(codes, r);
            let start: int = if r == 0 {
                0
            } else if r == 1 {
                of_rank(codes, 0).len() as int
            } else {
                (of_rank(codes, 0).len() + of_rank(codes, 1).len()) as int
            };
            assert(ranked[i - start] == sorted[i]);
            assert(ranked[j - start] == sorted[j]);
            assert(in_order(codes, ranked[i - start], ranked[j - start]));
            let (a, b) = choose|a: int, b: int|
                0 <= a < b < codes.len() && #[trigger] codes[a] == ranked[i - start]
                    && #[trigger] codes[b] == ranked[j - start];
            assert(listed_before(formats, codes[a], codes[b]));
        }
    }
}

/// The first format advertised is Xrgb8888 when the renderer has it, else Argb8888 when the
/// renderer has that; with both, Argb8888 comes second. Something is advertised as soon as the
/// renderer has any format.
pub proof fn law_preferred_formats_come_first(formats: Seq<DmabufFormat>)
    ensures
        (advertised(formats).len() > 0) == (formats.len() > 0),
        (exists|i: int| 0 <= i < formats.len() && (#[trigger] formats[i]).code == XRGB8888)
            ==> advertised(formats)[0].0 == XRGB8888,
        (exists|i: int| 0 <= i < formats.len() && (#[trigger] formats[i]).code == ARGB8888) && !(
        exists|i: int| 0 <= i < formats.len() && (#[trigger] formats[i]).code == XRGB8888)
            ==> advertised(formats)[0].0 == ARGB8888,
        (exists|i: int| 0 <= i < formats.len() && (#[trigger] formats[i]).code == XRGB8888) && (
        exists|i: int| 0 <= i < formats.len() && (#[trigger] formats[i]).code == ARGB8888)
            ==> advertised(formats).len() >= 2 && advertised(formats)[1].0 == ARGB8888,
{
    let codes = first_seen(formats);
    let sorted = preferred_first(codes);
    lemma_first_seen(formats);
    lemma_preferred_first(codes);
    lemma_of_rank(codes, 0);
    lemma_of_rank(codes, 1);
    let a = of_rank(codes, 0);
    let b = of_rank(codes, 1);
    if formats.len() > 0 {
        assert(codes.contains(formats[0].code));
        assert(sorted.contains(formats[0].code));
    }
    if sorted.len() > 0 {
        assert(sorted.contains(sorted[0]));
        assert(codes.contains(sorted[0]));
    }
    if exists|i: int| 0 <= i < formats.len() && (#[trigger] formats[i]).code == XRGB8888 {
        assert(codes.contains(XRGB8888));
        assert(a.contains(XRGB8888));
        assert(a.contains(a[0]));
        assert(sorted[0] == a[0]);
        if exists|i: int| 0 <= i < formats.len() && (#[trigger] formats[i]).code == ARGB8888 {
            assert(codes.contains(ARGB8888));
            assert(b.contains(ARGB8888));
            assert(b.contains(b[0]));
            if a.len() > 1 {
                assert(a.contains(a[1]));
                assert(a[0] == XRGB8888 && a[1] == XRGB8888);
            }
            assert(sorted[1] == b[0]);
        }
    } else if exists|i: int| 0 <= i < formats.len() && (#[trigger] formats[i]).code == ARGB8888 {
        assert(codes.contains(ARGB8888));
        assert(b.contains(ARGB8888));
        assert(b.contains(b[0]));
        if a.len() > 0 {
            assert(a.contains(a[0]));
            let j = choose|j: int| 0 <= j < codes.len() && codes[j] == a[0];
            assert(codes[j] == XRGB8888);
        }
        assert(sorted[0] == b[0]);
    }
}

proof fn lemma_modifiers_are_filtered(formats: Seq<DmabufFormat>, code: u32)
    ensures
        modifiers_of(formats, code) == formats.filter(
            |format: DmabufFormat| format.code == code,
        ).map_values(|format: DmabufFormat| format.modifier),
    decreases formats.len(),
{
    reveal(Seq::filter);
    let pred = |format: DmabufFormat| format.code == code;
    let modifier = |format: DmabufFormat| format.modifier;
    if formats.len() > 0 {
        let rest = formats.drop_last();
        lemma_modifiers_are_filtered(rest, code);
        if formats.last().code == code {
            assert(formats.filter(pred).map_values(modifier) == rest.filter(pred).map_values(
                modifier,
            ).push(formats.last().modifier));
        }
    } else {
        assert(formats.filter(pred).map_values(modifier) == Seq::<u64>::empty());
    }
}

/// A code is advertised with all the modifiers that the renderer has for it, in the renderer's
/// order and as often as the renderer lists them.
pub proof fn law_modifiers_are_the_renderers(formats: Seq<DmabufFormat>)
    ensures
        forall|i: int|
            0 <= i < advertised(formats).len() ==> (#[trigger] advertised(formats)[i]).1
                == formats.filter(
                |format: DmabufFormat| format.code == advertised(formats)[i].0,
            ).map_values(|format: DmabufFormat| format.modifier),
{
    let all = advertised(formats);
    assert forall|i: int| 0 <= i < all.len() implies (#[trigger] all[i]).1 == formats.filter(
        |format: DmabufFormat| format.code == all[i].0,
    ).map_values(|format: DmabufFormat| format.modifier) by {
        lemma_modifiers_are_filtered(formats, all[i].0);
    }
}

/// The contents of constraints are their size, their formats and their device as they are.
pub proof fn law_constraints_hold_what_they_say(constraints: BufferConstraints)
    ensures
        constraints@.size == constraints.size,
        constraints@.shm == constraints.shm@,
        match (constraints@.dma, constraints.dma) {
            (Some(view), Some(dma)) => {
                &&& view.node == dma.node
                &&& view.formats.len() == dma.formats.len()
                &&& forall|i: int|
                    0 <= i < dma.formats.len() ==> (#[trigger] view.formats[i]).0
                        == dma.formats@[i].0 && view.formats[i].1 == dma.formats@[i].1@
            },
            (None, None) => true,
            _ => false,
        },
{
}

} // verus!
