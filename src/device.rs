//! Reading arrows from sampled pixels, and encoding taps as touch events.

use vstd::prelude::*;

use crate::expert::Arrow;

verus! {

/// The message type of an injected touch event.
pub const INJECT_TOUCH_EVENT: u8 = 2;

/// The action of a finger that goes down.
pub const ACTION_DOWN: u8 = 0;

/// The action of a finger that goes up.
pub const ACTION_UP: u8 = 1;

/// `x` as two bytes, most significant first.
pub open spec fn be16(x: int) -> Seq<u8> {
    seq![((x / 256) % 256) as u8, (x % 256) as u8]
}

/// `x` as four bytes, most significant first.
pub open spec fn be32(x: int) -> Seq<u8> {
    seq![
        ((x / 16777216) % 256) as u8,
        ((x / 65536) % 256) as u8,
        ((x / 256) % 256) as u8,
        (x % 256) as u8,
    ]
}

/// The pointer id that every event carries: 0x1234567887654321, most significant byte first.
pub open spec fn pointer_id() -> Seq<u8> {
    seq![0x12u8, 0x34, 0x56, 0x78, 0x87, 0x65, 0x43, 0x21]
}

/// One touch event at `(x, y)` on a screen of the given size, the width and height cut
/// to 16 bits.
pub open spec fn touch_event(action: u8, x: u32, y: u32, width: usize, height: usize, pressure: int) -> Seq<u8> {
    seq![INJECT_TOUCH_EVENT, action] + pointer_id() + be32(x as int) + be32(y as int) + be16(
        width as int % 65536,
    ) + be16(height as int % 65536) + be16(pressure) + be32(0) + be32(0)
}

/// A tap: the finger goes down at full pressure, then up.
pub open spec fn tap_events(x: u32, y: u32, width: usize, height: usize) -> Seq<u8> {
    touch_event(ACTION_DOWN, x, y, width, height, 0xffff) + touch_event(ACTION_UP, x, y, width, height, 0)
}

/// The taps one after another.
pub open spec fn taps_events(taps: Seq<(u32, u32)>, width: usize, height: usize) -> Seq<u8>
    decreases taps.len(),
{
    if taps.len() == 0 {
        Seq::empty()
    } else {
        taps_events(taps.drop_last(), width, height) + tap_events(taps.last().0, taps.last().1, width, height)
    }
}

fn push_be16(out: &mut Vec<u8>, x: u16)
    ensures
        final(out)@ == old(out)@ + be16(x as int),
{
    out.push((x / 256) as u8);
    out.push((x % 256) as u8);
    assert(final(out)@ =~= old(out)@ + be16(x as int));
}

fn push_be32(out: &mut Vec<u8>, x: u32)
    ensures
        final(out)@ == old(out)@ + be32(x as int),
{
    out.push(((x / 16777216) % 256) as u8);
    out.push(((x / 65536) % 256) as u8);
    out.push(((x / 256) % 256) as u8);
    out.push((x % 256) as u8);
    assert(final(out)@ =~= old(out)@ + be32(x as int));
}

fn push_event(out: &mut Vec<u8>, action: u8, x: u32, y: u32, width: usize, height: usize, pressure: u16)
    ensures
        final(out)@ == old(out)@ + touch_event(action, x, y, width, height, pressure as int),
{
    let ghost start = out@;
    out.push(INJECT_TOUCH_EVENT);
    out.push(action);
    out.push(0x12);
    out.push(0x34);
    out.push(0x56);
    out.push(0x78);
    out.push(0x87);
    out.push(0x65);
    out.push(0x43);
    out.push(0x21);
    assert(out@ =~= start + seq![INJECT_TOUCH_EVENT, action] + pointer_id());
    push_be32(out, x);
    push_be32(out, y);
    push_be16(out, (width % 65536) as u16);
    push_be16(out, (height % 65536) as u16);
    push_be16(out, pressure);
    push_be32(out, 0);
    push_be32(out, 0);
    assert(out@ =~= start + touch_event(action, x, y, width, height, pressure as int));
}

/// The bytes that inject the taps into a device as touch events: for each tap, a touch
/// down at full pressure and a touch up, 32 bytes each.
pub fn serialize_taps(screen_width: usize, screen_height: usize, taps: &[(u32, u32)]) -> (r: Vec<u8>)
    ensures
        r@ == taps_events(taps@, screen_width, screen_height),
{
    let mut payload: Vec<u8> = Vec::new();
    let mut i: usize = 0;
    while i < taps.len()
        invariant
            i <= taps@.len(),
            payload@ == taps_events(taps@.subrange(0, i as int), screen_width, screen_height),
        decreases taps@.len() - i,
    {
        let (x, y) = taps[i];
        let ghost before = payload@;
        push_event(&mut payload, ACTION_DOWN, x, y, screen_width, screen_height, 0xffff);
        push_event(&mut payload, ACTION_UP, x, y, screen_width, screen_height, 0);
        proof {
            assert(taps@.subrange(0, i + 1).drop_last() =~= taps@.subrange(0, i as int));
            assert(payload@ =~= before + tap_events(x, y, screen_width, screen_height));
        }
        i += 1;
    }
    assert(taps@.subrange(0, taps@.len() as int) =~= taps@);
    payload
}

/// The number of luma samples taken around each arrow.
pub const SAMPLE_COUNT_PER_ARROW: usize = 8;

/// The rotation value that a mean luma shows on a mirrored video stream, if any.
pub open spec fn luma_value(luma: int) -> Option<int> {
    if luma == 39 || luma == 31 {
        Some(0)
    } else if luma == 42 {
        Some(1)
    } else if luma == 54 {
        Some(2)
    } else if luma == 65 {
        Some(3)
    } else if luma == 77 {
        Some(4)
    } else if luma == 89 {
        Some(5)
    } else {
        None
    }
}

/// The rotation value that the red channel of a screenshot shows, if any.
pub open spec fn red_value(red: int) -> Option<int> {
    if red == 27 || red == 17 {
        Some(0)
    } else if red == 30 {
        Some(1)
    } else if red == 44 {
        Some(2)
    } else if red == 57 {
        Some(3)
    } else if red == 71 {
        Some(4)
    } else if red == 85 {
        Some(5)
    } else {
        None
    }
}

pub open spec fn sum_of(s: Seq<u8>) -> int
    decreases s.len(),
{
    if s.len() == 0 {
        0
    } else {
        sum_of(s.drop_last()) + s.last()
    }
}

fn arrow_of(v: Option<u8>) -> (r: Option<Arrow>)
    requires
        match v {
            Some(x) => x < 6,
            None => true,
        },
    ensures
        match v {
            Some(x) => r.is_some() && r.unwrap()@ == x as int,
            None => r.is_none(),
        },
{
    match v {
        Some(x) => match Arrow::from_u8(x) {
            Ok(a) => Some(a),
            Err(_) => None,
        },
        None => None,
    }
}

/// The arrow that a mean luma shows, or `None` where the luma is no arrow's.
pub fn arrow_from_luma(luma: u8) -> (r: Option<Arrow>)
    ensures
        match luma_value(luma as int) {
            Some(v) => r.is_some() && r.unwrap()@ == v,
            None => r.is_none(),
        },
{
    let v: Option<u8> = match luma {
        39 | 31 => Some(0),
        42 => Some(1),
        54 => Some(2),
        65 => Some(3),
        77 => Some(4),
        89 => Some(5),
        _ => None,
    };
    arrow_of(v)
}

/// The arrow that the red channel of a screenshot shows, or `None` where the value is no
/// arrow's.
pub fn arrow_from_red(red: u8) -> (r: Option<Arrow>)
    ensures
        match red_value(red as int) {
            Some(v) => r.is_some() && r.unwrap()@ == v,
            None => r.is_none(),
        },
{
    let v: Option<u8> = match red {
        27 | 17 => Some(0),
        30 => Some(1),
        44 => Some(2),
        57 => Some(3),
        71 => Some(4),
        85 => Some(5),
        _ => None,
    };
    arrow_of(v)
}

/// The mean of the luma samples around an arrow, rounded half away from zero.
pub fn mean_luma(samples: &[u8]) -> (r: u8)
    requires
        samples@.len() == SAMPLE_COUNT_PER_ARROW,
    ensures
        r as int == (sum_of(samples@) + 4) / 8,
{
    let mut sum: u32 = 0;
    let mut i: usize = 0;
    while i < samples.len()
        invariant
            i <= samples@.len() == 8,
            sum == sum_of(samples@.subrange(0, i as int)),
            sum <= 255 * i,
        decreases samples@.len() - i,
    {
        assert(samples@.subrange(0, i + 1).drop_last() =~= samples@.subrange(0, i as int));
        sum = sum + samples[i] as u32;
        i += 1;
    }
    assert(samples@.subrange(0, 8) =~= samples@);
    ((sum + 4) / 8) as u8
}

} // verus!
