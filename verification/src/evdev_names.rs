//! Names of evdev event types, of capability bitmaps, and of report sections.

use vstd::prelude::*;
use crate::text::{push_decimal, decimal_digits, digit_char, strings_view, str_chars};
use crate::version::{all_digits, digits_value, lemma_decimal_digits_parse};

verus! {

/// Name of evdev event type `t` (`EV_*`), or `EV_UNKNOWN(t)`.
pub open spec fn event_type_name(t: nat) -> Seq<char> {
    if t == 0 {
        "EV_SYN"@
    } else if t == 1 {
        "EV_KEY"@
    } else if t == 2 {
        "EV_REL"@
    } else if t == 3 {
        "EV_ABS"@
    } else if t == 4 {
        "EV_MSC"@
    } else if t == 5 {
        "EV_SW"@
    } else if t == 17 {
        "EV_LED"@
    } else if t == 18 {
        "EV_SND"@
    } else if t == 20 {
        "EV_REP"@
    } else if t == 21 {
        "EV_FF"@
    } else if t == 22 {
        "EV_PWR"@
    } else if t == 23 {
        "EV_FF_STATUS"@
    } else {
        "EV_UNKNOWN("@ + decimal_digits(t) + ")"@
    }
}

/// The name of an evdev event type.
pub fn event_type_to_string(event_type: usize) -> (s: String)
    ensures
        s@ == event_type_name(event_type as nat),
{
    match event_type {
        0 => String::from_str("EV_SYN"),
        1 => String::from_str("EV_KEY"),
        2 => String::from_str("EV_REL"),
        3 => String::from_str("EV_ABS"),
        4 => String::from_str("EV_MSC"),
        5 => String::from_str("EV_SW"),
        17 => String::from_str("EV_LED"),
        18 => String::from_str("EV_SND"),
        20 => String::from_str("EV_REP"),
        21 => String::from_str("EV_FF"),
        22 => String::from_str("EV_PWR"),
        23 => String::from_str("EV_FF_STATUS"),
        _ => {
            let mut s = String::from_str("EV_UNKNOWN(");
            push_decimal(&mut s, event_type as u64);
            s.append(")");
            s
        },
    }
}

/// Event type names follow the Linux `input-event-codes.h` constants: EV_SYN
/// 0, EV_KEY 1, EV_REL 2, EV_ABS 3, EV_MSC 4, EV_SW 5, EV_LED 0x11, EV_SND
/// 0x12, EV_REP 0x14, EV_FF 0x15, EV_PWR 0x16, EV_FF_STATUS 0x17; any other
/// type `t` is `EV_UNKNOWN(` followed by the decimal digits of `t` and `)`.
pub proof fn lemma_event_type_names(t: nat)
    ensures
        event_type_name(0) == "EV_SYN"@,
        event_type_name(1) == "EV_KEY"@,
        event_type_name(2) == "EV_REL"@,
        event_type_name(3) == "EV_ABS"@,
        event_type_name(4) == "EV_MSC"@,
        event_type_name(5) == "EV_SW"@,
        event_type_name(0x11) == "EV_LED"@,
        event_type_name(0x12) == "EV_SND"@,
        event_type_name(0x14) == "EV_REP"@,
        event_type_name(0x15) == "EV_FF"@,
        event_type_name(0x16) == "EV_PWR"@,
        event_type_name(0x17) == "EV_FF_STATUS"@,
        !(t <= 5 || (0x11 <= t <= 0x12) || (0x14 <= t <= 0x17)) ==> exists|ds: Seq<char>|
            #![trigger digits_value(ds)]
            {
                &&& event_type_name(t) == "EV_UNKNOWN("@ + ds + ")"@
                &&& ds.len() >= 1
                &&& all_digits(ds)
                &&& digits_value(ds) == t
                &&& (ds.len() > 1 ==> ds[0] != '0')
            },
{
    if !(t <= 5 || (0x11 <= t <= 0x12) || (0x14 <= t <= 0x17)) {
        let ds = decimal_digits(t);
        lemma_decimal_digits_parse(t);
        lemma_decimal_no_leading_zero(t);
        assert(digits_value(ds) == t);
    }
}

proof fn lemma_decimal_no_leading_zero(n: nat)
    ensures
        decimal_digits(n).len() > 1 ==> decimal_digits(n)[0] != '0',
    decreases n,
{
    if n >= 10 {
        lemma_decimal_no_leading_zero(n / 10);
        let d = decimal_digits(n / 10);
        assert(decimal_digits(n)[0] == d[0]);
        if n / 10 < 10 {
            assert(n / 10 >= 1);
            assert(d[0] == digit_char(n / 10));
            assert(digit_char(n / 10) as int == n / 10 + 48);
        } else {
            lemma_decimal_digits_parse(n / 10 / 10);
            assert(d.len() > 1);
        }
    }
}

/// Bit `bit` of `b` is set.
pub open spec fn bit_set(b: u8, bit: nat) -> bool {
    b & ((1u8 << (bit as u8)) as u8) != 0
}

/// Names of the event types whose bits are set in byte `b`, from bit `bit`
/// up; bit `k` stands for event type `base + k`.
pub open spec fn byte_event_names(b: u8, base: nat, bit: nat) -> Seq<Seq<char>>
    decreases 8 - bit,
{
    if bit >= 8 {
        Seq::empty()
    } else {
        (if bit_set(b, bit) {
            seq![event_type_name(base + bit)]
        } else {
            Seq::empty()
        }) + byte_event_names(b, base, bit + 1)
    }
}

/// Names of the event types set in `bits` from byte `i` on (byte `i`, bit `k`
/// is event type `8 * i + k`).
pub open spec fn bitmap_event_names(bits: Seq<u8>, i: nat) -> Seq<Seq<char>>
    decreases bits.len() - i,
{
    if i >= bits.len() {
        Seq::empty()
    } else {
        (if bits[i as int] != 0 {
            byte_event_names(bits[i as int], 8 * i, 0)
        } else {
            Seq::empty()
        }) + bitmap_event_names(bits, i + 1)
    }
}

/// The event type names an `EVIOCGBIT` bitmap lists, in increasing order.
pub fn capability_names(bits: &[u8]) -> (names: Vec<String>)
    requires
        bits@.len() * 8 <= usize::MAX,
    ensures
        strings_view(names@) == bitmap_event_names(bits@, 0),
{
    let mut names: Vec<String> = Vec::new();
    let ghost whole = bitmap_event_names(bits@, 0);
    let mut i: usize = 0;
    assert(strings_view(names@) + whole =~= whole);
    while i < bits.len()
        invariant
            i <= bits@.len(),
            bits@.len() * 8 <= usize::MAX,
            whole == bitmap_event_names(bits@, 0),
            strings_view(names@) + bitmap_event_names(bits@, i as nat) == whole,
        decreases bits@.len() - i,
    {
        let byte = bits[i];
        let ghost before = strings_view(names@);
        if byte != 0 {
            let mut bit: usize = 0;
            while bit < 8
                invariant
                    i < bits@.len(),
                    bits@.len() * 8 <= usize::MAX,
                    byte == bits@[i as int],
                    bit <= 8,
                    strings_view(names@) + byte_event_names(byte, 8 * i as nat, bit as nat) == before
                        + byte_event_names(byte, 8 * i as nat, 0),
                decreases 8 - bit,
            {
                let ghost mid = strings_view(names@);
                if byte & (1u8 << (bit as u8)) != 0 {
                    let name = event_type_to_string(i * 8 + bit);
                    names.push(name);
                    assert(strings_view(names@) =~= mid.push(name@));
                } else {
                    assert(strings_view(names@) =~= mid);
                }
                assert(strings_view(names@) + byte_event_names(byte, 8 * i as nat, (bit + 1) as nat) =~= mid
                    + byte_event_names(byte, 8 * i as nat, bit as nat));
                bit = bit + 1;
            }
            assert(byte_event_names(byte, 8 * i as nat, 8) =~= Seq::<Seq<char>>::empty());
        }
        assert(strings_view(names@) + bitmap_event_names(bits@, (i + 1) as nat) =~= before
            + bitmap_event_names(bits@, i as nat));
        i = i + 1;
    }
    assert(strings_view(names@) =~= whole);
    names
}

/// A section of the capability report.
#[derive(Debug, Clone, Copy, PartialEq, Eq, Structural)]
pub enum CapabilitySection {
    Compositor,
    Portal,
    GpuEncoders,
    PipeWire,
    Kernel,
}

/// The section a name selects.
pub open spec fn section_spec(name: Seq<char>) -> Option<CapabilitySection> {
    if name == "compositor"@ {
        Some(CapabilitySection::Compositor)
    } else if name == "portal"@ {
        Some(CapabilitySection::Portal)
    } else if name == "gpu"@ || name == "gpu-encoders"@ {
        Some(CapabilitySection::GpuEncoders)
    } else if name == "pipewire"@ {
        Some(CapabilitySection::PipeWire)
    } else if name == "kernel"@ {
        Some(CapabilitySection::Kernel)
    } else {
        None
    }
}

/// The report sections are selected by `compositor`, `portal`, `gpu` or
/// `gpu-encoders`, `pipewire` and `kernel`; the empty name selects none.
pub proof fn lemma_section_names()
    ensures
        section_spec("compositor"@) == Some(CapabilitySection::Compositor),
        section_spec("portal"@) == Some(CapabilitySection::Portal),
        section_spec("gpu"@) == Some(CapabilitySection::GpuEncoders),
        section_spec("gpu-encoders"@) == Some(CapabilitySection::GpuEncoders),
        section_spec("pipewire"@) == Some(CapabilitySection::PipeWire),
        section_spec("kernel"@) == Some(CapabilitySection::Kernel),
        section_spec(Seq::<char>::empty()) is None,
{
    reveal_strlit("compositor");
    reveal_strlit("portal");
    reveal_strlit("gpu");
    reveal_strlit("gpu-encoders");
    reveal_strlit("pipewire");
    reveal_strlit("kernel");
    assert("portal"@[0] != "compositor"@[0]);
    assert("gpu"@.len() == 3);
    assert("gpu-encoders"@.len() == 12);
    assert("pipewire"@.len() == 8);
    assert("kernel"@.len() == 6);
    assert("kernel"@[0] != "portal"@[0]);
    assert("gpu"@ != "compositor"@);
    assert("gpu"@ != "portal"@);
    assert("gpu-encoders"@ != "compositor"@);
    assert("gpu-encoders"@ != "portal"@);
    assert("gpu-encoders"@ != "gpu"@);
    assert("pipewire"@ != "compositor"@);
    assert("pipewire"@ != "portal"@);
    assert("pipewire"@ != "gpu"@);
    assert("pipewire"@ != "gpu-encoders"@);
    assert("kernel"@ != "compositor"@);
    assert("kernel"@ != "portal"@);
    assert("kernel"@ != "gpu"@);
    assert("kernel"@ != "gpu-encoders"@);
    assert("kernel"@ != "pipewire"@);
    assert("compositor"@.len() == 10);
    assert("portal"@.len() == 6);
    assert(Seq::<char>::empty() != "compositor"@);
    assert(Seq::<char>::empty() != "portal"@);
    assert(Seq::<char>::empty() != "gpu"@);
    assert(Seq::<char>::empty() != "gpu-encoders"@);
    assert(Seq::<char>::empty() != "pipewire"@);
    assert(Seq::<char>::empty() != "kernel"@);
}

fn same_text(a: &str, b: &str) -> (r: bool)
    ensures
        r == (a@ == b@),
{
    let x = String::from_str(a);
    let y = String::from_str(b);
    x == y
}

/// Selects a report section by name (`compositor`, `portal`, `gpu` or
/// `gpu-encoders`, `pipewire`, `kernel`); `None` for any other name.
pub fn parse_section(name: &str) -> (r: Option<CapabilitySection>)
    ensures
        r == section_spec(name@),
{
    if same_text(name, "compositor") {
        Some(CapabilitySection::Compositor)
    } else if same_text(name, "portal") {
        Some(CapabilitySection::Portal)
    } else if same_text(name, "gpu") || same_text(name, "gpu-encoders") {
        Some(CapabilitySection::GpuEncoders)
    } else if same_text(name, "pipewire") {
        Some(CapabilitySection::PipeWire)
    } else if same_text(name, "kernel") {
        Some(CapabilitySection::Kernel)
    } else {
        None
    }
}

/// An entry of `/dev/input` names an event device when it starts with `event`.
pub fn is_input_event_device(name: &str) -> (r: bool)
    ensures
        r == (name@.len() >= 5 && name@.take(5) == "event"@),
{
    proof {
        reveal_strlit("event");
    }
    let cs = str_chars(name);
    let prefix = str_chars("event");
    if cs.len() < prefix.len() {
        return false;
    }
    let mut j: usize = 0;
    while j < prefix.len()
        invariant
            j <= prefix@.len(),
            prefix@ == "event"@,
            cs@ == name@,
            prefix@.len() <= cs@.len(),
            forall|k: int| 0 <= k < j ==> cs@[k] == prefix@[k],
        decreases prefix@.len() - j,
    {
        if cs[j] != prefix[j] {
            assert(name@.take(prefix@.len() as int)[j as int] != prefix@[j as int]);
            return false;
        }
        j = j + 1;
    }
    assert(name@.take(prefix@.len() as int) =~= prefix@);
    true
}

/// The seat label of a runtime directory that holds a libei socket.
pub fn libei_seat_label(dir_name: &str) -> (s: String)
    ensures
        s@ == "seat-"@ + dir_name@,
{
    let mut s = String::from_str("seat-");
    s.append(dir_name);
    s
}

} // verus!
