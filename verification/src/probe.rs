//! Decisions of the environment probe: what the raw answers of the
//! compositor, the portal, PipeWire, NVIDIA tools and evdev mean.

use vstd::prelude::*;
use crate::caps::{
    CompositorCapabilities, PortalCapabilities, PortalPermissionState, PipeWireCapabilities,
    NvencCapabilities, NvencCodec,
};
use crate::text::{
    str_chars, string_from_chars, trim_range, trim_spec, push_decimal, decimal_digits, contains_seq,
    str_contains, strings_view, push_signed_decimal, signed_decimal,
};
use crate::version::{find_char, split_from, parse_version, version_spec, lemma_find_char_bounds};
use crate::validate::{version_lt, version_less, min_pipewire_version};

verus! {

/// One global the Wayland registry advertises.
#[derive(Debug, Clone)]
pub struct RegistryGlobal {
    pub name: u32,
    pub interface: String,
    pub version: u32,
}

/// Some global advertises `iface`.
pub open spec fn has_interface(gs: Seq<RegistryGlobal>, iface: Seq<char>) -> bool {
    exists|i: int| 0 <= i < gs.len() && (#[trigger] gs[i]).interface@ == iface
}

/// `k` is the last global advertising `iface`.
pub open spec fn last_with_interface(gs: Seq<RegistryGlobal>, iface: Seq<char>, k: int) -> bool {
    &&& 0 <= k < gs.len()
    &&& gs[k].interface@ == iface
    &&& forall|j: int| k < j < gs.len() ==> (#[trigger] gs[j]).interface@ != iface
}

fn string_eq(a: &String, b: &String) -> (r: bool)
    ensures
        r == (a@ == b@),
{
    *a == *b
}

/// What the registry's globals say about screen capture support: which capture
/// managers exist, and the version of the (last advertised) `wl_compositor`.
pub fn compositor_capabilities(globals: &Vec<RegistryGlobal>) -> (caps: CompositorCapabilities)
    ensures
        caps.wlr_screencopy_v1 == has_interface(globals@, "wlr_screencopy_manager_v1"@),
        caps.ext_image_capture_source_v1 == has_interface(globals@, "ext_image_capture_source_manager_v1"@),
        caps.compositor_name is Some == has_interface(globals@, "wl_compositor"@),
        caps.compositor_name matches Some(n) ==> n@ == "wl_compositor"@,
        caps.compositor_version is Some == has_interface(globals@, "wl_compositor"@),
        caps.compositor_version matches Some(v) ==> exists|k: int|
            last_with_interface(globals@, "wl_compositor"@, k) && v@ == decimal_digits(
                globals@[k].version as nat,
            ),
{
    let wlr = String::from_str("wlr_screencopy_manager_v1");
    let ext = String::from_str("ext_image_capture_source_manager_v1");
    let comp = String::from_str("wl_compositor");
    let mut caps = CompositorCapabilities {
        wlr_screencopy_v1: false,
        ext_image_capture_source_v1: false,
        compositor_name: None,
        compositor_version: None,
    };
    let ghost gs = globals@;
    let mut i: usize = 0;
    while i < globals.len()
        invariant
            gs == globals@,
            i <= gs.len(),
            wlr@ == "wlr_screencopy_manager_v1"@,
            ext@ == "ext_image_capture_source_manager_v1"@,
            comp@ == "wl_compositor"@,
            caps.wlr_screencopy_v1 == exists|j: int| 0 <= j < i && (#[trigger] gs[j]).interface@ == wlr@,
            caps.ext_image_capture_source_v1 == exists|j: int| 0 <= j < i && (#[trigger] gs[j]).interface@ == ext@,
            caps.compositor_name is Some == exists|j: int| 0 <= j < i && (#[trigger] gs[j]).interface@ == comp@,
            caps.compositor_version is Some == caps.compositor_name is Some,
            caps.compositor_name matches Some(n) ==> n@ == comp@,
            caps.compositor_version matches Some(v) ==> exists|k: int|
                0 <= k < i && gs[k].interface@ == comp@ && (forall|j: int| k < j < i ==> (#[trigger] gs[j]).interface@ != comp@)
                    && v@ == decimal_digits(gs[k].version as nat),
        decreases gs.len() - i,
    {
        let g = &globals[i];
        if string_eq(&g.interface, &wlr) {
            caps.wlr_screencopy_v1 = true;
        }
        if string_eq(&g.interface, &ext) {
            caps.ext_image_capture_source_v1 = true;
        }
        if string_eq(&g.interface, &comp) {
            caps.compositor_name = Some(String::from_str("wl_compositor"));
            let mut v = String::new();
            push_decimal(&mut v, g.version as u64);
            caps.compositor_version = Some(v);
            assert(v@ =~= decimal_digits(gs[i as int].version as nat));
        }
        i = i + 1;
    }
    proof {
        if caps.compositor_version is Some {
            let k = choose|k: int|
                0 <= k < i && gs[k].interface@ == comp@ && (forall|j: int| k < j < i ==> (#[trigger] gs[j]).interface@ != comp@)
                    && caps.compositor_version.unwrap()@ == decimal_digits(gs[k].version as nat);
            assert(last_with_interface(globals@, "wl_compositor"@, k));
        }
    }
    caps
}

/// Permission state for the portal's answer: `None` when the request failed,
/// else the response code (0 granted, 1 denied, anything else unknown).
pub open spec fn permission_spec(response: Option<u32>) -> PortalPermissionState {
    match response {
        Some(0) => PortalPermissionState::Granted,
        Some(1) => PortalPermissionState::Denied,
        Some(_) => PortalPermissionState::Unknown,
        None => PortalPermissionState::NotAvailable,
    }
}

/// The portal answers 0 for a granted request and 1 for a denied one; any
/// other answer leaves the permission unknown, and no answer at all means the
/// portal could not be asked.
pub proof fn lemma_permission_codes(code: u32)
    ensures
        permission_spec(Some(0u32)) == PortalPermissionState::Granted,
        permission_spec(Some(1u32)) == PortalPermissionState::Denied,
        code >= 2 ==> permission_spec(Some(code)) == PortalPermissionState::Unknown,
        permission_spec(None) == PortalPermissionState::NotAvailable,
{
}

/// Maps the portal's permission answer to a permission state.
pub fn permission_from_response(response: Option<u32>) -> (r: PortalPermissionState)
    ensures
        r == permission_spec(response),
{
    match response {
        Some(0) => PortalPermissionState::Granted,
        Some(1) => PortalPermissionState::Denied,
        Some(_) => PortalPermissionState::Unknown,
        None => PortalPermissionState::NotAvailable,
    }
}

/// Portal capabilities: with no reachable portal, nothing; otherwise the
/// screencast interface is available, version "1.0", with the permission the
/// request answered.
pub fn portal_capabilities(proxy_available: bool, response: Option<u32>) -> (caps: PortalCapabilities)
    ensures
        caps.screencast_available == proxy_available,
        caps.screencast_permission == (if proxy_available {
            permission_spec(response)
        } else {
            PortalPermissionState::Unknown
        }),
        caps.portal_version is Some == proxy_available,
        caps.portal_version matches Some(v) ==> v@ == "1.0"@,
{
    if proxy_available {
        PortalCapabilities {
            screencast_available: true,
            screencast_permission: permission_from_response(response),
            portal_version: Some(String::from_str("1.0")),
        }
    } else {
        PortalCapabilities {
            screencast_available: false,
            screencast_permission: PortalPermissionState::Unknown,
            portal_version: None,
        }
    }
}

/// `s.trim().to_string()`.
pub fn trimmed_string(s: &str) -> (r: String)
    ensures
        r@ == trim_spec(s@),
{
    let cs = str_chars(s);
    let (a, b) = trim_range(&cs, 0, cs.len());
    assert(cs@.subrange(0, cs@.len() as int) =~= s@);
    let mut out: Vec<char> = Vec::new();
    let mut i = a;
    while i < b
        invariant
            a <= i <= b <= cs@.len(),
            out@ == cs@.subrange(a as int, i as int),
        decreases b - i,
    {
        out.push(cs[i]);
        i = i + 1;
        assert(out@ =~= cs@.subrange(a as int, i as int));
    }
    string_from_chars(&out)
}

/// The PipeWire modules the streamer depends on (for PipeWire 0.3.70 and later).
pub open spec fn required_modules_spec() -> Seq<Seq<char>> {
    seq![
        "libpipewire-module-libcamera"@,
        "libpipewire-module-roc"@,
        "libpipewire-module-v4l2"@,
        "libpipewire-module-x11-bell"@,
    ]
}

/// PipeWire capabilities from the output of `pipewire --version`: available,
/// version the trimmed output, and the required modules when the output parses
/// to a version of at least 0.3.70. No module is yet known missing.
pub fn pipewire_capabilities_from_version(output: &str) -> (caps: PipeWireCapabilities)
    ensures
        caps.available,
        caps.version matches Some(v) && v@ == trim_spec(output@),
        strings_view(caps.required_modules@) == (match version_spec(output@) {
            Some(ver) => if version_lt(ver, min_pipewire_version()) {
                Seq::<Seq<char>>::empty()
            } else {
                required_modules_spec()
            },
            None => Seq::<Seq<char>>::empty(),
        }),
        caps.missing_modules@.len() == 0,
{
    let version = trimmed_string(output);
    let mut required: Vec<String> = Vec::new();
    match parse_version(output) {
        Some(ver) => {
            if !version_less(ver, (0, 3, 70)) {
                required.push(String::from_str("libpipewire-module-libcamera"));
                required.push(String::from_str("libpipewire-module-roc"));
                required.push(String::from_str("libpipewire-module-v4l2"));
                required.push(String::from_str("libpipewire-module-x11-bell"));
                assert(strings_view(required@) =~= required_modules_spec());
            } else {
                assert(strings_view(required@) =~= Seq::<Seq<char>>::empty());
            }
        },
        None => {
            assert(strings_view(required@) =~= Seq::<Seq<char>>::empty());
        },
    }
    PipeWireCapabilities {
        available: true,
        version: Some(version),
        required_modules: required,
        missing_modules: Vec::new(),
    }
}

/// Records the outcome of looking `module` up in the PipeWire object listing
/// (`None` when the listing could not be obtained): the module is missing
/// unless the listing mentions it.
pub fn note_module_check(caps: &mut PipeWireCapabilities, module: &String, listing: Option<&str>)
    ensures
        final(caps).available == old(caps).available,
        final(caps).version == old(caps).version,
        final(caps).required_modules == old(caps).required_modules,
        strings_view(final(caps).missing_modules@) == (if listing matches Some(l) && contains_seq(l@, module@) {
            strings_view(old(caps).missing_modules@)
        } else {
            strings_view(old(caps).missing_modules@).push(module@)
        }),
{
    let present = match listing {
        Some(l) => str_contains(l, module.as_str()),
        None => false,
    };
    if !present {
        let ghost before = caps.missing_modules@;
        caps.missing_modules.push(module.clone());
        assert(strings_view(caps.missing_modules@) =~= strings_view(before).push(module@));
    }
}

/// Names of the non-blank lines of `s` from `from` on, each trimmed (lines end
/// at `\n`; a `\r` before it is white space and goes with the trim).
pub open spec fn trimmed_nonblank_lines_from(s: Seq<char>, from: int) -> Seq<Seq<char>>
    decreases s.len() - from,
{
    if from < 0 || from > s.len() {
        Seq::empty()
    } else {
        let e = find_char(s, '\n', from);
        proof {
            lemma_find_char_bounds(s, '\n', from);
        }
        let t = trim_spec(s.subrange(from, e));
        let here = if t.len() > 0 {
            seq![t]
        } else {
            Seq::empty()
        };
        if e >= s.len() {
            here
        } else {
            here + trimmed_nonblank_lines_from(s, e + 1)
        }
    }
}

/// Codec names of the NVENC listing: its non-blank lines, trimmed.
pub open spec fn nvenc_names_spec(s: Seq<char>) -> Seq<Seq<char>> {
    trimmed_nonblank_lines_from(s, 0)
}

/// The codecs an NVENC listing names: one per non-blank line, named by the
/// trimmed line, with an empty GUID.
pub fn nvenc_codecs_from_listing(listing: &str) -> (codecs: Vec<NvencCodec>)
    ensures
        codecs@.map_values(|c: NvencCodec| c.name@) == nvenc_names_spec(listing@),
        forall|i: int| 0 <= i < codecs@.len() ==> (#[trigger] codecs@[i]).codec_guid@.len() == 0,
{
    let cs = str_chars(listing);
    let ghost s = cs@;
    let n = cs.len();
    let mut codecs: Vec<NvencCodec> = Vec::new();
    let mut start: usize = 0;
    let ghost whole = nvenc_names_spec(s);
    assert(codecs@.map_values(|c: NvencCodec| c.name@) + trimmed_nonblank_lines_from(s, 0) =~= whole);
    loop
        invariant
            s == cs@,
            s == listing@,
            n == s.len(),
            start <= n,
            whole == nvenc_names_spec(s),
            codecs@.map_values(|c: NvencCodec| c.name@) + trimmed_nonblank_lines_from(s, start as int) == whole,
            forall|i: int| 0 <= i < codecs@.len() ==> (#[trigger] codecs@[i]).codec_guid@.len() == 0,
        decreases n - start,
    {
        proof {
            lemma_find_char_bounds(s, '\n', start as int);
        }
        let mut e = start;
        while e < n && cs[e] != '\n'
            invariant
                start <= e <= n,
                n == s.len(),
                s == cs@,
                find_char(s, '\n', start as int) == find_char(s, '\n', e as int),
            decreases n - e,
        {
            e = e + 1;
        }
        let (a, b) = trim_range(&cs, start, e);
        let ghost before = codecs@;
        let ghost rest = if e >= n {
            Seq::<Seq<char>>::empty()
        } else {
            trimmed_nonblank_lines_from(s, e + 1)
        };
        let ghost t = trim_spec(s.subrange(start as int, e as int));
        let ghost here = if t.len() > 0 {
            seq![t]
        } else {
            Seq::<Seq<char>>::empty()
        };
        assert(trimmed_nonblank_lines_from(s, start as int) == here + rest);
        if a < b {
            let mut name_chars: Vec<char> = Vec::new();
            let mut i = a;
            while i < b
                invariant
                    a <= i <= b <= cs@.len(),
                    name_chars@ == cs@.subrange(a as int, i as int),
                decreases b - i,
            {
                name_chars.push(cs[i]);
                i = i + 1;
                assert(name_chars@ =~= cs@.subrange(a as int, i as int));
            }
            let name = string_from_chars(&name_chars);
            codecs.push(NvencCodec { name, codec_guid: String::new() });
            assert(codecs@.map_values(|c: NvencCodec| c.name@) =~= before.map_values(|c: NvencCodec| c.name@) + here);
        } else {
            assert(t.len() == 0);
            assert(codecs@.map_values(|c: NvencCodec| c.name@) =~= before.map_values(|c: NvencCodec| c.name@) + here);
        }
        assert(codecs@.map_values(|c: NvencCodec| c.name@) + rest =~= before.map_values(|c: NvencCodec| c.name@) + (here + rest));
        if e == n {
            assert(codecs@.map_values(|c: NvencCodec| c.name@) =~= whole);
            return codecs;
        }
        start = e + 1;
    }
}

/// NVENC capabilities once the NVIDIA management library answered: the
/// driver version and GPU name it gave, the codecs of the `nvidia-smi` listing
/// (`None` when the tool did not succeed), and an 8192x8192 size limit.
pub fn nvenc_capabilities(driver_version: Option<String>, gpu_name: Option<String>, smi_listing: Option<&str>) -> (caps: NvencCapabilities)
    ensures
        caps.available,
        caps.driver_version == driver_version,
        caps.gpu_name == gpu_name,
        caps.supported_codecs@.map_values(|c: NvencCodec| c.name@) == (match smi_listing {
            Some(l) => nvenc_names_spec(l@),
            None => Seq::<Seq<char>>::empty(),
        }),
        forall|i: int| 0 <= i < caps.supported_codecs@.len() ==> (#[trigger] caps.supported_codecs@[i]).codec_guid@.len() == 0,
        caps.max_width == Some(8192u32),
        caps.max_height == Some(8192u32),
{
    let codecs = match smi_listing {
        Some(l) => nvenc_codecs_from_listing(l),
        None => {
            let v: Vec<NvencCodec> = Vec::new();
            assert(v@.map_values(|c: NvencCodec| c.name@) =~= Seq::<Seq<char>>::empty());
            v
        },
    };
    NvencCapabilities {
        available: true,
        driver_version,
        gpu_name,
        supported_codecs: codecs,
        max_width: Some(8192),
        max_height: Some(8192),
    }
}

/// The VA-API version string `major.minor`.
pub fn vaapi_version_string(major: i32, minor: i32) -> (s: String)
    ensures
        s@ == signed_decimal(major as int) + seq!['.'] + signed_decimal(minor as int),
{
    let mut s = String::new();
    push_signed_decimal(&mut s, major as i64);
    crate::text::push_char(&mut s, '.');
    push_signed_decimal(&mut s, minor as i64);
    assert(s@ =~= signed_decimal(major as int) + seq!['.'] + signed_decimal(minor as int));
    s
}

} // verus!
