//! The list of problems that keep an environment from streaming.

use vstd::prelude::*;
use crate::caps::{Capabilities, PortalPermissionState};
use crate::text::{join_strings, seq_join, strings_view};
use crate::version::{parse_version, version_spec};

verus! {

/// Lexicographic `a < b` on version triples.
pub open spec fn version_lt(a: (u32, u32, u32), b: (u32, u32, u32)) -> bool {
    ||| a.0 < b.0
    ||| a.0 == b.0 && a.1 < b.1
    ||| a.0 == b.0 && a.1 == b.1 && a.2 < b.2
}

/// Lexicographic `a < b` on version triples (tuple ordering).
pub fn version_less(a: (u32, u32, u32), b: (u32, u32, u32)) -> (r: bool)
    ensures
        r == version_lt(a, b),
{
    a.0 < b.0 || (a.0 == b.0 && a.1 < b.1) || (a.0 == b.0 && a.1 == b.1 && a.2 < b.2)
}

/// Oldest PipeWire release the streamer works with.
pub open spec fn min_pipewire_version() -> (u32, u32, u32) {
    (0, 3, 70)
}

/// Capture protocol issue.
pub open spec fn issues_capture(caps: Capabilities) -> Seq<Seq<char>> {
    if !caps.compositor.wlr_screencopy_v1 && !caps.compositor.ext_image_capture_source_v1 {
        seq!["No supported screen capture protocol (wlr-screencopy-v1 or ext-image-capture-source-v1)"@]
    } else {
        Seq::empty()
    }
}

/// Portal permission issue.
pub open spec fn issues_portal(caps: Capabilities) -> Seq<Seq<char>> {
    if caps.portal.screencast_permission != PortalPermissionState::Granted {
        seq!["ScreenCast portal permission not granted"@]
    } else {
        Seq::empty()
    }
}

/// GPU encoder issue.
pub open spec fn issues_encoder(caps: Capabilities) -> Seq<Seq<char>> {
    if !caps.gpu_encoders.vaapi.available && !caps.gpu_encoders.nvenc.available {
        seq!["No GPU encoder available (VA-API or NVENC)"@]
    } else {
        Seq::empty()
    }
}

/// PipeWire presence and version issue.
pub open spec fn issues_pipewire(caps: Capabilities) -> Seq<Seq<char>> {
    if !caps.pipewire.available {
        seq!["PipeWire not available"@]
    } else {
        match caps.pipewire.version {
            Some(v) => match version_spec(v@) {
                Some(ver) => if version_lt(ver, min_pipewire_version()) {
                    seq!["PipeWire version < 0.3.70"@]
                } else {
                    Seq::empty()
                },
                None => Seq::empty(),
            },
            None => Seq::empty(),
        }
    }
}

/// Missing PipeWire module issue.
pub open spec fn issues_modules(caps: Capabilities) -> Seq<Seq<char>> {
    if caps.pipewire.missing_modules@.len() != 0 {
        seq!["Missing PipeWire modules: "@ + seq_join(strings_view(caps.pipewire.missing_modules@), ", "@)]
    } else {
        Seq::empty()
    }
}

/// Kernel interface issues.
pub open spec fn issues_kernel(caps: Capabilities) -> Seq<Seq<char>> {
    (if !caps.kernel.dma_buf.available {
        seq!["DMA-BUF heaps not available"@]
    } else {
        Seq::empty()
    }) + (if !caps.kernel.libei.available {
        seq!["libei not available"@]
    } else {
        Seq::empty()
    }) + (if !caps.kernel.evdev.available {
        seq!["evdev not available"@]
    } else {
        Seq::empty()
    })
}

/// All issues, in the order they are reported.
pub open spec fn validation_issues_spec(caps: Capabilities) -> Seq<Seq<char>> {
    issues_capture(caps) + issues_portal(caps) + issues_encoder(caps) + issues_pipewire(caps)
        + issues_modules(caps) + issues_kernel(caps)
}

/// The capabilities a stream needs: a capture protocol, the screencast
/// permission, a GPU encoder, PipeWire that is not known to be older than
/// 0.3.70 with no required module missing, DMA-BUF heaps, libei and evdev.
pub open spec fn environment_ready(caps: Capabilities) -> bool {
    &&& caps.compositor.wlr_screencopy_v1 || caps.compositor.ext_image_capture_source_v1
    &&& caps.portal.screencast_permission == PortalPermissionState::Granted
    &&& caps.gpu_encoders.vaapi.available || caps.gpu_encoders.nvenc.available
    &&& caps.pipewire.available
    &&& !(caps.pipewire.version matches Some(v) && version_spec(v@) matches Some(ver) && version_lt(
        ver,
        min_pipewire_version(),
    ))
    &&& caps.pipewire.missing_modules@.len() == 0
    &&& caps.kernel.dma_buf.available
    &&& caps.kernel.libei.available
    &&& caps.kernel.evdev.available
}

/// Validation reports no issue exactly when the environment has everything a
/// stream needs.
pub proof fn lemma_validation_ready(caps: Capabilities)
    ensures
        validation_issues_spec(caps).len() == 0 <==> environment_ready(caps),
{
}

fn push_issue(issues: &mut Vec<String>, msg: &str)
    ensures
        strings_view(final(issues)@) == strings_view(old(issues)@).push(msg@),
{
    let s = String::from_str(msg);
    let ghost before = issues@;
    issues.push(s);
    assert(strings_view(issues@) =~= strings_view(before).push(msg@));
}

fn add_pipewire_issues(caps: &Capabilities, issues: &mut Vec<String>)
    ensures
        strings_view(final(issues)@) == strings_view(old(issues)@) + issues_pipewire(*caps),
{
    let ghost before = strings_view(issues@);
    if !caps.pipewire.available {
        push_issue(issues, "PipeWire not available");
    } else {
        match &caps.pipewire.version {
            Some(version) => {
                match parse_version(version.as_str()) {
                    Some(ver) => {
                        if version_less(ver, (0, 3, 70)) {
                            push_issue(issues, "PipeWire version < 0.3.70");
                        }
                    },
                    None => {},
                }
            },
            None => {},
        }
    }
    assert(strings_view(issues@) =~= before + issues_pipewire(*caps));
}

fn add_module_issues(caps: &Capabilities, issues: &mut Vec<String>)
    ensures
        strings_view(final(issues)@) == strings_view(old(issues)@) + issues_modules(*caps),
{
    let ghost before = strings_view(issues@);
    if caps.pipewire.missing_modules.len() != 0 {
        let mut msg = String::from_str("Missing PipeWire modules: ");
        let joined = join_strings(&caps.pipewire.missing_modules, ", ");
        msg.append(joined.as_str());
        let ghost prev = issues@;
        issues.push(msg);
        assert(strings_view(issues@) =~= strings_view(prev).push(msg@));
    }
    assert(strings_view(issues@) =~= before + issues_modules(*caps));
}

fn add_kernel_issues(caps: &Capabilities, issues: &mut Vec<String>)
    ensures
        strings_view(final(issues)@) == strings_view(old(issues)@) + issues_kernel(*caps),
{
    let ghost before = strings_view(issues@);
    if !caps.kernel.dma_buf.available {
        push_issue(issues, "DMA-BUF heaps not available");
    }
    if !caps.kernel.libei.available {
        push_issue(issues, "libei not available");
    }
    if !caps.kernel.evdev.available {
        push_issue(issues, "evdev not available");
    }
    assert(strings_view(issues@) =~= before + issues_kernel(*caps));
}

/// Checks the capabilities that streaming needs and lists every one that is
/// missing; an empty list means the environment is ready.
pub fn validation_issues(caps: &Capabilities) -> (issues: Vec<String>)
    ensures
        strings_view(issues@) == validation_issues_spec(*caps),
{
    let mut issues: Vec<String> = Vec::new();
    let ghost c = *caps;
    assert(strings_view(issues@) =~= Seq::<Seq<char>>::empty());
    if !caps.compositor.wlr_screencopy_v1 && !caps.compositor.ext_image_capture_source_v1 {
        push_issue(&mut issues, "No supported screen capture protocol (wlr-screencopy-v1 or ext-image-capture-source-v1)");
    }
    assert(strings_view(issues@) =~= issues_capture(c));
    let ghost a1 = strings_view(issues@);
    if caps.portal.screencast_permission != PortalPermissionState::Granted {
        push_issue(&mut issues, "ScreenCast portal permission not granted");
    }
    assert(strings_view(issues@) =~= a1 + issues_portal(c));
    let ghost a2 = strings_view(issues@);
    if !caps.gpu_encoders.vaapi.available && !caps.gpu_encoders.nvenc.available {
        push_issue(&mut issues, "No GPU encoder available (VA-API or NVENC)");
    }
    assert(strings_view(issues@) =~= a2 + issues_encoder(c));
    add_pipewire_issues(caps, &mut issues);
    add_module_issues(caps, &mut issues);
    add_kernel_issues(caps, &mut issues);
    assert(validation_issues_spec(c) =~= issues_capture(c) + issues_portal(c) + issues_encoder(c)
        + issues_pipewire(c) + issues_modules(c) + issues_kernel(c));
    assert(strings_view(issues@) =~= validation_issues_spec(c));
    issues
}

} // verus!
