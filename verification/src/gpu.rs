//! Accelerator detection from probe results, and the choice of a device.
//!
//! With the preference `auto` an explicit setting wins, then CUDA. On an Intel
//! GPU SYCL is preferred over Vulkan; elsewhere Vulkan over SYCL. The CPU is
//! the last resort.

use crate::config::GpuPreference;
use crate::text;
use vstd::prelude::*;

verus! {

#[derive(Debug, Clone, Copy, PartialEq, Eq, Structural)]
pub enum GpuKind {
    Vulkan,
    Cuda,
    Sycl,
    Cpu,
}

pub open spec fn kind_name(kind: GpuKind) -> Seq<char> {
    match kind {
        GpuKind::Vulkan => "vulkan"@,
        GpuKind::Cuda => "cuda"@,
        GpuKind::Sycl => "sycl"@,
        GpuKind::Cpu => "cpu"@,
    }
}

impl GpuKind {
    pub fn as_str(self) -> (r: &'static str)
        ensures
            r@ == kind_name(self),
    {
        match self {
            GpuKind::Vulkan => "vulkan",
            GpuKind::Cuda => "cuda",
            GpuKind::Sycl => "sycl",
            GpuKind::Cpu => "cpu",
        }
    }
}

#[derive(Debug)]
pub struct GpuDevice {
    pub index: u32,
    pub name: String,
    pub kind: GpuKind,
    /// GGML-style backend id such as `Vulkan0`, `CUDA0`, `SYCL0` or `CPU`.
    pub ggml_backend: String,
    pub vendor_hint: Option<String>,
}

/// What a device is.
#[verifier::ext_equal]
pub struct DeviceView {
    pub index: int,
    pub name: Seq<char>,
    pub kind: GpuKind,
    pub ggml_backend: Seq<char>,
    pub vendor_hint: Option<Seq<char>>,
}

impl View for GpuDevice {
    type V = DeviceView;

    open spec fn view(&self) -> DeviceView {
        DeviceView {
            index: self.index as int,
            name: self.name@,
            kind: self.kind,
            ggml_backend: self.ggml_backend@,
            vendor_hint: match self.vendor_hint {
                Some(v) => Some(v@),
                None => None,
            },
        }
    }
}

impl Clone for GpuDevice {
    fn clone(&self) -> (r: Self)
        ensures
            r@ == self@,
    {
        GpuDevice {
            index: self.index,
            name: self.name.clone(),
            kind: self.kind,
            ggml_backend: self.ggml_backend.clone(),
            vendor_hint: match &self.vendor_hint {
                Some(v) => Some(v.clone()),
                None => None,
            },
        }
    }
}

pub open spec fn device_views(v: Seq<GpuDevice>) -> Seq<DeviceView> {
    v.map_values(|d: GpuDevice| d@)
}

#[derive(Debug)]
pub struct GpuReport {
    pub selected: GpuDevice,
    pub all: Vec<GpuDevice>,
    pub in_container: bool,
    pub dri_nodes: Vec<String>,
    pub notes: Vec<String>,
    pub sycl_runtime_available: bool,
}

pub open spec fn cpu_view() -> DeviceView {
    DeviceView {
        index: 0,
        name: "CPU"@,
        kind: GpuKind::Cpu,
        ggml_backend: "CPU"@,
        vendor_hint: None,
    }
}

pub fn cpu_device() -> (r: GpuDevice)
    ensures
        r@ == cpu_view(),
{
    GpuDevice {
        index: 0,
        name: String::from_str("CPU"),
        kind: GpuKind::Cpu,
        ggml_backend: String::from_str("CPU"),
        vendor_hint: None,
    }
}

pub open spec fn sycl_view(index: nat, name: Seq<char>) -> DeviceView {
    DeviceView {
        index: index as int,
        name,
        kind: GpuKind::Sycl,
        ggml_backend: "SYCL"@ + text::decimal(index),
        vendor_hint: Some("intel"@),
    }
}

pub fn sycl_device(index: u32, name: &str) -> (r: GpuDevice)
    ensures
        r@ == sycl_view(index as nat, name@),
{
    GpuDevice {
        index,
        name: String::from_str(name),
        kind: GpuKind::Sycl,
        ggml_backend: String::from_str("SYCL").concat(text::decimal_of(index as u64).as_str()),
        vendor_hint: Some(String::from_str("intel")),
    }
}

// ---------------------------------------------------------------------------
// Choice of a device
// ---------------------------------------------------------------------------

/// The first listed device of a kind.
pub open spec fn first_kind(all: Seq<DeviceView>, kind: GpuKind) -> Option<DeviceView>
    decreases all.len(),
{
    if all.len() == 0 {
        None
    } else if all[0].kind == kind {
        Some(all[0])
    } else {
        first_kind(all.drop_first(), kind)
    }
}

fn find_kind(all: &Vec<GpuDevice>, kind: GpuKind) -> (r: Option<GpuDevice>)
    ensures
        match r {
            Some(d) => first_kind(device_views(all@), kind) == Some(d@),
            None => first_kind(device_views(all@), kind) is None,
        },
{
    let ghost views = device_views(all@);
    let mut i: usize = 0;
    assert(views.skip(0) =~= views);
    while i < all.len()
        invariant
            views == device_views(all@),
            i <= all.len(),
            first_kind(views, kind) == first_kind(views.skip(i as int), kind),
        decreases all.len() - i,
    {
        assert(views.skip(i as int)[0] == all@[i as int]@);
        if all[i].kind == kind {
            return Some(all[i].clone());
        }
        assert(views.skip(i as int).drop_first() =~= views.skip(i + 1));
        i += 1;
    }
    None
}

/// Settings that pin a device in automatic mode.
#[derive(Debug)]
pub struct GpuSettings {
    /// `GGML_BACKEND`
    pub ggml_backend: Option<String>,
    /// `S2S_GPU`
    pub s2s_gpu: Option<String>,
    /// `S2S_ALLOW_INTEL_VULKAN`: lets Vulkan win over SYCL on an Intel GPU.
    pub allow_intel_vulkan: Option<String>,
}

/// A choice with the notes that it leaves.
pub struct Choice {
    pub device: DeviceView,
    pub notes: Seq<Seq<char>>,
}

pub open spec fn plain(device: DeviceView) -> Choice {
    Choice { device, notes: seq![] }
}

pub open spec fn noted(device: DeviceView, note: Seq<char>) -> Choice {
    Choice { device, notes: seq![note] }
}

pub open spec fn backend_kind(backend: Seq<char>) -> GpuKind {
    let up = text::upper(backend);
    if text::has(up, "VULKAN"@) {
        GpuKind::Vulkan
    } else if text::has(up, "CUDA"@) {
        GpuKind::Cuda
    } else if text::has(up, "SYCL"@) {
        GpuKind::Sycl
    } else {
        GpuKind::Cpu
    }
}

/// The device that an explicit backend id stands for.
pub open spec fn pinned_backend(backend: Seq<char>) -> DeviceView {
    DeviceView {
        index: 0,
        name: "env GGML_BACKEND="@ + backend,
        kind: backend_kind(backend),
        ggml_backend: backend,
        vendor_hint: None,
    }
}

/// The choice in automatic mode when no setting decides. On an Intel GPU SYCL comes
/// before Vulkan; `allow_vulkan` puts a Vulkan device before SYCL there too.
pub open spec fn automatic(
    all: Seq<DeviceView>,
    sycl_runtime: bool,
    intel: bool,
    allow_vulkan: bool,
) -> Choice {
    let cuda = first_kind(all, GpuKind::Cuda);
    let sycl = first_kind(all, GpuKind::Sycl);
    let vulkan = first_kind(all, GpuKind::Vulkan);
    if cuda is Some {
        plain(cuda.unwrap())
    } else if intel && allow_vulkan && vulkan is Some && (sycl is Some || sycl_runtime) {
        plain(vulkan.unwrap())
    } else if intel && sycl is Some {
        plain(sycl.unwrap())
    } else if intel && sycl_runtime {
        noted(
            sycl_view(0, "Intel GPU (SYCL preferred over Vulkan)"@),
            "Intel GPU: selecting SYCL0 (runtime present). Build backends with -DGGML_SYCL=ON or fall back to Supertonic/CPU."@,
        )
    } else if intel && vulkan is Some {
        noted(
            vulkan.unwrap(),
            "Intel GPU without usable SYCL stack: falling back to Vulkan0 (experimental for Qwen3-TTS). Install oneAPI + SYCL-built qwentts for SYCL0, or use Supertonic TTS."@,
        )
    } else if vulkan is Some {
        plain(vulkan.unwrap())
    } else if sycl is Some {
        plain(sycl.unwrap())
    } else {
        plain(cpu_view())
    }
}

/// What `S2S_GPU` decides: a choice, or only a note.
pub open spec fn by_setting(
    setting: Seq<char>,
    all: Seq<DeviceView>,
    sycl_runtime: bool,
    intel: bool,
) -> (Option<Choice>, Seq<Seq<char>>) {
    let s = text::lower(setting);
    let cuda = first_kind(all, GpuKind::Cuda);
    let sycl = first_kind(all, GpuKind::Sycl);
    let vulkan = first_kind(all, GpuKind::Vulkan);
    if s == "cpu"@ {
        (Some(plain(cpu_view())), seq![])
    } else if text::starts_with(s, "sycl"@) {
        if sycl is Some {
            (Some(plain(sycl.unwrap())), seq![])
        } else if sycl_runtime {
            (
                Some(
                    noted(
                        sycl_view(0, "Intel GPU (SYCL via S2S_GPU)"@),
                        "S2S_GPU=sycl — SYCL runtime present; using SYCL0 (binary must be SYCL-built)"@,
                    ),
                ),
                seq![],
            )
        } else {
            (None, seq!["S2S_GPU=sycl but no SYCL runtime/device detected"@])
        }
    } else if text::starts_with(s, "vulkan"@) {
        if vulkan is Some {
            if intel {
                (
                    Some(
                        noted(
                            vulkan.unwrap(),
                            "S2S_GPU=vulkan on Intel — Qwen3-TTS quality may be wrong; prefer S2S_GPU=sycl when available"@,
                        ),
                    ),
                    seq![],
                )
            } else {
                (Some(plain(vulkan.unwrap())), seq![])
            }
        } else {
            (None, seq!["S2S_GPU=vulkan but no Vulkan device detected"@])
        }
    } else if text::starts_with(s, "cuda"@) {
        if cuda is Some {
            (Some(plain(cuda.unwrap())), seq![])
        } else {
            (None, seq!["S2S_GPU=cuda but no CUDA device detected"@])
        }
    } else {
        (None, seq![])
    }
}

/// The device that is chosen, with the notes that the choice leaves.
pub open spec fn choice(
    pref: GpuPreference,
    settings: GpuSettings,
    all: Seq<DeviceView>,
    sycl_runtime: bool,
    intel: bool,
) -> Choice {
    let cuda = first_kind(all, GpuKind::Cuda);
    let sycl = first_kind(all, GpuKind::Sycl);
    let vulkan = first_kind(all, GpuKind::Vulkan);
    let allow_vulkan = crate::registry::truthy(settings.allow_intel_vulkan);
    match pref {
        GpuPreference::Auto => if settings.ggml_backend matches Some(b) && b@.len() > 0 {
            plain(pinned_backend(settings.ggml_backend.unwrap()@))
        } else {
            match settings.s2s_gpu {
                Some(s) => {
                    let (decided, notes) = by_setting(s@, all, sycl_runtime, intel);
                    match decided {
                        Some(c) => c,
                        None => {
                            let c = automatic(all, sycl_runtime, intel, allow_vulkan);
                            Choice { device: c.device, notes: notes + c.notes }
                        },
                    }
                },
                None => automatic(all, sycl_runtime, intel, allow_vulkan),
            }
        },
        GpuPreference::Vulkan => if vulkan is Some {
            if intel {
                noted(
                    vulkan.unwrap(),
                    "Forced Vulkan on Intel GPU — Qwen3-TTS may produce bad audio"@,
                )
            } else {
                plain(vulkan.unwrap())
            }
        } else {
            noted(cpu_view(), "Requested Vulkan not found — falling back to CPU"@)
        },
        GpuPreference::Cuda => if cuda is Some {
            plain(cuda.unwrap())
        } else {
            noted(cpu_view(), "Requested CUDA not found — falling back to CPU"@)
        },
        GpuPreference::Sycl => if sycl is Some {
            plain(sycl.unwrap())
        } else if sycl_runtime {
            noted(
                sycl_view(0, "SYCL0 (forced)"@),
                "Forced SYCL: runtime present, no device enum — using SYCL0"@,
            )
        } else if vulkan is Some {
            Choice {
                device: vulkan.unwrap(),
                notes: seq![
                    "Requested SYCL not available — trying Vulkan, then CPU"@,
                    "SYCL→Vulkan fallback (experimental on Intel)"@,
                ],
            }
        } else {
            Choice {
                device: cpu_view(),
                notes: seq![
                    "Requested SYCL not available — trying Vulkan, then CPU"@,
                    "SYCL and Vulkan unavailable — CPU"@,
                ],
            }
        },
        GpuPreference::Cpu => plain(cpu_view()),
    }
}

fn note(notes: &mut Vec<String>, s: &str)
    ensures
        text::views(final(notes)@) == text::views(old(notes)@).push(s@),
{
    let ghost before = text::views(notes@);
    notes.push(String::from_str(s));
    assert(text::views(notes@) =~= before.push(s@));
}

fn kind_of_backend(backend: &str) -> (r: GpuKind)
    ensures
        r == backend_kind(backend@),
{
    let up: String = text::to_upper(backend);
    if text::contains(up.as_str(), "VULKAN") {
        GpuKind::Vulkan
    } else if text::contains(up.as_str(), "CUDA") {
        GpuKind::Cuda
    } else if text::contains(up.as_str(), "SYCL") {
        GpuKind::Sycl
    } else {
        GpuKind::Cpu
    }
}

fn select_by_setting(
    setting: &str,
    all: &Vec<GpuDevice>,
    sycl_runtime: bool,
    has_intel_gpu: bool,
    notes: &mut Vec<String>,
) -> (r: Option<GpuDevice>)
    ensures
        ({
            let (decided, left) = by_setting(
                setting@,
                device_views(all@),
                sycl_runtime,
                has_intel_gpu,
            );
            match r {
                Some(d) => decided matches Some(c) && d@ == c.device && text::views(final(notes)@)
                    == text::views(old(notes)@) + c.notes,
                None => decided is None && text::views(final(notes)@) == text::views(old(notes)@)
                    + left,
            }
        }),
{
    let ghost before = text::views(notes@);
    assert(before + Seq::<Seq<char>>::empty() =~= before);
    let s: String = text::to_lower(setting);
    if text::same(s.as_str(), "cpu") {
        return Some(cpu_device());
    }
    if text::begins_with(s.as_str(), "sycl") {
        match find_kind(all, GpuKind::Sycl) {
            Some(d) => {
                return Some(d);
            },
            None => {},
        }
        if sycl_runtime {
            note(
                notes,
                "S2S_GPU=sycl — SYCL runtime present; using SYCL0 (binary must be SYCL-built)",
            );
            return Some(sycl_device(0, "Intel GPU (SYCL via S2S_GPU)"));
        }
        note(notes, "S2S_GPU=sycl but no SYCL runtime/device detected");
        return None;
    }
    if text::begins_with(s.as_str(), "vulkan") {
        match find_kind(all, GpuKind::Vulkan) {
            Some(d) => {
                if has_intel_gpu {
                    note(
                        notes,
                        "S2S_GPU=vulkan on Intel — Qwen3-TTS quality may be wrong; prefer S2S_GPU=sycl when available",
                    );
                }
                return Some(d);
            },
            None => {},
        }
        note(notes, "S2S_GPU=vulkan but no Vulkan device detected");
        return None;
    }
    if text::begins_with(s.as_str(), "cuda") {
        match find_kind(all, GpuKind::Cuda) {
            Some(d) => {
                return Some(d);
            },
            None => {},
        }
        note(notes, "S2S_GPU=cuda but no CUDA device detected");
    }
    None
}

fn select_automatic(
    all: &Vec<GpuDevice>,
    sycl_runtime: bool,
    has_intel_gpu: bool,
    allow_vulkan: bool,
    notes: &mut Vec<String>,
) -> (r: GpuDevice)
    ensures
        r@ == automatic(device_views(all@), sycl_runtime, has_intel_gpu, allow_vulkan).device,
        text::views(final(notes)@) == text::views(old(notes)@) + automatic(
            device_views(all@),
            sycl_runtime,
            has_intel_gpu,
            allow_vulkan,
        ).notes,
{
    let ghost before = text::views(notes@);
    assert(before + Seq::<Seq<char>>::empty() =~= before);
    match find_kind(all, GpuKind::Cuda) {
        Some(d) => {
            return d;
        },
        None => {},
    }
    let vulkan: Option<GpuDevice> = find_kind(all, GpuKind::Vulkan);
    if has_intel_gpu {
        let sycl: Option<GpuDevice> = find_kind(all, GpuKind::Sycl);
        if allow_vulkan && (sycl.is_some() || sycl_runtime) {
            match vulkan {
                Some(d) => {
                    return d;
                },
                None => {},
            }
        }
        match sycl {
            Some(d) => {
                return d;
            },
            None => {},
        }
        if sycl_runtime {
            note(
                notes,
                "Intel GPU: selecting SYCL0 (runtime present). Build backends with -DGGML_SYCL=ON or fall back to Supertonic/CPU.",
            );
            return sycl_device(0, "Intel GPU (SYCL preferred over Vulkan)");
        }
        match vulkan {
            Some(d) => {
                note(
                    notes,
                    "Intel GPU without usable SYCL stack: falling back to Vulkan0 (experimental for Qwen3-TTS). Install oneAPI + SYCL-built qwentts for SYCL0, or use Supertonic TTS.",
                );
                return d;
            },
            None => {
                return cpu_device();
            },
        }
    }
    match vulkan {
        Some(d) => {
            return d;
        },
        None => {},
    }
    match find_kind(all, GpuKind::Sycl) {
        Some(d) => d,
        None => cpu_device(),
    }
}

/// Chooses a device and notes what is worth knowing about the choice.
pub fn select_device(
    pref: GpuPreference,
    settings: &GpuSettings,
    all: &Vec<GpuDevice>,
    sycl_runtime: bool,
    has_intel_gpu: bool,
    notes: &mut Vec<String>,
) -> (r: GpuDevice)
    ensures
        r@ == choice(pref, *settings, device_views(all@), sycl_runtime, has_intel_gpu).device,
        text::views(final(notes)@) == text::views(old(notes)@) + choice(
            pref,
            *settings,
            device_views(all@),
            sycl_runtime,
            has_intel_gpu,
        ).notes,
{
    let ghost before = text::views(notes@);
    assert(before + Seq::<Seq<char>>::empty() =~= before);
    match pref {
        GpuPreference::Auto => {
            match &settings.ggml_backend {
                Some(b) => {
                    if !b.as_str().is_empty() {
                        return GpuDevice {
                            index: 0,
                            name: String::from_str("env GGML_BACKEND=").concat(b.as_str()),
                            kind: kind_of_backend(b.as_str()),
                            ggml_backend: b.clone(),
                            vendor_hint: None,
                        };
                    }
                },
                None => {},
            }
            match &settings.s2s_gpu {
                Some(s) => {
                    match select_by_setting(s.as_str(), all, sycl_runtime, has_intel_gpu, notes) {
                        Some(d) => {
                            return d;
                        },
                        None => {},
                    }
                },
                None => {},
            }
            let ghost mid = text::views(notes@);
            let allow: bool = crate::registry::env_truthy(&settings.allow_intel_vulkan);
            let d: GpuDevice = select_automatic(all, sycl_runtime, has_intel_gpu, allow, notes);
            proof {
                let c = automatic(device_views(all@), sycl_runtime, has_intel_gpu, allow);
                if settings.s2s_gpu is Some {
                    let left = by_setting(
                        settings.s2s_gpu.unwrap()@,
                        device_views(all@),
                        sycl_runtime,
                        has_intel_gpu,
                    ).1;
                    assert(mid + c.notes =~= before + (left + c.notes));
                }
            }
            d
        },
        GpuPreference::Vulkan => {
            match find_kind(all, GpuKind::Vulkan) {
                Some(d) => {
                    if has_intel_gpu {
                        note(
                            notes,
                            "Forced Vulkan on Intel GPU — Qwen3-TTS may produce bad audio",
                        );
                    }
                    d
                },
                None => {
                    note(notes, "Requested Vulkan not found — falling back to CPU");
                    cpu_device()
                },
            }
        },
        GpuPreference::Cuda => {
            match find_kind(all, GpuKind::Cuda) {
                Some(d) => d,
                None => {
                    note(notes, "Requested CUDA not found — falling back to CPU");
                    cpu_device()
                },
            }
        },
        GpuPreference::Sycl => {
            match find_kind(all, GpuKind::Sycl) {
                Some(d) => {
                    return d;
                },
                None => {},
            }
            if sycl_runtime {
                note(notes, "Forced SYCL: runtime present, no device enum — using SYCL0");
                return sycl_device(0, "SYCL0 (forced)");
            }
            note(notes, "Requested SYCL not available — trying Vulkan, then CPU");
            match find_kind(all, GpuKind::Vulkan) {
                Some(d) => {
                    note(notes, "SYCL→Vulkan fallback (experimental on Intel)");
                    d
                },
                None => {
                    note(notes, "SYCL and Vulkan unavailable — CPU");
                    cpu_device()
                },
            }
        },
        GpuPreference::Cpu => cpu_device(),
    }
}

// ---------------------------------------------------------------------------
// Probe output
// ---------------------------------------------------------------------------

pub open spec fn vendor_in(n: Seq<char>) -> Option<Seq<char>> {
    if text::has(n, "nvidia"@) {
        Some("nvidia"@)
    } else if text::has(n, "amd"@) || text::has(n, "radeon"@) {
        Some("amd"@)
    } else if text::has(n, "intel"@) {
        Some("intel"@)
    } else {
        None
    }
}

pub open spec fn opt_view(s: Option<String>) -> Option<Seq<char>> {
    match s {
        Some(t) => Some(t@),
        None => None,
    }
}

/// Whether a line of `sycl-ls` output lists a GPU.
pub open spec fn is_sycl_line(line: Seq<char>) -> bool {
    let l = text::lower(text::trim(line));
    &&& text::has(l, "gpu"@) || text::has(l, "level_zero"@)
    &&& !(text::has(l, "cpu"@) && !text::has(l, "gpu"@))
}

pub open spec fn sycl_vendor(line: Seq<char>) -> Option<Seq<char>> {
    let l = text::lower(text::trim(line));
    if text::has(l, "intel"@) || text::has(l, "arc"@) {
        Some("intel"@)
    } else if text::has(l, "nvidia"@) {
        Some("nvidia"@)
    } else if text::has(l, "amd"@) {
        Some("amd"@)
    } else {
        None
    }
}

/// The devices that `sycl-ls` lists, numbered in order.
pub open spec fn sycl_devices(lines: Seq<Seq<char>>) -> Seq<DeviceView>
    decreases lines.len(),
{
    if lines.len() == 0 {
        seq![]
    } else {
        let prev = sycl_devices(lines.drop_last());
        let line = lines.last();
        if is_sycl_line(line) {
            prev.push(
                DeviceView {
                    index: prev.len() as int,
                    name: text::trim(line),
                    kind: GpuKind::Sycl,
                    ggml_backend: "SYCL"@ + text::decimal(prev.len()),
                    vendor_hint: sycl_vendor(line),
                },
            )
        } else {
            prev
        }
    }
}

proof fn lemma_sycl_count(lines: Seq<Seq<char>>)
    ensures
        sycl_devices(lines).len() <= lines.len(),
    decreases lines.len(),
{
    if lines.len() > 0 {
        lemma_sycl_count(lines.drop_last());
    }
}

fn sycl_line_device(line: &str, index: u32) -> (r: Option<GpuDevice>)
    ensures
        match r {
            Some(d) => is_sycl_line(line@) && d@ == (DeviceView {
                index: index as int,
                name: text::trim(line@),
                kind: GpuKind::Sycl,
                ggml_backend: "SYCL"@ + text::decimal(index as nat),
                vendor_hint: sycl_vendor(line@),
            }),
            None => !is_sycl_line(line@),
        },
{
    let name: String = text::trimmed(line);
    let lower: String = text::to_lower(name.as_str());
    let l: &str = lower.as_str();
    let gpu: bool = text::contains(l, "gpu");
    if !(gpu || text::contains(l, "level_zero")) {
        return None;
    }
    if text::contains(l, "cpu") && !gpu {
        return None;
    }
    let vendor_hint: Option<String> = if text::contains(l, "intel") || text::contains(l, "arc") {
        Some(String::from_str("intel"))
    } else if text::contains(l, "nvidia") {
        Some(String::from_str("nvidia"))
    } else if text::contains(l, "amd") {
        Some(String::from_str("amd"))
    } else {
        None
    };
    Some(
        GpuDevice {
            index,
            name,
            kind: GpuKind::Sycl,
            ggml_backend: String::from_str("SYCL").concat(text::decimal_of(index as u64).as_str()),
            vendor_hint,
        },
    )
}

/// The devices in the output of `sycl-ls`; none of them is no list at all.
pub fn parse_sycl_ls(output: &str) -> (r: Option<Vec<GpuDevice>>)
    requires
        text::split(output@, '\n').len() <= u32::MAX,
    ensures
        ({
            let found = sycl_devices(text::split(output@, '\n'));
            match r {
                Some(v) => v@.len() > 0 && device_views(v@) == found,
                None => found.len() == 0,
            }
        }),
{
    let lines: Vec<String> = text::split_at_char(output, '\n');
    let ghost views = text::views(lines@);
    let mut devices: Vec<GpuDevice> = Vec::new();
    let mut i: usize = 0;
    while i < lines.len()
        invariant
            views == text::views(lines@),
            views.len() <= u32::MAX,
            i <= lines.len(),
            devices.len() <= i,
            device_views(devices@) =~= sycl_devices(views.take(i as int)),
        decreases lines.len() - i,
    {
        assert(views.take(i + 1).drop_last() =~= views.take(i as int));
        assert(views.take(i + 1).last() == lines@[i as int]@);
        let index: u32 = devices.len() as u32;
        match sycl_line_device(lines[i].as_str(), index) {
            Some(d) => {
                let ghost before = device_views(devices@);
                devices.push(d);
                assert(device_views(devices@) =~= before.push(d@));
            },
            None => {},
        }
        i += 1;
    }
    assert(views.take(lines.len() as int) =~= views);
    if devices.is_empty() {
        None
    } else {
        Some(devices)
    }
}

/// The names between `=` and the line's end in a summary line.
pub open spec fn after_equals(s: Seq<char>) -> Option<Seq<char>> {
    let i = text::first_char(s, '=');
    if i < s.len() {
        let n = text::trim(s.skip(i + 1));
        if n.len() > 0 {
            Some(n)
        } else {
            None
        }
    } else {
        None
    }
}

fn value_after_equals(v: &[char], from: usize) -> (r: Option<String>)
    requires
        from <= v.len(),
    ensures
        opt_view(r) == after_equals(v@.skip(from as int)),
{
    let i: usize = text::index_of(v, from, '=');
    if i >= v.len() {
        return None;
    }
    assert(v@.skip(from as int).skip(i - from + 1) =~= v@.subrange(i + 1, v.len() as int));
    let n: String = text::trimmed_piece(v, i + 1, v.len());
    if n.as_str().is_empty() {
        None
    } else {
        Some(n)
    }
}

/// The device name in a line such as `GPU0 = name`.
pub open spec fn gpu_line_name(line: Seq<char>) -> Option<Seq<char>> {
    let l = text::trim(line);
    if text::starts_with(l, "GPU"@) && l.len() > 3 && text::is_digit(l[3]) {
        after_equals(l.skip(3))
    } else {
        None
    }
}

/// The device name in a line such as `deviceName = name`.
pub open spec fn name_line_name(line: Seq<char>) -> Option<Seq<char>> {
    let l = text::trim(line);
    if text::starts_with(l, "deviceName"@) {
        after_equals(l.skip(10))
    } else {
        None
    }
}

/// The names that a line reader finds, each once, in order.
pub open spec fn names_in(
    lines: Seq<Seq<char>>,
    read: spec_fn(Seq<char>) -> Option<Seq<char>>,
) -> Seq<Seq<char>>
    decreases lines.len(),
{
    if lines.len() == 0 {
        seq![]
    } else {
        let prev = names_in(lines.drop_last(), read);
        match read(lines.last()) {
            Some(n) => if prev.contains(n) {
                prev
            } else {
                prev.push(n)
            },
            None => prev,
        }
    }
}

/// The device names of a Vulkan summary.
pub open spec fn vulkan_names(lines: Seq<Seq<char>>) -> Seq<Seq<char>> {
    let gpus = names_in(lines, |l: Seq<char>| gpu_line_name(l));
    if gpus.len() > 0 {
        gpus
    } else {
        names_in(lines, |l: Seq<char>| name_line_name(l))
    }
}

fn line_name(line: &str, numbered: bool) -> (r: Option<String>)
    ensures
        opt_view(r) == if numbered {
            gpu_line_name(line@)
        } else {
            name_line_name(line@)
        },
{
    let l: String = text::trimmed(line);
    let v: Vec<char> = text::chars_of(l.as_str());
    if numbered {
        if text::begins_with(l.as_str(), "GPU") && v.len() > 3 && text::char_is_digit(v[3]) {
            value_after_equals(v.as_slice(), 3)
        } else {
            None
        }
    } else {
        if text::begins_with(l.as_str(), "deviceName") {
            proof {
                reveal_strlit("deviceName");
            }
            value_after_equals(v.as_slice(), 10)
        } else {
            None
        }
    }
}

fn collect_names(lines: &Vec<String>, numbered: bool) -> (r: Vec<String>)
    ensures
        text::views(r@) == if numbered {
            names_in(text::views(lines@), |l: Seq<char>| gpu_line_name(l))
        } else {
            names_in(text::views(lines@), |l: Seq<char>| name_line_name(l))
        },
        r@.len() <= lines@.len(),
{
    let ghost views = text::views(lines@);
    let ghost read = if numbered {
        |l: Seq<char>| gpu_line_name(l)
    } else {
        |l: Seq<char>| name_line_name(l)
    };
    let mut r: Vec<String> = Vec::new();
    let mut i: usize = 0;
    while i < lines.len()
        invariant
            views == text::views(lines@),
            read == if numbered {
                |l: Seq<char>| gpu_line_name(l)
            } else {
                |l: Seq<char>| name_line_name(l)
            },
            i <= lines.len(),
            r@.len() <= i,
            text::views(r@) =~= names_in(views.take(i as int), read),
        decreases lines.len() - i,
    {
        assert(views.take(i + 1).drop_last() =~= views.take(i as int));
        assert(views.take(i + 1).last() == lines@[i as int]@);
        match line_name(lines[i].as_str(), numbered) {
            Some(n) => {
                let ghost before = text::views(r@);
                proof {
                    crate::registry::lemma_lists_is_contains(r@, n@);
                }
                if !text::listed(&r, n.as_str()) {
                    r.push(n);
                    assert(text::views(r@) =~= before.push(n@));
                }
            },
            None => {},
        }
        i += 1;
    }
    assert(views.take(lines.len() as int) =~= views);
    r
}

/// Whether a Vulkan device is a software rasterizer.
pub open spec fn is_software(name: Seq<char>) -> bool {
    let n = text::lower(name);
    text::has(n, "llvmpipe"@) || text::has(n, "lavapipe"@) || text::has(n, "swiftshader"@)
}

/// The names that are software rasterizers, or those that are not.
pub open spec fn of_software(names: Seq<Seq<char>>, software: bool) -> Seq<Seq<char>>
    decreases names.len(),
{
    if names.len() == 0 {
        seq![]
    } else {
        let prev = of_software(names.drop_last(), software);
        if is_software(names.last()) == software {
            prev.push(names.last())
        } else {
            prev
        }
    }
}

/// The Vulkan devices of a summary: hardware first, then software rasterizers.
pub open spec fn vulkan_devices(names: Seq<Seq<char>>) -> Seq<DeviceView> {
    let hard = of_software(names, false);
    let soft = of_software(names, true);
    Seq::new(
        hard.len() + soft.len(),
        |i: int|
            if i < hard.len() {
                DeviceView {
                    index: i,
                    name: hard[i],
                    kind: GpuKind::Vulkan,
                    ggml_backend: "Vulkan"@ + text::decimal(i as nat),
                    vendor_hint: vendor_in(text::lower(hard[i])),
                }
            } else {
                DeviceView {
                    index: i,
                    name: soft[i - hard.len()],
                    kind: GpuKind::Cpu,
                    ggml_backend: "CPU"@,
                    vendor_hint: vendor_in(text::lower(soft[i - hard.len()])),
                }
            },
    )
}

proof fn lemma_software_split(names: Seq<Seq<char>>)
    ensures
        of_software(names, false).len() + of_software(names, true).len() == names.len(),
    decreases names.len(),
{
    if names.len() > 0 {
        lemma_software_split(names.drop_last());
    }
}

fn software_rasterizer(name: &str) -> (r: bool)
    ensures
        r == is_software(name@),
{
    let n: String = text::to_lower(name);
    text::contains(n.as_str(), "llvmpipe") || text::contains(n.as_str(), "lavapipe")
        || text::contains(n.as_str(), "swiftshader")
}

fn keep_software(names: &Vec<String>, software: bool) -> (r: Vec<String>)
    ensures
        text::views(r@) == of_software(text::views(names@), software),
{
    let ghost views = text::views(names@);
    let mut r: Vec<String> = Vec::new();
    let mut i: usize = 0;
    while i < names.len()
        invariant
            views == text::views(names@),
            i <= names.len(),
            text::views(r@) =~= of_software(views.take(i as int), software),
        decreases names.len() - i,
    {
        assert(views.take(i + 1).drop_last() =~= views.take(i as int));
        assert(views.take(i + 1).last() == names@[i as int]@);
        if software_rasterizer(names[i].as_str()) == software {
            let ghost before = text::views(r@);
            r.push(names[i].clone());
            assert(text::views(r@) =~= before.push(names@[i as int]@));
        }
        i += 1;
    }
    assert(views.take(names.len() as int) =~= views);
    r
}

fn vendor_hint_in(lower: &str) -> (r: Option<String>)
    ensures
        opt_view(r) == vendor_in(lower@),
{
    if text::contains(lower, "nvidia") {
        Some(String::from_str("nvidia"))
    } else if text::contains(lower, "amd") || text::contains(lower, "radeon") {
        Some(String::from_str("amd"))
    } else if text::contains(lower, "intel") {
        Some(String::from_str("intel"))
    } else {
        None
    }
}

fn vulkan_device(name: &str, index: u32, software: bool) -> (r: GpuDevice)
    ensures
        r@ == (DeviceView {
            index: index as int,
            name: name@,
            kind: if software {
                GpuKind::Cpu
            } else {
                GpuKind::Vulkan
            },
            ggml_backend: if software {
                "CPU"@
            } else {
                "Vulkan"@ + text::decimal(index as nat)
            },
            vendor_hint: vendor_in(text::lower(name@)),
        }),
{
    let lower: String = text::to_lower(name);
    GpuDevice {
        index,
        name: String::from_str(name),
        kind: if software {
            GpuKind::Cpu
        } else {
            GpuKind::Vulkan
        },
        ggml_backend: if software {
            String::from_str("CPU")
        } else {
            String::from_str("Vulkan").concat(text::decimal_of(index as u64).as_str())
        },
        vendor_hint: vendor_hint_in(lower.as_str()),
    }
}

/// The devices in a Vulkan summary; none of them is no list at all.
pub fn parse_vulkaninfo(output: &str) -> (r: Option<Vec<GpuDevice>>)
    requires
        text::split(output@, '\n').len() <= u32::MAX,
    ensures
        ({
            let found = vulkan_devices(vulkan_names(text::split(output@, '\n')));
            match r {
                Some(v) => v@.len() > 0 && device_views(v@) == found,
                None => found.len() == 0,
            }
        }),
{
    let lines: Vec<String> = text::split_at_char(output, '\n');
    let mut names: Vec<String> = collect_names(&lines, true);
    assert(names@.len() == text::views(names@).len());
    if names.is_empty() {
        names = collect_names(&lines, false);
    }
    let ghost all = text::views(names@);
    assert(all == vulkan_names(text::split(output@, '\n')));
    let hard: Vec<String> = keep_software(&names, false);
    let soft: Vec<String> = keep_software(&names, true);
    proof {
        lemma_software_split(all);
        assert(hard@.len() == text::views(hard@).len());
        assert(soft@.len() == text::views(soft@).len());
    }
    let ghost found = vulkan_devices(all);
    let mut devices: Vec<GpuDevice> = Vec::new();
    let mut i: usize = 0;
    while i < hard.len()
        invariant
            found == vulkan_devices(all),
            text::views(hard@) == of_software(all, false),
            text::views(soft@) == of_software(all, true),
            hard.len() + soft.len() <= u32::MAX,
            i <= hard.len(),
            device_views(devices@) =~= found.take(i as int),
        decreases hard.len() - i,
    {
        let d: GpuDevice = vulkan_device(hard[i].as_str(), i as u32, false);
        assert(text::views(hard@)[i as int] == hard@[i as int]@);
        assert(d@ == found[i as int]);
        let ghost before = device_views(devices@);
        devices.push(d);
        assert(device_views(devices@) =~= before.push(d@));
        i += 1;
    }
    let mut k: usize = 0;
    while k < soft.len()
        invariant
            found == vulkan_devices(all),
            text::views(hard@) == of_software(all, false),
            text::views(soft@) == of_software(all, true),
            hard.len() + soft.len() <= u32::MAX,
            k <= soft.len(),
            device_views(devices@) =~= found.take(hard.len() + k),
        decreases soft.len() - k,
    {
        let d: GpuDevice = vulkan_device(soft[k].as_str(), (hard.len() + k) as u32, true);
        assert(text::views(soft@)[k as int] == soft@[k as int]@);
        assert(d@ == found[hard.len() + k]);
        let ghost before = device_views(devices@);
        devices.push(d);
        assert(device_views(devices@) =~= before.push(d@));
        k += 1;
    }
    assert(device_views(devices@) =~= found);
    assert(devices@.len() == device_views(devices@).len());
    if devices.is_empty() {
        None
    } else {
        Some(devices)
    }
}

/// The nonblank lines, trimmed.
pub open spec fn nonblank(lines: Seq<Seq<char>>) -> Seq<Seq<char>>
    decreases lines.len(),
{
    if lines.len() == 0 {
        seq![]
    } else {
        let prev = nonblank(lines.drop_last());
        let l = text::trim(lines.last());
        if l.len() > 0 {
            prev.push(l)
        } else {
            prev
        }
    }
}

/// The GPU names in the output of `nvidia-smi`; none is no list at all.
pub fn parse_nvidia_smi(output: &str) -> (r: Option<Vec<String>>)
    ensures
        match r {
            Some(v) => v@.len() > 0 && text::views(v@) == nonblank(text::split(output@, '\n')),
            None => nonblank(text::split(output@, '\n')).len() == 0,
        },
{
    let lines: Vec<String> = text::split_at_char(output, '\n');
    let ghost views = text::views(lines@);
    let mut names: Vec<String> = Vec::new();
    let mut i: usize = 0;
    while i < lines.len()
        invariant
            views == text::views(lines@),
            i <= lines.len(),
            text::views(names@) =~= nonblank(views.take(i as int)),
        decreases lines.len() - i,
    {
        assert(views.take(i + 1).drop_last() =~= views.take(i as int));
        assert(views.take(i + 1).last() == lines@[i as int]@);
        let l: String = text::trimmed(lines[i].as_str());
        if !l.as_str().is_empty() {
            let ghost before = text::views(names@);
            names.push(l);
            assert(text::views(names@) =~= before.push(l@));
        }
        i += 1;
    }
    assert(views.take(lines.len() as int) =~= views);
    assert(names@.len() == text::views(names@).len());
    if names.is_empty() {
        None
    } else {
        Some(names)
    }
}

pub open spec fn cuda_view(i: int, name: Seq<char>) -> DeviceView {
    DeviceView {
        index: i,
        name,
        kind: GpuKind::Cuda,
        ggml_backend: "CUDA"@ + text::decimal(i as nat),
        vendor_hint: Some("nvidia"@),
    }
}

/// The CUDA devices: those that the driver tool names, else one for a bare
/// device node.
pub open spec fn nvidia_devices(names: Option<Seq<Seq<char>>>, device_node: bool) -> Seq<
    DeviceView,
> {
    match names {
        Some(n) => Seq::new(n.len(), |i: int| cuda_view(i, n[i])),
        None => if device_node {
            seq![cuda_view(0, "NVIDIA GPU (device node)"@)]
        } else {
            seq![]
        },
    }
}

pub open spec fn opt_views(v: Option<Vec<String>>) -> Option<Seq<Seq<char>>> {
    match v {
        Some(n) => Some(text::views(n@)),
        None => None,
    }
}

fn cuda_device(index: u32, name: &str) -> (r: GpuDevice)
    ensures
        r@ == cuda_view(index as int, name@),
{
    GpuDevice {
        index,
        name: String::from_str(name),
        kind: GpuKind::Cuda,
        ggml_backend: String::from_str("CUDA").concat(text::decimal_of(index as u64).as_str()),
        vendor_hint: Some(String::from_str("nvidia")),
    }
}

pub fn detect_nvidia(names: &Option<Vec<String>>, device_node: bool) -> (r: Vec<GpuDevice>)
    requires
        names matches Some(n) ==> n@.len() <= u32::MAX,
    ensures
        device_views(r@) == nvidia_devices(opt_views(*names), device_node),
{
    let mut devices: Vec<GpuDevice> = Vec::new();
    match names {
        Some(list) => {
            let ghost found = nvidia_devices(Some(text::views(list@)), device_node);
            let mut i: usize = 0;
            while i < list.len()
                invariant
                    found == nvidia_devices(Some(text::views(list@)), device_node),
                    list@.len() <= u32::MAX,
                    i <= list.len(),
                    device_views(devices@) =~= found.take(i as int),
                decreases list.len() - i,
            {
                let d: GpuDevice = cuda_device(i as u32, list[i].as_str());
                assert(text::views(list@)[i as int] == list@[i as int]@);
                let ghost before = device_views(devices@);
                devices.push(d);
                assert(device_views(devices@) =~= before.push(d@));
                i += 1;
            }
            assert(device_views(devices@) =~= found);
        },
        None => {
            if device_node {
                proof {
                    reveal_strlit("CUDA");
                }
                devices.push(cuda_device(0, "NVIDIA GPU (device node)"));
            }
            assert(device_views(devices@) =~= nvidia_devices(None, device_node));
        },
    }
    devices
}

/// The vendor that driver manifests point to.
pub open spec fn icd_vendor(icds: Seq<Seq<char>>) -> Option<Seq<char>> {
    let j = text::lower(text::joined(icds, " "@));
    if text::has(j, "nvidia"@) {
        Some("nvidia"@)
    } else if text::has(j, "radeon"@) || text::has(j, "amd"@) {
        Some("amd"@)
    } else if text::has(j, "intel"@) {
        Some("intel"@)
    } else if text::has(j, "lvp"@) || text::has(j, "lavapipe"@) {
        Some("lavapipe"@)
    } else {
        None
    }
}

pub fn infer_vendor_from_icds(icds: &Vec<String>) -> (r: Option<String>)
    ensures
        opt_view(r) == icd_vendor(text::views(icds@)),
{
    let joined: String = text::to_lower(text::join(icds, " ").as_str());
    let j: &str = joined.as_str();
    if text::contains(j, "nvidia") {
        Some(String::from_str("nvidia"))
    } else if text::contains(j, "radeon") || text::contains(j, "amd") {
        Some(String::from_str("amd"))
    } else if text::contains(j, "intel") {
        Some(String::from_str("intel"))
    } else if text::contains(j, "lvp") || text::contains(j, "lavapipe") {
        Some(String::from_str("lavapipe"))
    } else {
        None
    }
}

// ---------------------------------------------------------------------------
// Detection
// ---------------------------------------------------------------------------

/// What was found of a oneAPI/SYCL stack.
#[derive(Debug)]
pub struct SyclEvidence {
    /// `S2S_SYCL_FORCE`
    pub forced: Option<String>,
    /// `sycl-ls` ran and succeeded or printed something.
    pub lister: bool,
    /// A oneAPI compiler answers.
    pub compiler: bool,
    /// The directory that `S2S_ONEAPI_ROOT` names exists.
    pub custom_root: bool,
    /// A well-known installation directory exists.
    pub known_root: bool,
    /// An environment variable of the toolkit is set.
    pub environment: bool,
}

/// Whether a usable oneAPI/SYCL stack is present; a driver alone is not one.
pub fn sycl_runtime_available(e: &SyclEvidence) -> (r: bool)
    ensures
        r == (crate::registry::truthy(e.forced) || e.lister || e.compiler || e.custom_root
            || e.known_root || e.environment),
{
    crate::registry::env_truthy(&e.forced) || e.lister || e.compiler || e.custom_root
        || e.known_root || e.environment
}

/// Whether the process runs in a container, from the marker file, the marker
/// variable and the control group listing.
pub fn running_in_container(marker_file: bool, marker_variable: bool, cgroup: &Option<String>) -> (r:
    bool)
    ensures
        r == (marker_file || marker_variable || (cgroup matches Some(c) && (text::has(
            c@,
            "docker"@,
        ) || text::has(c@, "kubepods"@) || text::has(c@, "containerd"@)))),
{
    if marker_file || marker_variable {
        return true;
    }
    match cgroup {
        Some(c) => text::contains(c.as_str(), "docker") || text::contains(c.as_str(), "kubepods")
            || text::contains(c.as_str(), "containerd"),
        None => false,
    }
}

/// Whether a name below `/dev/dri` is a device node.
pub fn is_dri_node(name: &str) -> (r: bool)
    ensures
        r == (text::starts_with(name@, "renderD"@) || text::starts_with(name@, "card"@)),
{
    text::begins_with(name, "renderD") || text::begins_with(name, "card")
}

/// Whether a file in a driver directory is a Vulkan driver manifest.
pub fn is_icd_file(name: &str) -> (r: bool)
    ensures
        r == (text::ends_with(name@, ".json"@) || text::has(text::lower(name@), "intel"@)),
{
    text::finishes_with(name, ".json") || text::contains(text::to_lower(name).as_str(), "intel")
}

/// What the probes of a machine yield.
#[derive(Debug)]
pub struct GpuProbe {
    pub in_container: bool,
    pub dri_nodes: Vec<String>,
    /// `/dev/dri` exists.
    pub dri_present: bool,
    pub nvidia_names: Option<Vec<String>>,
    pub nvidia_device_node: bool,
    pub sycl_runtime: bool,
    /// Output of `sycl-ls`.
    pub sycl_ls: Option<String>,
    /// Output of `vulkaninfo --summary`.
    pub vulkaninfo: Option<String>,
    /// Vulkan driver manifests.
    pub icds: Vec<String>,
    /// The system is Windows.
    pub windows: bool,
    /// A Vulkan toolkit is installed.
    pub vulkan_sdk: bool,
    pub level_zero: bool,
    pub settings: GpuSettings,
}

pub open spec fn probe_fits(p: GpuProbe) -> bool {
    &&& p.nvidia_names matches Some(n) ==> n@.len() < 0x4000_0000
    &&& p.sycl_ls matches Some(t) ==> text::split(t@, '\n').len() < 0x4000_0000
    &&& p.vulkaninfo matches Some(t) ==> text::split(t@, '\n').len() < 0x4000_0000
}

/// The SYCL devices of a machine with the notes about them.
pub open spec fn sycl_found(p: GpuProbe) -> (Seq<DeviceView>, Seq<Seq<char>>) {
    let listed = match p.sycl_ls {
        Some(t) => sycl_devices(text::split(t@, '\n')),
        None => seq![],
    };
    if !p.sycl_runtime {
        (seq![], seq![])
    } else if listed.len() > 0 {
        (listed, seq![])
    } else {
        (
            seq![sycl_view(0, "Intel GPU (Level Zero / oneAPI)"@)],
            seq![
                "SYCL runtime present but sycl-ls unavailable — advertising SYCL0 for Intel GPU"@,
            ],
        )
    }
}

fn detect_sycl(p: &GpuProbe, notes: &mut Vec<String>) -> (r: Vec<GpuDevice>)
    requires
        probe_fits(*p),
    ensures
        device_views(r@) == sycl_found(*p).0,
        text::views(final(notes)@) == text::views(old(notes)@) + sycl_found(*p).1,
        r@.len() <= 0x4000_0000,
{
    let ghost before = text::views(notes@);
    assert(before + Seq::<Seq<char>>::empty() =~= before);
    let mut devices: Vec<GpuDevice> = Vec::new();
    assert(device_views(devices@) =~= seq![]);
    if !p.sycl_runtime {
        return devices;
    }
    match &p.sycl_ls {
        Some(t) => {
            match parse_sycl_ls(t.as_str()) {
                Some(list) => {
                    proof {
                        lemma_sycl_count(text::split(t@, '\n'));
                        assert(list@.len() == device_views(list@).len());
                    }
                    return list;
                },
                None => {},
            }
        },
        None => {},
    }
    note(
        notes,
        "SYCL runtime present but sycl-ls unavailable — advertising SYCL0 for Intel GPU",
    );
    devices.push(sycl_device(0, "Intel GPU (Level Zero / oneAPI)"));
    assert(device_views(devices@) =~= sycl_found(*p).0);
    devices
}

/// The name of a Vulkan device known only from its driver manifests.
pub open spec fn icd_device_name(vendor: Option<Seq<char>>, has_render: bool) -> Seq<char> {
    match vendor {
        Some(v) => if v == "nvidia"@ {
            "Vulkan GPU (NVIDIA ICD)"@
        } else if v == "amd"@ {
            "Vulkan GPU (AMD RADV/AMDVLK)"@
        } else if v == "intel"@ {
            "Vulkan GPU (Intel ANV)"@
        } else {
            "Vulkan GPU ("@ + v + ")"@
        },
        None => if has_render {
            "Vulkan GPU (/dev/dri)"@
        } else {
            "Vulkan GPU (ICD present)"@
        },
    }
}

pub open spec fn has_render_node(nodes: Seq<Seq<char>>) -> bool {
    exists|i: int| 0 <= i < nodes.len() && text::has(#[trigger] nodes[i], "renderD"@)
}

fn some_render_node(nodes: &Vec<String>) -> (r: bool)
    ensures
        r == has_render_node(text::views(nodes@)),
{
    let ghost views = text::views(nodes@);
    let mut i: usize = 0;
    while i < nodes.len()
        invariant
            views == text::views(nodes@),
            i <= nodes.len(),
            forall|j: int| 0 <= j < i ==> !text::has(#[trigger] views[j], "renderD"@),
        decreases nodes.len() - i,
    {
        assert(views[i as int] == nodes@[i as int]@);
        if text::contains(nodes[i].as_str(), "renderD") {
            return true;
        }
        i += 1;
    }
    false
}

/// The Vulkan devices of a machine with the notes about them.
pub open spec fn vulkan_found(p: GpuProbe) -> (Seq<DeviceView>, Seq<Seq<char>>) {
    let listed = match p.vulkaninfo {
        Some(t) => vulkan_devices(vulkan_names(text::split(t@, '\n'))),
        None => seq![],
    };
    let has_render = has_render_node(text::views(p.dri_nodes@));
    let vendor = icd_vendor(text::views(p.icds@));
    if listed.len() > 0 {
        (listed, seq![])
    } else if p.windows && (p.vulkan_sdk || p.icds@.len() > 0) {
        (
            seq![
                DeviceView {
                    index: 0,
                    name: "Vulkan GPU (Windows ICD/SDK)"@,
                    kind: GpuKind::Vulkan,
                    ggml_backend: "Vulkan0"@,
                    vendor_hint: None,
                },
            ],
            seq![],
        )
    } else if p.icds@.len() > 0 || has_render {
        (
            seq![
                DeviceView {
                    index: 0,
                    name: icd_device_name(vendor, has_render),
                    kind: GpuKind::Vulkan,
                    ggml_backend: "Vulkan0"@,
                    vendor_hint: vendor,
                },
            ],
            seq![],
        )
    } else if p.dri_present {
        (
            seq![],
            seq![
                "/dev/dri exists but no Vulkan ICDs found — install mesa-vulkan-drivers or NVIDIA Vulkan ICD in the image"@,
            ],
        )
    } else {
        (seq![], seq![])
    }
}

proof fn lemma_names_count(lines: Seq<Seq<char>>, read: spec_fn(Seq<char>) -> Option<Seq<char>>)
    ensures
        names_in(lines, read).len() <= lines.len(),
    decreases lines.len(),
{
    if lines.len() > 0 {
        lemma_names_count(lines.drop_last(), read);
    }
}

fn detect_vulkan(p: &GpuProbe, notes: &mut Vec<String>) -> (r: Vec<GpuDevice>)
    requires
        probe_fits(*p),
    ensures
        device_views(r@) == vulkan_found(*p).0,
        text::views(final(notes)@) == text::views(old(notes)@) + vulkan_found(*p).1,
        r@.len() <= 0x4000_0000,
{
    let ghost before = text::views(notes@);
    assert(before + Seq::<Seq<char>>::empty() =~= before);
    let mut devices: Vec<GpuDevice> = Vec::new();
    assert(device_views(devices@) =~= seq![]);
    match &p.vulkaninfo {
        Some(t) => {
            match parse_vulkaninfo(t.as_str()) {
                Some(list) => {
                    proof {
                        let lines = text::split(t@, '\n');
                        lemma_names_count(lines, |l: Seq<char>| gpu_line_name(l));
                        lemma_names_count(lines, |l: Seq<char>| name_line_name(l));
                        lemma_software_split(vulkan_names(lines));
                        assert(list@.len() == device_views(list@).len());
                    }
                    return list;
                },
                None => {},
            }
        },
        None => {},
    }
    if p.windows && (p.vulkan_sdk || p.icds.len() > 0) {
        devices.push(
            GpuDevice {
                index: 0,
                name: String::from_str("Vulkan GPU (Windows ICD/SDK)"),
                kind: GpuKind::Vulkan,
                ggml_backend: String::from_str("Vulkan0"),
                vendor_hint: None,
            },
        );
        assert(device_views(devices@) =~= vulkan_found(*p).0);
        return devices;
    }
    let has_render: bool = some_render_node(&p.dri_nodes);
    if p.icds.len() > 0 || has_render {
        let vendor: Option<String> = infer_vendor_from_icds(&p.icds);
        let name: String = match &vendor {
            Some(v) => {
                if text::same(v.as_str(), "nvidia") {
                    String::from_str("Vulkan GPU (NVIDIA ICD)")
                } else if text::same(v.as_str(), "amd") {
                    String::from_str("Vulkan GPU (AMD RADV/AMDVLK)")
                } else if text::same(v.as_str(), "intel") {
                    String::from_str("Vulkan GPU (Intel ANV)")
                } else {
                    crate::registry::wrap("Vulkan GPU (", v.as_str(), ")")
                }
            },
            None => {
                if has_render {
                    String::from_str("Vulkan GPU (/dev/dri)")
                } else {
                    String::from_str("Vulkan GPU (ICD present)")
                }
            },
        };
        devices.push(
            GpuDevice {
                index: 0,
                name,
                kind: GpuKind::Vulkan,
                ggml_backend: String::from_str("Vulkan0"),
                vendor_hint: vendor,
            },
        );
        assert(device_views(devices@) =~= vulkan_found(*p).0);
    } else if p.dri_present {
        note(
            notes,
            "/dev/dri exists but no Vulkan ICDs found — install mesa-vulkan-drivers or NVIDIA Vulkan ICD in the image",
        );
    }
    devices
}

/// Whether a list holds a device with the backend id, and with the kind where
/// that counts.
pub open spec fn known_device(all: Seq<DeviceView>, d: DeviceView, by_kind: bool) -> bool {
    exists|i: int|
        0 <= i < all.len() && (#[trigger] all[i]).ggml_backend == d.ggml_backend && (by_kind
            ==> all[i].kind == d.kind)
}

/// A device list with the new ones of another at its end.
pub open spec fn merged(all: Seq<DeviceView>, more: Seq<DeviceView>, by_kind: bool) -> Seq<
    DeviceView,
>
    decreases more.len(),
{
    if more.len() == 0 {
        all
    } else {
        let prev = merged(all, more.drop_last(), by_kind);
        if known_device(prev, more.last(), by_kind) {
            prev
        } else {
            prev.push(more.last())
        }
    }
}

fn device_known(all: &Vec<GpuDevice>, d: &GpuDevice, by_kind: bool) -> (r: bool)
    ensures
        r == known_device(device_views(all@), d@, by_kind),
{
    let ghost views = device_views(all@);
    let mut i: usize = 0;
    while i < all.len()
        invariant
            views == device_views(all@),
            i <= all.len(),
            forall|j: int|
                0 <= j < i ==> !((#[trigger] views[j]).ggml_backend == d@.ggml_backend && (by_kind
                    ==> views[j].kind == d@.kind)),
        decreases all.len() - i,
    {
        assert(views[i as int] == all@[i as int]@);
        if text::same(all[i].ggml_backend.as_str(), d.ggml_backend.as_str()) && (!by_kind
            || all[i].kind == d.kind) {
            return true;
        }
        i += 1;
    }
    false
}

fn merge(all: &mut Vec<GpuDevice>, more: &Vec<GpuDevice>, by_kind: bool)
    ensures
        device_views(final(all)@) == merged(device_views(old(all)@), device_views(more@), by_kind),
        final(all)@.len() <= old(all)@.len() + more@.len(),
{
    let ghost start = device_views(all@);
    let ghost extra = device_views(more@);
    let ghost n = all@.len();
    let mut i: usize = 0;
    while i < more.len()
        invariant
            extra == device_views(more@),
            i <= more.len(),
            all@.len() <= n + i,
            device_views(all@) =~= merged(start, extra.take(i as int), by_kind),
        decreases more.len() - i,
    {
        assert(extra.take(i + 1).drop_last() =~= extra.take(i as int));
        assert(extra.take(i + 1).last() == more@[i as int]@);
        if !device_known(all, &more[i], by_kind) {
            let ghost before = device_views(all@);
            all.push(more[i].clone());
            assert(device_views(all@) =~= before.push(more@[i as int]@));
        }
        i += 1;
    }
    assert(extra.take(more.len() as int) =~= extra);
}

/// The devices numbered by their place.
pub open spec fn numbered(all: Seq<DeviceView>) -> Seq<DeviceView> {
    Seq::new(all.len(), |i: int| DeviceView { index: i, ..all[i] })
}

fn renumber(all: Vec<GpuDevice>) -> (r: Vec<GpuDevice>)
    requires
        all@.len() <= u32::MAX,
    ensures
        device_views(r@) == numbered(device_views(all@)),
{
    let ghost views = device_views(all@);
    let mut r: Vec<GpuDevice> = Vec::new();
    let mut i: usize = 0;
    while i < all.len()
        invariant
            views == device_views(all@),
            all@.len() <= u32::MAX,
            i <= all.len(),
            device_views(r@) =~= numbered(views).take(i as int),
        decreases all.len() - i,
    {
        let mut d: GpuDevice = all[i].clone();
        d.index = i as u32;
        assert(views[i as int] == all@[i as int]@);
        assert(d@ == numbered(views)[i as int]);
        let ghost before = device_views(r@);
        r.push(d);
        assert(device_views(r@) =~= before.push(d@));
        i += 1;
    }
    assert(device_views(r@) =~= numbered(views));
    r
}

pub open spec fn is_intel(d: DeviceView) -> bool {
    ||| d.vendor_hint matches Some(v) && text::alike(v, "intel"@)
    ||| text::has(text::lower(d.name), "intel"@)
    ||| text::has(text::lower(d.name), "arc"@)
}

pub open spec fn any_intel(all: Seq<DeviceView>) -> bool {
    exists|i: int| 0 <= i < all.len() && is_intel(#[trigger] all[i])
}

fn some_intel(all: &Vec<GpuDevice>) -> (r: bool)
    ensures
        r == any_intel(device_views(all@)),
{
    let ghost views = device_views(all@);
    let mut i: usize = 0;
    while i < all.len()
        invariant
            views == device_views(all@),
            i <= all.len(),
            forall|j: int| 0 <= j < i ==> !is_intel(#[trigger] views[j]),
        decreases all.len() - i,
    {
        assert(views[i as int] == all@[i as int]@);
        let name: String = text::to_lower(all[i].name.as_str());
        let hinted: bool = match &all[i].vendor_hint {
            Some(v) => text::same_ignoring_case(v.as_str(), "intel"),
            None => false,
        };
        if hinted || text::contains(name.as_str(), "intel") || text::contains(
            name.as_str(),
            "arc",
        ) {
            return true;
        }
        i += 1;
    }
    false
}

/// The devices of a machine.
pub open spec fn devices_of(p: GpuProbe) -> Seq<DeviceView> {
    let cuda = nvidia_devices(opt_views(p.nvidia_names), p.nvidia_device_node);
    let with_sycl = merged(cuda, sycl_found(p).0, false);
    numbered(merged(with_sycl, vulkan_found(p).0, true))
}

/// The notes on the devices of a machine, before one is chosen.
pub open spec fn device_notes(p: GpuProbe) -> Seq<Seq<char>> {
    let all = devices_of(p);
    let none = if all.len() == 0 {
        seq![
            "No GPU found — using CPU. In Docker, pass devices (see docker-compose.yml) and install NVIDIA Container Toolkit or mount /dev/dri."@,
        ]
    } else {
        seq![]
    };
    let intel = if !any_intel(all) {
        seq![]
    } else if p.sycl_runtime {
        seq![
            "Intel GPU + oneAPI/SYCL stack detected — auto prefers SYCL0 over Vulkan0. Ensure qwentts/llama/whisper binaries are built with -DGGML_SYCL=ON."@,
        ]
    } else if p.level_zero {
        seq![
            "Intel GPU + Level Zero driver present, but full oneAPI/SYCL toolkit not detected (no sycl-ls / oneAPI root). Auto keeps Vulkan0 for now; install oneAPI Base Toolkit, build qwentts with -DGGML_SYCL=ON, then auto will prefer SYCL0. Until then use Supertonic for TTS."@,
        ]
    } else {
        seq![
            "Intel GPU detected but no oneAPI/SYCL stack. Vulkan on Arc may produce wrong numerics for Qwen3-TTS — prefer Supertonic."@,
        ]
    };
    sycl_found(p).1 + vulkan_found(p).1 + none + intel
}

/// Detects the devices of a machine from its probes and chooses one.
pub fn detect(pref: GpuPreference, p: GpuProbe) -> (r: GpuReport)
    requires
        probe_fits(p),
    ensures
        device_views(r.all@) == devices_of(p),
        r.selected@ == choice(
            pref,
            p.settings,
            devices_of(p),
            p.sycl_runtime,
            any_intel(devices_of(p)),
        ).device,
        text::views(r.notes@) == device_notes(p) + choice(
            pref,
            p.settings,
            devices_of(p),
            p.sycl_runtime,
            any_intel(devices_of(p)),
        ).notes,
        r.in_container == p.in_container,
        r.dri_nodes == p.dri_nodes,
        r.sycl_runtime_available == p.sycl_runtime,
{
    let mut notes: Vec<String> = Vec::new();
    assert(text::views(notes@) =~= seq![]);
    let mut found: Vec<GpuDevice> = detect_nvidia(&p.nvidia_names, p.nvidia_device_node);
    assert(found@.len() == device_views(found@).len());
    let sycl: Vec<GpuDevice> = detect_sycl(&p, &mut notes);
    assert(text::views(notes@) =~= sycl_found(p).1);
    merge(&mut found, &sycl, false);
    let vulkan: Vec<GpuDevice> = detect_vulkan(&p, &mut notes);
    merge(&mut found, &vulkan, true);
    let all: Vec<GpuDevice> = renumber(found);
    assert(all@.len() == device_views(all@).len());
    assert(text::views(notes@) =~= sycl_found(p).1 + vulkan_found(p).1);
    let ghost n0 = text::views(notes@);
    if all.is_empty() {
        note(
            &mut notes,
            "No GPU found — using CPU. In Docker, pass devices (see docker-compose.yml) and install NVIDIA Container Toolkit or mount /dev/dri.",
        );
    }
    let intel: bool = some_intel(&all);
    if intel && !p.sycl_runtime {
        if p.level_zero {
            note(
                &mut notes,
                "Intel GPU + Level Zero driver present, but full oneAPI/SYCL toolkit not detected (no sycl-ls / oneAPI root). Auto keeps Vulkan0 for now; install oneAPI Base Toolkit, build qwentts with -DGGML_SYCL=ON, then auto will prefer SYCL0. Until then use Supertonic for TTS.",
            );
        } else {
            note(
                &mut notes,
                "Intel GPU detected but no oneAPI/SYCL stack. Vulkan on Arc may produce wrong numerics for Qwen3-TTS — prefer Supertonic.",
            );
        }
    }
    if intel && p.sycl_runtime {
        note(
            &mut notes,
            "Intel GPU + oneAPI/SYCL stack detected — auto prefers SYCL0 over Vulkan0. Ensure qwentts/llama/whisper binaries are built with -DGGML_SYCL=ON.",
        );
    }
    assert(text::views(notes@) =~= device_notes(p));
    let selected: GpuDevice = select_device(
        pref,
        &p.settings,
        &all,
        p.sycl_runtime,
        intel,
        &mut notes,
    );
    GpuReport {
        selected,
        all,
        in_container: p.in_container,
        dri_nodes: p.dri_nodes,
        notes,
        sycl_runtime_available: p.sycl_runtime,
    }
}

/// A text as a list entry with its value.
pub open spec fn pair_views(v: Seq<(String, String)>) -> Seq<(Seq<char>, Seq<char>)> {
    v.map_values(|p: (String, String)| (p.0@, p.1@))
}

pub open spec fn env_of(r: GpuReport, backend_pinned: bool) -> Seq<(Seq<char>, Seq<char>)> {
    let pin = if backend_pinned {
        seq![]
    } else {
        seq![("GGML_BACKEND"@, r.selected.ggml_backend@)]
    };
    let base = seq![
        ("S2S_GPU_KIND"@, kind_name(r.selected.kind)),
        ("S2S_GPU_NAME"@, r.selected.name@),
        ("S2S_GGML_BACKEND"@, r.selected.ggml_backend@),
        (
            "S2S_SYCL_RUNTIME"@,
            if r.sycl_runtime_available {
                "1"@
            } else {
                "0"@
            },
        ),
    ];
    let inside = if r.in_container {
        seq![("S2S_IN_CONTAINER"@, "1"@)]
    } else {
        seq![]
    };
    pin + base + inside
}

fn setting(name: &str, value: &str) -> (r: (String, String))
    ensures
        r.0@ == name@,
        r.1@ == value@,
{
    (String::from_str(name), String::from_str(value))
}

/// The line that tells of a device.
pub open spec fn device_line(d: DeviceView) -> Seq<char> {
    let head = "  ["@ + text::decimal(d.index as nat) + "] "@ + d.name + " kind="@;
    head + kind_name(d.kind) + " ggml="@ + d.ggml_backend + ""@
}

pub open spec fn device_lines(all: Seq<DeviceView>) -> Seq<Seq<char>> {
    Seq::new(all.len(), |i: int| device_line(all[i]))
}

pub open spec fn note_lines(notes: Seq<Seq<char>>) -> Seq<Seq<char>> {
    Seq::new(notes.len(), |i: int| "  note: "@ + notes[i])
}

/// What is logged of a report, without its notes.
pub open spec fn report_lines(r: GpuReport) -> Seq<Seq<char>> {
    let first = "GPU auto-detect: selected "@ + r.selected.name@ + " ("@ + kind_name(
        r.selected.kind,
    ) + ") → GGML_BACKEND="@ + r.selected.ggml_backend@;
    let inside = if r.in_container {
        seq!["Running inside a container (/.dockerenv or cgroup)"@]
    } else {
        Seq::empty()
    };
    let sycl = if r.sycl_runtime_available {
        "  SYCL runtime available: true"@
    } else {
        "  SYCL runtime available: false"@
    };
    let nodes = if r.dri_nodes@.len() > 0 {
        seq!["  DRI nodes: "@ + text::joined(text::views(r.dri_nodes@), ", "@)]
    } else {
        Seq::empty()
    };
    seq![first] + inside + seq![sycl] + device_lines(device_views(r.all@)) + nodes
}

fn push_line(v: &mut Vec<String>, s: String)
    ensures
        text::views(final(v)@) == text::views(old(v)@) + seq![s@],
{
    let ghost before = text::views(v@);
    let ghost x = s@;
    v.push(s);
    assert(text::views(v@) =~= before + seq![x]);
}

fn describe_device(d: &GpuDevice) -> (r: String)
    ensures
        r@ == device_line(d@),
{
    let n: String = text::decimal_of(d.index as u64);
    let head: String = crate::registry::wrap2(
        "  [",
        n.as_str(),
        "] ",
        d.name.as_str(),
        " kind=",
    );
    crate::registry::wrap2(
        head.as_str(),
        d.kind.as_str(),
        " ggml=",
        d.ggml_backend.as_str(),
        "",
    )
}

/// The entries of a list of driver manifests, which are set apart by semicolons or
/// colons.
pub open spec fn manifest_list(list: Seq<char>) -> Seq<Seq<char>>
    decreases list.len(),
{
    if list.len() == 0 {
        Seq::empty()
    } else {
        let i = manifest_end(list, 0);
        let head = if i > 0 {
            seq![list.take(i)]
        } else {
            Seq::empty()
        };
        if 0 <= i < list.len() {
            head + manifest_list(list.skip(i + 1))
        } else {
            head
        }
    }
}

/// The first separator from an index on, or the length.
pub open spec fn manifest_end(list: Seq<char>, from: int) -> int
    decreases list.len() - from,
{
    if from >= list.len() || list[from] == ';' || list[from] == ':' {
        from
    } else {
        manifest_end(list, from + 1)
    }
}

fn find_manifest_end(v: &Vec<char>, from: usize) -> (r: usize)
    requires
        from <= v@.len(),
    ensures
        from <= r <= v@.len(),
        r - from == manifest_end(v@.skip(from as int), 0),
{
    let ghost s = v@.skip(from as int);
    let mut i: usize = from;
    while i < v.len()
        invariant
            from <= i <= v@.len(),
            s == v@.skip(from as int),
            manifest_end(s, 0) == manifest_end(s, i - from),
        decreases v.len() - i,
    {
        assert(s[i - from] == v@[i as int]);
        if v[i] == ';' || v[i] == ':' {
            return i;
        }
        i += 1;
    }
    i
}

/// Splits a list of driver manifests.
pub fn split_manifests(list: &str) -> (r: Vec<String>)
    ensures
        text::views(r@) == manifest_list(list@),
{
    let v: Vec<char> = text::chars_of(list);
    let mut out: Vec<String> = Vec::new();
    let mut from: usize = 0;
    assert(v@.skip(0) =~= v@);
    assert(text::views(out@) + manifest_list(v@) =~= manifest_list(v@));
    loop
        invariant
            from <= v@.len(),
            v@ == list@,
            text::views(out@) + manifest_list(v@.skip(from as int)) == manifest_list(v@),
        decreases v.len() - from,
    {
        let ghost s = v@.skip(from as int);
        let ghost before = text::views(out@);
        if from >= v.len() {
            assert(before + Seq::<Seq<char>>::empty() =~= before);
            return out;
        }
        let i: usize = find_manifest_end(&v, from);
        assert(v@.subrange(from as int, i as int) =~= s.take(i - from));
        if i > from {
            push_line(&mut out, text::piece(v.as_slice(), from, i));
        } else {
            assert(before + Seq::<Seq<char>>::empty() =~= before);
        }
        if i >= v.len() {
            return out;
        }
        let ghost head = if i > from {
            seq![s.take(i - from)]
        } else {
            Seq::empty()
        };
        assert(text::views(out@) =~= before + head);
        assert(s.skip(i - from + 1) =~= v@.skip(i + 1));
        assert(before + (head + manifest_list(v@.skip(i + 1))) =~= (before + head)
            + manifest_list(v@.skip(i + 1)));
        from = i + 1;
    }
}

impl GpuReport {
    /// The lines that tell of the report, and those that warn.
    pub fn log(&self) -> (r: (Vec<String>, Vec<String>))
        ensures
            text::views(r.0@) == report_lines(*self),
            text::views(r.1@) == note_lines(text::views(self.notes@)),
    {
        let mut v: Vec<String> = Vec::new();
        let head: String = crate::registry::wrap2(
            "GPU auto-detect: selected ",
            self.selected.name.as_str(),
            " (",
            self.selected.kind.as_str(),
            ") → GGML_BACKEND=",
        );
        let first: String = text::joined_pair(head.as_str(), self.selected.ggml_backend.as_str());
        let ghost line = first@;
        v.push(first);
        assert(text::views(v@) =~= seq![line]);
        if self.in_container {
            push_line(
                &mut v,
                String::from_str("Running inside a container (/.dockerenv or cgroup)"),
            );
        }
        push_line(
            &mut v,
            String::from_str(
                if self.sycl_runtime_available {
                    "  SYCL runtime available: true"
                } else {
                    "  SYCL runtime available: false"
                },
            ),
        );
        let ghost start = text::views(v@);
        let ghost all = device_lines(device_views(self.all@));
        let mut i: usize = 0;
        assert(start + all.take(0) =~= start);
        while i < self.all.len()
            invariant
                i <= self.all.len(),
                all == device_lines(device_views(self.all@)),
                text::views(v@) == start + all.take(i as int),
            decreases self.all.len() - i,
        {
            push_line(&mut v, describe_device(&self.all[i]));
            assert(device_views(self.all@)[i as int] == self.all@[i as int]@);
            assert(start + all.take(i + 1) =~= (start + all.take(i as int)) + seq![all[i as int]]);
            i += 1;
        }
        assert(all.take(i as int) =~= all);
        if self.dri_nodes.len() > 0 {
            let nodes: String = text::join(&self.dri_nodes, ", ");
            push_line(&mut v, text::joined_pair("  DRI nodes: ", nodes.as_str()));
        }
        assert(text::views(v@) =~= report_lines(*self));
        let mut w: Vec<String> = Vec::new();
        let ghost ns = note_lines(text::views(self.notes@));
        let mut j: usize = 0;
        assert(text::views(w@) =~= ns.take(0));
        while j < self.notes.len()
            invariant
                j <= self.notes.len(),
                ns == note_lines(text::views(self.notes@)),
                text::views(w@) == ns.take(j as int),
            decreases self.notes.len() - j,
        {
            push_line(&mut w, text::joined_pair("  note: ", self.notes[j].as_str()));
            assert(ns.take(j + 1) =~= ns.take(j as int) + seq![ns[j as int]]);
            j += 1;
        }
        assert(ns.take(j as int) =~= ns);
        (v, w)
    }

    /// The environment variables that pass the choice on to child processes; an
    /// already pinned backend stays.
    pub fn apply_env(&self, backend_pinned: bool) -> (r: Vec<(String, String)>)
        ensures
            pair_views(r@) == env_of(*self, backend_pinned),
    {
        let mut v: Vec<(String, String)> = Vec::new();
        if !backend_pinned {
            v.push(setting("GGML_BACKEND", self.selected.ggml_backend.as_str()));
        }
        v.push(setting("S2S_GPU_KIND", self.selected.kind.as_str()));
        v.push(setting("S2S_GPU_NAME", self.selected.name.as_str()));
        v.push(setting("S2S_GGML_BACKEND", self.selected.ggml_backend.as_str()));
        v.push(
            setting(
                "S2S_SYCL_RUNTIME",
                if self.sycl_runtime_available {
                    "1"
                } else {
                    "0"
                },
            ),
        );
        if self.in_container {
            v.push(setting("S2S_IN_CONTAINER", "1"));
        }
        assert(pair_views(v@) =~= env_of(*self, backend_pinned));
        v
    }
}

/// An Intel GPU with a SYCL stack is not driven by Vulkan unless a setting, a
/// preference or a CUDA device says so.
pub proof fn law_intel_prefers_sycl(all: Seq<DeviceView>, settings: GpuSettings, intel: bool)
    requires
        intel,
        settings.ggml_backend is None,
        settings.s2s_gpu is None,
        !crate::registry::truthy(settings.allow_intel_vulkan),
        first_kind(all, GpuKind::Cuda) is None,
    ensures
        choice(GpuPreference::Auto, settings, all, true, intel).device.kind == GpuKind::Sycl,
{
    lemma_first_kind(all, GpuKind::Sycl);
}

/// The override lets Vulkan win: with it the first Vulkan device drives an Intel
/// GPU, whatever SYCL stack there is, unless a setting or a CUDA device decides.
pub proof fn law_override_lets_vulkan_win(
    all: Seq<DeviceView>,
    settings: GpuSettings,
    sycl_runtime: bool,
    intel: bool,
)
    requires
        settings.ggml_backend is None,
        settings.s2s_gpu is None,
        crate::registry::truthy(settings.allow_intel_vulkan),
        first_kind(all, GpuKind::Cuda) is None,
        first_kind(all, GpuKind::Vulkan) is Some,
    ensures
        choice(GpuPreference::Auto, settings, all, sycl_runtime, intel).device == first_kind(
            all,
            GpuKind::Vulkan,
        ).unwrap(),
        first_kind(all, GpuKind::Vulkan).unwrap().kind == GpuKind::Vulkan,
{
    lemma_first_kind(all, GpuKind::Vulkan);
}

/// The first device of a kind is of that kind.
pub proof fn lemma_first_kind(all: Seq<DeviceView>, kind: GpuKind)
    ensures
        first_kind(all, kind) matches Some(d) ==> d.kind == kind && all.contains(d),
        first_kind(all, kind) is None ==> forall|i: int|
            0 <= i < all.len() ==> (#[trigger] all[i]).kind != kind,
    decreases all.len(),
{
    if all.len() > 0 && all[0].kind != kind {
        let t = all.drop_first();
        lemma_first_kind(t, kind);
        if first_kind(t, kind) is Some {
            let d = first_kind(t, kind).unwrap();
            let i = choose|i: int| 0 <= i < t.len() && t[i] == d;
            assert(all[i + 1] == d);
        } else {
            assert forall|i: int| 0 <= i < all.len() implies (#[trigger] all[i]).kind != kind by {
                if i > 0 {
                    assert(all[i] == t[i - 1]);
                }
            }
        }
    }
}

/// Whatever is asked for, the device chosen is a listed one, the CPU, one that
/// stands for a present SYCL runtime, or the one that a setting pins.
pub proof fn law_choice_is_available(
    pref: GpuPreference,
    settings: GpuSettings,
    all: Seq<DeviceView>,
    sycl_runtime: bool,
    intel: bool,
)
    ensures
        ({
            let d = choice(pref, settings, all, sycl_runtime, intel).device;
            ||| all.contains(d)
            ||| d == cpu_view()
            ||| sycl_runtime && d.kind == GpuKind::Sycl
            ||| pref == GpuPreference::Auto && (settings.ggml_backend matches Some(b) && d
                == pinned_backend(b@))
        }),
{
    lemma_first_kind(all, GpuKind::Cuda);
    lemma_first_kind(all, GpuKind::Sycl);
    lemma_first_kind(all, GpuKind::Vulkan);
}

/// Where a kind of device is asked for and the machine has one, the first of that
/// kind is selected, on an Intel GPU too.
pub proof fn law_asked_kind_is_selected(
    pref: GpuPreference,
    settings: GpuSettings,
    all: Seq<DeviceView>,
    sycl_runtime: bool,
    intel: bool,
    i: int,
)
    requires
        0 <= i < all.len(),
        pref == GpuPreference::Vulkan && all[i].kind == GpuKind::Vulkan || pref
            == GpuPreference::Cuda && all[i].kind == GpuKind::Cuda || pref == GpuPreference::Sycl
            && all[i].kind == GpuKind::Sycl,
        forall|j: int| 0 <= j < i ==> (#[trigger] all[j]).kind != all[i].kind,
    ensures
        choice(pref, settings, all, sycl_runtime, intel).device == all[i],
{
    lemma_first_is(all, i);
}

/// The same where `S2S_GPU` asks for the kind: it decides whatever stands behind the
/// name of the kind, in any case, unless a backend is pinned.
pub proof fn law_setting_selects_kind(
    settings: GpuSettings,
    all: Seq<DeviceView>,
    sycl_runtime: bool,
    intel: bool,
    i: int,
)
    requires
        settings.ggml_backend is None || settings.ggml_backend.unwrap()@.len() == 0,
        settings.s2s_gpu is Some,
        0 <= i < all.len(),
        ({
            let s = text::lower(settings.s2s_gpu.unwrap()@);
            ||| all[i].kind == GpuKind::Sycl && s.len() >= 4 && s.take(4) == "sycl"@
            ||| all[i].kind == GpuKind::Vulkan && s.len() >= 6 && s.take(6) == "vulkan"@
            ||| all[i].kind == GpuKind::Cuda && s.len() >= 4 && s.take(4) == "cuda"@
        }),
        forall|j: int| 0 <= j < i ==> (#[trigger] all[j]).kind != all[i].kind,
    ensures
        choice(GpuPreference::Auto, settings, all, sycl_runtime, intel).device == all[i],
{
    lemma_first_is(all, i);
    let s = text::lower(settings.s2s_gpu.unwrap()@);
    reveal_strlit("sycl");
    reveal_strlit("vulkan");
    reveal_strlit("cuda");
    reveal_strlit("cpu");
    assert("cpu"@.len() == 3);
    assert("sycl"@.len() == 4 && "cuda"@.len() == 4 && "vulkan"@.len() == 6);
    assert("sycl"@[0] == 's' && "cuda"@[0] == 'c' && "vulkan"@[0] == 'v');
    if text::starts_with(s, "sycl"@) {
        assert(s[0] == s.take(4)[0]);
    }
    if text::starts_with(s, "vulkan"@) {
        assert(s[0] == s.take(6)[0]);
    }
    if text::starts_with(s, "cuda"@) {
        assert(s[0] == s.take(4)[0]);
    }
}

/// Without a setting a CUDA device comes first. On an Intel GPU SYCL comes next,
/// enumerated or only its runtime, then Vulkan; elsewhere Vulkan, then SYCL. The
/// override puts Vulkan before SYCL on an Intel GPU too.
pub proof fn law_automatic_order(
    settings: GpuSettings,
    all: Seq<DeviceView>,
    sycl_runtime: bool,
    intel: bool,
    i: int,
)
    requires
        settings.ggml_backend is None || settings.ggml_backend.unwrap()@.len() == 0,
        settings.s2s_gpu is None,
        0 <= i < all.len(),
        forall|j: int| 0 <= j < i ==> (#[trigger] all[j]).kind != all[i].kind,
    ensures
        ({
            let d = choice(GpuPreference::Auto, settings, all, sycl_runtime, intel).device;
            let no_cuda = forall|j: int|
                0 <= j < all.len() ==> (#[trigger] all[j]).kind != GpuKind::Cuda;
            let no_vulkan = forall|j: int|
                0 <= j < all.len() ==> (#[trigger] all[j]).kind != GpuKind::Vulkan;
            let no_sycl = forall|j: int|
                0 <= j < all.len() ==> (#[trigger] all[j]).kind != GpuKind::Sycl;
            let over = crate::registry::truthy(settings.allow_intel_vulkan);
            &&& all[i].kind == GpuKind::Cuda ==> d == all[i]
            &&& all[i].kind == GpuKind::Vulkan && no_cuda && (!intel || over || (no_sycl
                && !sycl_runtime)) ==> d == all[i]
            &&& all[i].kind == GpuKind::Sycl && no_cuda && (no_vulkan || (intel && !over)) ==> d
                == all[i]
            &&& no_cuda && no_sycl && intel && sycl_runtime && (no_vulkan || !over) ==> d.kind
                == GpuKind::Sycl && d.ggml_backend == "SYCL0"@
        }),
{
    lemma_first_is(all, i);
    lemma_first_kind(all, GpuKind::Cuda);
    lemma_first_kind(all, GpuKind::Sycl);
    lemma_first_kind(all, GpuKind::Vulkan);
    lemma_sycl_zero();
}

/// The CPU is selected only if it is asked for or nothing usable is there: a CPU
/// comes of a preference for the CPU, of a setting that names it or pins a backend of
/// no other kind, or where no device of the kind that is asked for is listed and, for
/// SYCL, no runtime is there and no Vulkan device either.
pub proof fn law_cpu_is_the_last_resort(
    pref: GpuPreference,
    settings: GpuSettings,
    all: Seq<DeviceView>,
    sycl_runtime: bool,
    intel: bool,
    i: int,
)
    requires
        choice(pref, settings, all, sycl_runtime, intel).device.kind == GpuKind::Cpu,
        0 <= i < all.len(),
        settings.ggml_backend is None || settings.ggml_backend.unwrap()@.len() == 0,
        settings.s2s_gpu is None || text::lower(settings.s2s_gpu.unwrap()@) != "cpu"@,
    ensures
        pref == GpuPreference::Auto ==> all[i].kind == GpuKind::Cpu,
        pref == GpuPreference::Vulkan ==> all[i].kind != GpuKind::Vulkan,
        pref == GpuPreference::Cuda ==> all[i].kind != GpuKind::Cuda,
        pref == GpuPreference::Sycl ==> !sycl_runtime && all[i].kind != GpuKind::Sycl
            && all[i].kind != GpuKind::Vulkan,
{
    lemma_first_kind(all, GpuKind::Cuda);
    lemma_first_kind(all, GpuKind::Sycl);
    lemma_first_kind(all, GpuKind::Vulkan);
}

/// Where the kind that is asked for is not there, the CPU is selected; for SYCL its
/// runtime, where that is present, and else a Vulkan device come first.
pub proof fn law_missing_kind(
    pref: GpuPreference,
    settings: GpuSettings,
    all: Seq<DeviceView>,
    sycl_runtime: bool,
    intel: bool,
    kind: GpuKind,
)
    requires
        pref == GpuPreference::Vulkan && kind == GpuKind::Vulkan || pref == GpuPreference::Cuda
            && kind == GpuKind::Cuda || pref == GpuPreference::Sycl && kind == GpuKind::Sycl
            || pref == GpuPreference::Cpu && kind == GpuKind::Cpu,
        kind == GpuKind::Cpu || forall|j: int|
            0 <= j < all.len() ==> (#[trigger] all[j]).kind != kind,
    ensures
        ({
            let d = choice(pref, settings, all, sycl_runtime, intel).device;
            &&& kind != GpuKind::Sycl ==> d.kind == GpuKind::Cpu && d.ggml_backend == "CPU"@
            &&& kind == GpuKind::Sycl && sycl_runtime ==> d.kind == GpuKind::Sycl
                && d.ggml_backend == "SYCL0"@
            &&& kind == GpuKind::Sycl && !sycl_runtime ==> (d.kind == GpuKind::Vulkan
                && all.contains(d)) || (d.kind == GpuKind::Cpu && d.ggml_backend == "CPU"@)
        }),
{
    lemma_first_kind(all, GpuKind::Cuda);
    lemma_first_kind(all, GpuKind::Sycl);
    lemma_first_kind(all, GpuKind::Vulkan);
    lemma_sycl_zero();
}

proof fn lemma_sycl_zero()
    ensures
        "SYCL"@ + text::decimal(0) == "SYCL0"@,
{
    reveal_strlit("SYCL");
    reveal_strlit("SYCL0");
    reveal_with_fuel(text::decimal, 2);
    assert("SYCL"@ + text::decimal(0) =~= "SYCL0"@);
}

proof fn lemma_first_is(all: Seq<DeviceView>, i: int)
    requires
        0 <= i < all.len(),
        forall|j: int| 0 <= j < i ==> (#[trigger] all[j]).kind != all[i].kind,
    ensures
        first_kind(all, all[i].kind) == Some(all[i]),
    decreases i,
{
    if i > 0 {
        let t = all.drop_first();
        assert(all[0].kind != all[i].kind);
        assert(t[i - 1] == all[i]);
        assert forall|j: int| 0 <= j < i - 1 implies (#[trigger] t[j]).kind != t[i - 1].kind by {
            assert(t[j] == all[j + 1]);
        }
        lemma_first_is(t, i - 1);
    }
}

/// A backend that is pinned in automatic mode is taken as it stands, and its kind is
/// the one that its id names, whatever the machine has.
pub proof fn law_pinned_backend_wins(
    settings: GpuSettings,
    all: Seq<DeviceView>,
    sycl_runtime: bool,
    intel: bool,
)
    requires
        settings.ggml_backend is Some,
        settings.ggml_backend.unwrap()@.len() > 0,
    ensures
        ({
            let b = settings.ggml_backend.unwrap()@;
            let d = choice(GpuPreference::Auto, settings, all, sycl_runtime, intel).device;
            let up = text::upper(b);
            &&& d.ggml_backend == b
            &&& d.kind == GpuKind::Vulkan <==> text::has(up, "VULKAN"@)
            &&& d.kind == GpuKind::Cuda <==> text::has(up, "CUDA"@) && !text::has(up, "VULKAN"@)
            &&& d.kind == GpuKind::Sycl <==> text::has(up, "SYCL"@) && !text::has(up, "VULKAN"@)
                && !text::has(up, "CUDA"@)
        }),
{
}

/// Every line that names a graphics device gives one, in the order of the lines and
/// numbered from zero, and no other line does; a line for a processor alone gives none.
pub proof fn law_sycl_lines(lines: Seq<Seq<char>>, line: Seq<char>)
    ensures
        ({
            let l = text::lower(text::trim(line));
            let before = sycl_devices(lines);
            let after = sycl_devices(lines.push(line));
            &&& text::has(l, "gpu"@) ==> after.len() == before.len() + 1 && after.last().name
                == text::trim(line) && after.last().kind == GpuKind::Sycl && after.last().index
                == before.len() && after.last().ggml_backend == "SYCL"@ + text::decimal(
                before.len(),
            )
            &&& !text::has(l, "gpu"@) && !text::has(l, "level_zero"@) ==> after == before
            &&& !text::has(l, "gpu"@) && text::has(l, "cpu"@) ==> after == before
            &&& !text::has(l, "gpu"@) && !text::has(l, "cpu"@) && text::has(l, "level_zero"@)
                ==> after.len() == before.len() + 1
            &&& forall|i: int| 0 <= i < before.len() ==> #[trigger] after[i] == before[i]
            &&& text::has(l, "gpu"@) && (text::has(l, "intel"@) || text::has(l, "arc"@))
                ==> after.last().vendor_hint == Some("intel"@)
        }),
{
    assert(lines.push(line).drop_last() =~= lines);
}

/// The names of devices are told once each, in the order in which they come.
pub proof fn law_names_once(
    lines: Seq<Seq<char>>,
    read: spec_fn(Seq<char>) -> Option<Seq<char>>,
    i: int,
)
    ensures
        names_in(lines, read).no_duplicates(),
        0 <= i < lines.len() && read(lines[i]) is Some ==> names_in(lines, read).contains(
            read(lines[i]).unwrap(),
        ),
        names_in(lines, read).len() <= lines.len(),
    decreases lines.len(),
{
    if lines.len() > 0 {
        let t = lines.drop_last();
        law_names_once(t, read, i);
        let prev = names_in(t, read);
        let all = names_in(lines, read);
        if 0 <= i < lines.len() && read(lines[i]) is Some {
            let x = read(lines[i]).unwrap();
            if i < t.len() {
                assert(t[i] == lines[i]);
                let k = choose|k: int| 0 <= k < prev.len() && prev[k] == x;
                assert(all[k] == x);
            } else if prev.contains(x) {
                assert(all == prev);
            } else {
                assert(all[prev.len() as int] == x);
            }
        }
    }
}

/// A line of a summary names a device behind the equals sign; one of another form, or
/// with nothing there, names none.
pub proof fn law_device_name_lines(name: Seq<char>)
    requires
        name.len() > 0,
        !text::is_space(name[0]),
        !text::is_space(name.last()),
    ensures
        name_line_name("deviceName = "@ + name) == Some(name),
        name_line_name("deviceName"@) is None,
{
    reveal_strlit("deviceName = ");
    reveal_strlit("deviceName");
    let head = "deviceName = "@;
    let l = head + name;
    assert(head.len() == 13);
    assert(l[0] == 'd' && l.last() == name.last());
    text::lemma_trimmed(l);
    assert(l.take(10) =~= "deviceName"@);
    let rest = l.skip(10);
    assert(rest[0] == ' ' && rest[1] == '=' && rest[2] == ' ');
    text::lemma_first_char_is(rest, '=', 1);
    let tail = rest.skip(2);
    assert(tail =~= seq![' '] + name);
    lemma_trim_blank(name);
    let d = "deviceName"@;
    assert(d.len() == 10 && d[0] == 'd' && d.last() == 'e');
    text::lemma_trimmed(d);
    assert(d.skip(10) =~= Seq::<char>::empty());
    text::lemma_first_char_is(Seq::<char>::empty(), '=', 0);
}

proof fn lemma_trim_blank(name: Seq<char>)
    requires
        name.len() > 0,
        !text::is_space(name[0]),
        !text::is_space(name.last()),
    ensures
        text::trim(seq![' '] + name) == name,
{
    let s = seq![' '] + name;
    assert(s.drop_first() =~= name);
    assert(text::trim_start(name) == name);
    assert(text::trim_start(s) == name);
    assert(text::trim_end(name) == name);
}

/// Rasterizers in software are listed behind the hardware and count as the CPU.
pub proof fn law_software_comes_last(names: Seq<Seq<char>>, i: int, j: int)
    ensures
        vulkan_devices(names).len() == names.len(),
        0 <= i < j < vulkan_devices(names).len() && vulkan_devices(names)[j].kind
            == GpuKind::Vulkan ==> vulkan_devices(names)[i].kind == GpuKind::Vulkan,
        0 <= i < vulkan_devices(names).len() ==> vulkan_devices(names)[i].index == i && (
        vulkan_devices(names)[i].kind == GpuKind::Cpu <==> is_software(
            vulkan_devices(names)[i].name,
        )) && (vulkan_devices(names)[i].kind == GpuKind::Vulkan ==> vulkan_devices(
            names,
        )[i].ggml_backend == "Vulkan"@ + text::decimal(i as nat)),
{
    lemma_software_split(names);
    let hard = of_software(names, false);
    let soft = of_software(names, true);
    if 0 <= i < hard.len() {
        lemma_of_software(names, false, i);
    }
    if hard.len() <= i < hard.len() + soft.len() {
        lemma_of_software(names, true, i - hard.len());
    }
}

proof fn lemma_of_software(names: Seq<Seq<char>>, software: bool, i: int)
    requires
        0 <= i < of_software(names, software).len(),
    ensures
        is_software(of_software(names, software)[i]) == software,
    decreases names.len(),
{
    if names.len() > 0 && i < of_software(names.drop_last(), software).len() {
        lemma_of_software(names.drop_last(), software, i);
    }
}

/// Software rasterizers are known by their names.
pub proof fn law_software_names(name: Seq<char>)
    ensures
        is_software(name) <==> text::has(text::lower(name), "llvmpipe"@) || text::has(
            text::lower(name),
            "lavapipe"@,
        ) || text::has(text::lower(name), "swiftshader"@),
{
}

/// Devices of another source join those that are known: what is known stays, and what
/// is new comes behind it, unless it goes by an id that is known already.
pub proof fn law_devices_join(all: Seq<DeviceView>, more: Seq<DeviceView>, by_kind: bool, i: int)
    ensures
        merged(all, more, by_kind).len() >= all.len(),
        0 <= i < all.len() ==> merged(all, more, by_kind)[i] == all[i],
        0 <= i < more.len() ==> known_device(merged(all, more, by_kind), more[i], by_kind),
        all.len() <= i < merged(all, more, by_kind).len() ==> more.contains(
            merged(all, more, by_kind)[i],
        ),
    decreases more.len(),
{
    if more.len() > 0 {
        let t = more.drop_last();
        law_devices_join(all, t, by_kind, i);
        let prev = merged(all, t, by_kind);
        let r = merged(all, more, by_kind);
        if 0 <= i < more.len() {
            if i < t.len() {
                assert(t[i] == more[i]);
                let k = choose|k: int|
                    0 <= k < prev.len() && (#[trigger] prev[k]).ggml_backend == t[i].ggml_backend && (
                    by_kind ==> prev[k].kind == t[i].kind);
                assert(r[k] == prev[k]);
            } else if !known_device(prev, more.last(), by_kind) {
                assert(r[prev.len() as int] == more[i]);
            }
        }
        if all.len() <= i < r.len() {
            if i < prev.len() {
                assert(r[i] == prev[i]);
                assert(t.contains(prev[i]));
                let k = choose|k: int| 0 <= k < t.len() && t[k] == prev[i];
                assert(more[k] == r[i]);
            } else {
                assert(more[more.len() - 1] == r[i]);
            }
        }
    }
}

/// What is found on a machine: NVIDIA devices first, and every device numbered by its
/// place. A machine without any says that the CPU is used.
pub proof fn law_found_devices(p: GpuProbe, i: int)
    ensures
        p.nvidia_names is Some && 0 <= i < p.nvidia_names.unwrap()@.len() ==> i < devices_of(p).len()
            && devices_of(p)[i].kind == GpuKind::Cuda && devices_of(p)[i].name
            == p.nvidia_names.unwrap()@[i]@ && devices_of(p)[i].ggml_backend == "CUDA"@
            + text::decimal(i as nat),
        0 <= i < devices_of(p).len() ==> devices_of(p)[i].index == i,
        p.nvidia_names is None && p.nvidia_device_node ==> devices_of(p).len() > 0
            && devices_of(p)[0].kind == GpuKind::Cuda,
{
    let cuda = nvidia_devices(opt_views(p.nvidia_names), p.nvidia_device_node);
    let with_sycl = merged(cuda, sycl_found(p).0, false);
    law_devices_join(cuda, sycl_found(p).0, false, i);
    law_devices_join(with_sycl, vulkan_found(p).0, true, i);
    law_devices_join(cuda, sycl_found(p).0, false, 0);
    law_devices_join(with_sycl, vulkan_found(p).0, true, 0);
}

/// SYCL is offered only with its runtime: the devices that are listed, or one that
/// stands for them where none can be listed.
pub proof fn law_found_sycl(p: GpuProbe)
    ensures
        !p.sycl_runtime ==> sycl_found(p).0.len() == 0,
        p.sycl_runtime ==> sycl_found(p).0.len() > 0,
        p.sycl_runtime && p.sycl_ls is None ==> sycl_found(p).0[0].ggml_backend == "SYCL0"@,
        p.sycl_runtime && p.sycl_ls is Some && sycl_devices(
            text::split(p.sycl_ls.unwrap()@, '\n'),
        ).len() > 0 ==> sycl_found(p).0 == sycl_devices(text::split(p.sycl_ls.unwrap()@, '\n')),
{
    lemma_sycl_zero();
}

/// Without a list of devices a Vulkan driver stands for one, and so does a render node;
/// with neither none is found.
pub proof fn law_found_vulkan(p: GpuProbe)
    requires
        p.vulkaninfo is None,
    ensures
        p.icds@.len() > 0 ==> vulkan_found(p).0.len() == 1 && vulkan_found(p).0[0].kind
            == GpuKind::Vulkan && vulkan_found(p).0[0].ggml_backend == "Vulkan0"@,
        has_render_node(text::views(p.dri_nodes@)) ==> vulkan_found(p).0.len() == 1,
        p.icds@.len() == 0 && !has_render_node(text::views(p.dri_nodes@)) && !(p.windows
            && p.vulkan_sdk) ==> vulkan_found(p).0.len() == 0,
{
}

/// What is passed on of the choice: the backend under both names unless it is pinned,
/// and the kind by its name.
pub proof fn law_environment(r: GpuReport, pinned: bool)
    ensures
        env_of(r, pinned).contains(("S2S_GGML_BACKEND"@, r.selected.ggml_backend@)),
        env_of(r, pinned).contains(("S2S_GPU_NAME"@, r.selected.name@)),
        !pinned ==> env_of(r, pinned)[0] == ("GGML_BACKEND"@, r.selected.ggml_backend@),
        pinned ==> env_of(r, pinned).len() == env_of(r, false).len() - 1,
        r.selected.kind == GpuKind::Vulkan ==> env_of(r, pinned).contains(
            ("S2S_GPU_KIND"@, "vulkan"@),
        ),
        r.selected.kind == GpuKind::Cuda ==> env_of(r, pinned).contains(
            ("S2S_GPU_KIND"@, "cuda"@),
        ),
        r.selected.kind == GpuKind::Sycl ==> env_of(r, pinned).contains(
            ("S2S_GPU_KIND"@, "sycl"@),
        ),
        r.selected.kind == GpuKind::Cpu ==> env_of(r, pinned).contains(("S2S_GPU_KIND"@, "cpu"@)),
        r.sycl_runtime_available ==> env_of(r, pinned).contains(("S2S_SYCL_RUNTIME"@, "1"@)),
        !r.sycl_runtime_available ==> env_of(r, pinned).contains(("S2S_SYCL_RUNTIME"@, "0"@)),
{
    let e = env_of(r, pinned);
    let n: int = if pinned {
        0
    } else {
        1
    };
    assert(e[n] == ("S2S_GPU_KIND"@, kind_name(r.selected.kind)));
    assert(e[n + 1] == ("S2S_GPU_NAME"@, r.selected.name@));
    assert(e[n + 2] == ("S2S_GGML_BACKEND"@, r.selected.ggml_backend@));
    assert(e[n + 3].0 == "S2S_SYCL_RUNTIME"@);
    assert(e.contains(e[n]) && e.contains(e[n + 3]));
}

/// A machine is an Intel one if a device says so by its vendor or its name.
pub proof fn law_intel_machines(all: Seq<DeviceView>, i: int)
    requires
        0 <= i < all.len(),
    ensures
        all[i].vendor_hint == Some("intel"@) ==> any_intel(all),
        text::has(text::lower(all[i].name), "intel"@) || text::has(text::lower(all[i].name), "arc"@)
            ==> any_intel(all),
        any_intel(all) ==> exists|k: int|
            0 <= k < all.len() && ((#[trigger] all[k]).vendor_hint is Some && text::lower(
                all[k].vendor_hint.unwrap(),
            ) == text::lower("intel"@) || text::has(text::lower(all[k].name), "intel"@) || text::has(
                text::lower(all[k].name),
                "arc"@,
            )),
{
    if is_intel(all[i]) {
        assert(any_intel(all));
    }
    if any_intel(all) {
        let k = choose|k: int| 0 <= k < all.len() && is_intel(#[trigger] all[k]);
        assert(is_intel(all[k]));
    }
}

/// The entries of a list of driver manifests are what stands between semicolons and
/// colons; none is empty, and the first comes first.
pub proof fn law_driver_manifests(entry: Seq<char>, c: char, rest: Seq<char>)
    requires
        forall|i: int|
            0 <= i < entry.len() ==> (#[trigger] entry[i]) != ';' && entry[i] != ':',
        c == ';' || c == ':',
    ensures
        entry.len() > 0 ==> manifest_list(entry) == seq![entry] && manifest_list(
            entry + seq![c] + rest,
        ) == seq![entry] + manifest_list(rest),
        manifest_list(seq![c] + rest) == manifest_list(rest),
        manifest_list(Seq::empty()).len() == 0,
{
    let s = entry + seq![c] + rest;
    lemma_manifest_end(entry, 0, entry.len() as int);
    lemma_manifest_end(s, 0, entry.len() as int);
    assert(s.take(entry.len() as int) =~= entry);
    assert(s.skip(entry.len() as int + 1) =~= rest);
    assert(entry.take(entry.len() as int) =~= entry);
    let t = seq![c] + rest;
    assert(t[0] == c);
    assert(manifest_end(t, 0) == 0);
    assert(t.skip(1) =~= rest);
    assert(manifest_list(t) =~= manifest_list(rest));
}

proof fn lemma_manifest_end(list: Seq<char>, from: int, end: int)
    requires
        0 <= from <= end <= list.len(),
        forall|i: int| from <= i < end ==> (#[trigger] list[i]) != ';' && list[i] != ':',
        end < list.len() ==> list[end] == ';' || list[end] == ':',
    ensures
        manifest_end(list, from) == end,
    decreases end - from,
{
    if from < end {
        lemma_manifest_end(list, from + 1, end);
    }
}

/// Of some lines those that are not blank stay, trimmed and in their order.
pub proof fn law_lines_that_are_not_blank(lines: Seq<Seq<char>>, more: Seq<char>)
    ensures
        text::trim(more).len() > 0 ==> nonblank(lines.push(more)) == nonblank(lines).push(
            text::trim(more),
        ),
        text::trim(more).len() == 0 ==> nonblank(lines.push(more)) == nonblank(lines),
        nonblank(lines).len() <= lines.len(),
        forall|i: int| 0 <= i < nonblank(lines).len() ==> (#[trigger] nonblank(lines)[i]).len() > 0,
    decreases lines.len(),
{
    assert(lines.push(more).drop_last() =~= lines);
    if lines.len() > 0 {
        law_lines_that_are_not_blank(lines.drop_last(), lines.last());
        assert(lines.drop_last().push(lines.last()) =~= lines);
    }
}

/// A machine without devices is told so, one with an Intel device is told how it is
/// used, and on others nothing is added to what was found.
pub proof fn law_notes_on_devices(p: GpuProbe)
    ensures
        devices_of(p).len() > 0 && !any_intel(devices_of(p)) ==> device_notes(p) == sycl_found(
            p,
        ).1 + vulkan_found(p).1,
        devices_of(p).len() == 0 ==> device_notes(p).len() == sycl_found(p).1.len() + vulkan_found(
            p,
        ).1.len() + 1,
        any_intel(devices_of(p)) ==> device_notes(p).len() == sycl_found(p).1.len() + vulkan_found(
            p,
        ).1.len() + 1,
{
    let empty = Seq::<Seq<char>>::empty();
    assert(sycl_found(p).1 + vulkan_found(p).1 + empty + empty =~= sycl_found(p).1 + vulkan_found(
        p,
    ).1);
}

/// A report tells first what was selected, then whether it runs in a container and
/// whether SYCL can be used, and the nodes of the devices at its end, where there are
/// any.
pub proof fn law_lines_of_a_report(r: GpuReport)
    ensures
        ({
            let lines = report_lines(r);
            let n: int = if r.in_container {
                1
            } else {
                0
            };
            &&& lines[0] == "GPU auto-detect: selected "@ + r.selected.name@ + " ("@ + kind_name(
                r.selected.kind,
            ) + ") → GGML_BACKEND="@ + r.selected.ggml_backend@
            &&& r.sycl_runtime_available ==> lines[n + 1] == "  SYCL runtime available: true"@
            &&& !r.sycl_runtime_available ==> lines[n + 1] == "  SYCL runtime available: false"@
            &&& r.dri_nodes@.len() > 0 ==> lines.last() == "  DRI nodes: "@ + text::joined(
                text::views(r.dri_nodes@),
                ", "@,
            )
        }),
{
}

} // verus!
