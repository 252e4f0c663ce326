//! Modules: a model together with the runtime that serves it. How one stands, and
//! how one is installed and removed.

use crate::download::{serves_a_stage, ModelDownloadRecord};
use crate::lab::{ControllerState, ModuleStatusResponse, RuntimeProvisionStatus};
use crate::registry::{
    sum_sizes, variant_artifacts, variant_bundled, wrap, BackendDefinition, BackendVariant,
    CatalogBackendStatus,
};
use crate::text;
use vstd::prelude::*;

verus! {

pub const HOST_PENDING: &'static str = "managed Windows host-module delivery is not installed";

pub const NO_CONTROLLER: &'static str = "managed Speech Lab controller is unavailable";

/// An installation of a module.
#[derive(Debug)]
pub struct ModuleInstallRecord {
    pub operation_id: String,
    pub variant_id: String,
    pub state: String,
    pub error: String,
}

impl Clone for ModuleInstallRecord {
    fn clone(&self) -> (r: Self)
        ensures
            r == *self,
    {
        ModuleInstallRecord {
            operation_id: self.operation_id.clone(),
            variant_id: self.variant_id.clone(),
            state: self.state.clone(),
            error: self.error.clone(),
        }
    }
}

/// What is known of a runtime without asking anyone: a host runtime is not
/// delivered yet, and without a controller no container can be had.
pub open spec fn known_runtime(v: BackendVariant, docker: bool) -> Option<(Seq<char>, Seq<char>)> {
    if v.host_profile@.len() > 0 {
        Some(("host_module_delivery_pending"@, HOST_PENDING@))
    } else if v.container@.len() > 0 && !docker {
        Some(("unavailable"@, NO_CONTROLLER@))
    } else {
        None
    }
}

pub fn runtime_without_asking(variant: &BackendVariant, docker: bool) -> (r: Option<
    RuntimeProvisionStatus,
>)
    ensures
        match known_runtime(*variant, docker) {
            Some((state, error)) => r matches Some(s) && s.state@ == state && s.error@ == error
                && s.image@ == ""@ && s.image_download_size_bytes == 0 && s.image_downloaded_bytes
                == 0,
            None => r is None,
        },
{
    let (state, error): (&str, &str) = if !variant.host_profile.as_str().is_empty() {
        ("host_module_delivery_pending", HOST_PENDING)
    } else if !variant.container.as_str().is_empty() && !docker {
        ("unavailable", NO_CONTROLLER)
    } else {
        return None;
    };
    let mut s: RuntimeProvisionStatus = RuntimeProvisionStatus::default();
    s.state = String::from_str(state);
    s.error = String::from_str(error);
    Some(s)
}

/// The state of a model: that of its download if there is one for the variant.
pub open spec fn model_state(
    b: BackendDefinition,
    v: BackendVariant,
    installed: bool,
    downloaded: u64,
    download: Option<ModelDownloadRecord>,
) -> (Seq<char>, u64) {
    match download {
        Some(d) if d.variant_id@ == v.id@ => (d.state@, d.downloaded_bytes),
        _ => (
            if crate::registry::bundled_of(b, v) {
                "bundled"@
            } else if installed {
                "installed"@
            } else {
                "missing"@
            },
            downloaded,
        ),
    }
}

pub open spec fn is_up(state: Seq<char>) -> bool {
    state == "ready"@ || state == "running"@ || state == "external"@
}

/// Whether the record of an installation is to be shown.
pub open spec fn is_shown(record: Option<ModuleInstallRecord>, variant_id: Seq<char>) -> bool {
    record matches Some(m) && m.variant_id@ == variant_id && (m.state@ == "installing"@ || m.state@
        == "failed"@ || m.state@ == "cancelled"@)
}

/// The state of a module and its error.
pub open spec fn module_state(
    runtime: RuntimeProvisionStatus,
    model: Seq<char>,
    record: Option<ModuleInstallRecord>,
    variant_id: Seq<char>,
) -> (Seq<char>, Seq<char>) {
    if is_shown(record, variant_id) {
        (
            record.unwrap().state@,
            if record.unwrap().error@.len() > 0 {
                record.unwrap().error@
            } else {
                runtime.error@
            },
        )
    } else {
        (
            if is_up(runtime.state@) && (model == "bundled"@ || model == "installed"@) {
                "ready"@
            } else {
                runtime.state@
            },
            runtime.error@,
        )
    }
}

/// The length of an image: the observed one if there is one.
pub open spec fn image_size(runtime: RuntimeProvisionStatus, v: BackendVariant) -> u64 {
    if runtime.image_download_size_bytes > 0 {
        runtime.image_download_size_bytes
    } else {
        v.image_download_size_bytes
    }
}

pub open spec fn image_downloaded(runtime: RuntimeProvisionStatus, v: BackendVariant) -> u64 {
    if runtime.state@ == "ready"@ || runtime.state@ == "running"@ {
        image_size(runtime, v)
    } else if runtime.image_downloaded_bytes > image_size(runtime, v) {
        image_size(runtime, v)
    } else {
        runtime.image_downloaded_bytes
    }
}

fn runtime_is_up(state: &str) -> (r: bool)
    ensures
        r == is_up(state@),
{
    text::same(state, "ready") || text::same(state, "running") || text::same(state, "external")
}

/// How a module stands.
pub fn module_status(
    backend_id: &str,
    backend: &BackendDefinition,
    variant: &BackendVariant,
    installed: bool,
    downloaded: u64,
    download: &Option<ModelDownloadRecord>,
    runtime: RuntimeProvisionStatus,
    record: &Option<ModuleInstallRecord>,
) -> (r: ModuleStatusResponse)
    requires
        crate::registry::total_size(crate::registry::artifacts_of(*backend, *variant)) <= u64::MAX,
    ensures
        ({
            let model = model_state(*backend, *variant, installed, downloaded, *download);
            let state = module_state(runtime, model.0, *record, variant.id@);
            &&& r.operation_id@ == match record {
                Some(m) => m.operation_id@,
                None => ""@,
            }
            &&& r.backend_id@ == backend_id@
            &&& r.variant_id@ == variant.id@
            &&& r.state@ == state.0
            &&& r.model_state@ == model.0
            &&& r.runtime_state@ == runtime.state@
            &&& r.model_downloaded_bytes == model.1
            &&& r.model_total_bytes == crate::registry::total_size(
                crate::registry::artifacts_of(*backend, *variant),
            )
            &&& r.image_download_size_bytes == image_size(runtime, *variant)
            &&& r.image_downloaded_bytes == image_downloaded(runtime, *variant)
            &&& r.error@ == state.1
        }),
{
    let total: u64 = sum_sizes(variant_artifacts(backend, variant));
    let mut bytes: u64 = downloaded;
    let mut model: String = String::from_str(
        if variant_bundled(backend, variant) {
            "bundled"
        } else if installed {
            "installed"
        } else {
            "missing"
        },
    );
    match download {
        Some(d) => {
            if text::same(d.variant_id.as_str(), variant.id.as_str()) {
                model = d.state.clone();
                bytes = d.downloaded_bytes;
            }
        },
        None => {},
    }
    let ready: bool = runtime_is_up(runtime.state.as_str()) && (text::same(
        model.as_str(),
        "bundled",
    ) || text::same(model.as_str(), "installed"));
    let mut state: String = if ready {
        String::from_str("ready")
    } else {
        runtime.state.clone()
    };
    let mut error: String = runtime.error.clone();
    let mut operation_id: String = String::from_str("");
    match record {
        Some(m) => {
            operation_id = m.operation_id.clone();
            if text::same(m.variant_id.as_str(), variant.id.as_str()) && (text::same(
                m.state.as_str(),
                "installing",
            ) || text::same(m.state.as_str(), "failed") || text::same(
                m.state.as_str(),
                "cancelled",
            )) {
                state = m.state.clone();
                if !m.error.as_str().is_empty() {
                    error = m.error.clone();
                }
            }
        },
        None => {},
    }
    let size: u64 = if runtime.image_download_size_bytes > 0 {
        runtime.image_download_size_bytes
    } else {
        variant.image_download_size_bytes
    };
    let loaded: u64 = if text::same(runtime.state.as_str(), "ready") || text::same(
        runtime.state.as_str(),
        "running",
    ) || runtime.image_downloaded_bytes > size {
        size
    } else {
        runtime.image_downloaded_bytes
    };
    ModuleStatusResponse {
        operation_id,
        backend_id: String::from_str(backend_id),
        variant_id: variant.id.clone(),
        state,
        model_state: model,
        runtime_state: runtime.state,
        model_downloaded_bytes: bytes,
        model_total_bytes: total,
        image_download_size_bytes: size,
        image_downloaded_bytes: loaded,
        error,
    }
}

/// What comes of a request to install a module.
#[derive(Debug, Clone, Copy, PartialEq, Eq, Structural)]
pub enum InstallDecision {
    /// There is nothing to install; tell how the module stands.
    Report,
    /// Install it, the model first unless it is there.
    Install,
}

/// Why a module cannot be installed.
pub open spec fn install_fault(
    requested_revision: Seq<char>,
    revision: Seq<char>,
    v: BackendVariant,
    docker: bool,
) -> Option<Seq<char>> {
    let wanted = text::trim(requested_revision);
    if wanted.len() > 0 && wanted != revision {
        Some("catalog revision changed; refresh the catalog before installing"@)
    } else if v.host_profile@.len() > 0 {
        Some("host_module_delivery_pending: "@ + HOST_PENDING@)
    } else if v.container@.len() > 0 && !docker {
        Some(NO_CONTROLLER@)
    } else {
        None
    }
}

/// Whether a request still speaks of the catalog that is in use.
pub fn check_revision(requested: &str, revision: &str) -> (r: Result<(), String>)
    ensures
        crate::registry::reports(
            r,
            if text::trim(requested@).len() > 0 && text::trim(requested@) != revision@ {
                Some("catalog revision changed; refresh the catalog before installing"@)
            } else {
                None
            },
        ),
{
    let wanted: String = text::trimmed(requested);
    if !wanted.as_str().is_empty() && !text::same(wanted.as_str(), revision) {
        return Err(
            String::from_str("catalog revision changed; refresh the catalog before installing"),
        );
    }
    Ok(())
}

pub fn admit_install(
    requested_revision: &str,
    revision: &str,
    variant: &BackendVariant,
    docker: bool,
) -> (r: Result<InstallDecision, String>)
    ensures
        match r {
            Ok(d) => install_fault(requested_revision@, revision@, *variant, docker) is None && d
                == if variant.container@.len() == 0 {
                InstallDecision::Report
            } else {
                InstallDecision::Install
            },
            Err(m) => install_fault(requested_revision@, revision@, *variant, docker) == Some(m@),
        },
{
    match check_revision(requested_revision, revision) {
        Err(m) => {
            return Err(m);
        },
        Ok(_) => {},
    }
    if !variant.host_profile.as_str().is_empty() {
        return Err(text::joined_pair("host_module_delivery_pending: ", HOST_PENDING));
    }
    if variant.container.as_str().is_empty() {
        return Ok(InstallDecision::Report);
    }
    if !docker {
        return Err(String::from_str(NO_CONTROLLER));
    }
    Ok(InstallDecision::Install)
}

/// Whether an installation is under way already.
pub fn is_installing(record: &Option<ModuleInstallRecord>) -> (r: bool)
    ensures
        r == (*record matches Some(m) && m.state@ == "installing"@),
{
    match record {
        Some(m) => text::same(m.state.as_str(), "installing"),
        None => false,
    }
}

/// The record of an installation that begins.
pub fn installing_record(operation_id: &str, variant_id: &str) -> (r: ModuleInstallRecord)
    ensures
        r.operation_id@ == operation_id@,
        r.variant_id@ == variant_id@,
        r.state@ == "installing"@,
        r.error@ == ""@,
{
    ModuleInstallRecord {
        operation_id: String::from_str(operation_id),
        variant_id: String::from_str(variant_id),
        state: String::from_str("installing"),
        error: String::from_str(""),
    }
}

/// What an installation that waits for its model does next.
#[derive(Debug)]
pub enum WaitStep {
    /// The model is there.
    Proceed,
    /// Look again in a moment.
    Wait,
    Fail(String),
}

pub open spec fn wait_fault(download: Option<ModelDownloadRecord>, cancelled: bool) -> Option<
    Seq<char>,
> {
    if cancelled {
        Some("module installation cancelled"@)
    } else {
        match download {
            Some(d) => if d.state@ == "failed"@ {
                Some("model download failed: "@ + d.error@)
            } else if d.state@ == "cancelled"@ {
                Some("model download cancelled"@)
            } else {
                None
            },
            None => None,
        }
    }
}

pub fn wait_for_model(download: &Option<ModelDownloadRecord>, cancelled: bool) -> (r: WaitStep)
    ensures
        match r {
            WaitStep::Fail(m) => wait_fault(*download, cancelled) == Some(m@),
            WaitStep::Proceed => !cancelled && (*download matches Some(d) && d.state@
                == "installed"@),
            WaitStep::Wait => wait_fault(*download, cancelled) is None && !(
            *download matches Some(d) && d.state@ == "installed"@),
        },
{
    if cancelled {
        return WaitStep::Fail(String::from_str("module installation cancelled"));
    }
    match download {
        Some(d) => {
            if text::same(d.state.as_str(), "installed") {
                WaitStep::Proceed
            } else if text::same(d.state.as_str(), "failed") {
                WaitStep::Fail(text::joined_pair("model download failed: ", d.error.as_str()))
            } else if text::same(d.state.as_str(), "cancelled") {
                WaitStep::Fail(String::from_str("model download cancelled"))
            } else {
                WaitStep::Wait
            }
        },
        None => WaitStep::Wait,
    }
}

/// The state of an installation that ended.
pub open spec fn installed_state(error: Option<String>, cancelled: bool) -> (Seq<char>, Seq<char>) {
    if cancelled {
        ("cancelled"@, ""@)
    } else {
        match error {
            Some(m) => ("failed"@, m@),
            None => ("ready"@, ""@),
        }
    }
}

/// Takes note of the end of an installation, unless the record is of another one
/// by now.
pub fn finish_install(
    record: &mut ModuleInstallRecord,
    operation_id: &str,
    error: &Option<String>,
    cancelled: bool,
)
    ensures
        if old(record).operation_id@ == operation_id@ {
            &&& final(record).state@ == installed_state(*error, cancelled).0
            &&& final(record).error@ == installed_state(*error, cancelled).1
            &&& final(record).operation_id == old(record).operation_id
            &&& final(record).variant_id == old(record).variant_id
        } else {
            *final(record) == *old(record)
        },
{
    if !text::same(record.operation_id.as_str(), operation_id) {
        return ;
    }
    let (state, message): (&str, String) = if cancelled {
        ("cancelled", String::from_str(""))
    } else {
        match error {
            Some(m) => ("failed", m.clone()),
            None => ("ready", String::from_str("")),
        }
    };
    record.state = String::from_str(state);
    record.error = message;
}

/// Whether an installation that was cancelled too late has to be taken back.
pub fn takes_back(error: &Option<String>, cancelled: bool) -> (r: bool)
    ensures
        r == (cancelled && error is None),
{
    cancelled && error.is_none()
}

/// Whether an installation can be cancelled.
pub fn admit_cancel(record: &Option<ModuleInstallRecord>, backend_id: &str) -> (r: Result<
    (),
    String,
>)
    ensures
        crate::registry::reports(
            r,
            match record {
                None => Some("no module installation for '"@ + backend_id@ + "'"@),
                Some(m) => if m.state@ == "installing"@ {
                    None
                } else {
                    Some("module installation is not running"@)
                },
            },
        ),
{
    match record {
        None => Err(wrap("no module installation for '", backend_id, "'")),
        Some(m) => if text::same(m.state.as_str(), "installing") {
            Ok(())
        } else {
            Err(String::from_str("module installation is not running"))
        },
    }
}

/// What the removal of a module takes.
#[derive(Debug, Clone, Copy, PartialEq, Eq, Structural)]
pub struct Removal {
    pub runtime: bool,
    pub model: bool,
}

/// Whether a module can be removed: not while it serves a stage.
pub fn admit_removal(backend: &BackendDefinition, variant: &BackendVariant, s: &ControllerState) -> (r:
    Result<Removal, String>)
    ensures
        ({
            let active = (s.asr matches Some(a) && a.backend_id@ == backend.id@) || (
            s.tts matches Some(a) && a.backend_id@ == backend.id@) || (s.llm matches Some(a)
                && a.backend_id@ == backend.id@);
            match r {
                Ok(x) => !active && x.runtime == (variant.container@.len() > 0) && x.model
                    == !crate::registry::bundled_of(*backend, *variant),
                Err(m) => active && m@ == "active module cannot be removed"@,
            }
        }),
{
    if serves_a_stage(s, backend.id.as_str()) {
        return Err(String::from_str("active module cannot be removed"));
    }
    Ok(
        Removal {
            runtime: !variant.container.as_str().is_empty(),
            model: !variant_bundled(backend, variant),
        },
    )
}

// ---------------------------------------------------------------------------
// The catalog
// ---------------------------------------------------------------------------

/// Whether a runtime can take over at once: it is up, or the host agent can start
/// it.
pub open spec fn can_take_over(host_managed: bool, state: Seq<char>) -> bool {
    is_up(state) || (host_managed && state == "stopped"@)
}

/// Fills in the entry of a backend that has a variant for the machine: its runtime
/// and its model.
pub fn fill_entry(
    status: &mut CatalogBackendStatus,
    bundled: bool,
    runtime_state: &str,
    runtime_reason: &str,
    observed_image_size: u64,
    installed: bool,
    downloaded: u64,
    download: &Option<ModelDownloadRecord>,
    hf_token_configured: bool,
)
    ensures
        ({
            let s = *final(status);
            let shown = !bundled && (download matches Some(d) && d.variant_id@ == old(
                status,
            ).variant_id@);
            &&& s.hf_token_configured == hf_token_configured
            &&& s.runtime_state@ == runtime_state@
            &&& s.runtime_reason@ == runtime_reason@
            &&& s.image_download_size_bytes == (if observed_image_size > 0 {
                observed_image_size
            } else {
                old(status).image_download_size_bytes
            })
            &&& s.installed == (bundled || installed || (shown && download.unwrap().state@
                == "installed"@))
            &&& s.download_state@ == (if bundled {
                "bundled"@
            } else if shown {
                download.unwrap().state@
            } else if installed {
                "installed"@
            } else {
                "missing"@
            })
            &&& s.downloaded_bytes == (if bundled {
                old(status).download_size_bytes
            } else if shown {
                download.unwrap().downloaded_bytes
            } else {
                downloaded
            })
            &&& s.download_error@ == (if shown {
                download.unwrap().error@
            } else {
                old(status).download_error@
            })
            &&& s.deletable == (if bundled {
                false
            } else {
                old(status).deletable
            })
            &&& s.activatable == (old(status).compatible && s.installed && can_take_over(
                old(status).host_managed,
                runtime_state@,
            ))
            &&& s.available == s.activatable
            &&& s == (CatalogBackendStatus {
                hf_token_configured: s.hf_token_configured,
                runtime_state: s.runtime_state,
                runtime_reason: s.runtime_reason,
                image_download_size_bytes: s.image_download_size_bytes,
                installed: s.installed,
                download_state: s.download_state,
                downloaded_bytes: s.downloaded_bytes,
                download_error: s.download_error,
                deletable: s.deletable,
                activatable: s.activatable,
                available: s.available,
                ..*old(status)
            })
        }),
{
    status.hf_token_configured = hf_token_configured;
    status.runtime_state = String::from_str(runtime_state);
    status.runtime_reason = String::from_str(runtime_reason);
    if observed_image_size > 0 {
        status.image_download_size_bytes = observed_image_size;
    }
    if bundled {
        status.installed = true;
        status.download_state = String::from_str("bundled");
        status.downloaded_bytes = status.download_size_bytes;
        status.deletable = false;
    } else {
        status.installed = installed;
        status.downloaded_bytes = downloaded;
        status.download_state =
        String::from_str(
            if installed {
                "installed"
            } else {
                "missing"
            },
        );
        match download {
            Some(d) => {
                if text::same(d.variant_id.as_str(), status.variant_id.as_str()) {
                    status.download_state = d.state.clone();
                    status.downloaded_bytes = d.downloaded_bytes;
                    status.download_error = d.error.clone();
                    if text::same(d.state.as_str(), "installed") {
                        status.installed = true;
                    }
                }
            },
            None => {},
        }
    }
    let up: bool = runtime_is_up(runtime_state);
    let startable: bool = status.host_managed && text::same(runtime_state, "stopped");
    status.activatable = status.compatible && status.installed && (up || startable);
    status.available = status.activatable;
}

/// The entry of a backend that has no variant for the machine.
pub fn close_entry(status: &mut CatalogBackendStatus, hf_token_configured: bool)
    ensures
        *final(status) == (CatalogBackendStatus {
            hf_token_configured,
            available: false,
            activatable: false,
            ..*old(status)
        }),
{
    status.hf_token_configured = hf_token_configured;
    status.available = false;
    status.activatable = false;
}

/// A module whose runtime does not call itself ready is ready only when the runtime
/// is up and its model is there.
pub proof fn law_ready_module_is_complete(
    runtime: RuntimeProvisionStatus,
    model: Seq<char>,
    record: Option<ModuleInstallRecord>,
    variant_id: Seq<char>,
)
    requires
        !is_shown(record, variant_id),
        runtime.state@ != "ready"@,
        module_state(runtime, model, record, variant_id).0 == "ready"@,
    ensures
        is_up(runtime.state@),
        model == "bundled"@ || model == "installed"@,
{
}

/// What is told of a model: the state of its download where one is on record for the
/// variant, and else whether it is bundled, installed or missing.
pub proof fn law_model_state(
    b: BackendDefinition,
    v: BackendVariant,
    installed: bool,
    downloaded: u64,
    d: ModelDownloadRecord,
)
    ensures
        d.variant_id@ == v.id@ ==> model_state(b, v, installed, downloaded, Some(d)) == (
            d.state@,
            d.downloaded_bytes,
        ),
        d.variant_id@ != v.id@ ==> model_state(b, v, installed, downloaded, Some(d)) == model_state(
            b,
            v,
            installed,
            downloaded,
            None,
        ),
        crate::registry::bundled_of(b, v) ==> model_state(b, v, installed, downloaded, None).0
            == "bundled"@,
        !crate::registry::bundled_of(b, v) && installed ==> model_state(
            b,
            v,
            installed,
            downloaded,
            None,
        ) == ("installed"@, downloaded),
        !crate::registry::bundled_of(b, v) && !installed ==> model_state(
            b,
            v,
            installed,
            downloaded,
            None,
        ) == ("missing"@, downloaded),
{
}

/// A module is ready exactly if its runtime is up and its model is there, unless an
/// installation runs, failed or was cancelled, which is told instead.
pub proof fn law_module_state(
    runtime: RuntimeProvisionStatus,
    model: Seq<char>,
    m: ModuleInstallRecord,
    variant_id: Seq<char>,
)
    ensures
        (runtime.state@ == "ready"@ || runtime.state@ == "running"@ || runtime.state@
            == "external"@) && (model == "bundled"@ || model == "installed"@) ==> module_state(
            runtime,
            model,
            None,
            variant_id,
        ) == ("ready"@, runtime.error@),
        model != "bundled"@ && model != "installed"@ ==> module_state(
            runtime,
            model,
            None,
            variant_id,
        ) == (runtime.state@, runtime.error@),
        m.variant_id@ == variant_id && (m.state@ == "installing"@ || m.state@ == "failed"@
            || m.state@ == "cancelled"@) ==> module_state(runtime, model, Some(m), variant_id).0
            == m.state@,
        m.variant_id@ == variant_id && m.state@ == "failed"@ && m.error@.len() > 0 ==> module_state(
            runtime,
            model,
            Some(m),
            variant_id,
        ).1 == m.error@,
        m.variant_id@ != variant_id ==> module_state(runtime, model, Some(m), variant_id)
            == module_state(runtime, model, None, variant_id),
{
}

/// No more of an image is downloaded than it has, and all of it once it runs.
pub proof fn law_image_progress(runtime: RuntimeProvisionStatus, v: BackendVariant)
    ensures
        image_downloaded(runtime, v) <= image_size(runtime, v),
        runtime.state@ == "ready"@ || runtime.state@ == "running"@ ==> image_downloaded(runtime, v)
            == image_size(runtime, v),
        runtime.state@ != "ready"@ && runtime.state@ != "running"@ && runtime.image_downloaded_bytes
            <= image_size(runtime, v) ==> image_downloaded(runtime, v)
            == runtime.image_downloaded_bytes,
        runtime.image_download_size_bytes > 0 ==> image_size(runtime, v)
            == runtime.image_download_size_bytes,
        runtime.image_download_size_bytes == 0 ==> image_size(runtime, v)
            == v.image_download_size_bytes,
{
}

/// An installation is refused for another catalog than the one that was seen, for a
/// host module, and for a container without a controller; else it is admitted.
pub proof fn law_installations(
    requested: Seq<char>,
    revision: Seq<char>,
    v: BackendVariant,
    docker: bool,
)
    ensures
        install_fault(requested, revision, v, docker) is None <==> (text::trim(requested).len() == 0
            || text::trim(requested) == revision) && v.host_profile@.len() == 0 && (
        v.container@.len() == 0 || docker),
{
}

/// An installation waits for its model and goes wrong with it: a failed or cancelled
/// download fails it, and so does its own cancellation.
pub proof fn law_installation_fails_with_its_model(d: ModelDownloadRecord, cancelled: bool)
    ensures
        cancelled ==> wait_fault(Some(d), cancelled) is Some && wait_fault(None, cancelled) is Some,
        !cancelled ==> (wait_fault(Some(d), cancelled) is Some <==> d.state@ == "failed"@ || d.state@
            == "cancelled"@),
        !cancelled && d.state@ == "failed"@ ==> wait_fault(Some(d), cancelled) == Some(
            "model download failed: "@ + d.error@,
        ),
        !cancelled ==> wait_fault(None, cancelled) is None,
{
}

/// How an installation ends.
pub proof fn law_end_of_an_installation(error: Option<String>, cancelled: bool)
    ensures
        cancelled ==> installed_state(error, cancelled) == ("cancelled"@, ""@),
        !cancelled && error is Some ==> installed_state(error, cancelled) == (
            "failed"@,
            error.unwrap()@,
        ),
        !cancelled && error is None ==> installed_state(error, cancelled) == ("ready"@, ""@),
{
}

/// A runtime can take over if it is up, or if the host can start it.
pub proof fn law_take_over(host_managed: bool, state: Seq<char>)
    ensures
        state == "ready"@ || state == "running"@ || state == "external"@ ==> can_take_over(
            host_managed,
            state,
        ),
        state == "stopped"@ && host_managed ==> can_take_over(host_managed, state),
        !host_managed && can_take_over(host_managed, state) ==> state == "ready"@ || state
            == "running"@ || state == "external"@,
{
}

/// Of a host runtime it is known that it is not delivered yet, and without a
/// controller that no container can be had; all other runtimes are asked about.
pub proof fn law_known_runtimes(v: BackendVariant)
    ensures
        v.host_profile@.len() > 0 ==> known_runtime(v, true) is Some && known_runtime(v, false)
            == known_runtime(v, true) && known_runtime(v, true).unwrap().0
            == "host_module_delivery_pending"@,
        v.host_profile@.len() == 0 && v.container@.len() > 0 ==> known_runtime(v, true) is None
            && known_runtime(v, false) is Some && known_runtime(v, false).unwrap().0
            == "unavailable"@,
        v.host_profile@.len() == 0 && v.container@.len() == 0 ==> known_runtime(v, true) is None
            && known_runtime(v, false) is None,
{
}

} // verus!
