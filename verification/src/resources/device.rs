//! `drata device ...`: devices, read-only but for document uploads, which
//! carry the document type beside the file.

use vstd::prelude::*;
use crate::cli::{DeviceAction, DeviceDocumentType};
use crate::client::{with_query, Multipart};
use crate::expand::{append_expand, expand_pairs};
use crate::resources::{cat2, cat3, list_plan, list_v, planned, Plan, PlanV, UsageError};

verus! {

/// The spec value of a device document type.
pub open spec fn device_document_type_name(t: DeviceDocumentType) -> Seq<char> {
    match t {
        DeviceDocumentType::PasswordManagerEvidence => "PASSWORD_MANAGER_EVIDENCE"@,
        DeviceDocumentType::AutoUpdatesEvidence => "AUTO_UPDATES_EVIDENCE"@,
        DeviceDocumentType::HardDriveEncryptionEvidence => "HARD_DRIVE_ENCRYPTION_EVIDENCE"@,
        DeviceDocumentType::AntivirusEvidence => "ANTIVIRUS_EVIDENCE"@,
        DeviceDocumentType::LockScreenEvidence => "LOCK_SCREEN_EVIDENCE"@,
    }
}

/// Renders a device document type as the API spells it.
pub fn device_document_type_str(t: &DeviceDocumentType) -> (r: &'static str)
    ensures
        r@ == device_document_type_name(*t),
{
    match t {
        DeviceDocumentType::PasswordManagerEvidence => "PASSWORD_MANAGER_EVIDENCE",
        DeviceDocumentType::AutoUpdatesEvidence => "AUTO_UPDATES_EVIDENCE",
        DeviceDocumentType::HardDriveEncryptionEvidence => "HARD_DRIVE_ENCRYPTION_EVIDENCE",
        DeviceDocumentType::AntivirusEvidence => "ANTIVIRUS_EVIDENCE",
        DeviceDocumentType::LockScreenEvidence => "LOCK_SCREEN_EVIDENCE",
    }
}

/// What a device command asks of the API.
pub open spec fn device_plan(a: DeviceAction) -> Result<PlanV, Seq<char>> {
    match a {
        DeviceAction::List { all, expand } => Ok(list_v(with_query("/devices"@, expand_pairs(expand@)), all)),
        DeviceAction::Get { device_id, expand } => Ok(
            PlanV::Fetch { path: with_query("/devices/"@ + device_id@, expand_pairs(expand@)) },
        ),
        DeviceAction::ForPersonnel { personnel_id, expand } => Ok(
            list_v(with_query("/personnel/"@ + personnel_id@ + "/devices"@, expand_pairs(expand@)), false),
        ),
        DeviceAction::Apps { device_id } => Ok(list_v("/devices/"@ + device_id@ + "/apps"@, false)),
        DeviceAction::Upload { device_id, file, doc_type } => Ok(
            PlanV::Upload {
                method: "POST"@,
                path: "/devices/"@ + device_id@ + "/documents"@,
                files: seq![("file"@, file@)],
                fields: seq![("type"@, device_document_type_name(doc_type))],
            },
        ),
    }
}

/// Plans a device command.
pub fn plan(action: &DeviceAction) -> (r: Result<Plan, UsageError>)
    ensures
        planned(r, device_plan(*action)),
{
    match action {
        DeviceAction::List { all, expand } => Ok(list_plan(append_expand("/devices", expand.as_slice()), *all)),
        DeviceAction::Get { device_id, expand } => {
            let p = cat2("/devices/", device_id.as_str());
            Ok(Plan::Fetch { path: append_expand(p.as_str(), expand.as_slice()) })
        },
        DeviceAction::ForPersonnel { personnel_id, expand } => {
            let p = cat3("/personnel/", personnel_id.as_str(), "/devices");
            Ok(list_plan(append_expand(p.as_str(), expand.as_slice()), false))
        },
        DeviceAction::Apps { device_id } => Ok(list_plan(cat3("/devices/", device_id.as_str(), "/apps"), false)),
        DeviceAction::Upload { device_id, file, doc_type } => {
            let mut form = Multipart::single("file", file.as_str());
            form.add_field("type", device_document_type_str(doc_type));
            assert(crate::client::fields_text(form.fields@) =~= seq![("type"@, device_document_type_name(*doc_type))]);
            Ok(
                Plan::Upload {
                    method: "POST".to_string(),
                    path: cat3("/devices/", device_id.as_str(), "/documents"),
                    form,
                },
            )
        },
    }
}

} // verus!
