//! The command tree of the `drata` CLI as plain data: one enum of actions per
//! resource, the value enums that its flags accept, and the arguments of the
//! generic `raw` passthrough. Parsing the command line into these values is
//! the binary's job; the library only reads them.

use vstd::prelude::*;
use crate::json::Json;

verus! {

/// How results are printed.
#[derive(Debug, Clone, Copy, PartialEq, Eq, Structural)]
pub enum OutputFormat {
    Json,
    Table,
    Auto,
}

/// The verbosity of the log file.
#[derive(Debug, Clone, Copy, PartialEq, Eq, Structural)]
pub enum LogLevel {
    Trace,
    Debug,
    Info,
    Warn,
    Error,
    Off,
}

/// The lowercase name of a log level, as a log filter expects it.
pub open spec fn log_level_name(l: LogLevel) -> Seq<char> {
    match l {
        LogLevel::Trace => "trace"@,
        LogLevel::Debug => "debug"@,
        LogLevel::Info => "info"@,
        LogLevel::Warn => "warn"@,
        LogLevel::Error => "error"@,
        LogLevel::Off => "off"@,
    }
}

impl LogLevel {
    /// The lowercase string a log filter expects.
    pub fn as_str(self) -> (r: &'static str)
        ensures
            r@ == log_level_name(self),
    {
        match self {
            LogLevel::Trace => "trace",
            LogLevel::Debug => "debug",
            LogLevel::Info => "info",
            LogLevel::Warn => "warn",
            LogLevel::Error => "error",
            LogLevel::Off => "off",
        }
    }
}

/// Arguments of the generic `raw` passthrough: any operation by HTTP method
/// and path template.
#[derive(Debug, Clone)]
pub struct RawArgs {
    /// HTTP method (any case).
    pub method: String,
    /// Path template under the API base, e.g. `/vendors/123`.
    pub path: String,
    /// Query parameters as `key=value` entries.
    pub query: Vec<String>,
    /// Request body: inline JSON, `@file`, or `-` for stdin.
    pub data: Option<String>,
    /// Files to upload as a multipart body.
    pub file: Vec<String>,
    /// Multipart field name of the uploaded files (default `file`).
    pub file_field: Option<String>,
    /// Extra multipart scalar fields as `key=value` entries.
    pub field: Vec<String>,
    /// Print the operation's request-body skeleton and exit.
    pub example: bool,
}

/// `drata vendor ...`
#[derive(Debug, Clone)]
pub enum VendorAction {
    /// List vendors, optionally filtered by name patterns.
    List { patterns: Vec<String>, all: bool, expand: Vec<String> },
    /// Get a vendor by ID.
    Get { id: String, expand: Vec<String> },
    /// Create a vendor (`name` is required unless `example`).
    Create {
        name: Option<String>,
        category: Option<String>,
        risk: Option<String>,
        status: Option<String>,
        url: Option<String>,
        notes: Option<String>,
        example: bool,
    },
    /// Update a vendor.
    Update {
        id: String,
        name: Option<String>,
        category: Option<String>,
        risk: Option<String>,
        status: Option<String>,
        url: Option<String>,
        notes: Option<String>,
    },
    /// Remove a vendor by ID.
    Remove { id: String },
    /// Upload a document for a vendor (multipart).
    Upload { vendor_id: String, file: String, doc_type: Option<String>, security_review_id: Option<u64> },
    /// Manage a vendor's questionnaires.
    Questionnaire { action: VendorQuestionnaireAction },
    /// Manage a vendor's security reviews.
    SecurityReview { action: VendorSecurityReviewAction },
}

/// `drata vendor questionnaire ...`
#[derive(Debug, Clone)]
pub enum VendorQuestionnaireAction {
    /// List the questionnaires sent to a vendor.
    List { vendor_id: String },
    /// Get one questionnaire.
    Get { vendor_id: String, questionnaire_id: String },
    /// Send a questionnaire to a vendor.
    Send {
        vendor_id: String,
        email: String,
        questionnaire_id: u64,
        security_review_id: u64,
        email_content: String,
        email_subject: Option<String>,
    },
}

/// Status of a vendor security review.
#[derive(Debug, Clone, Copy, PartialEq, Eq, Structural)]
pub enum SecurityReviewStatus {
    NotYetStarted,
    InProgress,
    Completed,
    NotRequired,
}

/// Type of a vendor security review.
#[derive(Debug, Clone, Copy, PartialEq, Eq, Structural)]
pub enum SecurityReviewType {
    Security,
    SocReport,
    UploadReport,
}

/// Lifecycle action on a security review.
#[derive(Debug, Clone, Copy, PartialEq, Eq, Structural)]
pub enum SecurityReviewAction {
    Finalize,
    Reopen,
}

/// `drata vendor security-review ...`
#[derive(Debug, Clone)]
pub enum VendorSecurityReviewAction {
    /// List security reviews for a vendor.
    List {
        vendor_id: String,
        status: Option<SecurityReviewStatus>,
        review_type: Option<SecurityReviewType>,
        expand: Vec<String>,
        all: bool,
    },
    /// Create a security review.
    Create {
        vendor_id: String,
        review_deadline_at: String,
        status: SecurityReviewStatus,
        review_type: SecurityReviewType,
        title: Option<String>,
        note: Option<String>,
        requested_at: Option<String>,
        requester_user_id: Option<u64>,
        data: Option<String>,
        example: bool,
    },
    /// Get one security review.
    Get { vendor_id: String, security_review_id: u64, expand: Vec<String> },
    /// Update the title and/or SOC form of a security review.
    Update { vendor_id: String, security_review_id: u64, title: Option<String>, soc_form: Option<String> },
    /// List the available actions of a security review.
    Actions { vendor_id: String, security_review_id: u64 },
    /// Run a lifecycle action on a security review.
    RunAction { vendor_id: String, security_review_id: u64, action: SecurityReviewAction },
    /// List the questionnaires attached to a security review.
    Questionnaires { vendor_id: String, security_review_id: u64 },
}

/// Treatment plan of a risk.
#[derive(Debug, Clone, Copy, PartialEq, Eq, Structural)]
pub enum RiskTreatmentPlan {
    Untreated,
    Accept,
    Transfer,
    Avoid,
    Mitigate,
}

/// Status of a risk.
#[derive(Debug, Clone, Copy, PartialEq, Eq, Structural)]
pub enum RiskStatus {
    Active,
    Archived,
    Closed,
}

/// `drata risk ...`. The impact and likelihood scores are given on the
/// command line as numbers; each is held here as the JSON value the request
/// body carries for it.
#[derive(Debug)]
pub enum RiskAction {
    /// List the risks of a register.
    List { register_id: String, all: bool, expand: Vec<String> },
    /// Get one risk.
    Get { register_id: String, risk_id: String, expand: Vec<String> },
    /// Create a risk; the register ID is required unless `example` is set.
    Create {
        register_id: Option<String>,
        title: Option<String>,
        description: Option<String>,
        treatment_plan: Option<RiskTreatmentPlan>,
        impact: Option<Json>,
        likelihood: Option<Json>,
        status: Option<RiskStatus>,
        example: bool,
    },
    /// Update a risk.
    Update {
        register_id: String,
        risk_id: String,
        title: Option<String>,
        description: Option<String>,
        treatment_plan: Option<RiskTreatmentPlan>,
        impact: Option<Json>,
        likelihood: Option<Json>,
        status: Option<RiskStatus>,
    },
    /// The insights of a register.
    Insights { register_id: String },
    /// Upload documents to a risk (multipart, one `files` part each).
    Upload { register_id: String, risk_id: String, files: Vec<String> },
}

/// `drata control ...`
#[derive(Debug, Clone)]
pub enum ControlAction {
    /// List controls in a workspace.
    List { workspace_id: String, all: bool, expand: Vec<String> },
    /// Get a control.
    Get { workspace_id: String, control_id: String, expand: Vec<String> },
    /// Create a control (`workspace_id` is required unless `example`).
    Create {
        workspace_id: Option<String>,
        name: Option<String>,
        description: Option<String>,
        code: Option<String>,
        question: Option<String>,
        activity: Option<String>,
        example: bool,
    },
    /// Update a control.
    Update {
        workspace_id: String,
        control_id: String,
        name: Option<String>,
        description: Option<String>,
        question: Option<String>,
        activity: Option<String>,
    },
    /// List the requirements mapped to a control.
    Requirements { workspace_id: String, control_id: String },
    /// Compare control-requirement mappings.
    Compare { workspace_id: String, control_ids: Vec<u64> },
}

/// Type of a device document.
#[derive(Debug, Clone, Copy, PartialEq, Eq, Structural)]
pub enum DeviceDocumentType {
    PasswordManagerEvidence,
    AutoUpdatesEvidence,
    HardDriveEncryptionEvidence,
    AntivirusEvidence,
    LockScreenEvidence,
}

/// `drata device ...`
#[derive(Debug, Clone)]
pub enum DeviceAction {
    /// List all devices.
    List { all: bool, expand: Vec<String> },
    /// Get a device.
    Get { device_id: String, expand: Vec<String> },
    /// List the devices of a personnel member.
    ForPersonnel { personnel_id: String, expand: Vec<String> },
    /// List the apps installed on a device.
    Apps { device_id: String },
    /// Upload a document for a device (multipart).
    Upload { device_id: String, file: String, doc_type: DeviceDocumentType },
}

/// Employment status of a personnel record.
#[derive(Debug, Clone, Copy, PartialEq, Eq, Structural)]
pub enum EmploymentStatus {
    CurrentEmployee,
    FormerEmployee,
    CurrentContractor,
    FormerContractor,
    OutOfScope,
    Unknown,
    SpecialFormerEmployee,
    SpecialFormerContractor,
    FutureHire,
    ServiceAccount,
}

/// `drata personnel ...`
#[derive(Debug, Clone)]
pub enum PersonnelAction {
    /// List all personnel.
    List { all: bool, expand: Vec<String> },
    /// Get a personnel record.
    Get { personnel_id: String, expand: Vec<String> },
    /// Update a personnel record.
    Update {
        personnel_id: String,
        employment_status: Option<EmploymentStatus>,
        started_at: Option<String>,
        separated_at: Option<String>,
        not_human_reason: Option<String>,
    },
}

/// Source type of a policy.
#[derive(Debug, Clone, Copy, PartialEq, Eq, Structural)]
pub enum PolicySourceType {
    Uploaded,
    External,
}

/// `drata policy ...`
#[derive(Debug, Clone)]
pub enum PolicyAction {
    /// List all policies.
    List { all: bool, expand: Vec<String> },
    /// Get a policy.
    Get { policy_id: String, expand: Vec<String> },
    /// Create a policy.
    Create {
        name: Option<String>,
        owner_id: Option<u64>,
        source_type: Option<PolicySourceType>,
        description: Option<String>,
        renewal_date: Option<String>,
        file: Option<String>,
        example: bool,
    },
    /// Update a policy.
    Update {
        policy_id: String,
        name: Option<String>,
        owner_id: Option<u64>,
        description: Option<String>,
        renewal_date: Option<String>,
    },
    /// List the available actions on a policy.
    Actions { policy_id: String },
    /// List the versions of a policy.
    Versions { policy_id: String, expand: Vec<String> },
    /// Get one version of a policy.
    Version { policy_id: String, version_id: String },
}

/// Renewal schedule of an evidence library item.
#[derive(Debug, Clone, Copy, PartialEq, Eq, Structural)]
pub enum RenewalScheduleType {
    OneMonth,
    TwoMonths,
    ThreeMonths,
    SixMonths,
    OneYear,
    Custom,
    /// No renewal schedule (`NONE`).
    NoSchedule,
}

/// `drata evidence ...`
#[derive(Debug, Clone)]
pub enum EvidenceAction {
    /// List evidence library items in a workspace.
    List { workspace_id: String, all: bool, expand: Vec<String> },
    /// Get an evidence library item.
    Get { workspace_id: String, evidence_id: String, expand: Vec<String> },
    /// Create an evidence library item.
    Create {
        workspace_id: Option<String>,
        name: Option<String>,
        description: Option<String>,
        renewal_schedule_type: Option<RenewalScheduleType>,
        file: Option<String>,
        example: bool,
    },
    /// Update an evidence library item.
    Update {
        workspace_id: String,
        evidence_id: String,
        name: Option<String>,
        description: Option<String>,
        renewal_schedule_type: Option<RenewalScheduleType>,
        file: Option<String>,
    },
    /// Remove an evidence library item.
    Remove { workspace_id: String, evidence_id: String },
    /// Get one version of an evidence library item.
    GetVersion { workspace_id: String, evidence_id: String, version_id: String, expand: Vec<String> },
}

/// `drata framework ...`
#[derive(Debug, Clone)]
pub enum FrameworkAction {
    /// List frameworks in a workspace.
    List { workspace_id: String },
    /// Create a framework.
    Create {
        workspace_id: Option<String>,
        name: Option<String>,
        short_name: Option<String>,
        description: Option<String>,
        example: bool,
    },
    /// Update a framework.
    Update { workspace_id: String, framework_id: String, name: Option<String>, description: Option<String> },
    /// List the requirements of a framework.
    Requirements { workspace_id: String, framework_id: String },
}

/// Type of an asset.
#[derive(Debug, Clone, Copy, PartialEq, Eq, Structural)]
pub enum AssetType {
    Physical,
    Virtual,
}

/// Class type of an asset.
#[derive(Debug, Clone, Copy, PartialEq, Eq, Structural)]
pub enum AssetClassType {
    Hardware,
    Policy,
    Document,
    Personnel,
    Software,
    Code,
    Container,
    Compute,
    Networking,
    Database,
    Storage,
}

/// `drata asset ...`
#[derive(Debug, Clone)]
pub enum AssetAction {
    /// List all assets.
    List { all: bool, expand: Vec<String> },
    /// Get an asset.
    Get { asset_id: String, expand: Vec<String> },
    /// Create an asset.
    Create {
        name: Option<String>,
        description: Option<String>,
        asset_type: Option<AssetType>,
        asset_class_types: Vec<AssetClassType>,
        owner_id: Option<u64>,
        notes: Option<String>,
        example: bool,
    },
    /// Update an asset.
    Update {
        asset_id: String,
        name: Option<String>,
        description: Option<String>,
        asset_type: Option<AssetType>,
        notes: Option<String>,
    },
    /// Delete an asset.
    Remove { asset_id: String },
}

/// `drata company ...`
#[derive(Debug, Clone, Copy, PartialEq, Eq, Structural)]
pub enum CompanyAction {
    /// Get company information.
    Get,
}

/// `drata workspace ...`
#[derive(Debug, Clone, Copy, PartialEq, Eq, Structural)]
pub enum WorkspaceAction {
    /// List all workspaces.
    List,
}

/// `drata register ...`
#[derive(Debug, Clone)]
pub enum RegisterAction {
    /// List all risk registers.
    List,
    /// Get a risk register.
    Get { register_id: String },
    /// Create a risk register. An absent ID list leaves the field unset; an
    /// empty one clears it.
    Create {
        name: Option<String>,
        description: Option<String>,
        owner_ids: Option<Vec<u64>>,
        workspace_ids: Option<Vec<u64>>,
        example: bool,
    },
    /// Update a risk register.
    Update {
        register_id: String,
        name: Option<String>,
        description: Option<String>,
        owner_ids: Option<Vec<u64>>,
        workspace_ids: Option<Vec<u64>>,
    },
    /// Delete a risk register.
    Remove { register_id: String },
}

/// `drata user ...`
#[derive(Debug, Clone)]
pub enum UserAction {
    /// List all users.
    List { all: bool },
    /// Get a user.
    Get { user_id: String },
    /// List all roles.
    Roles,
    /// Get a role.
    Role { role_id: String },
    /// List the users of a role.
    RoleUsers { role_id: String, all: bool },
}

/// `drata monitor ...`
#[derive(Debug, Clone)]
pub enum MonitorAction {
    /// List monitoring tests in a workspace.
    List { workspace_id: String, all: bool },
    /// Get a monitoring test.
    Get { workspace_id: String, test_id: String },
    /// Update a monitoring test.
    Update {
        workspace_id: String,
        test_id: String,
        name: Option<String>,
        enabled: Option<bool>,
        description: Option<String>,
    },
    /// List the exclusions of a monitoring test.
    Exclusions { workspace_id: String, test_id: String },
    /// List the recent failures of a monitoring test.
    Failures { workspace_id: String, test_id: String },
    /// List the recent passes of a monitoring test.
    Passes { workspace_id: String, test_id: String },
}

/// `drata audit ...`
#[derive(Debug, Clone)]
pub enum AuditAction {
    /// List audits in a workspace.
    List { workspace_id: String, all: bool },
    /// Get an audit.
    Get { workspace_id: String, audit_id: String },
}

/// `drata event ...`
#[derive(Debug, Clone)]
pub enum EventAction {
    /// List all events.
    List { all: bool },
    /// Get an event.
    Get { event_id: String },
}

} // verus!
